//! What an expansion generates: one test case for each declared case, in a
//! module that is named after the function.

use proc_macro2::Ident;
use syn::{Attribute, Block, Expr, Type, Visibility};
use vstd::prelude::*;

verus! {

/// `let ident: ty = expr;` at the head of a generated case.
#[derive(Debug, Clone)]
pub struct Binding {
    pub ident: Ident,
    pub ty: Type,
    pub expr: Expr,
}

/// An attribute of a generated case.
#[derive(Debug, Clone)]
pub enum CaseAttribute {
    /// The mark that makes the case a test. The expansion sets it.
    TestMarker,
    /// An attribute of the function, as it is written there.
    Copied(Attribute),
}

/// One generated test case: a function without parameters whose body binds
/// each parameter of the expanded function and goes on with that function's
/// body.
#[derive(Debug, Clone)]
pub struct GeneratedCase {
    pub name: Ident,
    pub attrs: Vec<CaseAttribute>,
    pub vis: Visibility,
    pub bindings: Vec<Binding>,
    pub body: Block,
}

/// A `GeneratedCase` with sequences for its vectors.
pub struct GeneratedCaseView {
    pub name: Ident,
    pub attrs: Seq<CaseAttribute>,
    pub vis: Visibility,
    pub bindings: Seq<Binding>,
    pub body: Block,
}

/// An attribute of the generated module.
#[derive(Debug, Clone, Copy, PartialEq, Eq, Structural)]
pub enum ModuleAttribute {
    /// `#[cfg(test)]`: the module is compiled for tests only.
    TestsOnly,
}

/// An import at the head of the generated module.
#[derive(Debug, Clone, Copy, PartialEq, Eq, Structural)]
pub enum Import {
    /// `use super::*;`: all that is in scope around the function is in
    /// scope for the cases.
    Surrounding,
}

/// The module that holds the generated cases. It has the name and the
/// visibility of the function, is compiled for tests only, and brings the
/// items of the surrounding module into scope.
#[derive(Debug, Clone)]
pub struct GeneratedModule {
    pub attrs: Vec<ModuleAttribute>,
    pub vis: Visibility,
    pub name: Ident,
    pub imports: Vec<Import>,
    pub cases: Vec<GeneratedCase>,
}

/// A `GeneratedModule` with sequences for its vectors.
pub struct GeneratedModuleView {
    pub attrs: Seq<ModuleAttribute>,
    pub vis: Visibility,
    pub name: Ident,
    pub imports: Seq<Import>,
    pub cases: Seq<GeneratedCaseView>,
}

/// `module` is a module for the cases of `target`: it is compiled for
/// tests only, has the visibility and the name of the function, and
/// imports what surrounds the function.
pub open spec fn is_module_of(module: GeneratedModuleView, name: Ident, vis: Visibility) -> bool {
    &&& module.attrs == seq![ModuleAttribute::TestsOnly]
    &&& module.vis == vis
    &&& module.name == name
    &&& module.imports == seq![Import::Surrounding]
}

/// The module for the cases of a function with this name and visibility.
pub fn module_of(name: &Ident, vis: &Visibility, cases: Vec<GeneratedCase>) -> (module:
    GeneratedModule)
    ensures
        is_module_of(module@, *name, *vis),
        module.cases == cases,
{
    let mut attrs: Vec<ModuleAttribute> = Vec::new();
    attrs.push(ModuleAttribute::TestsOnly);
    let mut imports: Vec<Import> = Vec::new();
    imports.push(Import::Surrounding);
    let module = GeneratedModule { attrs, vis: vis.clone(), name: name.clone(), imports, cases };
    module
}

impl View for GeneratedCase {
    type V = GeneratedCaseView;

    open spec fn view(&self) -> GeneratedCaseView {
        GeneratedCaseView {
            name: self.name,
            attrs: self.attrs@,
            vis: self.vis,
            bindings: self.bindings@,
            body: self.body,
        }
    }
}

impl View for GeneratedModule {
    type V = GeneratedModuleView;

    open spec fn view(&self) -> GeneratedModuleView {
        GeneratedModuleView {
            attrs: self.attrs@,
            vis: self.vis,
            name: self.name,
            imports: self.imports@,
            cases: Seq::new(self.cases@.len(), |i: int| self.cases@[i]@),
        }
    }
}

} // verus!
