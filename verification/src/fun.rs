//! The function under the attribute: its name, visibility, attributes,
//! parameters and body.

use crate::error::{Expected, ExpansionError, SyntaxError, SyntaxFault};
use crate::syntax::{function_in, ident_string, ident_text, parse_function, Input};
use proc_macro2::{Ident, TokenStream};
use syn::{Attribute, Block, Type, Visibility};
use vstd::prelude::*;

verus! {

/// A parameter of the function: a name and its type.
#[derive(Debug, Clone)]
pub struct Parameter {
    pub ident: Ident,
    pub ty: Type,
}

/// The function that is expanded. Each of its parameters is a plain
/// `name: Type`.
#[derive(Debug, Clone)]
pub struct TestFn {
    name: Ident,
    vis: Visibility,
    attrs: Vec<Attribute>,
    params: Vec<Parameter>,
    body: Block,
}

/// A `TestFn` with sequences for its vectors.
pub struct TestFnView {
    pub name: Ident,
    pub vis: Visibility,
    pub attrs: Seq<Attribute>,
    pub params: Seq<Parameter>,
    pub body: Block,
}

impl View for TestFn {
    type V = TestFnView;

    closed spec fn view(&self) -> TestFnView {
        TestFnView {
            name: self.name,
            vis: self.vis,
            attrs: self.attrs@,
            params: self.params@,
            body: self.body,
        }
    }
}

/// The names of the parameters as they are written.
pub open spec fn parameter_names(params: Seq<Parameter>) -> Seq<Seq<char>> {
    Seq::new(params.len(), |k: int| ident_text(params[k].ident))
}

/// The names one after the other, each followed by a comma and a space.
pub open spec fn listed(names: Seq<Seq<char>>) -> Seq<char>
    decreases names.len(),
{
    if names.len() == 0 {
        Seq::empty()
    } else {
        listed(names.drop_last()) + names.last() + ", "@
    }
}

/// Every argument is a plain `name: Type`.
pub open spec fn all_named(inputs: Seq<Input>) -> bool {
    forall|k: int| 0 <= k < inputs.len() ==> (#[trigger] inputs[k]) is Named
}

/// The argument at `position` is the first that is no plain `name: Type`.
pub open spec fn is_first_malformed(inputs: Seq<Input>, position: int) -> bool {
    &&& 0 <= position < inputs.len()
    &&& !(inputs[position] is Named)
    &&& all_named(inputs.take(position))
}

/// The parameter that a plain `name: Type` declares.
pub open spec fn parameter_of(input: Input) -> Parameter {
    Parameter { ident: input->ident, ty: input->ty }
}

/// The parameters that the arguments declare, in their order.
pub open spec fn parameters_of(inputs: Seq<Input>) -> Seq<Parameter> {
    Seq::new(inputs.len(), |k: int| parameter_of(inputs[k]))
}

/// What comes of a function with these parts: the function, where each of
/// its arguments is a plain `name: Type`, and else the place of the first
/// that is not.
pub open spec fn is_extraction(
    extracted: Result<TestFn, ExpansionError>,
    name: Ident,
    vis: Visibility,
    attrs: Seq<Attribute>,
    inputs: Seq<Input>,
    body: Block,
) -> bool {
    match extracted {
        Ok(fun) => all_named(inputs) && fun@ == (TestFnView {
            name,
            vis,
            attrs,
            params: parameters_of(inputs),
            body,
        }),
        Err(ExpansionError::MalformedParameter { position }) => is_first_malformed(
            inputs,
            position as int,
        ),
        Err(_) => false,
    }
}

impl TestFn {
    /// The function with these parts. A receiver among the arguments, or
    /// an argument that is no plain `name: Type`, is refused.
    pub fn new(
        name: Ident,
        vis: Visibility,
        attrs: Vec<Attribute>,
        inputs: Vec<Input>,
        body: Block,
    ) -> (extracted: Result<TestFn, ExpansionError>)
        ensures
            is_extraction(extracted, name, vis, attrs@, inputs@, body),
    {
        let mut params: Vec<Parameter> = Vec::new();
        let mut k: usize = 0;
        while k < inputs.len()
            invariant
                k <= inputs.len(),
                all_named(inputs@.take(k as int)),
                params@ == parameters_of(inputs@.take(k as int)),
            decreases inputs.len() - k,
        {
            match &inputs[k] {
                Input::Named { ident, ty } => {
                    params.push(Parameter { ident: ident.clone(), ty: ty.clone() });
                },
                _ => {
                    return Err(ExpansionError::MalformedParameter { position: k });
                },
            }
            k = k + 1;
        }
        assert(inputs@.take(k as int) == inputs@);
        Ok(TestFn { name, vis, attrs, params, body })
    }

    /// Reads the function definition under the attribute.
    pub fn parse(input: TokenStream) -> (extracted: Result<TestFn, ExpansionError>)
        ensures
            match function_in(input) {
                Some(parts) => is_extraction(
                    extracted,
                    parts.name,
                    parts.vis,
                    parts.attrs,
                    parts.inputs,
                    parts.body,
                ),
                None => {
                    &&& extracted matches Err(ExpansionError::Syntax(error))
                    &&& error@ == (SyntaxFault { at: 0, expected: Expected::Function })
                    &&& error.has_its_cause()
                },
            },
    {
        match parse_function(input) {
            Ok(parts) => TestFn::new(parts.name, parts.vis, parts.attrs, parts.inputs, parts.body),
            Err(cause) => Err(
                ExpansionError::Syntax(
                    SyntaxError { at: 0, expected: Expected::Function, cause: Some(cause) },
                ),
            ),
        }
    }

    /// The function in short: `TestFn(` and `)` around the names of the
    /// parameters, each followed by a comma and a space.
    pub fn describe(&self) -> (text: String)
        ensures
            text@ == "TestFn("@ + listed(parameter_names(self@.params)) + ")"@,
    {
        let mut text = String::from_str("TestFn(");
        let ghost names = parameter_names(self@.params);
        let ghost head = text@;
        let mut k: usize = 0;
        while k < self.params.len()
            invariant
                k <= self.params.len(),
                names == parameter_names(self@.params),
                head == "TestFn("@,
                text@ == head + listed(names.take(k as int)),
            decreases self.params.len() - k,
        {
            text.append(ident_string(&self.params[k].ident).as_str());
            text.append(", ");
            proof {
                let next = names.take(k + 1);
                assert(next.drop_last() == names.take(k as int));
            }
            k = k + 1;
        }
        assert(names.take(k as int) == names);
        text.append(")");
        text
    }

    /// The parameters in the order of their declaration.
    pub fn parameters(&self) -> (params: &Vec<Parameter>)
        ensures
            params@ == self@.params,
    {
        &self.params
    }

    /// The name of the function.
    pub fn name(&self) -> (name: &Ident)
        ensures
            *name == self@.name,
    {
        &self.name
    }

    /// The visibility of the function.
    pub fn vis(&self) -> (vis: &Visibility)
        ensures
            *vis == self@.vis,
    {
        &self.vis
    }

    /// The body of the function.
    pub fn body(&self) -> (body: &Block)
        ensures
            *body == self@.body,
    {
        &self.body
    }

    /// The attributes of the function, in the order in which they are
    /// written.
    pub fn attrs(&self) -> (attrs: &Vec<Attribute>)
        ensures
            attrs@ == self@.attrs,
    {
        &self.attrs
    }
}

} // verus!
