//! The expansion case by case: each declaration names one case and gives
//! its arguments in the order of the function's parameters.

use crate::attribute::{ParameterListView, ParameterizedList};
use crate::error::ExpansionError;
use crate::fun::{Parameter, TestFn, TestFnView};
use crate::generated::{
    is_module_of, module_of, Binding, GeneratedCase, GeneratedCaseView, GeneratedModule,
    GeneratedModuleView,
};
use crate::restructure::{
    attributes_of_case, case_attributes, copy_attributes, create_binding, marked,
    remove_test_attribute, without_last_marker,
};
use crate::validation::{
    a_duplicate_is_not_distinct, distinct, index_identifiers, is_first_duplicate, names,
};
use proc_macro2::Ident;
use syn::{Attribute, Block, Expr, Visibility};
use vstd::prelude::*;

verus! {

/// The bindings of a case that gives `exprs` to the parameters, the first
/// expression to the first parameter and so on.
pub open spec fn positional_bindings(params: Seq<Parameter>, exprs: Seq<Expr>) -> Seq<Binding> {
    Seq::new(
        params.len(),
        |k: int| Binding { ident: params[k].ident, ty: params[k].ty, expr: exprs[k] },
    )
}

/// Every case gives as many arguments as the function has parameters.
pub open spec fn fits(cases: Seq<ParameterListView>, arity: nat) -> bool {
    forall|k: int| 0 <= k < cases.len() ==> (#[trigger] cases[k]).values.len() == arity
}

/// The case at `k` is the first whose number of arguments is not `arity`.
pub open spec fn is_first_misfit(cases: Seq<ParameterListView>, arity: nat, k: int) -> bool {
    &&& 0 <= k < cases.len()
    &&& cases[k].values.len() != arity
    &&& fits(cases.take(k), arity)
}

/// `case` is what `declared` generates for the function `target`: it has
/// the declared name and binds the parameters to the declared arguments.
pub open spec fn is_named_case(
    case: GeneratedCaseView,
    declared: ParameterListView,
    target: TestFnView,
) -> bool {
    &&& case.name == declared.id
    &&& case.attrs == case_attributes(target.attrs)
    &&& case.vis == target.vis
    &&& case.bindings == positional_bindings(target.params, declared.values)
    &&& case.body == target.body
}

/// `module` is what the declared cases generate for the function `target`:
/// a case for each declaration, in the order of the declarations.
pub open spec fn is_case_by_case_module(
    module: GeneratedModuleView,
    cases: Seq<ParameterListView>,
    target: TestFnView,
) -> bool {
    &&& is_module_of(module, target.name, target.vis)
    &&& module.cases.len() == cases.len()
    &&& forall|i: int|
        0 <= i < module.cases.len() ==> is_named_case(#[trigger] module.cases[i], cases[i], target)
}

/// `error` is the reason for which the cases are not expanded for a
/// function with the parameters `params`: first a name that is declared
/// twice, then a case with the wrong number of arguments.
pub open spec fn is_case_by_case_refusal(
    error: ExpansionError,
    cases: Seq<ParameterListView>,
    params: Seq<Parameter>,
) -> bool {
    match error {
        ExpansionError::DuplicateIdentifier { id } => exists|k: int| #[trigger]
            is_first_duplicate(names(cases), k) && id == cases[k].id,
        ExpansionError::ArityMismatch { case, expected, found } => {
            &&& distinct(names(cases))
            &&& expected == params.len()
            &&& exists|k: int| #[trigger]
                is_first_misfit(cases, params.len(), k) && case == cases[k].id && found
                    == cases[k].values.len()
        },
        _ => false,
    }
}

/// One generated case: `test_name` as its name, the mark of a test and
/// `attributes`, and a body that binds each parameter to the expression at
/// its place and goes on with `body`.
pub fn generate_test_case(
    test_name: &Ident,
    params: &Vec<Parameter>,
    exprs: &Vec<Expr>,
    body: &Block,
    vis: &Visibility,
    attributes: &Vec<Attribute>,
) -> (case: GeneratedCase)
    requires
        params@.len() <= exprs@.len(),
    ensures
        case@ == (GeneratedCaseView {
            name: *test_name,
            attrs: marked(attributes@),
            vis: *vis,
            bindings: positional_bindings(params@, exprs@),
            body: *body,
        }),
{
    let mut bindings: Vec<Binding> = Vec::new();
    let mut k: usize = 0;
    while k < params.len()
        invariant
            k <= params.len(),
            params@.len() <= exprs@.len(),
            bindings@ == positional_bindings(params@.take(k as int), exprs@),
        decreases params.len() - k,
    {
        bindings.push(create_binding(&params[k], &exprs[k]));
        k = k + 1;
    }
    assert(params@.take(k as int) == params@);
    GeneratedCase {
        name: test_name.clone(),
        attrs: attributes_of_case(attributes),
        vis: vis.clone(),
        bindings,
        body: body.clone(),
    }
}

/// Expands the declared cases for the function `fun`.
///
/// A case is generated for each declaration, under the declared name; it
/// binds the first parameter to the first argument and so on. A name that
/// is declared twice is refused, and so is a case that does not give as
/// many arguments as the function has parameters; then nothing is
/// generated.
pub fn impl_case_by_case(tests: &ParameterizedList, fun: &TestFn) -> (generated: Result<
    GeneratedModule,
    ExpansionError,
>)
    ensures
        generated is Ok <==> distinct(names(tests@)) && fits(tests@, fun@.params.len()),
        match generated {
            Ok(module) => is_case_by_case_module(module@, tests@, fun@),
            Err(error) => is_case_by_case_refusal(error, tests@, fun@.params),
        },
{
    let params = fun.parameters();
    match index_identifiers(tests) {
        Ok(_) => {},
        Err(error) => {
            proof {
                let id = error->DuplicateIdentifier_id;
                let k = choose|k: int| #[trigger]
                    is_first_duplicate(names(tests@), k) && id == tests@[k].id;
                a_duplicate_is_not_distinct(names(tests@), k);
            }
            return Err(error);
        },
    }
    let mut k: usize = 0;
    while k < tests.args.len()
        invariant
            k <= tests.args.len(),
            params@ == fun@.params,
            distinct(names(tests@)),
            fits(tests@.take(k as int), params@.len()),
        decreases tests.args.len() - k,
    {
        let found = tests.args[k].param_args.len();
        if found != params.len() {
            assert(is_first_misfit(tests@, params@.len(), k as int));
            return Err(
                ExpansionError::ArityMismatch {
                    case: tests.args[k].id.clone(),
                    expected: params.len(),
                    found,
                },
            );
        }
        proof {
            let seen = tests@.take(k as int);
            let next = tests@.take(k + 1);
            assert forall|j: int| 0 <= j < next.len() implies (#[trigger] next[j]).values.len()
                == params@.len() by {
                if j < k {
                    assert(seen[j] == next[j]);
                }
            }
        }
        k = k + 1;
    }
    assert(tests@.take(k as int) == tests@);
    let mut kept = copy_attributes(fun.attrs());
    remove_test_attribute(&mut kept);
    let mut cases: Vec<GeneratedCase> = Vec::new();
    let mut i: usize = 0;
    while i < tests.args.len()
        invariant
            i <= tests.args.len(),
            params@ == fun@.params,
            fits(tests@, params@.len()),
            kept@ == without_last_marker(fun@.attrs),
            cases@.len() == i,
            forall|c: int|
                0 <= c < i ==> is_named_case((#[trigger] cases@[c])@, tests@[c], fun@),
        decreases tests.args.len() - i,
    {
        let declared = &tests.args[i];
        assert(tests@[i as int].values.len() == params@.len());
        let case = generate_test_case(
            &declared.id,
            params,
            &declared.param_args,
            fun.body(),
            fun.vis(),
            &kept,
        );
        cases.push(case);
        i = i + 1;
    }
    Ok(module_of(fun.name(), fun.vis(), cases))
}

} // verus!
