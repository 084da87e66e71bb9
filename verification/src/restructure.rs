//! The expansion of lists of values: the i-th case binds each parameter of
//! the function to the i-th value of the list that is declared under the
//! parameter's name.

use crate::attribute::{ParameterListView, ParameterizedList};
use crate::counter::CaseCounter;
use crate::error::ExpansionError;
use crate::fun::{Parameter, TestFn, TestFnView};
use crate::generated::{
    is_module_of, module_of, Binding, CaseAttribute, GeneratedCase, GeneratedCaseView,
    GeneratedModule, GeneratedModuleView,
};
use crate::syntax::{ident_text, is_test_marker, marks_test, plain_ident};
use crate::text::{decimal, decimal_digits, decimal_digits_are_digits, is_letter};
use crate::validation::{
    a_duplicate_is_not_distinct, all_declared, all_known, case_count, check_all_input_lengths,
    check_identifiers_known, declares, distinct, index_identifiers, is_first_bare,
    is_first_duplicate, is_first_stray, is_first_unequal, is_sorted_listing, list_named, listing,
    names, names_parameter, resolve_parameters, same_lengths, well_formed,
};
use proc_macro2::Ident;
use syn::{Attribute, Expr};
use vstd::prelude::*;

verus! {

/// The place of the last attribute that marks a test, if there is one.
pub open spec fn last_marker(attrs: Seq<Attribute>) -> Option<int>
    decreases attrs.len(),
{
    if attrs.len() == 0 {
        None
    } else if marks_test(attrs.last()) {
        Some(attrs.len() - 1)
    } else {
        last_marker(attrs.drop_last())
    }
}

/// The attributes without the last of them that marks a test.
pub open spec fn without_last_marker(attrs: Seq<Attribute>) -> Seq<Attribute> {
    match last_marker(attrs) {
        Some(at) => attrs.remove(at),
        None => attrs,
    }
}

/// The attributes as they stand on a generated case, behind the mark of a
/// test.
pub open spec fn marked(kept: Seq<Attribute>) -> Seq<CaseAttribute> {
    seq![CaseAttribute::TestMarker] + Seq::new(kept.len(), |i: int| CaseAttribute::Copied(kept[i]))
}

/// The attributes of a generated case: the mark of a test, then the
/// attributes of the function without the last of them that marks a test.
pub open spec fn case_attributes(attrs: Seq<Attribute>) -> Seq<CaseAttribute> {
    marked(without_last_marker(attrs))
}

/// The last marker is a marker, and no marker follows it; where there is
/// none, no attribute is a marker.
pub proof fn last_marker_is_last(attrs: Seq<Attribute>)
    ensures
        match last_marker(attrs) {
            Some(at) => {
                &&& 0 <= at < attrs.len()
                &&& marks_test(attrs[at])
                &&& forall|i: int| at < i < attrs.len() ==> !marks_test(#[trigger] attrs[i])
            },
            None => forall|i: int| 0 <= i < attrs.len() ==> !marks_test(#[trigger] attrs[i]),
        },
    decreases attrs.len(),
{
    if attrs.len() > 0 && !marks_test(attrs.last()) {
        last_marker_is_last(attrs.drop_last());
        let shorter = attrs.drop_last();
        assert forall|i: int| 0 <= i < shorter.len() implies shorter[i] == attrs[i] by {}
        match last_marker(shorter) {
            Some(at) => {
                assert forall|i: int| at < i < attrs.len() implies !marks_test(
                    #[trigger] attrs[i],
                ) by {
                    if i < shorter.len() {
                        assert(!marks_test(shorter[i]));
                    }
                }
            },
            None => {
                assert forall|i: int| 0 <= i < attrs.len() implies !marks_test(
                    #[trigger] attrs[i],
                ) by {
                    if i < shorter.len() {
                        assert(!marks_test(shorter[i]));
                    }
                }
            },
        }
    }
}

/// Removes the last attribute that marks a test.
///
/// The expansion marks every case that it generates. A mark that the
/// author has set below the attribute, for tools that do not expand it,
/// would mark the case a second time.
pub fn remove_test_attribute(attributes: &mut Vec<Attribute>)
    ensures
        final(attributes)@ == without_last_marker(old(attributes)@),
{
    let mut at: usize = attributes.len();
    assert(attributes@.take(at as int) == attributes@);
    while at > 0
        invariant
            at <= attributes.len(),
            *attributes == *old(attributes),
            last_marker(attributes@) == last_marker(attributes@.take(at as int)),
        decreases at,
    {
        proof {
            assert(attributes@.take(at as int).drop_last() == attributes@.take(at - 1));
        }
        at = at - 1;
        if is_test_marker(&attributes[at]) {
            attributes.remove(at);
            return ;
        }
    }
}

/// The attributes of one generated case. `kept` holds the attributes of
/// the function that go over to the cases.
pub(crate) fn attributes_of_case(kept: &Vec<Attribute>) -> (attrs: Vec<CaseAttribute>)
    ensures
        attrs@ == marked(kept@),
{
    let mut attrs: Vec<CaseAttribute> = Vec::new();
    attrs.push(CaseAttribute::TestMarker);
    let mut i: usize = 0;
    while i < kept.len()
        invariant
            i <= kept.len(),
            attrs@ == marked(kept@.take(i as int)),
        decreases kept.len() - i,
    {
        attrs.push(CaseAttribute::Copied(kept[i].clone()));
        i = i + 1;
    }
    attrs
}

/// The name of the case with the number `n`: `case_` and the number.
pub open spec fn case_name(n: nat) -> Seq<char> {
    seq!['c', 'a', 's', 'e', '_'] + decimal_digits(n)
}

/// The identifier that names the case with the number `n`.
pub fn case_ident(n: usize) -> (ident: Ident)
    ensures
        ident_text(ident) == case_name(n as nat),
{
    let mut text = String::from_str("case_");
    let digits = decimal(n);
    text.append(digits.as_str());
    proof {
        reveal_strlit("case_");
        decimal_digits_are_digits(n as nat);
    }
    plain_ident(text.as_str())
}

/// What the case `i` binds `param` to: the value at `i` of the list that is
/// declared under the parameter's name, with the parameter's type.
pub open spec fn binding_at(lists: Seq<ParameterListView>, param: Parameter, i: int) -> Binding {
    Binding {
        ident: param.ident,
        ty: param.ty,
        expr: lists[list_named(lists, ident_text(param.ident))].values[i],
    }
}

/// The bindings of the case `i`: one for each parameter, in the order of
/// the parameters.
pub open spec fn bindings_at(
    lists: Seq<ParameterListView>,
    params: Seq<Parameter>,
    i: int,
) -> Seq<Binding> {
    Seq::new(params.len(), |k: int| binding_at(lists, params[k], i))
}

/// `case` is the case `i` of the expansion, and has the number `id`.
pub open spec fn is_value_source_case(
    case: GeneratedCaseView,
    lists: Seq<ParameterListView>,
    target: TestFnView,
    id: nat,
    i: int,
) -> bool {
    &&& ident_text(case.name) == case_name(id)
    &&& case.attrs == case_attributes(target.attrs)
    &&& case.vis == target.vis
    &&& case.bindings == bindings_at(lists, target.params, i)
    &&& case.body == target.body
}

/// `module` is what the lists generate for the function `target` when the
/// first case gets the number `first_id`: a case for each place in the
/// lists, in that order and numbered in a row.
pub open spec fn is_value_source_module(
    module: GeneratedModuleView,
    lists: Seq<ParameterListView>,
    target: TestFnView,
    first_id: nat,
) -> bool {
    &&& is_module_of(module, target.name, target.vis)
    &&& module.cases.len() == case_count(lists)
    &&& forall|i: int|
        0 <= i < module.cases.len() ==> is_value_source_case(
            #[trigger] module.cases[i],
            lists,
            target,
            (first_id + i) as nat,
            i,
        )
}

/// `error` is the reason for which the lists are not expanded for a
/// function with the parameters `params`. The checks are made in this
/// order: an identifier that is declared twice, a list of another length
/// than the first, an identifier that names no parameter, a parameter
/// without a list, and a counter without room.
pub open spec fn is_value_source_refusal(
    error: ExpansionError,
    lists: Seq<ParameterListView>,
    params: Seq<Parameter>,
    first_id: nat,
) -> bool {
    match error {
        ExpansionError::DuplicateIdentifier { id } => exists|k: int| #[trigger]
            is_first_duplicate(names(lists), k) && id == lists[k].id,
        ExpansionError::UnequalLength { id, expected, found, lengths } => {
            &&& distinct(names(lists))
            &&& expected == case_count(lists)
            &&& is_sorted_listing(listing(lengths@), lists)
            &&& exists|k: int| #[trigger]
                is_first_unequal(lists, k) && id == lists[k].id && found == lists[k].values.len()
        },
        ExpansionError::UnknownParameter { id } => {
            &&& distinct(names(lists))
            &&& same_lengths(lists)
            &&& {
                ||| exists|j: int| #[trigger] is_first_stray(lists, params, j) && id == lists[j].id
                ||| all_known(lists, params) && exists|k: int| #[trigger]
                    is_first_bare(lists, params, k) && id == params[k].ident
            }
        },
        ExpansionError::CaseIdsExhausted => well_formed(lists, params) && first_id + case_count(
            lists,
        ) > usize::MAX,
        _ => false,
    }
}

/// What is refused is not well formed, or finds no room in the counter.
pub proof fn refusal_has_a_reason(
    error: ExpansionError,
    lists: Seq<ParameterListView>,
    params: Seq<Parameter>,
    first_id: nat,
)
    requires
        is_value_source_refusal(error, lists, params, first_id),
    ensures
        !(well_formed(lists, params) && first_id + case_count(lists) <= usize::MAX),
{
    match error {
        ExpansionError::DuplicateIdentifier { id } => {
            let k = choose|k: int| #[trigger]
                is_first_duplicate(names(lists), k) && id == lists[k].id;
            a_duplicate_is_not_distinct(names(lists), k);
        },
        ExpansionError::UnequalLength { id, expected, found, lengths } => {},
        ExpansionError::UnknownParameter { id } => {
            if exists|j: int| #[trigger] is_first_stray(lists, params, j) && id == lists[j].id {
                let j = choose|j: int| #[trigger]
                    is_first_stray(lists, params, j) && id == lists[j].id;
                assert(!names_parameter(params, ident_text(lists[j].id)));
            } else {
                let k = choose|k: int| #[trigger]
                    is_first_bare(lists, params, k) && id == params[k].ident;
                assert(!declares(lists, ident_text(params[k].ident)));
            }
        },
        _ => {},
    }
}

/// A copy of the attributes.
pub(crate) fn copy_attributes(attrs: &Vec<Attribute>) -> (copy: Vec<Attribute>)
    ensures
        copy@ == attrs@,
{
    let mut copy: Vec<Attribute> = Vec::new();
    let mut i: usize = 0;
    while i < attrs.len()
        invariant
            i <= attrs.len(),
            copy@ == attrs@.take(i as int),
        decreases attrs.len() - i,
    {
        copy.push(attrs[i].clone());
        i = i + 1;
    }
    copy
}

/// The bindings of the case `i`. `places` holds for each parameter the
/// place of the list that is declared under its name.
fn bind_case(
    lists: &ParameterizedList,
    params: &Vec<Parameter>,
    places: &Vec<usize>,
    i: usize,
) -> (bindings: Vec<Binding>)
    requires
        same_lengths(lists@),
        all_declared(lists@, params@),
        i < case_count(lists@),
        places@.len() == params@.len(),
        forall|k: int|
            0 <= k < places@.len() ==> (#[trigger] places@[k]) == list_named(
                lists@,
                ident_text(params@[k].ident),
            ),
    ensures
        bindings@ == bindings_at(lists@, params@, i as int),
{
    let mut bindings: Vec<Binding> = Vec::new();
    let mut k: usize = 0;
    while k < params.len()
        invariant
            k <= params.len(),
            same_lengths(lists@),
            all_declared(lists@, params@),
            i < case_count(lists@),
            places@.len() == params@.len(),
            forall|k: int|
                0 <= k < places@.len() ==> (#[trigger] places@[k]) == list_named(
                    lists@,
                    ident_text(params@[k].ident),
                ),
            bindings@ == bindings_at(lists@, params@.take(k as int), i as int),
        decreases params.len() - k,
    {
        let place = places[k];
        proof {
            assert(declares(lists@, ident_text(params@[k as int].ident)));
        }
        let list = &lists.args[place];
        bindings.push(create_binding(&params[k], &list.param_args[i]));
        k = k + 1;
    }
    bindings
}

/// `let ident: ty = expr;` for a parameter and the expression that a case
/// gives it.
pub fn create_binding(param: &Parameter, expr: &Expr) -> (binding: Binding)
    ensures
        binding == (Binding { ident: param.ident, ty: param.ty, expr: *expr }),
{
    Binding { ident: param.ident.clone(), ty: param.ty.clone(), expr: expr.clone() }
}

/// Expands lists of values for the function `fun`.
///
/// The lists are well formed where no identifier is declared twice, all
/// lists are equally long, and the identifiers are the names of the
/// parameters of `fun`. Then a case is generated for each place in the
/// lists: the case `i` binds each parameter to the value at `i` of its
/// list and is named `case_` and its number, which `counter` hands out.
/// Anything else is refused, and then nothing is generated and the counter
/// stays as it is.
pub fn impl_value_source(
    lists: &ParameterizedList,
    fun: &TestFn,
    counter: &mut CaseCounter,
) -> (generated: Result<GeneratedModule, ExpansionError>)
    ensures
        generated is Ok <==> well_formed(lists@, fun@.params) && old(counter).next_id()
            + case_count(lists@) <= usize::MAX,
        match generated {
            Ok(module) => {
                &&& is_value_source_module(module@, lists@, fun@, old(counter).next_id())
                &&& final(counter).next_id() == old(counter).next_id() + case_count(lists@)
            },
            Err(error) => {
                &&& is_value_source_refusal(error, lists@, fun@.params, old(counter).next_id())
                &&& final(counter).next_id() == old(counter).next_id()
            },
        },
{
    let params = fun.parameters();
    let index = match index_identifiers(lists) {
        Ok(index) => index,
        Err(error) => {
            proof {
                refusal_has_a_reason(error, lists@, fun@.params, old(counter).next_id());
            }
            return Err(error);
        },
    };
    let count = match check_all_input_lengths(lists) {
        Ok(count) => count,
        Err(error) => {
            proof {
                refusal_has_a_reason(error, lists@, fun@.params, old(counter).next_id());
            }
            return Err(error);
        },
    };
    match check_identifiers_known(lists, params) {
        Ok(_) => {},
        Err(error) => {
            proof {
                refusal_has_a_reason(error, lists@, fun@.params, old(counter).next_id());
            }
            return Err(error);
        },
    }
    let places = match resolve_parameters(&index, lists, params) {
        Ok(places) => places,
        Err(error) => {
            proof {
                refusal_has_a_reason(error, lists@, fun@.params, old(counter).next_id());
            }
            return Err(error);
        },
    };
    let first_id = match counter.reserve(count) {
        Some(first_id) => first_id,
        None => {
            return Err(ExpansionError::CaseIdsExhausted);
        },
    };
    let mut kept = copy_attributes(fun.attrs());
    remove_test_attribute(&mut kept);
    let mut cases: Vec<GeneratedCase> = Vec::new();
    let mut i: usize = 0;
    while i < count
        invariant
            i <= count,
            count == case_count(lists@),
            first_id + count <= usize::MAX,
            params@ == fun@.params,
            same_lengths(lists@),
            all_declared(lists@, params@),
            places@.len() == params@.len(),
            forall|k: int|
                0 <= k < places@.len() ==> (#[trigger] places@[k]) == list_named(
                    lists@,
                    ident_text(params@[k].ident),
                ),
            kept@ == without_last_marker(fun@.attrs),
            cases@.len() == i,
            forall|c: int|
                0 <= c < i ==> is_value_source_case(
                    (#[trigger] cases@[c])@,
                    lists@,
                    fun@,
                    (first_id + c) as nat,
                    c,
                ),
        decreases count - i,
    {
        let case = GeneratedCase {
            name: case_ident(first_id + i),
            attrs: attributes_of_case(&kept),
            vis: fun.vis().clone(),
            bindings: bind_case(lists, params, &places, i),
            body: fun.body().clone(),
        };
        cases.push(case);
        i = i + 1;
    }
    Ok(module_of(fun.name(), fun.vis(), cases))
}

} // verus!
