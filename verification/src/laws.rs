//! What holds of every expansion.

use crate::attribute::ParameterListView;
use crate::case_by_case::{fits, is_case_by_case_module};
use crate::fun::{parameter_names, Parameter, TestFnView};
use crate::generated::{Binding, CaseAttribute, GeneratedModuleView};
use crate::restructure::{
    binding_at, bindings_at, case_attributes, case_name, is_value_source_module, last_marker,
    last_marker_is_last, without_last_marker,
};
use crate::syntax::{ident_text, marks_test};
use crate::text::{
    decimal_digits, decimal_digits_can_be_read, precedes, precedes_is_strict, precedes_is_total,
};
use crate::validation::{
    case_count, declares, distinct, is_sorted_listing, lengths_of, list_named,
    list_named_is_unique, names, names_parameter, same_lengths, sorted_by_name, well_formed,
};
use syn::Attribute;
use vstd::prelude::*;

verus! {

/// Well-formed lists of values generate a case for each place in the
/// lists. Every case has a binding for each parameter, in the order of the
/// parameters, and the case `i` binds a parameter to the value at `i` of
/// the list that is declared under the parameter's name.
pub proof fn lists_generate_a_case_for_each_place(
    module: GeneratedModuleView,
    lists: Seq<ParameterListView>,
    target: TestFnView,
    first_id: nat,
)
    requires
        well_formed(lists, target.params),
        is_value_source_module(module, lists, target, first_id),
    ensures
        forall|j: int|
            0 <= j < lists.len() ==> module.cases.len() == (#[trigger] lists[j]).values.len(),
        forall|i: int|
            0 <= i < module.cases.len() ==> (#[trigger] module.cases[i]).bindings.len()
                == target.params.len(),
        forall|i: int, j: int, k: int|
            0 <= i < module.cases.len() && 0 <= j < lists.len() && 0 <= k < target.params.len()
                && ident_text(lists[j].id) == ident_text(target.params[k].ident)
                ==> #[trigger] module.cases[i].bindings[k] == (Binding {
                ident: target.params[k].ident,
                ty: target.params[k].ty,
                expr: (#[trigger] lists[j]).values[i],
            }),
{
    assert forall|i: int, j: int, k: int|
        0 <= i < module.cases.len() && 0 <= j < lists.len() && 0 <= k < target.params.len()
            && ident_text(lists[j].id) == ident_text(target.params[k].ident)
        implies #[trigger] module.cases[i].bindings[k] == (Binding {
        ident: target.params[k].ident,
        ty: target.params[k].ty,
        expr: (#[trigger] lists[j]).values[i],
    }) by {
        list_named_is_unique(lists, j);
    }
}

/// Where no two parameters have the same name, well-formed lists declare
/// as many identifiers as the function has parameters.
pub proof fn lists_are_as_many_as_parameters(
    lists: Seq<ParameterListView>,
    params: Seq<Parameter>,
)
    requires
        well_formed(lists, params),
        distinct(parameter_names(params)),
    ensures
        lists.len() == params.len(),
{
    let declared = names(lists);
    let wanted = parameter_names(params);
    declared.unique_seq_to_set();
    wanted.unique_seq_to_set();
    assert forall|name: Seq<char>| declared.to_set().contains(name) == wanted.to_set().contains(
        name,
    ) by {
        if declared.contains(name) {
            let j = choose|j: int| 0 <= j < declared.len() && declared[j] == name;
            assert(names_parameter(params, ident_text(lists[j].id)));
            let k = choose|k: int|
                0 <= k < params.len() && ident_text((#[trigger] params[k]).ident) == name;
            assert(wanted[k] == name);
        }
        if wanted.contains(name) {
            let k = choose|k: int| 0 <= k < wanted.len() && wanted[k] == name;
            assert(declares(lists, ident_text(params[k].ident)));
            let j = choose|j: int|
                0 <= j < lists.len() && ident_text((#[trigger] lists[j]).id) == name;
            assert(declared[j] == name);
        }
    }
    assert(declared.to_set() =~= wanted.to_set());
}

/// Declared cases that fit the function generate a case for each
/// declaration, in the order of the declarations and under the declared
/// names. Every case binds the parameters in their order to the arguments
/// in theirs.
pub proof fn cases_generate_a_case_for_each_declaration(
    module: GeneratedModuleView,
    cases: Seq<ParameterListView>,
    target: TestFnView,
)
    requires
        fits(cases, target.params.len()),
        is_case_by_case_module(module, cases, target),
    ensures
        module.cases.len() == cases.len(),
        forall|i: int| 0 <= i < cases.len() ==> (#[trigger] module.cases[i]).name == cases[i].id,
        forall|i: int|
            0 <= i < cases.len() ==> (#[trigger] module.cases[i]).bindings.len()
                == target.params.len() && module.cases[i].bindings.len() == cases[i].values.len(),
        forall|i: int, k: int|
            0 <= i < cases.len() && 0 <= k < target.params.len()
                ==> #[trigger] module.cases[i].bindings[k] == (Binding {
                ident: target.params[k].ident,
                ty: target.params[k].ty,
                expr: cases[i].values[k],
            }),
{
}

/// `order` names every place below `n` once.
pub open spec fn is_reordering(order: Seq<int>, n: nat) -> bool {
    &&& order.len() == n
    &&& forall|j: int| 0 <= j < n ==> 0 <= #[trigger] order[j] < n
    &&& forall|i: int, j: int| 0 <= i < j < n ==> order[i] != order[j]
    &&& forall|p: int| 0 <= p < n ==> #[trigger] order.contains(p)
}

/// The lists in another order: at `j` stands the list that stood at
/// `order[j]`.
pub open spec fn reordered(lists: Seq<ParameterListView>, order: Seq<int>) -> Seq<
    ParameterListView,
> {
    Seq::new(lists.len(), |j: int| lists[order[j]])
}

/// The order in which the lists are declared does not matter: well-formed
/// lists stay well formed in any other order, declare as many cases, and
/// every case binds the parameters as before.
pub proof fn order_of_declarations_is_free(
    lists: Seq<ParameterListView>,
    order: Seq<int>,
    params: Seq<Parameter>,
)
    requires
        is_reordering(order, lists.len()),
        well_formed(lists, params),
    ensures
        well_formed(reordered(lists, order), params),
        case_count(reordered(lists, order)) == case_count(lists),
        forall|i: int|
            0 <= i < case_count(lists) ==> #[trigger] bindings_at(
                reordered(lists, order),
                params,
                i,
            ) == bindings_at(lists, params, i),
{
    let moved = reordered(lists, order);
    assert forall|a: int, b: int| 0 <= a < b < moved.len() implies names(moved)[a] != names(
        moved,
    )[b] by {
        let x = order[a];
        let y = order[b];
        if x < y {
            assert(names(lists)[x] != names(lists)[y]);
        } else {
            assert(names(lists)[y] != names(lists)[x]);
        }
    }
    if lists.len() > 0 {
        assert(lists[order[0]].values.len() == case_count(lists));
    }
    assert forall|j: int| 0 <= j < moved.len() implies (#[trigger] moved[j]).values.len()
        == case_count(moved) by {
        assert(lists[order[j]].values.len() == case_count(lists));
    }
    assert forall|j: int| 0 <= j < moved.len() implies names_parameter(
        params,
        ident_text((#[trigger] moved[j]).id),
    ) by {
        assert(names_parameter(params, ident_text(lists[order[j]].id)));
    }
    assert forall|k: int| 0 <= k < params.len() implies declares(
        moved,
        ident_text((#[trigger] params[k]).ident),
    ) && moved[list_named(moved, ident_text(params[k].ident))] == lists[list_named(
        lists,
        ident_text(params[k].ident),
    )] by {
        let name = ident_text(params[k].ident);
        let from = list_named(lists, name);
        assert(order.contains(from));
        let to = choose|j: int| 0 <= j < order.len() && order[j] == from;
        assert(ident_text(moved[to].id) == name);
        let found = list_named(moved, name);
        list_named_is_unique(lists, order[found]);
    }
    assert forall|i: int| 0 <= i < case_count(lists) implies #[trigger] bindings_at(
        moved,
        params,
        i,
    ) == bindings_at(lists, params, i) by {
        assert(bindings_at(moved, params, i) =~= bindings_at(lists, params, i));
    }
}

/// Two lists of different lengths are never expanded, whichever of them
/// is the shorter and wherever they stand.
pub proof fn lists_of_different_lengths_are_refused(
    lists: Seq<ParameterListView>,
    params: Seq<Parameter>,
    a: int,
    b: int,
)
    requires
        0 <= a < lists.len(),
        0 <= b < lists.len(),
        lists[a].values.len() != lists[b].values.len(),
    ensures
        !same_lengths(lists),
        !well_formed(lists, params),
{
}

/// An identifier that is declared twice is never expanded, neither as the
/// name of a list nor as the name of a case.
pub proof fn identifiers_declared_twice_are_refused(
    lists: Seq<ParameterListView>,
    params: Seq<Parameter>,
    a: int,
    b: int,
)
    requires
        0 <= a < b < lists.len(),
        ident_text(lists[a].id) == ident_text(lists[b].id),
    ensures
        !distinct(names(lists)),
        !well_formed(lists, params),
{
    assert(names(lists)[a] == names(lists)[b]);
}

/// Cases with different numbers have different names.
pub proof fn numbered_cases_have_names_of_their_own(a: nat, b: nat)
    requires
        a != b,
    ensures
        case_name(a) != case_name(b),
{
    decimal_digits_can_be_read(a);
    decimal_digits_can_be_read(b);
    assert(case_name(a).skip(5) =~= decimal_digits(a));
    assert(case_name(b).skip(5) =~= decimal_digits(b));
}

/// The lengths of the lists can be listed in one way only: where no
/// identifier is declared twice, two listings of the same lists that are
/// sorted by name are the same.
pub proof fn sorted_listing_is_unique(
    one: Seq<(Seq<char>, nat)>,
    other: Seq<(Seq<char>, nat)>,
    lists: Seq<ParameterListView>,
)
    requires
        distinct(names(lists)),
        is_sorted_listing(one, lists),
        is_sorted_listing(other, lists),
    ensures
        one == other,
{
    let declared = lengths_of(lists);
    assert forall|x: (Seq<char>, nat), y: (Seq<char>, nat)|
        declared.contains(x) && declared.contains(y) && x.0 == y.0 implies x == y by {
        let i = choose|i: int| 0 <= i < declared.len() && declared[i] == x;
        let j = choose|j: int| 0 <= j < declared.len() && declared[j] == y;
        assert(names(lists)[i] == names(lists)[j]);
    }
    one.to_multiset_ensures();
    declared.to_multiset_ensures();
    assert forall|x: (Seq<char>, nat)| one.contains(x) implies declared.contains(x) by {
        assert(one.to_multiset().count(x) > 0);
    }
    sorted_sequences_of_the_same_entries_are_the_same(one, other, declared);
}

/// Two sequences that are sorted by name and hold the same entries, each
/// as often as the other, are the same, where the entries differ in their
/// names.
proof fn sorted_sequences_of_the_same_entries_are_the_same(
    one: Seq<(Seq<char>, nat)>,
    other: Seq<(Seq<char>, nat)>,
    declared: Seq<(Seq<char>, nat)>,
)
    requires
        sorted_by_name(one),
        sorted_by_name(other),
        one.to_multiset() == other.to_multiset(),
        forall|x: (Seq<char>, nat)| one.contains(x) ==> declared.contains(x),
        forall|x: (Seq<char>, nat), y: (Seq<char>, nat)|
            declared.contains(x) && declared.contains(y) && x.0 == y.0 ==> x == y,
    ensures
        one == other,
    decreases one.len(),
{
    one.to_multiset_ensures();
    other.to_multiset_ensures();
    if one.len() == 0 {
        assert(one =~= other);
    } else {
        let x = one[0];
        let y = other[0];
        assert(other.to_multiset().count(x) > 0);
        assert(one.to_multiset().count(y) > 0);
        let p = choose|p: int| 0 <= p < other.len() && other[p] == x;
        let q = choose|q: int| 0 <= q < one.len() && one[q] == y;
        if p > 0 {
            assert(!precedes(other[p].0, other[0].0));
        }
        if q > 0 {
            assert(!precedes(one[q].0, one[0].0));
        }
        precedes_is_total(x.0, y.0);
        precedes_is_strict(x.0, y.0);
        let rest = one.remove(0);
        let others = other.remove(0);
        assert forall|a: int, b: int| 0 <= a < b < rest.len() implies !precedes(
            (#[trigger] rest[b]).0,
            (#[trigger] rest[a]).0,
        ) by {
            assert(rest[a] == one[a + 1] && rest[b] == one[b + 1]);
        }
        assert forall|a: int, b: int| 0 <= a < b < others.len() implies !precedes(
            (#[trigger] others[b]).0,
            (#[trigger] others[a]).0,
        ) by {
            assert(others[a] == other[a + 1] && others[b] == other[b + 1]);
        }
        assert forall|z: (Seq<char>, nat)| rest.contains(z) implies declared.contains(z) by {
            let i = choose|i: int| 0 <= i < rest.len() && rest[i] == z;
            assert(one[i + 1] == z);
        }
        sorted_sequences_of_the_same_entries_are_the_same(rest, others, declared);
        assert(one =~= seq![x] + rest);
    }
}

/// Every generated case has the same attributes, in either form of the
/// declarations: the mark of a test and what goes over from the function.
pub proof fn every_case_has_the_attributes_of_the_function(
    module: GeneratedModuleView,
    lists: Seq<ParameterListView>,
    target: TestFnView,
    first_id: nat,
)
    requires
        is_value_source_module(module, lists, target, first_id) || is_case_by_case_module(
            module,
            lists,
            target,
        ),
    ensures
        forall|i: int|
            0 <= i < module.cases.len() ==> (#[trigger] module.cases[i]).attrs == case_attributes(
                target.attrs,
            ),
{
}

/// Whether an attribute on a generated case marks a test.
pub open spec fn is_marker(attr: CaseAttribute) -> bool {
    match attr {
        CaseAttribute::TestMarker => true,
        CaseAttribute::Copied(copied) => marks_test(copied),
    }
}

/// The place on a generated case of the function's attribute at `j`: behind
/// the mark of a test, and one place further to the front where the
/// attribute that is left out stood before it.
pub open spec fn place_on_case(attrs: Seq<Attribute>, j: int) -> int {
    match last_marker(attrs) {
        Some(at) => if j < at {
            j + 1
        } else {
            j
        },
        None => j + 1,
    }
}

/// Every attribute of the function that does not mark a test is among the
/// attributes of a case as it is written, and the attributes keep their
/// order.
pub proof fn attributes_go_over_to_the_cases(attrs: Seq<Attribute>)
    ensures
        forall|j: int|
            0 <= j < attrs.len() && !marks_test(#[trigger] attrs[j]) ==> {
                &&& 1 <= place_on_case(attrs, j) < case_attributes(attrs).len()
                &&& case_attributes(attrs)[place_on_case(attrs, j)] == CaseAttribute::Copied(
                    attrs[j],
                )
            },
        forall|i: int, j: int|
            0 <= i < j < attrs.len() && !marks_test(attrs[i]) && !marks_test(attrs[j])
                ==> #[trigger] place_on_case(attrs, i) < #[trigger] place_on_case(attrs, j),
{
    last_marker_is_last(attrs);
}

/// A generated case is marked as a test once: where at most one attribute
/// of the function marks a test, the mark that the expansion sets is the
/// only one among the attributes of a case.
pub proof fn cases_are_marked_once(attrs: Seq<Attribute>, at: int)
    requires
        forall|j: int| 0 <= j < attrs.len() && j != at ==> !marks_test(#[trigger] attrs[j]),
    ensures
        case_attributes(attrs).len() >= 1,
        case_attributes(attrs)[0] == CaseAttribute::TestMarker,
        forall|p: int|
            1 <= p < case_attributes(attrs).len() ==> !is_marker(
                #[trigger] case_attributes(attrs)[p],
            ),
{
    last_marker_is_last(attrs);
    let kept = without_last_marker(attrs);
    assert forall|p: int| 1 <= p < case_attributes(attrs).len() implies !is_marker(
        #[trigger] case_attributes(attrs)[p],
    ) by {
        match last_marker(attrs) {
            Some(m) => {
                if p - 1 < m {
                    assert(kept[p - 1] == attrs[p - 1]);
                } else {
                    assert(kept[p - 1] == attrs[p]);
                }
            },
            None => {},
        }
    }
}

} // verus!
