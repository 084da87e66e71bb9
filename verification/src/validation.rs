//! What has to hold of the declared lists before anything is generated:
//! no identifier is declared twice, all lists are equally long, and the
//! identifiers are the names of the function's parameters.

use crate::attribute::{ParameterListView, ParameterizedList};
use crate::error::{ExpansionError, ListLength};
use crate::fun::Parameter;
use crate::index::{entries, get, insert, lacks_key, new_index};
use crate::syntax::{ident_string, ident_text};
use crate::text::{
    chars_of, name_precedes, precedes, precedes_is_strict, precedes_is_transitive,
};
use indexmap::IndexMap;
use vstd::prelude::*;

verus! {

/// The declared identifiers as they are written, in the order of their
/// declaration.
pub open spec fn names(lists: Seq<ParameterListView>) -> Seq<Seq<char>> {
    Seq::new(lists.len(), |j: int| ident_text(lists[j].id))
}

/// No name occurs twice.
pub open spec fn distinct(names: Seq<Seq<char>>) -> bool {
    forall|i: int, j: int| 0 <= i < j < names.len() ==> names[i] != names[j]
}

/// The name at `k` is the first that repeats an earlier one.
pub open spec fn is_first_duplicate(names: Seq<Seq<char>>, k: int) -> bool {
    &&& 0 <= k < names.len()
    &&& distinct(names.take(k))
    &&& names.take(k).contains(names[k])
}

/// Where a name repeats an earlier one, the names are not distinct.
pub proof fn a_duplicate_is_not_distinct(names: Seq<Seq<char>>, k: int)
    requires
        is_first_duplicate(names, k),
    ensures
        !distinct(names),
{
    let seen = names.take(k);
    let i = choose|i: int| 0 <= i < seen.len() && seen[i] == names[k];
    assert(names[i] == names[k]);
}

/// Every list is as long as the first.
pub open spec fn same_lengths(lists: Seq<ParameterListView>) -> bool {
    forall|j: int| 0 <= j < lists.len() ==> (#[trigger] lists[j]).values.len() == case_count(lists)
}

/// The number of cases: the length of the first list, and zero where
/// nothing is declared.
pub open spec fn case_count(lists: Seq<ParameterListView>) -> nat {
    if lists.len() == 0 {
        0
    } else {
        lists[0].values.len()
    }
}

/// The list at `k` is the first that is not as long as the first list.
pub open spec fn is_first_unequal(lists: Seq<ParameterListView>, k: int) -> bool {
    &&& 0 <= k < lists.len()
    &&& lists[k].values.len() != case_count(lists)
    &&& same_lengths(lists.take(k))
}

/// Each declared identifier with the length of its list, in the order of
/// the declarations.
pub open spec fn lengths_of(lists: Seq<ParameterListView>) -> Seq<(Seq<char>, nat)> {
    Seq::new(lists.len(), |j: int| (ident_text(lists[j].id), lists[j].values.len()))
}

/// What a vector of `ListLength` says.
pub open spec fn listing(lengths: Seq<ListLength>) -> Seq<(Seq<char>, nat)> {
    Seq::new(lengths.len(), |i: int| lengths[i]@)
}

/// No entry comes before an earlier one in the order of the names.
pub open spec fn sorted_by_name(listing: Seq<(Seq<char>, nat)>) -> bool {
    forall|i: int, j: int|
        0 <= i < j < listing.len() ==> !precedes(
            (#[trigger] listing[j]).0,
            (#[trigger] listing[i]).0,
        )
}

/// `listing` names the declared identifiers with the lengths of their
/// lists, each as often as it is declared, sorted by name.
pub open spec fn is_sorted_listing(
    listing: Seq<(Seq<char>, nat)>,
    lists: Seq<ParameterListView>,
) -> bool {
    &&& sorted_by_name(listing)
    &&& listing.to_multiset() == lengths_of(lists).to_multiset()
}

/// The names with their places: what the index of the declared identifiers
/// holds.
pub open spec fn indexed(names: Seq<Seq<char>>) -> Seq<(Seq<char>, usize)> {
    Seq::new(names.len(), |j: int| (names[j], j as usize))
}

/// Indexes the declared identifiers by name. The first identifier that is
/// declared a second time is refused.
pub fn index_identifiers(lists: &ParameterizedList) -> (indexed_lists: Result<
    IndexMap<String, usize>,
    ExpansionError,
>)
    ensures
        match indexed_lists {
            Ok(index) => distinct(names(lists@)) && entries(index) == indexed(names(lists@)),
            Err(ExpansionError::DuplicateIdentifier { id }) => exists|k: int|
                #[trigger] is_first_duplicate(names(lists@), k) && id == lists@[k].id,
            Err(_) => false,
        },
{
    let mut index = new_index();
    let mut k: usize = 0;
    while k < lists.args.len()
        invariant
            k <= lists.args.len(),
            distinct(names(lists@).take(k as int)),
            entries(index) == indexed(names(lists@).take(k as int)),
        decreases lists.args.len() - k,
    {
        let ghost held = entries(index);
        let ghost all = names(lists@);
        let name = ident_string(&lists.args[k].id);
        let replaced = insert(&mut index, name, k);
        if replaced.is_some() {
            proof {
                let i = choose|i: int|
                    0 <= i < held.len() && (#[trigger] held[i]).0 == all[k as int];
                assert(all.take(k as int)[i] == all[k as int]);
                assert(is_first_duplicate(all, k as int));
            }
            return Err(ExpansionError::DuplicateIdentifier { id: lists.args[k].id.clone() });
        }
        proof {
            assert(lacks_key(held, all[k as int])) by {
                if !lacks_key(held, all[k as int]) {
                    let i = choose|i: int|
                        0 <= i < held.len() && (#[trigger] held[i]).0 == all[k as int];
                    assert(replaced == Some(held[i].1));
                }
            }
            let seen = all.take(k as int);
            let next = all.take(k + 1);
            assert forall|i: int, j: int| 0 <= i < j < next.len() implies next[i] != next[j] by {
                if j == k {
                    assert(held[i].0 == all[i]);
                } else {
                    assert(seen[i] != seen[j]);
                }
            }
        }
        k = k + 1;
    }
    assert(names(lists@).take(k as int) == names(lists@));
    Ok(index)
}

/// The place of a name in a sorted listing: behind every entry that it
/// does not come before.
fn insertion_place(lengths: &Vec<ListLength>, key: &Vec<char>) -> (place: usize)
    ensures
        place <= lengths.len(),
        forall|q: int| 0 <= q < place ==> !precedes(key@, (#[trigger] lengths@[q]).name@),
        place < lengths.len() ==> precedes(key@, lengths@[place as int].name@),
{
    let mut place: usize = 0;
    while place < lengths.len()
        invariant
            place <= lengths.len(),
            forall|q: int| 0 <= q < place ==> !precedes(key@, (#[trigger] lengths@[q]).name@),
        decreases lengths.len() - place,
    {
        let other = chars_of(lengths[place].name.as_str());
        if name_precedes(key, &other) {
            return place;
        }
        place = place + 1;
    }
    place
}

/// Every declared identifier with the length of its list, sorted by name.
pub fn sorted_lengths(lists: &ParameterizedList) -> (lengths: Vec<ListLength>)
    ensures
        is_sorted_listing(listing(lengths@), lists@),
{
    let mut lengths: Vec<ListLength> = Vec::new();
    let mut j: usize = 0;
    assert(lengths_of(lists@).take(0) =~= listing(lengths@));
    while j < lists.args.len()
        invariant
            j <= lists.args.len(),
            sorted_by_name(listing(lengths@)),
            listing(lengths@).to_multiset() == lengths_of(lists@).take(j as int).to_multiset(),
        decreases lists.args.len() - j,
    {
        let name = ident_string(&lists.args[j].id);
        let length = lists.args[j].param_args.len();
        let key = chars_of(name.as_str());
        let place = insertion_place(&lengths, &key);
        let ghost before = listing(lengths@);
        let ghost entry = (name@, length as nat);
        lengths.insert(place, ListLength { name, length });
        proof {
            let after = listing(lengths@);
            assert(after =~= before.insert(place as int, entry));
            vstd::seq_lib::to_multiset_insert(before, place as int, entry);
            let declared = lengths_of(lists@);
            assert(declared.take(j + 1) =~= declared.take(j as int).push(entry));
            vstd::seq_lib::to_multiset_build(declared.take(j as int), entry);
            assert forall|a: int, b: int| 0 <= a < b < after.len() implies !precedes(
                (#[trigger] after[b]).0,
                (#[trigger] after[a]).0,
            ) by {
                if b == place {
                    assert(after[a] == before[a]);
                } else if a == place {
                    if b - 1 > place {
                        if precedes(before[b - 1].0, entry.0) {
                            let behind = before[place as int].0;
                            precedes_is_transitive(before[b - 1].0, entry.0, behind);
                        }
                    } else {
                        precedes_is_strict(entry.0, before[place as int].0);
                    }
                } else {
                    let x = if a < place { a } else { a - 1 };
                    let y = if b < place { b } else { b - 1 };
                    assert(after[a] == before[x] && after[b] == before[y]);
                }
            }
        }
        j = j + 1;
    }
    assert(lengths_of(lists@).take(j as int) == lengths_of(lists@));
    lengths
}

/// The number of cases that the lists declare. A list that is not as long
/// as the first is refused, with the lengths of all lists.
pub fn check_all_input_lengths(lists: &ParameterizedList) -> (checked: Result<
    usize,
    ExpansionError,
>)
    ensures
        match checked {
            Ok(count) => same_lengths(lists@) && count == case_count(lists@),
            Err(ExpansionError::UnequalLength { id, expected, found, lengths }) => {
                &&& expected == case_count(lists@)
                &&& is_sorted_listing(listing(lengths@), lists@)
                &&& exists|k: int| #[trigger]
                    is_first_unequal(lists@, k) && id == lists@[k].id && found
                        == lists@[k].values.len()
            },
            Err(_) => false,
        },
{
    if lists.args.len() == 0 {
        return Ok(0);
    }
    let expected = lists.args[0].param_args.len();
    let mut k: usize = 1;
    while k < lists.args.len()
        invariant
            1 <= k <= lists.args.len(),
            expected == case_count(lists@),
            same_lengths(lists@.take(k as int)),
        decreases lists.args.len() - k,
    {
        let found = lists.args[k].param_args.len();
        if found != expected {
            assert(is_first_unequal(lists@, k as int));
            return Err(
                ExpansionError::UnequalLength {
                    id: lists.args[k].id.clone(),
                    expected,
                    found,
                    lengths: sorted_lengths(lists),
                },
            );
        }
        proof {
            let seen = lists@.take(k as int);
            let next = lists@.take(k + 1);
            assert forall|j: int| 0 <= j < next.len() implies (#[trigger] next[j]).values.len()
                == case_count(next) by {
                if j < k {
                    assert(seen[j].values.len() == case_count(seen));
                }
            }
        }
        k = k + 1;
    }
    assert(lists@.take(k as int) == lists@);
    Ok(expected)
}

/// A parameter has the name `name`.
pub open spec fn names_parameter(params: Seq<Parameter>, name: Seq<char>) -> bool {
    exists|k: int| 0 <= k < params.len() && ident_text((#[trigger] params[k]).ident) == name
}

/// A list is declared under the name `name`.
pub open spec fn declares(lists: Seq<ParameterListView>, name: Seq<char>) -> bool {
    exists|j: int| 0 <= j < lists.len() && ident_text((#[trigger] lists[j]).id) == name
}

/// Every declared identifier is the name of a parameter.
pub open spec fn all_known(lists: Seq<ParameterListView>, params: Seq<Parameter>) -> bool {
    forall|j: int|
        0 <= j < lists.len() ==> names_parameter(params, ident_text((#[trigger] lists[j]).id))
}

/// The identifier at `j` is the first that is the name of no parameter.
pub open spec fn is_first_stray(
    lists: Seq<ParameterListView>,
    params: Seq<Parameter>,
    j: int,
) -> bool {
    &&& 0 <= j < lists.len()
    &&& !names_parameter(params, ident_text(lists[j].id))
    &&& all_known(lists.take(j), params)
}

/// A list is declared under the name of every parameter.
pub open spec fn all_declared(lists: Seq<ParameterListView>, params: Seq<Parameter>) -> bool {
    forall|k: int|
        0 <= k < params.len() ==> declares(lists, ident_text((#[trigger] params[k]).ident))
}

/// The parameter at `k` is the first under whose name nothing is declared.
pub open spec fn is_first_bare(
    lists: Seq<ParameterListView>,
    params: Seq<Parameter>,
    k: int,
) -> bool {
    &&& 0 <= k < params.len()
    &&& !declares(lists, ident_text(params[k].ident))
    &&& all_declared(lists, params.take(k))
}

/// The place of the list that is declared under `name`.
pub open spec fn list_named(lists: Seq<ParameterListView>, name: Seq<char>) -> int {
    choose|j: int| 0 <= j < lists.len() && ident_text((#[trigger] lists[j]).id) == name
}

/// The declared lists are valid: no identifier is declared twice, and the
/// lists are equally long.
pub open spec fn valid(lists: Seq<ParameterListView>) -> bool {
    &&& distinct(names(lists))
    &&& same_lengths(lists)
}

/// The declared lists can be expanded for a function with these
/// parameters: they are valid, every identifier is the name of a parameter,
/// and something is declared for every parameter.
pub open spec fn well_formed(lists: Seq<ParameterListView>, params: Seq<Parameter>) -> bool {
    &&& valid(lists)
    &&& all_known(lists, params)
    &&& all_declared(lists, params)
}

/// Under distinct names, the list that is declared under the name of a
/// list is that list.
pub proof fn list_named_is_unique(lists: Seq<ParameterListView>, j: int)
    requires
        distinct(names(lists)),
        0 <= j < lists.len(),
    ensures
        list_named(lists, ident_text(lists[j].id)) == j,
{
    let name = ident_text(lists[j].id);
    let found = list_named(lists, name);
    assert(names(lists)[found] == names(lists)[j]);
}

/// Whether a parameter has the name `name`.
fn names_a_parameter(params: &Vec<Parameter>, name: &String) -> (found: bool)
    ensures
        found == names_parameter(params@, name@),
{
    let mut k: usize = 0;
    while k < params.len()
        invariant
            k <= params.len(),
            !names_parameter(params@.take(k as int), name@),
        decreases params.len() - k,
    {
        if ident_string(&params[k].ident) == *name {
            return true;
        }
        proof {
            let seen = params@.take(k as int);
            let next = params@.take(k + 1);
            if names_parameter(next, name@) {
                let i = choose|i: int|
                    0 <= i < next.len() && ident_text((#[trigger] next[i]).ident) == name@;
                assert(seen[i] == next[i]);
            }
        }
        k = k + 1;
    }
    assert(params@.take(k as int) == params@);
    false
}

/// Checks that every declared identifier is the name of a parameter. The
/// first that is not is refused.
pub fn check_identifiers_known(lists: &ParameterizedList, params: &Vec<Parameter>) -> (checked:
    Result<(), ExpansionError>)
    ensures
        match checked {
            Ok(_) => all_known(lists@, params@),
            Err(ExpansionError::UnknownParameter { id }) => exists|j: int| #[trigger]
                is_first_stray(lists@, params@, j) && id == lists@[j].id,
            Err(_) => false,
        },
{
    let mut j: usize = 0;
    while j < lists.args.len()
        invariant
            j <= lists.args.len(),
            all_known(lists@.take(j as int), params@),
        decreases lists.args.len() - j,
    {
        let name = ident_string(&lists.args[j].id);
        if !names_a_parameter(params, &name) {
            assert(is_first_stray(lists@, params@, j as int));
            return Err(ExpansionError::UnknownParameter { id: lists.args[j].id.clone() });
        }
        proof {
            let seen = lists@.take(j as int);
            let next = lists@.take(j + 1);
            assert forall|i: int| 0 <= i < next.len() implies names_parameter(
                params@,
                ident_text((#[trigger] next[i]).id),
            ) by {
                if i < j {
                    assert(seen[i] == next[i]);
                }
            }
        }
        j = j + 1;
    }
    assert(lists@.take(j as int) == lists@);
    Ok(())
}

/// Finds for each parameter the list that is declared under its name. The
/// first parameter that has none is refused.
pub(crate) fn resolve_parameters(
    index: &IndexMap<String, usize>,
    lists: &ParameterizedList,
    params: &Vec<Parameter>,
) -> (resolved: Result<Vec<usize>, ExpansionError>)
    requires
        distinct(names(lists@)),
        entries(*index) == indexed(names(lists@)),
    ensures
        match resolved {
            Ok(places) => {
                &&& all_declared(lists@, params@)
                &&& places@.len() == params@.len()
                &&& forall|k: int|
                    0 <= k < places@.len() ==> (#[trigger] places@[k]) == list_named(
                        lists@,
                        ident_text(params@[k].ident),
                    )
            },
            Err(ExpansionError::UnknownParameter { id }) => exists|k: int| #[trigger]
                is_first_bare(lists@, params@, k) && id == params@[k].ident,
            Err(_) => false,
        },
{
    let mut places: Vec<usize> = Vec::new();
    let mut k: usize = 0;
    while k < params.len()
        invariant
            k <= params.len(),
            distinct(names(lists@)),
            entries(*index) == indexed(names(lists@)),
            all_declared(lists@, params@.take(k as int)),
            places@.len() == k,
            forall|i: int|
                0 <= i < k ==> (#[trigger] places@[i]) == list_named(
                    lists@,
                    ident_text(params@[i].ident),
                ),
        decreases params.len() - k,
    {
        let name = ident_string(&params[k].ident);
        let ghost held = entries(*index);
        match get(index, name.as_str()) {
            Some(place) => {
                proof {
                    let at = choose|at: int|
                        0 <= at < held.len() && #[trigger] held[at] == (name@, place);
                    assert(at < lists.args.len());
                    list_named_is_unique(lists@, at);
                    let seen = params@.take(k as int);
                    let next = params@.take(k + 1);
                    assert forall|i: int| 0 <= i < next.len() implies declares(
                        lists@,
                        ident_text((#[trigger] next[i]).ident),
                    ) by {
                        if i < k {
                            assert(seen[i] == next[i]);
                        }
                    }
                }
                places.push(place);
            },
            None => {
                proof {
                    if declares(lists@, name@) {
                        let j = choose|j: int|
                            0 <= j < lists@.len() && ident_text((#[trigger] lists@[j]).id)
                                == name@;
                        assert(held[j].0 == name@);
                    }
                    assert(is_first_bare(lists@, params@, k as int));
                }
                return Err(ExpansionError::UnknownParameter { id: params[k].ident.clone() });
            },
        }
        k = k + 1;
    }
    assert(params@.take(k as int) == params@);
    Ok(places)
}

} // verus!
