//! An insertion-ordered index from names to positions, kept in an
//! `indexmap::IndexMap`.

use indexmap::IndexMap;
use vstd::prelude::*;

verus! {

#[verifier::external_type_specification]
#[verifier::external_body]
#[verifier::reject_recursive_types(K)]
#[verifier::reject_recursive_types(V)]
#[verifier::reject_recursive_types(S)]
pub struct ExIndexMap<K, V, S>(IndexMap<K, V, S>);

/// What the index holds: its keys with their values, in the order of the
/// index. Where nothing is removed, that is the order in which the keys
/// were first inserted.
pub uninterp spec fn entries(index: IndexMap<String, usize>) -> Seq<(Seq<char>, usize)>;

/// No entry of `held` has the key `key`.
pub open spec fn lacks_key(held: Seq<(Seq<char>, usize)>, key: Seq<char>) -> bool {
    forall|i: int| 0 <= i < held.len() ==> (#[trigger] held[i]).0 != key
}

/// `IndexMap::new`: an index that holds nothing.
#[verifier::external_body]
pub(crate) fn new_index() -> (index: IndexMap<String, usize>)
    ensures
        entries(index) == Seq::<(Seq<char>, usize)>::empty(),
{
    IndexMap::new()
}

/// `IndexMap::insert`: a new key goes last and `None` comes back; a key
/// that is held keeps its place, takes the new value and hands back the old
/// one.
#[verifier::external_body]
pub(crate) fn insert(index: &mut IndexMap<String, usize>, key: String, value: usize) -> (replaced:
    Option<usize>)
    ensures
        lacks_key(entries(*old(index)), key@) ==> replaced is None && entries(*final(index))
            == entries(*old(index)).push((key@, value)),
        forall|i: int|
            0 <= i < entries(*old(index)).len() && (#[trigger] entries(*old(index))[i]).0 == key@
                ==> replaced == Some(entries(*old(index))[i].1) && entries(*final(index))
                == entries(*old(index)).update(i, (key@, value)),
{
    index.insert(key, value)
}

/// `IndexMap::get`: the value held for the key, if the key is held.
#[verifier::external_body]
pub(crate) fn get(index: &IndexMap<String, usize>, key: &str) -> (found: Option<usize>)
    ensures
        match found {
            Some(value) => exists|i: int|
                0 <= i < entries(*index).len() && #[trigger] entries(*index)[i] == (key@, value),
            None => lacks_key(entries(*index), key@),
        },
{
    index.get(key).copied()
}

} // verus!
