//! The bounded hash set of `heapless`, which keeps the keys of the wires.

use crate::model::Key;
use heapless::FnvIndexSet;
use vstd::prelude::*;

verus! {

/// `heapless::IndexSet`, whose inside is not read.
#[verifier::external_type_specification]
#[verifier::external_body]
#[verifier::reject_recursive_types(T)]
#[verifier::reject_recursive_types(S)]
pub struct ExIndexSet<T, S, const N: usize>(heapless::IndexSet<T, S, N>);

/// `hash32::BuildHasherDefault`, which an `FnvIndexSet` is made with.
#[verifier::external_type_specification]
#[verifier::external_body]
#[verifier::reject_recursive_types(H)]
pub struct ExBuildHasherDefault<H>(hash32::BuildHasherDefault<H>);

/// `hash32::FnvHasher`, the hasher of an `FnvIndexSet`.
#[verifier::external_type_specification]
#[verifier::external_body]
pub struct ExFnvHasher(hash32::FnvHasher);

/// The keys that a set holds.
pub uninterp spec fn keys(set: FnvIndexSet<Key, 32>) -> Set<Key>;

/// `FnvIndexSet::new`: believed to make a set that holds nothing.
#[verifier::external_body]
pub(crate) fn set_new() -> (set: FnvIndexSet<Key, 32>)
    ensures
        keys(set) == Set::<Key>::empty(),
{
    FnvIndexSet::new()
}

/// `IndexSet::clone`: believed to make a set that holds the same keys.
#[verifier::external_body]
pub(crate) fn set_clone(set: &FnvIndexSet<Key, 32>) -> (copy: FnvIndexSet<Key, 32>)
    ensures
        keys(copy) == keys(*set),
{
    set.clone()
}

/// `IndexSet::len`: believed to count the keys held.
#[verifier::external_body]
pub(crate) fn set_len(set: &FnvIndexSet<Key, 32>) -> (n: usize)
    ensures
        n == keys(*set).len(),
{
    set.len()
}

/// `IndexSet::contains`: believed to say whether the key is held.
#[verifier::external_body]
pub(crate) fn set_contains(set: &FnvIndexSet<Key, 32>, key: &Key) -> (held: bool)
    ensures
        held == keys(*set).contains(*key),
{
    set.contains(key)
}

/// `IndexSet::insert`: believed to answer `Ok(false)` for a key already held,
/// to add a new key and answer `Ok(true)` while fewer than 32 are held, and to
/// hand a new key back once 32 are. Only the second changes what is held.
/// Believed not to panic.
#[verifier::external_body]
pub(crate) fn set_insert(set: &mut FnvIndexSet<Key, 32>, key: Key) -> (added: Result<bool, Key>)
    ensures
        keys(*old(set)).contains(key) ==> added is Ok && added->Ok_0 == false && keys(*final(set))
            == keys(*old(set)),
        !keys(*old(set)).contains(key) && keys(*old(set)).len() < 32 ==> added is Ok && added->Ok_0
            == true && keys(*final(set)) == keys(*old(set)).insert(key),
        !keys(*old(set)).contains(key) && keys(*old(set)).len() >= 32 ==> added is Err
            && added->Err_0 == key && keys(*final(set)) == keys(*old(set)),
    no_unwind
{
    set.insert(key)
}

/// `IndexSet::remove`: believed to take the key out and to say whether it was
/// held. Believed not to panic.
#[verifier::external_body]
pub(crate) fn set_remove(set: &mut FnvIndexSet<Key, 32>, key: &Key) -> (held: bool)
    ensures
        held == keys(*old(set)).contains(*key),
        keys(*final(set)) == keys(*old(set)).remove(*key),
    no_unwind
{
    set.remove(key)
}

/// `IndexSet::iter`: believed to visit each key held exactly once. The keys
/// are copied into a vector in the order of the visit.
#[verifier::external_body]
pub(crate) fn set_items(set: &FnvIndexSet<Key, 32>) -> (items: Vec<Key>)
    ensures
        items@.no_duplicates(),
        items@.to_set() == keys(*set),
{
    set.iter().copied().collect()
}

} // verus!
