//! The sorted list of `heapless`, which hands keys back in ascending order.

use crate::model::{key_le, Key};
use heapless::sorted_linked_list::{LinkedIndexU8, Min, SortedLinkedList};
use vstd::multiset::Multiset;
use vstd::prelude::*;

verus! {

/// How many keys a `KeyQueue` takes.
pub const QUEUE_CAPACITY: usize = 32;

/// A `heapless::sorted_linked_list::SortedLinkedList` of keys, of the `Min` kind:
/// the smallest key is at its head. Its inside is not read by the verifier.
#[verifier::external_body]
pub struct KeyQueue {
    list: SortedLinkedList<Key, LinkedIndexU8, Min, 32>,
}

/// The keys that a queue holds, each as often as it was pushed and not yet popped.
pub uninterp spec fn queued(queue: KeyQueue) -> Multiset<Key>;

/// `SortedLinkedList::new_u8`: believed to make a list that holds nothing.
#[verifier::external_body]
pub(crate) fn queue_new() -> (queue: KeyQueue)
    ensures
        queued(queue).len() == 0,
{
    KeyQueue { list: SortedLinkedList::new_u8() }
}

/// `SortedLinkedList::push`: believed to take the key while fewer than 32 are
/// held, and to hand it back, changing nothing, once 32 are.
#[verifier::external_body]
pub(crate) fn queue_push(queue: &mut KeyQueue, key: Key) -> (pushed: Result<(), Key>)
    ensures
        queued(*old(queue)).len() < 32 ==> pushed is Ok && queued(*final(queue)) == queued(
            *old(queue),
        ).insert(key),
        queued(*old(queue)).len() >= 32 ==> pushed is Err && pushed->Err_0 == key && queued(
            *final(queue),
        ) == queued(*old(queue)),
{
    queue.list.push(key)
}

/// `SortedLinkedList::pop`: believed to fail on a list that holds nothing, and
/// else to take out and return a key that no held key is smaller than, in the
/// lexicographic order that tuples of integers have.
#[verifier::external_body]
pub(crate) fn queue_pop(queue: &mut KeyQueue) -> (popped: Option<Key>)
    ensures
        queued(*old(queue)).len() == 0 ==> popped is None && queued(*final(queue)) == queued(
            *old(queue),
        ),
        queued(*old(queue)).len() > 0 ==> popped is Some && queued(*old(queue)).count(
            popped->Some_0,
        ) > 0 && queued(*final(queue)) == queued(*old(queue)).remove(popped->Some_0),
        forall|k: Key| queued(*old(queue)).count(k) > 0 ==> popped is Some && key_le(popped->Some_0, k),
{
    queue.list.pop().ok()
}

} // verus!
