//! The order in which wires are packed: ascending by row, lower column, upper column.

use crate::model::{key_le, keys_of, lower_first, Connection, Key};
use crate::queue::{queue_new, queue_pop, queue_push, queued, QUEUE_CAPACITY};
use vstd::prelude::*;

verus! {

/// No key is followed by a smaller one.
pub open spec fn ascending(keys: Seq<Key>) -> bool {
    forall|i: int, j: int|
        #![trigger keys[i], keys[j]]
        0 <= i < j < keys.len() ==> key_le(keys[i], keys[j])
}

/// Every key is followed by larger ones only.
pub open spec fn strictly_ascending(keys: Seq<Key>) -> bool {
    forall|i: int, j: int|
        #![trigger keys[i], keys[j]]
        0 <= i < j < keys.len() ==> key_le(keys[i], keys[j]) && keys[i] != keys[j]
}

/// The sequence lists the keys of the set, each once, in ascending order.
pub open spec fn lists(order: Seq<Key>, held: Set<Key>) -> bool {
    strictly_ascending(order) && order.to_set() == held
}

/// The keys of a set in the order in which their wires are packed.
pub open spec fn drawing_order(held: Set<Key>) -> Seq<Key> {
    choose|order: Seq<Key>| lists(order, held)
}

/// The wires that a sequence of keys names, each with its lower column first.
pub open spec fn wires_of(keys: Seq<Key>) -> Seq<Connection> {
    keys.map_values(|k: Key| Connection::spec_from_key(k))
}

/// A set of keys has one ascending list only.
pub proof fn lemma_ascending_list_unique(a: Seq<Key>, b: Seq<Key>)
    requires
        strictly_ascending(a),
        strictly_ascending(b),
        a.to_set() == b.to_set(),
    ensures
        a == b,
    decreases a.len(),
{
    if a.len() == 0 {
        if b.len() > 0 {
            assert(b.to_set().contains(b[0]));
        }
    } else {
        assert(a.to_set().contains(a[0]));
        assert(b.to_set().contains(b[0]));
        assert(a[0] == b[0]);
        let a_rest = a.drop_first();
        let b_rest = b.drop_first();
        assert forall|k: Key| a_rest.to_set().contains(k) <==> b_rest.to_set().contains(k) by {
            if a_rest.contains(k) {
                assert(a.to_set().contains(k));
                let other = choose|other: int| 0 <= other < b.len() && b[other] == k;
                assert(b_rest[other - 1] == k);
            }
            if b_rest.contains(k) {
                assert(b.to_set().contains(k));
                let other = choose|other: int| 0 <= other < a.len() && a[other] == k;
                assert(a_rest[other - 1] == k);
            }
        }
        assert(a_rest.to_set() =~= b_rest.to_set());
        lemma_ascending_list_unique(a_rest, b_rest);
        assert(b =~= seq![b[0]] + b_rest);
    }
}

/// The order of keys as a relation.
pub open spec fn key_order() -> spec_fn(Key, Key) -> bool {
    |a: Key, b: Key| key_le(a, b)
}

/// Every finite set of keys has an ascending list, which its drawing order is.
pub proof fn lemma_drawing_order_lists(held: Set<Key>)
    requires
        held.finite(),
    ensures
        lists(drawing_order(held), held),
    decreases held.len(),
{
    if held.len() == 0 {
        held.lemma_len0_is_empty();
        let order = Seq::<Key>::empty();
        assert(order.to_set() =~= held);
        assert(lists(order, held));
    } else {
        held.find_unique_minimal_ensures(key_order());
        let least = held.find_unique_minimal(key_order());
        held.lemma_minimal_equivalent_least(key_order(), least);
        let rest = held.remove(least);
        lemma_drawing_order_lists(rest);
        let tail = drawing_order(rest);
        let order = seq![least] + tail;
        assert forall|i: int, j: int|
            #![trigger order[i], order[j]]
            0 <= i < j < order.len() implies key_le(order[i], order[j]) && order[i]
            != order[j] by {
            if i == 0 {
                assert(key_order()(least, order[j]));
            }
        }
        assert forall|k: Key| order.to_set().contains(k) <==> held.contains(k) by {
            if held.contains(k) {
                if k == least {
                    assert(order[0] == k);
                } else {
                    let at = choose|at: int| 0 <= at < tail.len() && tail[at] == k;
                    assert(order[at + 1] == k);
                }
            }
        }
        assert(order.to_set() =~= held);
        assert(lists(order, held));
    }
}

/// An ascending list of the keys of a set is the set's drawing order.
pub proof fn lemma_drawing_order_is(order: Seq<Key>, held: Set<Key>)
    requires
        lists(order, held),
    ensures
        drawing_order(held) == order,
{
    lemma_ascending_list_unique(drawing_order(held), order);
}

/// An ascending sequence of keys without repeats is strictly ascending, and
/// holds what any sequence with the same keys, each as often, holds.
pub proof fn lemma_sorted_distinct(sorted: Seq<Key>, given: Seq<Key>)
    requires
        ascending(sorted),
        given.no_duplicates(),
        sorted.to_multiset() == given.to_multiset(),
    ensures
        lists(sorted, given.to_set()),
{
    broadcast use vstd::seq_lib::group_to_multiset_ensures;

    given.lemma_multiset_has_no_duplicates();
    sorted.lemma_multiset_has_no_duplicates_conv();
    assert forall|k: Key| sorted.to_set().contains(k) <==> given.to_set().contains(k) by {
        assert(given.contains(k) <==> given.to_multiset().count(k) > 0);
    }
    assert(sorted.to_set() =~= given.to_set());
}

/// Puts wires in ascending order of their keys, each written with its lower
/// column first. Takes at most as many wires as the queue holds.
pub fn sort_wires(wires: &Vec<Connection>) -> (sorted: Option<Vec<Connection>>)
    ensures
        sorted is Some <==> wires.len() <= QUEUE_CAPACITY,
        sorted matches Some(s) ==> ascending(keys_of(s@)) && lower_first(s@) && keys_of(
            s@,
        ).to_multiset() == keys_of(wires@).to_multiset(),
{
    broadcast use vstd::seq_lib::group_to_multiset_ensures;
    broadcast use vstd::multiset::group_multiset_axioms;

    if wires.len() > QUEUE_CAPACITY {
        return None;
    }
    let ghost all = keys_of(wires@);
    let mut queue = queue_new();
    let mut i: usize = 0;
    while i < wires.len()
        invariant
            i <= wires.len() <= 32,
            all == keys_of(wires@),
            queued(queue) == all.subrange(0, i as int).to_multiset(),
        decreases wires.len() - i,
    {
        let key = wires[i].key();
        assert(all.subrange(0, i + 1) =~= all.subrange(0, i as int).push(key));
        proof {
            vstd::seq_lib::to_multiset_len(all.subrange(0, i as int));
            vstd::seq_lib::to_multiset_build(all.subrange(0, i as int), key);
        }
        let pushed = queue_push(&mut queue, key);
        if pushed.is_err() {
            return None;
        }
        i += 1;
    }
    assert(all.subrange(0, i as int) =~= all);
    let mut sorted: Vec<Connection> = Vec::new();
    loop
        invariant
            keys_of(sorted@).to_multiset().add(queued(queue)) == all.to_multiset(),
            ascending(keys_of(sorted@)),
            lower_first(sorted@),
            forall|i: int, k: Key|
                #![trigger keys_of(sorted@)[i], queued(queue).count(k)]
                0 <= i < sorted.len() && queued(queue).count(k) > 0 ==> key_le(
                    keys_of(sorted@)[i],
                    k,
                ),
            forall|k: Key| queued(queue).count(k) > 0 ==> k.0 <= 1 && k.1 <= k.2,
        ensures
            queued(queue).len() == 0,
        decreases queued(queue).len(),
    {
        let ghost before = keys_of(sorted@);
        match queue_pop(&mut queue) {
            None => {
                break ;
            },
            Some(key) => {
                sorted.push(Connection::from_key(key));
                assert(keys_of(sorted@) =~= before.push(key));
                proof {
                    vstd::seq_lib::to_multiset_build(before, key);
                }
            },
        }
    }
    assert(queued(queue) =~= vstd::multiset::Multiset::<Key>::empty());
    Some(sorted)
}

} // verus!
