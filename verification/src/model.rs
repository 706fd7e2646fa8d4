//! Wires between two columns of one label row, and the bounded set that keeps them.

use crate::store::{
    keys, set_clone, set_contains, set_insert, set_items, set_len, set_new, set_remove,
};
use heapless::FnvIndexSet;
use std::cmp::Ordering;
use vstd::prelude::*;
use vstd::std_specs::cmp::PartialEqSpec;

verus! {

/// One of the two label rows of the board. Each row has wires of its own.
#[derive(Copy, Clone, Debug, PartialEq, Eq, Structural)]
pub enum Region {
    Top,
    Bottom,
}

/// What the set stores for a wire: the row's tag, the lower column, the upper column.
pub type Key = (u8, usize, usize);

/// The tag that stands for a row in a `Key`.
pub open spec fn tag_of(region: Region) -> u8 {
    match region {
        Region::Top => 0,
        Region::Bottom => 1,
    }
}

/// Lexicographic order on keys: by row, then by lower column, then by upper column.
pub open spec fn key_le(a: Key, b: Key) -> bool {
    a.0 < b.0 || (a.0 == b.0 && (a.1 < b.1 || (a.1 == b.1 && a.2 <= b.2)))
}

/// A key names a wire: a known row and two different columns, the lower one first.
pub open spec fn key_valid(k: Key) -> bool {
    k.0 <= 1 && k.1 < k.2
}

/// Two keys collide when they lie in the same row and their closed column
/// intervals share a column.
pub open spec fn keys_overlap(a: Key, b: Key) -> bool {
    a.0 == b.0 && a.1 <= b.2 && b.1 <= a.2
}

/// A wire between two columns of a row. The two columns are an unordered pair:
/// `Top(a, b)` and `Top(b, a)` are the same wire.
#[derive(Copy, Clone, Debug, Eq)]
pub enum Connection {
    Top(usize, usize),
    Bottom(usize, usize),
}

impl Connection {
    pub open spec fn spec_region(&self) -> Region {
        match self {
            Connection::Top(_, _) => Region::Top,
            Connection::Bottom(_, _) => Region::Bottom,
        }
    }

    pub open spec fn spec_first(&self) -> usize {
        match *self {
            Connection::Top(a, _) => a,
            Connection::Bottom(a, _) => a,
        }
    }

    pub open spec fn spec_second(&self) -> usize {
        match *self {
            Connection::Top(_, b) => b,
            Connection::Bottom(_, b) => b,
        }
    }

    /// The smaller of the two columns.
    pub open spec fn spec_low(&self) -> usize {
        if self.spec_first() <= self.spec_second() {
            self.spec_first()
        } else {
            self.spec_second()
        }
    }

    /// The larger of the two columns.
    pub open spec fn spec_high(&self) -> usize {
        if self.spec_first() <= self.spec_second() {
            self.spec_second()
        } else {
            self.spec_first()
        }
    }

    /// The key under which this wire is stored and ordered.
    pub open spec fn spec_key(&self) -> Key {
        (tag_of(self.spec_region()), self.spec_low(), self.spec_high())
    }

    /// The wire that a key names, with the lower column first.
    pub open spec fn spec_from_key(k: Key) -> Connection {
        if k.0 == 0 {
            Connection::Top(k.1, k.2)
        } else {
            Connection::Bottom(k.1, k.2)
        }
    }

    pub open spec fn spec_reflexive(&self) -> bool {
        self.spec_first() == self.spec_second()
    }

    /// Both wires lie in different rows, or one closed interval ends before the other begins.
    pub open spec fn spec_non_overlapping(&self, other: &Connection) -> bool {
        !keys_overlap(self.spec_key(), other.spec_key())
    }

    #[verifier::when_used_as_spec(spec_region)]
    pub fn region(&self) -> (r: Region)
        ensures
            r == self.spec_region(),
    {
        match self {
            Connection::Top(_, _) => Region::Top,
            Connection::Bottom(_, _) => Region::Bottom,
        }
    }

    #[verifier::when_used_as_spec(spec_low)]
    pub fn low(&self) -> (r: usize)
        ensures
            r == self.spec_low(),
    {
        match self {
            Connection::Top(a, b) | Connection::Bottom(a, b) => if *a <= *b {
                *a
            } else {
                *b
            },
        }
    }

    #[verifier::when_used_as_spec(spec_high)]
    pub fn high(&self) -> (r: usize)
        ensures
            r == self.spec_high(),
    {
        match self {
            Connection::Top(a, b) | Connection::Bottom(a, b) => if *a <= *b {
                *b
            } else {
                *a
            },
        }
    }

    #[verifier::when_used_as_spec(spec_key)]
    pub fn key(&self) -> (k: Key)
        ensures
            k == self.spec_key(),
    {
        let tag: u8 = match self {
            Connection::Top(_, _) => 0,
            Connection::Bottom(_, _) => 1,
        };
        (tag, self.low(), self.high())
    }

    #[verifier::when_used_as_spec(spec_from_key)]
    pub fn from_key(k: Key) -> (c: Connection)
        ensures
            c == Connection::spec_from_key(k),
            k.0 <= 1 && k.1 <= k.2 ==> c.spec_key() == k,
    {
        if k.0 == 0 {
            Connection::Top(k.1, k.2)
        } else {
            Connection::Bottom(k.1, k.2)
        }
    }

    /// The wire between two columns of a row.
    pub fn new(region: Region, a: usize, b: usize) -> (connection: Connection)
        ensures
            connection == wire(region, a, b),
    {
        match region {
            Region::Top => Connection::Top(a, b),
            Region::Bottom => Connection::Bottom(a, b),
        }
    }

    /// Whether both ends are the same column, which no wire may be.
    #[verifier::when_used_as_spec(spec_reflexive)]
    pub fn reflexive(&self) -> (r: bool)
        ensures
            r == self.spec_reflexive(),
    {
        match self {
            Connection::Top(a, b) => *a == *b,
            Connection::Bottom(a, b) => *a == *b,
        }
    }

    /// Whether the two wires can share a track.
    #[verifier::when_used_as_spec(spec_non_overlapping)]
    pub fn non_overlapping(&self, other: &Self) -> (r: bool)
        ensures
            r == self.spec_non_overlapping(other),
            r == other.spec_non_overlapping(self),
    {
        match self {
            Connection::Top(_, _) => match other {
                Connection::Top(_, _) => other.low() > self.high() || self.low() > other.high(),
                _ => true,
            },
            Connection::Bottom(_, _) => match other {
                Connection::Bottom(_, _) => other.low() > self.high() || self.low() > other.high(),
                _ => true,
            },
        }
    }
}

impl PartialEq for Connection {
    fn eq(&self, other: &Self) -> (r: bool) {
        match self {
            Connection::Top(a, b) => match other {
                Connection::Top(p, q) => (*a == *p && *b == *q) || (*b == *p && *a == *q),
                _ => false,
            },
            Connection::Bottom(a, b) => match other {
                Connection::Bottom(p, q) => (*a == *p && *b == *q) || (*b == *p && *a == *q),
                _ => false,
            },
        }
    }
}

impl vstd::std_specs::cmp::PartialEqSpecImpl for Connection {
    open spec fn obeys_eq_spec() -> bool {
        true
    }

    open spec fn eq_spec(&self, other: &Self) -> bool {
        self.spec_key() == other.spec_key()
    }
}

impl PartialOrd for Connection {
    fn partial_cmp(&self, other: &Self) -> (r: Option<Ordering>) {
        let a = self.key();
        let b = other.key();
        if a.0 < b.0 || (a.0 == b.0 && (a.1 < b.1 || (a.1 == b.1 && a.2 < b.2))) {
            Some(Ordering::Less)
        } else if a.0 == b.0 && a.1 == b.1 && a.2 == b.2 {
            Some(Ordering::Equal)
        } else {
            Some(Ordering::Greater)
        }
    }
}

impl vstd::std_specs::cmp::PartialOrdSpecImpl for Connection {
    open spec fn obeys_partial_cmp_spec() -> bool {
        true
    }

    open spec fn partial_cmp_spec(&self, other: &Self) -> Option<Ordering> {
        if self.spec_key() == other.spec_key() {
            Some(Ordering::Equal)
        } else if key_le(self.spec_key(), other.spec_key()) {
            Some(Ordering::Less)
        } else {
            Some(Ordering::Greater)
        }
    }
}

/// The wire between two columns of a row.
pub open spec fn wire(region: Region, a: usize, b: usize) -> Connection {
    match region {
        Region::Top => Connection::Top(a, b),
        Region::Bottom => Connection::Bottom(a, b),
    }
}

/// A wire is the same wire with its columns the other way round: the two are
/// equal, and stored and ordered under one key.
pub proof fn lemma_equality_is_symmetric(region: Region, a: usize, b: usize)
    ensures
        wire(region, a, b).eq_spec(&wire(region, b, a)),
        wire(region, a, b).spec_key() == wire(region, b, a).spec_key(),
{
}

/// The keys of a sequence of wires, in the same order.
pub open spec fn keys_of(wires: Seq<Connection>) -> Seq<Key> {
    wires.map_values(|wire: Connection| wire.spec_key())
}

/// Every wire is written with its lower column first.
pub open spec fn lower_first(wires: Seq<Connection>) -> bool {
    forall|i: int|
        0 <= i < wires.len() ==> (#[trigger] wires[i]).spec_first() <= wires[i].spec_second()
}

/// A set of keys that a `Connections` can hold: at most as many as the
/// capacity, each the key of a wire.
pub open spec fn holds_wires(held: Set<Key>) -> bool {
    &&& held.finite()
    &&& held.len() <= CAPACITY
    &&& forall|k: Key| held.contains(k) ==> key_valid(k)
}

/// The keys of a set that lie in one row.
pub open spec fn region_keys(held: Set<Key>, region: Region) -> Set<Key> {
    Set::new(|k: Key| held.contains(k) && k.0 == tag_of(region))
}

/// Why a wire was not taken into the set.
#[derive(Copy, Clone, Debug, PartialEq, Eq, Structural)]
pub enum ConnectionError {
    /// Both ends of the wire are the same column.
    InvalidConnection,
    /// The set already holds as many wires as it can, and this one is new.
    CapacityExceeded,
}

/// How many wires a set holds at most, both rows together.
pub const CAPACITY: usize = 32;

/// The wires of the board: a bounded set, in which a wire is found again
/// whichever way round its columns are written.
pub struct Connections {
    set: FnvIndexSet<Key, 32>,
}

impl View for Connections {
    type V = Set<Key>;

    /// The keys of the wires held.
    closed spec fn view(&self) -> Set<Key> {
        keys(self.set)
    }
}

impl Clone for Connections {
    /// A set with the same wires.
    fn clone(&self) -> (copy: Self)
        ensures
            copy@ == self@,
    {
        proof {
            use_type_invariant(self);
        }
        Connections { set: set_clone(&self.set) }
    }
}

impl Connections {
    #[verifier::type_invariant]
    spec fn well_formed(self) -> bool {
        &&& keys(self.set).finite()
        &&& keys(self.set).len() <= 32
        &&& forall|k: Key| keys(self.set).contains(k) ==> key_valid(k)
    }

    /// A set without wires.
    pub fn new() -> (connections: Self)
        ensures
            connections@ == Set::<Key>::empty(),
    {
        Connections { set: set_new() }
    }

    /// The number of wires held. It is never above the capacity, and what
    /// is held are keys of wires.
    pub fn len(&self) -> (n: usize)
        ensures
            n == self@.len(),
            holds_wires(self@),
    {
        proof {
            use_type_invariant(self);
        }
        set_len(&self.set)
    }

    /// Whether the wire is held, whichever way round it is written.
    pub fn contains(&self, connection: Connection) -> (held: bool)
        ensures
            held == self@.contains(connection.spec_key()),
    {
        set_contains(&self.set, &connection.key())
    }

    /// Takes a wire into the set. A wire already held changes nothing. A wire
    /// from a column to itself is refused, and so is a new wire when the set
    /// is full; the set is then as it was.
    pub fn insert(&mut self, connection: Connection) -> (taken: Result<(), ConnectionError>)
        ensures
            taken == insert_outcome(old(self)@, connection),
            final(self)@ == insert_spec(old(self)@, connection),
    {
        proof {
            use_type_invariant(&*self);
        }
        if connection.reflexive() {
            return Err(ConnectionError::InvalidConnection);
        }
        match set_insert(&mut self.set, connection.key()) {
            Ok(_) => Ok(()),
            Err(_) => Err(ConnectionError::CapacityExceeded),
        }
    }

    /// The wires held, each once and with its lower column first, in no order
    /// that a caller may count on.
    pub fn iter(&self) -> (wires: Vec<Connection>)
        ensures
            keys_of(wires@).no_duplicates(),
            keys_of(wires@).to_set() == self@,
            lower_first(wires@),
            wires.len() == self@.len(),
            wires.len() <= CAPACITY,
    {
        proof {
            use_type_invariant(self);
        }
        let items = set_items(&self.set);
        assert forall|j: int| 0 <= j < items.len() implies key_valid(#[trigger] items@[j]) by {
            assert(items@.to_set().contains(items@[j]));
        }
        let mut wires: Vec<Connection> = Vec::new();
        let mut i: usize = 0;
        assert(keys_of(wires@) =~= items@.subrange(0, 0));
        while i < items.len()
            invariant
                i <= items.len(),
                wires.len() == i,
                forall|j: int| 0 <= j < items.len() ==> key_valid(#[trigger] items@[j]),
                keys_of(wires@) == items@.subrange(0, i as int),
                lower_first(wires@),
            decreases items.len() - i,
        {
            assert(key_valid(items@[i as int]));
            let ghost before = wires@;
            wires.push(Connection::from_key(items[i]));
            i += 1;
            assert forall|j: int| 0 <= j < i implies keys_of(wires@)[j] == items@[j] by {
                if j < i - 1 {
                    assert(keys_of(before)[j] == items@.subrange(0, i - 1)[j]);
                }
            }
            assert(keys_of(wires@) =~= items@.subrange(0, i as int));
        }
        proof {
            assert(items@.subrange(0, i as int) =~= items@);
            items@.unique_seq_to_set();
        }
        wires
    }

    /// The wires held in one row, each once and with its lower column first,
    /// in no order that a caller may count on.
    pub fn iter_region(&self, region: Region) -> (wires: Vec<Connection>)
        ensures
            keys_of(wires@).no_duplicates(),
            keys_of(wires@).to_set() == region_keys(self@, region),
            lower_first(wires@),
            wires.len() <= CAPACITY,
    {
        let all = self.iter();
        let ghost all_keys = keys_of(all@);
        let mut wires: Vec<Connection> = Vec::new();
        let mut i: usize = 0;
        while i < all.len()
            invariant
                i <= all.len(),
                wires.len() <= i,
                all_keys == keys_of(all@),
                all_keys.no_duplicates(),
                lower_first(all@),
                lower_first(wires@),
                keys_of(wires@).no_duplicates(),
                forall|j: int|
                    0 <= j < wires.len() ==> (#[trigger] keys_of(wires@)[j]).0 == tag_of(region)
                        && all_keys.subrange(0, i as int).contains(keys_of(wires@)[j]),
                forall|j: int|
                    0 <= j < i && (#[trigger] all_keys[j]).0 == tag_of(region) ==> keys_of(
                        wires@,
                    ).contains(all_keys[j]),
            decreases all.len() - i,
        {
            let wire = all[i];
            let ghost before = wires@;
            let ghost key = all_keys[i as int];
            assert(key == wire.spec_key());
            assert(all_keys.subrange(0, i + 1) =~= all_keys.subrange(0, i as int).push(key));
            assert forall|j: int| 0 <= j < before.len() implies all_keys.subrange(
                0,
                i + 1,
            ).contains(#[trigger] keys_of(before)[j]) by {
                let at = choose|at: int|
                    0 <= at < i && all_keys.subrange(0, i as int)[at] == keys_of(before)[j];
                assert(all_keys.subrange(0, i + 1)[at] == keys_of(before)[j]);
            }
            assert(all_keys.subrange(0, i + 1)[i as int] == key);
            if wire.region() == region {
                wires.push(wire);
                assert(keys_of(wires@) =~= keys_of(before).push(key));
                assert(!all_keys.subrange(0, i as int).contains(key));
                assert forall|j: int| 0 <= j < i + 1 && (#[trigger] all_keys[j]).0 == tag_of(
                    region,
                ) implies keys_of(wires@).contains(all_keys[j]) by {
                    if j < i {
                        let at = choose|at: int|
                            0 <= at < before.len() && keys_of(before)[at] == all_keys[j];
                        assert(keys_of(wires@)[at] == all_keys[j]);
                    } else {
                        assert(keys_of(wires@)[before.len() as int] == key);
                    }
                }
            }
            i += 1;
        }
        proof {
            assert(all_keys.subrange(0, i as int) =~= all_keys);
            assert forall|k: Key| keys_of(wires@).to_set().contains(k) <==> region_keys(
                self@,
                region,
            ).contains(k) by {
                if keys_of(wires@).to_set().contains(k) {
                    let at = choose|at: int| 0 <= at < wires.len() && keys_of(wires@)[at] == k;
                    assert(all_keys.contains(keys_of(wires@)[at]));
                    assert(all_keys.to_set().contains(k));
                }
                if region_keys(self@, region).contains(k) {
                    assert(all_keys.to_set().contains(k));
                    let at = choose|at: int| 0 <= at < all_keys.len() && all_keys[at] == k;
                    assert(keys_of(wires@).contains(all_keys[at]));
                }
            }
            assert(keys_of(wires@).to_set() =~= region_keys(self@, region));
        }
        wires
    }

    /// Takes a wire out of the set. A wire that is not held changes nothing.
    pub fn remove(&mut self, connection: Connection)
        ensures
            final(self)@ == old(self)@.remove(connection.spec_key()),
    {
        proof {
            use_type_invariant(&*self);
        }
        let _ = set_remove(&mut self.set, &connection.key());
    }
}

impl Connections {
    /// Draws a wire, or takes it away if it is already there. A wire from a
    /// column to itself is refused, and so is a new wire when the set is full.
    pub fn toggle(&mut self, connection: Connection) -> (done: Result<(), ConnectionError>)
        ensures
            done == insert_outcome(old(self)@, connection),
            final(self)@ == toggle_spec(old(self)@, connection),
    {
        proof {
            use_type_invariant(&*self);
        }
        if self.contains(connection) {
            assert(key_valid(connection.spec_key()));
            self.remove(connection);
            Ok(())
        } else {
            self.insert(connection)
        }
    }
}

/// The keys held after `toggle` of a wire, given the keys held before.
pub open spec fn toggle_spec(held: Set<Key>, connection: Connection) -> Set<Key> {
    if held.contains(connection.spec_key()) {
        held.remove(connection.spec_key())
    } else {
        insert_spec(held, connection)
    }
}

/// What `insert` answers for a wire, given the keys held before.
pub open spec fn insert_outcome(held: Set<Key>, connection: Connection) -> Result<
    (),
    ConnectionError,
> {
    if connection.spec_reflexive() {
        Err(ConnectionError::InvalidConnection)
    } else if !held.contains(connection.spec_key()) && held.len() >= CAPACITY {
        Err(ConnectionError::CapacityExceeded)
    } else {
        Ok(())
    }
}

/// The keys held after `insert` of a wire, given the keys held before.
pub open spec fn insert_spec(held: Set<Key>, connection: Connection) -> Set<Key> {
    if insert_outcome(held, connection) is Ok {
        held.insert(connection.spec_key())
    } else {
        held
    }
}

/// Inserting a wire between two different columns comes to the same whichever
/// way round the columns are written, and inserting it both ways makes the
/// set grow by one wire, not by two.
pub proof fn lemma_insert_either_way(held: Set<Key>, region: Region, a: usize, b: usize)
    requires
        held.finite(),
        a != b,
    ensures
        insert_outcome(held, wire(region, a, b)) == insert_outcome(held, wire(region, b, a)),
        insert_spec(held, wire(region, a, b)) == insert_spec(held, wire(region, b, a)),
        insert_spec(insert_spec(held, wire(region, a, b)), wire(region, b, a)) == insert_spec(
            held,
            wire(region, a, b),
        ),
        !held.contains(wire(region, a, b).spec_key()) && held.len() < CAPACITY ==> insert_spec(
            insert_spec(held, wire(region, a, b)),
            wire(region, b, a),
        ).len() == held.len() + 1,
{
    lemma_insert_idempotent(held, wire(region, a, b));
}

/// Inserting a wire a second time changes neither which wires the set holds
/// nor how many.
pub proof fn lemma_insert_idempotent(held: Set<Key>, connection: Connection)
    requires
        held.finite(),
    ensures
        insert_spec(insert_spec(held, connection), connection) == insert_spec(held, connection),
        insert_spec(insert_spec(held, connection), connection).len() == insert_spec(
            held,
            connection,
        ).len(),
        insert_outcome(held, connection) is Ok ==> insert_outcome(
            insert_spec(held, connection),
            connection,
        ) is Ok,
{
    let once = insert_spec(held, connection);
    if insert_outcome(held, connection) is Ok {
        assert(once.contains(connection.spec_key()));
        assert(once.insert(connection.spec_key()) =~= once);
    }
}

} // verus!
