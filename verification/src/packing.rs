//! First-fit packing of wires into tracks in which no two wires collide.

use crate::model::Connection;
use vstd::prelude::*;

verus! {

/// A wire fits a track when it collides with no wire already in it.
pub open spec fn fits(track: Seq<Connection>, wire: Connection) -> bool {
    forall|i: int| 0 <= i < track.len() ==> (#[trigger] track[i]).spec_non_overlapping(&wire)
}

/// Goes through `rest` in order and adds to `track` each wire that fits it then.
/// Gives the finished track and the wires that did not fit, in their order.
pub open spec fn fill_track(track: Seq<Connection>, rest: Seq<Connection>) -> (
    Seq<Connection>,
    Seq<Connection>,
)
    decreases rest.len(),
{
    if rest.len() == 0 {
        (track, Seq::empty())
    } else if fits(track, rest[0]) {
        fill_track(track.push(rest[0]), rest.drop_first())
    } else {
        let (filled, left) = fill_track(track, rest.drop_first());
        (filled, seq![rest[0]] + left)
    }
}

/// The tracks of a sequence of wires: the first wire opens a track, which is
/// filled from the wires after it; the wires left over are packed the same way.
pub open spec fn pack_spec(wires: Seq<Connection>) -> Seq<Seq<Connection>>
    decreases wires.len(),
    via pack_spec_decreases
{
    if wires.len() == 0 {
        Seq::empty()
    } else {
        let (track, left) = fill_track(seq![wires[0]], wires.drop_first());
        seq![track] + pack_spec(left)
    }
}

#[via_fn]
proof fn pack_spec_decreases(wires: Seq<Connection>) {
    if wires.len() != 0 {
        lemma_fill_track_keeps_all(seq![wires[0]], wires.drop_first());
    }
}

/// What the vectors of a vector of tracks hold.
pub open spec fn lanes(tracks: Seq<Vec<Connection>>) -> Seq<Seq<Connection>> {
    tracks.map_values(|track: Vec<Connection>| track@)
}

/// No two wires of the track collide.
pub open spec fn collision_free(track: Seq<Connection>) -> bool {
    forall|i: int, j: int|
        #![trigger track[i], track[j]]
        0 <= i < j < track.len() ==> track[i].spec_non_overlapping(&track[j])
}

/// Filling a track loses no wire and invents none: every wire of `rest` ends up
/// in the track or among those left over.
pub proof fn lemma_fill_track_keeps_all(track: Seq<Connection>, rest: Seq<Connection>)
    ensures
        fill_track(track, rest).0.len() + fill_track(track, rest).1.len() == track.len()
            + rest.len(),
        fill_track(track, rest).0.len() >= track.len(),
        fill_track(track, rest).0.subrange(0, track.len() as int) == track,
        fill_track(track, rest).0.to_multiset().add(fill_track(track, rest).1.to_multiset())
            == track.to_multiset().add(rest.to_multiset()),
    decreases rest.len(),
{
    broadcast use vstd::seq_lib::group_to_multiset_ensures;

    let result = fill_track(track, rest);
    if rest.len() != 0 {
        let head = rest[0];
        let tail = rest.drop_first();
        assert(rest == seq![head] + tail);
        vstd::seq_lib::lemma_multiset_commutative(seq![head], tail);
        if fits(track, head) {
            lemma_fill_track_keeps_all(track.push(head), tail);
            assert(result.0.subrange(0, track.len() as int) == track.push(head).subrange(
                0,
                track.len() as int,
            ));
        } else {
            lemma_fill_track_keeps_all(track, tail);
            let filled = fill_track(track, tail).0;
            let left = fill_track(track, tail).1;
            vstd::seq_lib::lemma_multiset_commutative(seq![head], left);
            assert forall|c: Connection|
                result.0.to_multiset().add(result.1.to_multiset()).count(c)
                    == track.to_multiset().add(rest.to_multiset()).count(c) by {
                assert(filled.to_multiset().add(left.to_multiset()).count(c) == track.to_multiset().add(
                    tail.to_multiset(),
                ).count(c));
            }
        }
    }
}

/// Filling a track in which no two wires collide gives such a track again.
pub proof fn lemma_fill_track_collision_free(track: Seq<Connection>, rest: Seq<Connection>)
    requires
        collision_free(track),
    ensures
        collision_free(fill_track(track, rest).0),
    decreases rest.len(),
{
    if rest.len() != 0 {
        if fits(track, rest[0]) {
            let grown = track.push(rest[0]);
            assert forall|i: int, j: int|
                #![trigger grown[i], grown[j]]
                0 <= i < j < grown.len() implies grown[i].spec_non_overlapping(&grown[j]) by {
                assert(grown[i] == track[i]);
            }
            lemma_fill_track_collision_free(grown, rest.drop_first());
        } else {
            lemma_fill_track_collision_free(track, rest.drop_first());
        }
    }
}

/// Any two wires that the packing puts in the same track have closed intervals
/// that do not meet.
pub proof fn lemma_tracks_collision_free(wires: Seq<Connection>)
    ensures
        forall|t: int|
            0 <= t < pack_spec(wires).len() ==> collision_free(#[trigger] pack_spec(wires)[t]),
    decreases wires.len(),
{
    if wires.len() != 0 {
        let first = seq![wires[0]];
        let (track, left) = fill_track(first, wires.drop_first());
        lemma_fill_track_keeps_all(first, wires.drop_first());
        lemma_fill_track_collision_free(first, wires.drop_first());
        lemma_tracks_collision_free(left);
        let packed = pack_spec(wires);
        assert forall|t: int| 0 <= t < packed.len() implies collision_free(
            #[trigger] packed[t],
        ) by {
            if t > 0 {
                assert(packed[t] == pack_spec(left)[t - 1]);
            }
        }
    }
}

/// The packing opens no empty track, and at most as many tracks as there are
/// wires; it places each wire exactly once.
pub proof fn lemma_tracks_hold_all(wires: Seq<Connection>)
    ensures
        pack_spec(wires).len() <= wires.len(),
        forall|t: int| 0 <= t < pack_spec(wires).len() ==> (#[trigger] pack_spec(wires)[t]).len() > 0,
        pack_spec(wires).flatten().to_multiset() == wires.to_multiset(),
    decreases wires.len(),
{
    broadcast use vstd::seq_lib::group_to_multiset_ensures;

    if wires.len() != 0 {
        let first = seq![wires[0]];
        let rest = wires.drop_first();
        let (track, left) = fill_track(first, rest);
        lemma_fill_track_keeps_all(first, rest);
        lemma_tracks_hold_all(left);
        let packed = pack_spec(wires);
        assert forall|t: int| 0 <= t < packed.len() implies (#[trigger] packed[t]).len() > 0 by {
            if t > 0 {
                assert(packed[t] == pack_spec(left)[t - 1]);
            }
        }
        assert(packed.flatten() =~= track + pack_spec(left).flatten()) by {
            assert(packed.drop_first() =~= pack_spec(left));
        }
        vstd::seq_lib::lemma_multiset_commutative(track, pack_spec(left).flatten());
        assert(wires =~= first + rest);
        vstd::seq_lib::lemma_multiset_commutative(first, rest);
    }
}

/// Whether the wire collides with no wire of the track.
pub fn fits_track(track: &Vec<Connection>, wire: &Connection) -> (free: bool)
    ensures
        free == fits(track@, *wire),
{
    let mut i: usize = 0;
    while i < track.len()
        invariant
            i <= track.len(),
            forall|k: int| 0 <= k < i ==> (#[trigger] track@[k]).spec_non_overlapping(wire),
        decreases track.len() - i,
    {
        if !track[i].non_overlapping(wire) {
            return false;
        }
        i += 1;
    }
    true
}

/// Packs wires into tracks, first fit: the first wire not yet placed opens a
/// track, which takes, in order, each later wire that collides with none in it.
pub fn pack(wires: &Vec<Connection>) -> (tracks: Vec<Vec<Connection>>)
    ensures
        lanes(tracks@) == pack_spec(wires@),
{
    let mut tracks: Vec<Vec<Connection>> = Vec::new();
    let mut remaining: Vec<Connection> = Vec::new();
    let mut n: usize = 0;
    while n < wires.len()
        invariant
            n <= wires.len(),
            remaining@ == wires@.subrange(0, n as int),
        decreases wires.len() - n,
    {
        remaining.push(wires[n]);
        n += 1;
    }
    assert(remaining@ =~= wires@);
    while remaining.len() > 0
        invariant
            lanes(tracks@) + pack_spec(remaining@) == pack_spec(wires@),
        decreases remaining.len(),
    {
        let mut track: Vec<Connection> = Vec::new();
        track.push(remaining[0]);
        let mut left: Vec<Connection> = Vec::new();
        let mut i: usize = 1;
        while i < remaining.len()
            invariant
                1 <= i <= remaining.len(),
                left.len() < i,
                fill_track(seq![remaining@[0]], remaining@.drop_first()).0 == fill_track(
                    track@,
                    remaining@.skip(i as int),
                ).0,
                fill_track(seq![remaining@[0]], remaining@.drop_first()).1 == left@ + fill_track(
                    track@,
                    remaining@.skip(i as int),
                ).1,
            decreases remaining.len() - i,
        {
            let wire = remaining[i];
            assert(remaining@.skip(i as int).drop_first() =~= remaining@.skip(i + 1));
            if fits_track(&track, &wire) {
                track.push(wire);
            } else {
                left.push(wire);
            }
            i += 1;
        }
        tracks.push(track);
        remaining = left;
    }
    tracks
}

} // verus!
