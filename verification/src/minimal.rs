//! Why the packing of wires that are in order opens no track too many.

use crate::model::{key_le, keys_overlap, Connection};
use crate::packing::{collision_free, fill_track, fits, lemma_fill_track_keeps_all, pack_spec};
use vstd::prelude::*;

verus! {

/// No wire is followed by one with a smaller key.
pub open spec fn in_order(wires: Seq<Connection>) -> bool {
    forall|i: int, j: int|
        #![trigger wires[i], wires[j]]
        0 <= i < j < wires.len() ==> key_le(wires[i].spec_key(), wires[j].spec_key())
}

/// The wire lies in the row of a tag and reaches over a column.
pub open spec fn covers(wire: Connection, tag: u8, column: usize) -> bool {
    wire.spec_key().0 == tag && wire.spec_low() <= column <= wire.spec_high()
}

/// The first wire collides with the second and does not come after it, so that
/// it reaches over the lower column of the second.
pub open spec fn blocks(first: Connection, second: Connection) -> bool {
    keys_overlap(first.spec_key(), second.spec_key()) && key_le(
        first.spec_key(),
        second.spec_key(),
    )
}

/// No wire of the rest has a smaller key than a wire of the track.
pub open spec fn precedes(track: Seq<Connection>, rest: Seq<Connection>) -> bool {
    forall|i: int, j: int|
        #![trigger track[i], rest[j]]
        0 <= i < track.len() && 0 <= j < rest.len() ==> key_le(
            track[i].spec_key(),
            rest[j].spec_key(),
        )
}

/// Some wire of the track blocks the wire.
pub open spec fn blocked_by(track: Seq<Connection>, wire: Connection) -> bool {
    exists|k: int| 0 <= k < track.len() && blocks(#[trigger] track[k], wire)
}

/// Some wire of the track reaches over the column in the row of the tag.
pub open spec fn covered_by(track: Seq<Connection>, tag: u8, column: usize) -> bool {
    exists|k: int| 0 <= k < track.len() && covers(#[trigger] track[k], tag, column)
}

/// A wire of each of the first tracks, up to and including track `t`, reaches
/// over the column in the row of the tag.
pub open spec fn all_cover(tracks: Seq<Seq<Connection>>, t: int, tag: u8, column: usize) -> bool {
    forall|j: int| 0 <= j <= t ==> covered_by(#[trigger] tracks[j], tag, column)
}

/// When a track is filled from wires in order that come after its own, every
/// wire left over is blocked by a wire of the filled track. The wires left
/// over are wires of the rest and still in order; the wires of the filled
/// track are those of the track and wires of the rest.
pub proof fn lemma_left_over_is_blocked(track: Seq<Connection>, rest: Seq<Connection>)
    requires
        precedes(track, rest),
        in_order(rest),
    ensures
        in_order(fill_track(track, rest).1),
        forall|i: int|
            0 <= i < fill_track(track, rest).1.len() ==> rest.contains(
                #[trigger] fill_track(track, rest).1[i],
            ),
        forall|k: int|
            0 <= k < fill_track(track, rest).0.len() ==> track.contains(
                #[trigger] fill_track(track, rest).0[k],
            ) || rest.contains(fill_track(track, rest).0[k]),
        forall|i: int|
            0 <= i < fill_track(track, rest).1.len() ==> blocked_by(
                fill_track(track, rest).0,
                #[trigger] fill_track(track, rest).1[i],
            ),
    decreases rest.len(),
{
    let filled = fill_track(track, rest).0;
    let left = fill_track(track, rest).1;
    if rest.len() == 0 {
        assert forall|k: int| 0 <= k < filled.len() implies track.contains(
            #[trigger] filled[k],
        ) by {
            assert(track[k] == filled[k]);
        }
    } else {
        let head = rest[0];
        let tail = rest.drop_first();
        assert forall|i: int, j: int|
            #![trigger tail[i], tail[j]]
            0 <= i < j < tail.len() implies key_le(tail[i].spec_key(), tail[j].spec_key()) by {
            assert(tail[i] == rest[i + 1] && tail[j] == rest[j + 1]);
        }
        assert forall|j: int| 0 <= j < tail.len() implies rest.contains(#[trigger] tail[j]) by {
            assert(rest[j + 1] == tail[j]);
        }
        if fits(track, head) {
            let grown = track.push(head);
            assert forall|i: int, j: int|
                #![trigger grown[i], tail[j]]
                0 <= i < grown.len() && 0 <= j < tail.len() implies key_le(
                grown[i].spec_key(),
                tail[j].spec_key(),
            ) by {
                assert(tail[j] == rest[j + 1]);
                if i < track.len() {
                    assert(grown[i] == track[i]);
                } else {
                    assert(grown[i] == rest[0]);
                }
            }
            lemma_left_over_is_blocked(grown, tail);
            assert forall|i: int| 0 <= i < left.len() implies rest.contains(#[trigger] left[i]) by {
                assert(tail.contains(left[i]));
                let at = choose|at: int| 0 <= at < tail.len() && tail[at] == left[i];
                assert(rest[at + 1] == left[i]);
            }
            assert forall|k: int| 0 <= k < filled.len() implies track.contains(
                #[trigger] filled[k],
            ) || rest.contains(filled[k]) by {
                if grown.contains(filled[k]) {
                    let at = choose|at: int| 0 <= at < grown.len() && grown[at] == filled[k];
                    if at < track.len() {
                        assert(track[at] == filled[k]);
                    } else {
                        assert(rest[0] == filled[k]);
                    }
                } else {
                    let at = choose|at: int| 0 <= at < tail.len() && tail[at] == filled[k];
                    assert(rest[at + 1] == filled[k]);
                }
            }
        } else {
            assert forall|i: int, j: int|
                #![trigger track[i], tail[j]]
                0 <= i < track.len() && 0 <= j < tail.len() implies key_le(
                track[i].spec_key(),
                tail[j].spec_key(),
            ) by {
                assert(tail[j] == rest[j + 1]);
            }
            lemma_left_over_is_blocked(track, tail);
            lemma_fill_track_keeps_all(track, tail);
            let rest_left = fill_track(track, tail).1;
            assert(left == seq![head] + rest_left);
            assert(filled == fill_track(track, tail).0);
            assert forall|i: int| 0 <= i < left.len() implies rest.contains(#[trigger] left[i]) by {
                if i == 0 {
                    assert(rest[0] == left[0]);
                } else {
                    assert(left[i] == rest_left[i - 1]);
                    assert(tail.contains(rest_left[i - 1]));
                    let at = choose|at: int| 0 <= at < tail.len() && tail[at] == left[i];
                    assert(rest[at + 1] == left[i]);
                }
            }
            assert forall|i: int, j: int|
                #![trigger left[i], left[j]]
                0 <= i < j < left.len() implies key_le(left[i].spec_key(), left[j].spec_key()) by {
                assert(left[j] == rest_left[j - 1]);
                if i == 0 {
                    assert(tail.contains(rest_left[j - 1]));
                    let at = choose|at: int| 0 <= at < tail.len() && tail[at] == left[j];
                    assert(rest[at + 1] == left[j]);
                    assert(left[0] == rest[0]);
                } else {
                    assert(left[i] == rest_left[i - 1]);
                }
            }
            assert forall|k: int| 0 <= k < filled.len() implies track.contains(
                #[trigger] filled[k],
            ) || rest.contains(filled[k]) by {
                if !track.contains(filled[k]) {
                    let at = choose|at: int| 0 <= at < tail.len() && tail[at] == filled[k];
                    assert(rest[at + 1] == filled[k]);
                }
            }
            assert forall|i: int| 0 <= i < left.len() implies blocked_by(
                filled,
                #[trigger] left[i],
            ) by {
                if i == 0 {
                    let at = choose|at: int|
                        0 <= at < track.len() && !(#[trigger] track[at]).spec_non_overlapping(
                            &head,
                        );
                    assert(filled.subrange(0, track.len() as int)[at] == track[at]);
                    assert(filled[at] == track[at]);
                    assert(key_le(track[at].spec_key(), rest[0].spec_key()));
                    assert(blocks(filled[at], left[0]));
                } else {
                    assert(left[i] == rest_left[i - 1]);
                    assert(blocked_by(filled, rest_left[i - 1]));
                }
            }
        }
    }
}

/// The wires of the tracks are wires of the sequence that was packed.
pub proof fn lemma_tracks_hold_given_wires(wires: Seq<Connection>)
    requires
        in_order(wires),
    ensures
        forall|t: int, i: int|
            0 <= t < pack_spec(wires).len() && 0 <= i < pack_spec(wires)[t].len()
                ==> wires.contains(#[trigger] pack_spec(wires)[t][i]),
    decreases wires.len(),
{
    if wires.len() != 0 {
        let first = seq![wires[0]];
        let rest = wires.drop_first();
        let track = fill_track(first, rest).0;
        let left = fill_track(first, rest).1;
        lemma_first_precedes(wires);
        lemma_left_over_is_blocked(first, rest);
        lemma_fill_track_keeps_all(first, rest);
        lemma_tracks_hold_given_wires(left);
        let packed = pack_spec(wires);
        assert forall|t: int, i: int|
            0 <= t < packed.len() && 0 <= i < packed[t].len() implies wires.contains(
            #[trigger] packed[t][i],
        ) by {
            let wire = packed[t][i];
            if t == 0 {
                assert(packed[0] == track);
                assert(first.contains(track[i]) || rest.contains(track[i]));
                if first.contains(wire) {
                    assert(wires[0] == wire);
                } else {
                    let at = choose|at: int| 0 <= at < rest.len() && rest[at] == wire;
                    assert(wires[at + 1] == wire);
                }
            } else {
                assert(packed[t] == pack_spec(left)[t - 1]);
                assert(left.contains(pack_spec(left)[t - 1][i]));
                let within = choose|within: int| 0 <= within < left.len() && left[within] == wire;
                assert(rest.contains(left[within]));
                let at = choose|at: int| 0 <= at < rest.len() && rest[at] == wire;
                assert(wires[at + 1] == wire);
            }
        }
    }
}

/// In a sequence in order, the first wire comes before the others, which are in order.
proof fn lemma_first_precedes(wires: Seq<Connection>)
    requires
        in_order(wires),
        wires.len() > 0,
    ensures
        precedes(seq![wires[0]], wires.drop_first()),
        in_order(wires.drop_first()),
{
    let first = seq![wires[0]];
    let rest = wires.drop_first();
    assert forall|i: int, j: int|
        #![trigger first[i], rest[j]]
        0 <= i < first.len() && 0 <= j < rest.len() implies key_le(
        first[i].spec_key(),
        rest[j].spec_key(),
    ) by {
        assert(first[i] == wires[0]);
        assert(rest[j] == wires[j + 1]);
    }
    assert forall|i: int, j: int|
        #![trigger rest[i], rest[j]]
        0 <= i < j < rest.len() implies key_le(rest[i].spec_key(), rest[j].spec_key()) by {
        assert(rest[i] == wires[i + 1] && rest[j] == wires[j + 1]);
    }
}

/// When wires in order are packed, every wire of a track is blocked by a wire
/// of each track before it: that is why it was not placed there.
pub proof fn lemma_earlier_tracks_block(wires: Seq<Connection>)
    requires
        in_order(wires),
    ensures
        forall|t: int, i: int, j: int|
            0 <= j < t < pack_spec(wires).len() && 0 <= i < pack_spec(wires)[t].len()
                ==> blocked_by(#[trigger] pack_spec(wires)[j], #[trigger] pack_spec(wires)[t][i]),
    decreases wires.len(),
{
    if wires.len() != 0 {
        let first = seq![wires[0]];
        let rest = wires.drop_first();
        let track = fill_track(first, rest).0;
        let left = fill_track(first, rest).1;
        lemma_first_precedes(wires);
        lemma_left_over_is_blocked(first, rest);
        lemma_fill_track_keeps_all(first, rest);
        lemma_earlier_tracks_block(left);
        lemma_tracks_hold_given_wires(left);
        let packed = pack_spec(wires);
        assert forall|t: int, i: int, j: int|
            0 <= j < t < packed.len() && 0 <= i < packed[t].len() implies blocked_by(
            #[trigger] packed[j],
            #[trigger] packed[t][i],
        ) by {
            let wire = packed[t][i];
            assert(packed[t] == pack_spec(left)[t - 1]);
            if j == 0 {
                assert(packed[0] == track);
                assert(left.contains(pack_spec(left)[t - 1][i]));
                let within = choose|within: int| 0 <= within < left.len() && left[within] == wire;
                assert(blocked_by(track, left[within]));
            } else {
                assert(packed[j] == pack_spec(left)[j - 1]);
                assert(blocked_by(pack_spec(left)[j - 1], pack_spec(left)[t - 1][i]));
            }
        }
    }
}

/// When wires in order are packed, each track is there for a reason: there is
/// a column that a wire of this track and a wire of every track before it
/// reach over, all in one row.
pub proof fn lemma_every_track_is_needed(wires: Seq<Connection>, t: int)
    requires
        in_order(wires),
        0 <= t < pack_spec(wires).len(),
    ensures
        exists|tag: u8, column: usize| #[trigger] all_cover(pack_spec(wires), t, tag, column),
{
    let packed = pack_spec(wires);
    crate::packing::lemma_tracks_hold_all(wires);
    lemma_earlier_tracks_block(wires);
    let wire = packed[t][0];
    let tag = wire.spec_key().0;
    let column = wire.spec_low();
    assert forall|j: int| 0 <= j <= t implies covered_by(#[trigger] packed[j], tag, column) by {
        if j == t {
            assert(covers(packed[t][0], tag, column));
        } else {
            assert(blocked_by(packed[j], packed[t][0]));
            let k = choose|k: int| 0 <= k < packed[j].len() && blocks(#[trigger] packed[j][k], wire);
            assert(covers(packed[j][k], tag, column));
        }
    }
    assert(all_cover(packed, t, tag, column));
}

/// No two wires of the sequence have the same key.
pub open spec fn distinct(wires: Seq<Connection>) -> bool {
    forall|i: int, j: int|
        #![trigger wires[i], wires[j]]
        0 <= i < j < wires.len() ==> wires[i].spec_key() != wires[j].spec_key()
}

/// The wire is in one of the tracks.
pub open spec fn placed_in(tracks: Seq<Seq<Connection>>, wire: Connection) -> bool {
    exists|lane: int| 0 <= lane < tracks.len() && (#[trigger] tracks[lane]).contains(wire)
}

/// An arrangement of wires in tracks: every wire is in a track, and no two
/// wires of a track collide.
pub open spec fn arranges(tracks: Seq<Seq<Connection>>, wires: Seq<Connection>) -> bool {
    &&& forall|lane: int| 0 <= lane < tracks.len() ==> collision_free(#[trigger] tracks[lane])
    &&& forall|i: int| 0 <= i < wires.len() ==> placed_in(tracks, #[trigger] wires[i])
}

/// When a track is filled from wires that all differ, the filled track and
/// the wires left over still all differ.
proof fn lemma_fill_track_keeps_distinct(track: Seq<Connection>, rest: Seq<Connection>)
    requires
        precedes(track, rest),
        in_order(rest),
        distinct(track + rest),
    ensures
        distinct(fill_track(track, rest).0 + fill_track(track, rest).1),
    decreases rest.len(),
{
    let filled = fill_track(track, rest).0;
    let left = fill_track(track, rest).1;
    let whole = track + rest;
    if rest.len() == 0 {
        assert(filled + left =~= track + rest);
    } else {
        let head = rest[0];
        let tail = rest.drop_first();
        lemma_left_over_is_blocked(track, rest);
        assert(whole[track.len() as int] == head);
        if fits(track, head) {
            let grown = track.push(head);
            assert(grown + tail =~= whole);
            assert forall|i: int, j: int|
                #![trigger grown[i], tail[j]]
                0 <= i < grown.len() && 0 <= j < tail.len() implies key_le(
                grown[i].spec_key(),
                tail[j].spec_key(),
            ) by {
                assert(tail[j] == rest[j + 1]);
                if i < track.len() {
                    assert(grown[i] == track[i]);
                } else {
                    assert(grown[i] == rest[0]);
                }
            }
            assert forall|i: int, j: int|
                #![trigger tail[i], tail[j]]
                0 <= i < j < tail.len() implies key_le(tail[i].spec_key(), tail[j].spec_key()) by {
                assert(tail[i] == rest[i + 1] && tail[j] == rest[j + 1]);
            }
            lemma_fill_track_keeps_distinct(grown, tail);
        } else {
            let shorter = track + tail;
            assert forall|i: int, j: int|
                #![trigger shorter[i], shorter[j]]
                0 <= i < j < shorter.len() implies shorter[i].spec_key()
                != shorter[j].spec_key() by {
                let from = if i < track.len() {
                    i
                } else {
                    i + 1
                };
                let to = if j < track.len() {
                    j
                } else {
                    j + 1
                };
                assert(whole[from] == shorter[i]);
                assert(whole[to] == shorter[j]);
            }
            assert forall|i: int, j: int|
                #![trigger track[i], tail[j]]
                0 <= i < track.len() && 0 <= j < tail.len() implies key_le(
                track[i].spec_key(),
                tail[j].spec_key(),
            ) by {
                assert(tail[j] == rest[j + 1]);
            }
            assert forall|i: int, j: int|
                #![trigger tail[i], tail[j]]
                0 <= i < j < tail.len() implies key_le(tail[i].spec_key(), tail[j].spec_key()) by {
                assert(tail[i] == rest[i + 1] && tail[j] == rest[j + 1]);
            }
            lemma_fill_track_keeps_distinct(track, tail);
            lemma_left_over_is_blocked(track, tail);
            let rest_left = fill_track(track, tail).1;
            let before = filled + rest_left;
            let after = filled + left;
            assert(left == seq![head] + rest_left);
            assert forall|k: int| 0 <= k < before.len() implies (#[trigger] before[k]).spec_key()
                != head.spec_key() by {
                let wire = before[k];
                if k < filled.len() {
                    assert(wire == filled[k]);
                    assert(track.contains(filled[k]) || tail.contains(filled[k]));
                } else {
                    assert(wire == rest_left[k - filled.len()]);
                    assert(tail.contains(rest_left[k - filled.len()]));
                }
                if track.contains(wire) {
                    let at = choose|at: int| 0 <= at < track.len() && track[at] == wire;
                    assert(whole[at] == wire);
                } else {
                    let at = choose|at: int| 0 <= at < tail.len() && tail[at] == wire;
                    assert(whole[track.len() + 1 + at] == wire);
                }
            }
            assert forall|i: int, j: int|
                #![trigger after[i], after[j]]
                0 <= i < j < after.len() implies after[i].spec_key() != after[j].spec_key() by {
                let from = if i < filled.len() {
                    i
                } else {
                    i - 1
                };
                let to = if j < filled.len() {
                    j
                } else {
                    j - 1
                };
                if i == filled.len() {
                    assert(after[i] == head);
                    assert(before[to] == after[j]);
                } else if j == filled.len() {
                    assert(after[j] == head);
                    assert(before[from] == after[i]);
                } else {
                    assert(before[from] == after[i]);
                    assert(before[to] == after[j]);
                }
            }
        }
    }
}

/// When wires in order that all differ are packed, no wire is in two tracks.
pub proof fn lemma_tracks_share_no_wire(wires: Seq<Connection>)
    requires
        in_order(wires),
        distinct(wires),
    ensures
        forall|t: int, i: int, u: int, j: int|
            0 <= t < u < pack_spec(wires).len() && 0 <= i < pack_spec(wires)[t].len() && 0 <= j
                < pack_spec(wires)[u].len() ==> (#[trigger] pack_spec(wires)[t][i]).spec_key() != (
            #[trigger] pack_spec(wires)[u][j]).spec_key(),
    decreases wires.len(),
{
    if wires.len() != 0 {
        let first = seq![wires[0]];
        let rest = wires.drop_first();
        let track = fill_track(first, rest).0;
        let left = fill_track(first, rest).1;
        assert(first + rest =~= wires);
        lemma_first_precedes(wires);
        lemma_left_over_is_blocked(first, rest);
        lemma_fill_track_keeps_all(first, rest);
        lemma_fill_track_keeps_distinct(first, rest);
        let both = track + left;
        assert forall|i: int, j: int|
            #![trigger left[i], left[j]]
            0 <= i < j < left.len() implies left[i].spec_key() != left[j].spec_key() by {
            assert(both[track.len() + i] == left[i]);
            assert(both[track.len() + j] == left[j]);
        }
        lemma_tracks_share_no_wire(left);
        lemma_tracks_hold_given_wires(left);
        let packed = pack_spec(wires);
        assert forall|t: int, i: int, u: int, j: int|
            0 <= t < u < packed.len() && 0 <= i < packed[t].len() && 0 <= j
                < packed[u].len() implies (#[trigger] packed[t][i]).spec_key() != (
        #[trigger] packed[u][j]).spec_key() by {
            assert(packed[u] == pack_spec(left)[u - 1]);
            if t == 0 {
                assert(packed[0] == track);
                assert(left.contains(pack_spec(left)[u - 1][j]));
                let at = choose|at: int| 0 <= at < left.len() && left[at] == packed[u][j];
                assert(both[i] == track[i]);
                assert(both[track.len() + at] == left[at]);
            } else {
                assert(packed[t] == pack_spec(left)[t - 1]);
            }
        }
    }
}

/// No arrangement does with fewer tracks: when wires in order that all differ
/// are packed, any arrangement of the same wires in tracks without
/// collisions has at least as many tracks as the packing.
pub proof fn lemma_no_fewer_tracks(wires: Seq<Connection>, other: Seq<Seq<Connection>>)
    requires
        in_order(wires),
        distinct(wires),
        arranges(other, wires),
    ensures
        pack_spec(wires).len() <= other.len(),
{
    let packed = pack_spec(wires);
    if packed.len() > 0 {
        let t = packed.len() - 1;
        lemma_every_track_is_needed(wires, t);
        lemma_tracks_share_no_wire(wires);
        lemma_tracks_hold_given_wires(wires);
        let (tag, column) = choose|tag: u8, column: usize|
            #[trigger] all_cover(packed, t, tag, column);
        let witness = |j: int|
            choose|k: int| 0 <= k < packed[j].len() && covers(#[trigger] packed[j][k], tag, column);
        let lane = |j: int|
            choose|lane: int|
                0 <= lane < other.len() && (#[trigger] other[lane]).contains(
                    packed[j][witness(j)],
                );
        assert forall|j: int| 0 <= j <= t implies 0 <= witness(j) < packed[j].len() && covers(
            packed[j][witness(j)],
            tag,
            column,
        ) && 0 <= #[trigger] lane(j) < other.len() && other[lane(j)].contains(
            packed[j][witness(j)],
        ) by {
            assert(covered_by(packed[j], tag, column));
            let wire = packed[j][witness(j)];
            assert(wires.contains(wire));
            let at = choose|at: int| 0 <= at < wires.len() && wires[at] == wire;
            assert(placed_in(other, wires[at]));
        }
        let tracks = vstd::set_lib::set_int_range(0, t + 1);
        let lanes = tracks.map(lane);
        vstd::set_lib::lemma_int_range(0, t + 1);
        vstd::set_lib::lemma_int_range(0, other.len() as int);
        assert forall|a: int, b: int|
            tracks.contains(a) && tracks.contains(b) && #[trigger] lane(a) == #[trigger] lane(
                b,
            ) implies a == b by {
            if a != b {
                let first = packed[a][witness(a)];
                let second = packed[b][witness(b)];
                let shared = other[lane(a)];
                assert(first.spec_key() != second.spec_key()) by {
                    if a < b {
                        assert(packed[a][witness(a)].spec_key() != packed[b][witness(
                            b,
                        )].spec_key());
                    } else {
                        assert(packed[b][witness(b)].spec_key() != packed[a][witness(
                            a,
                        )].spec_key());
                    }
                }
                let p = choose|p: int| 0 <= p < shared.len() && shared[p] == first;
                let q = choose|q: int| 0 <= q < shared.len() && shared[q] == second;
                assert(collision_free(shared));
                if p < q {
                    assert(shared[p].spec_non_overlapping(&shared[q]));
                } else {
                    assert(shared[q].spec_non_overlapping(&shared[p]));
                }
            }
        }
        assert(vstd::relations::injective_on(lane, tracks));
        vstd::set_lib::lemma_map_size(tracks, lanes, lane);
        assert(lanes.subset_of(vstd::set_lib::set_int_range(0, other.len() as int))) by {
            assert forall|l: int| lanes.contains(l) implies 0 <= l < other.len() by {
                let j = choose|j: int| tracks.contains(j) && l == lane(j);
                assert(0 <= lane(j) < other.len());
            }
        }
        vstd::set_lib::lemma_len_subset(lanes, vstd::set_lib::set_int_range(0, other.len() as int));
    }
}

/// When a track in order is filled from wires in order that come after its
/// own, the filled track is in order.
proof fn lemma_filled_track_in_order(track: Seq<Connection>, rest: Seq<Connection>)
    requires
        in_order(track),
        precedes(track, rest),
        in_order(rest),
    ensures
        in_order(fill_track(track, rest).0),
    decreases rest.len(),
{
    if rest.len() != 0 {
        let head = rest[0];
        let tail = rest.drop_first();
        assert forall|i: int, j: int|
            #![trigger tail[i], tail[j]]
            0 <= i < j < tail.len() implies key_le(tail[i].spec_key(), tail[j].spec_key()) by {
            assert(tail[i] == rest[i + 1] && tail[j] == rest[j + 1]);
        }
        if fits(track, head) {
            let grown = track.push(head);
            assert forall|i: int, j: int|
                #![trigger grown[i], grown[j]]
                0 <= i < j < grown.len() implies key_le(grown[i].spec_key(), grown[j].spec_key()) by {
                assert(grown[i] == track[i]);
                if j < track.len() {
                    assert(grown[j] == track[j]);
                } else {
                    assert(grown[j] == rest[0]);
                }
            }
            assert forall|i: int, j: int|
                #![trigger grown[i], tail[j]]
                0 <= i < grown.len() && 0 <= j < tail.len() implies key_le(
                grown[i].spec_key(),
                tail[j].spec_key(),
            ) by {
                assert(tail[j] == rest[j + 1]);
                if i < track.len() {
                    assert(grown[i] == track[i]);
                } else {
                    assert(grown[i] == rest[0]);
                }
            }
            lemma_filled_track_in_order(grown, tail);
        } else {
            assert forall|i: int, j: int|
                #![trigger track[i], tail[j]]
                0 <= i < track.len() && 0 <= j < tail.len() implies key_le(
                track[i].spec_key(),
                tail[j].spec_key(),
            ) by {
                assert(tail[j] == rest[j + 1]);
            }
            lemma_filled_track_in_order(track, tail);
        }
    }
}

/// When wires in order are packed, the wires of every track are in order,
/// and no two of them have the same key: each track is strictly ascending.
pub proof fn lemma_tracks_in_order(wires: Seq<Connection>)
    requires
        in_order(wires),
    ensures
        forall|t: int|
            0 <= t < pack_spec(wires).len() ==> in_order(#[trigger] pack_spec(wires)[t])
                && distinct(pack_spec(wires)[t]),
    decreases wires.len(),
{
    if wires.len() != 0 {
        let first = seq![wires[0]];
        let rest = wires.drop_first();
        let track = fill_track(first, rest).0;
        let left = fill_track(first, rest).1;
        lemma_first_precedes(wires);
        lemma_left_over_is_blocked(first, rest);
        lemma_fill_track_keeps_all(first, rest);
        lemma_filled_track_in_order(first, rest);
        lemma_tracks_in_order(left);
        crate::packing::lemma_tracks_collision_free(wires);
        let packed = pack_spec(wires);
        assert forall|t: int| 0 <= t < packed.len() implies in_order(#[trigger] packed[t])
            && distinct(packed[t]) by {
            if t == 0 {
                assert(packed[0] == track);
            } else {
                assert(packed[t] == pack_spec(left)[t - 1]);
            }
            let lane = packed[t];
            assert(collision_free(lane));
            assert forall|i: int, j: int|
                #![trigger lane[i], lane[j]]
                0 <= i < j < lane.len() implies lane[i].spec_key() != lane[j].spec_key() by {
                assert(lane[i].spec_non_overlapping(&lane[j]));
            }
        }
    }
}

} // verus!
