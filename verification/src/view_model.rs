//! What is drawn for the wires of the board: per row, the tracks they are
//! packed into, each with its place and its pair of colors.

use crate::minimal::{arranges, distinct, in_order, lemma_no_fewer_tracks};
use crate::model::{
    holds_wires, key_le, keys_of, region_keys, Connection, Connections, Key, Region,
};
use crate::order::{
    drawing_order, lemma_drawing_order_is, lemma_drawing_order_lists, lemma_sorted_distinct,
    sort_wires, wires_of,
};
use crate::lanes::{held_tracks, tracks_new, tracks_push, tracks_slice};
use crate::packing::{lanes, lemma_tracks_hold_all, pack, pack_spec};
use vstd::prelude::*;

verus! {

/// A color of 8 bits for each of red, green and blue.
#[derive(Copy, Clone, Debug, PartialEq, Eq, Structural)]
pub struct Color {
    pub r: u8,
    pub g: u8,
    pub b: u8,
}

/// The number of color pairs that the tracks go through in turn.
pub const PALETTE_LENGTH: usize = 3;

/// How far below the track before it a track is drawn, in pixels.
pub const TRACK_HEIGHT: usize = 18;

/// The color pairs of the tracks: yellow and orange, red and green, blue and magenta.
pub open spec fn palette(index: int) -> (Color, Color) {
    if index == 0 {
        (Color { r: 255, g: 255, b: 0 }, Color { r: 255, g: 165, b: 0 })
    } else if index == 1 {
        (Color { r: 255, g: 0, b: 0 }, Color { r: 0, g: 255, b: 0 })
    } else {
        (Color { r: 0, g: 0, b: 255 }, Color { r: 255, g: 0, b: 255 })
    }
}

/// The color pair of a track: the palette is gone through in turn.
pub fn color_pair(track_index: usize) -> (pair: (Color, Color))
    ensures
        pair == palette(track_index as int % 3),
{
    let turn = track_index % PALETTE_LENGTH;
    if turn == 0 {
        (Color { r: 255, g: 255, b: 0 }, Color { r: 255, g: 165, b: 0 })
    } else if turn == 1 {
        (Color { r: 255, g: 0, b: 0 }, Color { r: 0, g: 255, b: 0 })
    } else {
        (Color { r: 0, g: 0, b: 255 }, Color { r: 255, g: 0, b: 255 })
    }
}

/// The color of the wire at a position of a track: the two colors of the
/// track's pair take turns.
pub open spec fn color_at(colors: (Color, Color), position: int) -> Color {
    if position % 2 == 0 {
        colors.0
    } else {
        colors.1
    }
}

/// One row of wires that do not collide, with the place and colors it is drawn in.
#[derive(Debug)]
pub struct Track {
    /// The track's number, counted from 0.
    pub index: usize,
    /// The vertical distance of the track from the first one.
    pub offset: usize,
    /// The two colors that the wires of the track take in turn.
    pub colors: (Color, Color),
    /// The wires, in the order in which they were placed.
    pub connections: Vec<Connection>,
}

impl Track {
    /// The track is number `index`, holds `wires`, and has the place and the
    /// colors that belong to that number.
    pub open spec fn shows(self, index: int, wires: Seq<Connection>) -> bool {
        &&& self.index == index
        &&& self.offset == index * TRACK_HEIGHT
        &&& self.colors == palette(index % 3)
        &&& self.connections@ == wires
    }

    /// The color of the wire at a position of the track.
    pub fn color_of(&self, position: usize) -> (color: Color)
        ensures
            color == color_at(self.colors, position as int),
    {
        if position % 2 == 0 {
            self.colors.0
        } else {
            self.colors.1
        }
    }
}

/// A wire as it is drawn: the number of its track, then its lower column, its
/// upper column and its color.
pub type Placement = (usize, (usize, usize, Color));

/// The wires of a track as they are drawn, in the order of the track.
pub open spec fn placed(track: Track) -> Seq<Placement> {
    Seq::new(
        track.connections@.len(),
        |i: int|
            (
                track.index,
                (
                    track.connections@[i].spec_low(),
                    track.connections@[i].spec_high(),
                    color_at(track.colors, i),
                ),
            ),
    )
}

/// The wires of some tracks as they are drawn, track after track.
pub open spec fn placements_of(tracks: Seq<Track>) -> Seq<Placement>
    decreases tracks.len(),
{
    if tracks.len() == 0 {
        Seq::empty()
    } else {
        placements_of(tracks.drop_last()) + placed(tracks.last())
    }
}

/// The tracks are those of the lanes, numbered from 0 in their order.
pub open spec fn tracks_show(tracks: Seq<Track>, lanes: Seq<Seq<Connection>>) -> bool {
    &&& tracks.len() == lanes.len()
    &&& forall|t: int| 0 <= t < tracks.len() ==> (#[trigger] tracks[t]).shows(t, lanes[t])
}

/// The lanes that the wires of one row are packed into: its wires are taken
/// in ascending order and packed first fit.
pub open spec fn region_lanes(held: Set<Key>, region: Region) -> Seq<Seq<Connection>> {
    pack_spec(region_wires(held, region))
}

/// The wires of one row of a set, in the order in which they are packed.
pub open spec fn region_wires(held: Set<Key>, region: Region) -> Seq<Connection> {
    wires_of(drawing_order(region_keys(held, region)))
}

/// The layout of a row does with the fewest tracks: any arrangement of the
/// wires of the row in tracks without collisions has at least as many.
pub proof fn lemma_layout_has_fewest_tracks(
    held: Set<Key>,
    region: Region,
    other: Seq<Seq<Connection>>,
)
    requires
        holds_wires(held),
        arranges(other, region_wires(held, region)),
    ensures
        region_lanes(held, region).len() <= other.len(),
{
    let part = region_keys(held, region);
    vstd::set_lib::lemma_len_subset(part, held);
    lemma_drawing_order_lists(part);
    let order = drawing_order(part);
    let wires = wires_of(order);
    assert forall|i: int| 0 <= i < order.len() implies (#[trigger] wires[i]).spec_key()
        == order[i] by {
        assert(order.contains(order[i]));
        assert(order.to_set().contains(order[i]));
        assert(part.contains(order[i]));
        assert(crate::model::key_valid(order[i]));
        assert(wires[i] == Connection::spec_from_key(order[i]));
    }
    assert forall|i: int, j: int|
        #![trigger wires[i], wires[j]]
        0 <= i < j < wires.len() implies key_le(wires[i].spec_key(), wires[j].spec_key())
        && wires[i].spec_key() != wires[j].spec_key() by {
        assert(key_le(order[i], order[j]) && order[i] != order[j]);
    }
    assert(in_order(wires));
    assert(distinct(wires));
    lemma_no_fewer_tracks(wires, other);
}

/// Gives each lane its number, place and colors.
fn decorate(groups: &Vec<Vec<Connection>>) -> (tracks: heapless::Vec<Track, 32>)
    requires
        groups.len() <= 32,
    ensures
        tracks_show(held_tracks(tracks), lanes(groups@)),
{
    let mut tracks = tracks_new();
    let mut t: usize = 0;
    while t < groups.len()
        invariant
            t <= groups.len() <= 32,
            held_tracks(tracks).len() == t,
            forall|k: int|
                0 <= k < t ==> (#[trigger] held_tracks(tracks)[k]).shows(k, groups@[k]@),
        decreases groups.len() - t,
    {
        let group = &groups[t];
        let mut connections: Vec<Connection> = Vec::new();
        let mut i: usize = 0;
        while i < group.len()
            invariant
                i <= group.len(),
                connections@ == group@.subrange(0, i as int),
            decreases group.len() - i,
        {
            connections.push(group[i]);
            i += 1;
            assert(connections@ =~= group@.subrange(0, i as int));
        }
        assert(connections@ =~= group@);
        let track = Track {
            index: t,
            offset: t * TRACK_HEIGHT,
            colors: color_pair(t),
            connections,
        };
        let _ = tracks_push(&mut tracks, track);
        t += 1;
    }
    tracks
}

/// The tracks of one row of wires.
fn region_tracks(model: &Connections, region: Region) -> (tracks: heapless::Vec<Track, 32>)
    ensures
        tracks_show(held_tracks(tracks), region_lanes(model@, region)),
{
    let wires = model.iter_region(region);
    let sorted = match sort_wires(&wires) {
        Some(sorted) => sorted,
        None => Vec::new(),
    };
    proof {
        lemma_sorted_distinct(keys_of(sorted@), keys_of(wires@));
        lemma_drawing_order_is(keys_of(sorted@), region_keys(model@, region));
        assert(wires_of(keys_of(sorted@)) =~= sorted@);
        lemma_tracks_hold_all(sorted@);
        vstd::seq_lib::to_multiset_len(keys_of(sorted@));
        vstd::seq_lib::to_multiset_len(keys_of(wires@));
        assert(sorted.len() == keys_of(sorted@).len());
        assert(wires.len() == keys_of(wires@).len());
    }
    let groups = pack(&sorted);
    assert(groups.len() == lanes(groups@).len());
    decorate(&groups)
}

/// The tracks of both rows.
pub struct ViewModel {
    top: heapless::Vec<Track, 32>,
    bottom: heapless::Vec<Track, 32>,
}

impl ViewModel {
    /// The tracks of a row, as a sequence.
    pub closed spec fn spec_tracks(&self, region: Region) -> Seq<Track> {
        match region {
            Region::Top => held_tracks(self.top),
            Region::Bottom => held_tracks(self.bottom),
        }
    }

    /// Lays the wires out: those of each row are taken in ascending order,
    /// packed first fit into tracks, and each track gets its number, its
    /// place and its colors.
    pub fn from(model: &Connections) -> (view_model: ViewModel)
        ensures
            tracks_show(
                view_model.spec_tracks(Region::Top),
                region_lanes(model@, Region::Top),
            ),
            tracks_show(
                view_model.spec_tracks(Region::Bottom),
                region_lanes(model@, Region::Bottom),
            ),
    {
        ViewModel {
            top: region_tracks(model, Region::Top),
            bottom: region_tracks(model, Region::Bottom),
        }
    }

    /// The wires of a row as they are drawn: track after track, and within a
    /// track in its order, each with the number of its track and its color.
    pub fn placements(&self, region: Region) -> (drawn: Vec<Placement>)
        ensures
            drawn@ == placements_of(self.spec_tracks(region)),
    {
        let tracks = self.tracks(region);
        let mut drawn: Vec<Placement> = Vec::new();
        let mut t: usize = 0;
        assert(tracks@.take(0) =~= Seq::<Track>::empty());
        while t < tracks.len()
            invariant
                t <= tracks.len(),
                drawn@ == placements_of(tracks@.take(t as int)),
            decreases tracks.len() - t,
        {
            let track = &tracks[t];
            let ghost before = drawn@;
            let mut i: usize = 0;
            assert(before + placed(*track).take(0) =~= before);
            while i < track.connections.len()
                invariant
                    i <= track.connections.len(),
                    drawn@ == before + placed(*track).take(i as int),
                decreases track.connections.len() - i,
            {
                let wire = track.connections[i];
                drawn.push((track.index, (wire.low(), wire.high(), track.color_of(i))));
                i += 1;
                assert(drawn@ =~= before + placed(*track).take(i as int));
            }
            assert(placed(*track).take(i as int) =~= placed(*track));
            t += 1;
            assert(tracks@.take(t as int).drop_last() =~= tracks@.take(t - 1));
            assert(tracks@.take(t as int).last() == *track);
        }
        assert(tracks@.take(t as int) =~= tracks@);
        drawn
    }

    /// The tracks of a row, the first one first.
    pub fn tracks(&self, region: Region) -> (tracks: &[Track])
        ensures
            tracks@ == self.spec_tracks(region),
    {
        match region {
            Region::Top => tracks_slice(&self.top),
            Region::Bottom => tracks_slice(&self.bottom),
        }
    }
}

} // verus!
