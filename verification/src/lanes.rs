//! The bounded vector of `heapless`, which keeps the tracks of a row.

use crate::view_model::Track;
use vstd::prelude::*;

verus! {

/// `heapless::Vec`, whose inside is not read.
#[verifier::external_type_specification]
#[verifier::external_body]
#[verifier::reject_recursive_types(T)]
pub struct ExBoundedVec<T, const N: usize>(heapless::Vec<T, N>);

/// The tracks that a vector holds, in their order.
pub uninterp spec fn held_tracks(tracks: heapless::Vec<Track, 32>) -> Seq<Track>;

/// `heapless::Vec::new`: believed to make a vector that holds nothing.
#[verifier::external_body]
pub(crate) fn tracks_new() -> (tracks: heapless::Vec<Track, 32>)
    ensures
        held_tracks(tracks) == Seq::<Track>::empty(),
{
    heapless::Vec::new()
}

/// `heapless::Vec::push`: believed to put the track behind those held while
/// fewer than 32 are, and to hand it back, changing nothing, once 32 are.
#[verifier::external_body]
pub(crate) fn tracks_push(tracks: &mut heapless::Vec<Track, 32>, track: Track) -> (pushed: Result<
    (),
    Track,
>)
    ensures
        held_tracks(*old(tracks)).len() < 32 ==> pushed is Ok && held_tracks(*final(tracks))
            == held_tracks(*old(tracks)).push(track),
        held_tracks(*old(tracks)).len() >= 32 ==> pushed is Err && pushed->Err_0 == track
            && held_tracks(*final(tracks)) == held_tracks(*old(tracks)),
{
    tracks.push(track)
}

/// `heapless::Vec::as_slice`: believed to give the tracks held, in their order.
#[verifier::external_body]
pub(crate) fn tracks_slice(tracks: &heapless::Vec<Track, 32>) -> (slice: &[Track])
    ensures
        slice@ == held_tracks(*tracks),
{
    tracks.as_slice()
}

} // verus!
