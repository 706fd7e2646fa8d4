//! The display with the resistive touch panel: its calibration in signed pixels.

use crate::touchscreen::{event_of, GestureTracker, TouchEvent};
use crate::xpt2046::spec_reference_convert;
use vstd::prelude::*;

verus! {

/// What `convert` gives for a raw sample: the reference mapping, in the signed
/// coordinates of touch events.
pub open spec fn spec_convert(raw: (u16, u16)) -> Option<(i32, i32)> {
    match spec_reference_convert(raw) {
        Some(at) => Some((at.0 as i32, at.1 as i32)),
        None => None,
    }
}

/// The logical position of a raw sample, or nothing for a sample outside the
/// bounds of the reference mapping.
#[verifier::when_used_as_spec(spec_convert)]
pub fn convert(raw: (u16, u16)) -> (logical: Option<(i32, i32)>)
    ensures
        logical == spec_convert(raw),
        logical is Some <==> 250 <= raw.0 <= 4000 && 230 <= raw.1 <= 3900,
{
    match crate::xpt2046::convert(raw) {
        Some(at) => Some((at.0 as i32, at.1 as i32)),
        None => None,
    }
}

/// The touch event of one tick of the panel, from its raw sample: the sample
/// is calibrated, a sample outside the bounds counts as no contact, and the
/// tracker takes what comes of it.
pub fn get_touch_event(gestures: &mut GestureTracker, raw: (u16, u16)) -> (event: Option<
    TouchEvent,
>)
    ensures
        event == event_of(old(gestures)@, spec_convert(raw)),
        final(gestures)@ == spec_convert(raw),
{
    gestures.track(convert(raw))
}

} // verus!
