//! Touch events, and the tracker that makes them out of a stream of samples.

use vstd::prelude::*;

verus! {

/// The three kinds of touch event of a gesture.
#[derive(Copy, Clone, Debug, PartialEq, Eq, Structural)]
pub enum TouchEventType {
    Start,
    Move,
    End,
}

/// A touch event at a logical position.
#[derive(Copy, Clone, Debug, PartialEq, Eq, Structural)]
pub struct TouchEvent {
    pub x: i32,
    pub y: i32,
    pub kind: TouchEventType,
}

/// A screen that can be asked for the next touch event.
pub trait Touchscreen {
    fn get_touch_event(&mut self) -> Option<TouchEvent>;
}

/// A logical position, or nothing while there is no contact.
pub type Sample = Option<(i32, i32)>;

/// The event that a sample gives, after the sample before it:
/// a position after none starts a gesture, a position after one moves it,
/// none after a position ends it where it last was, none after none is silent.
pub open spec fn event_of(last_known: Sample, sample: Sample) -> Option<TouchEvent> {
    match (sample, last_known) {
        (Some(at), None) => Some(TouchEvent { x: at.0, y: at.1, kind: TouchEventType::Start }),
        (Some(at), Some(_)) => Some(TouchEvent { x: at.0, y: at.1, kind: TouchEventType::Move }),
        (None, Some(last)) => Some(TouchEvent { x: last.0, y: last.1, kind: TouchEventType::End }),
        (None, None) => None,
    }
}

/// The events that a sequence of samples gives, in their order.
pub open spec fn events_of(last_known: Sample, samples: Seq<Sample>) -> Seq<TouchEvent>
    decreases samples.len(),
{
    if samples.len() == 0 {
        Seq::empty()
    } else {
        let rest = events_of(samples[0], samples.drop_first());
        match event_of(last_known, samples[0]) {
            Some(event) => seq![event] + rest,
            None => rest,
        }
    }
}

/// What is last known after a sequence of samples: the last sample, if there is one.
pub open spec fn last_after(last_known: Sample, samples: Seq<Sample>) -> Sample {
    if samples.len() == 0 {
        last_known
    } else {
        samples.last()
    }
}

/// Whether a gesture is under way after a sequence of events, if one was
/// (`in_gesture`) before it. Nothing, if the events break the order of
/// gestures: a gesture begins with one `Start`, goes on with `Move`s and is
/// over with one `End`, and outside a gesture only a `Start` can come.
pub open spec fn gesture_after(in_gesture: bool, events: Seq<TouchEvent>) -> Option<bool>
    decreases events.len(),
{
    if events.len() == 0 {
        Some(in_gesture)
    } else {
        match (in_gesture, events[0].kind) {
            (false, TouchEventType::Start) => gesture_after(true, events.drop_first()),
            (true, TouchEventType::Move) => gesture_after(true, events.drop_first()),
            (true, TouchEventType::End) => gesture_after(false, events.drop_first()),
            _ => None,
        }
    }
}

/// How many events of a kind a sequence holds.
pub open spec fn count_of(events: Seq<TouchEvent>, kind: TouchEventType) -> nat
    decreases events.len(),
{
    if events.len() == 0 {
        0
    } else {
        count_of(events.drop_first(), kind) + if events[0].kind == kind {
            1nat
        } else {
            0nat
        }
    }
}

/// Whatever the samples are, their events keep the order of gestures: one
/// `Start` comes before any `Move` or `End` of a gesture, one `End` closes
/// each gesture that was started, and a gesture is under way afterwards
/// exactly if the last sample was a position.
pub proof fn lemma_gestures_in_order(last_known: Sample, samples: Seq<Sample>)
    ensures
        gesture_after(last_known is Some, events_of(last_known, samples)) == Some(
            last_after(last_known, samples) is Some,
        ),
    decreases samples.len(),
{
    if samples.len() != 0 {
        let rest = samples.drop_first();
        lemma_gestures_in_order(samples[0], rest);
        if rest.len() > 0 {
            assert(rest.last() == samples.last());
        }
        match event_of(last_known, samples[0]) {
            Some(event) => {
                let events = seq![event] + events_of(samples[0], rest);
                assert(events[0] == event);
                assert(events.drop_first() =~= events_of(samples[0], rest));
            },
            None => {},
        }
    }
}

/// In a sequence of events that keeps the order of gestures, the `Start`s
/// and the `End`s pair up: with the gesture under way at the beginning, there
/// are as many as with the one under way at the end.
pub proof fn lemma_starts_match_ends(in_gesture: bool, events: Seq<TouchEvent>)
    requires
        gesture_after(in_gesture, events) is Some,
    ensures
        count_of(events, TouchEventType::Start) + (if in_gesture {
            1nat
        } else {
            0nat
        }) == count_of(events, TouchEventType::End) + (if gesture_after(in_gesture, events)
            == Some(true) {
            1nat
        } else {
            0nat
        }),
    decreases events.len(),
{
    if events.len() != 0 {
        match (in_gesture, events[0].kind) {
            (false, TouchEventType::Start) => lemma_starts_match_ends(true, events.drop_first()),
            (true, TouchEventType::Move) => lemma_starts_match_ends(true, events.drop_first()),
            (true, TouchEventType::End) => lemma_starts_match_ends(false, events.drop_first()),
            _ => {},
        }
    }
}

/// Follows one contact at a time through a stream of samples.
#[derive(Copy, Clone, Debug)]
pub struct GestureTracker {
    last_known: Sample,
}

impl View for GestureTracker {
    type V = Sample;

    /// The position of the contact when it was last seen, while a gesture is under way.
    closed spec fn view(&self) -> Sample {
        self.last_known
    }
}

impl GestureTracker {
    /// A tracker that has seen no contact.
    pub fn new() -> (tracker: Self)
        ensures
            tracker@ is None,
    {
        GestureTracker { last_known: None }
    }

    /// The position of the contact when it was last seen, while a gesture is under way.
    pub fn last_known(&self) -> (last: Sample)
        ensures
            last == self@,
    {
        self.last_known
    }

    /// Takes the sample of one tick and gives the event it makes, if any.
    /// An `End` is at the position last seen, not at the sample's.
    pub fn track(&mut self, sample: Sample) -> (event: Option<TouchEvent>)
        ensures
            event == event_of(old(self)@, sample),
            final(self)@ == sample,
    {
        let event = match (sample, self.last_known) {
            (Some(at), None) => Some(TouchEvent { x: at.0, y: at.1, kind: TouchEventType::Start }),
            (Some(at), Some(_)) => Some(
                TouchEvent { x: at.0, y: at.1, kind: TouchEventType::Move },
            ),
            (None, Some(last)) => Some(
                TouchEvent { x: last.0, y: last.1, kind: TouchEventType::End },
            ),
            (None, None) => None,
        };
        self.last_known = sample;
        event
    }

    /// Takes the samples of several ticks and gives the events they make.
    pub fn track_all(&mut self, samples: &Vec<Sample>) -> (events: Vec<TouchEvent>)
        ensures
            events@ == events_of(old(self)@, samples@),
            final(self)@ == last_after(old(self)@, samples@),
    {
        let mut events: Vec<TouchEvent> = Vec::new();
        let mut i: usize = 0;
        assert(samples@.skip(0) =~= samples@);
        while i < samples.len()
            invariant
                i <= samples.len(),
                self@ == last_after(old(self)@, samples@.take(i as int)),
                events@ + events_of(self@, samples@.skip(i as int)) == events_of(
                    old(self)@,
                    samples@,
                ),
            decreases samples.len() - i,
        {
            let ghost before = events@;
            let ghost rest = samples@.skip(i as int);
            assert(rest[0] == samples@[i as int]);
            assert(rest.drop_first() =~= samples@.skip(i + 1));
            assert(samples@.take(i + 1).last() == samples@[i as int]);
            match self.track(samples[i]) {
                Some(event) => {
                    events.push(event);
                    assert(events@ + events_of(samples@[i as int], rest.drop_first()) =~= before + (
                    seq![event] + events_of(samples@[i as int], rest.drop_first())));
                },
                None => {},
            }
            i += 1;
        }
        assert(samples@.take(i as int) =~= samples@);
        assert(events@ + Seq::<TouchEvent>::empty() =~= events@);
        events
    }
}

} // verus!
