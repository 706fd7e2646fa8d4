//! One tick of the board: from the raw sample of the touch panel to the wires.

use crate::model::{
    insert_outcome, toggle_spec, wire, Connection, ConnectionError, Connections, Key,
};
use crate::selection::{
    finished_span, next_state, SelectionController, SelectionEvent, SelectionEventType,
    SelectionState, Span,
};
use crate::touchscreen::{event_of, GestureTracker, Sample, TouchEvent, TouchEventType};
use crate::view::{Breadboard, HitTestResult};
use crate::xpt2046::CalibrationMapping;
use vstd::prelude::*;

verus! {

/// What one tick did.
#[derive(Copy, Clone, Debug)]
pub struct Tick {
    /// The touch event of the tick, if there was one.
    pub touch: Option<TouchEvent>,
    /// The span that the tick finished, if it ended a drag.
    pub span: Option<Span>,
    /// How the wire of that span was received by the set.
    pub change: Option<Result<(), ConnectionError>>,
}

/// The logical position of a raw sample. A sample outside the bounds of the
/// calibration counts as no contact.
pub open spec fn position_of(calibration: CalibrationMapping, sample: Option<(u16, u16)>) -> Sample {
    match sample {
        None => None,
        Some(raw) => match calibration.spec_convert(raw) {
            None => None,
            Some(at) => Some((at.0 as i32, at.1 as i32)),
        },
    }
}

/// The kind of selection event that a kind of touch event makes.
pub open spec fn selection_kind(kind: TouchEventType) -> SelectionEventType {
    match kind {
        TouchEventType::Start => SelectionEventType::Start,
        TouchEventType::Move => SelectionEventType::Update,
        TouchEventType::End => SelectionEventType::End,
    }
}

/// The selection event that a touch event makes on a board, if the touch hits it.
pub open spec fn selection_event_of(board: Breadboard, touch: Option<TouchEvent>) -> Option<
    SelectionEvent,
> {
    match touch {
        None => None,
        Some(t) => match board.spec_hit_test(t.x, t.y) {
            Err(_) => None,
            Ok((region, HitTestResult::HitColumn(column))) => Some(
                SelectionEvent { region, column, kind: selection_kind(t.kind) },
            ),
        },
    }
}

/// The wire that a span draws: from its first column to the column after its last.
pub open spec fn wire_of(span: Span) -> Connection {
    wire(span.region, span.start, span.end)
}

/// The parts of the board's logic, which one loop owns.
pub struct Controller {
    pub calibration: CalibrationMapping,
    pub board: Breadboard,
    pub gestures: GestureTracker,
    pub selection: SelectionController,
    pub connections: Connections,
}

impl Controller {
    /// A controller with no contact, no selection and no wires.
    pub fn new(calibration: CalibrationMapping, board: Breadboard) -> (controller: Self)
        ensures
            controller.calibration == calibration,
            controller.board == board,
            controller.gestures@ is None,
            controller.selection@ == SelectionState::Idle,
            controller.connections@ == Set::<Key>::empty(),
    {
        Controller {
            calibration,
            board,
            gestures: GestureTracker::new(),
            selection: SelectionController::new(),
            connections: Connections::new(),
        }
    }

    /// The touch event that a sample makes in this state.
    pub open spec fn touch_of(&self, sample: Option<(u16, u16)>) -> Option<TouchEvent> {
        event_of(self.gestures@, position_of(self.calibration, sample))
    }

    /// The span that a touch event finishes in this state.
    pub open spec fn span_of(&self, touch: Option<TouchEvent>) -> Option<Span> {
        match selection_event_of(self.board, touch) {
            None => None,
            Some(event) => finished_span(self.selection@, event),
        }
    }

    /// The selection after a touch event in this state.
    pub open spec fn selection_after(&self, touch: Option<TouchEvent>) -> SelectionState {
        match selection_event_of(self.board, touch) {
            None => self.selection@,
            Some(event) => next_state(self.selection@, event),
        }
    }

    /// The keys of the wires after a touch event in this state: the drag that
    /// the event ends draws its wire, or takes it away if it is already there.
    pub open spec fn wires_after(&self, touch: Option<TouchEvent>) -> Set<Key> {
        match self.span_of(touch) {
            None => self.connections@,
            Some(span) => toggle_spec(self.connections@, wire_of(span)),
        }
    }

    /// How the set receives the wire of the drag that a touch event ends.
    pub open spec fn change_by(&self, touch: Option<TouchEvent>) -> Option<
        Result<(), ConnectionError>,
    > {
        match self.span_of(touch) {
            None => None,
            Some(span) => Some(insert_outcome(self.connections@, wire_of(span))),
        }
    }

    /// Takes the touch event of one tick, if there is one, through hit test
    /// and selection. The drag that ends in this tick draws its wire, or takes
    /// it away if it is already there. A touch that hits nothing is passed over.
    pub fn on_touch(&mut self, touch: Option<TouchEvent>) -> (done: Tick)
        ensures
            final(self).calibration == old(self).calibration,
            final(self).board == old(self).board,
            final(self).gestures == old(self).gestures,
            done.touch == touch,
            final(self).selection@ == old(self).selection_after(touch),
            done.span == old(self).span_of(touch),
            final(self).connections@ == old(self).wires_after(touch),
            done.change == old(self).change_by(touch),
    {
        let event = match touch {
            None => None,
            Some(t) => match self.board.hit_test(t.x, t.y) {
                Err(_) => None,
                Ok((region, HitTestResult::HitColumn(column))) => {
                    let kind = match t.kind {
                        TouchEventType::Start => SelectionEventType::Start,
                        TouchEventType::Move => SelectionEventType::Update,
                        TouchEventType::End => SelectionEventType::End,
                    };
                    Some(SelectionEvent { region, column, kind })
                },
            },
        };
        let span = match event {
            None => None,
            Some(e) => self.selection.handle(e),
        };
        let change = match span {
            None => None,
            Some(s) => Some(self.connections.toggle(Connection::new(s.region, s.start, s.end))),
        };
        Tick { touch, span, change }
    }

    /// Takes the raw sample of one tick through calibration and gesture
    /// tracking, and the touch event that comes of it through `on_touch`.
    pub fn tick(&mut self, sample: Option<(u16, u16)>) -> (done: Tick)
        ensures
            final(self).calibration == old(self).calibration,
            final(self).board == old(self).board,
            final(self).gestures@ == position_of(old(self).calibration, sample),
            done.touch == old(self).touch_of(sample),
            final(self).selection@ == old(self).selection_after(old(self).touch_of(sample)),
            done.span == old(self).span_of(old(self).touch_of(sample)),
            final(self).connections@ == old(self).wires_after(old(self).touch_of(sample)),
            done.change == old(self).change_by(old(self).touch_of(sample)),
    {
        let position: Sample = match sample {
            None => None,
            Some(raw) => match self.calibration.convert(raw) {
                None => None,
                Some(at) => Some((at.0 as i32, at.1 as i32)),
            },
        };
        let touch = self.gestures.track(position);
        self.on_touch(touch)
    }

    /// Takes what the touch panel gave in one tick. A failed read ends the
    /// tick at once: nothing changes, and the next tick tries again.
    pub fn tick_read<E>(&mut self, read: Result<Option<(u16, u16)>, E>) -> (done: Option<Tick>)
        ensures
            read is Err ==> done is None && *final(self) == *old(self),
            read is Ok ==> done is Some,
            read matches Ok(sample) ==> {
                &&& final(self).calibration == old(self).calibration
                &&& final(self).board == old(self).board
                &&& final(self).gestures@ == position_of(old(self).calibration, sample)
                &&& done->Some_0.touch == old(self).touch_of(sample)
                &&& final(self).selection@ == old(self).selection_after(old(self).touch_of(sample))
                &&& done->Some_0.span == old(self).span_of(old(self).touch_of(sample))
                &&& final(self).connections@ == old(self).wires_after(old(self).touch_of(sample))
                &&& done->Some_0.change == old(self).change_by(old(self).touch_of(sample))
            },
    {
        match read {
            Err(_) => None,
            Ok(sample) => Some(self.tick(sample)),
        }
    }
}

} // verus!
