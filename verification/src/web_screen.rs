//! A pointing device as a touch screen: a pressed button is a contact.

use crate::touchscreen::{gesture_after, TouchEvent, TouchEventType};
use vstd::prelude::*;

verus! {

/// What the pointer did.
#[derive(Copy, Clone, Debug, PartialEq, Eq, Structural)]
pub enum MouseEventType {
    Down,
    Move,
    Up,
    Leave,
}

/// What the pointer did, and where.
#[derive(Copy, Clone, Debug, PartialEq, Eq, Structural)]
pub struct MouseEvent {
    pub x: i32,
    pub y: i32,
    pub kind: MouseEventType,
}

/// The touch event that a pointer event stands for, given whether the button
/// was down before it: pressing starts a gesture, and while one is under way
/// a press moves it; moving with the button down moves it; releasing, or
/// leaving the screen, with the button down ends it. Anything else is no touch.
pub open spec fn touch_of(down: bool, event: Option<MouseEvent>) -> Option<TouchEvent> {
    match event {
        None => None,
        Some(e) => match e.kind {
            MouseEventType::Down => Some(
                TouchEvent {
                    x: e.x,
                    y: e.y,
                    kind: if down {
                        TouchEventType::Move
                    } else {
                        TouchEventType::Start
                    },
                },
            ),
            MouseEventType::Up | MouseEventType::Leave => if down {
                Some(TouchEvent { x: e.x, y: e.y, kind: TouchEventType::End })
            } else {
                None
            },
            MouseEventType::Move => if down {
                Some(TouchEvent { x: e.x, y: e.y, kind: TouchEventType::Move })
            } else {
                None
            },
        },
    }
}

/// Whether the button is down after a pointer event, given whether it was before.
pub open spec fn down_after(down: bool, event: Option<MouseEvent>) -> bool {
    match event {
        None => down,
        Some(e) => match e.kind {
            MouseEventType::Down => true,
            MouseEventType::Up | MouseEventType::Leave => false,
            MouseEventType::Move => down,
        },
    }
}

/// The touch events that a sequence of pointer events stands for, in their order.
pub open spec fn touches_of(down: bool, events: Seq<Option<MouseEvent>>) -> Seq<TouchEvent>
    decreases events.len(),
{
    if events.len() == 0 {
        Seq::empty()
    } else {
        let rest = touches_of(down_after(down, events[0]), events.drop_first());
        match touch_of(down, events[0]) {
            Some(touch) => seq![touch] + rest,
            None => rest,
        }
    }
}

/// Whether the button is down after a sequence of pointer events.
pub open spec fn down_after_all(down: bool, events: Seq<Option<MouseEvent>>) -> bool
    decreases events.len(),
{
    if events.len() == 0 {
        down
    } else {
        down_after_all(down_after(down, events[0]), events.drop_first())
    }
}

/// Whatever the pointer does, its touch events keep the order of gestures:
/// one `Start` comes before any `Move` or `End` of a gesture, no second
/// `Start` comes while a gesture is under way, one `End` closes it, and a
/// gesture is under way afterwards exactly if the button is down.
pub proof fn lemma_pointer_gestures_in_order(down: bool, events: Seq<Option<MouseEvent>>)
    ensures
        gesture_after(down, touches_of(down, events)) == Some(down_after_all(down, events)),
    decreases events.len(),
{
    if events.len() != 0 {
        let rest = events.drop_first();
        lemma_pointer_gestures_in_order(down_after(down, events[0]), rest);
        match touch_of(down, events[0]) {
            Some(touch) => {
                let touches = seq![touch] + touches_of(down_after(down, events[0]), rest);
                assert(touches[0] == touch);
                assert(touches.drop_first() =~= touches_of(down_after(down, events[0]), rest));
            },
            None => {},
        }
    }
}

/// Follows the button of a pointing device.
#[derive(Copy, Clone, Debug)]
pub struct PointerTracker {
    down: bool,
}

impl View for PointerTracker {
    type V = bool;

    /// Whether the button is down.
    closed spec fn view(&self) -> bool {
        self.down
    }
}

impl PointerTracker {
    /// A tracker of a button that is up.
    pub fn new() -> (tracker: Self)
        ensures
            !tracker@,
    {
        PointerTracker { down: false }
    }

    /// Whether the button is down.
    pub fn is_down(&self) -> (down: bool)
        ensures
            down == self@,
    {
        self.down
    }

    /// Takes the next pointer event, if there is one, and gives the touch
    /// event that it stands for, if any.
    pub fn track(&mut self, event: Option<MouseEvent>) -> (touch: Option<TouchEvent>)
        ensures
            touch == touch_of(old(self)@, event),
            final(self)@ == down_after(old(self)@, event),
    {
        match event {
            None => None,
            Some(e) => match e.kind {
                MouseEventType::Down => {
                    if self.down {
                        Some(TouchEvent { x: e.x, y: e.y, kind: TouchEventType::Move })
                    } else {
                        self.down = true;
                        Some(TouchEvent { x: e.x, y: e.y, kind: TouchEventType::Start })
                    }
                },
                MouseEventType::Up | MouseEventType::Leave => {
                    if self.down {
                        self.down = false;
                        Some(TouchEvent { x: e.x, y: e.y, kind: TouchEventType::End })
                    } else {
                        None
                    }
                },
                MouseEventType::Move => {
                    if self.down {
                        Some(TouchEvent { x: e.x, y: e.y, kind: TouchEventType::Move })
                    } else {
                        None
                    }
                },
            },
        }
    }
}

} // verus!
