use breadboard::touchscreen::{GestureTracker, TouchEvent, TouchEventType};
use breadboard::web_screen::{MouseEvent, MouseEventType, PointerTracker};

fn touch(x: i32, y: i32, kind: TouchEventType) -> TouchEvent {
    TouchEvent { x, y, kind }
}

#[test]
fn a_contact_that_moves_and_lifts() {
    let mut tracker = GestureTracker::new();
    let events = tracker.track_all(&vec![Some((10, 10)), Some((12, 11)), None]);
    assert_eq!(
        events,
        vec![
            touch(10, 10, TouchEventType::Start),
            touch(12, 11, TouchEventType::Move),
            touch(12, 11, TouchEventType::End),
        ]
    );
    assert_eq!(tracker.last_known(), None);
}

#[test]
fn one_sample_at_a_time() {
    let mut tracker = GestureTracker::new();
    assert_eq!(tracker.track(None), None);
    assert_eq!(tracker.track(Some((10, 10))), Some(touch(10, 10, TouchEventType::Start)));
    assert_eq!(tracker.last_known(), Some((10, 10)));
    assert_eq!(tracker.track(Some((12, 11))), Some(touch(12, 11, TouchEventType::Move)));
    assert_eq!(tracker.track(None), Some(touch(12, 11, TouchEventType::End)));
    assert_eq!(tracker.track(None), None);
    assert_eq!(tracker.last_known(), None);
}

#[test]
fn no_event_while_idle() {
    let mut tracker = GestureTracker::new();
    let events = tracker.track_all(&vec![None, None, None]);
    assert!(events.is_empty());
}

#[test]
fn no_samples_no_events() {
    let mut tracker = GestureTracker::new();
    tracker.track(Some((1, 2)));
    let events = tracker.track_all(&Vec::new());
    assert!(events.is_empty());
    assert_eq!(tracker.last_known(), Some((1, 2)));
}

#[test]
fn every_gesture_has_one_start_and_one_end() {
    let mut tracker = GestureTracker::new();
    let samples = vec![
        None,
        Some((1, 1)),
        None,
        None,
        Some((2, 2)),
        Some((3, 3)),
        Some((3, 3)),
        None,
        Some((4, 4)),
    ];
    let events = tracker.track_all(&samples);
    let kinds: Vec<TouchEventType> = events.iter().map(|event| event.kind).collect();
    assert_eq!(
        kinds,
        vec![
            TouchEventType::Start,
            TouchEventType::End,
            TouchEventType::Start,
            TouchEventType::Move,
            TouchEventType::Move,
            TouchEventType::End,
            TouchEventType::Start,
        ]
    );
    let mut in_gesture = false;
    for kind in kinds {
        match kind {
            TouchEventType::Start => {
                assert!(!in_gesture);
                in_gesture = true;
            }
            TouchEventType::Move => assert!(in_gesture),
            TouchEventType::End => {
                assert!(in_gesture);
                in_gesture = false;
            }
        }
    }
    assert!(in_gesture);
    assert_eq!(tracker.last_known(), Some((4, 4)));
}

#[test]
fn the_end_is_where_the_contact_was_last_seen() {
    let mut tracker = GestureTracker::new();
    tracker.track(Some((-5, 7)));
    tracker.track(Some((40, 50)));
    assert_eq!(tracker.track(None), Some(touch(40, 50, TouchEventType::End)));
}

fn mouse(x: i32, y: i32, kind: MouseEventType) -> Option<MouseEvent> {
    Some(MouseEvent { x, y, kind })
}

#[test]
fn a_pressed_button_is_a_contact() {
    let mut pointer = PointerTracker::new();
    assert!(!pointer.is_down());
    assert_eq!(pointer.track(mouse(1, 1, MouseEventType::Move)), None);
    assert_eq!(pointer.track(mouse(1, 1, MouseEventType::Up)), None);
    assert_eq!(pointer.track(mouse(1, 1, MouseEventType::Leave)), None);
    assert_eq!(pointer.track(None), None);
    assert_eq!(
        pointer.track(mouse(2, 3, MouseEventType::Down)),
        Some(touch(2, 3, TouchEventType::Start))
    );
    assert!(pointer.is_down());
    assert_eq!(pointer.track(None), None);
    assert!(pointer.is_down());
    assert_eq!(
        pointer.track(mouse(4, 5, MouseEventType::Move)),
        Some(touch(4, 5, TouchEventType::Move))
    );
    assert_eq!(
        pointer.track(mouse(6, 7, MouseEventType::Up)),
        Some(touch(6, 7, TouchEventType::End))
    );
    assert!(!pointer.is_down());
    assert_eq!(pointer.track(mouse(6, 7, MouseEventType::Up)), None);
}

#[test]
fn leaving_the_screen_lifts_the_contact() {
    let mut pointer = PointerTracker::new();
    pointer.track(mouse(2, 3, MouseEventType::Down));
    assert_eq!(
        pointer.track(mouse(-1, 3, MouseEventType::Leave)),
        Some(touch(-1, 3, TouchEventType::End))
    );
    assert!(!pointer.is_down());
    assert_eq!(pointer.track(mouse(0, 3, MouseEventType::Move)), None);
}

#[test]
fn a_second_press_moves_the_gesture_under_way() {
    let mut pointer = PointerTracker::new();
    assert_eq!(
        pointer.track(mouse(2, 3, MouseEventType::Down)),
        Some(touch(2, 3, TouchEventType::Start))
    );
    assert_eq!(
        pointer.track(mouse(8, 9, MouseEventType::Down)),
        Some(touch(8, 9, TouchEventType::Move))
    );
    assert!(pointer.is_down());
    assert_eq!(
        pointer.track(mouse(8, 9, MouseEventType::Up)),
        Some(touch(8, 9, TouchEventType::End))
    );
    assert_eq!(
        pointer.track(mouse(1, 1, MouseEventType::Down)),
        Some(touch(1, 1, TouchEventType::Start))
    );
}

#[test]
fn whatever_the_pointer_does_gestures_keep_their_order() {
    let kinds = [
        MouseEventType::Down,
        MouseEventType::Move,
        MouseEventType::Up,
        MouseEventType::Leave,
    ];
    let mut seed: usize = 7;
    let mut pointer = PointerTracker::new();
    let mut in_gesture = false;
    for step in 0..400 {
        seed = (seed * 1103515245 + 12345) % 2147483648;
        let event = if (seed >> 8) % 5 == 4 {
            None
        } else {
            mouse(step, 0, kinds[(seed >> 8) % 5])
        };
        match pointer.track(event).map(|touch| touch.kind) {
            Some(TouchEventType::Start) => {
                assert!(!in_gesture);
                in_gesture = true;
            }
            Some(TouchEventType::Move) => assert!(in_gesture),
            Some(TouchEventType::End) => {
                assert!(in_gesture);
                in_gesture = false;
            }
            None => {}
        }
        assert_eq!(pointer.is_down(), in_gesture);
    }
}

#[test]
fn the_panel_gives_the_event_of_its_raw_sample() {
    let mut tracker = GestureTracker::new();
    assert_eq!(breadboard::red_screen::get_touch_event(&mut tracker, (100, 100)), None);
    assert_eq!(
        breadboard::red_screen::get_touch_event(&mut tracker, (762, 742)),
        Some(touch(68, 46, TouchEventType::Start))
    );
    assert_eq!(
        breadboard::red_screen::get_touch_event(&mut tracker, (3920, 3850)),
        Some(touch(476, 322, TouchEventType::Move))
    );
    assert_eq!(
        breadboard::red_screen::get_touch_event(&mut tracker, (4001, 3850)),
        Some(touch(476, 322, TouchEventType::End))
    );
    assert_eq!(tracker.last_known(), None);
}
