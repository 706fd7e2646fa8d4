use breadboard::ch446::{address, crosspoint, XPin, YPin};
use breadboard::controller::Controller;
use breadboard::model::{Connection, ConnectionError, Region};
use breadboard::selection::{SelectionState, Span};
use breadboard::touchscreen::{TouchEvent, TouchEventType};
use breadboard::view::{Breadboard, HitTestResult, InvalidCoordinate};
use breadboard::view_model::ViewModel;
use breadboard::xpt2046::reference_calibration;

#[test]
fn a_point_hits_a_row_and_a_column() {
    let board = Breadboard::new(18, 160).unwrap();
    assert_eq!(board.column_width(), 18);
    assert_eq!(board.midline(), 160);
    assert_eq!(board.hit_test(0, 0), Ok((Region::Top, HitTestResult::HitColumn(0))));
    assert_eq!(board.hit_test(17, 160), Ok((Region::Top, HitTestResult::HitColumn(0))));
    assert_eq!(board.hit_test(18, 161), Ok((Region::Bottom, HitTestResult::HitColumn(1))));
    assert_eq!(board.hit_test(100, -4), Ok((Region::Top, HitTestResult::HitColumn(5))));
    assert_eq!(
        board.hit_test(i32::MAX, i32::MAX),
        Ok((Region::Bottom, HitTestResult::HitColumn(119304647)))
    );
}

#[test]
fn a_point_left_of_the_screen_hits_nothing() {
    let board = Breadboard::new(18, 160).unwrap();
    assert_eq!(board.hit_test(-1, 10), Err(InvalidCoordinate));
    assert_eq!(board.hit_test(i32::MIN, 200), Err(InvalidCoordinate));
}

#[test]
fn a_board_needs_columns_with_a_width() {
    assert!(Breadboard::new(0, 160).is_none());
    assert!(Breadboard::new(1, -7).is_some());
}

#[test]
fn the_address_of_a_crosspoint() {
    assert_eq!(address::<XPin, YPin, 4>(XPin::X0, YPin::Y0), 0);
    assert_eq!(address::<XPin, YPin, 4>(XPin::X15, YPin::Y0), 15);
    assert_eq!(address::<XPin, YPin, 4>(XPin::X3, YPin::Y2), 35);
    assert_eq!(address::<XPin, YPin, 4>(XPin::X15, YPin::Y7), 127);
    assert_eq!(address::<u8, u8, 0>(5, 10), 15);
    assert_eq!(address::<u8, u8, 7>(1, 3), 129);
    assert_eq!(crosspoint(XPin::X9, YPin::Y5), 9 + 16 * 5);
    assert_eq!(u8::from(XPin::X11), 11);
    assert_eq!(u8::from(YPin::Y6), 6);
}

fn controller() -> Controller {
    Controller::new(reference_calibration(), Breadboard::new(68, 100).unwrap())
}

fn raw(column: u16, row: u16) -> Option<(u16, u16)> {
    Some((250 + 512 * column, 230 + 512 * row))
}

#[test]
fn a_drag_draws_a_wire_and_the_same_drag_undoes_it() {
    let mut controller = controller();
    let first = controller.tick(raw(1, 0));
    assert_eq!(first.touch, Some(TouchEvent { x: 68, y: 0, kind: TouchEventType::Start }));
    assert_eq!(first.span, None);
    assert_eq!(first.change, None);
    let second = controller.tick(raw(4, 1));
    assert_eq!(second.touch, Some(TouchEvent { x: 272, y: 46, kind: TouchEventType::Move }));
    assert_eq!(
        controller.selection.state(),
        SelectionState::Active { region: Region::Top, source: 1, destination: Some(4) }
    );
    let third = controller.tick(None);
    assert_eq!(third.touch, Some(TouchEvent { x: 272, y: 46, kind: TouchEventType::End }));
    assert_eq!(third.span, Some(Span { region: Region::Top, start: 1, end: 5 }));
    assert_eq!(third.change, Some(Ok(())));
    assert_eq!(controller.connections.iter(), vec![Connection::Top(1, 5)]);
    assert_eq!(controller.selection.state(), SelectionState::Idle);
    let tracks = ViewModel::from(&controller.connections);
    assert_eq!(tracks.tracks(Region::Top)[0].connections, vec![Connection::Top(1, 5)]);

    let idle = controller.tick(None);
    assert_eq!(idle.touch, None);
    assert_eq!(idle.change, None);
    assert_eq!(controller.connections.len(), 1);

    controller.tick(raw(4, 0));
    controller.tick(raw(1, 0));
    let undone = controller.tick(None);
    assert_eq!(undone.span, Some(Span { region: Region::Top, start: 1, end: 5 }));
    assert_eq!(undone.change, Some(Ok(())));
    assert_eq!(controller.connections.len(), 0);
}

#[test]
fn a_sample_out_of_range_is_no_contact() {
    let mut controller = controller();
    assert_eq!(controller.tick(Some((10, 10))).touch, None);
    controller.tick(raw(2, 3));
    let lifted = controller.tick(Some((4001, 300)));
    assert_eq!(lifted.touch, Some(TouchEvent { x: 136, y: 138, kind: TouchEventType::End }));
    assert_eq!(lifted.span, Some(Span { region: Region::Bottom, start: 2, end: 3 }));
    assert_eq!(controller.connections.iter(), vec![Connection::Bottom(2, 3)]);
}

#[test]
fn a_full_set_refuses_the_wire_of_a_drag() {
    let mut controller = controller();
    for column in 0..32 {
        controller.connections.insert(Connection::Bottom(column, column + 1)).unwrap();
    }
    controller.tick(raw(0, 0));
    controller.tick(raw(3, 0));
    let done = controller.tick(None);
    assert_eq!(done.span, Some(Span { region: Region::Top, start: 0, end: 4 }));
    assert_eq!(done.change, Some(Err(ConnectionError::CapacityExceeded)));
    assert_eq!(controller.connections.len(), 32);
    assert!(!controller.connections.contains(Connection::Top(0, 4)));
}

#[test]
fn a_failed_read_skips_the_tick() {
    let mut controller = controller();
    controller.tick(raw(1, 0));
    controller.tick(raw(3, 0));
    let failed: Result<Option<(u16, u16)>, &str> = Err("bus");
    assert!(controller.tick_read(failed).is_none());
    assert_eq!(controller.gestures.last_known(), Some((204, 0)));
    assert_eq!(
        controller.selection.state(),
        SelectionState::Active { region: Region::Top, source: 1, destination: Some(3) }
    );
    assert_eq!(controller.connections.len(), 0);
    let read: Result<Option<(u16, u16)>, &str> = Ok(None);
    let done = controller.tick_read(read).unwrap();
    assert_eq!(done.span, Some(Span { region: Region::Top, start: 1, end: 4 }));
    assert_eq!(controller.connections.iter(), vec![Connection::Top(1, 4)]);
}

#[test]
fn a_touch_that_hits_nothing_is_passed_over() {
    let mut controller = controller();
    let off = TouchEvent { x: -3, y: 10, kind: TouchEventType::Start };
    let done = controller.on_touch(Some(off));
    assert_eq!(done.touch, Some(off));
    assert_eq!(done.span, None);
    assert_eq!(controller.selection.state(), SelectionState::Idle);
    let on = TouchEvent { x: 70, y: 150, kind: TouchEventType::Start };
    controller.on_touch(Some(on));
    assert_eq!(
        controller.selection.state(),
        SelectionState::Active { region: Region::Bottom, source: 1, destination: None }
    );
    let end = TouchEvent { x: 0, y: 0, kind: TouchEventType::End };
    let done = controller.on_touch(Some(end));
    assert_eq!(done.span, Some(Span { region: Region::Bottom, start: 0, end: 2 }));
    assert_eq!(done.change, Some(Ok(())));
    assert!(controller.connections.contains(Connection::Bottom(2, 0)));
}
