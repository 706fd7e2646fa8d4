use breadboard::model::Region;
use breadboard::selection::{
    SelectionController, SelectionEvent, SelectionEventType, SelectionState, Span, ViewModel,
};

fn event(region: Region, column: usize, kind: SelectionEventType) -> SelectionEvent {
    SelectionEvent { region, column, kind }
}

#[test]
fn a_drag_from_column_3_to_column_7() {
    let mut controller = SelectionController::new();
    assert_eq!(controller.handle(event(Region::Top, 3, SelectionEventType::Start)), None);
    assert_eq!(controller.handle(event(Region::Top, 7, SelectionEventType::Update)), None);
    assert_eq!(
        controller.handle(event(Region::Top, 7, SelectionEventType::End)),
        Some(Span { region: Region::Top, start: 3, end: 8 })
    );
    assert_eq!(controller.state(), SelectionState::Idle);
}

#[test]
fn a_drag_to_the_left() {
    let mut controller = SelectionController::new();
    controller.handle(event(Region::Bottom, 9, SelectionEventType::Start));
    assert_eq!(
        controller.handle(event(Region::Bottom, 2, SelectionEventType::End)),
        Some(Span { region: Region::Bottom, start: 2, end: 10 })
    );
}

#[test]
fn a_tap_selects_one_column() {
    let mut controller = SelectionController::new();
    controller.handle(event(Region::Top, 4, SelectionEventType::Start));
    assert_eq!(
        controller.handle(event(Region::Top, 4, SelectionEventType::End)),
        Some(Span { region: Region::Top, start: 4, end: 5 })
    );
}

#[test]
fn the_state_follows_the_events() {
    let mut controller = SelectionController::new();
    assert_eq!(controller.state(), SelectionState::Idle);
    assert_eq!(controller.view_model(), ViewModel(None, None));
    controller.handle(event(Region::Top, 3, SelectionEventType::Start));
    assert_eq!(
        controller.state(),
        SelectionState::Active { region: Region::Top, source: 3, destination: None }
    );
    assert_eq!(controller.view_model(), ViewModel(Some(3), None));
    controller.handle(event(Region::Top, 5, SelectionEventType::Update));
    assert_eq!(
        controller.state(),
        SelectionState::Active { region: Region::Top, source: 3, destination: Some(5) }
    );
    assert_eq!(controller.view_model(), ViewModel(Some(3), Some(5)));
}

#[test]
fn the_row_of_the_start_stands() {
    let mut controller = SelectionController::new();
    controller.handle(event(Region::Top, 3, SelectionEventType::Start));
    controller.handle(event(Region::Bottom, 5, SelectionEventType::Update));
    assert_eq!(
        controller.state(),
        SelectionState::Active { region: Region::Top, source: 3, destination: Some(5) }
    );
    assert_eq!(
        controller.handle(event(Region::Bottom, 6, SelectionEventType::End)),
        Some(Span { region: Region::Top, start: 3, end: 7 })
    );
}

#[test]
fn a_start_discards_the_drag_before_it() {
    let mut controller = SelectionController::new();
    controller.handle(event(Region::Top, 3, SelectionEventType::Start));
    controller.handle(event(Region::Top, 8, SelectionEventType::Update));
    controller.handle(event(Region::Bottom, 1, SelectionEventType::Start));
    assert_eq!(
        controller.state(),
        SelectionState::Active { region: Region::Bottom, source: 1, destination: None }
    );
}

#[test]
fn an_update_or_end_without_a_start_is_absorbed() {
    let mut controller = SelectionController::new();
    assert_eq!(controller.handle(event(Region::Top, 7, SelectionEventType::Update)), None);
    assert_eq!(controller.state(), SelectionState::Idle);
    assert_eq!(controller.handle(event(Region::Top, 7, SelectionEventType::End)), None);
    assert_eq!(controller.state(), SelectionState::Idle);
    controller.handle(event(Region::Top, 1, SelectionEventType::Start));
    controller.handle(event(Region::Top, 2, SelectionEventType::End));
    assert_eq!(controller.handle(event(Region::Top, 2, SelectionEventType::End)), None);
}

#[test]
fn the_columns_that_are_shown() {
    assert_eq!(ViewModel(None, None).columns(), None);
    assert_eq!(ViewModel(None, Some(3)).columns(), None);
    assert_eq!(ViewModel(Some(4), None).columns(), Some((4, 4)));
    assert_eq!(ViewModel(Some(4), Some(9)).columns(), Some((4, 9)));
    assert_eq!(ViewModel(Some(9), Some(4)).columns(), Some((4, 9)));
}

#[test]
fn a_column_that_goes_into_no_span_may_be_any() {
    let mut controller = SelectionController::new();
    assert_eq!(controller.handle(event(Region::Top, usize::MAX, SelectionEventType::Update)), None);
    assert_eq!(controller.handle(event(Region::Top, usize::MAX, SelectionEventType::End)), None);
    assert_eq!(controller.state(), SelectionState::Idle);
    controller.handle(event(Region::Top, 3, SelectionEventType::Start));
    controller.handle(event(Region::Top, usize::MAX, SelectionEventType::Update));
    assert_eq!(
        controller.state(),
        SelectionState::Active { region: Region::Top, source: 3, destination: Some(usize::MAX) }
    );
    assert_eq!(
        controller.handle(event(Region::Top, 5, SelectionEventType::End)),
        Some(Span { region: Region::Top, start: 3, end: 6 })
    );
}
