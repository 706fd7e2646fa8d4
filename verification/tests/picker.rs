use breadboard::picker::{color_of_bar, ColorPicker, PickerAction, BARS};
use breadboard::touchscreen::{TouchEvent, TouchEventType};
use breadboard::view_model::Color;

fn lifted(x: i32) -> Option<TouchEvent> {
    Some(TouchEvent { x, y: 5, kind: TouchEventType::End })
}

#[test]
fn a_lifted_contact_picks_the_color_of_its_bar() {
    let mut picker = ColorPicker::new();
    assert_eq!(picker.selected_color(), None);
    let blue = Color { r: 0, g: 0, b: 255 };
    assert_eq!(picker.tick(lifted(150), 480), PickerAction::Fill { color: blue });
    assert_eq!(picker.selected_color(), Some(blue));
    assert_eq!(picker.tick(lifted(0), 480), PickerAction::ShowBars { bar_width: 60 });
    assert_eq!(picker.selected_color(), None);
    let white = Color { r: 255, g: 255, b: 255 };
    assert_eq!(picker.tick(lifted(479), 480), PickerAction::Fill { color: white });
}

#[test]
fn only_a_lifted_contact_counts() {
    let mut picker = ColorPicker::new();
    assert_eq!(picker.tick(None, 480), PickerAction::Nothing);
    let start = TouchEvent { x: 150, y: 5, kind: TouchEventType::Start };
    let moved = TouchEvent { x: 150, y: 5, kind: TouchEventType::Move };
    assert_eq!(picker.tick(Some(start), 480), PickerAction::Nothing);
    assert_eq!(picker.tick(Some(moved), 480), PickerAction::Nothing);
    assert_eq!(picker.selected_color(), None);
    picker.tick(lifted(0), 480);
    assert_eq!(picker.tick(Some(moved), 480), PickerAction::Nothing);
    assert_eq!(picker.selected_color(), Some(Color { r: 255, g: 0, b: 0 }));
}

#[test]
fn a_contact_on_no_bar_picks_nothing() {
    let mut picker = ColorPicker::new();
    assert_eq!(picker.tick(lifted(-1), 480), PickerAction::Nothing);
    assert_eq!(picker.tick(lifted(480), 480), PickerAction::Nothing);
    assert_eq!(picker.tick(lifted(3), 7), PickerAction::Nothing);
    assert_eq!(picker.tick(lifted(480), 485), PickerAction::Nothing);
    assert_eq!(picker.selected_color(), None);
    assert_eq!(
        picker.tick(lifted(479), 485),
        PickerAction::Fill { color: Color { r: 255, g: 255, b: 255 } }
    );
}

#[test]
fn the_colors_of_the_bars() {
    assert_eq!(BARS, 8);
    let colors: Vec<Color> = (0..8).map(color_of_bar).collect();
    assert_eq!(
        colors,
        vec![
            Color { r: 255, g: 0, b: 0 },
            Color { r: 0, g: 255, b: 0 },
            Color { r: 0, g: 0, b: 255 },
            Color { r: 255, g: 0, b: 255 },
            Color { r: 0, g: 255, b: 255 },
            Color { r: 255, g: 255, b: 0 },
            Color { r: 0, g: 0, b: 0 },
            Color { r: 255, g: 255, b: 255 },
        ]
    );
}
