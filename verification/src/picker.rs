//! A color picker for trying a touch screen out: a lifted contact picks the
//! color of the bar it was on, and the next one brings the bars back.

use crate::touchscreen::{TouchEvent, TouchEventType};
use crate::view_model::Color;
use vstd::prelude::*;

verus! {

/// The number of bars.
pub const BARS: u32 = 8;

/// The colors of the bars, from the left: red, green, blue, magenta, cyan,
/// yellow, black, white. Past the last bar, its color.
pub open spec fn bar_color(bar: int) -> Color {
    if bar == 0 {
        Color { r: 255, g: 0, b: 0 }
    } else if bar == 1 {
        Color { r: 0, g: 255, b: 0 }
    } else if bar == 2 {
        Color { r: 0, g: 0, b: 255 }
    } else if bar == 3 {
        Color { r: 255, g: 0, b: 255 }
    } else if bar == 4 {
        Color { r: 0, g: 255, b: 255 }
    } else if bar == 5 {
        Color { r: 255, g: 255, b: 0 }
    } else if bar == 6 {
        Color { r: 0, g: 0, b: 0 }
    } else {
        Color { r: 255, g: 255, b: 255 }
    }
}

/// The color of a bar, counted from the left; past the last bar, its color.
pub fn color_of_bar(bar: u32) -> (color: Color)
    ensures
        color == bar_color(bar as int),
{
    if bar == 0 {
        Color { r: 255, g: 0, b: 0 }
    } else if bar == 1 {
        Color { r: 0, g: 255, b: 0 }
    } else if bar == 2 {
        Color { r: 0, g: 0, b: 255 }
    } else if bar == 3 {
        Color { r: 255, g: 0, b: 255 }
    } else if bar == 4 {
        Color { r: 0, g: 255, b: 255 }
    } else if bar == 5 {
        Color { r: 255, g: 255, b: 0 }
    } else if bar == 6 {
        Color { r: 0, g: 0, b: 0 }
    } else {
        Color { r: 255, g: 255, b: 255 }
    }
}

/// What is to be drawn after a touch event.
#[derive(Copy, Clone, Debug, PartialEq, Eq, Structural)]
pub enum PickerAction {
    /// Nothing changes.
    Nothing,
    /// The bars, each as wide as given, side by side from the left.
    ShowBars { bar_width: u32 },
    /// The whole screen in one color.
    Fill { color: Color },
}

/// The bar that a lifted contact picks on a screen of a width, if it lies on one.
pub open spec fn picked_bar(x: i32, screen_width: u32) -> Option<int> {
    if screen_width >= BARS && 0 <= x < BARS * (screen_width / BARS) {
        Some(x as int / (screen_width / BARS) as int)
    } else {
        None
    }
}

/// What a touch event does, given the color picked before: only a lifted
/// contact counts. With a color picked it brings the bars back; with none it
/// picks the color of the bar it lies on, if it lies on one.
pub open spec fn picker_step(selected: Option<Color>, event: Option<TouchEvent>, screen_width: u32) -> (
    Option<Color>,
    PickerAction,
) {
    match event {
        Some(touch) if touch.kind == TouchEventType::End => match selected {
            Some(_) => (None, PickerAction::ShowBars { bar_width: screen_width / BARS }),
            None => match picked_bar(touch.x, screen_width) {
                Some(bar) => (
                    Some(bar_color(bar)),
                    PickerAction::Fill { color: bar_color(bar) },
                ),
                None => (None, PickerAction::Nothing),
            },
        },
        _ => (selected, PickerAction::Nothing),
    }
}

/// The color picker: the color that is picked, if one is.
#[derive(Copy, Clone, Debug)]
pub struct ColorPicker {
    selected_color: Option<Color>,
}

impl View for ColorPicker {
    type V = Option<Color>;

    closed spec fn view(&self) -> Option<Color> {
        self.selected_color
    }
}

impl ColorPicker {
    /// A picker with no color picked.
    pub fn new() -> (picker: Self)
        ensures
            picker@ is None,
    {
        ColorPicker { selected_color: None }
    }

    /// The color that is picked, if one is.
    pub fn selected_color(&self) -> (color: Option<Color>)
        ensures
            color == self@,
    {
        self.selected_color
    }

    /// Takes the touch event of a tick, if there is one, and says what is to
    /// be drawn on a screen of the given width.
    pub fn tick(&mut self, event: Option<TouchEvent>, screen_width: u32) -> (action: PickerAction)
        ensures
            (final(self)@, action) == picker_step(old(self)@, event, screen_width),
    {
        let touch = match event {
            Some(touch) => touch,
            None => {
                return PickerAction::Nothing;
            },
        };
        match touch.kind {
            TouchEventType::End => {},
            _ => {
                return PickerAction::Nothing;
            },
        }
        let bar_width = screen_width / BARS;
        if self.selected_color.is_some() {
            self.selected_color = None;
            return PickerAction::ShowBars { bar_width };
        }
        if bar_width == 0 || touch.x < 0 {
            return PickerAction::Nothing;
        }
        let bar = (touch.x as u32) / bar_width;
        proof {
            assert(touch.x < BARS * bar_width <==> bar < BARS) by (nonlinear_arith)
                requires
                    bar == touch.x as int / bar_width as int,
                    bar_width > 0,
                    touch.x >= 0,
            ;
        }
        if bar >= BARS {
            return PickerAction::Nothing;
        }
        let color = color_of_bar(bar);
        self.selected_color = Some(color);
        PickerAction::Fill { color }
    }
}

} // verus!
