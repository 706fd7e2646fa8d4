//! The analog switch array: its pins, and the address of a crosspoint.

use vstd::prelude::*;
use vstd::std_specs::convert::IntoSpec;

verus! {

/// The 16 pins of the X side.
#[derive(Copy, Clone, Debug, PartialEq, Eq, Structural)]
pub enum XPin {
    X0,
    X1,
    X2,
    X3,
    X4,
    X5,
    X6,
    X7,
    X8,
    X9,
    X10,
    X11,
    X12,
    X13,
    X14,
    X15,
}

/// The 8 pins of the Y side.
#[derive(Copy, Clone, Debug, PartialEq, Eq, Structural)]
pub enum YPin {
    Y0,
    Y1,
    Y2,
    Y3,
    Y4,
    Y5,
    Y6,
    Y7,
}

/// The number of an X pin, from 0 to 15.
pub open spec fn x_number(pin: XPin) -> u8 {
    match pin {
        XPin::X0 => 0,
        XPin::X1 => 1,
        XPin::X2 => 2,
        XPin::X3 => 3,
        XPin::X4 => 4,
        XPin::X5 => 5,
        XPin::X6 => 6,
        XPin::X7 => 7,
        XPin::X8 => 8,
        XPin::X9 => 9,
        XPin::X10 => 10,
        XPin::X11 => 11,
        XPin::X12 => 12,
        XPin::X13 => 13,
        XPin::X14 => 14,
        XPin::X15 => 15,
    }
}

/// The number of a Y pin, from 0 to 7.
pub open spec fn y_number(pin: YPin) -> u8 {
    match pin {
        YPin::Y0 => 0,
        YPin::Y1 => 1,
        YPin::Y2 => 2,
        YPin::Y3 => 3,
        YPin::Y4 => 4,
        YPin::Y5 => 5,
        YPin::Y6 => 6,
        YPin::Y7 => 7,
    }
}

impl From<XPin> for u8 {
    fn from(pin: XPin) -> (number: u8) {
        match pin {
            XPin::X0 => 0,
            XPin::X1 => 1,
            XPin::X2 => 2,
            XPin::X3 => 3,
            XPin::X4 => 4,
            XPin::X5 => 5,
            XPin::X6 => 6,
            XPin::X7 => 7,
            XPin::X8 => 8,
            XPin::X9 => 9,
            XPin::X10 => 10,
            XPin::X11 => 11,
            XPin::X12 => 12,
            XPin::X13 => 13,
            XPin::X14 => 14,
            XPin::X15 => 15,
        }
    }
}

impl vstd::std_specs::convert::FromSpecImpl<XPin> for u8 {
    open spec fn obeys_from_spec() -> bool {
        true
    }

    open spec fn from_spec(pin: XPin) -> u8 {
        x_number(pin)
    }
}

impl From<YPin> for u8 {
    fn from(pin: YPin) -> (number: u8) {
        match pin {
            YPin::Y0 => 0,
            YPin::Y1 => 1,
            YPin::Y2 => 2,
            YPin::Y3 => 3,
            YPin::Y4 => 4,
            YPin::Y5 => 5,
            YPin::Y6 => 6,
            YPin::Y7 => 7,
        }
    }
}

impl vstd::std_specs::convert::FromSpecImpl<YPin> for u8 {
    open spec fn obeys_from_spec() -> bool {
        true
    }

    open spec fn from_spec(pin: YPin) -> u8 {
        y_number(pin)
    }
}

/// The address of a crosspoint from the numbers of its pins: the X number in
/// the low bits, the Y number in the bits from `y_shift` on.
pub open spec fn spec_address(x: u8, y: u8, y_shift: u8) -> u8 {
    x | (y << y_shift)
}

/// The address of the crosspoint of two pins. The shift must leave the Y
/// number within the 8 bits of the address.
pub fn address<X, Y, const Y_SHIFT: u8>(x: X, y: Y) -> (address: u8) where X: Into<u8>, Y: Into<u8>
    requires
        Y_SHIFT < 8,
    ensures
        <X as IntoSpec<u8>>::obeys_into_spec() && <Y as IntoSpec<u8>>::obeys_into_spec()
            ==> address == spec_address(x.into_spec(), y.into_spec(), Y_SHIFT),
{
    let x: u8 = x.into();
    let y: u8 = y.into();
    x | (y << Y_SHIFT)
}

/// On the array with 16 X pins and 8 Y pins, whose Y number starts at bit 4,
/// every crosspoint has an address of its own: 16 times the Y number, plus the
/// X number.
pub proof fn lemma_address_of_pins(x: XPin, y: YPin)
    ensures
        spec_address(x_number(x), y_number(y), 4) == x_number(x) + 16 * y_number(y),
{
    let a = x_number(x);
    let b = y_number(y);
    assert(a < 16 && b < 8 ==> (a | (b << 4u8)) == a + 16 * b) by (bit_vector);
}

/// The address of a crosspoint of the array with 16 X pins and 8 Y pins.
pub fn crosspoint(x: XPin, y: YPin) -> (address: u8)
    ensures
        address == x_number(x) + 16 * y_number(y),
{
    proof {
        lemma_address_of_pins(x, y);
    }
    address::<XPin, YPin, 4>(x, y)
}

/// An array of switches, each at the crosspoint of an X pin and a Y pin.
pub trait SwitchArray {
    type X: Into<u8>;

    type Y: Into<u8>;

    /// Closes the switch at a crosspoint.
    fn on(&mut self, x: Self::X, y: Self::Y);

    /// Opens the switch at a crosspoint.
    fn off(&mut self, x: Self::X, y: Self::Y);
}

} // verus!
