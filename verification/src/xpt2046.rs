//! The touch controller's side of the board: what its reply holds, and how raw
//! sensor units become logical pixels.

use vstd::prelude::*;

verus! {

/// How one axis of the sensor is mapped: raw values from `lower_bound` to
/// `upper_bound` count, and each step of `1 << shift` raw units is one cell of
/// `cell_size` pixels.
#[derive(Copy, Clone, Debug)]
pub struct AxisCalibration {
    lower_bound: u16,
    upper_bound: u16,
    shift: u16,
    cell_size: u16,
}

/// The cell that a raw value falls into, counted from the lower bound.
pub open spec fn cell_of(lower_bound: u16, shift: u16, raw: u16) -> u16 {
    ((raw - lower_bound) as u16) >> shift
}

/// The mapping can be computed in 16 bits for every raw value that counts.
pub open spec fn axis_valid(lower_bound: u16, upper_bound: u16, shift: u16, cell_size: u16) -> bool {
    &&& lower_bound <= upper_bound
    &&& shift < 16
    &&& cell_of(lower_bound, shift, upper_bound) * cell_size <= u16::MAX
}

/// Shifting right keeps the order of two values.
proof fn lemma_shift_monotonic(a: u16, b: u16, shift: u16)
    requires
        a <= b,
        shift < 16,
    ensures
        a >> shift <= b >> shift,
{
    assert(a <= b && shift < 16 ==> a >> shift <= b >> shift) by (bit_vector);
}

impl AxisCalibration {
    #[verifier::type_invariant]
    spec fn well_formed(self) -> bool {
        axis_valid(self.lower_bound, self.upper_bound, self.shift, self.cell_size)
    }

    pub closed spec fn spec_lower_bound(&self) -> u16 {
        self.lower_bound
    }

    pub closed spec fn spec_upper_bound(&self) -> u16 {
        self.upper_bound
    }

    pub closed spec fn spec_shift(&self) -> u16 {
        self.shift
    }

    pub closed spec fn spec_cell_size(&self) -> u16 {
        self.cell_size
    }

    /// The raw value lies within the bounds, both included.
    pub open spec fn in_range(&self, raw: u16) -> bool {
        self.spec_lower_bound() <= raw <= self.spec_upper_bound()
    }

    /// The logical coordinate of a raw value within the bounds.
    pub open spec fn logical(&self, raw: u16) -> int {
        cell_of(self.spec_lower_bound(), self.spec_shift(), raw) * self.spec_cell_size()
    }

    /// What `convert` gives for a raw value.
    pub open spec fn spec_convert(&self, raw: u16) -> Option<u16> {
        if self.in_range(raw) {
            Some(self.logical(raw) as u16)
        } else {
            None
        }
    }

    /// A mapping with these four values, if it can be computed in 16 bits for
    /// every raw value within the bounds.
    pub fn new(lower_bound: u16, upper_bound: u16, shift: u16, cell_size: u16) -> (axis: Option<
        AxisCalibration,
    >)
        ensures
            axis is Some <==> axis_valid(lower_bound, upper_bound, shift, cell_size),
            axis matches Some(a) ==> a.spec_lower_bound() == lower_bound && a.spec_upper_bound()
                == upper_bound && a.spec_shift() == shift && a.spec_cell_size() == cell_size,
    {
        if lower_bound > upper_bound || shift >= 16 {
            return None;
        }
        let cells: u16 = (upper_bound - lower_bound) >> shift;
        assert(cells * cell_size <= 0xffff * 0xffff) by (nonlinear_arith)
            requires
                cells <= 0xffff,
                cell_size <= 0xffff,
        ;
        let widest: u32 = (cells as u32) * (cell_size as u32);
        if widest > 0xffff {
            return None;
        }
        Some(AxisCalibration { lower_bound, upper_bound, shift, cell_size })
    }

    #[verifier::when_used_as_spec(spec_lower_bound)]
    pub fn lower_bound(&self) -> (bound: u16)
        ensures
            bound == self.spec_lower_bound(),
    {
        self.lower_bound
    }

    #[verifier::when_used_as_spec(spec_upper_bound)]
    pub fn upper_bound(&self) -> (bound: u16)
        ensures
            bound == self.spec_upper_bound(),
    {
        self.upper_bound
    }

    #[verifier::when_used_as_spec(spec_shift)]
    pub fn shift(&self) -> (shift: u16)
        ensures
            shift == self.spec_shift(),
    {
        self.shift
    }

    #[verifier::when_used_as_spec(spec_cell_size)]
    pub fn cell_size(&self) -> (size: u16)
        ensures
            size == self.spec_cell_size(),
    {
        self.cell_size
    }

    /// The logical coordinate of a raw value, or nothing for a value outside
    /// the bounds, which is noise at the edge of a contact.
    #[verifier::when_used_as_spec(spec_convert)]
    pub fn convert(&self, raw: u16) -> (logical: Option<u16>)
        ensures
            logical == self.spec_convert(raw),
            logical is Some <==> self.in_range(raw),
    {
        proof {
            use_type_invariant(self);
        }
        if raw < self.lower_bound || raw > self.upper_bound {
            return None;
        }
        let cells: u16 = (raw - self.lower_bound) >> self.shift;
        proof {
            lemma_shift_monotonic(
                (raw - self.lower_bound) as u16,
                (self.upper_bound - self.lower_bound) as u16,
                self.shift,
            );
            assert(cells * self.cell_size <= cell_of(
                self.lower_bound,
                self.shift,
                self.upper_bound,
            ) * self.cell_size) by (nonlinear_arith)
                requires
                    cells <= cell_of(self.lower_bound, self.shift, self.upper_bound),
            ;
        }
        Some(cells * self.cell_size)
    }
}

/// The mapping of both axes of the sensor.
#[derive(Copy, Clone, Debug)]
pub struct CalibrationMapping {
    pub x: AxisCalibration,
    pub y: AxisCalibration,
}

impl CalibrationMapping {
    /// What `convert` gives for a raw sample.
    pub open spec fn spec_convert(&self, raw: (u16, u16)) -> Option<(u16, u16)> {
        if self.x.in_range(raw.0) && self.y.in_range(raw.1) {
            Some((self.x.logical(raw.0) as u16, self.y.logical(raw.1) as u16))
        } else {
            None
        }
    }

    /// The logical position of a raw sample, or nothing if either coordinate
    /// lies outside its bounds.
    #[verifier::when_used_as_spec(spec_convert)]
    pub fn convert(&self, raw: (u16, u16)) -> (logical: Option<(u16, u16)>)
        ensures
            logical == self.spec_convert(raw),
            logical is Some <==> self.x.in_range(raw.0) && self.y.in_range(raw.1),
    {
        match self.x.convert(raw.0) {
            None => None,
            Some(x) => match self.y.convert(raw.1) {
                None => None,
                Some(y) => Some((x, y)),
            },
        }
    }
}

/// What the reference mapping gives for a raw sample: raw x counts from 250 to
/// 4000 and raw y from 230 to 3900; 512 raw units are one cell, which is 68
/// pixels wide and 46 pixels high.
pub open spec fn spec_reference_convert(raw: (u16, u16)) -> Option<(u16, u16)> {
    if 250 <= raw.0 <= 4000 && 230 <= raw.1 <= 3900 {
        Some(((((raw.0 - 250) as u16 >> 9u16) * 68) as u16, (((raw.1 - 230) as u16 >> 9u16) * 46) as u16))
    } else {
        None
    }
}

/// The mapping of the reference display.
pub fn reference_calibration() -> (mapping: CalibrationMapping)
    ensures
        forall|raw: (u16, u16)| #[trigger] mapping.spec_convert(raw) == spec_reference_convert(raw),
{
    assert(((4000u16 - 250u16) as u16 >> 9u16) == 7) by (bit_vector);
    assert(((3900u16 - 230u16) as u16 >> 9u16) == 7) by (bit_vector);
    CalibrationMapping {
        x: AxisCalibration { lower_bound: 250, upper_bound: 4000, shift: 9, cell_size: 68 },
        y: AxisCalibration { lower_bound: 230, upper_bound: 3900, shift: 9, cell_size: 46 },
    }
}

/// The logical position of a raw sample under the reference mapping.
#[verifier::when_used_as_spec(spec_reference_convert)]
pub fn convert(raw: (u16, u16)) -> (logical: Option<(u16, u16)>)
    ensures
        logical == spec_reference_convert(raw),
        logical is Some <==> 250 <= raw.0 <= 4000 && 230 <= raw.1 <= 3900,
{
    reference_calibration().convert(raw)
}

/// The five bytes sent to the controller to have both axes measured.
pub fn request() -> (frame: [u8; 5])
    ensures
        frame@ == seq![0x12u8, 0u8, 0x1Au8, 0u8, 0u8],
{
    [0x12, 0, 0x1A, 0, 0]
}

/// The raw sample in the controller's reply: two numbers of 16 bits, the high
/// byte first, from the second and the fourth byte on.
pub open spec fn spec_decode(reply: [u8; 5]) -> (u16, u16) {
    ((reply[1] * 256 + reply[2]) as u16, (reply[3] * 256 + reply[4]) as u16)
}

/// Reads the raw sample out of the controller's reply.
#[verifier::when_used_as_spec(spec_decode)]
pub fn decode(reply: [u8; 5]) -> (raw: (u16, u16))
    ensures
        raw == spec_decode(reply),
{
    let x = be16(reply[1], reply[2]);
    let y = be16(reply[3], reply[4]);
    (x, y)
}

/// The number that two bytes spell, the high byte first.
fn be16(high: u8, low: u8) -> (value: u16)
    ensures
        value == high * 256 + low,
{
    let value: u16 = ((high as u16) << 8) | (low as u16);
    assert(((high as u16) << 8u16) | (low as u16) == (high as u16) * 256 + (low as u16))
        by (bit_vector);
    value
}

} // verus!
