//! The board as it lies on the screen: which row and column a point is on.

use crate::model::Region;
use vstd::prelude::*;

verus! {

/// What a point of the screen hits.
#[derive(Copy, Clone, Debug, PartialEq, Eq, Hash, Structural)]
pub enum HitTestResult {
    HitColumn(usize),
}

/// A point left of the screen, which no column holds.
#[derive(Copy, Clone, Debug, PartialEq, Eq, Structural)]
pub struct InvalidCoordinate;

/// The grid of the board: columns of one width, and the line between the
/// top row and the bottom row.
#[derive(Copy, Clone, Debug)]
pub struct Breadboard {
    column_width: u32,
    midline: i32,
}

/// The row of a height: the bottom row below the midline, else the top row.
pub open spec fn region_at(midline: i32, y: i32) -> Region {
    if y > midline {
        Region::Bottom
    } else {
        Region::Top
    }
}

impl Breadboard {
    #[verifier::type_invariant]
    spec fn well_formed(self) -> bool {
        self.column_width > 0
    }

    pub closed spec fn spec_column_width(&self) -> u32 {
        self.column_width
    }

    pub closed spec fn spec_midline(&self) -> i32 {
        self.midline
    }

    /// What `hit_test` gives for a point.
    pub open spec fn spec_hit_test(&self, x: i32, y: i32) -> Result<
        (Region, HitTestResult),
        InvalidCoordinate,
    > {
        if x < 0 {
            Err(InvalidCoordinate)
        } else {
            Ok(
                (
                    region_at(self.spec_midline(), y),
                    HitTestResult::HitColumn((x as int / self.spec_column_width() as int) as usize),
                ),
            )
        }
    }

    /// A grid with columns of the given width, which must not be 0.
    pub fn new(column_width: u32, midline: i32) -> (board: Option<Breadboard>)
        ensures
            board is Some <==> column_width > 0,
            board matches Some(b) ==> b.spec_column_width() == column_width && b.spec_midline()
                == midline,
    {
        if column_width == 0 {
            None
        } else {
            Some(Breadboard { column_width, midline })
        }
    }

    #[verifier::when_used_as_spec(spec_column_width)]
    pub fn column_width(&self) -> (width: u32)
        ensures
            width == self.spec_column_width(),
            width > 0,
    {
        proof {
            use_type_invariant(self);
        }
        self.column_width
    }

    #[verifier::when_used_as_spec(spec_midline)]
    pub fn midline(&self) -> (midline: i32)
        ensures
            midline == self.spec_midline(),
    {
        self.midline
    }

    /// The row and the column that a point is on: the bottom row if the point
    /// lies below the midline, and the column that `x` falls into. A point
    /// with a negative `x` hits nothing.
    #[verifier::when_used_as_spec(spec_hit_test)]
    pub fn hit_test(&self, x: i32, y: i32) -> (hit: Result<(Region, HitTestResult), InvalidCoordinate>)
        ensures
            hit == self.spec_hit_test(x, y),
            hit is Err <==> x < 0,
            hit matches Ok((_, HitTestResult::HitColumn(column))) ==> column <= x,
    {
        proof {
            use_type_invariant(self);
        }
        if x < 0 {
            return Err(InvalidCoordinate);
        }
        let region = if y > self.midline {
            Region::Bottom
        } else {
            Region::Top
        };
        let column = (x as u32) / self.column_width;
        Ok((region, HitTestResult::HitColumn(column as usize)))
    }
}

} // verus!
