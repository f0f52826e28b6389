//! Bed sizes and their dimensions.
use vstd::prelude::*;

verus! {

/// A rectangle's width and length, in centimetres.
pub struct Dimensions {
    pub width: i32,
    pub length: i32,
}

impl Dimensions {
    /// The area, `width * length`.
    pub fn area(&self) -> (r: i32)
        requires
            i32::MIN <= self.width * self.length <= i32::MAX,
        ensures
            r == self.width * self.length,
    {
        self.width * self.length
    }
}

pub enum Bed {
    Single,
    Queen,
    Double,
    King,
    SuperKing,
}

impl Bed {
    /// Width and length of each bed size, in centimetres.
    pub open spec fn spec_size(&self) -> (int, int) {
        match self {
            Bed::Single => (90, 190),
            Bed::Queen => (120, 190),
            Bed::Double => (135, 190),
            Bed::King => (150, 200),
            Bed::SuperKing => (180, 200),
        }
    }

    /// The dimensions of this bed size.
    pub fn size(&self) -> (r: Dimensions)
        ensures
            r.width == self.spec_size().0,
            r.length == self.spec_size().1,
    {
        match self {
            Bed::Single => Dimensions { width: 90, length: 190 },
            Bed::Queen => Dimensions { width: 120, length: 190 },
            Bed::Double => Dimensions { width: 135, length: 190 },
            Bed::King => Dimensions { width: 150, length: 200 },
            Bed::SuperKing => Dimensions { width: 180, length: 200 },
        }
    }

    /// The area of this bed size, in square centimetres.
    pub fn area(&self) -> (r: i32)
        ensures
            r == self.spec_size().0 * self.spec_size().1,
    {
        self.size().area()
    }
}

} // verus!
