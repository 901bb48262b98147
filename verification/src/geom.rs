//! Unsigned integer geometry and colours for drawing.

use vstd::prelude::*;

verus! {

/// A vector of two unsigned 32-bit coordinates.
#[derive(Debug, Clone, Copy, PartialEq, Eq)]
pub struct Vec2u32 {
    pub x: u32,
    pub y: u32,
}

impl Vec2u32 {
    /// The vector `(x, y)`.
    pub fn new(x: u32, y: u32) -> (r: Self)
        ensures
            r == (Vec2u32 { x, y }),
    {
        Self { x, y }
    }

    /// The sum, coordinate by coordinate.
    pub fn add(self, rhs: Self) -> (r: Self)
        requires
            self.x + rhs.x <= u32::MAX,
            self.y + rhs.y <= u32::MAX,
        ensures
            r.x == self.x + rhs.x,
            r.y == self.y + rhs.y,
    {
        Self { x: self.x + rhs.x, y: self.y + rhs.y }
    }

    /// The difference, coordinate by coordinate.
    pub fn sub(self, rhs: Self) -> (r: Self)
        requires
            self.x >= rhs.x,
            self.y >= rhs.y,
        ensures
            r.x == self.x - rhs.x,
            r.y == self.y - rhs.y,
    {
        Self { x: self.x - rhs.x, y: self.y - rhs.y }
    }

    /// Both coordinates multiplied by `rhs`.
    pub fn mul(self, rhs: u32) -> (r: Self)
        requires
            self.x * rhs <= u32::MAX,
            self.y * rhs <= u32::MAX,
        ensures
            r.x == self.x * rhs,
            r.y == self.y * rhs,
    {
        Self { x: self.x * rhs, y: self.y * rhs }
    }

    /// Both coordinates divided by `rhs`, rounding down.
    pub fn div(self, rhs: u32) -> (r: Self)
        requires
            rhs != 0,
        ensures
            r.x == self.x / rhs,
            r.y == self.y / rhs,
    {
        Self { x: self.x / rhs, y: self.y / rhs }
    }
}

/// A colour of four 8-bit channels.
#[derive(Debug, Clone, Copy, PartialEq, Eq)]
pub struct RGBAu8 {
    pub red: u8,
    pub green: u8,
    pub blue: u8,
    pub alpha: u8,
}

impl RGBAu8 {
    /// The colour with these channels.
    pub fn new(red: u8, green: u8, blue: u8, alpha: u8) -> (r: Self)
        ensures
            r == (RGBAu8 { red, green, blue, alpha }),
    {
        Self { red, green, blue, alpha }
    }
}

} // verus!
