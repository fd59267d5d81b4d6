use vstd::prelude::*;

verus! {

/// Width and height of the square playing field.
pub const BOARD_SIZE: i32 = 8;

/// A 2D point or displacement with componentwise arithmetic.
#[derive(Clone, Copy, PartialEq, Eq, Structural, Debug)]
pub struct Vec2<T> {
    pub x: T,
    pub y: T,
}

/// An absolute board position (or, when used as an offset, a displacement).
pub type Coordinates = Vec2<i32>;

/// Membership in the fixed board extent on both axes.
pub open spec fn spec_in_bounds(c: Coordinates) -> bool {
    0 <= c.x < BOARD_SIZE && 0 <= c.y < BOARD_SIZE
}

impl Vec2<i32> {
    /// Componentwise vector addition.
    pub fn add(&self, other: &Vec2<i32>) -> (r: Vec2<i32>)
        requires
            i32::MIN <= self.x + other.x <= i32::MAX,
            i32::MIN <= self.y + other.y <= i32::MAX,
        ensures
            r.x == self.x + other.x,
            r.y == self.y + other.y,
    {
        Vec2 { x: self.x + other.x, y: self.y + other.y }
    }

    /// Componentwise vector subtraction.
    pub fn sub(&self, other: &Vec2<i32>) -> (r: Vec2<i32>)
        requires
            i32::MIN <= self.x - other.x <= i32::MAX,
            i32::MIN <= self.y - other.y <= i32::MAX,
        ensures
            r.x == self.x - other.x,
            r.y == self.y - other.y,
    {
        Vec2 { x: self.x - other.x, y: self.y - other.y }
    }

    /// True exactly when the point lies inside the board extent.
    pub fn in_bounds(&self) -> (r: bool)
        ensures
            r == spec_in_bounds(*self),
    {
        0 <= self.x && self.x < BOARD_SIZE && 0 <= self.y && self.y < BOARD_SIZE
    }
}

} // verus!
