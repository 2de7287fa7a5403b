//! Areas of rectangles, and points whose coordinates may differ in type.

use vstd::prelude::*;

verus! {

/// The area of a rectangle from its two sides.
pub fn area(width: i32, height: i32) -> (area: i32)
    requires
        i32::MIN <= width * height <= i32::MAX,
    ensures
        area == width * height,
{
    width * height
}

/// The area of a rectangle from its two sides given as a pair.
pub fn area_tuple(dimensions: (i32, i32)) -> (area: i32)
    requires
        i32::MIN <= dimensions.0 * dimensions.1 <= i32::MAX,
    ensures
        area == dimensions.0 * dimensions.1,
{
    dimensions.0 * dimensions.1
}

/// A point; its two coordinates need not be of one type.
pub struct Point<X1, Y1> {
    pub x: X1,
    pub y: Y1,
}

impl<X1, Y1> Point<X1, Y1> {
    /// The point that has its `x` from `self` and its `y` from `other`.
    pub fn mixup<X2, Y2>(self, other: Point<X2, Y2>) -> (mixed: Point<X1, Y2>)
        ensures
            mixed.x == self.x,
            mixed.y == other.y,
    {
        Point { x: self.x, y: other.y }
    }
}

} // verus!
