use vstd::prelude::*;

verus! {

/// An on-screen rectangle: its top-left corner and its extent, in screen
/// coordinates. Degenerate values (zero or negative extent) are allowed.
#[derive(Clone, Copy, Debug)]
pub struct Position {
    pub x: i32,
    pub y: i32,
    pub width: i32,
    pub height: i32,
}

impl Position {
    /// The bottom-right corner fits in `i32`.
    pub open spec fn end_fits(&self) -> bool {
        i32::MIN <= self.x + self.width <= i32::MAX && i32::MIN <= self.y + self.height <= i32::MAX
    }

    pub open spec fn end_point_spec(&self) -> (int, int) {
        (self.x + self.width, self.y + self.height)
    }

    pub open spec fn imaginary(&self) -> bool {
        self.width <= 0 || self.height <= 0
    }

    /// The containment test as it is defined: the second end point is taken
    /// from `self` as well, not from `other`.
    pub open spec fn can_hold_spec(&self, other: &Position) -> bool {
        let self_end = self.end_point_spec();
        let other_end = self.end_point_spec();
        self.x <= other.x || self.y <= other.y || self_end.0 >= other_end.0 || self_end.1
            >= other_end.1
    }

    pub fn new(x: i32, y: i32, width: i32, height: i32) -> (r: Position)
        ensures
            r == (Position { x, y, width, height }),
    {
        Position { x, y, width, height }
    }

    /// The rectangle whose edges are at `left`, `top`, `right` and `bottom`.
    pub fn from_bounds(left: i32, top: i32, right: i32, bottom: i32) -> (r: Position)
        requires
            i32::MIN <= right - left <= i32::MAX,
            i32::MIN <= bottom - top <= i32::MAX,
        ensures
            r.x == left,
            r.y == top,
            r.width == right - left,
            r.height == bottom - top,
    {
        Position { x: left, y: top, width: right - left, height: bottom - top }
    }

    pub fn end_point(&self) -> (r: (i32, i32))
        requires
            self.end_fits(),
        ensures
            r.0 == self.end_point_spec().0,
            r.1 == self.end_point_spec().1,
    {
        (self.x + self.width, self.y + self.height)
    }

    pub fn has_imaginary_size(&self) -> (r: bool)
        ensures
            r == self.imaginary(),
    {
        self.width <= 0 || self.height <= 0
    }

    pub fn can_hold(&self, other: &Self) -> (r: bool)
        requires
            self.end_fits(),
        ensures
            r == self.can_hold_spec(other),
    {
        let self_end = self.end_point();
        let other_end = self.end_point();
        self.x <= other.x || self.y <= other.y || self_end.0 >= other_end.0 || self_end.1
            >= other_end.1
    }
}

} // verus!
