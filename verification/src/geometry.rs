//! Points, sizes and rectangles of the pixel grid.

use vstd::prelude::*;

verus! {

/// One past the largest coordinate that a [`Point`] can hold.
pub const COORDINATE_END: i64 = 0x8000_0000;

/// A position on a pixel grid: `x` grows to the right and `y` downwards.
#[derive(Clone, Copy, Debug, PartialEq, Eq, Structural)]
pub struct Point {
    pub x: i32,
    pub y: i32,
}

/// The extent of a pixel grid.
#[derive(Clone, Copy, Debug, PartialEq, Eq, Structural)]
pub struct Size {
    pub width: u32,
    pub height: u32,
}

/// An axis-aligned rectangle: the positions `(x, y)` with
/// `top_left.x <= x < top_left.x + size.width` and
/// `top_left.y <= y < top_left.y + size.height`.
#[derive(Clone, Copy, Debug, PartialEq, Eq, Structural)]
pub struct Rectangle {
    pub top_left: Point,
    pub size: Size,
}

impl Point {
    /// The point `(0, 0)`.
    pub open spec fn origin() -> Point {
        Point { x: 0, y: 0 }
    }
}

impl Size {
    /// Whether the grid has no position at all.
    pub open spec fn spec_is_empty(self) -> bool {
        self.width == 0 || self.height == 0
    }

    /// The number of positions of the grid.
    pub open spec fn area(self) -> nat {
        (self.width * self.height) as nat
    }

    /// Tells whether the grid has no position at all.
    #[verifier::when_used_as_spec(spec_is_empty)]
    pub fn is_empty(self) -> (b: bool)
        ensures
            b == self.spec_is_empty(),
    {
        self.width == 0 || self.height == 0
    }
}

impl Rectangle {
    /// The rectangle of the given size whose top-left corner is the origin.
    pub open spec fn spec_at_origin(size: Size) -> Rectangle {
        Rectangle { top_left: Point::origin(), size }
    }

    /// Whether `p` is one of the rectangle's positions.
    pub open spec fn spec_contains(self, p: Point) -> bool {
        &&& self.top_left.x <= p.x < self.top_left.x + self.size.width
        &&& self.top_left.y <= p.y < self.top_left.y + self.size.height
    }

    /// Whether the rectangle lies inside the grid of the given size, whose
    /// positions are `(x, y)` with `0 <= x < width` and `0 <= y < height`.
    pub open spec fn spec_is_within(self, size: Size) -> bool {
        &&& 0 <= self.top_left.x
        &&& 0 <= self.top_left.y
        &&& self.top_left.x + self.size.width <= size.width
        &&& self.top_left.y + self.size.height <= size.height
    }

    /// The rectangle of the given size whose top-left corner is the origin.
    #[verifier::when_used_as_spec(spec_at_origin)]
    pub fn at_origin(size: Size) -> (r: Rectangle)
        ensures
            r == Rectangle::spec_at_origin(size),
    {
        Rectangle { top_left: Point { x: 0, y: 0 }, size }
    }

    /// Tells whether `p` is one of the rectangle's positions.
    #[verifier::when_used_as_spec(spec_contains)]
    pub fn contains(self, p: Point) -> (b: bool)
        ensures
            b == self.spec_contains(p),
    {
        let left: i64 = self.top_left.x as i64;
        let top: i64 = self.top_left.y as i64;
        let x: i64 = p.x as i64;
        let y: i64 = p.y as i64;
        left <= x && x < left + self.size.width as i64 && top <= y && y < top
            + self.size.height as i64
    }

    /// Tells whether the rectangle lies inside the grid of the given size.
    #[verifier::when_used_as_spec(spec_is_within)]
    pub fn is_within(self, size: Size) -> (b: bool)
        ensures
            b == self.spec_is_within(size),
    {
        let left: i64 = self.top_left.x as i64;
        let top: i64 = self.top_left.y as i64;
        0 <= left && 0 <= top && left + self.size.width as i64 <= size.width as i64 && top
            + self.size.height as i64 <= size.height as i64
    }
}

} // verus!
