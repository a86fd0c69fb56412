//! Integer points and rectangles in window space.
use vstd::prelude::*;

verus! {

/// The value of `v`, held to the range of `i32`.
pub open spec fn clamp_i32(v: int) -> int {
    if v < i32::MIN {
        i32::MIN as int
    } else if v > i32::MAX {
        i32::MAX as int
    } else {
        v
    }
}

/// Narrows `v` to an `i32`, saturating at either end of the range.
pub fn saturate(v: i64) -> (r: i32)
    ensures
        r == clamp_i32(v as int),
{
    if v < i32::MIN as i64 {
        i32::MIN
    } else if v > i32::MAX as i64 {
        i32::MAX
    } else {
        v as i32
    }
}

/// A point (or a size) in window coordinates.
#[derive(Clone, Copy, Debug, PartialEq, Eq, Structural)]
pub struct Vector {
    pub x: i32,
    pub y: i32,
}

impl Vector {
    pub fn new(x: i32, y: i32) -> (r: Vector)
        ensures
            r == (Vector { x, y }),
    {
        Vector { x, y }
    }

    /// The sum of two vectors, each coordinate saturating.
    pub open spec fn spec_add(self, o: Vector) -> Vector {
        Vector {
            x: clamp_i32(self.x + o.x) as i32,
            y: clamp_i32(self.y + o.y) as i32,
        }
    }

    pub fn add(self, o: Vector) -> (r: Vector)
        ensures
            r == self.spec_add(o),
    {
        Vector { x: saturate(self.x as i64 + o.x as i64), y: saturate(self.y as i64 + o.y as i64) }
    }
}

/// An axis-aligned rectangle: its top-left corner and its size.
#[derive(Clone, Copy, Debug, PartialEq, Eq, Structural)]
pub struct Rectangle {
    pub pos: Vector,
    pub size: Vector,
}

impl Rectangle {
    pub fn new(pos: Vector, size: Vector) -> (r: Rectangle)
        ensures
            r == (Rectangle { pos, size }),
    {
        Rectangle { pos, size }
    }

    /// Containment with the far edges left out: `pos <= p < pos + size`.
    pub open spec fn spec_contains(self, p: Vector) -> bool {
        &&& self.pos.x <= p.x
        &&& self.pos.y <= p.y
        &&& p.x < self.pos.x + self.size.x
        &&& p.y < self.pos.y + self.size.y
    }

    /// Containment with every edge counted in: `pos <= p <= pos + size`.
    pub open spec fn spec_covers(self, p: Vector) -> bool {
        &&& self.pos.x <= p.x
        &&& self.pos.y <= p.y
        &&& p.x <= self.pos.x + self.size.x
        &&& p.y <= self.pos.y + self.size.y
    }

    pub fn contains(&self, p: Vector) -> (r: bool)
        ensures
            r == self.spec_contains(p),
    {
        self.pos.x <= p.x && self.pos.y <= p.y && (p.x as i64) < self.pos.x as i64
            + self.size.x as i64 && (p.y as i64) < self.pos.y as i64 + self.size.y as i64
    }

    pub fn covers(&self, p: Vector) -> (r: bool)
        ensures
            r == self.spec_covers(p),
    {
        self.pos.x <= p.x && self.pos.y <= p.y && (p.x as i64) <= self.pos.x as i64
            + self.size.x as i64 && (p.y as i64) <= self.pos.y as i64 + self.size.y as i64
    }
}

} // verus!
