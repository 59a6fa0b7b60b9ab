//! Arena bounds and coordinate validity.

use vstd::prelude::*;

verus! {

/// One discrete grid coordinate. Equality is value equality; a `Cell` is
/// never mutated in place, a new value replaces an old one.
#[derive(Clone, Copy, Debug, PartialEq, Eq, Structural)]
pub struct Cell {
    pub x: i32,
    pub y: i32,
}

/// Fixed arena bounds. A well-formed grid has positive width and height,
/// small enough that every scan index `x + width * y` fits in an `i32`.
#[derive(Clone, Copy, Debug, PartialEq, Eq, Structural)]
pub struct Grid {
    pub width: i32,
    pub height: i32,
}

impl Grid {
    /// Positive bounds whose cell count fits in an `i32` (a machine limit:
    /// food placement scans cells by index).
    pub open spec fn wf(self) -> bool {
        &&& 0 < self.width
        &&& 0 < self.height
        &&& self.width * self.height <= i32::MAX
    }

    pub open spec fn spec_contains(self, c: Cell) -> bool {
        &&& 0 <= c.x < self.width
        &&& 0 <= c.y < self.height
    }

    /// Builds a grid from its bounds. Zero or negative bounds are a
    /// caller error, rejected by precondition.
    pub fn new(width: i32, height: i32) -> (g: Grid)
        requires
            0 < width,
            0 < height,
            width * height <= i32::MAX,
        ensures
            g.width == width,
            g.height == height,
            g.wf(),
    {
        Grid { width, height }
    }

    /// True iff the cell lies inside the arena.
    pub fn contains(&self, c: Cell) -> (r: bool)
        ensures
            r == self.spec_contains(c),
    {
        0 <= c.x && c.x < self.width && 0 <= c.y && c.y < self.height
    }
}

} // verus!
