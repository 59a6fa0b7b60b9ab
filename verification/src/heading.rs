//! The direction the snake's head moves on the next tick.

use vstd::prelude::*;
use crate::grid::Cell;

verus! {

/// Total, closed enumeration of the four movement directions.
#[derive(Clone, Copy, Debug, PartialEq, Eq, Structural)]
pub enum Heading {
    Up,
    Right,
    Down,
    Left,
}

pub open spec fn opposite_of(h: Heading) -> Heading {
    match h {
        Heading::Up => Heading::Down,
        Heading::Right => Heading::Left,
        Heading::Down => Heading::Up,
        Heading::Left => Heading::Right,
    }
}

/// The cell one unit from `c` in direction `h`. The coordinate arithmetic
/// is exact whenever `c` is not at the extreme of the `i32` range.
pub open spec fn shifted(c: Cell, h: Heading) -> Cell {
    match h {
        Heading::Up => (Cell { x: c.x, y: (c.y + 1) as i32 }),
        Heading::Right => (Cell { x: (c.x + 1) as i32, y: c.y }),
        Heading::Down => (Cell { x: c.x, y: (c.y - 1) as i32 }),
        Heading::Left => (Cell { x: (c.x - 1) as i32, y: c.y }),
    }
}

/// The heading adopted for a tick: the latched input wins unless it would
/// reverse the current heading into the snake's own neck, in which case the
/// current heading is kept. No input keeps the current heading.
pub open spec fn adopt(cur: Heading, input: Option<Heading>) -> Heading {
    match input {
        Some(h) => if h == opposite_of(cur) {
            cur
        } else {
            h
        },
        None => cur,
    }
}

impl Heading {
    pub fn opposite(self) -> (r: Heading)
        ensures
            r == opposite_of(self),
    {
        match self {
            Heading::Up => Heading::Down,
            Heading::Right => Heading::Left,
            Heading::Down => Heading::Up,
            Heading::Left => Heading::Right,
        }
    }
}

/// Moves a cell one unit in direction `h`. The precondition keeps the
/// coordinates away from the `i32` extremes so the move cannot overflow.
pub fn shift_cell(c: Cell, h: Heading) -> (r: Cell)
    requires
        i32::MIN < c.x < i32::MAX,
        i32::MIN < c.y < i32::MAX,
    ensures
        r == shifted(c, h),
{
    match h {
        Heading::Up => Cell { x: c.x, y: c.y + 1 },
        Heading::Right => Cell { x: c.x + 1, y: c.y },
        Heading::Down => Cell { x: c.x, y: c.y - 1 },
        Heading::Left => Cell { x: c.x - 1, y: c.y },
    }
}

/// Reversal rejection: an input equal to the opposite of the current
/// heading is ignored, while any other input is adopted.
pub proof fn lemma_reversal_rejection(cur: Heading, input: Heading)
    ensures
        input == opposite_of(cur) ==> adopt(cur, Some(input)) == cur,
        input != opposite_of(cur) ==> adopt(cur, Some(input)) == input,
{
}

/// `opposite` is an involution, and never fixes a heading; in particular
/// the double opposite of the current heading is always adopted.
pub proof fn lemma_opposite_involution(h: Heading)
    ensures
        opposite_of(opposite_of(h)) == h,
        opposite_of(h) != h,
        adopt(h, Some(opposite_of(opposite_of(h)))) == h,
{
}

} // verus!
