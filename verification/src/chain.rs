//! The segment chain: the snake's body as an ordered sequence of cells,
//! head first. A segment's identity is its stable index in the chain; its
//! position changes every tick while the index does not.

use vstd::prelude::*;
use crate::grid::Cell;
use crate::heading::{Heading, opposite_of, shifted, shift_cell};

verus! {

/// The two cells a fresh chain is made of: the head, and one body segment
/// one cell behind it, opposite the initial heading.
pub open spec fn initial_cells(head: Cell, dir: Heading) -> Seq<Cell> {
    seq![head, shifted(head, opposite_of(dir))]
}

/// The cells of a chain after a lock-step shift to `new_head`, and after a
/// growth step if `grew` holds: every segment takes the position of the
/// segment ahead of it, the head takes `new_head`, and growth appends a
/// segment at the pre-shift tail position.
pub open spec fn cells_after_move(pre: Seq<Cell>, new_head: Cell, grew: bool) -> Seq<Cell> {
    if grew {
        seq![new_head] + pre
    } else {
        seq![new_head] + pre.drop_last()
    }
}

/// Ordered sequence of body cells, index 0 = head, last index = tail.
/// After initialization the chain always has at least two segments.
pub struct Chain {
    cells: Vec<Cell>,
}

impl Chain {
    /// The chain as the sequence of its segment positions, head first.
    pub closed spec fn view(&self) -> Seq<Cell> {
        self.cells@
    }

    /// A chain is well formed once it holds the head and at least one body
    /// segment.
    pub open spec fn wf(&self) -> bool {
        self@.len() >= 2
    }

    /// Builds the initial chain: a head at `head` and exactly one body
    /// segment one cell behind it along the opposite of `dir`.
    pub fn initialize(head: Cell, dir: Heading) -> (c: Chain)
        requires
            i32::MIN < head.x < i32::MAX,
            i32::MIN < head.y < i32::MAX,
        ensures
            c@ == initial_cells(head, dir),
            c.wf(),
    {
        let mut cells: Vec<Cell> = Vec::new();
        cells.push(head);
        cells.push(shift_cell(head, dir.opposite()));
        proof {
            assert(cells@ =~= initial_cells(head, dir));
        }
        Chain { cells }
    }

    pub fn len(&self) -> (n: usize)
        ensures
            n == self@.len(),
    {
        self.cells.len()
    }

    /// The current head position.
    pub fn head(&self) -> (c: Cell)
        requires
            self@.len() >= 1,
        ensures
            c == self@[0],
    {
        self.cells[0]
    }

    /// The position of the segment with index `i` (index 0 = head). The
    /// index is a segment's stable identity across ticks, so a rendering
    /// collaborator may key per-segment presentation (sprite, palette
    /// entry) off it.
    pub fn segment_at(&self, i: usize) -> (c: Cell)
        requires
            i < self@.len(),
        ensures
            c == self@[i as int],
    {
        self.cells[i]
    }

    /// Lock-step shift: every segment moves to the position of the segment
    /// ahead of it and the head is placed at `new_head`. Returns the tail's
    /// position before the shift, which growth needs.
    pub fn advance(&mut self, new_head: Cell) -> (old_tail: Cell)
        requires
            old(self).wf(),
        ensures
            final(self)@ == cells_after_move(old(self)@, new_head, false),
            old_tail == old(self)@.last(),
            final(self).wf(),
            final(self)@.len() == old(self)@.len(),
    {
        let n = self.cells.len();
        let old_tail = self.cells[n - 1];
        let mut moved: Vec<Cell> = Vec::new();
        moved.push(new_head);
        let mut i: usize = 0;
        while i < n - 1
            invariant
                n == self.cells.len(),
                n >= 2,
                i <= n - 1,
                moved@ == seq![new_head] + self.cells@.subrange(0, i as int),
            decreases n - 1 - i,
        {
            let c = self.cells[i];
            moved.push(c);
            proof {
                assert(moved@ =~= seq![new_head] + self.cells@.subrange(0, i + 1));
            }
            i += 1;
        }
        proof {
            assert(self.cells@.subrange(0, n - 1 as int) =~= self.cells@.drop_last());
        }
        self.cells = moved;
        old_tail
    }

    /// Grows the chain by one segment placed at `cell` (the captured
    /// pre-shift tail position), at the tail end. The new segment's stable
    /// index is the chain length before the append.
    pub fn append_at(&mut self, cell: Cell)
        ensures
            final(self)@ == old(self)@.push(cell),
    {
        self.cells.push(cell);
    }

    /// The current positions of every segment, head first.
    pub fn occupied_cells(&self) -> (v: Vec<Cell>)
        ensures
            v@ == self@,
    {
        let n = self.cells.len();
        let mut v: Vec<Cell> = Vec::new();
        let mut i: usize = 0;
        while i < n
            invariant
                n == self.cells.len(),
                i <= n,
                v@ == self.cells@.subrange(0, i as int),
            decreases n - i,
        {
            let c = self.cells[i];
            v.push(c);
            proof {
                assert(v@ =~= self.cells@.subrange(0, i + 1));
            }
            i += 1;
        }
        proof {
            assert(v@ =~= self.cells@);
        }
        v
    }

    /// Self-collision check: whether `cell` is among the segments,
    /// excluding the head when `except_head` is set.
    pub fn contains_cell(&self, except_head: bool, cell: Cell) -> (r: bool)
        requires
            self@.len() >= 1,
        ensures
            r == if except_head {
                self@.skip(1).contains(cell)
            } else {
                self@.contains(cell)
            },
    {
        let n = self.cells.len();
        let start: usize = if except_head { 1 } else { 0 };
        let mut i: usize = start;
        while i < n
            invariant
                n == self.cells.len(),
                n >= 1,
                except_head ==> start == 1,
                !except_head ==> start == 0,
                start <= i <= n,
                forall|j: int| start <= j < i ==> self.cells@[j] != cell,
            decreases n - i,
        {
            if self.cells[i] == cell {
                proof {
                    if except_head {
                        assert(self@.skip(1).len() == self@.len() - 1);
                        assert(self@.skip(1)[i - 1] == self@[i as int]);
                        assert(self@.skip(1).contains(cell));
                    } else {
                        assert(self@.contains(cell));
                    }
                }
                return true;
            }
            i += 1;
        }
        proof {
            if except_head {
                assert(self@.skip(1).len() == self@.len() - 1);
                assert forall|k: int| 0 <= k < self@.skip(1).len() implies self@.skip(1)[k]
                    != cell by {
                    assert(self@.skip(1)[k] == self@[k + 1]);
                }
                assert(!self@.skip(1).contains(cell));
            } else {
                assert(!self@.contains(cell));
            }
        }
        false
    }
}

/// Movement invariant: a tick that raises no growth keeps the chain length,
/// and one that grew the chain lengthens it by exactly one.
pub proof fn lemma_movement_length(pre: Seq<Cell>, new_head: Cell, grew: bool)
    requires
        pre.len() >= 2,
    ensures
        cells_after_move(pre, new_head, grew).len() == pre.len() + if grew { 1int } else { 0int },
{
}

/// Initialization shape: a fresh chain has length exactly two, and its body
/// segment is adjacent to the head, one cell along the opposite of the
/// initial heading.
pub proof fn lemma_initialize_shape(head: Cell, dir: Heading)
    ensures
        initial_cells(head, dir).len() == 2,
        initial_cells(head, dir)[0] == head,
        initial_cells(head, dir)[1] == shifted(head, opposite_of(dir)),
{
}

} // verus!
