//! The game session: top-level state holder tying grid, chain, heading,
//! food and the tick engine together. `tick` is the single advance-and-
//! observe entry point; its outcome carries the tick's transient events, so
//! no event can leak into a later tick.

use vstd::prelude::*;
use crate::chain::{Chain, cells_after_move, initial_cells};
use crate::food::place_food_from;
use crate::grid::{Cell, Grid};
use crate::heading::{Heading, adopt, opposite_of, shifted, shift_cell};

verus! {

/// Lifecycle state of the tick engine: entered `Running` fresh on session
/// creation and on every restart; a fatal collision moves it to `GameOver`,
/// and only an explicit restart recovers.
#[derive(Clone, Copy, Debug, PartialEq, Eq, Structural)]
pub enum Mode {
    Running,
    GameOver,
}

/// Why a round ended: the head left the arena, or ran into the body.
#[derive(Clone, Copy, Debug, PartialEq, Eq, Structural)]
pub enum GameOverReason {
    HitWall,
    HitSelf,
}

/// Everything one tick produced: the segment positions after the move
/// (index = stable segment identity) and the two transient events. The
/// outcome is the tick's whole event channel: consumed by the caller within
/// the tick it came from, never re-delivered.
pub struct TickOutcome {
    pub moved_positions: Vec<Cell>,
    pub game_over: Option<GameOverReason>,
    pub grew: bool,
}

/// The canonical starting head position: three cells in from the left
/// edge, vertically at half the grid width.
pub open spec fn start_head(g: Grid) -> Cell {
    Cell { x: 3, y: (g.width / 2) as i32 }
}

/// The canonical initial chain: head at the starting position, one body
/// segment behind it, heading right.
pub open spec fn canonical_cells(g: Grid) -> Seq<Cell> {
    initial_cells(start_head(g), Heading::Right)
}

/// A grid large enough to hold the canonical starting chain.
pub open spec fn can_spawn(g: Grid) -> bool {
    &&& g.wf()
    &&& g.spec_contains(start_head(g))
    &&& g.spec_contains(shifted(start_head(g), opposite_of(Heading::Right)))
}

/// The session state every restart (and a fresh session) yields: canonical
/// chain, heading right, no food, no recorded tail, running.
pub open spec fn is_canonical(s: Session, g: Grid) -> bool {
    &&& s.grid == g
    &&& s.chain@ == canonical_cells(g)
    &&& s.heading == Heading::Right
    &&& s.food is None
    &&& s.last_tail is None
    &&& s.mode == Mode::Running
}

/// Where the head moves this tick: one cell from the current head along the
/// adopted heading.
pub open spec fn new_head_of(s: Session, input: Option<Heading>) -> Cell {
    shifted(s.chain@[0], adopt(s.heading, input))
}

/// The computed new head falls outside the arena.
pub open spec fn wall_hit(s: Session, input: Option<Heading>) -> bool {
    !s.grid.spec_contains(new_head_of(s, input))
}

/// The computed new head lands on a pre-shift body cell (the old head
/// excluded: unit movement can never reach it).
pub open spec fn self_hit(s: Session, input: Option<Heading>) -> bool {
    s.chain@.skip(1).contains(new_head_of(s, input))
}

/// A fatal collision: wall or self hit, unless invincibility masks both.
pub open spec fn collision(s: Session, input: Option<Heading>, invincible: bool) -> bool {
    !invincible && (wall_hit(s, input) || self_hit(s, input))
}

/// The active food sits exactly where the head moves this tick.
pub open spec fn eats(s: Session, input: Option<Heading>) -> bool {
    s.food == Some(new_head_of(s, input))
}

/// Owns the grid bounds, the segment chain, the current heading, the active
/// food (at most one) and the tail position captured before the last shift.
pub struct Session {
    pub grid: Grid,
    pub chain: Chain,
    pub heading: Heading,
    pub food: Option<Cell>,
    pub last_tail: Option<Cell>,
    pub mode: Mode,
}

impl Session {
    /// Well-formed session: valid grid, a chain of at least two segments,
    /// and food (when present) inside the arena and never under a segment.
    pub open spec fn wf(&self) -> bool {
        &&& self.grid.wf()
        &&& self.chain.wf()
        &&& (self.food matches Some(f) ==> self.grid.spec_contains(f) && !self.chain@.contains(f))
    }

    /// Builds a fresh session over `grid`: canonical chain, heading right,
    /// no food yet (the first placement comes from the external food-spawn
    /// timer via `place_food`). A grid too small for the starting chain is
    /// a caller error, rejected by precondition.
    pub fn new(grid: Grid) -> (s: Session)
        requires
            can_spawn(grid),
        ensures
            is_canonical(s, grid),
            s.wf(),
    {
        let head = Cell { x: 3, y: grid.width / 2 };
        let chain = Chain::initialize(head, Heading::Right);
        Session {
            grid,
            chain,
            heading: Heading::Right,
            food: None,
            last_tail: None,
            mode: Mode::Running,
        }
    }

    /// Explicit recovery: destroys all chain/food state and reconstructs
    /// the canonical starting session over the same grid. The post-state
    /// depends on the grid alone, so repeated restarts are idempotent.
    pub fn restart(&mut self)
        requires
            can_spawn(old(self).grid),
        ensures
            is_canonical(*final(self), old(self).grid),
            final(self).wf(),
    {
        let head = Cell { x: 3, y: self.grid.width / 2 };
        self.chain = Chain::initialize(head, Heading::Right);
        self.heading = Heading::Right;
        self.food = None;
        self.last_tail = None;
        self.mode = Mode::Running;
    }

    /// One simulation tick: adopt the latched input unless it reverses the
    /// current heading, shift the chain one cell along the adopted heading,
    /// detect wall then self collision (both masked by invincibility),
    /// consume food under the new head, and grow at the pre-shift tail
    /// position when food was eaten. Ticking a session that is not running
    /// is a caller error, rejected by precondition; the head coordinate
    /// bound is a machine limit on the one-cell move.
    pub fn tick(&mut self, input: Option<Heading>, invincible: bool) -> (r: TickOutcome)
        requires
            old(self).wf(),
            old(self).mode == Mode::Running,
            i32::MIN < old(self).chain@[0].x < i32::MAX,
            i32::MIN < old(self).chain@[0].y < i32::MAX,
        ensures
            final(self).wf(),
            final(self).grid == old(self).grid,
            final(self).heading == adopt(old(self).heading, input),
            r.game_over == (if collision(*old(self), input, invincible) {
                Some(
                    if wall_hit(*old(self), input) {
                        GameOverReason::HitWall
                    } else {
                        GameOverReason::HitSelf
                    },
                )
            } else {
                None::<GameOverReason>
            }),
            final(self).mode == (if collision(*old(self), input, invincible) {
                Mode::GameOver
            } else {
                Mode::Running
            }),
            r.grew == eats(*old(self), input),
            final(self).food == (if eats(*old(self), input) {
                None::<Cell>
            } else {
                old(self).food
            }),
            final(self).chain@ == cells_after_move(
                old(self).chain@,
                new_head_of(*old(self), input),
                eats(*old(self), input),
            ),
            final(self).last_tail == Some(old(self).chain@.last()),
            r.moved_positions@ == final(self).chain@,
    {
        let cur = self.heading;
        let next = match input {
            Some(h) => if h == cur.opposite() {
                cur
            } else {
                h
            },
            None => cur,
        };
        self.heading = next;
        let head = self.chain.head();
        let new_head = shift_cell(head, next);
        let wall = !self.grid.contains(new_head);
        let hit_self = self.chain.contains_cell(true, new_head);
        let old_tail = self.chain.advance(new_head);
        self.last_tail = Some(old_tail);
        let over = !invincible && (wall || hit_self);
        if over {
            self.mode = Mode::GameOver;
        }
        let grew = match self.food {
            Some(f) => f == new_head,
            None => false,
        };
        if grew {
            self.food = None;
            self.chain.append_at(old_tail);
            proof {
                assert(self.chain@ =~= seq![new_head] + old(self).chain@);
            }
        }
        proof {
            let pre = old(self).chain@;
            if !grew && old(self).food is Some {
                let f = old(self).food->Some_0;
                if self.chain@.contains(f) {
                    let k = choose|k: int| 0 <= k < self.chain@.len() && self.chain@[k] == f;
                    if k == 0 {
                        assert(f == new_head);
                    } else {
                        assert(pre.drop_last()[k - 1] == pre[k - 1]);
                        assert(pre.contains(f));
                    }
                }
            }
        }
        let moved = self.chain.occupied_cells();
        let game_over = if over {
            if wall {
                Some(GameOverReason::HitWall)
            } else {
                Some(GameOverReason::HitSelf)
            }
        } else {
            None
        };
        TickOutcome { moved_positions: moved, game_over, grew }
    }

    /// Places food for the external food-spawn timer: with no active food,
    /// scans from a random starting candidate over the cells the chain
    /// occupies and adopts the first free cell; with food already active it
    /// leaves the session unchanged, keeping at most one food. Reports the
    /// adopted cell, or nothing when no cell was free or food already sat
    /// on the board.
    pub fn place_food(&mut self) -> (r: Option<Cell>)
        requires
            old(self).wf(),
        ensures
            final(self).wf(),
            final(self).grid == old(self).grid,
            final(self).chain == old(self).chain,
            final(self).heading == old(self).heading,
            final(self).mode == old(self).mode,
            final(self).last_tail == old(self).last_tail,
            old(self).food is Some ==> r is None && final(self).food == old(self).food,
            old(self).food is None ==> {
                &&& (r is Some <==> exists|c: Cell|
                    old(self).grid.spec_contains(c) && !old(self).chain@.contains(c))
                &&& (r matches Some(c) ==> final(self).food == Some(c)
                    && old(self).grid.spec_contains(c) && !old(self).chain@.contains(c))
                &&& (r is None ==> final(self).food is None)
            },
    {
        match self.food {
            Some(_) => None,
            None => {
                let rand_x = random_below(self.grid.width);
                let rand_y = random_below(self.grid.height);
                let start = Cell { x: rand_x, y: rand_y };
                let occupied = self.chain.occupied_cells();
                let placed = place_food_from(&self.grid, &occupied, start);
                match placed {
                    Some(c) => {
                        self.food = Some(c);
                        Some(c)
                    },
                    None => {
                        proof {
                            if exists|c: Cell|
                                self.grid.spec_contains(c) && !self.chain@.contains(c) {
                                let c = choose|c: Cell|
                                    self.grid.spec_contains(c) && !self.chain@.contains(c);
                                assert(occupied@.contains(c));
                            }
                        }
                        None
                    },
                }
            },
        }
    }
}

/// Relies on rand::random_range: the result is drawn uniformly from the
/// given half-open range; the call panics only on an empty range, which the
/// precondition rules out. Nothing beyond the range is promised of a random
/// draw.
#[verifier::external_body]
fn random_below(bound: i32) -> (r: i32)
    requires
        bound > 0,
    ensures
        0 <= r < bound,
{
    rand::random_range(0..bound)
}

/// Wall collision is raised exactly at the crossing tick: for every row of
/// the arena, a head one cell inside the right edge and heading right
/// computes a new head at (width, y) and hits the wall, while a head one
/// cell earlier does not.
pub proof fn lemma_wall_exact(s: Session)
    requires
        s.wf(),
        s.heading == Heading::Right,
        0 <= s.chain@[0].y < s.grid.height,
    ensures
        s.chain@[0].x == s.grid.width - 1 ==> new_head_of(s, None) == (Cell {
            x: s.grid.width,
            y: s.chain@[0].y,
        }) && wall_hit(s, None),
        s.chain@[0].x == s.grid.width - 2 ==> !wall_hit(s, None),
{
}

/// Self collision: a computed new head that lands inside the arena on a
/// non-head body cell is fatal with reason HitSelf; the wall check, which
/// has priority, stays silent. A new head equal to the current head is
/// not a special case: the check compares against the body only.
pub proof fn lemma_self_collision(s: Session, input: Option<Heading>)
    requires
        s.grid.spec_contains(new_head_of(s, input)),
        s.chain@.skip(1).contains(new_head_of(s, input)),
    ensures
        self_hit(s, input),
        !wall_hit(s, input),
        collision(s, input, false),
{
}

/// Invincibility: no wall or self setup is fatal while the flag is on; the
/// tick's movement, eating and growth clauses do not mention the flag, so
/// they apply unchanged.
pub proof fn lemma_invincible_never_fatal(s: Session, input: Option<Heading>)
    ensures
        !collision(s, input, true),
{
}

/// Idempotent restart: the canonical state is a function of the grid alone,
/// so any two sessions restarted over the same grid agree in every
/// observable field, however many restarts came before.
pub proof fn lemma_restart_idempotent(s1: Session, s2: Session, g: Grid)
    requires
        is_canonical(s1, g),
        is_canonical(s2, g),
    ensures
        s1.grid == s2.grid,
        s1.chain@ == s2.chain@,
        s1.heading == s2.heading,
        s1.food == s2.food,
        s1.last_tail == s2.last_tail,
        s1.mode == s2.mode,
{
}

} // verus!
