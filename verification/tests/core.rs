use snek_core::chain::Chain;
use snek_core::food::place_food_from;
use snek_core::grid::{Cell, Grid};
use snek_core::heading::{shift_cell, Heading};
use snek_core::session::{GameOverReason, Mode, Session};

fn cell(x: i32, y: i32) -> Cell {
    Cell { x, y }
}

fn standard_session() -> Session {
    Session::new(Grid::new(20, 20))
}

#[test]
fn initialization_shape() {
    // For any valid grid, the initial chain has length exactly 2, head and
    // body adjacent, body opposite the initial heading (Right => body left).
    let s = standard_session();
    let cells = s.chain.occupied_cells();
    assert_eq!(cells.len(), 2);
    assert_eq!(cells[0], cell(3, 10));
    assert_eq!(cells[1], cell(2, 10));
    assert_eq!(s.heading, Heading::Right);
    assert_eq!(s.mode, Mode::Running);
    assert!(s.food.is_none());
}

#[test]
fn initialize_other_headings() {
    let c = Chain::initialize(cell(5, 5), Heading::Up);
    assert_eq!(c.occupied_cells(), vec![cell(5, 5), cell(5, 4)]);
    let c = Chain::initialize(cell(5, 5), Heading::Down);
    assert_eq!(c.occupied_cells(), vec![cell(5, 5), cell(5, 6)]);
    let c = Chain::initialize(cell(5, 5), Heading::Left);
    assert_eq!(c.occupied_cells(), vec![cell(5, 5), cell(6, 5)]);
}

#[test]
fn reversal_rejected() {
    // An input equal to the opposite of the current heading is ignored.
    let mut s = standard_session();
    let r = s.tick(Some(Heading::Left), false);
    assert_eq!(s.heading, Heading::Right);
    assert_eq!(s.chain.head(), cell(4, 10));
    assert!(r.game_over.is_none());
}

#[test]
fn non_reverse_adopted() {
    // Any non-reverse input is adopted, including the double opposite.
    let mut s = standard_session();
    s.tick(Some(Heading::Up), false);
    assert_eq!(s.heading, Heading::Up);
    assert_eq!(s.chain.head(), cell(3, 11));
    let mut s2 = standard_session();
    s2.tick(Some(Heading::Right), false);
    assert_eq!(s2.heading, Heading::Right);
}

#[test]
fn opposite_mapping() {
    assert_eq!(Heading::Up.opposite(), Heading::Down);
    assert_eq!(Heading::Down.opposite(), Heading::Up);
    assert_eq!(Heading::Right.opposite(), Heading::Left);
    assert_eq!(Heading::Left.opposite(), Heading::Right);
}

#[test]
fn movement_keeps_length() {
    // With no growth the chain length is unchanged by a tick.
    let mut s = standard_session();
    for _ in 0..5 {
        let r = s.tick(None, false);
        assert!(!r.grew);
        assert_eq!(s.chain.len(), 2);
    }
}

#[test]
fn movement_shifts_segments() {
    // Each segment takes the position of the segment ahead of it.
    let mut s = standard_session();
    let r = s.tick(None, false);
    assert_eq!(r.moved_positions, vec![cell(4, 10), cell(3, 10)]);
    assert_eq!(s.last_tail, Some(cell(2, 10)));
}

#[test]
fn wall_collision_exact_tick() {
    // Heading right from (3,10) on a 20-wide grid: the head reaches (19,10)
    // on the 16th tick without an event; the 17th computes (20,10), outside
    // the arena, and raises HitWall exactly then.
    let mut s = standard_session();
    for i in 1..=16 {
        let r = s.tick(None, false);
        assert!(r.game_over.is_none(), "tick {} raised an event", i);
        assert_eq!(s.chain.head(), cell(3 + i, 10));
    }
    assert_eq!(s.chain.head(), cell(19, 10));
    let r = s.tick(None, false);
    assert_eq!(r.game_over, Some(GameOverReason::HitWall));
    assert_eq!(s.mode, Mode::GameOver);
}

#[test]
fn wall_collision_every_edge() {
    // Up from the top row, down from the bottom row, left from the left
    // column: each raises HitWall on the crossing tick.
    let mut s = standard_session();
    for _ in 0..9 {
        assert!(s.tick(Some(Heading::Up), false).game_over.is_none());
    }
    assert_eq!(s.chain.head(), cell(3, 19));
    assert_eq!(s.tick(Some(Heading::Up), false).game_over, Some(GameOverReason::HitWall));

    let mut s = standard_session();
    for _ in 0..10 {
        assert!(s.tick(Some(Heading::Down), false).game_over.is_none());
    }
    assert_eq!(s.chain.head(), cell(3, 0));
    assert_eq!(s.tick(Some(Heading::Down), false).game_over, Some(GameOverReason::HitWall));
}

/// Grows the snake by one segment by dropping food right where the head
/// will move next.
fn grow_once(s: &mut Session, input: Option<Heading>) {
    let next = match input {
        Some(h) if h != s.heading.opposite() => h,
        _ => s.heading,
    };
    s.food = Some(shift_cell(s.chain.head(), next));
    let r = s.tick(input, false);
    assert!(r.grew);
    assert!(r.game_over.is_none());
}

#[test]
fn self_collision() {
    // Grow to length 5, then turn the head back into the body: the computed
    // new head equals a non-head body cell and HitSelf is raised.
    let mut s = standard_session();
    grow_once(&mut s, None); // head (4,10), len 3
    grow_once(&mut s, None); // head (5,10), len 4
    grow_once(&mut s, Some(Heading::Up)); // head (5,11), len 5
    let r = s.tick(Some(Heading::Left), false); // head (4,11)
    assert!(r.game_over.is_none());
    let r = s.tick(Some(Heading::Down), false); // computed head (4,10): body
    assert_eq!(r.game_over, Some(GameOverReason::HitSelf));
    assert_eq!(s.mode, Mode::GameOver);
}

#[test]
fn invincible_wall() {
    // The same wall setup with invincibility: the head moves through the
    // boundary, no event, and movement still applies normally.
    let mut s = standard_session();
    for _ in 0..16 {
        s.tick(None, false);
    }
    assert_eq!(s.chain.head(), cell(19, 10));
    let r = s.tick(None, true);
    assert!(r.game_over.is_none());
    assert_eq!(s.mode, Mode::Running);
    assert_eq!(s.chain.head(), cell(20, 10));
    let r = s.tick(None, true);
    assert!(r.game_over.is_none());
    assert_eq!(s.chain.head(), cell(21, 10));
}

#[test]
fn invincible_self() {
    // The same self-collision setup with invincibility: the head moves onto
    // the body cell without any event.
    let mut s = standard_session();
    grow_once(&mut s, None);
    grow_once(&mut s, None);
    grow_once(&mut s, Some(Heading::Up));
    s.tick(Some(Heading::Left), false); // head (4,11)
    let r = s.tick(Some(Heading::Down), true); // head (4,10), on the body
    assert!(r.game_over.is_none());
    assert_eq!(s.mode, Mode::Running);
    assert_eq!(s.chain.head(), cell(4, 10));
}

#[test]
fn eating_grows_at_old_tail() {
    // Food exactly at the computed new head raises Grew, removes the food
    // in the same tick, and appends a segment at the pre-shift tail cell.
    let mut s = standard_session();
    s.food = Some(cell(4, 10));
    let r = s.tick(None, false);
    assert!(r.grew);
    assert!(s.food.is_none());
    assert_eq!(r.moved_positions, vec![cell(4, 10), cell(3, 10), cell(2, 10)]);
    assert_eq!(s.chain.len(), 3);
    assert_eq!(s.chain.segment_at(2), cell(2, 10));
}

#[test]
fn food_elsewhere_not_eaten() {
    let mut s = standard_session();
    s.food = Some(cell(10, 3));
    let r = s.tick(None, false);
    assert!(!r.grew);
    assert_eq!(s.food, Some(cell(10, 3)));
    assert_eq!(s.chain.len(), 2);
}

fn all_cells_except(g: &Grid, free: &[Cell]) -> Vec<Cell> {
    let mut v = Vec::new();
    for x in 0..g.width {
        for y in 0..g.height {
            let c = cell(x, y);
            if !free.contains(&c) {
                v.push(c);
            }
        }
    }
    v
}

#[test]
fn placement_single_free_cell() {
    // Occupancy covering every cell except one: the scan returns exactly
    // that cell from every starting candidate quadrant.
    let g = Grid::new(3, 3);
    let free = cell(1, 1);
    let occupied = all_cells_except(&g, &[free]);
    for x in 0..3 {
        for y in 0..3 {
            assert_eq!(place_food_from(&g, &occupied, cell(x, y)), Some(free));
        }
    }
}

#[test]
fn placement_full_grid() {
    // A fully occupied grid yields no placement instead of looping forever.
    let g = Grid::new(3, 3);
    let occupied = all_cells_except(&g, &[]);
    for x in 0..3 {
        for y in 0..3 {
            assert_eq!(place_food_from(&g, &occupied, cell(x, y)), None);
        }
    }
}

#[test]
fn placement_scan_order() {
    let g = Grid::new(3, 3);
    // Free starting candidate is taken as is.
    assert_eq!(place_food_from(&g, &Vec::new(), cell(1, 1)), Some(cell(1, 1)));
    // Occupied candidate: scan moves one step in x.
    let occ = vec![cell(1, 1)];
    assert_eq!(place_food_from(&g, &occ, cell(1, 1)), Some(cell(2, 1)));
    // x overflow falls to the row below (y decreases).
    let occ = vec![cell(2, 1)];
    assert_eq!(place_food_from(&g, &occ, cell(2, 1)), Some(cell(0, 0)));
    // The bottom-right corner wraps once to the top-left cell.
    let occ = vec![cell(2, 0)];
    assert_eq!(place_food_from(&g, &occ, cell(2, 0)), Some(cell(0, 2)));
}

#[test]
fn place_food_session() {
    // A placement lands inside the arena, never under a segment, and a
    // second placement is refused while the food is still active.
    let mut s = standard_session();
    let r = s.place_food();
    let c = r.expect("a nearly empty arena must get food");
    assert!(0 <= c.x && c.x < 20 && 0 <= c.y && c.y < 20);
    assert_ne!(c, cell(3, 10));
    assert_ne!(c, cell(2, 10));
    assert_eq!(s.food, Some(c));
    assert_eq!(s.place_food(), None);
    assert_eq!(s.food, Some(c));
}

#[test]
fn restart_idempotent() {
    // Restarting any number of times always yields the same canonical
    // initial chain and Running state.
    let mut s = standard_session();
    s.food = Some(cell(4, 10));
    s.tick(None, false); // grow
    for _ in 0..16 {
        s.tick(None, false);
    }
    assert_eq!(s.tick(None, false).game_over, Some(GameOverReason::HitWall));
    for _ in 0..3 {
        s.restart();
        assert_eq!(s.mode, Mode::Running);
        assert_eq!(s.heading, Heading::Right);
        assert!(s.food.is_none());
        assert!(s.last_tail.is_none());
        assert_eq!(s.chain.occupied_cells(), vec![cell(3, 10), cell(2, 10)]);
    }
}

#[test]
fn end_to_end_three_ticks() {
    // 20x20 grid, head (3,10) heading Right, body (2,10); three Right ticks
    // with no food: heads (4,10), (5,10), (6,10), length 2, no events.
    let mut s = standard_session();
    let expected = [cell(4, 10), cell(5, 10), cell(6, 10)];
    for e in expected {
        let r = s.tick(Some(Heading::Right), false);
        assert_eq!(s.chain.head(), e);
        assert_eq!(s.chain.len(), 2);
        assert!(r.game_over.is_none());
        assert!(!r.grew);
    }
}

#[test]
fn grid_contains_bounds() {
    let g = Grid::new(20, 20);
    assert!(g.contains(cell(0, 0)));
    assert!(g.contains(cell(19, 19)));
    assert!(!g.contains(cell(20, 10)));
    assert!(!g.contains(cell(10, 20)));
    assert!(!g.contains(cell(-1, 0)));
    assert!(!g.contains(cell(0, -1)));
}

#[test]
fn chain_contains_cell_modes() {
    let c = Chain::initialize(cell(3, 10), Heading::Right);
    assert!(c.contains_cell(false, cell(3, 10)));
    assert!(!c.contains_cell(true, cell(3, 10)));
    assert!(c.contains_cell(true, cell(2, 10)));
    assert!(!c.contains_cell(false, cell(4, 10)));
}

#[test]
fn advance_returns_old_tail() {
    let mut c = Chain::initialize(cell(3, 10), Heading::Right);
    let old_tail = c.advance(cell(4, 10));
    assert_eq!(old_tail, cell(2, 10));
    assert_eq!(c.occupied_cells(), vec![cell(4, 10), cell(3, 10)]);
    c.append_at(old_tail);
    assert_eq!(c.len(), 3);
}
