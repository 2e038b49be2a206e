//! Cells, directions and wrap-around stepping on a square grid.

use vstd::prelude::*;
use vstd::arithmetic::div_mod::{
    lemma_add_mod_noop_right, lemma_mod_add_multiples_vanish, lemma_mod_bound,
    lemma_mod_sub_multiples_vanish, lemma_small_mod,
};

verus! {

/// Side length of the playing field.
pub const GRID_SIZE: usize = 32;

/// A position on the grid, as row and column.
#[derive(Clone, Copy, Debug, PartialEq, Eq, Structural)]
pub struct Cell {
    pub row: usize,
    pub col: usize,
}

/// A direction of travel. `Up` lowers the row, `Left` lowers the column.
#[derive(Clone, Copy, Debug, PartialEq, Eq, Structural)]
pub enum Direction {
    Up,
    Down,
    Left,
    Right,
}

impl Direction {
    /// The direction pointing the other way.
    pub open spec fn spec_opposite(self) -> Direction {
        match self {
            Direction::Up => Direction::Down,
            Direction::Down => Direction::Up,
            Direction::Left => Direction::Right,
            Direction::Right => Direction::Left,
        }
    }

    /// The direction pointing the other way.
    #[verifier::when_used_as_spec(spec_opposite)]
    pub fn opposite(self) -> (r: Direction)
        ensures
            r == self.spec_opposite(),
    {
        match self {
            Direction::Up => Direction::Down,
            Direction::Down => Direction::Up,
            Direction::Left => Direction::Right,
            Direction::Right => Direction::Left,
        }
    }
}

impl Cell {
    /// Whether both coordinates lie below `n`.
    pub open spec fn within(self, n: usize) -> bool {
        self.row < n && self.col < n
    }
}

/// The coordinate one position lower on a ring of `n` positions.
pub open spec fn ring_prev(x: int, n: int) -> int {
    (x + n - 1) % n
}

/// The coordinate one position higher on a ring of `n` positions.
pub open spec fn ring_next(x: int, n: int) -> int {
    (x + 1) % n
}

/// The neighbour of `c` in direction `d` on an `n` by `n` grid whose edges wrap.
pub open spec fn step_spec(c: Cell, d: Direction, n: usize) -> Cell {
    match d {
        Direction::Up => Cell { row: ring_prev(c.row as int, n as int) as usize, col: c.col },
        Direction::Down => Cell { row: ring_next(c.row as int, n as int) as usize, col: c.col },
        Direction::Left => Cell { row: c.row, col: ring_prev(c.col as int, n as int) as usize },
        Direction::Right => Cell { row: c.row, col: ring_next(c.col as int, n as int) as usize },
    }
}

fn prev_on_ring(x: usize, n: usize) -> (r: usize)
    requires
        n > 0,
    ensures
        r == ring_prev(x as int, n as int),
        r < n,
{
    proof {
        lemma_mod_bound(x + n - 1, n as int);
    }
    let wide: u128 = (x as u128 + n as u128 - 1) % (n as u128);
    wide as usize
}

fn next_on_ring(x: usize, n: usize) -> (r: usize)
    requires
        n > 0,
    ensures
        r == ring_next(x as int, n as int),
        r < n,
{
    proof {
        lemma_mod_bound(x + 1, n as int);
    }
    let wide: u128 = (x as u128 + 1) % (n as u128);
    wide as usize
}

/// Moves one cell in direction `d` on an `n` by `n` grid, wrapping at the edges.
pub fn step(c: Cell, d: Direction, n: usize) -> (r: Cell)
    requires
        n > 0,
    ensures
        r == step_spec(c, d, n),
        c.within(n) ==> r.within(n),
{
    match d {
        Direction::Up => Cell { row: prev_on_ring(c.row, n), col: c.col },
        Direction::Down => Cell { row: next_on_ring(c.row, n), col: c.col },
        Direction::Left => Cell { row: c.row, col: prev_on_ring(c.col, n) },
        Direction::Right => Cell { row: c.row, col: next_on_ring(c.col, n) },
    }
}

/// The cell reached from `c` after `k` steps in direction `d`.
pub open spec fn step_times(c: Cell, d: Direction, n: usize, k: nat) -> Cell
    decreases k,
{
    if k == 0 {
        c
    } else {
        step_spec(step_times(c, d, n, (k - 1) as nat), d, n)
    }
}

/// The cell `k` positions away from `c` in direction `d`, by arithmetic on
/// the coordinate that the direction changes.
pub open spec fn shifted(c: Cell, d: Direction, n: usize, k: nat) -> Cell {
    match d {
        Direction::Up => Cell { row: ((c.row - k) % (n as int)) as usize, col: c.col },
        Direction::Down => Cell { row: ((c.row + k) % (n as int)) as usize, col: c.col },
        Direction::Left => Cell { row: c.row, col: ((c.col - k) % (n as int)) as usize },
        Direction::Right => Cell { row: c.row, col: ((c.col + k) % (n as int)) as usize },
    }
}

proof fn lemma_ring_next_shift(x: int, k: int, n: int)
    requires
        n > 0,
    ensures
        ring_next((x + k) % n, n) == (x + k + 1) % n,
        0 <= (x + k + 1) % n < n,
{
    lemma_add_mod_noop_right(1, x + k, n);
    lemma_mod_bound(x + k + 1, n);
}

proof fn lemma_ring_prev_shift(x: int, k: int, n: int)
    requires
        n > 0,
    ensures
        ring_prev((x - k) % n, n) == (x - k - 1) % n,
        0 <= (x - k - 1) % n < n,
{
    lemma_add_mod_noop_right(n - 1, x - k, n);
    lemma_mod_add_multiples_vanish(x - k - 1, n);
    lemma_mod_bound(x - k - 1, n);
}

/// Stepping `k` times moves one coordinate by `k` around the ring and leaves
/// the other where it was.
pub proof fn lemma_step_times_shifts(c: Cell, d: Direction, n: usize, k: nat)
    requires
        n > 0,
        c.within(n),
    ensures
        step_times(c, d, n, k) == shifted(c, d, n, k),
        step_times(c, d, n, k).within(n),
    decreases k,
{
    if k == 0 {
        lemma_small_mod(c.row as nat, n as nat);
        lemma_small_mod(c.col as nat, n as nat);
    } else {
        let j = (k - 1) as nat;
        lemma_step_times_shifts(c, d, n, j);
        lemma_ring_next_shift(c.row as int, j as int, n as int);
        lemma_ring_next_shift(c.col as int, j as int, n as int);
        lemma_ring_prev_shift(c.row as int, j as int, n as int);
        lemma_ring_prev_shift(c.col as int, j as int, n as int);
    }
}

/// Walking `n` steps in one direction on an `n` by `n` grid leads back to the
/// cell the walk started from.
pub proof fn lemma_step_closure(c: Cell, d: Direction, n: usize)
    requires
        n > 0,
        c.within(n),
    ensures
        step_times(c, d, n, n as nat) == c,
{
    lemma_step_times_shifts(c, d, n, n as nat);
    lemma_mod_add_multiples_vanish(c.row as int, n as int);
    lemma_mod_add_multiples_vanish(c.col as int, n as int);
    lemma_mod_sub_multiples_vanish(c.row as int, n as int);
    lemma_mod_sub_multiples_vanish(c.col as int, n as int);
    lemma_small_mod(c.row as nat, n as nat);
    lemma_small_mod(c.col as nat, n as nat);
}

/// A step followed by a step the other way leads back to the starting cell.
pub proof fn lemma_step_back(c: Cell, d: Direction, n: usize)
    requires
        n > 0,
        c.within(n),
    ensures
        step_spec(step_spec(c, d, n), d.opposite(), n) == c,
        step_spec(c, d, n).within(n),
{
    lemma_step_times_shifts(c, d, n, 1);
    assert(step_times(c, d, n, 1) == step_spec(c, d, n)) by {
        reveal_with_fuel(step_times, 2);
    }
    let m = step_spec(c, d, n);
    let x: int = match d {
        Direction::Up | Direction::Down => c.row as int,
        _ => c.col as int,
    };
    lemma_small_mod(x as nat, n as nat);
    match d {
        Direction::Up | Direction::Left => {
            // (x - 1) % n stepped forward is x % n
            lemma_ring_next_shift(x, -1, n as int);
        },
        _ => {
            // (x + 1) % n stepped back is x % n
            lemma_ring_prev_shift(x, -1, n as int);
        },
    }
}

} // verus!
