//! The fruit: where it lies, what it is worth, and where the next one appears.

use std::collections::VecDeque;
use macroquad::rand::ChooseRandom;
use vstd::pervasive::unreached;
use vstd::prelude::*;
use vstd::set_lib::{lemma_int_range, lemma_len_subset, lemma_map_size_bound, set_int_range};
use crate::grid::{Cell, GRID_SIZE};
use crate::snake::{holds_cell, Snake};

verus! {

/// What the first fruit of a game is worth.
pub const FIRST_VALUE: usize = 5;

/// By how much a fruit's value rises at a time.
pub const VALUE_STEP: usize = 5;

/// The value rises once the score has reached this many times the value.
pub const LEVEL_FACTOR: usize = 20;

/// How many random cells are tried for a new fruit before the grid is
/// searched in order: as many as a machine integer counts, which no search
/// ever comes to.
pub const DRAW_LIMIT: usize = usize::MAX;

/// The one fruit on the grid.
#[derive(Clone, Copy, Debug, PartialEq, Eq, Structural)]
pub struct Fruit {
    pub pos: Cell,
    pub value: usize,
}

/// What a fruit of value `value` is worth after a fruit was eaten and the
/// score stands at `score`.
pub open spec fn leveled(value: nat, score: nat) -> nat {
    if score >= LEVEL_FACTOR * value {
        value + VALUE_STEP as nat
    } else {
        value
    }
}

/// Whether a fruit may be put on `c`: it is on the grid and not forbidden.
pub open spec fn is_free(c: Cell, forbidden: Seq<Cell>) -> bool {
    c.within(GRID_SIZE) && !forbidden.contains(c)
}

/// Whether the forbidden cells leave any cell of the grid free.
pub open spec fn has_free_cell(forbidden: Seq<Cell>) -> bool {
    exists|c: Cell| is_free(c, forbidden)
}

/// Whether `a` comes before `b` when the grid is read row by row.
pub open spec fn precedes(a: Cell, b: Cell) -> bool {
    a.row < b.row || (a.row == b.row && a.col < b.col)
}

/// What becomes of a drawn row and column: the cell they name, if both were
/// drawn and the cell is not forbidden.
pub open spec fn drawn_cell(row: Option<usize>, col: Option<usize>, forbidden: Seq<Cell>) -> Option<
    Cell,
> {
    match (row, col) {
        (Some(r), Some(c)) => {
            let cell = Cell { row: r, col: c };
            if forbidden.contains(cell) {
                None
            } else {
                Some(cell)
            }
        },
        _ => None,
    }
}

/// The number of a cell when the cells of the grid are counted row by row.
pub open spec fn cell_number(c: Cell) -> int {
    c.row * GRID_SIZE + c.col
}

/// Fewer forbidden cells than the grid has cells leave a cell free.
pub proof fn lemma_short_list_leaves_room(forbidden: Seq<Cell>)
    requires
        forbidden.len() < GRID_SIZE * GRID_SIZE,
    ensures
        has_free_cell(forbidden),
{
    if !has_free_cell(forbidden) {
        let taken = forbidden.to_set();
        let numbers = taken.map(|c: Cell| cell_number(c));
        let all = set_int_range(0, GRID_SIZE * GRID_SIZE);
        forbidden.lemma_cardinality_of_set();
        lemma_map_size_bound(taken, numbers, |c: Cell| cell_number(c));
        lemma_int_range(0, GRID_SIZE * GRID_SIZE);
        assert forall|k: int| all.contains(k) implies numbers.contains(k) by {
            let c = Cell {
                row: (k / GRID_SIZE as int) as usize,
                col: (k % GRID_SIZE as int) as usize,
            };
            assert(c.within(GRID_SIZE));
            assert(!is_free(c, forbidden));
            assert(taken.contains(c));
            assert(cell_number(c) == k);
        }
        lemma_len_subset(all, numbers);
        assert(false);
    }
}

impl Fruit {
    /// The fruit a game starts with.
    pub fn new() -> (f: Fruit)
        ensures
            f == (Fruit { pos: Cell { row: 10, col: 16 }, value: FIRST_VALUE }),
    {
        Fruit { pos: Cell { row: 10, col: 16 }, value: FIRST_VALUE }
    }

    /// Puts the fruit on `pos`.
    pub fn change_position(&mut self, pos: Cell)
        ensures
            *final(self) == (Fruit { pos, value: old(self).value }),
    {
        self.pos = pos;
    }

    /// Sets what the fruit is worth.
    pub fn change_points(&mut self, points: usize)
        ensures
            *final(self) == (Fruit { pos: old(self).pos, value: points }),
    {
        self.value = points;
    }

    /// Raises the value by `VALUE_STEP` if `snake_score` has reached
    /// `LEVEL_FACTOR` times the value.
    pub fn maybe_level_up(&mut self, snake_score: usize)
        ensures
            final(self).pos == old(self).pos,
            final(self).value == leveled(old(self).value as nat, snake_score as nat),
    {
        match self.value.checked_mul(LEVEL_FACTOR) {
            Some(threshold) => {
                if snake_score >= threshold {
                    self.value = self.value + VALUE_STEP;
                }
            },
            None => {},
        }
    }
}

/// The numbers from 0 up to `n`, `n` left out.
pub fn index_range(n: usize) -> (range: Vec<usize>)
    ensures
        range@.len() == n,
        forall|i: int| 0 <= i < n ==> range@[i] == i,
{
    let mut range: Vec<usize> = Vec::new();
    let mut i: usize = 0;
    while i < n
        invariant
            i <= n,
            range@.len() == i,
            forall|j: int| 0 <= j < i ==> range@[j] == j,
        decreases n - i,
    {
        range.push(i);
        i += 1;
    }
    range
}

/// One member of `range` picked at random, or nothing.
///
/// This is `macroquad::rand::ChooseRandom::choose` on the slice. It draws an
/// index from the process-wide generator and looks it up, so all that is
/// claimed is that a value handed back is one of the slice's members.
#[verifier::external_body]
fn choose_one(range: &Vec<usize>) -> (picked: Option<usize>)
    ensures
        picked matches Some(v) ==> range@.contains(v),
{
    range.choose().copied()
}

/// Decides on a drawn row and column: the cell is taken if both were drawn
/// and it is not among the forbidden cells.
pub fn accept_draw(row: Option<usize>, col: Option<usize>, forbidden: &VecDeque<Cell>) -> (r:
    Option<Cell>)
    ensures
        r == drawn_cell(row, col, forbidden@),
{
    match (row, col) {
        (Some(r), Some(c)) => {
            let cell = Cell { row: r, col: c };
            if holds_cell(forbidden, cell) {
                None
            } else {
                Some(cell)
            }
        },
        _ => None,
    }
}

/// The first free cell when the grid is read row by row, if there is one.
pub fn first_free_cell(forbidden: &VecDeque<Cell>) -> (r: Option<Cell>)
    ensures
        match r {
            Some(c) => is_free(c, forbidden@) && forall|o: Cell|
                o.within(GRID_SIZE) && precedes(o, c) ==> #[trigger] forbidden@.contains(o),
            None => !has_free_cell(forbidden@),
        },
{
    let mut row: usize = 0;
    while row < GRID_SIZE
        invariant
            row <= GRID_SIZE,
            forall|o: Cell|
                o.within(GRID_SIZE) && o.row < row ==> #[trigger] forbidden@.contains(o),
        decreases GRID_SIZE - row,
    {
        let mut col: usize = 0;
        while col < GRID_SIZE
            invariant
                row < GRID_SIZE,
                col <= GRID_SIZE,
                forall|o: Cell|
                    o.within(GRID_SIZE) && o.row < row ==> #[trigger] forbidden@.contains(o),
                forall|o: Cell|
                    o.row == row && o.col < col ==> #[trigger] forbidden@.contains(o),
            decreases GRID_SIZE - col,
        {
            let c = Cell { row, col };
            if !holds_cell(forbidden, c) {
                return Some(c);
            }
            col += 1;
        }
        row += 1;
    }
    None
}

/// A free cell for the next fruit.
///
/// Rows and columns are drawn at random, each on its own, until a draw names
/// a cell that is not forbidden. Should `DRAW_LIMIT` draws in a row all miss,
/// the first free cell in reading order is taken instead, so the search
/// always ends.
pub fn respawn(forbidden: &VecDeque<Cell>) -> (c: Cell)
    requires
        has_free_cell(forbidden@),
    ensures
        is_free(c, forbidden@),
{
    let range = index_range(GRID_SIZE);
    let mut draws: usize = 0;
    while draws < DRAW_LIMIT
        invariant
            draws <= DRAW_LIMIT,
            range@.len() == GRID_SIZE,
            forall|i: int| 0 <= i < GRID_SIZE ==> range@[i] == i,
        decreases DRAW_LIMIT - draws,
    {
        let row = choose_one(&range);
        let col = choose_one(&range);
        match accept_draw(row, col, forbidden) {
            Some(c) => {
                return c;
            },
            None => {},
        }
        draws += 1;
    }
    match first_free_cell(forbidden) {
        Some(c) => c,
        None => unreached(),
    }
}

/// The snake eats the fruit: it scores the fruit's value and logs where the
/// fruit lay; the fruit moves to a free cell and may rise in value.
pub fn eat_fruit(snake: &mut Snake, fruit: &mut Fruit)
    requires
        old(snake)@.score + old(fruit).value <= usize::MAX,
        has_free_cell(old(snake)@.body),
    ensures
        final(snake)@ == old(snake)@.score(old(fruit).value as nat).record_fruit(old(fruit).pos),
        is_free(final(fruit).pos, final(snake)@.body),
        final(fruit).value == leveled(old(fruit).value as nat, final(snake)@.score),
{
    snake.score(fruit.value);
    snake.record_fruit(fruit.pos);
    let pos = respawn(snake.cells());
    fruit.change_position(pos);
    fruit.maybe_level_up(snake.points());
}

} // verus!
