//! The snake: its body, its heading, its score and the logs of a game.

use std::collections::VecDeque;
use vstd::prelude::*;
use crate::grid::{lemma_step_back, step, step_spec, Cell, Direction, GRID_SIZE};
use crate::record::{copy_cells, RecordView, ScoreRecord};

verus! {

/// How a move ended.
#[derive(Clone, Copy, Debug, PartialEq, Eq, Structural)]
pub enum Outcome {
    /// The new head took a cell the body did not hold.
    Continuing,
    /// The new head ran into the body.
    Collided,
}

/// A snake on the `GRID_SIZE` by `GRID_SIZE` grid.
pub struct Snake {
    name: String,
    body: VecDeque<Cell>,
    direction: Direction,
    score: usize,
    moves: Vec<Cell>,
    fruits: Vec<Cell>,
}

/// The mathematical content of a [`Snake`]. `body` runs from the head to the
/// tail; `moves` and `fruits` grow at the end.
#[verifier::ext_equal]
pub struct SnakeView {
    pub name: Seq<char>,
    pub body: Seq<Cell>,
    pub direction: Direction,
    pub score: nat,
    pub moves: Seq<Cell>,
    pub fruits: Seq<Cell>,
}

/// Whether every cell of `cells` lies on the grid.
pub open spec fn all_on_grid(cells: Seq<Cell>) -> bool {
    forall|i: int| 0 <= i < cells.len() ==> (#[trigger] cells[i]).within(GRID_SIZE)
}

/// The body a new snake starts with: three cells in a column near the bottom
/// of the grid, head on top.
pub open spec fn initial_body() -> Seq<Cell> {
    seq![Cell { row: 28, col: 16 }, Cell { row: 29, col: 16 }, Cell { row: 30, col: 16 }]
}

impl SnakeView {
    /// A snake has a head, and all of it lies on the grid.
    pub open spec fn wf(self) -> bool {
        self.body.len() >= 1 && all_on_grid(self.body)
    }

    /// The snake a game starts with.
    pub open spec fn initial(name: Seq<char>) -> SnakeView {
        SnakeView {
            name,
            body: initial_body(),
            direction: Direction::Up,
            score: 0,
            moves: Seq::empty(),
            fruits: Seq::empty(),
        }
    }

    pub open spec fn head(self) -> Cell {
        self.body[0]
    }

    /// The cell the head moves to next.
    pub open spec fn next_head(self) -> Cell {
        step_spec(self.head(), self.direction, GRID_SIZE)
    }

    /// Whether heading towards `requested` would take the head straight back
    /// onto the cell behind it.
    pub open spec fn reverses(self, requested: Direction) -> bool {
        self.body.len() >= 2 && self.body[1] == step_spec(self.body[0], requested, GRID_SIZE)
    }

    /// The snake after a request to head towards `requested`: unchanged where
    /// that would reverse it, heading there otherwise.
    pub open spec fn turn(self, requested: Direction) -> SnakeView {
        if self.reverses(requested) {
            self
        } else {
            SnakeView { direction: requested, ..self }
        }
    }

    /// Whether the next move runs into the body as it lies before the move,
    /// tail included.
    pub open spec fn collides(self) -> bool {
        self.body.contains(self.next_head())
    }

    /// The snake after a move: the new head is put in front of the body and at
    /// the end of the move log, whether or not it collided.
    pub open spec fn advance(self) -> SnakeView {
        SnakeView {
            body: seq![self.next_head()] + self.body,
            moves: self.moves.push(self.next_head()),
            ..self
        }
    }

    /// The snake without its last cell; a snake that is only a head stays as
    /// it is.
    pub open spec fn drop_tail(self) -> SnakeView {
        if self.body.len() > 1 {
            SnakeView { body: self.body.drop_last(), ..self }
        } else {
            self
        }
    }

    pub open spec fn score(self, points: nat) -> SnakeView {
        SnakeView { score: self.score + points, ..self }
    }

    pub open spec fn record_fruit(self, position: Cell) -> SnakeView {
        SnakeView { fruits: self.fruits.push(position), ..self }
    }

    /// The record of the game as it stands.
    pub open spec fn snapshot(self) -> RecordView {
        RecordView {
            name: self.name,
            points: self.score,
            moves: self.moves,
            fruits: self.fruits,
        }
    }
}

/// Whether `cells` holds `c`.
pub fn holds_cell(cells: &VecDeque<Cell>, c: Cell) -> (found: bool)
    ensures
        found == cells@.contains(c),
{
    let mut i: usize = 0;
    while i < cells.len()
        invariant
            i <= cells.len(),
            forall|j: int| 0 <= j < i ==> cells@[j] != c,
        decreases cells.len() - i,
    {
        if cells[i] == c {
            return true;
        }
        i += 1;
    }
    false
}

impl View for Snake {
    type V = SnakeView;

    closed spec fn view(&self) -> SnakeView {
        SnakeView {
            name: self.name@,
            body: self.body@,
            direction: self.direction,
            score: self.score as nat,
            moves: self.moves@,
            fruits: self.fruits@,
        }
    }
}

impl Snake {
    /// The snake a game starts with: three cells long, heading up, with no
    /// score and empty logs.
    pub fn new(name: String) -> (s: Snake)
        ensures
            s@ == SnakeView::initial(name@),
            s@.wf(),
    {
        let mut body: VecDeque<Cell> = VecDeque::new();
        body.push_back(Cell { row: 28, col: 16 });
        body.push_back(Cell { row: 29, col: 16 });
        body.push_back(Cell { row: 30, col: 16 });
        assert(body@ =~= initial_body());
        Snake {
            name,
            body,
            direction: Direction::Up,
            score: 0,
            moves: Vec::new(),
            fruits: Vec::new(),
        }
    }

    /// A snake with the given body, head first, heading towards `direction`,
    /// with no score and empty logs. There is none for an empty body or for
    /// one with a cell off the grid.
    pub fn with_body(name: String, body: &Vec<Cell>, direction: Direction) -> (r: Option<Snake>)
        ensures
            r is Some <==> body@.len() >= 1 && all_on_grid(body@),
            r matches Some(s) ==> s@ == (SnakeView {
                name: name@,
                body: body@,
                direction,
                score: 0,
                moves: Seq::empty(),
                fruits: Seq::empty(),
            }) && s@.wf(),
    {
        if body.len() == 0 {
            return None;
        }
        let mut cells: VecDeque<Cell> = VecDeque::new();
        let mut i: usize = 0;
        while i < body.len()
            invariant
                i <= body.len(),
                cells@ == body@.take(i as int),
                all_on_grid(cells@),
            decreases body.len() - i,
        {
            let c = body[i];
            if c.row >= GRID_SIZE || c.col >= GRID_SIZE {
                assert(!body@[i as int].within(GRID_SIZE));
                return None;
            }
            cells.push_back(c);
            assert(body@.take(i as int).push(c) =~= body@.take(i + 1));
            i += 1;
        }
        assert(body@.take(body.len() as int) =~= body@);
        Some(
            Snake { name, body: cells, direction, score: 0, moves: Vec::new(), fruits: Vec::new() },
        )
    }

    /// Asks the snake to head towards `requested`. A request that would take
    /// the head straight back onto the cell behind it is ignored.
    pub fn turn(&mut self, requested: Direction)
        ensures
            final(self)@ == old(self)@.turn(requested),
    {
        if self.body.len() >= 2 {
            let behind = self.body[1];
            let ahead = step(self.body[0], requested, GRID_SIZE);
            if behind == ahead {
                return;
            }
        }
        self.direction = requested;
    }

    /// Moves the head one cell in the current direction. The new head joins
    /// the body and the move log in either case; the outcome tells whether it
    /// ran into the body as it lay before the move. The tail stays: whoever
    /// drives the game drops it when no fruit was eaten.
    pub fn advance(&mut self) -> (outcome: Outcome)
        requires
            old(self)@.wf(),
        ensures
            final(self)@ == old(self)@.advance(),
            outcome == (if old(self)@.collides() {
                Outcome::Collided
            } else {
                Outcome::Continuing
            }),
            final(self)@.wf(),
    {
        let next = step(self.body[0], self.direction, GRID_SIZE);
        let hit = holds_cell(&self.body, next);
        self.body.push_front(next);
        self.moves.push(next);
        if hit {
            Outcome::Collided
        } else {
            Outcome::Continuing
        }
    }

    /// Removes the last cell of the body, unless the body is only a head.
    pub fn drop_tail(&mut self)
        ensures
            final(self)@ == old(self)@.drop_tail(),
    {
        if self.body.len() > 1 {
            self.body.pop_back();
        }
    }

    /// Adds `points` to the score.
    pub fn score(&mut self, points: usize)
        requires
            old(self)@.score + points <= usize::MAX,
        ensures
            final(self)@ == old(self)@.score(points as nat),
    {
        self.score = self.score + points;
    }

    /// Appends `position` to the fruit log.
    pub fn record_fruit(&mut self, position: Cell)
        ensures
            final(self)@ == old(self)@.record_fruit(position),
    {
        self.fruits.push(position);
    }

    /// The player's name.
    pub fn name(&self) -> (r: &String)
        ensures
            r@ == self@.name,
    {
        &self.name
    }

    /// The cell the head is on.
    pub fn head(&self) -> (c: Cell)
        requires
            self@.wf(),
        ensures
            c == self@.head(),
    {
        self.body[0]
    }

    /// The number of cells of the body, head included.
    pub fn len(&self) -> (n: usize)
        ensures
            n == self@.body.len(),
    {
        self.body.len()
    }

    /// The body from head to tail.
    pub fn body(&self) -> (cells: Vec<Cell>)
        ensures
            cells@ == self@.body,
    {
        let mut cells: Vec<Cell> = Vec::new();
        let mut i: usize = 0;
        while i < self.body.len()
            invariant
                i <= self.body.len(),
                cells@ == self.body@.take(i as int),
            decreases self.body.len() - i,
        {
            cells.push(self.body[i]);
            assert(self.body@.take(i as int).push(self.body@[i as int]) =~= self.body@.take(i + 1));
            i += 1;
        }
        assert(self.body@.take(self.body.len() as int) =~= self.body@);
        cells
    }

    /// The cells of the body, head first.
    pub fn cells(&self) -> (cells: &VecDeque<Cell>)
        ensures
            cells@ == self@.body,
    {
        &self.body
    }

    /// Whether the body lies on `c`.
    pub fn occupies(&self, c: Cell) -> (found: bool)
        ensures
            found == self@.body.contains(c),
    {
        holds_cell(&self.body, c)
    }

    /// The direction the snake is heading.
    pub fn direction(&self) -> (d: Direction)
        ensures
            d == self@.direction,
    {
        self.direction
    }

    /// The score so far.
    pub fn points(&self) -> (p: usize)
        ensures
            p == self@.score,
    {
        self.score
    }

    /// Every head position taken so far, oldest first.
    pub fn moves(&self) -> (log: &Vec<Cell>)
        ensures
            log@ == self@.moves,
    {
        &self.moves
    }

    /// Every fruit position recorded so far, oldest first.
    pub fn fruits(&self) -> (log: &Vec<Cell>)
        ensures
            log@ == self@.fruits,
    {
        &self.fruits
    }

    /// The record of the game as it stands.
    pub fn snapshot(&self) -> (r: ScoreRecord)
        ensures
            r@ == self@.snapshot(),
    {
        ScoreRecord {
            name: self.name.clone(),
            points: self.score,
            moves: copy_cells(&self.moves),
            fruits: copy_cells(&self.fruits),
        }
    }
}

/// Turning, moving, shrinking, scoring and logging all keep a snake a snake.
pub proof fn lemma_wf_is_kept(s: SnakeView, d: Direction, points: nat, c: Cell)
    requires
        s.wf(),
    ensures
        s.turn(d).wf(),
        s.advance().wf(),
        s.drop_tail().wf(),
        s.score(points).wf(),
        s.record_fruit(c).wf(),
{
    lemma_step_back(s.head(), s.direction, GRID_SIZE);
}

/// A snake whose head lies one step ahead of the cell behind it, in the
/// direction it is heading, ignores a request to head the opposite way.
pub proof fn lemma_reverse_is_ignored(s: SnakeView)
    requires
        s.wf(),
        s.body.len() >= 2,
        s.body[0] == step_spec(s.body[1], s.direction, GRID_SIZE),
    ensures
        s.turn(s.direction.opposite()) == s,
{
    lemma_step_back(s.body[1], s.direction, GRID_SIZE);
}

/// Right after a move, a request to head back the way the snake came is
/// ignored.
pub proof fn lemma_reverse_after_move_is_ignored(s: SnakeView)
    requires
        s.wf(),
    ensures
        s.advance().turn(s.direction.opposite()) == s.advance(),
{
    lemma_wf_is_kept(s, s.direction, 0, s.head());
    let moved = s.advance();
    assert(moved.body[0] == s.next_head());
    assert(moved.body[1] == s.body[0]);
    lemma_reverse_is_ignored(moved);
}

/// A move that runs into the body is still carried out: the body grows by the
/// cell that was hit, and the move log ends with it.
pub proof fn lemma_collision_is_logged(s: SnakeView)
    requires
        s.wf(),
        s.collides(),
    ensures
        s.advance().body.len() == s.body.len() + 1,
        s.advance().body[0] == s.next_head(),
        s.advance().body.subrange(1, s.advance().body.len() as int) == s.body,
        s.advance().moves == s.moves.push(s.next_head()),
        s.body.contains(s.advance().body[0]),
{
    assert(s.advance().body.subrange(1, s.advance().body.len() as int) =~= s.body);
}

} // verus!
