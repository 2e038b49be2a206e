//! One game: a snake, a fruit, and what a tick does to them.

use std::collections::VecDeque;
use vstd::prelude::*;
use crate::fruit::{
    eat_fruit, first_free_cell, has_free_cell, is_free, lemma_short_list_leaves_room, leveled,
    Fruit, FIRST_VALUE,
};
use crate::grid::{step, Cell, Direction, GRID_SIZE};
use crate::record::ScoreRecord;
use crate::replay::{lemma_playback_rebuilds, lemma_rebuilt_from_prefix, rebuilt, ReplayView};
use crate::snake::{lemma_wf_is_kept, Outcome, Snake, SnakeView};

verus! {

/// What a tick did.
#[derive(Clone, Copy, Debug, PartialEq, Eq, Structural)]
pub enum TickOutcome {
    /// The snake moved on by one cell.
    Moved,
    /// The snake moved onto the fruit, ate it and grew.
    Ate,
    /// The snake ran into itself; the game is over.
    Collided,
    /// The game was over already; nothing happened.
    Idle,
}

/// A game in progress or just finished.
pub struct Game {
    snake: Snake,
    fruit: Fruit,
    over: bool,
}

/// The mathematical content of a [`Game`].
#[verifier::ext_equal]
pub struct GameView {
    pub snake: SnakeView,
    pub fruit: Fruit,
    pub over: bool,
}

impl GameView {
    /// The snake is in order, while the game runs the fruit lies on a cell of
    /// the grid that the snake does not cover, and the logs tell the body.
    pub open spec fn wf(self) -> bool {
        &&& self.snake.wf()
        &&& !self.over ==> is_free(self.fruit.pos, self.snake.body)
        &&& self.recorded()
    }

    /// Whether the logs tell the body: what a playback rebuilds from all the
    /// moves logged is the snake's body. While the game runs this holds of
    /// the logs as they are and also with the fruit on the grid added to
    /// them, and every fruit logged counts as used up. Once the game is over
    /// the last fruit logged is the one that was left uneaten, and the body
    /// rebuilt is the snake's without the cell at its very end, since the
    /// snake kept its tail when it collided.
    pub open spec fn recorded(self) -> bool {
        let moves = self.snake.moves;
        let fruits = self.snake.fruits;
        if self.over {
            fruits.len() >= 1 && rebuilt(moves, fruits, moves.len()) == (
                self.snake.body.drop_last(),
                (fruits.len() - 1) as nat,
            )
        } else {
            &&& rebuilt(moves, fruits, moves.len()) == (self.snake.body, fruits.len())
            &&& rebuilt(moves, fruits.push(self.fruit.pos), moves.len()) == (
                self.snake.body,
                fruits.len(),
            )
        }
    }

    /// A game at its start.
    pub open spec fn initial(name: Seq<char>) -> GameView {
        GameView {
            snake: SnakeView::initial(name),
            fruit: Fruit { pos: Cell { row: 10, col: 16 }, value: FIRST_VALUE },
            over: false,
        }
    }

    /// The game after a request to head towards `requested`. A finished game
    /// takes no requests.
    pub open spec fn turn(self, requested: Direction) -> GameView {
        if self.over {
            self
        } else {
            GameView { snake: self.snake.turn(requested), ..self }
        }
    }

    /// What the next tick will do.
    pub open spec fn outcome(self) -> TickOutcome {
        if self.over {
            TickOutcome::Idle
        } else if self.snake.collides() {
            TickOutcome::Collided
        } else if self.snake.next_head() == self.fruit.pos {
            TickOutcome::Ate
        } else {
            TickOutcome::Moved
        }
    }

    /// The game after a tick on which the snake ran into itself: the move is
    /// carried out and logged, the fruit still lying on the grid is logged as
    /// well, and the game is over.
    pub open spec fn collided(self) -> GameView {
        GameView {
            snake: self.snake.advance().record_fruit(self.fruit.pos),
            fruit: self.fruit,
            over: true,
        }
    }

    /// The game after a tick on which the snake moved on without eating: the
    /// head moves ahead and the tail follows.
    pub open spec fn moved(self) -> GameView {
        GameView { snake: self.snake.advance().drop_tail(), ..self }
    }

    /// The snake after a tick on which it ate: the head moves onto the fruit,
    /// the tail stays, the fruit's value is scored and its place logged.
    pub open spec fn fed_snake(self) -> SnakeView {
        self.snake.advance().score(self.fruit.value as nat).record_fruit(self.fruit.pos)
    }

    /// Whether `after` is a game that a tick may leave behind. All of it is
    /// settled by the game before the tick, but for the place of the next
    /// fruit after the snake ate: that is some free cell.
    pub open spec fn leads_to(self, after: GameView) -> bool {
        match self.outcome() {
            TickOutcome::Idle => after == self,
            TickOutcome::Collided => after == self.collided(),
            TickOutcome::Moved => after == self.moved(),
            TickOutcome::Ate => {
                &&& after.snake == self.fed_snake()
                &&& !after.over
                &&& is_free(after.fruit.pos, after.snake.body)
                &&& after.fruit.value == leveled(self.fruit.value as nat, after.snake.score)
            },
        }
    }

    /// Whether the next tick can be carried out: should the snake eat, the
    /// new score must fit the machine's integers and the grown snake must
    /// leave a cell for the next fruit.
    pub open spec fn can_tick(self) -> bool {
        self.outcome() == TickOutcome::Ate ==> {
            &&& self.snake.score + self.fruit.value <= usize::MAX
            &&& has_free_cell(self.snake.advance().body)
        }
    }
}

/// Both ways of reading the logs agree, after one more move, on what the
/// first moves rebuilt.
proof fn lemma_earlier_moves_stand(g: GameView, fruits: Seq<Cell>)
    requires
        g.wf(),
        !g.over,
        fruits == g.snake.fruits || fruits == g.snake.fruits.push(g.fruit.pos),
    ensures
        rebuilt(g.snake.advance().moves, fruits, g.snake.moves.len()) == (
            g.snake.body,
            g.snake.fruits.len(),
        ),
        rebuilt(
            g.snake.advance().moves,
            g.snake.fruits.push(g.fruit.pos).push(g.snake.next_head()),
            g.snake.moves.len(),
        ) == (g.snake.body, g.snake.fruits.len()),
{
    let moves = g.snake.moves;
    let longer = g.snake.advance().moves;
    let pending = g.snake.fruits.push(g.fruit.pos);
    lemma_rebuilt_from_prefix(moves, fruits, longer, fruits, moves.len());
    lemma_rebuilt_from_prefix(
        moves,
        pending,
        longer,
        pending.push(g.snake.next_head()),
        moves.len(),
    );
}

/// A move without eating keeps the logs telling the body.
proof fn lemma_moved_is_recorded(g: GameView)
    requires
        g.wf(),
        g.outcome() == TickOutcome::Moved,
    ensures
        g.moved().recorded(),
{
    lemma_earlier_moves_stand(g, g.snake.fruits);
    lemma_earlier_moves_stand(g, g.snake.fruits.push(g.fruit.pos));
    let after = g.moved().snake.body;
    assert(after =~= seq![g.snake.next_head()] + g.snake.body.drop_last());
}

/// A move that ends the game leaves logs that tell the body up to its last
/// cell.
proof fn lemma_collided_is_recorded(g: GameView)
    requires
        g.wf(),
        g.outcome() == TickOutcome::Collided,
    ensures
        g.collided().recorded(),
{
    lemma_earlier_moves_stand(g, g.snake.fruits.push(g.fruit.pos));
    let after = g.collided().snake.body;
    assert(after.drop_last() =~= seq![g.snake.next_head()] + g.snake.body.drop_last());
}

/// A move onto the fruit keeps the logs telling the body, wherever the next
/// fruit is put.
proof fn lemma_fed_is_recorded(g: GameView, after: GameView)
    requires
        g.wf(),
        g.outcome() == TickOutcome::Ate,
        after.snake == g.fed_snake(),
        !after.over,
    ensures
        after.recorded(),
{
    let eaten = g.snake.fruits.push(g.fruit.pos);
    lemma_earlier_moves_stand(g, eaten);
    let moves = g.snake.moves;
    let longer = g.snake.advance().moves;
    lemma_rebuilt_from_prefix(moves, eaten, longer, eaten.push(after.fruit.pos), moves.len());
}

/// While a game runs, a playback of its record, as it stands, ends with the
/// snake's body.
pub proof fn lemma_record_rebuilds_body(g: GameView)
    requires
        g.wf(),
        !g.over,
    ensures
        ReplayView::begin(g.snake.snapshot().moves, g.snake.snapshot().fruits).start().after(
            g.snake.moves.len(),
        ).body == g.snake.body,
{
    lemma_playback_rebuilds(g.snake.moves, g.snake.fruits, g.snake.moves.len());
}

/// A playback of the record of a finished game ends with the body the snake
/// had when it collided, the tail having followed the head: it is the snake's
/// last body without the cell at its end.
pub proof fn lemma_final_record_rebuilds_body(g: GameView)
    requires
        g.wf(),
        g.over,
    ensures
        ReplayView::begin(g.snake.snapshot().moves, g.snake.snapshot().fruits).start().after(
            g.snake.moves.len(),
        ).body == g.snake.body.drop_last(),
{
    lemma_playback_rebuilds(g.snake.moves, g.snake.fruits, g.snake.moves.len());
}

impl View for Game {
    type V = GameView;

    closed spec fn view(&self) -> GameView {
        GameView { snake: self.snake@, fruit: self.fruit, over: self.over }
    }
}

fn body_with_head(snake: &Snake, head: Cell) -> (cells: VecDeque<Cell>)
    ensures
        cells@ == seq![head] + snake@.body,
{
    let body = snake.cells();
    let mut cells: VecDeque<Cell> = VecDeque::new();
    cells.push_back(head);
    let mut i: usize = 0;
    while i < body.len()
        invariant
            i <= body.len(),
            cells@ == seq![head] + body@.take(i as int),
        decreases body.len() - i,
    {
        cells.push_back(body[i]);
        assert(seq![head] + body@.take(i + 1) =~= (seq![head] + body@.take(i as int)).push(
            body@[i as int],
        ));
        i += 1;
    }
    assert(body@.take(body.len() as int) =~= body@);
    cells
}

impl Game {
    /// A game at its start, played by `name`.
    pub fn new(name: String) -> (game: Game)
        ensures
            game@ == GameView::initial(name@),
            game@.wf(),
    {
        let game = Game { snake: Snake::new(name), fruit: Fruit::new(), over: false };
        proof {
            let body = game@.snake.body;
            let pos = game@.fruit.pos;
            assert forall|i: int| 0 <= i < body.len() implies body[i] != pos by {}
        }
        game
    }

    /// Asks the snake to head towards `requested`; see [`Snake::turn`]. A
    /// finished game takes no requests.
    pub fn turn(&mut self, requested: Direction)
        ensures
            final(self)@ == old(self)@.turn(requested),
            old(self)@.wf() ==> final(self)@.wf(),
    {
        if !self.over {
            self.snake.turn(requested);
        }
    }

    /// Whether the next tick can be carried out; see [`GameView::can_tick`].
    pub fn can_tick(&self) -> (ok: bool)
        requires
            self@.wf(),
        ensures
            ok == self@.can_tick(),
    {
        if self.over {
            return true;
        }
        let next = step(self.snake.head(), self.snake.direction(), GRID_SIZE);
        if self.snake.occupies(next) || next != self.fruit.pos {
            return true;
        }
        match self.snake.points().checked_add(self.fruit.value) {
            None => false,
            Some(_) => {
                if self.snake.len() < GRID_SIZE * GRID_SIZE - 1 {
                    proof {
                        lemma_short_list_leaves_room(self@.snake.advance().body);
                    }
                    true
                } else {
                    let grown = body_with_head(&self.snake, next);
                    first_free_cell(&grown).is_some()
                }
            },
        }
    }

    /// Carries out one tick.
    ///
    /// The snake moves one cell. If it runs into itself the game is over, and
    /// the fruit's place is logged so that the record shows it. If it reaches
    /// the fruit it eats it and keeps its tail: see [`eat_fruit`]. Otherwise
    /// the tail follows the head. A finished game stays as it is.
    pub fn tick(&mut self) -> (outcome: TickOutcome)
        requires
            old(self)@.wf(),
            old(self)@.can_tick(),
        ensures
            outcome == old(self)@.outcome(),
            old(self)@.leads_to(final(self)@),
            final(self)@.wf(),
    {
        if self.over {
            return TickOutcome::Idle;
        }
        proof {
            lemma_wf_is_kept(self@.snake, self@.snake.direction, 0, self@.fruit.pos);
        }
        let ghost game = self@;
        let ghost before = self@.snake;
        match self.snake.advance() {
            Outcome::Collided => {
                self.snake.record_fruit(self.fruit.pos);
                self.over = true;
                proof {
                    lemma_collided_is_recorded(game);
                }
                TickOutcome::Collided
            },
            Outcome::Continuing => {
                if self.snake.head() == self.fruit.pos {
                    eat_fruit(&mut self.snake, &mut self.fruit);
                    proof {
                        lemma_fed_is_recorded(game, self@);
                    }
                    TickOutcome::Ate
                } else {
                    self.snake.drop_tail();
                    proof {
                        lemma_moved_is_recorded(game);
                        let after = self@.snake.body;
                        let pos = self@.fruit.pos;
                        assert forall|i: int| 0 <= i < after.len() implies after[i] != pos by {
                            if i > 0 {
                                assert(after[i] == before.body[i - 1]);
                            }
                        }
                    }
                    TickOutcome::Moved
                }
            },
        }
    }

    /// The snake.
    pub fn snake(&self) -> (snake: &Snake)
        ensures
            snake@ == self@.snake,
    {
        &self.snake
    }

    /// The fruit.
    pub fn fruit(&self) -> (fruit: Fruit)
        ensures
            fruit == self@.fruit,
    {
        self.fruit
    }

    /// Whether the game is over.
    pub fn is_over(&self) -> (over: bool)
        ensures
            over == self@.over,
    {
        self.over
    }

    /// The record of the game as it stands; see [`Snake::snapshot`].
    pub fn snapshot(&self) -> (r: ScoreRecord)
        ensures
            r@ == self@.snake.snapshot(),
    {
        self.snake.snapshot()
    }
}

} // verus!
