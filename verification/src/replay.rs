//! Playback of a recorded game from its move log and its fruit log.

use std::collections::VecDeque;
use vstd::prelude::*;
use crate::grid::Cell;
use crate::record::{copy_cells, ScoreRecord};
use crate::snake::initial_body;

verus! {

/// Where a playback stands.
#[derive(Clone, Copy, Debug, PartialEq, Eq, Structural)]
pub enum ReplayState {
    /// Made, not yet set going.
    AwaitingStart,
    /// Each tick shows the next move.
    Playing,
    /// Halted in the middle; ticks change nothing.
    Paused,
    /// Every move has been shown.
    Ended,
}

/// The playback of one recorded game.
pub struct Replay {
    moves: Vec<Cell>,
    fruits: Vec<Cell>,
    next_move: usize,
    next_fruit: usize,
    body: VecDeque<Cell>,
    state: ReplayState,
}

/// The mathematical content of a [`Replay`]: the two logs, how far each has
/// been read, the body as rebuilt so far (head first), and the state.
#[verifier::ext_equal]
pub struct ReplayView {
    pub moves: Seq<Cell>,
    pub fruits: Seq<Cell>,
    pub next_move: nat,
    pub next_fruit: nat,
    pub body: Seq<Cell>,
    pub state: ReplayState,
}

/// `body` without its last cell; an empty body stays empty.
pub open spec fn shrunk(body: Seq<Cell>) -> Seq<Cell> {
    if body.len() > 0 {
        body.drop_last()
    } else {
        body
    }
}

/// What a playback of `moves` and `fruits` has rebuilt once its first `k`
/// moves are shown: the body, head first, and how many fruits are used up.
/// Each move becomes the head; where it lands on the next fruit not yet used
/// up the body keeps its tail, elsewhere it loses it.
pub open spec fn rebuilt(moves: Seq<Cell>, fruits: Seq<Cell>, k: nat) -> (Seq<Cell>, nat)
    decreases k,
{
    if k == 0 {
        (initial_body(), 0)
    } else {
        let (body, eaten) = rebuilt(moves, fruits, (k - 1) as nat);
        let head = moves[k - 1];
        if eaten < fruits.len() && fruits[eaten as int] == head {
            (seq![head] + body, eaten + 1)
        } else {
            (seq![head] + shrunk(body), eaten)
        }
    }
}

impl ReplayView {
    /// Neither log has been read past its end, and the playback has ended
    /// exactly when no move is left.
    pub open spec fn wf(self) -> bool {
        &&& self.next_move <= self.moves.len()
        &&& self.next_fruit <= self.fruits.len()
        &&& (self.state == ReplayState::Ended <==> self.next_move == self.moves.len())
    }

    /// A playback at its beginning: nothing read, the body a new snake's. With
    /// no move to show it has ended before it began.
    pub open spec fn begin(moves: Seq<Cell>, fruits: Seq<Cell>) -> ReplayView {
        ReplayView {
            moves,
            fruits,
            next_move: 0,
            next_fruit: 0,
            body: initial_body(),
            state: if moves.len() == 0 {
                ReplayState::Ended
            } else {
                ReplayState::AwaitingStart
            },
        }
    }

    /// The move to show next, if one is left.
    pub open spec fn peek_move(self) -> Option<Cell> {
        if self.next_move < self.moves.len() {
            Some(self.moves[self.next_move as int])
        } else {
            None
        }
    }

    /// The fruit to be eaten next, if one is left.
    pub open spec fn peek_fruit(self) -> Option<Cell> {
        if self.next_fruit < self.fruits.len() {
            Some(self.fruits[self.next_fruit as int])
        } else {
            None
        }
    }

    /// Whether the next move lands on the next fruit. A fruit log read to its
    /// end matches no move.
    pub open spec fn grows(self) -> bool {
        self.peek_move() is Some && self.peek_move() == self.peek_fruit()
    }

    /// The playback after the next move was shown. Where the move lands on
    /// the next fruit, that fruit is used up and the body keeps its tail;
    /// elsewhere the body loses its tail. The move becomes the head, and the
    /// playback ends with the last move.
    pub open spec fn shown(self) -> ReplayView {
        let head = self.moves[self.next_move as int];
        ReplayView {
            moves: self.moves,
            fruits: self.fruits,
            next_move: self.next_move + 1,
            next_fruit: if self.grows() {
                self.next_fruit + 1
            } else {
                self.next_fruit
            },
            body: seq![head] + (if self.grows() {
                self.body
            } else {
                shrunk(self.body)
            }),
            state: if self.next_move + 1 == self.moves.len() {
                ReplayState::Ended
            } else {
                self.state
            },
        }
    }

    /// The playback after a tick: the next move is shown while it is playing,
    /// and nothing changes in any other state.
    pub open spec fn tick(self) -> ReplayView {
        if self.state == ReplayState::Playing && self.next_move < self.moves.len() {
            self.shown()
        } else {
            self
        }
    }

    /// The playback after `k` ticks.
    pub open spec fn after(self, k: nat) -> ReplayView
        decreases k,
    {
        if k == 0 {
            self
        } else {
            self.after((k - 1) as nat).tick()
        }
    }

    /// Sets a playback that awaits its start going.
    pub open spec fn start(self) -> ReplayView {
        if self.state == ReplayState::AwaitingStart {
            ReplayView { state: ReplayState::Playing, ..self }
        } else {
            self
        }
    }

    /// Halts a playback that is playing, and sets a halted one going again.
    pub open spec fn toggle_pause(self) -> ReplayView {
        match self.state {
            ReplayState::Playing => ReplayView { state: ReplayState::Paused, ..self },
            ReplayState::Paused => ReplayView { state: ReplayState::Playing, ..self },
            _ => self,
        }
    }

    /// The playback of the same logs at its beginning.
    pub open spec fn restart(self) -> ReplayView {
        ReplayView::begin(self.moves, self.fruits)
    }
}

impl View for Replay {
    type V = ReplayView;

    closed spec fn view(&self) -> ReplayView {
        ReplayView {
            moves: self.moves@,
            fruits: self.fruits@,
            next_move: self.next_move as nat,
            next_fruit: self.next_fruit as nat,
            body: self.body@,
            state: self.state,
        }
    }
}

fn starting_body() -> (body: VecDeque<Cell>)
    ensures
        body@ == initial_body(),
{
    let mut body: VecDeque<Cell> = VecDeque::new();
    body.push_back(Cell { row: 28, col: 16 });
    body.push_back(Cell { row: 29, col: 16 });
    body.push_back(Cell { row: 30, col: 16 });
    assert(body@ =~= initial_body());
    body
}

impl Replay {
    /// The playback of `record`, at its beginning.
    pub fn new(record: &ScoreRecord) -> (replay: Replay)
        ensures
            replay@ == ReplayView::begin(record@.moves, record@.fruits),
            replay@.wf(),
    {
        let moves = copy_cells(&record.moves);
        let fruits = copy_cells(&record.fruits);
        let state = if moves.len() == 0 {
            ReplayState::Ended
        } else {
            ReplayState::AwaitingStart
        };
        Replay { moves, fruits, next_move: 0, next_fruit: 0, body: starting_body(), state }
    }

    /// Sets the playback going if it awaits its start.
    pub fn start(&mut self)
        ensures
            final(self)@ == old(self)@.start(),
    {
        if self.state == ReplayState::AwaitingStart {
            self.state = ReplayState::Playing;
        }
    }

    /// Halts the playback if it is playing, sets it going again if it is
    /// halted.
    pub fn toggle_pause(&mut self)
        ensures
            final(self)@ == old(self)@.toggle_pause(),
    {
        match self.state {
            ReplayState::Playing => {
                self.state = ReplayState::Paused;
            },
            ReplayState::Paused => {
                self.state = ReplayState::Playing;
            },
            _ => {},
        }
    }

    /// Goes back to the beginning of the same logs.
    pub fn restart(&mut self)
        ensures
            final(self)@ == old(self)@.restart(),
            final(self)@.wf(),
    {
        self.next_move = 0;
        self.next_fruit = 0;
        self.body = starting_body();
        self.state = if self.moves.len() == 0 {
            ReplayState::Ended
        } else {
            ReplayState::AwaitingStart
        };
    }

    /// One tick of the playback: while it is playing, the next move is shown.
    /// Returns the state after the tick.
    pub fn tick(&mut self) -> (state: ReplayState)
        ensures
            final(self)@ == old(self)@.tick(),
            old(self)@.wf() ==> final(self)@.wf(),
            state == final(self)@.state,
    {
        if self.state == ReplayState::Playing && self.next_move < self.moves.len() {
            let head = self.moves[self.next_move];
            let grows = self.next_fruit < self.fruits.len() && self.fruits[self.next_fruit] == head;
            if grows {
                self.next_fruit = self.next_fruit + 1;
            } else {
                self.body.pop_back();
            }
            self.body.push_front(head);
            self.next_move = self.next_move + 1;
            if self.next_move == self.moves.len() {
                self.state = ReplayState::Ended;
            }
        }
        self.state
    }

    /// Where the playback stands.
    pub fn state(&self) -> (state: ReplayState)
        ensures
            state == self@.state,
    {
        self.state
    }

    /// The body as rebuilt so far, head first.
    pub fn body(&self) -> (cells: Vec<Cell>)
        ensures
            cells@ == self@.body,
    {
        let mut cells: Vec<Cell> = Vec::new();
        let mut i: usize = 0;
        while i < self.body.len()
            invariant
                i <= self.body.len(),
                cells@ == self.body@.take(i as int),
            decreases self.body.len() - i,
        {
            cells.push(self.body[i]);
            assert(self.body@.take(i as int).push(self.body@[i as int]) =~= self.body@.take(i + 1));
            i += 1;
        }
        assert(self.body@.take(self.body.len() as int) =~= self.body@);
        cells
    }

    /// The fruit to be eaten next, if one is left.
    pub fn upcoming_fruit(&self) -> (fruit: Option<Cell>)
        ensures
            fruit == self@.peek_fruit(),
    {
        if self.next_fruit < self.fruits.len() {
            Some(self.fruits[self.next_fruit])
        } else {
            None
        }
    }

    /// The move to be shown next, if one is left.
    pub fn upcoming_move(&self) -> (cell: Option<Cell>)
        ensures
            cell == self@.peek_move(),
    {
        if self.next_move < self.moves.len() {
            Some(self.moves[self.next_move])
        } else {
            None
        }
    }

    /// How many moves have been shown.
    pub fn moves_shown(&self) -> (n: usize)
        ensures
            n == self@.next_move,
    {
        self.next_move
    }
}

/// Starting, halting, ticking and restarting keep a playback in order.
pub proof fn lemma_wf_is_kept(v: ReplayView)
    requires
        v.wf(),
    ensures
        v.start().wf(),
        v.toggle_pause().wf(),
        v.tick().wf(),
        v.restart().wf(),
{
}

/// A tick of a playing playback shows exactly one move. The body grows by
/// one cell where that move used up a fruit and keeps its length elsewhere.
pub proof fn lemma_tick_shows_one_move(v: ReplayView)
    requires
        v.wf(),
        v.state == ReplayState::Playing,
        v.body.len() >= 1,
    ensures
        v.tick().next_move == v.next_move + 1,
        v.tick().body[0] == v.moves[v.next_move as int],
        v.grows() ==> v.tick().next_fruit == v.next_fruit + 1 && v.tick().body.len()
            == v.body.len() + 1,
        !v.grows() ==> v.tick().next_fruit == v.next_fruit && v.tick().body.len()
            == v.body.len(),
{
}

/// A playing playback shows one move per tick until none is left: after `k`
/// ticks it has shown `k` more moves, or all of them, and it has ended exactly
/// when it has shown all. The logs stay as they are.
pub proof fn lemma_playback_progress(v: ReplayView, k: nat)
    requires
        v.wf(),
        v.state == ReplayState::Playing,
    ensures
        v.after(k).wf(),
        v.after(k).moves == v.moves,
        v.after(k).fruits == v.fruits,
        v.after(k).next_move == if v.next_move + k <= v.moves.len() {
            v.next_move + k
        } else {
            v.moves.len()
        },
        v.after(k).state == if v.next_move + k < v.moves.len() {
            ReplayState::Playing
        } else {
            ReplayState::Ended
        },
    decreases k,
{
    if k > 0 {
        lemma_playback_progress(v, (k - 1) as nat);
    }
}

/// A playback set going at its beginning is playing for as many ticks as the
/// log has moves, less one, and has ended after exactly that many ticks.
pub proof fn lemma_playback_ends_with_last_move(moves: Seq<Cell>, fruits: Seq<Cell>, k: nat)
    requires
        moves.len() > 0,
    ensures
        k < moves.len() ==> ReplayView::begin(moves, fruits).start().after(k).state
            == ReplayState::Playing,
        k >= moves.len() ==> ReplayView::begin(moves, fruits).start().after(k).state
            == ReplayState::Ended,
        k >= moves.len() ==> ReplayView::begin(moves, fruits).start().after(k).next_move
            == moves.len(),
{
    lemma_playback_progress(ReplayView::begin(moves, fruits).start(), k);
}

/// What a playback shows is settled by the two logs and the number of ticks:
/// two playbacks of equal logs, both set going at the beginning, agree after
/// any number of ticks.
pub proof fn lemma_playback_is_determined(a: ReplayView, b: ReplayView, k: nat)
    requires
        a.moves == b.moves,
        a.fruits == b.fruits,
    ensures
        a.restart().start().after(k) == b.restart().start().after(k),
{
}

/// No more fruits are used up than moves are shown, nor more than there are,
/// and none comes back: the count never falls from one move to a later one.
pub proof fn lemma_rebuilt_counts(moves: Seq<Cell>, fruits: Seq<Cell>, j: nat, k: nat)
    requires
        j <= k,
    ensures
        rebuilt(moves, fruits, k).1 <= fruits.len(),
        rebuilt(moves, fruits, k).1 <= k,
        rebuilt(moves, fruits, j).1 <= rebuilt(moves, fruits, k).1,
        rebuilt(moves, fruits, k).0.len() >= 1,
    decreases k,
{
    if k > 0 {
        if j < k {
            lemma_rebuilt_counts(moves, fruits, j, (k - 1) as nat);
        } else {
            lemma_rebuilt_counts(moves, fruits, (k - 1) as nat, (k - 1) as nat);
        }
    }
}

/// What is rebuilt from the first `k` moves does not depend on what the logs
/// hold further on: two pairs of logs that agree in their first `k` moves
/// rebuild the same, if the one fruit log begins with the whole of the other
/// and the shorter one is not used up within these moves, or if the two fruit
/// logs are the same.
pub proof fn lemma_rebuilt_from_prefix(
    moves: Seq<Cell>,
    fruits: Seq<Cell>,
    longer_moves: Seq<Cell>,
    longer_fruits: Seq<Cell>,
    k: nat,
)
    requires
        k <= moves.len(),
        k <= longer_moves.len(),
        forall|j: int| 0 <= j < k ==> moves[j] == longer_moves[j],
        fruits.len() <= longer_fruits.len(),
        forall|i: int| 0 <= i < fruits.len() ==> fruits[i] == longer_fruits[i],
        fruits.len() == longer_fruits.len() || rebuilt(moves, fruits, k).1 < fruits.len(),
    ensures
        rebuilt(longer_moves, longer_fruits, k) == rebuilt(moves, fruits, k),
    decreases k,
{
    if k > 0 {
        lemma_rebuilt_counts(moves, fruits, (k - 1) as nat, k);
        lemma_rebuilt_from_prefix(moves, fruits, longer_moves, longer_fruits, (k - 1) as nat);
    }
}

/// A playback set going at its beginning has, after `k` ticks, rebuilt what
/// [`rebuilt`] says of the first `k` moves.
pub proof fn lemma_playback_rebuilds(moves: Seq<Cell>, fruits: Seq<Cell>, k: nat)
    requires
        k <= moves.len(),
    ensures
        ReplayView::begin(moves, fruits).start().after(k).body == rebuilt(moves, fruits, k).0,
        ReplayView::begin(moves, fruits).start().after(k).next_fruit == rebuilt(
            moves,
            fruits,
            k,
        ).1,
    decreases k,
{
    if k > 0 {
        let v = ReplayView::begin(moves, fruits).start();
        let j = (k - 1) as nat;
        lemma_playback_rebuilds(moves, fruits, j);
        lemma_playback_progress(v, j);
        lemma_rebuilt_counts(moves, fruits, j, j);
    }
}

/// Played from the beginning, the body is as long as a new snake's and one
/// cell more for every fruit used up.
pub proof fn lemma_playback_body_length(moves: Seq<Cell>, fruits: Seq<Cell>, k: nat)
    ensures
        ReplayView::begin(moves, fruits).start().after(k).body.len() == 3
            + ReplayView::begin(moves, fruits).start().after(k).next_fruit,
    decreases k,
{
    let v = ReplayView::begin(moves, fruits).start();
    if k > 0 {
        let j = (k - 1) as nat;
        lemma_playback_body_length(moves, fruits, j);
        if moves.len() > 0 {
            lemma_playback_progress(v, j);
            if v.after(j).state == ReplayState::Playing {
                lemma_tick_shows_one_move(v.after(j));
            }
        }
    }
}

} // verus!
