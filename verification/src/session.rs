//! The whole program between two frames: which screen is up, and what each
//! key and each reading of the clock does to it.

use vstd::prelude::*;
use crate::clock::{is_due, Pacer};
use crate::game::{Game, GameView, TickOutcome};
use crate::grid::Direction;
use crate::ledger::{inserted, ledger_wf, ScoreLedger};
use crate::menu::{MainMenu, MainMenuView, MenuAction, MenuInput, ScoreMenu, ScoreMenuAction};
use crate::record::{RecordView, ScoreRecord};
use crate::replay::{Replay, ReplayState, ReplayView};
use crate::screen::{game_runs, next_screen, Screen, Signal};

verus! {

/// What reaches the program from outside.
#[derive(Clone, Copy, Debug, PartialEq, Eq)]
pub enum Event {
    /// A key of the menus: moving, confirming, cancelling, typing.
    Key(MenuInput),
    /// A key that steers the snake.
    Steer(Direction),
    /// Whether the high scores are held over the game.
    Cover(bool),
    /// A look at the clock.
    Frame,
}

/// What the program has to do outside after an event.
#[derive(Clone, Copy, Debug, PartialEq, Eq, Structural)]
pub enum Effect {
    Nothing,
    /// A game has ended and its record was offered to the ledger: the
    /// ledger is to be stored.
    StoreLedger,
}

/// The program's state.
pub struct Session {
    screen: Screen,
    ledger: ScoreLedger,
    menu: MainMenu,
    score_menu: ScoreMenu,
    game: Game,
    replay: Replay,
    pacer: Pacer,
    covered: bool,
}

/// The mathematical content of a [`Session`].
#[verifier::ext_equal]
pub struct SessionView {
    pub screen: Screen,
    pub ledger: Seq<RecordView>,
    pub menu: MainMenuView,
    pub score_menu: ScoreMenu,
    pub game: GameView,
    pub replay: ReplayView,
    pub pacer: Pacer,
    pub covered: bool,
}

impl SessionView {
    /// Every part is in order.
    pub open spec fn wf(self) -> bool {
        &&& ledger_wf(self.ledger)
        &&& self.menu.wf()
        &&& self.score_menu.wf()
        &&& self.game.wf()
        &&& self.replay.wf()
    }

    /// The session as the program starts: the menu is up, no game has been
    /// played and nothing is being played back.
    pub open spec fn opened(ledger: Seq<RecordView>, confirm_held: bool, now: u64) -> SessionView {
        SessionView {
            screen: Screen::Menu,
            ledger,
            menu: MainMenuView::opened(confirm_held),
            score_menu: ScoreMenu { cursor: 0, confirm_blocked: false },
            game: GameView::initial(Seq::empty()),
            replay: ReplayView::begin(Seq::empty(), Seq::empty()),
            pacer: Pacer { last: now, interval: crate::clock::TICK_MILLIS },
            covered: false,
        }
    }

    /// The session after a key in the main menu. Starting a game sets up a
    /// new game under the name typed; opening the high scores puts their
    /// cursor on the first row, confirming blocked while the key is down.
    pub open spec fn after_menu_key(self, key: MenuInput) -> SessionView {
        let action = self.menu.action(key);
        SessionView {
            screen: next_screen(self.screen, Signal::Menu(action)),
            menu: self.menu.handle(key),
            game: if action == MenuAction::Start {
                GameView::initial(self.menu.name)
            } else {
                self.game
            },
            score_menu: if action == MenuAction::OpenHighscores {
                ScoreMenu { cursor: 0, confirm_blocked: true }
            } else {
                self.score_menu
            },
            ..self
        }
    }

    /// The session after a key in the high-score menu at time `now`. Choosing
    /// a record sets its playback going, the first move due one interval
    /// after `now`.
    pub open spec fn after_scores_key(self, key: MenuInput, now: u64) -> SessionView {
        let action = self.score_menu.action(key, self.ledger.len() as usize);
        SessionView {
            screen: next_screen(self.screen, Signal::Scores(action)),
            score_menu: self.score_menu.handled(key),
            replay: match action {
                ScoreMenuAction::Replay(rank) => ReplayView::begin(
                    self.ledger[rank as int].moves,
                    self.ledger[rank as int].fruits,
                ).start(),
                _ => self.replay,
            },
            pacer: match action {
                ScoreMenuAction::Replay(_) => Pacer { last: now, ..self.pacer },
                _ => self.pacer,
            },
            ..self
        }
    }

    /// The session after an event while a playback is shown. A cancel leaves
    /// it. A look at the clock leaves it too if it has ended, and shows the
    /// next move if that is due.
    pub open spec fn after_replay_event(self, event: Event, now: u64) -> SessionView {
        match event {
            Event::Key(MenuInput::Cancel) => SessionView {
                screen: next_screen(self.screen, Signal::Cancel),
                ..self
            },
            Event::Frame => if self.replay.state == ReplayState::Ended {
                SessionView {
                    screen: next_screen(self.screen, Signal::Replayed(ReplayState::Ended)),
                    ..self
                }
            } else if is_due(self.pacer.last, self.pacer.interval, now) {
                SessionView {
                    screen: next_screen(self.screen, Signal::Replayed(self.replay.tick().state)),
                    replay: self.replay.tick(),
                    pacer: Pacer { last: now, ..self.pacer },
                    ..self
                }
            } else {
                self
            },
            _ => self,
        }
    }

    /// Whether a tick of the game is due on `event` at time `now`.
    pub open spec fn ticks(self, event: Event, now: u64) -> bool {
        &&& event == Event::Frame
        &&& game_runs(self.screen, self.covered)
        &&& is_due(self.pacer.last, self.pacer.interval, now)
    }

    /// The session after an event on one of the screens of the game, a tick
    /// left aside. Holding the high scores over the game stops everything
    /// else. While the game runs a cancel pauses it and the snake is steered;
    /// a confirm resumes a paused game and leads from a finished one back to
    /// the menu, which opens anew with confirming blocked while the key is
    /// down.
    pub open spec fn after_game_event(self, event: Event) -> SessionView {
        match event {
            Event::Cover(held) => if self.screen == Screen::GameOver {
                self
            } else {
                SessionView { covered: held, ..self }
            },
            Event::Key(MenuInput::Cancel) => if game_runs(self.screen, self.covered) {
                SessionView { screen: next_screen(self.screen, Signal::Cancel), ..self }
            } else {
                self
            },
            Event::Key(MenuInput::Confirm) => if self.screen == Screen::GameOver {
                SessionView {
                    screen: next_screen(self.screen, Signal::Confirm),
                    menu: MainMenuView::opened(true),
                    covered: false,
                    ..self
                }
            } else if self.screen == Screen::Paused && !self.covered {
                SessionView { screen: next_screen(self.screen, Signal::Confirm), ..self }
            } else {
                self
            },
            Event::Steer(direction) => if game_runs(self.screen, self.covered) {
                SessionView { game: self.game.turn(direction), ..self }
            } else {
                self
            },
            _ => self,
        }
    }

    /// Whether `after` and `effect` are what a tick of the game at time `now`
    /// may leave behind: the game has gone on by one tick; if the snake
    /// collided, its record has been offered to the ledger, the ledger is to
    /// be stored and the game is over.
    pub open spec fn ticked(self, now: u64, after: SessionView, effect: Effect) -> bool {
        let collided = self.game.outcome() == TickOutcome::Collided;
        &&& self.game.leads_to(after.game)
        &&& after == SessionView {
            screen: next_screen(self.screen, Signal::Ticked(self.game.outcome())),
            game: after.game,
            ledger: if collided {
                inserted(self.ledger, after.game.snake.snapshot())
            } else {
                self.ledger
            },
            pacer: Pacer { last: now, ..self.pacer },
            ..self
        }
        &&& effect == if collided {
            Effect::StoreLedger
        } else {
            Effect::Nothing
        }
    }

    /// Whether `after` and `effect` are what `event` at time `now` may leave
    /// behind.
    pub open spec fn follows(
        self,
        event: Event,
        now: u64,
        after: SessionView,
        effect: Effect,
    ) -> bool {
        if self.ticks(event, now) {
            self.ticked(now, after, effect)
        } else {
            &&& effect == Effect::Nothing
            &&& after == match self.screen {
                Screen::Closed => self,
                Screen::Menu => match event {
                    Event::Key(key) => self.after_menu_key(key),
                    _ => self,
                },
                Screen::HighscoreBrowse => match event {
                    Event::Key(key) => self.after_scores_key(key, now),
                    _ => self,
                },
                Screen::Replay => self.after_replay_event(event, now),
                Screen::Playing | Screen::Paused | Screen::GameOver => self.after_game_event(event),
            }
        }
    }
}

/// The ledger changes only when a game ends: whatever else happens, and
/// however a screen is left, the ledger stays as it is and nothing is to be
/// stored.
pub proof fn lemma_ledger_changes_only_at_game_end(
    before: SessionView,
    event: Event,
    now: u64,
    after: SessionView,
    effect: Effect,
)
    requires
        before.follows(event, now, after, effect),
    ensures
        after.ledger != before.ledger || effect == Effect::StoreLedger ==> before.ticks(event, now)
            && before.game.outcome() == TickOutcome::Collided,
        effect == Effect::StoreLedger ==> after.ledger == inserted(
            before.ledger,
            after.game.snake.snapshot(),
        ) && after.screen == Screen::GameOver,
{
}

/// Once the program has been left, no event changes anything.
pub proof fn lemma_closed_session_is_final(
    before: SessionView,
    event: Event,
    now: u64,
    after: SessionView,
    effect: Effect,
)
    requires
        before.screen == Screen::Closed,
        before.follows(event, now, after, effect),
    ensures
        after == before,
        effect == Effect::Nothing,
{
}

/// A game is ticked and steered only while its screen is up and the high
/// scores are not held over it: on every other screen the game stays as it
/// is, unless a new one is started from the menu.
pub proof fn lemma_game_rests_off_screen(
    before: SessionView,
    event: Event,
    now: u64,
    after: SessionView,
    effect: Effect,
)
    requires
        before.follows(event, now, after, effect),
        !game_runs(before.screen, before.covered),
    ensures
        after.game == before.game || (before.screen == Screen::Menu && after.screen
            == Screen::Playing && after.game == GameView::initial(before.menu.name)),
{
}

impl View for Session {
    type V = SessionView;

    closed spec fn view(&self) -> SessionView {
        SessionView {
            screen: self.screen,
            ledger: self.ledger@,
            menu: self.menu@,
            score_menu: self.score_menu,
            game: self.game@,
            replay: self.replay@,
            pacer: self.pacer,
            covered: self.covered,
        }
    }
}

impl Session {
    /// What holds of the parts beyond their views.
    pub closed spec fn inv(&self) -> bool {
        self.menu.inv()
    }

    /// The session as the program starts, with the ledger as loaded.
    /// `confirm_held` tells whether the confirm key is down, `now` is the
    /// time.
    pub fn new(ledger: ScoreLedger, confirm_held: bool, now: u64) -> (session: Session)
        requires
            ledger_wf(ledger@),
        ensures
            session@ == SessionView::opened(ledger@, confirm_held, now),
            session@.wf(),
            session.inv(),
    {
        let nobody = ScoreRecord::new(String::new(), 0);
        Session {
            screen: Screen::Menu,
            ledger,
            menu: MainMenu::new(confirm_held),
            score_menu: ScoreMenu { cursor: 0, confirm_blocked: false },
            game: Game::new(String::new()),
            replay: Replay::new(&nobody),
            pacer: Pacer::new(now),
            covered: false,
        }
    }

    /// Whether the game can be ticked, should the next event ask for it: see
    /// [`Game::can_tick`].
    pub fn can_go_on(&self) -> (ok: bool)
        requires
            self@.wf(),
        ensures
            ok == self@.game.can_tick(),
    {
        self.game.can_tick()
    }

    fn menu_key(&mut self, key: MenuInput)
        requires
            old(self).inv(),
            old(self)@.wf(),
            old(self)@.screen == Screen::Menu,
        ensures
            final(self).inv(),
            final(self)@.wf(),
            final(self)@ == old(self)@.after_menu_key(key),
    {
        let action = self.menu.handle(key);
        match action {
            MenuAction::Start => {
                self.game = Game::new(self.menu.name());
            },
            MenuAction::OpenHighscores => {
                self.score_menu = ScoreMenu { cursor: 0, confirm_blocked: true };
            },
            _ => {},
        }
        self.screen = self.screen.next(Signal::Menu(action));
    }

    fn scores_key(&mut self, key: MenuInput, now: u64)
        requires
            old(self).inv(),
            old(self)@.wf(),
            old(self)@.screen == Screen::HighscoreBrowse,
        ensures
            final(self).inv(),
            final(self)@.wf(),
            final(self)@ == old(self)@.after_scores_key(key, now),
    {
        let action = self.score_menu.handle(key, self.ledger.len());
        match action {
            ScoreMenuAction::Replay(rank) => {
                match self.ledger.get(rank) {
                    Some(record) => {
                        let mut replay = Replay::new(record);
                        replay.start();
                        self.replay = replay;
                        self.pacer.last = now;
                    },
                    None => {},
                }
            },
            _ => {},
        }
        self.screen = self.screen.next(Signal::Scores(action));
    }

    fn replay_event(&mut self, event: Event, now: u64)
        requires
            old(self).inv(),
            old(self)@.wf(),
            old(self)@.screen == Screen::Replay,
        ensures
            final(self).inv(),
            final(self)@.wf(),
            final(self)@ == old(self)@.after_replay_event(event, now),
    {
        match event {
            Event::Key(MenuInput::Cancel) => {
                self.screen = self.screen.next(Signal::Cancel);
            },
            Event::Frame => {
                if self.replay.state() == ReplayState::Ended {
                    self.screen = self.screen.next(Signal::Replayed(ReplayState::Ended));
                } else if self.pacer.poll(now) {
                    let state = self.replay.tick();
                    self.screen = self.screen.next(Signal::Replayed(state));
                }
            },
            _ => {},
        }
    }

    fn game_event(&mut self, event: Event)
        requires
            old(self).inv(),
            old(self)@.wf(),
            old(self)@.screen == Screen::Playing || old(self)@.screen == Screen::Paused || old(
                self,
            )@.screen == Screen::GameOver,
        ensures
            final(self).inv(),
            final(self)@.wf(),
            final(self)@ == old(self)@.after_game_event(event),
    {
        let runs = self.screen.runs_game(self.covered);
        match event {
            Event::Cover(held) => {
                if self.screen != Screen::GameOver {
                    self.covered = held;
                }
            },
            Event::Key(MenuInput::Cancel) => {
                if runs {
                    self.screen = self.screen.next(Signal::Cancel);
                }
            },
            Event::Key(MenuInput::Confirm) => {
                if self.screen == Screen::GameOver {
                    self.menu = MainMenu::new(true);
                    self.covered = false;
                    self.screen = self.screen.next(Signal::Confirm);
                } else if self.screen == Screen::Paused && !self.covered {
                    self.screen = self.screen.next(Signal::Confirm);
                }
            },
            Event::Steer(direction) => {
                if runs {
                    self.game.turn(direction);
                }
            },
            _ => {},
        }
    }

    /// Takes one event at time `now` and tells what is to be done outside.
    ///
    /// While the game runs, a look at the clock carries out a tick of the
    /// game whenever one is due; a tick on which the snake collides offers
    /// the game's record to the ledger. Every other event goes to the screen
    /// that is up.
    pub fn handle(&mut self, event: Event, now: u64) -> (effect: Effect)
        requires
            old(self).inv(),
            old(self)@.wf(),
            old(self)@.ticks(event, now) ==> old(self)@.game.can_tick(),
        ensures
            final(self).inv(),
            final(self)@.wf(),
            old(self)@.follows(event, now, final(self)@, effect),
    {
        let frame = match event {
            Event::Frame => true,
            _ => false,
        };
        if frame && self.screen.runs_game(self.covered) {
            if self.pacer.poll(now) {
                let outcome = self.game.tick();
                let mut effect = Effect::Nothing;
                if outcome == TickOutcome::Collided {
                    self.ledger.insert(self.game.snapshot());
                    effect = Effect::StoreLedger;
                }
                self.screen = self.screen.next(Signal::Ticked(outcome));
                return effect;
            }
            return Effect::Nothing;
        }
        match self.screen {
            Screen::Closed => {},
            Screen::Menu => match event {
                Event::Key(key) => {
                    self.menu_key(key);
                },
                _ => {},
            },
            Screen::HighscoreBrowse => match event {
                Event::Key(key) => {
                    self.scores_key(key, now);
                },
                _ => {},
            },
            Screen::Replay => {
                self.replay_event(event, now);
            },
            Screen::Playing | Screen::Paused | Screen::GameOver => {
                self.game_event(event);
            },
        }
        Effect::Nothing
    }

    /// The screen that is up.
    pub fn screen(&self) -> (screen: Screen)
        ensures
            screen == self@.screen,
    {
        self.screen
    }

    /// The ledger.
    pub fn ledger(&self) -> (ledger: &ScoreLedger)
        ensures
            ledger@ == self@.ledger,
    {
        &self.ledger
    }

    /// The main menu.
    pub fn menu(&self) -> (menu: &MainMenu)
        ensures
            menu@ == self@.menu,
    {
        &self.menu
    }

    /// The high-score menu.
    pub fn score_menu(&self) -> (menu: ScoreMenu)
        ensures
            menu == self@.score_menu,
    {
        self.score_menu
    }

    /// The game last started.
    pub fn game(&self) -> (game: &Game)
        ensures
            game@ == self@.game,
    {
        &self.game
    }

    /// The playback last opened.
    pub fn replay(&self) -> (replay: &Replay)
        ensures
            replay@ == self@.replay,
    {
        &self.replay
    }

    /// Whether the high scores are held over the game.
    pub fn covered(&self) -> (covered: bool)
        ensures
            covered == self@.covered,
    {
        self.covered
    }
}

} // verus!
