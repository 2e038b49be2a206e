//! Which screen is shown, and what leads from one screen to another.

use vstd::prelude::*;
use crate::game::TickOutcome;
use crate::menu::{MenuAction, ScoreMenuAction};
use crate::replay::ReplayState;

verus! {

/// The screens of the program. `Closed` stands for the program having been
/// left.
#[derive(Clone, Copy, Debug, PartialEq, Eq, Structural)]
pub enum Screen {
    Menu,
    Playing,
    Paused,
    HighscoreBrowse,
    Replay,
    GameOver,
    Closed,
}

/// What a screen is told: what its menu asked for, which key was pressed, or
/// what a tick did.
#[derive(Clone, Copy, Debug, PartialEq, Eq, Structural)]
pub enum Signal {
    Menu(MenuAction),
    Scores(ScoreMenuAction),
    Confirm,
    Cancel,
    Ticked(TickOutcome),
    Replayed(ReplayState),
}

/// The screen that follows `screen` on `signal`.
///
/// From the menu a game is started, the high scores are opened or the program
/// is left. From the high scores a playback is opened or the menu is returned
/// to. A playback is left by cancelling it or when it has ended. A game is
/// paused by a cancel and resumed by a confirm; it is over when the snake has
/// collided, and a confirm then leads back to the menu. Anything else leaves
/// the screen as it is.
pub open spec fn next_screen(screen: Screen, signal: Signal) -> Screen {
    match (screen, signal) {
        (Screen::Menu, Signal::Menu(MenuAction::Start)) => Screen::Playing,
        (Screen::Menu, Signal::Menu(MenuAction::OpenHighscores)) => Screen::HighscoreBrowse,
        (Screen::Menu, Signal::Menu(MenuAction::Quit)) => Screen::Closed,
        (Screen::HighscoreBrowse, Signal::Scores(ScoreMenuAction::Replay(_))) => Screen::Replay,
        (Screen::HighscoreBrowse, Signal::Scores(ScoreMenuAction::Return)) => Screen::Menu,
        (Screen::Replay, Signal::Cancel) => Screen::HighscoreBrowse,
        (Screen::Replay, Signal::Replayed(ReplayState::Ended)) => Screen::HighscoreBrowse,
        (Screen::Playing, Signal::Cancel) => Screen::Paused,
        (Screen::Playing, Signal::Ticked(TickOutcome::Collided)) => Screen::GameOver,
        (Screen::Paused, Signal::Confirm) => Screen::Playing,
        (Screen::GameOver, Signal::Confirm) => Screen::Menu,
        _ => screen,
    }
}

/// Whether the game is ticked and steered: only while it is being played and
/// the high scores are not held over it.
pub open spec fn game_runs(screen: Screen, scores_shown: bool) -> bool {
    screen == Screen::Playing && !scores_shown
}

impl Screen {
    /// The screen that follows this one on `signal`.
    pub fn next(self, signal: Signal) -> (screen: Screen)
        ensures
            screen == next_screen(self, signal),
    {
        match self {
            Screen::Menu => match signal {
                Signal::Menu(MenuAction::Start) => Screen::Playing,
                Signal::Menu(MenuAction::OpenHighscores) => Screen::HighscoreBrowse,
                Signal::Menu(MenuAction::Quit) => Screen::Closed,
                _ => self,
            },
            Screen::HighscoreBrowse => match signal {
                Signal::Scores(ScoreMenuAction::Replay(_)) => Screen::Replay,
                Signal::Scores(ScoreMenuAction::Return) => Screen::Menu,
                _ => self,
            },
            Screen::Replay => match signal {
                Signal::Cancel => Screen::HighscoreBrowse,
                Signal::Replayed(ReplayState::Ended) => Screen::HighscoreBrowse,
                _ => self,
            },
            Screen::Playing => match signal {
                Signal::Cancel => Screen::Paused,
                Signal::Ticked(TickOutcome::Collided) => Screen::GameOver,
                _ => self,
            },
            Screen::Paused => match signal {
                Signal::Confirm => Screen::Playing,
                _ => self,
            },
            Screen::GameOver => match signal {
                Signal::Confirm => Screen::Menu,
                _ => self,
            },
            Screen::Closed => self,
        }
    }

    /// Whether the game is ticked and steered on this screen while the high
    /// scores are, or are not, held over it.
    pub fn runs_game(self, scores_shown: bool) -> (runs: bool)
        ensures
            runs == game_runs(self, scores_shown),
    {
        self == Screen::Playing && !scores_shown
    }
}

/// Once the program has been left, no signal brings a screen back, and it is
/// only ever left from the menu.
pub proof fn lemma_closed_is_final(screen: Screen, signal: Signal)
    ensures
        next_screen(Screen::Closed, signal) == Screen::Closed,
        next_screen(screen, signal) == Screen::Closed ==> screen == Screen::Menu || screen
            == Screen::Closed,
{
}

/// A game is entered from the menu or resumed from a pause, and in no other
/// way.
pub proof fn lemma_game_is_entered_from_menu_or_pause(screen: Screen, signal: Signal)
    requires
        next_screen(screen, signal) == Screen::Playing,
    ensures
        screen == Screen::Menu || screen == Screen::Paused || screen == Screen::Playing,
{
}

} // verus!
