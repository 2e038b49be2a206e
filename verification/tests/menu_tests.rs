use snake_game::clock::{Pacer, TICK_MILLIS};
use snake_game::game::TickOutcome;
use snake_game::menu::{
    width_of, MainMenu, MenuAction, MenuInput, ScoreMenu, ScoreMenuAction, NAME_LIMIT,
};
use snake_game::replay::ReplayState;
use snake_game::screen::{Screen, Signal};

fn type_text(menu: &mut MainMenu, text: &str) {
    for c in text.chars() {
        assert_eq!(menu.handle(MenuInput::Character(c)), MenuAction::Stay);
    }
}

#[test]
fn main_menu_opens_on_the_name_field() {
    let menu = MainMenu::new(false);
    assert_eq!(menu.active(), 0);
    assert_eq!(menu.name(), "");
}

#[test]
fn main_menu_cursor_goes_round() {
    let mut menu = MainMenu::new(false);
    menu.handle(MenuInput::Down);
    assert_eq!(menu.active(), 1);
    menu.handle(MenuInput::Down);
    assert_eq!(menu.active(), 2);
    menu.handle(MenuInput::Down);
    assert_eq!(menu.active(), 0);
    menu.handle(MenuInput::Up);
    assert_eq!(menu.active(), 2);
    menu.handle(MenuInput::Up);
    assert_eq!(menu.active(), 1);
}

#[test]
fn main_menu_confirm_asks_for_the_entry_under_the_cursor() {
    let mut menu = MainMenu::new(false);
    assert_eq!(menu.handle(MenuInput::Confirm), MenuAction::Start);
    menu.handle(MenuInput::Down);
    assert_eq!(menu.handle(MenuInput::Confirm), MenuAction::OpenHighscores);
    menu.handle(MenuInput::Down);
    assert_eq!(menu.handle(MenuInput::Confirm), MenuAction::Quit);
}

#[test]
fn main_menu_cancel_quits() {
    let mut menu = MainMenu::new(false);
    assert_eq!(menu.handle(MenuInput::Cancel), MenuAction::Quit);
}

#[test]
fn main_menu_confirm_is_blocked_until_the_key_is_released() {
    let mut menu = MainMenu::new(true);
    assert_eq!(menu.handle(MenuInput::Confirm), MenuAction::Stay);
    assert_eq!(menu.handle(MenuInput::ConfirmReleased), MenuAction::Stay);
    assert_eq!(menu.handle(MenuInput::Confirm), MenuAction::Start);
}

#[test]
fn main_menu_takes_letters_for_the_name() {
    let mut menu = MainMenu::new(false);
    type_text(&mut menu, "Ann");
    assert_eq!(menu.name(), "Ann");
}

#[test]
fn main_menu_takes_no_digits_or_signs() {
    let mut menu = MainMenu::new(false);
    type_text(&mut menu, "A1n-n 2!");
    assert_eq!(menu.name(), "Ann");
}

#[test]
fn main_menu_name_stops_at_eleven_bytes() {
    assert_eq!(NAME_LIMIT, 11);
    let mut menu = MainMenu::new(false);
    type_text(&mut menu, "abcdefghijklmnop");
    assert_eq!(menu.name(), "abcdefghijk");
}

#[test]
fn main_menu_name_counts_bytes_not_letters() {
    let mut menu = MainMenu::new(false);
    // six letters of two bytes each: the sixth is taken at ten bytes, then no more
    type_text(&mut menu, "éééééééé");
    assert_eq!(menu.name(), "éééééé");
    assert_eq!(menu.name().len(), 12);
}

#[test]
fn main_menu_type_char_goes_by_what_it_is_told() {
    let mut menu = MainMenu::new(false);
    menu.type_char('7', true);
    menu.type_char('x', false);
    assert_eq!(menu.name(), "7");
}

#[test]
fn main_menu_backspace_rubs_out_the_last_letter() {
    let mut menu = MainMenu::new(false);
    type_text(&mut menu, "Anné");
    menu.handle(MenuInput::Backspace);
    assert_eq!(menu.name(), "Ann");
    menu.handle(MenuInput::Backspace);
    menu.handle(MenuInput::Backspace);
    menu.handle(MenuInput::Backspace);
    menu.handle(MenuInput::Backspace);
    assert_eq!(menu.name(), "");
    // room again for eleven bytes
    type_text(&mut menu, "abcdefghijklmnop");
    assert_eq!(menu.name(), "abcdefghijk");
}

#[test]
fn main_menu_types_only_on_the_name_field() {
    let mut menu = MainMenu::new(false);
    type_text(&mut menu, "An");
    menu.handle(MenuInput::Down);
    type_text(&mut menu, "xyz");
    menu.handle(MenuInput::Backspace);
    assert_eq!(menu.name(), "An");
    menu.handle(MenuInput::Up);
    type_text(&mut menu, "n");
    assert_eq!(menu.name(), "Ann");
}

#[test]
fn width_of_a_character_in_bytes() {
    for c in ['a', '\u{7f}', '\u{80}', 'é', '\u{7ff}', '\u{800}', '語', '\u{ffff}', '\u{10000}', '🐍'] {
        assert_eq!(width_of(c), c.len_utf8());
    }
}

#[test]
fn score_menu_cursor_goes_round_six_rows() {
    let mut menu = ScoreMenu::new(false);
    assert_eq!(menu.cursor, 0);
    menu.handle(MenuInput::Up, 5);
    assert_eq!(menu.cursor, 5);
    menu.handle(MenuInput::Down, 5);
    assert_eq!(menu.cursor, 0);
    for row in 1..=5 {
        menu.handle(MenuInput::Down, 5);
        assert_eq!(menu.cursor, row);
    }
    menu.handle(MenuInput::Down, 5);
    assert_eq!(menu.cursor, 0);
}

#[test]
fn score_menu_confirm_plays_the_record_under_the_cursor() {
    let mut menu = ScoreMenu::new(false);
    assert_eq!(menu.handle(MenuInput::Confirm, 5), ScoreMenuAction::Replay(0));
    menu.handle(MenuInput::Down, 5);
    menu.handle(MenuInput::Down, 5);
    assert_eq!(menu.handle(MenuInput::Confirm, 5), ScoreMenuAction::Replay(2));
}

#[test]
fn score_menu_confirm_on_the_last_row_returns() {
    let mut menu = ScoreMenu::new(false);
    menu.handle(MenuInput::Up, 5);
    assert_eq!(menu.handle(MenuInput::Confirm, 5), ScoreMenuAction::Return);
    assert_eq!(menu.handle(MenuInput::Confirm, 0), ScoreMenuAction::Return);
}

#[test]
fn score_menu_confirm_on_a_row_without_record_does_nothing() {
    let mut menu = ScoreMenu::new(false);
    menu.handle(MenuInput::Down, 2);
    menu.handle(MenuInput::Down, 2);
    assert_eq!(menu.handle(MenuInput::Confirm, 2), ScoreMenuAction::Stay);
}

#[test]
fn score_menu_confirm_is_blocked_until_the_key_is_released() {
    let mut menu = ScoreMenu::new(true);
    assert_eq!(menu.handle(MenuInput::Confirm, 5), ScoreMenuAction::Stay);
    menu.handle(MenuInput::ConfirmReleased, 5);
    assert_eq!(menu.handle(MenuInput::Confirm, 5), ScoreMenuAction::Replay(0));
}

#[test]
fn score_menu_ignores_the_other_keys() {
    let mut menu = ScoreMenu::new(false);
    for input in [MenuInput::Cancel, MenuInput::Backspace, MenuInput::Character('a')] {
        assert_eq!(menu.handle(input, 5), ScoreMenuAction::Stay);
        assert_eq!(menu, ScoreMenu { cursor: 0, confirm_blocked: false });
    }
}

#[test]
fn screens_follow_the_menu() {
    assert_eq!(Screen::Menu.next(Signal::Menu(MenuAction::Start)), Screen::Playing);
    assert_eq!(Screen::Menu.next(Signal::Menu(MenuAction::OpenHighscores)), Screen::HighscoreBrowse);
    assert_eq!(Screen::Menu.next(Signal::Menu(MenuAction::Quit)), Screen::Closed);
    assert_eq!(Screen::Menu.next(Signal::Menu(MenuAction::Stay)), Screen::Menu);
}

#[test]
fn screens_follow_the_high_scores() {
    let s = Screen::HighscoreBrowse;
    assert_eq!(s.next(Signal::Scores(ScoreMenuAction::Replay(3))), Screen::Replay);
    assert_eq!(s.next(Signal::Scores(ScoreMenuAction::Return)), Screen::Menu);
    assert_eq!(s.next(Signal::Scores(ScoreMenuAction::Stay)), s);
    assert_eq!(s.next(Signal::Cancel), s);
}

#[test]
fn screens_leave_a_replay_on_cancel_or_at_its_end() {
    assert_eq!(Screen::Replay.next(Signal::Cancel), Screen::HighscoreBrowse);
    assert_eq!(Screen::Replay.next(Signal::Replayed(ReplayState::Ended)), Screen::HighscoreBrowse);
    assert_eq!(Screen::Replay.next(Signal::Replayed(ReplayState::Playing)), Screen::Replay);
    assert_eq!(Screen::Replay.next(Signal::Confirm), Screen::Replay);
}

#[test]
fn screens_pause_resume_and_end_a_game() {
    assert_eq!(Screen::Playing.next(Signal::Cancel), Screen::Paused);
    assert_eq!(Screen::Paused.next(Signal::Confirm), Screen::Playing);
    assert_eq!(Screen::Paused.next(Signal::Cancel), Screen::Paused);
    assert_eq!(Screen::Playing.next(Signal::Ticked(TickOutcome::Moved)), Screen::Playing);
    assert_eq!(Screen::Playing.next(Signal::Ticked(TickOutcome::Ate)), Screen::Playing);
    assert_eq!(Screen::Playing.next(Signal::Ticked(TickOutcome::Collided)), Screen::GameOver);
    assert_eq!(Screen::GameOver.next(Signal::Confirm), Screen::Menu);
    assert_eq!(Screen::GameOver.next(Signal::Cancel), Screen::GameOver);
}

#[test]
fn screens_stay_closed() {
    for signal in [
        Signal::Confirm,
        Signal::Cancel,
        Signal::Menu(MenuAction::Start),
        Signal::Scores(ScoreMenuAction::Return),
        Signal::Ticked(TickOutcome::Moved),
        Signal::Replayed(ReplayState::Ended),
    ] {
        assert_eq!(Screen::Closed.next(signal), Screen::Closed);
    }
}

#[test]
fn the_game_runs_only_while_played_and_not_covered() {
    assert!(Screen::Playing.runs_game(false));
    assert!(!Screen::Playing.runs_game(true));
    assert!(!Screen::Paused.runs_game(false));
    assert!(!Screen::GameOver.runs_game(false));
    assert!(!Screen::Menu.runs_game(false));
}

#[test]
fn pacer_lets_a_tick_through_every_interval() {
    assert_eq!(TICK_MILLIS, 100);
    let mut pacer = Pacer::new(1000);
    assert!(!pacer.poll(1000));
    assert!(!pacer.poll(1099));
    assert!(pacer.poll(1100));
    assert_eq!(pacer.last, 1100);
    assert!(!pacer.poll(1150));
    assert_eq!(pacer.last, 1100);
    assert!(pacer.poll(1400));
    assert_eq!(pacer.last, 1400);
}

#[test]
fn pacer_waits_while_the_clock_is_behind() {
    let mut pacer = Pacer::new(1000);
    assert!(!pacer.poll(0));
    assert_eq!(pacer.last, 1000);
}
