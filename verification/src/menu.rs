//! The two menus: what the keys do to the cursor and to the name being typed.

use vstd::prelude::*;
use crate::ledger::CAPACITY;

verus! {

/// The longest a name may be, in bytes of UTF-8, before it takes no more
/// characters.
pub const NAME_LIMIT: usize = 11;

/// The entries of the main menu: the name field that starts a game, the
/// high scores, and quitting.
pub const MAIN_ENTRIES: usize = 3;

/// A key press or release as a menu sees it.
#[derive(Clone, Copy, Debug, PartialEq, Eq)]
pub enum MenuInput {
    Up,
    Down,
    Confirm,
    ConfirmReleased,
    Cancel,
    Backspace,
    Character(char),
}

/// What the main menu asks for.
#[derive(Clone, Copy, Debug, PartialEq, Eq, Structural)]
pub enum MenuAction {
    Stay,
    Start,
    OpenHighscores,
    Quit,
}

/// What the high-score menu asks for.
#[derive(Clone, Copy, Debug, PartialEq, Eq, Structural)]
pub enum ScoreMenuAction {
    Stay,
    /// Play back the record of this rank.
    Replay(usize),
    Return,
}

/// Whether `c` is alphabetic, as `char::is_alphabetic` tells.
pub uninterp spec fn is_alphabetic(c: char) -> bool;

/// `char::is_alphabetic`: whether `c` has the Unicode property Alphabetic.
#[verifier::external_body]
fn char_is_alphabetic(c: char) -> (b: bool)
    ensures
        b == is_alphabetic(c),
{
    c.is_alphabetic()
}

/// `String::push`: appends `c` to `s`.
#[verifier::external_body]
fn push_char(s: &mut String, c: char)
    ensures
        final(s)@ == old(s)@.push(c),
{
    s.push(c)
}

/// The number of bytes that `c` takes in UTF-8.
pub open spec fn char_width(c: char) -> nat {
    if (c as u32) < 0x80 {
        1
    } else if (c as u32) < 0x800 {
        2
    } else if (c as u32) < 0x1_0000 {
        3
    } else {
        4
    }
}

/// The number of bytes that `s` takes in UTF-8.
pub open spec fn byte_len(s: Seq<char>) -> nat
    decreases s.len(),
{
    if s.len() == 0 {
        0
    } else {
        byte_len(s.drop_last()) + char_width(s.last())
    }
}

/// The number of bytes that `c` takes in UTF-8.
pub fn width_of(c: char) -> (w: usize)
    ensures
        w == char_width(c),
{
    let code = c as u32;
    if code < 0x80 {
        1
    } else if code < 0x800 {
        2
    } else if code < 0x1_0000 {
        3
    } else {
        4
    }
}

/// The name after `c` was typed: `c` is taken if it is alphabetic and the
/// name is still shorter than `NAME_LIMIT` bytes.
pub open spec fn typed(name: Seq<char>, c: char, alphabetic: bool) -> Seq<char> {
    if alphabetic && byte_len(name) < NAME_LIMIT {
        name.push(c)
    } else {
        name
    }
}

/// The name after the last character was rubbed out.
pub open spec fn rubbed_out(name: Seq<char>) -> Seq<char> {
    if name.len() > 0 {
        name.drop_last()
    } else {
        name
    }
}

/// The main menu: the name typed so far, the entry the cursor is on, and
/// whether the confirm key is still held from before the menu opened.
pub struct MainMenu {
    name: Vec<char>,
    bytes: usize,
    active: usize,
    confirm_blocked: bool,
}

/// The mathematical content of a [`MainMenu`].
#[verifier::ext_equal]
pub struct MainMenuView {
    pub name: Seq<char>,
    pub active: nat,
    pub confirm_blocked: bool,
}

impl MainMenuView {
    /// The cursor is on one of the entries.
    pub open spec fn wf(self) -> bool {
        self.active < MAIN_ENTRIES
    }

    /// The menu as it opens: no name, the cursor on the name field.
    pub open spec fn opened(confirm_held: bool) -> MainMenuView {
        MainMenuView { name: Seq::empty(), active: 0, confirm_blocked: confirm_held }
    }

    /// The menu after `c` was typed. Typing reaches the name only while the
    /// cursor is on the name field.
    pub open spec fn type_char(self, c: char, alphabetic: bool) -> MainMenuView {
        if self.active == 0 {
            MainMenuView { name: typed(self.name, c, alphabetic), ..self }
        } else {
            self
        }
    }

    /// The menu after an input.
    pub open spec fn handle(self, input: MenuInput) -> MainMenuView {
        match input {
            MenuInput::Up => MainMenuView {
                active: ((self.active + MAIN_ENTRIES - 1) % (MAIN_ENTRIES as int)) as nat,
                ..self
            },
            MenuInput::Down => MainMenuView {
                active: ((self.active + 1) as int % (MAIN_ENTRIES as int)) as nat,
                ..self
            },
            MenuInput::ConfirmReleased => MainMenuView { confirm_blocked: false, ..self },
            MenuInput::Backspace => if self.active == 0 {
                MainMenuView { name: rubbed_out(self.name), ..self }
            } else {
                self
            },
            MenuInput::Character(c) => self.type_char(c, is_alphabetic(c)),
            MenuInput::Confirm | MenuInput::Cancel => self,
        }
    }

    /// What the menu asks for on an input: the entry under the cursor on a
    /// confirm that is not blocked, quitting on a cancel, nothing otherwise.
    pub open spec fn action(self, input: MenuInput) -> MenuAction {
        match input {
            MenuInput::Confirm => if self.confirm_blocked {
                MenuAction::Stay
            } else if self.active == 0 {
                MenuAction::Start
            } else if self.active == 1 {
                MenuAction::OpenHighscores
            } else {
                MenuAction::Quit
            },
            MenuInput::Cancel => MenuAction::Quit,
            _ => MenuAction::Stay,
        }
    }
}

impl View for MainMenu {
    type V = MainMenuView;

    closed spec fn view(&self) -> MainMenuView {
        MainMenuView {
            name: self.name@,
            active: self.active as nat,
            confirm_blocked: self.confirm_blocked,
        }
    }
}

impl MainMenu {
    /// What holds of the fields beyond the view: the byte count is the
    /// name's, and the name is at most one character past the limit.
    pub closed spec fn inv(&self) -> bool {
        self.bytes == byte_len(self.name@) && self.bytes < NAME_LIMIT + 4
    }

    /// The menu as it opens. `confirm_held` tells whether the confirm key is
    /// down at that moment; if so, confirming is blocked until it is released.
    pub fn new(confirm_held: bool) -> (menu: MainMenu)
        ensures
            menu@ == MainMenuView::opened(confirm_held),
            menu@.wf(),
            menu.inv(),
    {
        MainMenu { name: Vec::new(), bytes: 0, active: 0, confirm_blocked: confirm_held }
    }

    /// Takes the typed character `c`, of which `alphabetic` tells whether it
    /// is alphabetic.
    pub fn type_char(&mut self, c: char, alphabetic: bool)
        requires
            old(self).inv(),
        ensures
            final(self)@ == old(self)@.type_char(c, alphabetic),
            final(self).inv(),
    {
        if self.active == 0 && alphabetic && self.bytes < NAME_LIMIT {
            assert(self.name@.push(c).drop_last() =~= self.name@);
            self.name.push(c);
            self.bytes = self.bytes + width_of(c);
        }
    }

    /// Takes one input and tells what the menu asks for.
    pub fn handle(&mut self, input: MenuInput) -> (action: MenuAction)
        requires
            old(self)@.wf(),
            old(self).inv(),
        ensures
            final(self)@ == old(self)@.handle(input),
            action == old(self)@.action(input),
            final(self)@.wf(),
            final(self).inv(),
    {
        match input {
            MenuInput::Up => {
                self.active = (self.active + MAIN_ENTRIES - 1) % MAIN_ENTRIES;
                MenuAction::Stay
            },
            MenuInput::Down => {
                self.active = (self.active + 1) % MAIN_ENTRIES;
                MenuAction::Stay
            },
            MenuInput::ConfirmReleased => {
                self.confirm_blocked = false;
                MenuAction::Stay
            },
            MenuInput::Backspace => {
                if self.active == 0 {
                    match self.name.pop() {
                        Some(c) => {
                            self.bytes = self.bytes - width_of(c);
                        },
                        None => {},
                    }
                }
                MenuAction::Stay
            },
            MenuInput::Character(c) => {
                let alphabetic = char_is_alphabetic(c);
                self.type_char(c, alphabetic);
                MenuAction::Stay
            },
            MenuInput::Confirm => {
                if self.confirm_blocked {
                    MenuAction::Stay
                } else if self.active == 0 {
                    MenuAction::Start
                } else if self.active == 1 {
                    MenuAction::OpenHighscores
                } else {
                    MenuAction::Quit
                }
            },
            MenuInput::Cancel => MenuAction::Quit,
        }
    }

    /// The entry the cursor is on.
    pub fn active(&self) -> (entry: usize)
        ensures
            entry == self@.active,
    {
        self.active
    }

    /// The name typed so far.
    pub fn name(&self) -> (name: String)
        ensures
            name@ == self@.name,
    {
        let mut name = String::new();
        let mut i: usize = 0;
        while i < self.name.len()
            invariant
                i <= self.name.len(),
                name@ == self.name@.take(i as int),
            decreases self.name.len() - i,
        {
            push_char(&mut name, self.name[i]);
            assert(self.name@.take(i as int).push(self.name@[i as int]) =~= self.name@.take(i + 1));
            i += 1;
        }
        assert(self.name@.take(self.name.len() as int) =~= self.name@);
        name
    }
}

/// The rows of the high-score menu: one for each rank of the ledger, and one
/// more to return.
pub open spec fn score_rows() -> nat {
    (CAPACITY + 1) as nat
}

/// The high-score menu: the row the cursor is on, and whether the confirm key
/// is still held from before the menu opened.
#[derive(Clone, Copy, Debug, PartialEq, Eq, Structural)]
pub struct ScoreMenu {
    pub cursor: usize,
    pub confirm_blocked: bool,
}

impl ScoreMenu {
    /// The cursor is on one of the rows.
    pub open spec fn wf(self) -> bool {
        self.cursor < score_rows()
    }

    /// The menu after an input: up and down move the cursor round the rows,
    /// and a release of the confirm key lifts the block.
    pub open spec fn handled(self, input: MenuInput) -> ScoreMenu {
        match input {
            MenuInput::Up => ScoreMenu {
                cursor: ((self.cursor + CAPACITY) % (score_rows() as int)) as usize,
                ..self
            },
            MenuInput::Down => ScoreMenu {
                cursor: ((self.cursor + 1) % (score_rows() as int)) as usize,
                ..self
            },
            MenuInput::ConfirmReleased => ScoreMenu { confirm_blocked: false, ..self },
            _ => self,
        }
    }

    /// What the menu asks for on an input, with `records` records in the
    /// ledger: on a confirm that is not blocked, to return from the last row
    /// and to play back the record under the cursor from a row that has one.
    pub open spec fn action(self, input: MenuInput, records: usize) -> ScoreMenuAction {
        match input {
            MenuInput::Confirm => if self.confirm_blocked {
                ScoreMenuAction::Stay
            } else if self.cursor == CAPACITY {
                ScoreMenuAction::Return
            } else if self.cursor < records {
                ScoreMenuAction::Replay(self.cursor)
            } else {
                ScoreMenuAction::Stay
            },
            _ => ScoreMenuAction::Stay,
        }
    }

    /// The menu as it opens, the cursor on the best record.
    pub fn new(confirm_held: bool) -> (menu: ScoreMenu)
        ensures
            menu == (ScoreMenu { cursor: 0, confirm_blocked: confirm_held }),
            menu.wf(),
    {
        ScoreMenu { cursor: 0, confirm_blocked: confirm_held }
    }

    /// Takes one input and tells what the menu asks for.
    pub fn handle(&mut self, input: MenuInput, records: usize) -> (action: ScoreMenuAction)
        requires
            old(self).wf(),
        ensures
            *final(self) == old(self).handled(input),
            action == old(self).action(input, records),
            final(self).wf(),
    {
        match input {
            MenuInput::Up => {
                self.cursor = (self.cursor + CAPACITY) % (CAPACITY + 1);
                ScoreMenuAction::Stay
            },
            MenuInput::Down => {
                self.cursor = (self.cursor + 1) % (CAPACITY + 1);
                ScoreMenuAction::Stay
            },
            MenuInput::ConfirmReleased => {
                self.confirm_blocked = false;
                ScoreMenuAction::Stay
            },
            MenuInput::Confirm => {
                if self.confirm_blocked {
                    ScoreMenuAction::Stay
                } else if self.cursor == CAPACITY {
                    ScoreMenuAction::Return
                } else if self.cursor < records {
                    ScoreMenuAction::Replay(self.cursor)
                } else {
                    ScoreMenuAction::Stay
                }
            },
            _ => ScoreMenuAction::Stay,
        }
    }
}

} // verus!
