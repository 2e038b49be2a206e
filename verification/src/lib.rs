//! The rules of a snake game on a square grid whose edges wrap round, with the
//! proofs that they do what they say.
//!
//! - [`grid`]: cells, directions, and the step from a cell to its neighbour.
//! - [`snake`]: the body, the heading, moving and running into oneself.
//! - [`fruit`]: the fruit's value, and the choice of a free cell for the next.
//! - [`game`]: a snake and a fruit, and what one tick does to them.
//! - [`record`] and [`ledger`]: the record of a game and the ranked list of
//!   the best ones.
//! - [`replay`]: the playback of a record, body by body.
//! - [`clock`], [`menu`], [`screen`] and [`session`]: the pace of the ticks,
//!   the menus, and the program as a machine that takes one event at a time.
//!
//! Every type that has more to it than its fields comes with a view, a plain
//! mathematical value, and every function says over these views what it
//! returns or changes.

pub mod clock;
pub mod fruit;
pub mod game;
pub mod grid;
pub mod ledger;
pub mod menu;
pub mod record;
pub mod replay;
pub mod screen;
pub mod session;
pub mod snake;
