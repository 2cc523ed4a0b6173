//! A falling-block puzzle engine.
//!
//! A board of ten by twenty-two cells takes pieces of seven shapes. A piece
//! falls under a timer that the level sets, can be moved and turned while it
//! falls, and locks into the board when it can fall no further. Filled rows
//! are shown for half a second and then removed; they score, and they raise
//! the level.
//!
//! The engine neither draws nor reads keys. Each tick it is handed the keys
//! as an [`game::Input_State`] and the clock through
//! [`game::Game_State::set_time`], and
//! [`game::Game_State::update`] plays the tick.
//!
//! Every function is verified against a contract. The contracts speak of
//! the game as a [`model::GameModel`]: [`model::GameModel::step`] says what
//! a tick makes of it.
//!
//! - [`tetromino`]: the shapes and their rotation.
//! - [`piece`]: where a piece lies, when it is valid, where it lands.
//! - [`grid`]: rows, marks and compaction.
//! - [`rules`]: scores, level thresholds, drop intervals.
//! - [`model`]: the game as a value and the tick as a function.
//! - [`game`]: the game's data, its constructors and accessors.
//! - [`engine`], [`drop`], [`update`]: what the game does.
#![allow(non_camel_case_types)]

pub mod drop;
pub mod engine;
pub mod game;
pub mod grid;
pub mod model;
pub mod piece;
pub mod rules;
pub mod tetromino;
pub mod update;
