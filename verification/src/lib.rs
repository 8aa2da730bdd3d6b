//! Simulation core of a turn-based dungeon crawler: level generation,
//! visibility policy, combat, monster behaviour and inventory handling.
//!
//! The crate holds the rules of the game and nothing of its looks. It does
//! not draw, read keys or scan for what is in sight: a caller does that and
//! hands in key presses, mouse states and sight grids as plain values. What
//! the rules leave to chance is drawn in [`random`], and nowhere else.
//!
//! Every function states what it does over mathematical values: an
//! [`object::ObjectView`] for an object, a [`game::GameView`] for the game, a
//! sequence of columns for a grid. What holds over any number of steps is
//! stated and proved in [`laws`], and for levels in [`mapgen`].
//!
//! Numbers are held to the range of `i32` where a sum or a difference would
//! leave it: nothing here overflows and nothing panics.
//!
//! Two crates from outside are called, each behind functions whose contracts
//! are taken on trust: `rand` for the dice in [`random`], and
//! `rustc_serialize` for the JSON text of a saved game in [`snapshot`].

pub mod ai;
pub mod color;
pub mod combat;
pub mod game;
pub mod geometry;
pub mod inventory;
pub mod items;
pub mod laws;
pub mod mapgen;
pub mod menu;
pub mod messages;
pub mod movement;
pub mod object;
pub mod random;
pub mod snapshot;
pub mod spawn;
pub mod text;
pub mod tile;
pub mod turn;
pub mod visibility;
