//! A verified solver core for a single-player dice-and-spell puzzle.
//!
//! The library models dice, a spellbook, a board of prepared spells and an
//! enemy health total; enumerates the legal actions of a state; applies an
//! action deterministically; and explores the state space best-first under a
//! node ceiling, tracking the lowest enemy health reached.

pub mod actions;
pub mod bits;
pub mod dice;
pub mod engine;
pub mod spells;
pub mod state;

pub use dice::Die;
