//! Translation of game-controller input into keyboard key transitions.

pub mod codes;
pub mod digitizer;
pub mod engine;
pub mod events;
pub mod keys;
pub mod laws;
pub mod layout;
pub mod offset;
pub mod trace;
