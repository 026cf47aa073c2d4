//! The AstroParrot planet: how it reacts to sunrays, asteroids and
//! explorers' requests, over the state `common-game` keeps for it.

pub mod ai;
pub mod create;
pub mod helpers;
pub mod state;
