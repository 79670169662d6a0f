//! The game in which the first participant to join a wheel, at its center, wins.
pub mod accounts;
pub mod error;
pub mod join;
pub mod laws;
pub mod outcomes;
pub mod refund;
pub mod registry;
pub mod split;
pub mod state;
