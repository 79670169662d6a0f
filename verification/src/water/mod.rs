//! The game in which the last participant to join a wheel, in the water seat, wins.
pub mod accounts;
pub mod error;
pub mod join;
pub mod laws;
pub mod outcomes;
pub mod registry;
pub mod split;
pub mod state;
