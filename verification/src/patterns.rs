//! Procedural surface patterns, dispatched through one closed sum
//! type.

pub mod checkers;
pub mod gradient;
pub mod pattern;
pub mod ring;
pub mod stripe;
pub mod test;
