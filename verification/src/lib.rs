//! A verified dice-rolling library.
//!
//! The library covers the whole pipeline of a `NdM` dice roller: turning
//! command-line tokens into a configuration, parsing the `NdM` notation,
//! drawing the dice, and rendering the outcome as colored text. Every
//! function carries a contract; randomness enters only through a trusted
//! wrapper around the `rand` crate.

pub mod args;
pub mod dice;
pub mod notation;
pub mod render;
pub mod roll;
