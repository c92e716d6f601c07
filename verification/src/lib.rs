//! Incremental generator for the Kolakoski sequence over the alphabet {1, 2}.
//!
//! The sequence is advanced one term at a time by a bit-parallel recurrence
//! over a pair of 128-bit state words; the sequence itself is never stored.
//! Alongside the raw generator the crate keeps running statistics: how many
//! of the terms produced so far equal 1, and the largest relative deviation
//! of that count from half the current index since the last reset.

pub mod driver;
pub mod kolakoski;
pub mod wide;
