//! Weighted random selection of a place.
//!
//! A weighting document and a set of candidate rows are turned into a table of
//! `(id, weight)` pairs; the table is kept in a single cache slot and one entry
//! is drawn from it with probability proportional to its weight.
//!
//! Multipliers and weights are fixed-point numbers counted in millionths, so
//! that all arithmetic is exact. This makes the multipliers fewer than the
//! positive real numbers: a multiplier is a whole number of millionths, at
//! least one millionth and at most `u64::MAX` millionths (a little above
//! 1.8e13). Nothing is rounded. A weighting document that writes any other
//! multiplier, such as `0.1234567`, `1e-7` or `1e14`, is refused as a whole,
//! as one that writes zero or a negative number is.
//!
//! The library does no input or output of its own: `handler::step` decides
//! what is to be done next, and the host does it.

pub mod error;
pub mod table;
pub mod config;
pub mod decimal;
pub mod document;
pub mod transform;
pub mod sampler;
pub mod codec;
pub mod cache;
pub mod detail;
pub mod loader;
pub mod handler;
