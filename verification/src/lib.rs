//! A search for a Bitcoin key pair whose address matches a pattern.
//!
//! Candidates are generated at random, in the style that was asked for;
//! each is counted and its address is tested against the patterns, shortest
//! pattern first; the first candidate that matches wins the search.

pub mod candidate;
pub mod engine;
pub mod keys;
pub mod order;
pub mod pattern;
pub mod search;
pub mod style;
pub mod text;
pub mod workers;
