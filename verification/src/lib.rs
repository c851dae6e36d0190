//! Generates pseudo-random domain-name-like strings: fixed-length labels
//! drawn from a 32-symbol alphabet, joined with a configurable top-level
//! domain, repeated a configurable number of times.
pub mod cli;
pub mod count;
pub mod domain;
