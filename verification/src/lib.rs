//! Corrects a shell command that has just failed: an ordered set of rules is
//! matched against the command and its output, and the first rule that
//! matches yields the replacement.
//!
//! The crate holds the decisions only. Reading the environment, the process
//! table and the file system, and running script rules, is left to the caller,
//! who hands the results in as plain values.
pub mod error;
pub mod fix;
pub mod misc;
pub mod shells;
pub mod text;
