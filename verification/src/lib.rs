//! A line-oriented text editor core: a command parser and an in-memory
//! buffer engine, with verified contracts for every operation.
//!
//! The buffer is a flat sequence of characters in which `'\n'` separates
//! lines.  Operations are pure state transitions over that buffer and an
//! optional current file name; all console and file handling lives outside
//! this crate and exchanges plain values with it.

pub mod command;
pub mod laws;
pub mod numbers;
pub mod session;
pub mod text;
