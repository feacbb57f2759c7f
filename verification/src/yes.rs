//! Repeating a line.

pub mod config;
