//! Showing the contents of files, plain or with markup.

pub mod config;
pub mod format;
pub mod show;
