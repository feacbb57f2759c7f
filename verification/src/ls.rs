//! Listing the children of directories.

pub mod clock;
pub mod config;
pub mod entry;
pub mod format;
pub mod listing;
pub mod options;
pub mod order;
pub mod owner;
pub mod run;
