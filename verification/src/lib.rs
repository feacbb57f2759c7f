//! Small command-line utilities as a library: listing a directory, showing
//! files with optional markup, repeating a line.

pub mod cat;
pub mod config;
pub mod ls;
pub mod test_utils;
pub mod text;
pub mod yes;
