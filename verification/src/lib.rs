//! A small line-copy library: it resolves command-line tokens into a
//! configuration and turns the lines of each input into output lines,
//! numbering all lines, only non-blank lines, or none.

pub mod config;
pub mod laws;
pub mod output;
pub mod text;
