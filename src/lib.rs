//! Compiles a tree of Clue source files into one Lua artifact.

pub mod text;
pub mod assemble;
pub mod schedule;
pub mod names;
pub mod compile;
pub mod output;
