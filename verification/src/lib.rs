//! Selection and formatting of source files for a single concatenated dump.
//!
//! The crate decides which paths of a directory tree belong in the dump,
//! renders the block of each selected file, and counts what was written.
//! Reading the tree and writing the result are left to the caller.

pub mod chars;
pub mod config;
pub mod filter;
pub mod format;
pub mod globs;
pub mod paths;
pub mod report;
pub mod strip;
pub mod text;
pub mod whitespace;
