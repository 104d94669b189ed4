//! A batch file-renaming library.
//!
//! File names are rewritten by an ordered list of regex rules, then
//! decorated with zero-padded counters, and a batch executor decides
//! the fate of each file (rename, skip, ask, or fail) before anything
//! touches the filesystem.

pub mod args;
pub mod batch;
pub mod digits;
pub mod errors;
pub mod file_renamer;
pub mod rules;
