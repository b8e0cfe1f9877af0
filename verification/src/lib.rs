//! The decision logic of a small file utility: echoing text, showing a file,
//! listing a directory, finding a file by name and searching a file for a
//! literal pattern. Reading and printing are left to the caller; every
//! function here maps plain values to plain values.

pub mod command;
pub mod failure;
pub mod lines;
pub mod listing;
pub mod report;
pub mod search;
pub mod text;
pub mod walk;
