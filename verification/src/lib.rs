//! Turns a directory's worth of JSON feedback exports into one sorted,
//! semicolon-delimited CSV text.
//!
//! The library owns the logic of that pipeline: modelling a parsed JSON
//! document, pulling the fixed set of comment fields out of it, accumulating
//! the rows from many files, and sorting and rendering them. Reading the
//! files and fanning the work out over threads is left to the caller, which
//! hands each file's bytes in and receives the finished output text back.

pub mod extract;
pub mod json;
pub mod record;
pub mod sink;
pub mod text;
pub mod timefmt;
