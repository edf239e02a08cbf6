//! Outcomes that stop the placement of one file.
use vstd::prelude::*;

verus! {

/// Which catalog a title is looked up in.
#[derive(Clone, Copy, Debug, PartialEq, Eq, Structural)]
pub enum MediaKind {
    Show,
    Movie,
}

/// Why a file was not placed.
#[derive(Debug, PartialEq, Eq)]
pub enum SortError {
    /// The path has no recognized media extension (the path).
    NotMediaFile(String),
    /// The catalog had no entry for the title (kind, title, year).
    NotFound(MediaKind, String, Option<i32>),
    /// The destination exists and overwriting is off (the destination).
    AlreadyExists(String),
    /// A directory, rename, copy or permission operation failed (what was said of it).
    Filesystem(String),
}

} // verus!
