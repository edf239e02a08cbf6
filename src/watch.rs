//! Which file-system events start a placement.
use vstd::prelude::*;

verus! {

/// Kinds of file-system events, as far as sorting cares.
#[derive(Clone, Copy, Debug, PartialEq, Eq, Structural)]
pub enum FsEventKind {
    Created,
    /// A file opened for writing was closed.
    ClosedAfterWrite,
    /// A file was renamed into the watched tree.
    RenamedInto,
    Other,
}

/// A file is placed after it was written or renamed into place, and after no other event.
pub fn triggers_placement(kind: FsEventKind) -> (r: bool)
    ensures
        r == (kind == FsEventKind::ClosedAfterWrite || kind == FsEventKind::RenamedInto),
{
    match kind {
        FsEventKind::ClosedAfterWrite => true,
        FsEventKind::RenamedInto => true,
        _ => false,
    }
}

} // verus!
