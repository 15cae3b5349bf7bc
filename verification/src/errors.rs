//! The commit log's error taxonomy.

use vstd::prelude::*;

verus! {

/// Everything that can go wrong inside the segment-management core.
///
/// `IO` carries the raw operating-system error code of the underlying
/// file-system failure, or `None` where none was available.
#[derive(Clone, Copy, Debug, PartialEq, Eq, Structural)]
pub enum Error {
    /// The commit log has been shut down; no further data can be added.
    Closed,
    /// A single record larger than the per-mutation ceiling was submitted.
    MutationTooLarge { size: u64, max_size: u64 },
    /// An underlying file-system operation failed.
    IO(Option<i32>),
    /// An exclusive-create collision on a segment filename, or a segment id
    /// that does not match the manager's counter: the id counter and the
    /// on-disk state have come apart. Fatal to the manager; never retried.
    Conflict,
    /// An opaque failure outside the taxonomy.
    Other,
    /// The segment list is empty or its most recent segment is sealed, so
    /// there is no segment that can accept writes.
    NoActiveSegment,
    /// A cursor advance would move past the end of the segment.
    OutOfSpace,
}

} // verus!
