//! One pre-allocated, fixed-capacity log file: its write cursor and its
//! lifecycle state.
//!
//! The file itself lives outside the library: a segment records the
//! bookkeeping the manager needs, and every byte of on-disk state it speaks
//! of is handed in and out as plain values.

use vstd::prelude::*;

use crate::config::MIB;
use crate::config::OFFSET_MAX;
use crate::errors::Error;
use crate::replay::Position;
use crate::replay::ReplayPosition;
use crate::replay::SegmentId;

verus! {

/// Where a segment stands in its life.
#[derive(Clone, Copy, Debug, PartialEq, Eq, Structural)]
pub enum SegmentState {
    /// File created and sized, not yet exposed to writers.
    Allocating,
    /// Exposed; writers may append. At most one segment is active at a time.
    Active,
    /// The cursor reached the rotation threshold or the segment was
    /// force-rotated; no further appends are accepted.
    Sealed,
    /// Fully flushed and no longer needed for replay; eligible for deletion.
    Discarded,
}

/// One segment: its identity, its write cursor, its lifecycle state, and the
/// sizing it was created under.
#[derive(Clone, Copy, Debug, PartialEq, Eq, Structural)]
pub struct Segment {
    /// The segment's identifier, assigned once at allocation time.
    pub id: SegmentId,
    /// The write cursor: how many bytes of the file are spoken for.
    pub cursor: Position,
    /// Where the segment stands in its life.
    pub state: SegmentState,
    /// The fixed byte capacity of the file, set at creation.
    pub max_size: u64,
    /// The largest single record the log accepts: half of `max_size`.
    pub max_mutation_size: u64,
}

impl Segment {
    /// A segment's bookkeeping is consistent: the sizing is the derived one
    /// and the cursor never passes the end of the file.
    pub open spec fn wf(self) -> bool {
        &&& MIB <= self.max_size <= OFFSET_MAX
        &&& self.max_mutation_size == self.max_size / 2
        &&& self.cursor <= self.max_size
    }

    /// Whether the segment may still be handed out as the active segment:
    /// it is exposed to writers and has room for at least one more
    /// maximum-size record. Once this turns false, rotation to a new segment
    /// is required.
    pub open spec fn spec_is_still_allocating(self) -> bool {
        self.state is Active && self.cursor + self.max_mutation_size <= self.max_size
    }

    /// Wraps an already-sized file of capacity `max_size` as segment `id`.
    /// The cursor starts at zero and the segment starts in `Allocating`.
    pub fn create(id: SegmentId, max_size: u64, max_mutation_size: u64) -> (r: Segment)
        requires
            MIB <= max_size <= OFFSET_MAX,
            max_mutation_size == max_size / 2,
        ensures
            r == (Segment {
                id,
                cursor: 0,
                state: SegmentState::Allocating,
                max_size,
                max_mutation_size,
            }),
            r.wf(),
    {
        Segment { id, cursor: 0, state: SegmentState::Allocating, max_size, max_mutation_size }
    }

    /// Computes `spec_is_still_allocating`: whether the segment can take one
    /// more maximum-size record.
    pub fn is_still_allocating(&self) -> (r: bool)
        requires
            self.wf(),
        ensures
            r == self.spec_is_still_allocating(),
    {
        match self.state {
            SegmentState::Active => self.cursor as u64 + self.max_mutation_size <= self.max_size,
            _ => false,
        }
    }

    /// Exposes the segment to writers: `Allocating` becomes `Active`. Any
    /// other state is left alone.
    pub fn activate(&mut self)
        ensures
            *final (self) == (Segment {
                state: if old(self).state is Allocating {
                    SegmentState::Active
                } else {
                    old(self).state
                },
                ..*old(self)
            }),
    {
        if let SegmentState::Allocating = self.state {
            self.state = SegmentState::Active;
        }
    }

    /// Stops appends: `Active` becomes `Sealed`. Sealing an already-sealed
    /// segment is a no-op, not an error, because rotation logic may race to
    /// seal the same segment from two call sites; every other state is also
    /// left alone.
    pub fn seal(&mut self)
        ensures
            *final (self) == (Segment {
                state: if old(self).state is Active {
                    SegmentState::Sealed
                } else {
                    old(self).state
                },
                ..*old(self)
            }),
    {
        if let SegmentState::Active = self.state {
            self.state = SegmentState::Sealed;
        }
    }

    /// Marks the segment safe to delete: `Sealed` becomes `Discarded`. Every
    /// other state is left alone; the decision that a segment is no longer
    /// needed for replay belongs to the flush and recovery subsystem.
    pub fn discard(&mut self)
        ensures
            *final (self) == (Segment {
                state: if old(self).state is Sealed {
                    SegmentState::Discarded
                } else {
                    old(self).state
                },
                ..*old(self)
            }),
    {
        if let SegmentState::Sealed = self.state {
            self.state = SegmentState::Discarded;
        }
    }

    /// Moves the cursor forward by `n` bytes, or fails with `OutOfSpace` and
    /// changes nothing when fewer than `n` bytes remain. Callers are
    /// expected to have validated `n` against the per-mutation ceiling at
    /// the manager boundary; the room check here is defensive.
    pub fn advance(&mut self, n: Position) -> (r: Result<(), Error>)
        requires
            old(self).wf(),
        ensures
            final (self).wf(),
            old(self).cursor + n <= old(self).max_size ==> {
                &&& r is Ok
                &&& *final (self) == (Segment { cursor: (old(self).cursor + n) as Position, ..*old(
                    self,
                ) })
            },
            old(self).cursor + n > old(self).max_size ==> {
                &&& r == Result::<(), Error>::Err(Error::OutOfSpace)
                &&& *final (self) == *old(self)
            },
    {
        if self.cursor as u64 + n as u64 <= self.max_size {
            self.cursor = self.cursor + n;
            Ok(())
        } else {
            Err(Error::OutOfSpace)
        }
    }

    /// The durable point at the segment's current cursor.
    pub fn replay_position(&self) -> (r: ReplayPosition)
        ensures
            r.id == self.id,
            r.position == self.cursor,
    {
        ReplayPosition::create(self.id, self.cursor)
    }
}

} // verus!
