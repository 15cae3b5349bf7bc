//! Replay positions: durable-order markers in the log.

use core::cmp::Ordering;
use vstd::prelude::*;
use vstd::std_specs::cmp::PartialOrdSpec;

verus! {

/// Identifier of one segment. Assigned once per segment by a single counter,
/// strictly monotonically increasing, never reused.
pub type SegmentId = u64;

/// Byte offset within a segment, `0 <= position <= max_size`.
pub type Position = u32;

/// A durable point in the log: the pair of a segment identifier and a byte
/// offset inside that segment, totally ordered lexicographically by
/// `(id, position)`. Immutable value type, freely copyable.
#[derive(Eq, PartialEq, Structural, Ord, Copy, Clone, Debug)]
pub struct ReplayPosition {
    pub id: SegmentId,
    pub position: Position,
}

impl ReplayPosition {
    /// Builds the marker for byte `position` of segment `id`.
    pub fn create(id: SegmentId, position: Position) -> (r: ReplayPosition)
        ensures
            r.id == id,
            r.position == position,
    {
        ReplayPosition { id, position }
    }

    /// What comparing two replay positions means: lexicographic comparison
    /// of `(id, position)`.
    pub open spec fn spec_cmp(self, other: ReplayPosition) -> Ordering {
        if self.id < other.id {
            Ordering::Less
        } else if self.id > other.id {
            Ordering::Greater
        } else if self.position < other.position {
            Ordering::Less
        } else if self.position > other.position {
            Ordering::Greater
        } else {
            Ordering::Equal
        }
    }
}

impl PartialOrd for ReplayPosition {
    fn partial_cmp(&self, other: &ReplayPosition) -> (r: Option<Ordering>) {
        if self.id < other.id {
            Some(Ordering::Less)
        } else if self.id > other.id {
            Some(Ordering::Greater)
        } else if self.position < other.position {
            Some(Ordering::Less)
        } else if self.position > other.position {
            Some(Ordering::Greater)
        } else {
            Some(Ordering::Equal)
        }
    }
}

impl vstd::std_specs::cmp::PartialOrdSpecImpl for ReplayPosition {
    open spec fn obeys_partial_cmp_spec() -> bool {
        true
    }

    open spec fn partial_cmp_spec(&self, other: &ReplayPosition) -> Option<Ordering> {
        Some(self.spec_cmp(*other))
    }
}

/// Law: the comparison of two replay positions is exactly the lexicographic
/// comparison of their `(id, position)` pairs, and two positions compare
/// equal exactly when they are the same position.
pub proof fn lemma_replay_order_is_lexicographic(a: ReplayPosition, b: ReplayPosition)
    ensures
        a.partial_cmp_spec(&b) == Some(Ordering::Less) <==> (a.id < b.id || (a.id == b.id
            && a.position < b.position)),
        a.partial_cmp_spec(&b) == Some(Ordering::Equal) <==> a == b,
        a.partial_cmp_spec(&b) == Some(Ordering::Greater) <==> (b.id < a.id || (b.id == a.id
            && b.position < a.position)),
{
}

/// Law: replay-position order is a total order. Any two positions are
/// comparable; the comparison is antisymmetric and transitive; and the order
/// of a pair is always the exact reverse of the order of the swapped pair.
pub proof fn lemma_replay_order_is_total(a: ReplayPosition, b: ReplayPosition, c: ReplayPosition)
    ensures
        a.partial_cmp_spec(&b) is Some,
        a.partial_cmp_spec(&b) == Some(Ordering::Equal) <==> a == b,
        a.partial_cmp_spec(&b) == Some(Ordering::Less) <==> b.partial_cmp_spec(&a) == Some(
            Ordering::Greater,
        ),
        a.partial_cmp_spec(&b) == Some(Ordering::Less) && b.partial_cmp_spec(&c) == Some(
            Ordering::Less,
        ) ==> a.partial_cmp_spec(&c) == Some(Ordering::Less),
{
}

} // verus!
