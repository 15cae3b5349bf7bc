//! The segment manager: the authoritative list of known segments, the
//! space and count budget, the identifier counter, and the bounded reserve
//! of pre-created segments.
//!
//! One owner holds the manager and mutates it; everything the background
//! pre-allocation work needs from the outside world (creating and pre-sizing
//! a file) happens between two bookkeeping calls, `prepare_segment` and
//! `complete_segment`, so no bookkeeping ever spans a suspension point. The
//! driver of that work suspends itself while `complete_segment` answers that
//! the reserve is full; nothing is dropped and nothing errors.

use vstd::prelude::*;

use crate::config::Config;
use crate::config::lemma_derived_sizing;
use crate::descriptor::Descriptor;
use crate::errors::Error;
use crate::replay::ReplayPosition;
use crate::replay::SegmentId;
use crate::segment::Segment;
use crate::segment::SegmentState;

verus! {

/// Creation statistics of one manager.
#[derive(Clone, Copy, Debug, PartialEq, Eq, Structural)]
pub struct Stats {
    /// How many segments this manager has created, saturated at the top of
    /// `u64`.
    pub segments_created: u64,
}

impl Default for Stats {
    /// A fresh counter: nothing created yet.
    fn default() -> (r: Stats)
        ensures
            r.segments_created == 0,
    {
        Stats { segments_created: 0 }
    }
}

/// Owns the ordered list of known segments (oldest first), the bounded
/// reserve of pre-created segments, the sizing derived from the
/// configuration, the identifier counter, and the shutdown flag.
pub struct SegmentManager {
    /// The settings the manager was created with.
    pub cfg: Config,
    /// Segments visible to writers, oldest first; the last one is the only
    /// one that may accept writes.
    pub segments: Vec<Segment>,
    /// Pre-created segments waiting to be claimed, in creation order.
    pub reserve: Vec<Segment>,
    /// The byte capacity of every segment this manager creates.
    pub max_size: u64,
    /// The largest single record the log accepts: half of `max_size`.
    pub max_mutation_size: u64,
    /// The identifier the next created segment will get.
    pub next_segment_id: SegmentId,
    /// Every identifier this manager has issued, in order of issue.
    pub issued: Ghost<Seq<SegmentId>>,
    /// Creation statistics.
    pub stats: Stats,
    /// Set once the log is shut down; afterwards every operation fails with
    /// `Closed`.
    pub shutdown: bool,
}

impl SegmentManager {
    /// Whether `s` carries this manager's sizing and is itself consistent.
    pub open spec fn segment_sized(self, s: Segment) -> bool {
        &&& s.wf()
        &&& s.max_size == self.max_size
        &&& s.max_mutation_size == self.max_mutation_size
    }

    /// The manager's bookkeeping is consistent: sizing is the one derived
    /// from the configuration; the reserve respects its bound; identifiers
    /// are issued by the counter, strictly increase from the visible list
    /// through the reserve, and are never reused; only the most recent
    /// visible segment may accept writes; and reserve segments are unused.
    pub open spec fn wf(self) -> bool {
        &&& self.max_size == self.cfg.spec_max_size()
        &&& self.max_mutation_size == self.max_size / 2
        &&& self.cfg.max_reserve_segments >= 1
        &&& self.reserve@.len() <= self.cfg.max_reserve_segments
        &&& forall|i: int|
            0 <= i < self.segments@.len() ==> self.segment_sized(#[trigger] self.segments@[i])
        &&& forall|i: int|
            0 <= i < self.segments@.len() ==> !(#[trigger] self.segments@[i].state
                is Allocating)
        &&& forall|i: int|
            0 <= i < self.segments@.len() - 1 ==> !(#[trigger] self.segments@[i].state is Active)
        &&& forall|i: int, j: int|
            0 <= i < j < self.segments@.len() ==> #[trigger] self.segments@[i].id
                < #[trigger] self.segments@[j].id
        &&& forall|i: int|
            0 <= i < self.reserve@.len() ==> self.segment_sized(#[trigger] self.reserve@[i])
        &&& forall|i: int|
            0 <= i < self.reserve@.len() ==> (#[trigger] self.reserve@[i].state is Allocating
                && self.reserve@[i].cursor == 0)
        &&& forall|i: int, j: int|
            0 <= i < j < self.reserve@.len() ==> #[trigger] self.reserve@[i].id
                < #[trigger] self.reserve@[j].id
        &&& forall|i: int, j: int|
            0 <= i < self.segments@.len() && 0 <= j < self.reserve@.len()
                ==> #[trigger] self.segments@[i].id < #[trigger] self.reserve@[j].id
        &&& forall|i: int|
            0 <= i < self.segments@.len() ==> #[trigger] self.segments@[i].id
                < self.next_segment_id
        &&& forall|i: int|
            0 <= i < self.reserve@.len() ==> #[trigger] self.reserve@[i].id
                < self.next_segment_id
        &&& self.issued@.len() == self.next_segment_id
        &&& forall|i: int| 0 <= i < self.issued@.len() ==> #[trigger] self.issued@[i] == i
    }

    /// Whether the manager currently has a segment that writers may use:
    /// the visible list is non-empty and its most recent segment can still
    /// take a maximum-size record.
    pub open spec fn spec_has_active(self) -> bool {
        self.segments@.len() > 0 && self.segments@.last().spec_is_still_allocating()
    }

    /// Whether `id` is an identifier the manager would accept back from the
    /// pre-allocation work: issued by its own counter and newer than every
    /// segment it already knows. Anything else means the counter and the
    /// on-disk state have come apart.
    pub open spec fn spec_id_fits(self, id: SegmentId) -> bool {
        &&& id < self.next_segment_id
        &&& self.reserve@.len() > 0 ==> id > self.reserve@.last().id
        &&& self.reserve@.len() == 0 && self.segments@.len() > 0 ==> id > self.segments@.last().id
    }

    /// Builds a manager from `cfg`: derives the sizing, starts with no
    /// visible segments, an empty reserve and a fresh identifier counter.
    /// Fails only if the configuration is structurally invalid: a reserve
    /// depth of zero could never hand a segment to any writer.
    pub fn create(cfg: Config) -> (r: Result<SegmentManager, Error>)
        ensures
            cfg.max_reserve_segments == 0 ==> r == Result::<SegmentManager, Error>::Err(
                Error::Other,
            ),
            cfg.max_reserve_segments >= 1 ==> (r matches Ok(m) && {
                &&& m.wf()
                &&& m.cfg == cfg
                &&& m.max_size == cfg.spec_max_size()
                &&& m.max_mutation_size == cfg.spec_max_size() / 2
                &&& m.segments@.len() == 0
                &&& m.reserve@.len() == 0
                &&& m.next_segment_id == 0
                &&& m.issued@.len() == 0
                &&& m.stats.segments_created == 0
                &&& !m.shutdown
            }),
    {
        if cfg.max_reserve_segments == 0 {
            return Err(Error::Other);
        }
        let max_size = cfg.max_size();
        let max_mutation_size = cfg.max_mutation_size();
        Ok(
            SegmentManager {
                cfg,
                segments: Vec::new(),
                reserve: Vec::new(),
                max_size,
                max_mutation_size,
                next_segment_id: 0,
                issued: Ghost(Seq::empty()),
                stats: Stats::default(),
                shutdown: false,
            },
        )
    }

    /// The byte capacity of every segment of this manager. Constant for the
    /// manager's lifetime.
    pub fn max_size(&self) -> (r: u64)
        ensures
            r == self.max_size,
    {
        self.max_size
    }

    /// The largest single record the log accepts. Constant for the
    /// manager's lifetime.
    pub fn max_mutation_size(&self) -> (r: u64)
        ensures
            r == self.max_mutation_size,
    {
        self.max_mutation_size
    }

    /// First bookkeeping half of creating a segment: issues the next
    /// identifier and names the file. The caller creates the file named by
    /// the returned descriptor with exclusive-create semantics, pre-sizes it
    /// to exactly `max_size` bytes, and hands the descriptor back to
    /// `complete_segment`. No identifier is ever issued twice.
    pub fn prepare_segment(&mut self) -> (r: Result<Descriptor, Error>)
        requires
            old(self).wf(),
            old(self).next_segment_id < u64::MAX,
        ensures
            final (self).wf(),
            old(self).shutdown ==> r == Result::<Descriptor, Error>::Err(Error::Closed) && *final (self) == *old(self),
            !old(self).shutdown ==> (r matches Ok(d) && {
                &&& d.id == old(self).next_segment_id
                &&& final (self).next_segment_id == old(self).next_segment_id + 1
                &&& final (self).issued@ == old(self).issued@.push(d.id)
                &&& *final (self) == (SegmentManager {
                    next_segment_id: (old(self).next_segment_id + 1) as SegmentId,
                    issued: Ghost(old(self).issued@.push(d.id)),
                    ..*old(self)
                })
            }),
    {
        if self.shutdown {
            return Err(Error::Closed);
        }
        let id = self.next_segment_id;
        self.next_segment_id = self.next_segment_id + 1;
        proof {
            self.issued@ = self.issued@.push(id);
        }
        Ok(Descriptor::create(id))
    }

    /// Second bookkeeping half of creating a segment: wraps the file the
    /// caller created and pre-sized for `d` as a fresh segment and offers it
    /// to the reserve. Answers `Ok(true)` when the segment joined the
    /// reserve, and `Ok(false)` — changing nothing — when the reserve is
    /// full: the producer suspends and offers the same descriptor again
    /// later. A descriptor this manager's counter cannot have issued, or one
    /// older than a segment it already knows, fails with `Conflict`.
    pub fn complete_segment(&mut self, d: &Descriptor) -> (r: Result<bool, Error>)
        requires
            old(self).wf(),
        ensures
            final (self).wf(),
            old(self).shutdown ==> r == Result::<bool, Error>::Err(Error::Closed) && *final (self)
                == *old(self),
            !old(self).shutdown && !old(self).spec_id_fits(d.id) ==> r == Result::<
                bool,
                Error,
            >::Err(Error::Conflict) && *final (self) == *old(self),
            !old(self).shutdown && old(self).spec_id_fits(d.id) && old(self).reserve@.len()
                >= old(self).cfg.max_reserve_segments ==> r == Result::<bool, Error>::Ok(false)
                && *final (self) == *old(self),
            !old(self).shutdown && old(self).spec_id_fits(d.id) && old(self).reserve@.len() < old(
                self,
            ).cfg.max_reserve_segments ==> r == Result::<bool, Error>::Ok(true) && *final (self)
                == (SegmentManager {
                reserve: final (self).reserve,
                stats: Stats {
                    segments_created: if old(self).stats.segments_created < u64::MAX {
                        (old(self).stats.segments_created + 1) as u64
                    } else {
                        old(self).stats.segments_created
                    },
                },
                ..*old(self)
            }) && final (self).reserve@ == old(self).reserve@.push(
                Segment {
                    id: d.id,
                    cursor: 0,
                    state: SegmentState::Allocating,
                    max_size: old(self).max_size,
                    max_mutation_size: old(self).max_mutation_size,
                },
            ),
    {
        if self.shutdown {
            return Err(Error::Closed);
        }
        let id_fits = d.id < self.next_segment_id && (if self.reserve.len() > 0 {
            d.id > self.reserve[self.reserve.len() - 1].id
        } else if self.segments.len() > 0 {
            d.id > self.segments[self.segments.len() - 1].id
        } else {
            true
        });
        if !id_fits {
            return Err(Error::Conflict);
        }
        if self.reserve.len() >= self.cfg.max_reserve_segments {
            return Ok(false);
        }
        proof {
            lemma_derived_sizing(self.cfg);
        }
        let seg = Segment::create(d.id, self.max_size, self.max_mutation_size);
        self.reserve.push(seg);
        if self.stats.segments_created < u64::MAX {
            self.stats.segments_created = self.stats.segments_created + 1;
        }
        Ok(true)
    }

    /// The segment writers may use right now: a copy of the most recent
    /// visible segment, if it can still take a maximum-size record. Never
    /// rotates; `allocate_when_possible` does.
    pub fn active_segment(&self) -> (r: Result<Segment, Error>)
        requires
            self.wf(),
        ensures
            self.shutdown ==> r == Result::<Segment, Error>::Err(Error::Closed),
            !self.shutdown && !self.spec_has_active() ==> r == Result::<Segment, Error>::Err(
                Error::NoActiveSegment,
            ),
            !self.shutdown && self.spec_has_active() ==> r == Result::<Segment, Error>::Ok(
                self.segments@.last(),
            ),
    {
        if self.shutdown {
            return Err(Error::Closed);
        }
        let n = self.segments.len();
        if n == 0 {
            return Err(Error::NoActiveSegment);
        }
        let last = self.segments[n - 1];
        if last.is_still_allocating() {
            Ok(last)
        } else {
            Err(Error::NoActiveSegment)
        }
    }

    /// Obtains the current active segment, rotating to the next reserve
    /// segment when the most recent visible segment is missing or can no
    /// longer take a maximum-size record. The segment returned can always
    /// take one more maximum-size record; when neither the visible list nor
    /// the reserve can provide such a segment, that is a genuine
    /// `NoActiveSegment` condition and nothing changes.
    pub fn allocate_when_possible(&mut self) -> (r: Result<Segment, Error>)
        requires
            old(self).wf(),
        ensures
            final (self).wf(),
            r matches Ok(s) ==> s.spec_is_still_allocating() && final (self).segments@.len() > 0
                && s == final (self).segments@.last(),
            old(self).shutdown ==> r == Result::<Segment, Error>::Err(Error::Closed) && *final (self) == *old(self),
            !old(self).shutdown && old(self).spec_has_active() ==> r == Result::<
                Segment,
                Error,
            >::Ok(old(self).segments@.last()) && *final (self) == *old(self),
            !old(self).shutdown && !old(self).spec_has_active() && old(self).reserve@.len() == 0
                ==> r == Result::<Segment, Error>::Err(Error::NoActiveSegment) && *final (self)
                == *old(self),
            !old(self).shutdown && !old(self).spec_has_active() && old(self).reserve@.len() > 0
                ==> {
                let promoted = Segment { state: SegmentState::Active, ..old(self).reserve@[0] };
                &&& r == Result::<Segment, Error>::Ok(promoted)
                &&& old(self).segments@.len() > 0 ==> promoted.id > old(self).segments@.last().id
                &&& final (self).reserve@ == old(self).reserve@.subrange(
                    1,
                    old(self).reserve@.len() as int,
                )
                &&& old(self).segments@.len() == 0 ==> final (self).segments@ == old(
                    self,
                ).segments@.push(promoted)
                &&& old(self).segments@.len() > 0 ==> final (self).segments@ == old(
                    self,
                ).segments@.update(
                    old(self).segments@.len() - 1,
                    Segment {
                        state: if old(self).segments@.last().state is Active {
                            SegmentState::Sealed
                        } else {
                            old(self).segments@.last().state
                        },
                        ..old(self).segments@.last()
                    },
                ).push(promoted)
                &&& *final (self) == (SegmentManager {
                    segments: final (self).segments,
                    reserve: final (self).reserve,
                    ..*old(self)
                })
            },
    {
        if self.shutdown {
            return Err(Error::Closed);
        }
        let n = self.segments.len();
        if n > 0 {
            let last = self.segments[n - 1];
            if last.is_still_allocating() {
                return Ok(last);
            }
        }
        if self.reserve.len() == 0 {
            return Err(Error::NoActiveSegment);
        }
        if n > 0 {
            match self.segments.pop() {
                Some(mut sealed) => {
                    sealed.seal();
                    self.segments.push(sealed);
                    proof {
                        assert(self.segments@ =~= old(self).segments@.update(
                            old(self).segments@.len() - 1,
                            Segment {
                                state: if old(self).segments@.last().state is Active {
                                    SegmentState::Sealed
                                } else {
                                    old(self).segments@.last().state
                                },
                                ..old(self).segments@.last()
                            },
                        ));
                    }
                },
                None => {},
            }
        }
        let mut promoted = self.reserve.remove(0);
        promoted.activate();
        self.segments.push(promoted);
        Ok(promoted)
    }

    /// Performs the write-path bookkeeping for one record of `size` bytes:
    /// validates the size against the per-mutation ceiling, advances the
    /// active segment's cursor, and returns the durable point the record
    /// starts at. An oversized record, a shut-down log, or a missing active
    /// segment is rejected with no state mutation at all.
    pub fn advance_active(&mut self, size: u64) -> (r: Result<ReplayPosition, Error>)
        requires
            old(self).wf(),
        ensures
            final (self).wf(),
            old(self).shutdown ==> r == Result::<ReplayPosition, Error>::Err(Error::Closed)
                && *final (self) == *old(self),
            !old(self).shutdown && size > old(self).max_mutation_size ==> r == Result::<
                ReplayPosition,
                Error,
            >::Err(
                Error::MutationTooLarge { size, max_size: old(self).max_size },
            ) && *final (self) == *old(self),
            !old(self).shutdown && size <= old(self).max_mutation_size && !old(
                self,
            ).spec_has_active() ==> r == Result::<ReplayPosition, Error>::Err(
                Error::NoActiveSegment,
            ) && *final (self) == *old(self),
            !old(self).shutdown && size <= old(self).max_mutation_size && old(
                self,
            ).spec_has_active() ==> {
                let last = old(self).segments@.last();
                &&& r == Result::<ReplayPosition, Error>::Ok(
                    ReplayPosition { id: last.id, position: last.cursor },
                )
                &&& final (self).segments@ == old(self).segments@.update(
                    old(self).segments@.len() - 1,
                    Segment { cursor: (last.cursor + size) as u32, ..last },
                )
                &&& *final (self) == (SegmentManager { segments: final (self).segments, ..*old(
                    self,
                ) })
            },
    {
        if self.shutdown {
            return Err(Error::Closed);
        }
        if size > self.max_mutation_size {
            return Err(Error::MutationTooLarge { size, max_size: self.max_size });
        }
        let n = self.segments.len();
        if n == 0 {
            return Err(Error::NoActiveSegment);
        }
        let last = self.segments[n - 1];
        if !last.is_still_allocating() {
            return Err(Error::NoActiveSegment);
        }
        let pos = ReplayPosition::create(last.id, last.cursor);
        match self.segments.pop() {
            Some(mut seg) => {
                let advanced = seg.advance(size as u32);
                self.segments.push(seg);
                proof {
                    assert(advanced is Ok);
                    assert(self.segments@ =~= old(self).segments@.update(
                        old(self).segments@.len() - 1,
                        Segment { cursor: (last.cursor + size) as u32, ..last },
                    ));
                }
                Ok(pos)
            },
            None => {
                proof {
                    assert(false);
                }
                Err(Error::NoActiveSegment)
            },
        }
    }

    /// Shuts the log down: sets the flag so every later operation fails with
    /// `Closed`, and drains the queued-but-unclaimed reserve. The drained
    /// segments are handed back so their files can be rejected (removed);
    /// the visible list stays, since replay may still need it.
    pub fn close(&mut self) -> (r: Vec<Segment>)
        requires
            old(self).wf(),
        ensures
            final (self).wf(),
            final (self).shutdown,
            final (self).reserve@.len() == 0,
            r@ == old(self).reserve@,
            *final (self) == (SegmentManager {
                reserve: final (self).reserve,
                shutdown: true,
                ..*old(self)
            }),
    {
        self.shutdown = true;
        let mut drained: Vec<Segment> = Vec::new();
        drained.append(&mut self.reserve);
        drained
    }

    /// Whether the reserve can take one more segment right now.
    pub fn reserve_has_room(&self) -> (r: bool)
        ensures
            r == (self.reserve@.len() < self.cfg.max_reserve_segments),
    {
        self.reserve.len() < self.cfg.max_reserve_segments
    }

    /// How many pre-created segments wait in the reserve.
    pub fn reserve_len(&self) -> (r: usize)
        ensures
            r == self.reserve@.len(),
    {
        self.reserve.len()
    }

    /// How many segments are visible to writers.
    pub fn segments_len(&self) -> (r: usize)
        ensures
            r == self.segments@.len(),
    {
        self.segments.len()
    }

    /// How many segments this manager has created.
    pub fn segments_created(&self) -> (r: u64)
        ensures
            r == self.stats.segments_created,
    {
        self.stats.segments_created
    }

    /// Whether the log has been shut down.
    pub fn is_shutdown(&self) -> (r: bool)
        ensures
            r == self.shutdown,
    {
        self.shutdown
    }
}

/// Law: the identifiers one manager issues are strictly increasing in order
/// of issue and never repeat, for any interleaving of allocation calls:
/// the record of issued identifiers reads 0, 1, 2, ... however it was built.
pub proof fn lemma_issued_ids_strictly_increase(m: SegmentManager)
    requires
        m.wf(),
    ensures
        forall|i: int, j: int|
            0 <= i < j < m.issued@.len() ==> #[trigger] m.issued@[i] < #[trigger] m.issued@[j],
{
}

/// Law: the reserve never holds more segments than the configured depth.
/// Together with `complete_segment`'s contract — a push against a full
/// reserve answers `Ok(false)` and changes nothing — the producer suspends
/// at the bound rather than dropping a segment or failing.
pub proof fn lemma_reserve_bounded(m: SegmentManager)
    requires
        m.wf(),
    ensures
        m.reserve@.len() <= m.cfg.max_reserve_segments,
{
}

} // verus!
