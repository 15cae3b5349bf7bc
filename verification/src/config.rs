//! Validated, immutable commit-log settings and the sizing derived from them.

use vstd::prelude::*;

verus! {

/// One mebibyte: the floor for the size of a segment.
pub const MIB: u64 = 0x100000;

/// The largest byte offset the cursor type can represent; a segment can
/// never be larger than this.
pub const OFFSET_MAX: u64 = 0xFFFF_FFFF;

/// Immutable after construction: where the log lives, its disk budget,
/// per-segment size, sync period, and reserve depth.
#[derive(Debug)]
pub struct Config {
    /// Directory that holds the segment files.
    pub commit_log_location: String,
    /// Operator-configured total disk budget, in mebibytes.
    pub commitlog_total_space_in_mb: u64,
    /// Operator-configured per-segment size, in mebibytes.
    pub commitlog_segment_size_in_mb: u64,
    /// How often the log is synced to disk, in milliseconds.
    pub commitlog_sync_period_in_ms: u64,
    /// Capacity of the reserve of pre-created, not-yet-claimed segments.
    pub max_reserve_segments: usize,
}

impl Config {
    /// The byte capacity of one segment: the configured size converted to
    /// bytes, floored at one mebibyte and clamped to the range of the
    /// offset type.
    pub open spec fn spec_max_size(self) -> u64 {
        let wanted = if self.commitlog_segment_size_in_mb >= 1 {
            self.commitlog_segment_size_in_mb * (MIB as int)
        } else {
            MIB as int
        };
        if wanted > OFFSET_MAX as int {
            OFFSET_MAX
        } else {
            wanted as u64
        }
    }

    /// The largest single record the log will ever accept: half a segment,
    /// so that segment-boundary bookkeeping always has headroom.
    pub open spec fn spec_max_mutation_size(self) -> u64 {
        self.spec_max_size() / 2
    }

    /// Computes `spec_max_size`: the per-segment byte capacity.
    pub fn max_size(&self) -> (r: u64)
        ensures
            r == self.spec_max_size(),
    {
        if self.commitlog_segment_size_in_mb >= 0x1000 {
            proof {
                assert(self.commitlog_segment_size_in_mb * (MIB as int) >= 0x1000 * (
                MIB as int)) by (nonlinear_arith)
                    requires
                        self.commitlog_segment_size_in_mb >= 0x1000,
                ;
            }
            OFFSET_MAX
        } else if self.commitlog_segment_size_in_mb >= 1 {
            self.commitlog_segment_size_in_mb * MIB
        } else {
            MIB
        }
    }

    /// Computes `spec_max_mutation_size`: the per-mutation byte ceiling.
    pub fn max_mutation_size(&self) -> (r: u64)
        ensures
            r == self.spec_max_mutation_size(),
    {
        self.max_size() / 2
    }

    /// The total disk budget in bytes, saturated at the top of `u64`.
    pub open spec fn spec_total_space_bytes(self) -> u64 {
        if self.commitlog_total_space_in_mb * (MIB as int) > u64::MAX as int {
            u64::MAX
        } else {
            (self.commitlog_total_space_in_mb * (MIB as int)) as u64
        }
    }

    /// Computes `spec_total_space_bytes`: the disk budget in bytes.
    pub fn total_space_bytes(&self) -> (r: u64)
        ensures
            r == self.spec_total_space_bytes(),
    {
        if self.commitlog_total_space_in_mb > u64::MAX / MIB {
            proof {
                assert(self.commitlog_total_space_in_mb * (MIB as int) > u64::MAX as int)
                    by (nonlinear_arith)
                    requires
                        self.commitlog_total_space_in_mb > u64::MAX / MIB,
                ;
            }
            u64::MAX
        } else {
            proof {
                assert(self.commitlog_total_space_in_mb * (MIB as int) <= u64::MAX as int)
                    by (nonlinear_arith)
                    requires
                        self.commitlog_total_space_in_mb <= u64::MAX / MIB,
                ;
            }
            self.commitlog_total_space_in_mb * MIB
        }
    }
}

/// Law: for every configuration, the derived segment size is at least one
/// mebibyte and at most the range of the offset type, and the per-mutation
/// ceiling is exactly half the segment size.
pub proof fn lemma_derived_sizing(cfg: Config)
    ensures
        cfg.spec_max_mutation_size() == cfg.spec_max_size() / 2,
        cfg.spec_max_size() >= MIB,
        cfg.spec_max_size() <= OFFSET_MAX,
{
    if cfg.commitlog_segment_size_in_mb >= 1 {
        assert(cfg.commitlog_segment_size_in_mb * (MIB as int) >= 1 * (MIB as int))
            by (nonlinear_arith)
            requires
                cfg.commitlog_segment_size_in_mb >= 1,
        ;
    }
}

/// Step-by-step builder for `Config`, with the recognized defaults.
#[derive(Debug)]
pub struct ConfigBuilder {
    /// Required: where the log lives. `build` fails while it is unset.
    pub commit_log_location: Option<String>,
    /// Defaults to 100 mebibytes.
    pub commitlog_total_space_in_mb: u64,
    /// Defaults to 32 mebibytes.
    pub commitlog_segment_size_in_mb: u64,
    /// Defaults to 10 seconds.
    pub commitlog_sync_period_in_ms: u64,
    /// Defaults to `default_max_reserve_segments`.
    pub max_reserve_segments: usize,
}

impl ConfigBuilder {
    /// How many pre-created segments the reserve may hold, when the operator
    /// does not say.
    pub fn default_max_reserve_segments() -> (r: usize)
        ensures
            r == 12,
    {
        12
    }

    /// A builder holding every default, with the location still unset.
    pub fn new() -> (r: ConfigBuilder)
        ensures
            r.commit_log_location is None,
            r.commitlog_total_space_in_mb == 100,
            r.commitlog_segment_size_in_mb == 32,
            r.commitlog_sync_period_in_ms == 10000,
            r.max_reserve_segments == 12,
    {
        ConfigBuilder {
            commit_log_location: None,
            commitlog_total_space_in_mb: 100,
            commitlog_segment_size_in_mb: 32,
            commitlog_sync_period_in_ms: 10 * 1000,
            max_reserve_segments: ConfigBuilder::default_max_reserve_segments(),
        }
    }

    /// Sets the directory that holds the segment files.
    pub fn commit_log_location(self, location: String) -> (r: ConfigBuilder)
        ensures
            r == (ConfigBuilder { commit_log_location: Some(location), ..self }),
    {
        ConfigBuilder { commit_log_location: Some(location), ..self }
    }

    /// Sets the total disk budget, in mebibytes.
    pub fn commitlog_total_space_in_mb(self, mb: u64) -> (r: ConfigBuilder)
        ensures
            r == (ConfigBuilder { commitlog_total_space_in_mb: mb, ..self }),
    {
        ConfigBuilder { commitlog_total_space_in_mb: mb, ..self }
    }

    /// Sets the per-segment size, in mebibytes.
    pub fn commitlog_segment_size_in_mb(self, mb: u64) -> (r: ConfigBuilder)
        ensures
            r == (ConfigBuilder { commitlog_segment_size_in_mb: mb, ..self }),
    {
        ConfigBuilder { commitlog_segment_size_in_mb: mb, ..self }
    }

    /// Sets the sync period, in milliseconds.
    pub fn commitlog_sync_period_in_ms(self, ms: u64) -> (r: ConfigBuilder)
        ensures
            r == (ConfigBuilder { commitlog_sync_period_in_ms: ms, ..self }),
    {
        ConfigBuilder { commitlog_sync_period_in_ms: ms, ..self }
    }

    /// Sets the capacity of the reserve of pre-created segments.
    pub fn max_reserve_segments(self, n: usize) -> (r: ConfigBuilder)
        ensures
            r == (ConfigBuilder { max_reserve_segments: n, ..self }),
    {
        ConfigBuilder { max_reserve_segments: n, ..self }
    }

    /// Finishes the builder. Returns the configuration, or nothing while the
    /// required location is still unset.
    pub fn build(self) -> (r: Option<Config>)
        ensures
            r is Some <==> self.commit_log_location is Some,
            r matches Some(cfg) ==> {
                &&& cfg.commit_log_location == self.commit_log_location->0
                &&& cfg.commitlog_total_space_in_mb == self.commitlog_total_space_in_mb
                &&& cfg.commitlog_segment_size_in_mb == self.commitlog_segment_size_in_mb
                &&& cfg.commitlog_sync_period_in_ms == self.commitlog_sync_period_in_ms
                &&& cfg.max_reserve_segments == self.max_reserve_segments
            },
    {
        match self.commit_log_location {
            None => None,
            Some(location) => Some(
                Config {
                    commit_log_location: location,
                    commitlog_total_space_in_mb: self.commitlog_total_space_in_mb,
                    commitlog_segment_size_in_mb: self.commitlog_segment_size_in_mb,
                    commitlog_sync_period_in_ms: self.commitlog_sync_period_in_ms,
                    max_reserve_segments: self.max_reserve_segments,
                },
            ),
        }
    }
}

} // verus!
