//! Segment-management core of a write-ahead commit log.
//!
//! The library manages a pool of fixed-size, pre-allocated log segments:
//! configuration-driven sizing, unique and recoverable segment naming,
//! replay-position ordering, the per-segment write cursor and lifecycle,
//! and a bounded reserve of pre-created segments with backpressure.
//!
//! All file input and output stays outside the library: callers create and
//! size the segment files and hand the bookkeeping results back in as plain
//! values.

pub mod config;
pub mod descriptor;
pub mod errors;
pub mod reactor;
pub mod replay;
pub mod segment;
pub mod segment_manager;

pub use config::Config;
pub use config::ConfigBuilder;
pub use descriptor::Descriptor;
pub use errors::Error;
pub use reactor::Reactor;
pub use replay::Position;
pub use replay::ReplayPosition;
pub use replay::SegmentId;
pub use segment::Segment;
pub use segment::SegmentState;
pub use segment_manager::SegmentManager;
pub use segment_manager::Stats;
