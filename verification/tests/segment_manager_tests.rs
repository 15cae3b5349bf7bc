use commitlog::ConfigBuilder;
use commitlog::Error;
use commitlog::ReplayPosition;
use commitlog::SegmentManager;
use commitlog::SegmentState;

const MIB: u64 = 1024 * 1024;

fn small_manager() -> SegmentManager {
    let cfg = ConfigBuilder::new()
        .commit_log_location(String::from("wal"))
        .commitlog_segment_size_in_mb(1)
        .max_reserve_segments(2)
        .build()
        .unwrap();
    SegmentManager::create(cfg).unwrap()
}

/// Issues one identifier and pushes the segment into the reserve; the
/// file-system work that sits between the two calls in production is not
/// needed for bookkeeping tests.
fn replenish_once(m: &mut SegmentManager) -> Result<bool, Error> {
    if !m.reserve_has_room() {
        return Ok(false);
    }
    let d = m.prepare_segment()?;
    m.complete_segment(&d)
}

fn fill_reserve(m: &mut SegmentManager) {
    while replenish_once(m).unwrap() {}
}

#[test]
fn create_derives_the_sizing() {
    let m = small_manager();
    assert_eq!(m.max_size(), MIB);
    assert_eq!(m.max_mutation_size(), MIB / 2);
    assert_eq!(m.reserve_len(), 0);
    assert_eq!(m.segments_len(), 0);
    assert_eq!(m.segments_created(), 0);
    assert!(!m.is_shutdown());
}

#[test]
fn create_rejects_a_zero_reserve_depth() {
    let cfg = ConfigBuilder::new()
        .commit_log_location(String::from("wal"))
        .max_reserve_segments(0)
        .build()
        .unwrap();
    assert_eq!(SegmentManager::create(cfg).err(), Some(Error::Other));
}

#[test]
fn fresh_manager_has_no_active_segment() {
    let mut m = small_manager();
    assert_eq!(m.active_segment().err(), Some(Error::NoActiveSegment));
    assert_eq!(m.allocate_when_possible().err(), Some(Error::NoActiveSegment));
    // The failed requests changed nothing.
    assert_eq!(m.segments_len(), 0);
    assert_eq!(m.reserve_len(), 0);
}

#[test]
fn issued_ids_strictly_increase() {
    let mut m = small_manager();
    let a = m.prepare_segment().unwrap();
    let b = m.prepare_segment().unwrap();
    let c = m.prepare_segment().unwrap();
    assert_eq!(a.id, 0);
    assert_eq!(b.id, 1);
    assert_eq!(c.id, 2);
}

#[test]
fn reserve_fills_to_its_bound_and_suspends() {
    let mut m = small_manager();
    fill_reserve(&mut m);
    assert_eq!(m.reserve_len(), 2);
    assert_eq!(m.segments_created(), 2);
    // A further push suspends: nothing dropped, nothing errors.
    let d = m.prepare_segment().unwrap();
    assert_eq!(m.complete_segment(&d), Ok(false));
    assert_eq!(m.reserve_len(), 2);
    assert_eq!(m.segments_created(), 2);
    // The reserve stays at its bound however often the producer retries.
    assert_eq!(m.complete_segment(&d), Ok(false));
    assert_eq!(m.reserve_len(), 2);
}

#[test]
fn consuming_one_segment_lets_the_reserve_refill() {
    let mut m = small_manager();
    fill_reserve(&mut m);
    assert_eq!(m.reserve_len(), 2);
    let s = m.allocate_when_possible().unwrap();
    assert_eq!(s.id, 0);
    assert_eq!(m.reserve_len(), 1);
    fill_reserve(&mut m);
    assert_eq!(m.reserve_len(), 2);
    assert_eq!(m.segments_created(), 3);
}

#[test]
fn allocate_returns_a_segment_that_can_take_a_full_record() {
    let mut m = small_manager();
    fill_reserve(&mut m);
    let s = m.allocate_when_possible().unwrap();
    assert!(s.is_still_allocating());
    assert_eq!(s.state, SegmentState::Active);
    assert_eq!(s.cursor, 0);
    // Asking again without writing returns the same active segment.
    let again = m.allocate_when_possible().unwrap();
    assert_eq!(again, s);
    assert_eq!(m.segments_len(), 1);
}

#[test]
fn oversized_mutation_is_rejected_without_any_state_change() {
    let mut m = small_manager();
    fill_reserve(&mut m);
    m.allocate_when_possible().unwrap();
    let before_active = m.active_segment().unwrap();
    let too_large = m.max_mutation_size() + 1;
    assert_eq!(
        m.advance_active(too_large),
        Err(Error::MutationTooLarge { size: too_large, max_size: m.max_size() })
    );
    assert_eq!(m.active_segment().unwrap(), before_active);
    assert_eq!(m.segments_len(), 1);
    assert_eq!(m.reserve_len(), 1);
}

#[test]
fn advancing_returns_the_durable_point_where_the_record_starts() {
    let mut m = small_manager();
    fill_reserve(&mut m);
    m.allocate_when_possible().unwrap();
    assert_eq!(m.advance_active(100), Ok(ReplayPosition { id: 0, position: 0 }));
    assert_eq!(m.advance_active(50), Ok(ReplayPosition { id: 0, position: 100 }));
    assert_eq!(m.active_segment().unwrap().cursor, 150);
}

#[test]
fn rotation_moves_to_a_strictly_newer_segment() {
    let mut m = small_manager();
    fill_reserve(&mut m);
    let first = m.allocate_when_possible().unwrap();
    assert_eq!(first.id, 0);
    // Walk the cursor to within one maximum-size record of the end.
    let half = m.max_mutation_size();
    m.advance_active(half).unwrap();
    m.advance_active(1).unwrap();
    // The active segment can no longer take a full record.
    assert_eq!(m.active_segment().err(), Some(Error::NoActiveSegment));
    let second = m.allocate_when_possible().unwrap();
    assert!(second.id > first.id);
    assert_eq!(second.id, 1);
    assert!(second.is_still_allocating());
    assert_eq!(m.segments_len(), 2);
    assert_eq!(m.reserve_len(), 0);
}

#[test]
fn rotation_with_an_empty_reserve_is_no_active_segment() {
    let mut m = small_manager();
    fill_reserve(&mut m);
    m.allocate_when_possible().unwrap();
    let half = m.max_mutation_size();
    m.advance_active(half).unwrap();
    m.advance_active(1).unwrap();
    m.allocate_when_possible().unwrap();
    let half = m.max_mutation_size();
    m.advance_active(half).unwrap();
    m.advance_active(1).unwrap();
    assert_eq!(m.allocate_when_possible().err(), Some(Error::NoActiveSegment));
}

#[test]
fn stale_descriptor_is_a_conflict() {
    let mut m = small_manager();
    let stale = m.prepare_segment().unwrap();
    let newer = m.prepare_segment().unwrap();
    assert_eq!(m.complete_segment(&newer), Ok(true));
    // An identifier older than one already in the reserve means the counter
    // and the on-disk state have come apart.
    assert_eq!(m.complete_segment(&stale), Err(Error::Conflict));
    assert_eq!(m.reserve_len(), 1);
}

#[test]
fn foreign_descriptor_is_a_conflict() {
    let mut m = small_manager();
    let foreign = commitlog::Descriptor::create(17);
    assert_eq!(m.complete_segment(&foreign), Err(Error::Conflict));
    assert_eq!(m.reserve_len(), 0);
}

#[test]
fn close_drains_the_reserve_and_fails_everything_afterwards() {
    let mut m = small_manager();
    fill_reserve(&mut m);
    m.allocate_when_possible().unwrap();
    let pending = m.prepare_segment().unwrap();
    let drained = m.close();
    assert_eq!(drained.len(), 1);
    assert_eq!(drained[0].id, 1);
    assert!(m.is_shutdown());
    assert_eq!(m.reserve_len(), 0);
    // The visible list stays for replay.
    assert_eq!(m.segments_len(), 1);
    assert_eq!(m.prepare_segment().err(), Some(Error::Closed));
    assert_eq!(m.complete_segment(&pending).err(), Some(Error::Closed));
    assert_eq!(m.allocate_when_possible().err(), Some(Error::Closed));
    assert_eq!(m.active_segment().err(), Some(Error::Closed));
    assert_eq!(m.advance_active(1).err(), Some(Error::Closed));
}

#[test]
fn io_errors_carry_the_system_code() {
    assert_eq!(Error::IO(Some(28)), Error::IO(Some(28)));
    assert_ne!(Error::IO(Some(28)), Error::IO(None));
}
