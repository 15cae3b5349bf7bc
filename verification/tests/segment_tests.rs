use commitlog::Error;
use commitlog::Segment;
use commitlog::SegmentState;

const MIB: u64 = 1024 * 1024;

fn fresh_segment(id: u64) -> Segment {
    Segment::create(id, MIB, MIB / 2)
}

#[test]
fn create_starts_allocating_at_cursor_zero() {
    let s = fresh_segment(3);
    assert_eq!(s.id, 3);
    assert_eq!(s.cursor, 0);
    assert_eq!(s.state, SegmentState::Allocating);
    assert_eq!(s.max_size, MIB);
    assert_eq!(s.max_mutation_size, MIB / 2);
}

#[test]
fn not_still_allocating_before_activation() {
    let s = fresh_segment(0);
    assert!(!s.is_still_allocating());
}

#[test]
fn active_segment_with_room_is_still_allocating() {
    let mut s = fresh_segment(0);
    s.activate();
    assert_eq!(s.state, SegmentState::Active);
    assert!(s.is_still_allocating());
}

#[test]
fn still_allocating_flips_once_room_for_a_full_record_is_gone() {
    let mut s = fresh_segment(0);
    s.activate();
    assert_eq!(s.advance((MIB / 2) as u32), Ok(()));
    // Exactly one maximum-size record still fits.
    assert!(s.is_still_allocating());
    assert_eq!(s.advance(1), Ok(()));
    assert!(!s.is_still_allocating());
}

#[test]
fn advance_past_the_end_is_out_of_space_and_changes_nothing() {
    let mut s = fresh_segment(0);
    s.activate();
    assert_eq!(s.advance(MIB as u32), Ok(()));
    assert_eq!(s.cursor as u64, MIB);
    assert_eq!(s.advance(1), Err(Error::OutOfSpace));
    assert_eq!(s.cursor as u64, MIB);
}

#[test]
fn seal_is_idempotent() {
    let mut s = fresh_segment(0);
    s.activate();
    s.seal();
    assert_eq!(s.state, SegmentState::Sealed);
    s.seal();
    assert_eq!(s.state, SegmentState::Sealed);
}

#[test]
fn seal_leaves_an_unexposed_segment_alone() {
    let mut s = fresh_segment(0);
    s.seal();
    assert_eq!(s.state, SegmentState::Allocating);
}

#[test]
fn discard_only_after_seal() {
    let mut s = fresh_segment(0);
    s.activate();
    s.discard();
    assert_eq!(s.state, SegmentState::Active);
    s.seal();
    s.discard();
    assert_eq!(s.state, SegmentState::Discarded);
}

#[test]
fn replay_position_tracks_the_cursor() {
    let mut s = fresh_segment(9);
    s.activate();
    assert_eq!(s.advance(100), Ok(()));
    let p = s.replay_position();
    assert_eq!(p.id, 9);
    assert_eq!(p.position, 100);
}
