use std::cmp::Ordering;

use commitlog::ReplayPosition;

#[test]
fn create_keeps_the_fields() {
    let p = ReplayPosition::create(7, 512);
    assert_eq!(p, ReplayPosition { id: 7, position: 512 });
}

#[test]
fn order_is_lexicographic() {
    assert!(ReplayPosition::create(1, 100) < ReplayPosition::create(2, 0));
    assert!(ReplayPosition::create(1, 100) < ReplayPosition::create(1, 101));
    assert!(ReplayPosition::create(2, 0) > ReplayPosition::create(1, u32::MAX));
    assert_eq!(
        ReplayPosition::create(3, 30).partial_cmp(&ReplayPosition::create(3, 30)),
        Some(Ordering::Equal)
    );
}

#[test]
fn order_is_total_on_samples() {
    let samples = [
        ReplayPosition::create(0, 0),
        ReplayPosition::create(0, 1),
        ReplayPosition::create(1, 0),
        ReplayPosition::create(1, u32::MAX),
        ReplayPosition::create(u64::MAX, 0),
    ];
    for a in samples {
        for b in samples {
            let cmp = a.partial_cmp(&b);
            assert!(cmp.is_some());
            match cmp.unwrap() {
                Ordering::Less => assert_eq!(b.partial_cmp(&a), Some(Ordering::Greater)),
                Ordering::Greater => assert_eq!(b.partial_cmp(&a), Some(Ordering::Less)),
                Ordering::Equal => assert_eq!(a, b),
            }
        }
    }
}
