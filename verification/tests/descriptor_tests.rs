use commitlog::Descriptor;

#[test]
fn filename_is_fixed_width_decimal() {
    assert_eq!(Descriptor::create(42).filename(), "CommitLog-00000000000000000042.log");
    assert_eq!(Descriptor::create(0).filename(), "CommitLog-00000000000000000000.log");
    assert_eq!(
        Descriptor::create(u64::MAX).filename(),
        "CommitLog-18446744073709551615.log"
    );
}

#[test]
fn filename_parse_round_trip() {
    for id in [0u64, 1, 9, 10, 42, 999, 123456789, u64::MAX - 1, u64::MAX] {
        let d = Descriptor::create(id);
        assert_eq!(Descriptor::parse(&d.filename()), Some(id));
    }
}

#[test]
fn foreign_filenames_are_skipped_silently() {
    assert_eq!(Descriptor::parse(""), None);
    assert_eq!(Descriptor::parse("foo.log"), None);
    assert_eq!(Descriptor::parse("CommitLog-42.log"), None);
    assert_eq!(Descriptor::parse("CommitLog-0000000000000000004X.log"), None);
    assert_eq!(Descriptor::parse("commitlog-00000000000000000042.log"), None);
    assert_eq!(Descriptor::parse("CommitLog-00000000000000000042.txt"), None);
    assert_eq!(Descriptor::parse("CommitLog-00000000000000000042.logg"), None);
    assert_eq!(Descriptor::parse("CommitLog-0000000000000000042.log"), None);
}

#[test]
fn values_past_the_id_range_are_rejected() {
    // Twenty nines write a number above the identifier range.
    assert_eq!(Descriptor::parse("CommitLog-99999999999999999999.log"), None);
    // One past the largest identifier.
    assert_eq!(Descriptor::parse("CommitLog-18446744073709551616.log"), None);
}

#[test]
fn filename_order_matches_id_order_on_samples() {
    let a = Descriptor::create(9).filename();
    let b = Descriptor::create(10).filename();
    let c = Descriptor::create(100).filename();
    assert!(a < b);
    assert!(b < c);
}

#[test]
fn non_ascii_names_are_rejected() {
    assert_eq!(Descriptor::parse("CommitLog-0000000000000000004\u{00e9}.log"), None);
}
