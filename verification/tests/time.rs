use ledger_shell::time::DateTimeUtc;

#[test]
fn time_keeps_its_parts() {
    let t = DateTimeUtc::new(1_600_000_000, 5).unwrap();
    assert_eq!(t.seconds(), 1_600_000_000);
    assert_eq!(t.nanos(), 5);
}

#[test]
fn time_refuses_a_whole_second_of_nanos() {
    assert!(DateTimeUtc::new(0, 999_999_999).is_some());
    assert!(DateTimeUtc::new(0, 1_000_000_000).is_none());
    assert!(DateTimeUtc::new(0, u32::MAX).is_none());
}

#[test]
fn unix_epoch_is_zero() {
    let t = DateTimeUtc::unix_epoch();
    assert_eq!(t.seconds(), 0);
    assert_eq!(t.nanos(), 0);
    assert_eq!(Some(t), DateTimeUtc::new(0, 0));
}

#[test]
fn times_are_ordered_by_seconds_then_nanos() {
    let a = DateTimeUtc::new(10, 500).unwrap();
    let b = DateTimeUtc::new(10, 501).unwrap();
    let c = DateTimeUtc::new(11, 0).unwrap();
    let d = DateTimeUtc::new(-1, 999_999_999).unwrap();
    assert!(a.is_at_or_after(&a));
    assert!(b.is_at_or_after(&a));
    assert!(!a.is_at_or_after(&b));
    assert!(c.is_at_or_after(&b));
    assert!(!b.is_at_or_after(&c));
    assert!(a.is_at_or_after(&d));
    assert!(!d.is_at_or_after(&a));
}

#[test]
fn plus_seconds_adds() {
    let t = DateTimeUtc::new(100, 7).unwrap();
    assert_eq!(t.plus_seconds(0), t);
    assert_eq!(t.plus_seconds(50), DateTimeUtc::new(150, 7).unwrap());
    let early = DateTimeUtc::new(-100, 7).unwrap();
    assert_eq!(early.plus_seconds(30), DateTimeUtc::new(-70, 7).unwrap());
}

#[test]
fn plus_seconds_stops_at_the_last_second() {
    let t = DateTimeUtc::new(i64::MAX - 1, 3).unwrap();
    assert_eq!(t.plus_seconds(1), DateTimeUtc::new(i64::MAX, 3).unwrap());
    assert_eq!(t.plus_seconds(2), DateTimeUtc::new(i64::MAX, 3).unwrap());
    assert_eq!(t.plus_seconds(u64::MAX), DateTimeUtc::new(i64::MAX, 3).unwrap());
    let early = DateTimeUtc::new(i64::MIN, 0).unwrap();
    assert_eq!(early.plus_seconds(u64::MAX), DateTimeUtc::new(i64::MAX, 0).unwrap());
}
