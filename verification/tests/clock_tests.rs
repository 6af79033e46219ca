use zenoh_extcap::clock::{elapsed, Timestamp, NANOS_PER_SEC};

#[test]
fn timestamp_new_accepts_nanos_below_one_second() {
    assert_eq!(Timestamp::new(7, 0), Some(Timestamp { secs: 7, nanos: 0 }));
    assert_eq!(Timestamp::new(7, 999_999_999), Some(Timestamp { secs: 7, nanos: 999_999_999 }));
    assert_eq!(Timestamp::new(u64::MAX, 1), Some(Timestamp { secs: u64::MAX, nanos: 1 }));
}

#[test]
fn timestamp_new_refuses_a_full_second_of_nanos() {
    assert_eq!(NANOS_PER_SEC, 1_000_000_000);
    assert_eq!(Timestamp::new(7, 1_000_000_000), None);
    assert_eq!(Timestamp::new(0, u32::MAX), None);
}

#[test]
fn elapsed_without_borrow() {
    let start = Timestamp { secs: 10, nanos: 250 };
    let now = Timestamp { secs: 12, nanos: 1_000 };
    assert_eq!(elapsed(start, now), Timestamp { secs: 2, nanos: 750 });
}

#[test]
fn elapsed_borrows_from_the_seconds() {
    let start = Timestamp { secs: 3, nanos: 900_000_000 };
    let now = Timestamp { secs: 5, nanos: 100_000_000 };
    assert_eq!(elapsed(start, now), Timestamp { secs: 1, nanos: 200_000_000 });
}

#[test]
fn elapsed_within_one_second() {
    let start = Timestamp { secs: 3, nanos: 1 };
    let now = Timestamp { secs: 3, nanos: 999_999_999 };
    assert_eq!(elapsed(start, now), Timestamp { secs: 0, nanos: 999_999_998 });
}

#[test]
fn elapsed_of_equal_readings_is_zero() {
    let t = Timestamp { secs: 42, nanos: 17 };
    assert_eq!(elapsed(t, t), Timestamp { secs: 0, nanos: 0 });
}

#[test]
fn elapsed_saturates_when_now_is_earlier() {
    let start = Timestamp { secs: 5, nanos: 0 };
    assert_eq!(elapsed(start, Timestamp { secs: 4, nanos: 999_999_999 }), Timestamp { secs: 0, nanos: 0 });
    let start = Timestamp { secs: 5, nanos: 10 };
    assert_eq!(elapsed(start, Timestamp { secs: 5, nanos: 9 }), Timestamp { secs: 0, nanos: 0 });
}

#[test]
fn elapsed_at_the_ends_of_the_range() {
    let zero = Timestamp { secs: 0, nanos: 0 };
    let last = Timestamp { secs: u64::MAX, nanos: 999_999_999 };
    assert_eq!(elapsed(zero, last), last);
    assert_eq!(
        elapsed(Timestamp { secs: 0, nanos: 999_999_999 }, Timestamp { secs: u64::MAX, nanos: 0 }),
        Timestamp { secs: u64::MAX - 1, nanos: 1 }
    );
}
