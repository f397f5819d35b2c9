use run_coordination::clock::{read, Instant};

fn at(secs: i64, nanos: u32) -> Instant {
    Instant::new(secs, nanos).expect("valid instant")
}

#[test]
fn new_accepts_the_epoch_and_ordinary_times() {
    assert_eq!(Instant::new(0, 0), Some(Instant { secs: 0, nanos: 0 }));
    assert_eq!(
        Instant::new(1_700_000_000, 999_999_999),
        Some(Instant { secs: 1_700_000_000, nanos: 999_999_999 })
    );
    assert_eq!(Instant::new(-5, 1), Some(Instant { secs: -5, nanos: 1 }));
}

#[test]
fn new_rejects_a_full_second_of_nanoseconds() {
    assert_eq!(Instant::new(0, 1_000_000_000), None);
    assert_eq!(Instant::new(0, u32::MAX), None);
}

#[test]
fn new_rejects_seconds_at_and_beyond_the_limit() {
    let limit: i64 = 0x1_0000_0000_0000;
    assert_eq!(Instant::new(limit, 0), None);
    assert_eq!(Instant::new(-limit, 0), None);
    assert_eq!(Instant::new(i64::MAX, 0), None);
    assert_eq!(Instant::new(i64::MIN, 0), None);
    assert!(Instant::new(limit - 1, 0).is_some());
    assert!(Instant::new(-limit + 1, 0).is_some());
}

#[test]
fn whole_millis_cut_off_what_is_less_than_a_millisecond() {
    assert_eq!(at(12, 100_000_000).whole_millis_since(&at(10, 900_000_000)), 1_200);
    assert_eq!(at(12, 900_000_000).whole_millis_since(&at(10, 900_000_000)), 2_000);
    assert_eq!(at(12, 899_999_999).whole_millis_since(&at(10, 900_000_000)), 1_999);
    assert_eq!(at(10, 999_999_999).whole_millis_since(&at(10, 0)), 999);
    assert_eq!(at(10, 999_999).whole_millis_since(&at(10, 0)), 0);
    assert_eq!(at(10, 1_000_000).whole_millis_since(&at(10, 0)), 1);
    assert_eq!(at(11, 900_000_000).whole_millis_since(&at(10, 0)), 1_900);
}

#[test]
fn whole_millis_of_no_time_is_zero() {
    assert_eq!(at(42, 7).whole_millis_since(&at(42, 7)), 0);
}

#[test]
fn whole_millis_backwards_round_toward_zero() {
    assert_eq!(at(10, 900_000_000).whole_millis_since(&at(12, 100_000_000)), -1_200);
    assert_eq!(at(10, 0).whole_millis_since(&at(10, 999_999_999)), -999);
    assert_eq!(at(10, 0).whole_millis_since(&at(10, 999_999)), 0);
    assert_eq!(at(10, 0).whole_millis_since(&at(13, 0)), -3_000);
    assert_eq!(at(9, 999_999_999).whole_millis_since(&at(13, 0)), -3_000);
    assert_eq!(at(9, 998_999_999).whole_millis_since(&at(13, 0)), -3_001);
    assert_eq!(at(9, 500_000).whole_millis_since(&at(10, 0)), -999);
    assert_eq!(at(11, 500_000).whole_millis_since(&at(10, 700_000)), 999);
}

#[test]
fn whole_millis_across_the_whole_range() {
    let limit: i64 = 0x1_0000_0000_0000;
    let first = at(-limit + 1, 0);
    let last = at(limit - 1, 999_999_999);
    assert_eq!(last.whole_millis_since(&first), (2 * limit - 2) * 1_000 + 999);
    assert_eq!(first.whole_millis_since(&last), -((2 * limit - 2) * 1_000 + 999));
}

#[test]
fn the_clock_reads_the_time_of_the_system() {
    let before = std::time::SystemTime::now()
        .duration_since(std::time::UNIX_EPOCH)
        .expect("a clock after the epoch")
        .as_secs() as i64;
    let shown = read().expect("a readable clock");
    assert!(before <= shown.secs && shown.secs <= before + 15);
    assert!(shown.nanos < 1_000_000_000);
    assert_eq!(Instant::new(shown.secs, shown.nanos), Some(shown));
}

#[test]
fn the_clock_does_not_run_backwards_within_a_test() {
    let first = read().expect("a readable clock");
    let second = read().expect("a readable clock");
    assert!(second.whole_millis_since(&first) >= -1_000);
    assert!(second.whole_millis_since(&first) <= 15_000);
}
