use run_coordination::shaping::{latency_nanos, LINK_BANDWIDTH, LINK_JITTER, NANOS_PER_MILLI};

#[test]
fn latency_is_given_in_nanoseconds() {
    assert_eq!(latency_nanos(0), Some(0));
    assert_eq!(latency_nanos(1), Some(1_000_000));
    assert_eq!(latency_nanos(100), Some(100_000_000));
    assert_eq!(latency_nanos(250), Some(250_000_000));
}

#[test]
fn latency_at_the_edge_of_64_bits() {
    let largest = u64::MAX / 1_000_000;
    assert_eq!(latency_nanos(largest), Some(largest * 1_000_000));
    assert_eq!(latency_nanos(largest + 1), None);
    assert_eq!(latency_nanos(u64::MAX), None);
}

#[test]
fn link_constants() {
    assert_eq!(NANOS_PER_MILLI, 1_000_000);
    assert_eq!(LINK_BANDWIDTH, 1_048_576);
    assert_eq!(LINK_JITTER, 0);
}
