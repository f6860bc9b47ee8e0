use qqbot::provider::{
    clock_reading, init_test_timer_provider, nanos_to_millis, nanos_to_secs, MyTimeProvider,
    TimerProvider,
};

#[test]
fn test_clock_reads_its_fixed_instant() {
    let t = init_test_timer_provider();
    assert_eq!(t.now_timestamp_nanos(), 16454983112120000);
    assert_eq!(t.now_timestamp(), 16454983);
    assert_eq!(t.now_timestamp_millis(), 16454983112);
}

#[test]
fn nanos_round_toward_zero() {
    assert_eq!(nanos_to_secs(1_999_999_999), 1);
    assert_eq!(nanos_to_secs(-1_999_999_999), -1);
    assert_eq!(nanos_to_secs(i64::MIN), -9223372036);
    assert_eq!(nanos_to_millis(-1_500_000), -1);
    assert_eq!(nanos_to_millis(i64::MAX), 9223372036854);
}

#[test]
fn clock_reading_adds_with_wrap_around() {
    assert_eq!(clock_reading(10, 5), 15);
    assert_eq!(clock_reading(i64::MAX, 1), i64::MIN);
    assert_eq!(clock_reading(0, 1u128 << 64), 0);
}

#[test]
fn clock_from_server_bytes_counts_on() {
    let bytes = 1_000_000_000_000i64.to_le_bytes();
    let c = MyTimeProvider::from_net_bytes(&bytes);
    assert_eq!(c.net_time, 1_000_000_000_000);
    assert!(c.now_timestamp_nanos() >= 1_000_000_000_000);
    assert_eq!(MyTimeProvider::new().net_time, 0);
}
