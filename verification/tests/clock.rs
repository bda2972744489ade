use rexmq::utils::{micros_of, millis_of, nanos_of, now_micros, now_millis, now_nanos, now_secs, secs_of};

#[test]
fn a_reading_before_the_epoch_counts_as_zero() {
    assert_eq!(secs_of(None), 0);
    assert_eq!(millis_of(None), 0);
    assert_eq!(micros_of(None), 0);
    assert_eq!(nanos_of(None), 0);
}

#[test]
fn a_reading_converts_to_whole_units() {
    let r = Some((1u64, 234_567_890u32));
    assert_eq!(secs_of(r), 1);
    assert_eq!(millis_of(r), 1_234);
    assert_eq!(micros_of(r), 1_234_567);
    assert_eq!(nanos_of(r), 1_234_567_890);
    let r = Some((5u64, 999_999_999u32));
    assert_eq!(secs_of(r), 5);
    assert_eq!(millis_of(r), 5_999);
}

#[test]
fn milliseconds_are_truncated_to_64_bits() {
    let r = Some((u64::MAX, 0u32));
    assert_eq!(millis_of(r), (u64::MAX as u128 * 1000) as u64);
    assert_eq!(micros_of(r), u64::MAX as u128 * 1_000_000);
}

#[test]
fn the_clock_agrees_across_units() {
    let s = now_secs();
    let ms = now_millis();
    let us = now_micros();
    let ns = now_nanos();
    assert!(s > 0);
    assert!(ms / 1000 >= s);
    assert!(us / 1000 >= ms as u128);
    assert!(ns / 1000 >= us);
}
