use kitsune_types::proc_count::{elapsed_us_between, proc_count_us_elapsed};
use std::time::Duration;

#[test]
fn elapsed_is_difference_or_zero() {
    assert_eq!(elapsed_us_between(100, 40), 60);
    assert_eq!(elapsed_us_between(40, 100), 0);
    assert_eq!(elapsed_us_between(-5, -10), 5);
    assert_eq!(elapsed_us_between(7, 7), 0);
    assert_eq!(proc_count_us_elapsed(1_500_000, 500_000), Duration::from_secs(1));
    assert_eq!(proc_count_us_elapsed(10, 20), Duration::ZERO);
    assert_eq!(proc_count_us_elapsed(i64::MAX, 0), Duration::from_micros(i64::MAX as u64));
}

#[test]
fn later_capture_gives_less_elapsed() {
    assert!(elapsed_us_between(100, 10) >= elapsed_us_between(100, 50));
    assert!(proc_count_us_elapsed(100, 10) >= proc_count_us_elapsed(100, 50));
    assert!(proc_count_us_elapsed(100, 150) >= proc_count_us_elapsed(100, 200));
}

#[test]
fn elapsed_duration_holds_the_elapsed_micros() {
    assert_eq!(proc_count_us_elapsed(1_000_123, 100).as_micros(), 1_000_023);
    assert_eq!(proc_count_us_elapsed(-3, 4).as_micros(), 0);
}
