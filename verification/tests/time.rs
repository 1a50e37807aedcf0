use gyromouse::backend::rate_limit::DiagRateLimit;
use gyromouse::time::{Duration, Instant};

fn at(ms: u64) -> Instant {
    Instant::after_origin(Duration::from_millis(ms))
}

fn longest() -> Duration {
    Duration::new(u64::MAX, 999_999_999)
}

#[test]
fn durations_count_nanoseconds() {
    assert_eq!(Duration::zero().as_nanos(), 0);
    assert_eq!(Duration::from_secs(2).as_nanos(), 2_000_000_000);
    assert_eq!(Duration::from_millis(3).as_nanos(), 3_000_000);
    assert_eq!(Duration::new(1, 5).as_nanos(), 1_000_000_005);
    assert_eq!(Duration::new(1, 1_500_000_000), Duration::from_millis(2500));
}

#[test]
fn duration_arithmetic() {
    let a = Duration::from_millis(5);
    let b = Duration::from_millis(7);
    assert_eq!(a.saturating_add(b), Duration::from_millis(12));
    assert_eq!(longest().saturating_add(a), longest());
    assert_eq!(a.min(b), a);
    assert_eq!(b.min(a), a);
    assert_eq!(a.times(3), Duration::from_millis(15));
    assert_eq!(b.part(2), Duration::new(0, 3_500_000));
    assert!(b.at_least(a));
    assert!(a.at_least(a));
    assert!(!a.at_least(b));
}

#[test]
fn instants_and_spans() {
    assert_eq!(at(9).saturating_duration_since(at(4)), Duration::from_millis(5));
    assert_eq!(at(4).saturating_duration_since(at(9)), Duration::zero());
    assert!(at(9).reached(at(4), Duration::from_millis(5)));
    assert!(!at(9).reached(at(4), Duration::from_millis(6)));
    assert!(!at(4).reached(at(9), Duration::zero()));
    assert!(Instant::after_origin(longest()).checked_add(Duration::new(0, 1)).is_none());
    assert!(!Instant::after_origin(longest()).reached(at(1), longest()));
}

#[test]
fn log_lines_are_a_second_apart() {
    let mut limit = DiagRateLimit::new();
    assert!(limit.allow(at(10)));
    assert!(!limit.allow(at(10)));
    assert!(!limit.allow(at(1009)));
    assert!(limit.allow(at(1010)));
    assert!(!limit.allow(at(2009)));
    assert!(limit.allow(at(2010)));
}
