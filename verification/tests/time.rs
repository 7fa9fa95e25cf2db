use swww_daemon::time::{coarse_sleep, keep_spinning, poll_timeout, Span, Timespec};

fn span(secs: u64, nanos: u32) -> Span {
    Span { secs, nanos }
}

#[test]
fn poll_returns_half_a_millisecond_early() {
    assert_eq!(
        poll_timeout(&span(0, 16_000_000)),
        Timespec { tv_sec: 0, tv_nsec: 15_500_000 }
    );
    assert_eq!(poll_timeout(&span(3, 500_001)), Timespec { tv_sec: 3, tv_nsec: 1 });
}

#[test]
fn poll_lead_never_borrows_a_second() {
    assert_eq!(poll_timeout(&span(2, 400_000)), Timespec { tv_sec: 2, tv_nsec: 0 });
    assert_eq!(poll_timeout(&span(0, 0)), Timespec { tv_sec: 0, tv_nsec: 0 });
}

#[test]
fn huge_seconds_wrap() {
    assert_eq!(poll_timeout(&span(u64::MAX, 0)), Timespec { tv_sec: -1, tv_nsec: 0 });
}

#[test]
fn spans_compare_by_their_length() {
    assert!(span(0, 1_000_001).longer_than_nanos(1_000_000));
    assert!(!span(0, 1_000_000).longer_than_nanos(1_000_000));
    assert!(span(1, 0).longer_than_nanos(1_000_000));
    assert!(span(0, 0).is_zero());
    assert!(!span(0, 1).is_zero());
    assert!(!span(1, 0).is_zero());
    assert!(span(1, 999_999_999).shorter_than(&span(2, 0)));
    assert!(!span(2, 0).shorter_than(&span(2, 0)));
}

#[test]
fn timeouts_compare_by_seconds_first() {
    let a = Timespec { tv_sec: 0, tv_nsec: 900 };
    let b = Timespec { tv_sec: 1, tv_nsec: 0 };
    assert!(a.is_before(&b));
    assert!(!b.is_before(&a));
    assert!(!a.is_before(&a));
}

#[test]
fn short_waits_are_spun_out() {
    assert_eq!(coarse_sleep(&span(0, 125_000)), None);
    assert_eq!(coarse_sleep(&span(0, 125_001)), Some(span(0, 1)));
    assert_eq!(coarse_sleep(&span(1, 0)), Some(span(0, 999_875_000)));
    assert_eq!(coarse_sleep(&span(4, 125_000)), Some(span(4, 0)));
}

#[test]
fn spinning_ends_with_the_wait() {
    assert!(keep_spinning(&span(0, 999), &span(0, 1000)));
    assert!(!keep_spinning(&span(0, 1000), &span(0, 1000)));
    assert!(!keep_spinning(&span(1, 0), &span(0, 1000)));
}
