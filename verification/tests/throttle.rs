use incus_executor::throttle::{RateLimiter, Throttles, Verdict};

const MILLISECOND: u128 = 1_000_000;

#[test]
fn lines_are_held_from_the_limit_on() {
    let throttles = Throttles { enabled: true, lines: 3, line_reset_interval: 100 };
    let mut limiter = RateLimiter::new(5);
    assert_eq!(limiter.allow(&throttles, 6), Verdict::Pass);
    assert_eq!(limiter.allow(&throttles, 7), Verdict::Pass);
    assert_eq!(limiter.allow(&throttles, 8), Verdict::HoldAndAnnounce);
    assert_eq!(limiter.allow(&throttles, 9), Verdict::Hold);
    assert_eq!(limiter.allow(&throttles, 100 * MILLISECOND + 4), Verdict::Hold);
    assert_eq!(limiter.count, 5);
    assert_eq!(limiter.start, 5);
}

#[test]
fn a_new_period_passes_its_first_line() {
    let throttles = Throttles { enabled: true, lines: 1, line_reset_interval: 100 };
    let mut limiter = RateLimiter::new(0);
    assert_eq!(limiter.allow(&throttles, 100 * MILLISECOND - 1), Verdict::HoldAndAnnounce);
    assert_eq!(limiter.allow(&throttles, 100 * MILLISECOND), Verdict::Pass);
    assert_eq!(limiter.count, 0);
    assert_eq!(limiter.start, 100 * MILLISECOND);
    assert_eq!(limiter.allow(&throttles, 150 * MILLISECOND), Verdict::HoldAndAnnounce);
}

#[test]
fn a_limit_that_is_off_passes_all() {
    for throttles in [
        Throttles { enabled: false, lines: 0, line_reset_interval: 100 },
        Throttles { enabled: true, lines: 0, line_reset_interval: 0 },
    ] {
        let mut limiter = RateLimiter::new(0);
        for _ in 0..10 {
            assert_eq!(limiter.allow(&throttles, 1), Verdict::Pass);
        }
        assert_eq!(limiter.count, 10);
    }
}

/// The lines that are passed on, of lines that come at the given times.
fn passed(throttles: &Throttles, times: &[u128], lines: &[u32]) -> Vec<u32> {
    let mut limiter = RateLimiter::new(0);
    let mut kept = Vec::new();
    for (now, line) in times.iter().zip(lines) {
        if limiter.allow(throttles, *now) == Verdict::Pass {
            kept.push(*line);
        }
    }
    kept
}

#[test]
fn passed_lines_are_some_of_all_in_order() {
    let throttles = Throttles { enabled: true, lines: 3, line_reset_interval: 1 };
    let lines: Vec<u32> = (0..10).collect();
    let times: Vec<u128> = (0..10).map(|i| i * 300_000).collect();
    assert_eq!(passed(&throttles, &times, &lines), vec![0, 1, 4, 5, 6, 8, 9]);
    let early = [0; 10];
    assert_eq!(passed(&throttles, &early, &lines), vec![0, 1]);
    let off = Throttles { enabled: false, lines: 3, line_reset_interval: 1 };
    assert_eq!(passed(&off, &early, &lines), lines);
}

#[test]
fn a_limit_of_no_lines_is_never_announced() {
    let throttles = Throttles { enabled: true, lines: 0, line_reset_interval: 100 };
    let mut limiter = RateLimiter::new(10);
    assert_eq!(limiter.allow(&throttles, 3), Verdict::Hold);
    assert_eq!(limiter.allow(&throttles, 11), Verdict::Hold);
}
