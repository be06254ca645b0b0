use std::time::Duration;

use magi_core::backoff::{backoff_ceiling, parse_retry_after, RetryAfter, RetryClass};

const CAP: Duration = Duration::from_secs(300);

fn v(items: &[&str]) -> Vec<String> {
    items.iter().map(|s| s.to_string()).collect()
}

#[test]
fn test_parse_retry_after_decision_table() {
    assert_eq!(parse_retry_after(&[], CAP), RetryAfter::Absent);
    assert_eq!(parse_retry_after(&v(&["0"]), CAP), RetryAfter::Absent);
    assert_eq!(
        parse_retry_after(&v(&["banana", "12"]), CAP),
        RetryAfter::Honor(Duration::from_secs(12))
    );
    assert_eq!(
        parse_retry_after(&v(&["12", "30"]), CAP),
        RetryAfter::Honor(Duration::from_secs(12)),
        "first valid wins; the second is not looked at"
    );
    assert_eq!(
        parse_retry_after(&v(&["5", "60"]), CAP),
        RetryAfter::Honor(Duration::from_secs(5)),
        "two valid headers: the first wins"
    );
    assert!(matches!(
        parse_retry_after(&v(&["banana", "fecha"]), CAP),
        RetryAfter::Unintelligible { .. }
    ));
    assert_eq!(parse_retry_after(&v(&["12"]), CAP), RetryAfter::Honor(Duration::from_secs(12)));
    assert_eq!(parse_retry_after(&v(&[" 12 "]), CAP), RetryAfter::Honor(Duration::from_secs(12)));
    assert_eq!(parse_retry_after(&v(&["007"]), CAP), RetryAfter::Honor(Duration::from_secs(7)));
    assert_eq!(
        parse_retry_after(&v(&["600"]), CAP),
        RetryAfter::TooLong { requested: Duration::from_secs(600) }
    );
    assert_eq!(
        parse_retry_after(&v(&["600", "60"]), CAP),
        RetryAfter::TooLong { requested: Duration::from_secs(600) },
        "first valid wins even above cap"
    );
    assert_eq!(
        parse_retry_after(&v(&["12, 12"]), CAP),
        RetryAfter::Honor(Duration::from_secs(12))
    );
    assert!(matches!(
        parse_retry_after(&v(&["12, 30"]), CAP),
        RetryAfter::Unintelligible { .. }
    ));
    for raw in ["Sun, 06 Nov 1994 08:49:37 GMT", "banana", "-5", "", "99999999999999999999999"] {
        assert!(
            matches!(parse_retry_after(&v(&[raw]), CAP), RetryAfter::Unintelligible { .. }),
            "raw {raw:?} must be Unintelligible"
        );
    }
}

#[test]
fn test_parse_retry_after_cap_zero_ignores_header() {
    let vals = vec!["12".to_string()];
    assert_eq!(parse_retry_after(&vals, Duration::ZERO), RetryAfter::Absent);
}

#[test]
fn test_parse_retry_after_never_panics() {
    let overflow = (u64::MAX as u128 + 1).to_string();
    let nines = "9".repeat(400);
    for raw in ["", " ", ",", "12,", ",12", "\0", overflow.as_str(), nines.as_str()] {
        let _ = parse_retry_after(&[raw.to_string()], CAP);
    }
}

#[test]
fn an_unintelligible_header_carries_the_raw_values_joined() {
    assert_eq!(
        parse_retry_after(&v(&["banana", "fecha"]), CAP),
        RetryAfter::Unintelligible { raw: "banana, fecha".to_string() }
    );
}

#[test]
fn a_plus_sign_is_read_as_std_reads_it() {
    assert_eq!(parse_retry_after(&v(&["+12"]), CAP), RetryAfter::Honor(Duration::from_secs(12)));
}

#[test]
fn the_largest_u64_is_read_and_then_refused_as_too_long() {
    let max = u64::MAX.to_string();
    assert_eq!(
        parse_retry_after(&[max], CAP),
        RetryAfter::TooLong { requested: Duration::from_secs(u64::MAX) }
    );
}

#[test]
fn a_value_at_the_cap_is_honored() {
    assert_eq!(parse_retry_after(&v(&["300"]), CAP), RetryAfter::Honor(CAP));
    assert_eq!(
        parse_retry_after(&v(&["301"]), CAP),
        RetryAfter::TooLong { requested: Duration::from_secs(301) }
    );
}

#[test]
fn test_exponential_growth_is_capped() {
    let cap = Duration::from_secs(60);
    let w = backoff_ceiling(10, RetryClass::Http, Duration::from_secs(1), cap, &[]);
    assert_eq!(w, cap, "2^10 s must be bounded to cap");
}

#[test]
fn test_flat_path_does_not_grow() {
    let flat = [RetryClass::Network];
    let base = Duration::from_secs(2);
    let a = backoff_ceiling(0, RetryClass::Network, base, Duration::from_secs(60), &flat);
    let b = backoff_ceiling(5, RetryClass::Network, base, Duration::from_secs(60), &flat);
    assert_eq!(a, b, "the flat path does not grow with attempt");
    assert_eq!(a, base);
}

#[test]
fn test_base_zero_yields_zero_wait() {
    for attempt in [0, 1, 31, u32::MAX] {
        let w = backoff_ceiling(attempt, RetryClass::Http, Duration::ZERO, CAP, &[]);
        assert_eq!(w, Duration::ZERO);
    }
}

#[test]
fn test_duration_max_does_not_panic_and_stays_capped() {
    let w = backoff_ceiling(31, RetryClass::Http, Duration::MAX, CAP, &[]);
    assert_eq!(w, CAP);
    let unbounded = backoff_ceiling(31, RetryClass::Http, Duration::MAX, Duration::MAX, &[]);
    assert_eq!(unbounded, Duration::MAX);
}

#[test]
fn the_exponential_formula_doubles_per_attempt() {
    let base = Duration::from_millis(250);
    let cap = Duration::from_secs(3600);
    assert_eq!(backoff_ceiling(0, RetryClass::Timeout, base, cap, &[]), base);
    assert_eq!(backoff_ceiling(1, RetryClass::Timeout, base, cap, &[]), Duration::from_millis(500));
    assert_eq!(backoff_ceiling(3, RetryClass::Timeout, base, cap, &[]), Duration::from_secs(2));
    assert_eq!(
        backoff_ceiling(4, RetryClass::Timeout, base, cap, &[RetryClass::Network]),
        Duration::from_secs(4)
    );
}

#[test]
fn the_exponent_is_not_clamped_below_saturation() {
    let w = backoff_ceiling(40, RetryClass::Http, Duration::from_secs(1), Duration::MAX, &[]);
    assert_eq!(w, Duration::from_secs(1u64 << 40));
}

#[test]
fn a_huge_attempt_saturates_at_the_longest_duration_or_the_cap() {
    let w = backoff_ceiling(u32::MAX, RetryClass::Http, Duration::from_nanos(1), Duration::MAX, &[]);
    assert_eq!(w, Duration::MAX);
    let c = backoff_ceiling(u32::MAX, RetryClass::Http, Duration::from_nanos(1), CAP, &[]);
    assert_eq!(c, CAP);
}
