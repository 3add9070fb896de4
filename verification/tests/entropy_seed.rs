//! The entropy seeding step: first success reported, bounded retry,
//! explicit warning when every attempt fails.

use enclave_init::entropy::{seed_with_attempts, ENTROPY_REQUEST_BYTES, ENTROPY_RETRY_ATTEMPTS};

#[test]
fn source_yielding_request_reports_it_seeded() {
    let attempts = vec![Some(ENTROPY_REQUEST_BYTES)];
    let report = seed_with_attempts(&attempts);
    assert_eq!(report.seeded, Some(4096));
    assert_eq!(report.attempts_used, 1);
}

#[test]
fn erroring_source_downgrades_to_warning() {
    let attempts = vec![None, None, None];
    let report = seed_with_attempts(&attempts);
    assert_eq!(report.seeded, None);
    assert_eq!(report.attempts_used, ENTROPY_RETRY_ATTEMPTS);
}

#[test]
fn retry_uses_first_success() {
    let attempts = vec![None, Some(4096), Some(17)];
    let report = seed_with_attempts(&attempts);
    assert_eq!(report.seeded, Some(4096));
    assert_eq!(report.attempts_used, 2);
}

#[test]
fn success_after_retry_window_is_not_consulted() {
    let attempts = vec![None, None, None, Some(4096)];
    let report = seed_with_attempts(&attempts);
    assert_eq!(report.seeded, None);
    assert_eq!(report.attempts_used, 3);
}

#[test]
fn partial_yield_reported_as_seeded_count() {
    // A source that yields fewer bytes than requested still has that
    // count reported as seeded.
    let attempts = vec![Some(100)];
    let report = seed_with_attempts(&attempts);
    assert_eq!(report.seeded, Some(100));
}

#[test]
fn exhausted_source_warns_early() {
    let attempts: Vec<Option<usize>> = Vec::new();
    let report = seed_with_attempts(&attempts);
    assert_eq!(report.seeded, None);
    assert_eq!(report.attempts_used, 0);
}
