use flaresync::errors::{FlareSyncError, NetworkFailure};
use flaresync::retry::{RetryDecision, RetryPolicy, RetryState};

fn unavailable() -> FlareSyncError {
    FlareSyncError::Network(NetworkFailure {
        status: Some(503),
        timed_out: false,
        message: String::new(),
    })
}

/// Runs an operation that always fails with `error`; returns how often it was attempted and
/// the waits in between.
fn run_always_failing(policy: &RetryPolicy, error: &FlareSyncError) -> (u32, Vec<u64>) {
    let mut state = RetryState::new();
    let mut attempts = 0;
    let mut waits = Vec::new();
    loop {
        attempts += 1;
        match policy.on_failure(&mut state, error) {
            RetryDecision::Retry { wait_secs } => waits.push(wait_secs),
            RetryDecision::GiveUp => return (attempts, waits),
        }
    }
}

#[test]
fn standard_policy_values() {
    let p = RetryPolicy::standard();
    assert_eq!(p.max_retries, 3);
    assert_eq!(p.initial_wait_secs, 1);
    assert_eq!(p.max_wait_secs, 60);
}

#[test]
fn transient_failure_is_attempted_one_plus_max_retries_times() {
    let (attempts, waits) = run_always_failing(&RetryPolicy::standard(), &unavailable());
    assert_eq!(attempts, 4);
    assert_eq!(waits, vec![1, 2, 4]);
}

#[test]
fn permanent_failure_is_attempted_once() {
    let not_found = FlareSyncError::Network(NetworkFailure {
        status: Some(404),
        timed_out: false,
        message: String::new(),
    });
    let (attempts, waits) = run_always_failing(&RetryPolicy::standard(), &not_found);
    assert_eq!(attempts, 1);
    assert!(waits.is_empty());
}

#[test]
fn waits_double_and_stop_at_the_cap() {
    let p = RetryPolicy { max_retries: 9, initial_wait_secs: 1, max_wait_secs: 60 };
    let (attempts, waits) = run_always_failing(&p, &unavailable());
    assert_eq!(attempts, 10);
    assert_eq!(waits, vec![1, 2, 4, 8, 16, 32, 60, 60, 60]);
}

#[test]
fn backoff_secs_of_large_counts_stays_at_cap() {
    let p = RetryPolicy::standard();
    assert_eq!(p.backoff_secs(0), 1);
    assert_eq!(p.backoff_secs(5), 32);
    assert_eq!(p.backoff_secs(6), 60);
    assert_eq!(p.backoff_secs(200), 60);
    let huge = RetryPolicy { max_retries: 3, initial_wait_secs: u64::MAX, max_wait_secs: u64::MAX };
    assert_eq!(huge.backoff_secs(3), u64::MAX);
}

#[test]
fn each_retry_is_counted() {
    let p = RetryPolicy::standard();
    let mut state = RetryState::new();
    assert_eq!(p.on_failure(&mut state, &unavailable()), RetryDecision::Retry { wait_secs: 1 });
    assert_eq!(state.retries, 1);
    assert_eq!(p.on_failure(&mut state, &unavailable()), RetryDecision::Retry { wait_secs: 2 });
    assert_eq!(state.retries, 2);
}
