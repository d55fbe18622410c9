use dynatrace_problem_forwarder::forwarder::retry::{backoff_delay_secs, RetryState, RetryStep};

/// Drives the machine over an operation and returns the result, the number
/// of invocations and the delays that were asked for.
fn drive<T, E>(
    max_attempts: u32,
    mut operation: impl FnMut() -> Result<T, E>,
) -> (Result<T, E>, u32, Vec<u64>) {
    let mut state = RetryState::new(max_attempts);
    let mut calls = 0;
    let mut delays = Vec::new();
    loop {
        calls += 1;
        match state.on_result(operation()) {
            RetryStep::Done(result) => return (result, calls, delays),
            RetryStep::Retry { state: next, delay_secs } => {
                delays.push(delay_secs);
                state = next;
            }
        }
    }
}

#[test]
fn test_retry_success_first_attempt() {
    let mut call_count = 0;
    let (result, calls, delays) = drive(3, || {
        call_count += 1;
        Ok::<_, String>(42)
    });
    assert_eq!(result, Ok(42));
    assert_eq!(call_count, 1);
    assert_eq!(calls, 1);
    assert!(delays.is_empty());
}

#[test]
fn test_retry_success_after_failures() {
    let mut call_count = 0;
    let (result, _, delays) = drive(3, || {
        call_count += 1;
        if call_count < 3 {
            Err("temporary failure")
        } else {
            Ok(42)
        }
    });
    assert_eq!(result, Ok(42));
    assert_eq!(call_count, 3);
    assert_eq!(delays, vec![1, 2]);
}

#[test]
fn test_retry_all_failures() {
    let mut call_count = 0;
    let (result, _, delays) = drive(3, || {
        call_count += 1;
        Err::<i32, _>("permanent failure")
    });
    assert_eq!(result, Err("permanent failure"));
    assert_eq!(call_count, 3);
    assert_eq!(delays, vec![1, 2]);
}

#[test]
fn retry_returns_the_error_of_the_last_attempt() {
    let mut call_count = 0;
    let (result, calls, _) = drive(4, || {
        call_count += 1;
        Err::<(), _>(format!("failure {}", call_count))
    });
    assert_eq!(result, Err("failure 4".to_string()));
    assert_eq!(calls, 4);
}

#[test]
fn retry_with_one_attempt_never_retries() {
    let (result, calls, delays) = drive(1, || Err::<(), _>("down"));
    assert_eq!(result, Err("down"));
    assert_eq!(calls, 1);
    assert!(delays.is_empty());
}

#[test]
fn retry_with_zero_attempts_still_tries_once() {
    let (result, calls, delays) = drive(0, || Err::<(), _>("down"));
    assert_eq!(result, Err("down"));
    assert_eq!(calls, 1);
    assert!(delays.is_empty());
}

#[test]
fn retry_delays_double_after_each_failure() {
    let mut call_count = 0;
    let (result, calls, delays) = drive(8, || {
        call_count += 1;
        if call_count <= 5 {
            Err("not yet")
        } else {
            Ok(call_count)
        }
    });
    assert_eq!(result, Ok(6));
    assert_eq!(calls, 6);
    assert_eq!(delays, vec![1, 2, 4, 8, 16]);
}

#[test]
fn backoff_delay_is_a_power_of_two() {
    assert_eq!(backoff_delay_secs(0), 0);
    assert_eq!(backoff_delay_secs(1), 1);
    assert_eq!(backoff_delay_secs(2), 2);
    assert_eq!(backoff_delay_secs(3), 4);
    assert_eq!(backoff_delay_secs(11), 1024);
    assert_eq!(backoff_delay_secs(64), 1u64 << 63);
}

#[test]
fn backoff_delay_stops_at_the_largest_number_of_seconds() {
    assert_eq!(backoff_delay_secs(65), u64::MAX);
    assert_eq!(backoff_delay_secs(66), u64::MAX);
    assert_eq!(backoff_delay_secs(u32::MAX), u64::MAX);
}

#[test]
fn retry_state_takes_any_number_of_attempts() {
    let state = RetryState::new(5);
    assert_eq!(state.attempts_made(), 0);
    assert_eq!(state.max_attempts(), 5);
    let (result, calls, delays) = drive(u32::MAX, || Ok::<_, String>(7));
    assert_eq!(result, Ok(7));
    assert_eq!(calls, 1);
    assert!(delays.is_empty());
    let mut call_count = 0;
    let (result, calls, delays) = drive(1000, || {
        call_count += 1;
        if call_count <= 70 {
            Err("not yet")
        } else {
            Ok(call_count)
        }
    });
    assert_eq!(result, Ok(71));
    assert_eq!(calls, 71);
    assert_eq!(delays.len(), 70);
    assert_eq!(delays[0], 1);
    assert_eq!(delays[63], 1u64 << 63);
    assert_eq!(delays[64], u64::MAX);
    assert_eq!(delays[69], u64::MAX);
}
