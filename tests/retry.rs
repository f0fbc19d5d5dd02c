use website_status_checker::retry::{ProbeState, RetryPolicy, RETRY_DELAY_MS};

/// Drives a check with a scripted probe: returns the final state, the
/// number of attempts and the total delay requested.
fn drive(policy: &RetryPolicy, script: &[Result<u16, String>]) -> (ProbeState, usize, u64) {
    let mut state = policy.start();
    let mut attempts = 0usize;
    let mut waited = 0u64;
    loop {
        let attempt = match state {
            ProbeState::Attempting(n) => n,
            _ => return (state, attempts, waited),
        };
        if attempt > 0 {
            waited += policy.delay_ms;
        }
        let outcome = script[attempt].clone();
        attempts += 1;
        state = policy.advance(attempt, outcome);
    }
}

#[test]
fn always_failing_probe_makes_retries_plus_one_attempts() {
    let policy = RetryPolicy::new(3);
    let script: Vec<Result<u16, String>> = (0..10).map(|i| Err(format!("refused {}", i))).collect();
    let (state, attempts, waited) = drive(&policy, &script);
    assert_eq!(attempts, 4);
    assert_eq!(state, ProbeState::ExhaustedFailed("refused 3".to_string()));
    assert_eq!(waited, 3 * RETRY_DELAY_MS);
}

#[test]
fn no_retries_means_one_attempt() {
    let policy = RetryPolicy::new(0);
    let script = vec![Err("timed out".to_string()), Ok(200)];
    let (state, attempts, waited) = drive(&policy, &script);
    assert_eq!(attempts, 1);
    assert_eq!(state, ProbeState::ExhaustedFailed("timed out".to_string()));
    assert_eq!(waited, 0);
}

#[test]
fn success_on_second_attempt() {
    let policy = RetryPolicy::new(2);
    let script = vec![Err("connection reset".to_string()), Ok(200), Ok(500)];
    let (state, attempts, waited) = drive(&policy, &script);
    assert_eq!(state, ProbeState::Succeeded(200));
    assert_eq!(attempts, 2);
    assert!(waited >= RETRY_DELAY_MS);
}

#[test]
fn any_status_code_is_success() {
    let policy = RetryPolicy::new(5);
    let (state, attempts, _) = drive(&policy, &[Ok(503)]);
    assert_eq!(state, ProbeState::Succeeded(503));
    assert_eq!(attempts, 1);
    assert!(state.is_terminal());
}

#[test]
fn advance_steps() {
    let policy = RetryPolicy::new(1);
    assert_eq!(policy.delay_ms, 100);
    assert_eq!(policy.start(), ProbeState::Attempting(0));
    assert!(!policy.start().is_terminal());
    assert_eq!(policy.advance(0, Err("dns".to_string())), ProbeState::Attempting(1));
    assert_eq!(policy.advance(1, Err("dns".to_string())), ProbeState::ExhaustedFailed("dns".to_string()));
    assert_eq!(policy.advance(1, Ok(404)), ProbeState::Succeeded(404));
}
