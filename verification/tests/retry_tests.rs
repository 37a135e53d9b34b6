use vote_checker::retry::{classify_call, classify_error, classify_lookup, Action, Outcome, RetryState};

#[test]
fn absent_four_times_then_found_succeeds_with_doubling_delays() {
    let mut state = RetryState::new(3, 5).unwrap();
    let mut delays = Vec::new();
    for _ in 0..4 {
        assert!(!state.is_finished());
        let absent: Result<Option<u8>, String> = Ok(None);
        match state.next(classify_lookup(&absent)) {
            Action::Retry { delay } => delays.push(delay),
            other => panic!("expected a retry, got {:?}", other),
        }
    }
    assert!(!state.is_finished());
    let found: Result<Option<u8>, String> = Ok(Some(7));
    assert_eq!(state.next(classify_lookup(&found)), Action::Done);
    assert!(state.is_finished());
    assert_eq!(delays, vec![3, 6, 12, 24]);
    assert_eq!(state.attempts, 5);
}

#[test]
fn throttled_on_every_attempt_gives_up_at_the_budget() {
    let mut state = RetryState::new(3, 5).unwrap();
    let mut attempts = 0;
    let mut last = Action::Done;
    while !state.is_finished() {
        let failed: Result<u64, String> = Err("429".to_string());
        last = state.next(classify_call(&failed));
        attempts += 1;
    }
    assert_eq!(attempts, 5);
    assert_eq!(last, Action::GiveUp);
    assert_eq!(state.attempts, 5);
    assert_eq!(state.delay, 48);
}

#[test]
fn each_retry_doubles_the_delay() {
    let mut state = RetryState::new(2, 10).unwrap();
    let mut previous = None;
    for _ in 0..9 {
        let before = state.delay;
        let action = state.next(Outcome::RetryableRateLimited);
        assert_eq!(action, Action::Retry { delay: before });
        assert_eq!(state.delay, 2 * before);
        if let Some(p) = previous {
            assert_eq!(before, 2 * p);
        }
        previous = Some(before);
        assert!(state.attempts <= state.max_attempts);
    }
    assert_eq!(state.next(Outcome::RetryableNotFound), Action::GiveUp);
    assert_eq!(state.attempts, 10);
}

#[test]
fn fatal_error_aborts_at_once() {
    let mut state = RetryState::new(3, 5).unwrap();
    assert_eq!(state.next(Outcome::Fatal), Action::Abort);
    assert!(state.is_finished());
    assert_eq!(state.attempts, 1);
    assert_eq!(state.delay, 3);
}

#[test]
fn success_on_first_attempt_is_done() {
    let mut state = RetryState::new(3, 5).unwrap();
    assert_eq!(state.next(Outcome::Success), Action::Done);
    assert!(state.is_finished());
    assert_eq!(state.delay, 3);
}

#[test]
fn budget_of_one_never_retries() {
    let mut state = RetryState::new(3, 1).unwrap();
    assert_eq!(state.next(Outcome::RetryableNotFound), Action::GiveUp);
    assert!(state.is_finished());
}

#[test]
fn budget_of_zero_is_finished_from_the_start() {
    let state = RetryState::new(3, 0).unwrap();
    assert!(state.is_finished());
    assert_eq!(state.attempts, 0);
}

#[test]
fn new_refuses_delays_that_overflow() {
    assert!(RetryState::new(u64::MAX, 2).is_none());
    assert!(RetryState::new(u64::MAX, 1).is_some());
    assert!(RetryState::new(1, 64).is_some());
    assert!(RetryState::new(1, 65).is_none());
    assert!(RetryState::new(3, 63).is_some());
    assert!(RetryState::new(3, 64).is_none());
    assert!(RetryState::new(0, usize::MAX).is_some());
}

#[test]
fn new_starts_at_the_base_delay() {
    let state = RetryState::new(2, 5).unwrap();
    assert_eq!(state.delay, 2);
    assert_eq!(state.base_delay, 2);
    assert_eq!(state.max_attempts, 5);
    assert_eq!(state.attempts, 0);
    assert!(!state.is_finished());
}

#[test]
fn errors_are_classified_by_their_text() {
    assert_eq!(classify_error("HTTP status client error (429 Too Many Requests)"), Outcome::RetryableRateLimited);
    assert_eq!(classify_error("429"), Outcome::RetryableRateLimited);
    assert_eq!(classify_error("rate limit exceeded"), Outcome::RetryableRateLimited);
    assert_eq!(classify_error("operation timed out"), Outcome::RetryableRateLimited);
    assert_eq!(classify_error("connection refused"), Outcome::Fatal);
    assert_eq!(classify_error(""), Outcome::Fatal);
    assert_eq!(classify_error("42 9"), Outcome::Fatal);
    assert_eq!(classify_error("Rate Limit"), Outcome::Fatal);
}

#[test]
fn lookups_are_classified() {
    let found: Result<Option<u8>, String> = Ok(Some(1));
    let absent: Result<Option<u8>, String> = Ok(None);
    let throttled: Result<Option<u8>, String> = Err("error 429".to_string());
    let broken: Result<Option<u8>, String> = Err("bad response".to_string());
    assert_eq!(classify_lookup(&found), Outcome::Success);
    assert_eq!(classify_lookup(&absent), Outcome::RetryableNotFound);
    assert_eq!(classify_lookup(&throttled), Outcome::RetryableRateLimited);
    assert_eq!(classify_lookup(&broken), Outcome::Fatal);
}

#[test]
fn calls_are_classified() {
    let fine: Result<u8, String> = Ok(1);
    let slow: Result<u8, String> = Err("request timed out".to_string());
    let broken: Result<u8, String> = Err("no leader schedule found".to_string());
    assert_eq!(classify_call(&fine), Outcome::Success);
    assert_eq!(classify_call(&slow), Outcome::RetryableRateLimited);
    assert_eq!(classify_call(&broken), Outcome::Fatal);
}
