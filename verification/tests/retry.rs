use patch_data::retry::{RetryDecision, RetryState, MAX_RETRIES};

#[test]
fn backoff_doubles_then_gives_up() {
    let mut state = RetryState::new();
    let mut waits = Vec::new();
    loop {
        match state.on_failure() {
            RetryDecision::RetryAfter(secs) => waits.push(secs),
            RetryDecision::GiveUp => break,
        }
    }
    assert_eq!(waits, vec![1, 2, 4, 8, 16]);
    assert_eq!(waits.len() as u32, MAX_RETRIES);
}

#[test]
fn total_wait_before_giving_up() {
    let mut state = RetryState::new();
    let mut total = 0u64;
    while let RetryDecision::RetryAfter(secs) = state.on_failure() {
        total += secs;
    }
    assert_eq!(total, 31);
}

#[test]
fn giving_up_is_final() {
    let mut state = RetryState::new();
    for _ in 0..MAX_RETRIES {
        assert!(matches!(state.on_failure(), RetryDecision::RetryAfter(_)));
    }
    assert_eq!(state.on_failure(), RetryDecision::GiveUp);
    assert_eq!(state.on_failure(), RetryDecision::GiveUp);
    assert_eq!(state.on_failure(), RetryDecision::GiveUp);
}

#[test]
fn first_failure_waits_one_second() {
    let mut state = RetryState::new();
    assert_eq!(state.on_failure(), RetryDecision::RetryAfter(1));
    assert_eq!(state.on_failure(), RetryDecision::RetryAfter(2));
}
