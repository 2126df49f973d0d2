use npm_docker_sync::npm::auth::AuthError;
use npm_docker_sync::npm::certificates::CertError;
use npm_docker_sync::npm::proxy_hosts::ProxyHostError;
use npm_docker_sync::npm::NpmError;
use npm_docker_sync::writer::retry::{FailKind, GiveUp, RetryDecision, RetryError, RetryPolicy, RetryState};
use npm_docker_sync::writer::retry_npm::classify_npm;

/// Drives a call the way the service does: call, classify, follow the decision.
fn run<T, E>(
    policy: &RetryPolicy,
    classify: impl Fn(&E) -> FailKind,
    mut on_unauthorized: impl FnMut(),
    mut f: impl FnMut() -> Result<T, E>,
) -> Result<T, RetryError<E>> {
    let mut state = RetryState::new();
    loop {
        match f() {
            Ok(v) => return Ok(v),
            Err(e) => match state.decide_with_jitter(policy, classify(&e), 0) {
                RetryDecision::Fail(GiveUp::NonTransient) => return Err(RetryError::NonTransient(e)),
                RetryDecision::Fail(GiveUp::Exhausted) => return Err(RetryError::Exhausted(e)),
                RetryDecision::RefreshThenRetry => on_unauthorized(),
                RetryDecision::SleepThenRetry { .. } => {}
            },
        }
    }
}

#[test]
fn succeeds_on_first_attempt() {
    let mut counter = 0;
    let res: Result<i32, RetryError<&str>> = run(&RetryPolicy::default(), |_| FailKind::Transient, || {}, || {
        counter += 1;
        Ok::<_, &str>(42)
    });
    assert_eq!(res.unwrap(), 42);
    assert_eq!(counter, 1);
}

#[test]
fn retries_on_transient_then_gives_up() {
    let mut counter = 0;
    let res: Result<i32, RetryError<&str>> = run(&RetryPolicy::default(), |_| FailKind::Transient, || {}, || {
        counter += 1;
        Err("boom")
    });
    assert!(matches!(res, Err(RetryError::Exhausted(_))));
    assert_eq!(counter, 3);
}

#[test]
fn does_not_retry_non_transient() {
    let mut counter = 0;
    let res: Result<i32, RetryError<&str>> = run(&RetryPolicy::default(), |_| FailKind::NonTransient, || {}, || {
        counter += 1;
        Err("no")
    });
    assert!(matches!(res, Err(RetryError::NonTransient(_))));
    assert_eq!(counter, 1);
}

#[test]
fn unauthorized_refreshes_without_burning_attempts() {
    let mut calls = 0;
    let mut refreshes = 0;
    let res: Result<i32, RetryError<&str>> = run(
        &RetryPolicy::default(),
        |e| if *e == "401" { FailKind::Unauthorized } else { FailKind::NonTransient },
        || refreshes += 1,
        || {
            let n = calls;
            calls += 1;
            if n == 0 { Err("401") } else { Ok(7) }
        },
    );
    assert_eq!(res.unwrap(), 7);
    assert_eq!(refreshes, 1);
}

#[test]
fn backoff_is_one_then_four_seconds_plus_jitter() {
    let policy = RetryPolicy::default();
    let mut s = RetryState::new();
    assert_eq!(
        s.decide_with_jitter(&policy, FailKind::Transient, 0),
        RetryDecision::SleepThenRetry { delay_millis: 1000 }
    );
    assert_eq!(
        s.decide_with_jitter(&policy, FailKind::Transient, 299),
        RetryDecision::SleepThenRetry { delay_millis: 4299 }
    );
    assert_eq!(
        s.decide_with_jitter(&policy, FailKind::Transient, 0),
        RetryDecision::Fail(GiveUp::Exhausted)
    );
    assert_eq!(s.attempt, 3);
}

#[test]
fn unauthorized_keeps_attempt_count() {
    let policy = RetryPolicy::default();
    let mut s = RetryState::new();
    s.decide_with_jitter(&policy, FailKind::Transient, 0);
    assert_eq!(s.decide_with_jitter(&policy, FailKind::Unauthorized, 0), RetryDecision::RefreshThenRetry);
    assert_eq!(s.attempt, 1);
}

#[test]
fn on_failure_jitter_stays_below_300ms() {
    let policy = RetryPolicy { max_attempts: 10, base_millis: 1000 };
    for _ in 0..50 {
        let mut s = RetryState::new();
        match s.on_failure(&policy, FailKind::Transient) {
            RetryDecision::SleepThenRetry { delay_millis } => assert!((1000..1300).contains(&delay_millis)),
            other => panic!("unexpected decision {:?}", other),
        }
    }
}

#[test]
fn large_backoff_saturates() {
    let policy = RetryPolicy { max_attempts: 100, base_millis: u64::MAX / 2 };
    let mut s = RetryState { attempt: 1 };
    assert_eq!(
        s.decide_with_jitter(&policy, FailKind::Transient, 5),
        RetryDecision::SleepThenRetry { delay_millis: u64::MAX }
    );
}

#[test]
fn classify_npm_statuses() {
    assert_eq!(classify_npm(&NpmError::Auth(AuthError::Status(401))), FailKind::Unauthorized);
    assert_eq!(classify_npm(&NpmError::ProxyHost(ProxyHostError::Status(404))), FailKind::NonTransient);
    assert_eq!(classify_npm(&NpmError::ProxyHost(ProxyHostError::Status(429))), FailKind::Transient);
    assert_eq!(classify_npm(&NpmError::Cert(CertError::Status(503))), FailKind::Transient);
    assert_eq!(classify_npm(&NpmError::Cert(CertError::Status(302))), FailKind::NonTransient);
    assert_eq!(
        classify_npm(&NpmError::ProxyHost(ProxyHostError::Http("connection refused".into()))),
        FailKind::Transient
    );
    assert_eq!(classify_npm(&NpmError::Auth(AuthError::Http("timeout".into()))), FailKind::Transient);
}

#[test]
fn zero_attempt_budget_gives_up_on_first_transient_failure() {
    let mut counter = 0;
    let policy = RetryPolicy { max_attempts: 0, base_millis: 1000 };
    let res: Result<i32, RetryError<&str>> = run(&policy, |_| FailKind::Transient, || {}, || {
        counter += 1;
        Err("boom")
    });
    assert!(matches!(res, Err(RetryError::Exhausted(_))));
    assert_eq!(counter, 1);
}
