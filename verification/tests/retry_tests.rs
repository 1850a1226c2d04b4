use rust_repos::api::GitHubApi;
use rust_repos::errors::{classify, ApiFailure, ErrorClass};
use rust_repos::retry::{retry_step, RetryDecision, RetryState};

fn retriable_status() -> ApiFailure {
    ApiFailure::Status(500)
}

#[test]
fn backoff_schedule_doubles_then_caps() {
    let mut state = RetryState::new();
    let mut api = GitHubApi::new(String::from("t"));
    let expected = [10u64, 20, 40, 80, 160, 320, 640, 640, 640];
    for (i, want) in expected.iter().enumerate() {
        let d = retry_step::<u32>(&mut state, &mut api, Err(retriable_status()));
        assert_eq!(d, RetryDecision::SleepFor(*want), "retry {}", i);
    }
    let d = retry_step::<u32>(&mut state, &mut api, Ok(7));
    assert_eq!(d, RetryDecision::Done(7));
}

#[test]
fn fatal_failure_propagates_immediately() {
    let mut state = RetryState::new();
    let mut api = GitHubApi::new(String::from("t"));
    let d = retry_step::<u32>(&mut state, &mut api, Err(ApiFailure::Status(401)));
    assert_eq!(d, RetryDecision::Fail(ApiFailure::Status(401)));
    assert!(!api.should_slow_down());
}

#[test]
fn throttle_flag_reads_true_exactly_once() {
    let mut state = RetryState::new();
    let mut api = GitHubApi::new(String::from("t"));
    assert!(!api.should_slow_down());
    let _ = retry_step::<u32>(&mut state, &mut api, Err(ApiFailure::Timeout));
    let _ = retry_step::<u32>(&mut state, &mut api, Err(ApiFailure::Timeout));
    assert!(api.should_slow_down());
    assert!(!api.should_slow_down());
    let mut state2 = RetryState::new();
    let _ = retry_step::<u32>(&mut state2, &mut api, Err(ApiFailure::ConnectionReset));
    assert!(api.should_slow_down());
    assert!(!api.should_slow_down());
}

#[test]
fn classification_rules() {
    assert_eq!(classify(&ApiFailure::Status(500)), ErrorClass::Retriable);
    assert_eq!(classify(&ApiFailure::Status(502)), ErrorClass::Retriable);
    assert_eq!(classify(&ApiFailure::Status(503)), ErrorClass::Retriable);
    assert_eq!(classify(&ApiFailure::Status(504)), ErrorClass::Retriable);
    assert_eq!(classify(&ApiFailure::Timeout), ErrorClass::Retriable);
    assert_eq!(classify(&ApiFailure::ConnectionReset), ErrorClass::Retriable);
    assert_eq!(classify(&ApiFailure::AbuseDetected), ErrorClass::Retriable);
    assert_eq!(classify(&ApiFailure::Status(200)), ErrorClass::Fatal);
    assert_eq!(classify(&ApiFailure::Status(404)), ErrorClass::Fatal);
    assert_eq!(classify(&ApiFailure::Status(429)), ErrorClass::Fatal);
    assert_eq!(
        classify(&ApiFailure::ApiMessage { status: 403, message: String::from("nope") }),
        ErrorClass::Fatal
    );
    assert_eq!(
        classify(&ApiFailure::Malformed { detail: String::from("bad json") }),
        ErrorClass::Fatal
    );
    assert_eq!(classify(&ApiFailure::EmptyResponse), ErrorClass::Fatal);
    assert_eq!(classify(&ApiFailure::CostTooHigh { cost: 2 }), ErrorClass::Fatal);
}

#[test]
fn in_flight_counter_tracks_attempts() {
    let mut api = GitHubApi::new(String::from("t"));
    assert_eq!(api.concurrent_requests, 0);
    api.begin_attempt();
    api.begin_attempt();
    assert_eq!(api.concurrent_requests, 2);
    api.end_attempt();
    assert_eq!(api.concurrent_requests, 1);
    api.end_attempt();
    assert_eq!(api.concurrent_requests, 0);
}
