use cuaca::weather_core::error::CuacaError;
use cuaca::weather_core::location_remote::{
    fetch_step, nearest_result, reset_breaker, search_result, search_url, start_fetch,
    BreakerState, CircuitBreaker, FetchAction, FetchOutcome, BREAKER_COOLDOWN_SECS,
    BREAKER_THRESHOLD,
};
use std::time::{SystemTime, UNIX_EPOCH};

fn now_secs() -> u64 {
    SystemTime::now().duration_since(UNIX_EPOCH).unwrap().as_secs()
}

#[test]
fn test_breaker_initial_state() {
    let mut breaker = CircuitBreaker::new();
    assert!(breaker.before_request(now_secs()).is_ok());
}

#[test]
fn test_circuit_breaker_transitions() {
    let mut breaker = CircuitBreaker::new();
    assert!(breaker.before_request(now_secs()).is_ok());
    for _ in 0..BREAKER_THRESHOLD {
        breaker.record_failure(now_secs());
    }
    assert_eq!(breaker.state, BreakerState::Open);
    assert!(breaker.before_request(now_secs()).is_err());

    let old = now_secs().saturating_sub(BREAKER_COOLDOWN_SECS + 1);
    breaker.last_trip = old;
    assert!(breaker.before_request(now_secs()).is_ok());
    assert_eq!(breaker.state, BreakerState::HalfOpen);
    breaker.record_success();
    assert_eq!(breaker.state, BreakerState::Closed);
}

#[test]
fn test_circuit_breaker_half_open_failure_reopens() {
    let mut breaker = CircuitBreaker::new();
    for _ in 0..BREAKER_THRESHOLD {
        breaker.record_failure(now_secs());
    }
    let old = now_secs().saturating_sub(BREAKER_COOLDOWN_SECS + 1);
    breaker.last_trip = old;
    assert!(breaker.before_request(now_secs()).is_ok());
    assert_eq!(breaker.state, BreakerState::HalfOpen);
    breaker.record_failure(now_secs());
    assert_eq!(breaker.state, BreakerState::Open);
}

#[test]
fn breaker_stays_closed_below_threshold() {
    let mut breaker = CircuitBreaker::new();
    for _ in 0..(BREAKER_THRESHOLD - 1) {
        breaker.record_failure(100);
    }
    assert_eq!(breaker.state, BreakerState::Closed);
    assert_eq!(breaker.failures, BREAKER_THRESHOLD - 1);
    assert!(breaker.before_request(100).is_ok());
    breaker.record_failure(200);
    assert_eq!(breaker.state, BreakerState::Open);
    assert_eq!(breaker.last_trip, 200);
    // Still refused one second before the cooldown ends.
    assert_eq!(breaker.before_request(200 + BREAKER_COOLDOWN_SECS - 1), Err("API temporarily unavailable"));
    assert!(breaker.before_request(200 + BREAKER_COOLDOWN_SECS).is_ok());
}

#[test]
fn reset_breaker_closes() {
    let mut breaker = CircuitBreaker::new();
    for _ in 0..BREAKER_THRESHOLD {
        breaker.record_failure(50);
    }
    reset_breaker(&mut breaker);
    assert_eq!(breaker, CircuitBreaker::new());
}

#[test]
fn fetch_step_actions() {
    let mut b = CircuitBreaker::new();
    assert_eq!(fetch_step(&mut b, 0, &FetchOutcome::Parsed, 10), FetchAction::Done);

    let mut b = CircuitBreaker::new();
    let net = FetchOutcome::Network("timed out".to_string());
    assert_eq!(fetch_step(&mut b, 0, &net, 10), FetchAction::RetryAfter(1000));
    assert_eq!(fetch_step(&mut b, 1, &net, 10), FetchAction::RetryAfter(2000));
    assert_eq!(fetch_step(&mut b, 2, &net, 10), FetchAction::RetryAfter(4000));
    assert_eq!(
        fetch_step(&mut b, 3, &net, 10),
        FetchAction::Fail(CuacaError::Location("network error after 3 retries: timed out".to_string()))
    );
    assert_eq!(b.failures, 4);

    let mut b = CircuitBreaker::new();
    let busy = FetchOutcome::Status(503, "503 Service Unavailable".to_string());
    assert_eq!(fetch_step(&mut b, 0, &busy, 10), FetchAction::RetryAfter(1000));
    assert_eq!(
        fetch_step(&mut b, 3, &busy, 10),
        FetchAction::Fail(CuacaError::Location(
            "API error after 3 retries: 503 Service Unavailable".to_string()
        ))
    );

    let mut b = CircuitBreaker::new();
    let missing = FetchOutcome::Status(404, "404 Not Found".to_string());
    assert_eq!(
        fetch_step(&mut b, 0, &missing, 10),
        FetchAction::Fail(CuacaError::Location("API returned error: 404 Not Found".to_string()))
    );
    assert_eq!(b, CircuitBreaker::new());

    let bad = FetchOutcome::BadBody("expected value".to_string());
    assert_eq!(
        fetch_step(&mut b, 0, &bad, 10),
        FetchAction::Fail(CuacaError::Location("JSON parse error: expected value".to_string()))
    );
}

#[test]
fn start_fetch_refuses_while_open() {
    let mut b = CircuitBreaker::new();
    assert!(start_fetch(&mut b, 5).is_ok());
    for _ in 0..BREAKER_THRESHOLD {
        b.record_failure(5);
    }
    assert_eq!(
        start_fetch(&mut b, 6),
        Err(CuacaError::Location("API temporarily unavailable".to_string()))
    );
}

#[test]
fn search_and_nearest_results() {
    assert_eq!(
        search_url("https://wilayah.example", "kemayoran"),
        "https://wilayah.example/search?q=kemayoran&limit=10"
    );
    assert_eq!(search_result("kemayoran", Some("31.71.03.1001")), Ok("31.71.03.1001".to_string()));
    assert_eq!(
        search_result("atlantis", None),
        Err(CuacaError::Location("no village found matching 'atlantis'".to_string()))
    );
    assert_eq!(nearest_result(Some("33.12.34.2002")), Ok("33.12.34.2002".to_string()));
    assert_eq!(
        nearest_result(None),
        Err(CuacaError::Location("no village found for coordinates".to_string()))
    );
}

#[test]
fn failure_count_stays_at_its_largest_value() {
    let mut b = CircuitBreaker { state: BreakerState::Open, failures: u8::MAX, last_trip: 3 };
    b.record_failure(7);
    assert_eq!(b.failures, u8::MAX);
    assert_eq!(b.state, BreakerState::Open);
    assert_eq!(b.last_trip, 7);
    let mut b = CircuitBreaker { state: BreakerState::Closed, failures: u8::MAX - 1, last_trip: 0 };
    let net = FetchOutcome::Network("down".to_string());
    assert_eq!(fetch_step(&mut b, 0, &net, 9), FetchAction::RetryAfter(1000));
    assert_eq!(fetch_step(&mut b, 1, &net, 9), FetchAction::RetryAfter(2000));
    assert_eq!(b.failures, u8::MAX);
}

#[test]
fn failures_in_a_row_trip_and_retrip() {
    let mut b = CircuitBreaker::new();
    for t in 1..5u64 {
        b.record_failure(t);
        assert_eq!(b.state, BreakerState::Closed);
    }
    b.record_failure(5);
    assert_eq!(b.state, BreakerState::Open);
    assert_eq!(b.last_trip, 5);
    b.record_failure(6);
    assert_eq!((b.state, b.last_trip, b.failures), (BreakerState::Open, 6, 6));
    assert!(b.before_request(6 + BREAKER_COOLDOWN_SECS).is_ok());
    assert_eq!(b.state, BreakerState::HalfOpen);
    b.record_failure(400);
    assert_eq!((b.state, b.last_trip), (BreakerState::Open, 400));
    b.record_success();
    assert_eq!((b.state, b.failures), (BreakerState::Closed, 0));
}
