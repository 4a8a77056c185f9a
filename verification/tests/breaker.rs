use responses_proxy::breaker::CircuitBreakerState;

#[test]
fn opens_after_threshold_failures() {
    let mut cb = CircuitBreakerState::new(true, 3, 60);
    assert!(cb.should_allow_request(100));
    cb.record_failure(100);
    cb.record_failure(100);
    assert!(cb.should_allow_request(100));
    cb.record_failure(100);
    assert!(!cb.should_allow_request(100));
    assert!(!cb.should_allow_request(159));
}

#[test]
fn success_closes_again() {
    let mut cb = CircuitBreakerState::new(true, 1, 60);
    cb.record_failure(10);
    assert!(!cb.should_allow_request(11));
    cb.record_success();
    assert!(cb.should_allow_request(11));
    assert_eq!(cb.consecutive_failures, 0);
    assert!(!cb.is_open);
}

#[test]
fn cooldown_admits_one_probe() {
    let mut cb = CircuitBreakerState::new(true, 1, 60);
    cb.record_failure(0);
    assert!(!cb.should_allow_request(59));
    assert!(cb.should_allow_request(60));
    assert!(!cb.should_allow_request(61));
    assert!(!cb.should_allow_request(1000));
    cb.record_failure(1000);
    assert!(!cb.should_allow_request(1001));
    assert!(cb.should_allow_request(1060));
}

#[test]
fn disabled_breaker_always_admits() {
    let mut cb = CircuitBreakerState::new(false, 1, 60);
    cb.record_failure(0);
    cb.record_failure(0);
    assert!(cb.should_allow_request(0));
    assert!(!cb.is_unhealthy());
}

#[test]
fn health_reports_open_enabled_breaker() {
    let mut cb = CircuitBreakerState::new(true, 1, 60);
    assert!(!cb.is_unhealthy());
    cb.record_failure(5);
    assert!(cb.is_unhealthy());
}
