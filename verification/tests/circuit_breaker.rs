use fleet_warden::circuit_breaker::{CircuitBreaker, CircuitBreakerConfig, CircuitState};

#[test]
fn test_new_is_closed() {
    let cb = CircuitBreaker::default_breaker();
    assert_eq!(cb.state(), CircuitState::Closed);
    assert!(cb.is_closed());
}

#[test]
fn test_closed_allows_requests() {
    let mut cb = CircuitBreaker::default_breaker();
    assert!(cb.allow_request());
}

#[test]
fn test_failures_open_circuit() {
    let mut cb = CircuitBreaker::new(CircuitBreakerConfig {
        failure_threshold: 3,
        ..Default::default()
    });
    for _ in 0..3 {
        cb.record_failure();
    }
    assert_eq!(cb.state(), CircuitState::Open);
}

#[test]
fn test_open_rejects_requests() {
    let mut cb = CircuitBreaker::new(CircuitBreakerConfig {
        failure_threshold: 1,
        recovery_timeout_ms: 3_600_000,
        ..Default::default()
    });
    cb.record_failure();
    assert!(!cb.allow_request());
}

#[test]
fn test_success_resets_failure_count() {
    let mut cb = CircuitBreaker::new(CircuitBreakerConfig {
        failure_threshold: 3,
        ..Default::default()
    });
    cb.record_failure();
    cb.record_failure();
    cb.record_success();
    assert_eq!(cb.failure_count(), 0);
}

#[test]
fn test_trip_force_opens() {
    let mut cb = CircuitBreaker::default_breaker();
    cb.trip();
    assert_eq!(cb.state(), CircuitState::Open);
}

#[test]
fn test_reset_force_closes() {
    let mut cb = CircuitBreaker::new(CircuitBreakerConfig {
        failure_threshold: 1,
        recovery_timeout_ms: 3_600_000,
        ..Default::default()
    });
    cb.record_failure();
    cb.reset();
    assert!(cb.is_closed());
}

#[test]
fn test_stats_tracking() {
    let mut cb = CircuitBreaker::default_breaker();
    cb.record_success();
    cb.record_success();
    cb.record_failure();
    let (s, f, r) = cb.stats();
    assert_eq!((s, f, r), (2, 1, 0));
}

#[test]
fn test_half_open_then_close() {
    let config = CircuitBreakerConfig {
        failure_threshold: 1,
        recovery_timeout_ms: 0,
        success_threshold: 2,
    };
    let mut cb = CircuitBreaker::new(config);
    cb.record_failure();
    assert!(cb.is_open());
    assert!(cb.allow_request());
    assert_eq!(cb.state(), CircuitState::HalfOpen);
    cb.record_success();
    cb.record_success();
    assert!(cb.is_closed());
}

#[test]
fn test_half_open_failure_reopens() {
    let config = CircuitBreakerConfig {
        failure_threshold: 1,
        recovery_timeout_ms: 0,
        success_threshold: 3,
    };
    let mut cb = CircuitBreaker::new(config);
    cb.record_failure();
    cb.allow_request();
    cb.record_failure();
    assert_eq!(cb.state(), CircuitState::Open);
}

#[test]
fn test_rejection_count_increments() {
    let mut cb = CircuitBreaker::new(CircuitBreakerConfig {
        failure_threshold: 1,
        recovery_timeout_ms: 3_600_000,
        ..Default::default()
    });
    cb.record_failure();
    cb.allow_request();
    cb.allow_request();
    let (_, _, r) = cb.stats();
    assert_eq!(r, 2);
}

#[test]
fn test_below_threshold_stays_closed() {
    let mut cb = CircuitBreaker::new(CircuitBreakerConfig {
        failure_threshold: 5,
        ..Default::default()
    });
    for _ in 0..4 {
        cb.record_failure();
    }
    assert!(cb.is_closed());
}

#[test]
fn default_config_values() {
    let c = CircuitBreakerConfig::default();
    assert_eq!(c.failure_threshold, 5);
    assert_eq!(c.recovery_timeout_ms, 30_000);
    assert_eq!(c.success_threshold, 3);
}

#[test]
fn half_open_counts_successes_below_threshold() {
    let mut cb = CircuitBreaker::new(CircuitBreakerConfig {
        failure_threshold: 1,
        recovery_timeout_ms: 0,
        success_threshold: 3,
    });
    cb.record_failure();
    assert!(cb.allow_request());
    cb.record_success();
    cb.record_success();
    assert_eq!(cb.state(), CircuitState::HalfOpen);
    assert_eq!(cb.success_count(), 2);
    cb.record_success();
    assert!(cb.is_closed());
    assert_eq!(cb.success_count(), 0);
    assert_eq!(cb.failure_count(), 0);
}

#[test]
fn allow_request_after_decides_on_elapsed_time() {
    let mut cb = CircuitBreaker::new(CircuitBreakerConfig {
        failure_threshold: 1,
        recovery_timeout_ms: 1_000,
        success_threshold: 1,
    });
    cb.record_failure();
    assert!(!cb.allow_request_after(999));
    assert_eq!(cb.stats(), (0, 1, 1));
    assert_eq!(cb.state(), CircuitState::Open);
    assert!(cb.allow_request_after(1_000));
    assert_eq!(cb.state(), CircuitState::HalfOpen);
    assert_eq!(cb.stats(), (0, 1, 1));
}

#[test]
fn open_breaker_ignores_outcomes_and_reset_forgets_opening() {
    let mut cb = CircuitBreaker::new(CircuitBreakerConfig {
        failure_threshold: 2,
        recovery_timeout_ms: 0,
        success_threshold: 1,
    });
    cb.trip();
    cb.record_success();
    cb.record_failure();
    assert!(cb.is_open());
    assert_eq!(cb.stats(), (1, 1, 0));
    cb.reset();
    assert!(cb.is_closed());
    // A closed breaker with no opening time lets every request through.
    assert!(cb.allow_request_after(0));
    assert!(cb.is_closed());
}

#[test]
fn zero_failure_threshold_opens_on_first_failure() {
    let mut cb = CircuitBreaker::new(CircuitBreakerConfig {
        failure_threshold: 0,
        recovery_timeout_ms: 3_600_000,
        success_threshold: 1,
    });
    cb.record_failure();
    assert!(cb.is_open());
    assert_eq!(cb.failure_count(), 1);
}
