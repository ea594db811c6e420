use awaken_runtime::circuit_breaker::{CircuitBreaker, CircuitBreakerConfig};
use awaken_runtime::inference::InferenceExecutionError;

fn fast_config() -> CircuitBreakerConfig {
    CircuitBreakerConfig { failure_threshold: 3, cooldown_ms: 50, half_open_max: 1 }
}

#[test]
fn closed_allows_requests() {
    let mut cb = CircuitBreaker::new(fast_config());
    assert!(cb.check("model-a", 0).is_ok());
}

#[test]
fn opens_after_threshold_failures() {
    let mut cb = CircuitBreaker::new(fast_config());
    for _ in 0..3 {
        cb.record_failure("model-a", 0);
    }
    assert!(cb.check("model-a", 0).is_err());
}

#[test]
fn below_threshold_stays_closed() {
    let mut cb = CircuitBreaker::new(fast_config());
    cb.record_failure("model-a", 0);
    cb.record_failure("model-a", 0);
    assert!(cb.check("model-a", 0).is_ok());
}

#[test]
fn success_resets_failure_count() {
    let mut cb = CircuitBreaker::new(fast_config());
    cb.record_failure("model-a", 0);
    cb.record_failure("model-a", 0);
    cb.record_success("model-a");
    cb.record_failure("model-a", 0);
    cb.record_failure("model-a", 0);
    assert!(cb.check("model-a", 0).is_ok());
}

fn short_config(half_open_max: u32) -> CircuitBreakerConfig {
    CircuitBreakerConfig { failure_threshold: 2, cooldown_ms: 10, half_open_max }
}

#[test]
fn transitions_to_half_open_after_cooldown() {
    let mut cb = CircuitBreaker::new(short_config(1));
    cb.record_failure("model-a", 100);
    cb.record_failure("model-a", 100);
    assert!(cb.check("model-a", 100).is_err());
    // 15 ms later the cooldown of 10 ms has passed.
    assert!(cb.check("model-a", 115).is_ok());
    assert!(cb.check("model-a", 115).is_err());
}

#[test]
fn half_open_success_closes_circuit() {
    let mut cb = CircuitBreaker::new(short_config(1));
    cb.record_failure("model-a", 100);
    cb.record_failure("model-a", 100);
    assert!(cb.check("model-a", 115).is_ok());
    cb.record_success("model-a");
    assert!(cb.check("model-a", 115).is_ok());
    assert!(cb.check("model-a", 115).is_ok());
}

#[test]
fn half_open_failure_reopens_circuit() {
    let mut cb = CircuitBreaker::new(short_config(1));
    cb.record_failure("model-a", 100);
    cb.record_failure("model-a", 100);
    assert!(cb.check("model-a", 115).is_ok());
    cb.record_failure("model-a", 115);
    assert!(cb.check("model-a", 115).is_err());
}

#[test]
fn independent_models() {
    let mut cb = CircuitBreaker::new(fast_config());
    for _ in 0..3 {
        cb.record_failure("model-a", 0);
    }
    assert!(cb.check("model-a", 0).is_err());
    assert!(cb.check("model-b", 0).is_ok());
}

#[test]
fn default_config_values() {
    let config = CircuitBreakerConfig::default();
    assert_eq!(config.failure_threshold, 5);
    assert_eq!(config.cooldown_ms, 30_000);
    assert_eq!(config.half_open_max, 1);
}

#[test]
fn error_message_contains_model_name() {
    let mut cb = CircuitBreaker::new(fast_config());
    for _ in 0..3 {
        cb.record_failure("gpt-4o", 0);
    }
    let err = cb.check("gpt-4o", 0).unwrap_err();
    let msg = match err {
        InferenceExecutionError::Provider(m) => m,
        other => panic!("unexpected {other:?}"),
    };
    assert!(msg.contains("gpt-4o"), "error should mention model: {msg}");
    assert!(msg.contains("circuit breaker"), "error should mention circuit breaker: {msg}");
}

#[test]
fn half_open_allows_multiple_probes() {
    let mut cb = CircuitBreaker::new(short_config(3));
    cb.record_failure("m", 100);
    cb.record_failure("m", 100);
    assert!(cb.check("m", 100).is_err());
    assert!(cb.check("m", 115).is_ok());
    assert!(cb.check("m", 115).is_ok());
    assert!(cb.check("m", 115).is_ok());
    assert!(cb.check("m", 115).is_err());
}

#[test]
fn stays_open_before_cooldown_elapses() {
    let mut cb = CircuitBreaker::new(short_config(1));
    cb.record_failure("m", 100);
    cb.record_failure("m", 100);
    assert!(cb.check("m", 109).is_err());
    assert!(cb.check("m", 110).is_ok());
}

#[test]
fn opens_exactly_at_threshold_for_many_thresholds() {
    for threshold in 1u32..8 {
        for failures in 0u32..10 {
            let mut cb = CircuitBreaker::new(CircuitBreakerConfig {
                failure_threshold: threshold,
                cooldown_ms: 60_000,
                half_open_max: 1,
            });
            for _ in 0..failures {
                cb.record_failure("model", 0);
            }
            assert_eq!(cb.check("model", 0).is_err(), failures >= threshold);
        }
    }
}
