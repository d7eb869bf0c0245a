use std::time::Duration;

use xz_modules::provider::error::{ProviderError, RetryStrategy};
use xz_modules::provider::layer::{RetryLayer, RetryLayerService, RetryStep};
use xz_modules::provider::model_info::CapabilityRequest;

#[test]
fn test_is_retryable_network() {
    let err = ProviderError::Network { message: "refused".into(), detail: None };
    assert!(err.is_retryable());
    assert!(!err.is_cancelled());
}

#[test]
fn test_is_retryable_rate_limit() {
    let err = ProviderError::RateLimit { retry_after_ms: 5000 };
    assert!(err.is_retryable());
}

#[test]
fn test_is_retryable_overloaded() {
    let err = ProviderError::Overloaded;
    assert!(err.is_retryable());
}

#[test]
fn test_is_retryable_timeout() {
    let err = ProviderError::Timeout { timeout_ms: 30000 };
    assert!(err.is_retryable());
}

#[test]
fn test_is_not_retryable() {
    assert!(!ProviderError::Cancelled.is_retryable());
    assert!(!ProviderError::Config("bad".into()).is_retryable());
    assert!(!ProviderError::Auth("denied".into()).is_retryable());
    assert!(!ProviderError::TokenLimit { actual: 100, limit: 50 }.is_retryable());
    assert!(!ProviderError::Format("bad json".into()).is_retryable());
    assert!(!ProviderError::ModelNotFound("gpt-3".into()).is_retryable());
    assert!(!ProviderError::UnsupportedCapability { model: "gpt".into(), capability: "vision".into() }.is_retryable());
    assert!(!ProviderError::NoModelForCapability { required: CapabilityRequest::default() }.is_retryable());
    assert!(!ProviderError::Internal { status: 500, message: "error".into() }.is_retryable());
    assert!(!ProviderError::NoRoute("nowhere".into()).is_retryable());
}

#[test]
fn test_is_cancelled() {
    assert!(ProviderError::Cancelled.is_cancelled());
    assert!(!ProviderError::Config("test".into()).is_cancelled());
    assert!(!ProviderError::Network { message: "x".into(), detail: None }.is_cancelled());
}

#[test]
fn test_retry_after_rate_limit() {
    let err = ProviderError::RateLimit { retry_after_ms: 2000 };
    assert_eq!(err.retry_after(), Some(Duration::from_millis(2000)));
}

#[test]
fn test_retry_after_overloaded() {
    let err = ProviderError::Overloaded;
    assert_eq!(err.retry_after(), Some(Duration::from_secs(5)));
}

#[test]
fn test_retry_after_fatal_errors() {
    let fatal_errors = vec![
        ProviderError::Network { message: "x".into(), detail: None },
        ProviderError::Timeout { timeout_ms: 1000 },
        ProviderError::Cancelled,
        ProviderError::Config("x".into()),
        ProviderError::Auth("x".into()),
    ];
    for err in fatal_errors {
        assert!(err.retry_after().is_none(), "{:?} should not have retry_after", err);
    }
}

#[test]
fn test_error_display_network() {
    let err = ProviderError::Network { message: "refused".into(), detail: None };
    let msg = err.to_display_string();
    assert!(msg.contains("refused"));
}

#[test]
fn test_error_display_rate_limit() {
    let err = ProviderError::RateLimit { retry_after_ms: 5000 };
    let msg = err.to_display_string();
    assert!(msg.contains("5000"));
}

#[test]
fn test_retry_strategy_default() {
    let s = RetryStrategy::default();
    assert_eq!(s.max_retries, 3);
    assert_eq!(s.base_delay, Duration::from_secs(1));
    assert_eq!(s.max_delay, Duration::from_secs(30));
    assert!(s.jitter);
}

#[test]
fn test_retry_strategy_exponential_no_jitter() {
    let s = RetryStrategy::new(5, Duration::from_millis(100), Duration::from_secs(10), false);
    assert_eq!(s.delay_for_attempt(0), Duration::from_millis(100));
    assert_eq!(s.delay_for_attempt(1), Duration::from_millis(200));
    assert_eq!(s.delay_for_attempt(2), Duration::from_millis(400));
    assert_eq!(s.delay_for_attempt(3), Duration::from_millis(800));
}

#[test]
fn test_retry_strategy_max_delay_cap() {
    let s = RetryStrategy::new(10, Duration::from_secs(1), Duration::from_millis(500), false);
    assert_eq!(s.delay_for_attempt(10), Duration::from_millis(500));
}

#[test]
fn test_retry_strategy_jitter_within_bounds() {
    let s = RetryStrategy::new(3, Duration::from_millis(100), Duration::from_secs(10), true);
    for attempt in 0..5 {
        let delay = s.delay_for_attempt(attempt);
        let max_delay = (100.0 * 2u64.pow(attempt.min(30)) as f64).min(10_000.0);
        let ms = delay.as_millis() as f64;
        assert!(ms >= max_delay * 0.4, "attempt={} ms={} min={}", attempt, ms, max_delay * 0.4);
        assert!(ms <= max_delay * 1.1, "attempt={} ms={} max={}", attempt, ms, max_delay * 1.1);
    }
}

#[test]
fn test_retry_strategy_display() {
    let s = RetryStrategy::default();
    assert_eq!(s.max_retries, 3);
}

// Exact values of the delay formula, with and without jitter.

#[test]
fn delay_with_jitter_exact_values() {
    let s = RetryStrategy::new(3, Duration::from_millis(1000), Duration::from_secs(30), true);
    // half the back-off at zero nanoseconds
    assert_eq!(s.delay_ms_with(0, 0), 500);
    // 1000 * (1e9 + 5e8) / 2e9 = 750
    assert_eq!(s.delay_ms_with(0, 500_000_000), 750);
    // attempt 2: 4000 ms back-off, just under the full value near one second
    assert_eq!(s.delay_ms_with(2, 999_999_999), 3999);
}

#[test]
fn delay_without_jitter_ignores_nanos() {
    let s = RetryStrategy::new(3, Duration::from_millis(250), Duration::from_secs(30), false);
    assert_eq!(s.delay_ms_with(2, 123), 1000);
    assert_eq!(s.delay_ms_with(2, 999_999_999), 1000);
}

#[test]
fn backoff_stays_at_cap_for_large_attempts() {
    let s = RetryStrategy::new(3, Duration::from_millis(7), Duration::from_millis(60_000), false);
    assert_eq!(s.delay_ms_with(31, 0), 60_000);
    assert_eq!(s.delay_ms_with(u32::MAX, 0), 60_000);
    // monotone in the attempt number
    let mut last = 0;
    for a in 0..40 {
        let d = s.delay_ms_with(a, 0);
        assert!(d >= last);
        last = d;
    }
}

#[test]
fn retry_after_ms_values() {
    assert_eq!(ProviderError::RateLimit { retry_after_ms: 42 }.retry_after_ms(), Some(42));
    assert_eq!(ProviderError::Overloaded.retry_after_ms(), Some(5000));
    assert_eq!(ProviderError::Cancelled.retry_after_ms(), None);
}

#[test]
fn error_status_mapping() {
    assert!(matches!(ProviderError::for_error_status(401, "no".into()), ProviderError::Auth(m) if m == "no"));
    assert!(matches!(
        ProviderError::for_error_status(429, "slow".into()),
        ProviderError::RateLimit { retry_after_ms: 5000 }
    ));
    assert!(matches!(
        ProviderError::for_error_status(503, "down".into()),
        ProviderError::Internal { status: 503, message } if message == "down"
    ));
}

#[test]
fn display_of_every_variant() {
    let cases: Vec<(ProviderError, &str)> = vec![
        (ProviderError::Network { message: "m".into(), detail: None }, "网络错误: m"),
        (ProviderError::Timeout { timeout_ms: 7 }, "7"),
        (ProviderError::Cancelled, ""),
        (ProviderError::Auth("k".into()), "k"),
        (ProviderError::Config("c".into()), "c"),
        (ProviderError::Format("f".into()), "输出格式错误: f"),
        (ProviderError::ModelNotFound("gpt".into()), "gpt"),
        (ProviderError::Internal { status: 502, message: "bad".into() }, "502"),
        (ProviderError::NoRoute("r".into()), "r"),
        (ProviderError::TokenLimit { actual: 11, limit: 10 }, "11"),
    ];
    for (e, part) in cases {
        let s = e.to_display_string();
        assert!(!s.is_empty());
        assert!(s.contains(part), "{} should contain {}", s, part);
    }
}

#[test]
fn retry_layer_gives_up_on_fatal_errors() {
    let svc: RetryLayerService = RetryLayer::new(RetryStrategy::new(
        2,
        Duration::from_millis(10),
        Duration::from_millis(100),
        false,
    ))
    .service();
    match svc.after_failure(0, &ProviderError::Overloaded) {
        RetryStep::Retry(d) => assert_eq!(d, Duration::from_millis(10)),
        RetryStep::GiveUp => panic!("transient error should be retried"),
    }
    match svc.after_failure(1, &ProviderError::Timeout { timeout_ms: 5 }) {
        RetryStep::Retry(d) => assert_eq!(d, Duration::from_millis(20)),
        RetryStep::GiveUp => panic!("transient error should be retried"),
    }
    assert!(matches!(svc.after_failure(2, &ProviderError::Overloaded), RetryStep::GiveUp));
    assert!(matches!(svc.after_failure(0, &ProviderError::Auth("x".into())), RetryStep::GiveUp));
}
