use opencode2api::config::{BridgeConfig, RetryConfig};
use opencode2api::retry::policy::{
    bounded_backoff, build_model_retry_list, classify_status, classify_transport_error,
    client_retry_after, is_grammar_constraint_compatibility_error,
    is_reasoning_content_compatibility_error, is_rate_limit_body, is_reasoning_heavy_model,
    map_model_name, may_change_egress_after_failure, parse_retry_after, retry_metric_class,
    FailureClass, RetryMetricClass,
};
use std::time::{Duration, SystemTime};

fn retry_config() -> RetryConfig {
    BridgeConfig::default().retry
}

#[test]
fn streaming_reasoning_model_has_no_implicit_non_reasoning_fallback() {
    let models = build_model_retry_list("deepseek-v4-flash-free", true, &retry_config());
    assert_eq!(models, vec!["deepseek-v4-flash-free"]);
}

#[test]
fn explicit_fallbacks_are_respected_for_reasoning_stream() {
    let mut retry = retry_config();
    retry.model_fallbacks = vec!["opencode/deepseek-v4-flash-free".to_string()];
    let models = build_model_retry_list("deepseek-v4-flash-free", true, &retry);
    assert_eq!(models, vec!["deepseek-v4-flash-free"]);
}

#[test]
fn default_fallbacks_can_be_enabled_for_non_reasoning_requests() {
    let mut retry = retry_config();
    retry.default_fallbacks_enabled = true;
    let models = build_model_retry_list("nemotron-3-ultra-free", false, &retry);
    assert!(models.contains(&"nemotron-3-ultra-free".to_string()));
    assert!(models.contains(&"deepseek-v4-flash-free".to_string()));
}

#[test]
fn rate_limit_classifier_does_not_match_generic_bad_request_text() {
    assert!(!is_rate_limit_body(
        "invalid parameter: max_tokens exceeds model context limit"
    ));
    assert!(!is_rate_limit_body("unsupported tool schema"));
}

#[test]
fn rate_limit_classifier_matches_known_signals() {
    assert!(is_rate_limit_body("rate limit exceeded"));
    assert!(is_rate_limit_body("quota_exceeded"));
    assert!(is_rate_limit_body("Too Many Requests"));
}

#[test]
fn status_classifier_separates_provider_and_rate_limit_failures() {
    assert_eq!(classify_status(429, None), FailureClass::RateLimit);
    assert_eq!(classify_status(502, None), FailureClass::ProviderServer);
    assert_eq!(
        classify_status(400, Some("invalid schema")),
        FailureClass::ProviderClient
    );
}

#[test]
fn retry_after_supports_delta_seconds_and_http_dates() {
    let now = SystemTime::UNIX_EPOCH + Duration::from_secs(1_000);
    assert_eq!(parse_retry_after("7", 1_000_000), Some(7));
    let date = httpdate::fmt_http_date(now + Duration::from_secs(30));
    assert_eq!(parse_retry_after(&date, 1_000_000), Some(30));
    assert_eq!(parse_retry_after(&date, 1_000_500), Some(29));
    assert_eq!(parse_retry_after(&date, 1_030_000), Some(0));
    assert_eq!(parse_retry_after(&date, 1_030_001), None);
}

#[test]
fn client_retry_after_is_short_even_when_provider_quota_reset_is_distant() {
    assert_eq!(client_retry_after(47_897), 30);
    assert_eq!(client_retry_after(7), 7);
    assert_eq!(client_retry_after(0), 1);
}

#[test]
fn backoff_is_bounded_and_deterministic() {
    let mut retry = retry_config();
    retry.base_backoff_ms = 1_000;
    retry.max_backoff_ms = 4_000;
    let first = bounded_backoff(&retry, 10, 3);
    assert_eq!(first, bounded_backoff(&retry, 10, 3));
    assert!(first <= 5_000);
}

#[test]
fn detects_provider_compatibility_errors() {
    assert!(is_reasoning_content_compatibility_error(
        r#"{"error":{"type":"invalid_request_error","message":"The `reasoning_content` is invalid"}}"#
    ));
    assert!(is_grammar_constraint_compatibility_error(
        "DFLASH speculative decoding does not support grammar-constrained decoding"
    ));
    assert!(!is_grammar_constraint_compatibility_error(
        "ordinary bad request"
    ));
}

#[test]
fn hybrid_may_change_egress_only_after_transport_failures() {
    assert!(may_change_egress_after_failure(FailureClass::Transport));
    assert!(may_change_egress_after_failure(FailureClass::Timeout));
    for class in [
        FailureClass::RateLimit,
        FailureClass::ProviderClient,
        FailureClass::ProviderServer,
        FailureClass::MalformedResponse,
        FailureClass::Cancelled,
    ] {
        assert!(
            !may_change_egress_after_failure(class),
            "unexpected {class:?}"
        );
    }
}

#[test]
fn backoff_never_exceeds_the_configured_ceiling() {
    let mut retry = retry_config();
    retry.base_backoff_ms = 500;
    retry.max_backoff_ms = 8_000;
    for attempt in 0..40 {
        for seed in [0u64, 1, 7, 1_000_003, u64::MAX] {
            assert!(bounded_backoff(&retry, attempt, seed) <= 8_000);
        }
    }
}

#[test]
fn retry_after_rejects_garbage_and_past_dates() {
    assert_eq!(parse_retry_after("soon", 1_000_000), None);
    let past = httpdate::fmt_http_date(SystemTime::UNIX_EPOCH + Duration::from_secs(500));
    assert_eq!(parse_retry_after(&past, 1_000_000), None);
}

#[test]
fn status_classes_cover_server_client_and_rate_limit_bodies() {
    assert_eq!(classify_status(500, None), FailureClass::ProviderServer);
    assert_eq!(classify_status(404, None), FailureClass::ProviderClient);
    assert_eq!(
        classify_status(400, Some("rate limit exceeded")),
        FailureClass::RateLimit
    );
    assert_eq!(classify_transport_error(true), FailureClass::Timeout);
    assert_eq!(classify_transport_error(false), FailureClass::Transport);
}

#[test]
fn metric_classes_follow_failure_classes() {
    assert_eq!(
        retry_metric_class(FailureClass::RateLimit),
        RetryMetricClass::RateLimit
    );
    assert_eq!(
        retry_metric_class(FailureClass::Timeout),
        RetryMetricClass::Timeout
    );
}

#[test]
fn model_names_lose_the_provider_prefix() {
    assert_eq!(map_model_name("opencode/deepseek-v4-flash-free"), "deepseek-v4-flash-free");
    assert_eq!(map_model_name("gpt-4o"), "gpt-4o");
    assert!(is_reasoning_heavy_model("DeepSeek-R1"));
    assert!(!is_reasoning_heavy_model("deepseek-v4-flash-free"));
}

use opencode2api::config::EgressMode;
use opencode2api::proxy_pool::types::RouteKind;
use opencode2api::retry::machine::{AttemptOutcome, NextMove, RateLimitPenalty, RetryFailure, RetryLoop};
use opencode2api::retry::route::{decide_route, RouteDecision, RouteFailure, RouteView};

fn view(mode: EgressMode) -> RouteView {
    RouteView {
        mode,
        subsystem_ready: false,
        pool_empty: false,
        selected: false,
        recovery_pending: false,
        before_deadline: false,
        rate_limit_remaining_secs: None,
    }
}

#[test]
fn route_decisions_by_egress_mode() {
    assert_eq!(
        decide_route(&view(EgressMode::Direct)),
        RouteDecision::Direct(RouteKind::Direct)
    );
    assert_eq!(
        decide_route(&view(EgressMode::Hybrid)),
        RouteDecision::Direct(RouteKind::DirectHybridFallback)
    );
    let mut ready = view(EgressMode::Hybrid);
    ready.subsystem_ready = true;
    ready.selected = true;
    assert_eq!(decide_route(&ready), RouteDecision::UseSelected);

    let mut empty = view(EgressMode::Proxy);
    empty.pool_empty = true;
    assert_eq!(decide_route(&empty), RouteDecision::Fail(RouteFailure::PoolEmpty));
    let mut waiting = view(EgressMode::Proxy);
    waiting.recovery_pending = true;
    waiting.before_deadline = true;
    assert_eq!(decide_route(&waiting), RouteDecision::Wait);
    let mut limited = view(EgressMode::Proxy);
    limited.rate_limit_remaining_secs = Some(600);
    assert_eq!(
        decide_route(&limited),
        RouteDecision::Fail(RouteFailure::EgressUnavailable { retry_after_secs: 30 })
    );
    assert_eq!(
        decide_route(&view(EgressMode::Proxy)),
        RouteDecision::Fail(RouteFailure::NoEligibleRoute)
    );
}

fn response(status: u16) -> AttemptOutcome {
    AttemptOutcome::Response {
        status,
        retry_after: None,
        body: None,
    }
}

#[test]
fn success_is_delivered_and_credits_the_node() {
    let retry = retry_config();
    let mut state = RetryLoop::new(1, &retry);
    let step = state.step(&retry, Some(2), &response(200), 1_000);
    assert_eq!(step.next, NextMove::Deliver);
    assert_eq!(step.record_success_on, Some(2));
    assert_eq!(step.record_failure_on, None);
}

#[test]
fn server_errors_fall_back_to_the_next_model_then_fail() {
    let retry = retry_config();
    let mut state = RetryLoop::new(2, &retry);
    let first = state.step(&retry, None, &response(502), 1_000);
    assert_eq!(first.next, NextMove::Attempt);
    assert!(first.model_fallback);
    assert_eq!(state.model_index, 1);
    let second = state.step(&retry, None, &response(502), 1_000);
    assert_eq!(second.next, NextMove::Fail(RetryFailure::ServerError { status: 502 }));
}

#[test]
fn rate_limits_rotate_credentials_before_penalising_egress() {
    let mut retry = retry_config();
    retry.upstream_api_keys = vec!["a".to_string(), "b".to_string()];
    let mut state = RetryLoop::new(1, &retry);
    let rotated = state.step(&retry, Some(0), &response(429), 1_000);
    assert_eq!(rotated.next, NextMove::Attempt);
    assert!(rotated.penalty.is_none());
    assert_eq!(state.key_slot(0), Some(1));
    let penalised = state.step(&retry, Some(0), &response(429), 1_000);
    assert_eq!(penalised.next, NextMove::Attempt);
    assert_eq!(
        penalised.penalty,
        Some(RateLimitPenalty::Adaptive {
            index: 0,
            retry_count: 1
        })
    );
}

#[test]
fn transport_failures_blame_the_node_and_end_after_the_retry_budget() {
    let retry = retry_config();
    let mut state = RetryLoop::new(1, &retry);
    let outcome = AttemptOutcome::Transport {
        timed_out: true,
        connect_failed: false,
    };
    let mut last = state.step(&retry, Some(1), &outcome, 1_000);
    assert_eq!(last.record_failure_on, Some(1));
    let mut attempts = 1;
    while last.next == NextMove::Attempt {
        last = state.step(&retry, Some(1), &outcome, 1_000);
        attempts += 1;
        assert!(attempts <= 10, "the loop must end");
    }
    assert!(matches!(last.next, NextMove::Fail(RetryFailure::Network { .. })));
}

#[test]
fn compatibility_rejections_ask_for_sanitization() {
    let retry = retry_config();
    let mut state = RetryLoop::new(1, &retry);
    let rejected = AttemptOutcome::Response {
        status: 400,
        retry_after: None,
        body: Some(
            r#"{"error":{"type":"invalid_request_error","message":"The `reasoning_content` is invalid"}}"#
                .to_string(),
        ),
    };
    let step = state.step(&retry, None, &rejected, 1_000);
    assert_eq!(
        step.next,
        NextMove::Sanitize {
            repair_reasoning: true,
            strip_response_format: false
        }
    );
    let follow = state.after_sanitize(true);
    assert_eq!(follow.next, NextMove::Attempt);
    assert_eq!(state.sanitize_rounds, 1);
}
