use opencode2api::config::default_fallbacks_enabled;
use opencode2api::openai::{inbound_needs_reasoning_repair, InboundMessageShape};
use opencode2api::proxy_pool::reconcile::{container_action, docker_step_error, ContainerAction};
use opencode2api::rest_api::{authorize, bounded_rejection_message, parse_proxy_port, ApiError};
use opencode2api::retry::machine::RetryLoop;
use opencode2api::config::RetryConfig;

#[test]
fn authorization_requires_a_configured_and_matching_token() {
    let disabled = authorize(None, Some("t")).unwrap_err();
    assert_eq!(disabled.status, 401);
    assert_eq!(
        disabled.message,
        "REST API is disabled because REST_API_TOKEN is not configured"
    );
    assert!(disabled.challenges());
    assert_eq!(
        authorize(Some("secret"), None).unwrap_err().message,
        "Missing or invalid Authorization: Bearer header"
    );
    assert_eq!(
        authorize(Some("secret"), Some("guess")).unwrap_err().message,
        "Invalid REST API token"
    );
    assert!(authorize(Some("secret"), Some("secret")).is_ok());
}

#[test]
fn proxy_port_segments_are_trimmed_and_parsed() {
    assert_eq!(parse_proxy_port(" 40001 ").unwrap(), 40001);
    let error = parse_proxy_port("forty").unwrap_err();
    assert_eq!(error.status, 400);
    assert_eq!(error.code, "invalid_proxy_port");
    assert!(parse_proxy_port("70000").is_err());
    let unauthorized = ApiError::unauthorized("no");
    assert_eq!(unauthorized.code, "unauthorized");
}

#[test]
fn rejection_text_is_cut_on_a_character_boundary() {
    let long = "é".repeat(200);
    let bounded = bounded_rejection_message(&long);
    assert!(bounded.len() <= 300);
    assert_eq!(bounded.chars().count(), 150);
    assert_eq!(bounded_rejection_message("short"), "short");
}

#[test]
fn default_fallback_switch_accepts_the_usual_spellings() {
    for on in ["1", "true", "YES", "On"] {
        assert!(default_fallbacks_enabled(Some(on)), "{on}");
    }
    for off in ["0", "false", "enabled", ""] {
        assert!(!default_fallbacks_enabled(Some(off)), "{off}");
    }
    assert!(!default_fallbacks_enabled(None));
}

#[test]
fn pass_through_messages_needing_reasoning_repair() {
    let shape = InboundMessageShape {
        is_object: true,
        role: Some("assistant".to_string()),
        tool_call_count: Some(1),
        reasoning_content: None,
    };
    assert!(inbound_needs_reasoning_repair(&shape));
    let with_reasoning = InboundMessageShape {
        reasoning_content: Some("kept".to_string()),
        ..shape.clone()
    };
    assert!(!inbound_needs_reasoning_repair(&with_reasoning));
    let no_calls = InboundMessageShape {
        tool_call_count: Some(0),
        ..shape.clone()
    };
    assert!(!inbound_needs_reasoning_repair(&no_calls));
    let user = InboundMessageShape {
        role: Some("user".to_string()),
        ..shape
    };
    assert!(!inbound_needs_reasoning_repair(&user));
}

#[test]
fn container_bootstrap_actions_and_errors() {
    assert_eq!(container_action(false, false), ContainerAction::Create);
    assert_eq!(container_action(true, false), ContainerAction::Start);
    assert_eq!(container_action(true, true), ContainerAction::Keep);
    assert_eq!(
        docker_step_error("inspect", "opencode-warp-1", None),
        "Docker inspect timed out for opencode-warp-1"
    );
    assert_eq!(
        docker_step_error("start", "opencode-warp-1", Some("no such image")),
        "Docker start failed for opencode-warp-1: no such image"
    );
}

#[test]
fn fresh_retry_loop_is_consistent() {
    let state = RetryLoop::new(2, &RetryConfig::default());
    assert!(state.is_consistent());
    assert_eq!(state.model_index, 0);
    assert_eq!(state.max_retries, 3);
}
