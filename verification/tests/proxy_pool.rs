use opencode2api::proxy_pool::reconcile::{next_probe, VerificationProbe};
use opencode2api::config::BridgeConfig;
use opencode2api::proxy_pool::reconcile::{
    failure_attempt_after_cycle, recovery_backoff, staged_verdict, LiveProxyVerifier, VerificationFailure,
};
use opencode2api::proxy_pool::subsystem::{
    ProxySubsystemPhase, ProxySubsystemStatus, MAX_SUBSYSTEM_ERROR_BYTES,
};
use opencode2api::proxy_pool::types::{
    configured_primary_ports, configured_warm_standby_ports, container_name, ensure_not_protected,
    extract_port, get_primary_ports, get_warm_standby_ports, is_managed_proxy_port,
    is_protected_proxy_port, stable_rendezvous_score, ProxyStatus,
};

#[test]
fn test_container_name_generation() {
    assert_eq!(
        container_name("socks5://127.0.0.1:40001"),
        "opencode-warp-1"
    );
    assert_eq!(
        container_name("socks5://127.0.0.1:40005"),
        "opencode-warp-5"
    );
    assert_eq!(
        container_name("http://127.0.0.1:9999"),
        "opencode-proxy-9999"
    );
}

#[test]
fn test_extract_port() {
    assert_eq!(extract_port("socks5://127.0.0.1:40001"), 40001);
    assert_eq!(extract_port("http://127.0.0.1:8080/"), 8080);
    assert_eq!(extract_port("invalid"), 0);
}

#[test]
fn helper_contracts_are_stable() {
    assert_eq!(extract_port("socks5://127.0.0.1:40001"), 40001);
    assert_eq!(extract_port("http://127.0.0.1:8080/"), 8080);
    assert_eq!(extract_port("invalid"), 0);
    assert_eq!(
        container_name("socks5://127.0.0.1:40001"),
        "opencode-warp-1"
    );
    assert!(is_managed_proxy_port(40001));
    assert!(is_protected_proxy_port(40004));
    assert!(ensure_not_protected(40004).is_err());
}

#[test]
fn configured_ports_follow_resolved_one_plus_one_topology() {
    let config = BridgeConfig {
        primary_proxies: Some(vec!["socks5h://127.0.0.1:40001".to_string()]),
        warm_standby_proxies: Some(vec!["socks5h://127.0.0.1:40004".to_string()]),
        ..Default::default()
    };

    assert_eq!(configured_primary_ports(&config), vec![40001]);
    assert_eq!(configured_warm_standby_ports(&config), vec![40004]);
}

#[test]
fn configured_ports_ignore_invalid_zero_ports_and_deduplicate() {
    let config = BridgeConfig {
        primary_proxies: Some(vec![
            "socks5h://127.0.0.1:40001".to_string(),
            "socks5h://127.0.0.1:40001".to_string(),
            "not-a-proxy".to_string(),
        ]),
        warm_standby_proxies: Some(vec![
            "socks5h://127.0.0.1:40004".to_string(),
            "invalid".to_string(),
        ]),
        ..Default::default()
    };

    assert_eq!(configured_primary_ports(&config), vec![40001]);
    assert_eq!(configured_warm_standby_ports(&config), vec![40004]);
}

#[test]
fn reconcile_recovery_backoff_is_bounded_and_nonzero() {
    let max = 120_000;
    assert_eq!(recovery_backoff(0, max, 0), 2_000);
    assert_eq!(recovery_backoff(1, max, 0), 5_000);
    assert_eq!(recovery_backoff(2, max, 0), 10_000);
    assert_eq!(recovery_backoff(3, max, 0), 30_000);
    assert_eq!(recovery_backoff(4, max, 0), 60_000);
    assert_eq!(recovery_backoff(99, 45_000, 0), 45_000);
}

#[test]
fn reconcile_successful_cycle_resets_backoff_to_first_step() {
    let attempt = failure_attempt_after_cycle(4, true);
    assert_eq!(attempt, 0);
    assert_eq!(recovery_backoff(attempt, 120_000, 0), 2_000);
    assert_eq!(failure_attempt_after_cycle(0, false), 1);
}

#[test]
fn tests_recovery_backoff_is_bounded_and_nonzero() {
    let max = 120_000;
    assert_eq!(recovery_backoff(0, max, 0), 2_000);
    assert_eq!(recovery_backoff(1, max, 0), 5_000);
    assert_eq!(recovery_backoff(2, max, 0), 10_000);
    assert_eq!(recovery_backoff(3, max, 0), 30_000);
    assert_eq!(recovery_backoff(4, max, 0), 60_000);
    assert_eq!(recovery_backoff(99, 45_000, 0), 45_000);
}

#[test]
fn tests_successful_cycle_resets_backoff_to_first_step() {
    let attempt = failure_attempt_after_cycle(4, true);
    assert_eq!(attempt, 0);
    assert_eq!(recovery_backoff(attempt, 120_000, 0), 2_000);
    assert_eq!(failure_attempt_after_cycle(0, false), 1);
}

#[test]
fn recovery_backoff_never_exceeds_its_ceiling() {
    for attempt in 0..10 {
        for seed in [0u64, 3, 999, u64::MAX] {
            let wait = recovery_backoff(attempt, 45_000, seed);
            assert!(wait <= 45_000);
            assert!(wait > 0);
        }
    }
}

#[test]
fn subsystem_only_reports_ready_in_ready_phase() {
    let mut state = ProxySubsystemStatus::starting();
    assert!(!state.is_ready());
    state.mark_ready();
    assert!(state.is_ready());
    assert_eq!(state.snapshot().phase, ProxySubsystemPhase::Ready);
}

#[test]
fn degraded_state_records_bounded_secret_safe_error() {
    let mut state = ProxySubsystemStatus::starting();
    state.mark_degraded("x".repeat(2048), Some(123));
    let snap = state.snapshot();
    assert_eq!(snap.phase, ProxySubsystemPhase::Degraded);
    assert!(snap.last_error.unwrap().len() <= 512);
    assert_eq!(snap.backoff_until_unix_secs, Some(123));
}

#[test]
fn error_truncation_preserves_utf8_boundaries() {
    let mut state = ProxySubsystemStatus::starting();
    state.mark_degraded("é".repeat(600), None);
    let error = state.snapshot().last_error.unwrap();
    assert!(error.len() <= MAX_SUBSYSTEM_ERROR_BYTES);
    assert!(std::str::from_utf8(error.as_bytes()).is_ok());
}

#[test]
fn fixed_port_lists_and_status_labels() {
    assert_eq!(get_primary_ports(), [40001, 40002, 40003]);
    assert_eq!(get_warm_standby_ports(), [40004, 40005]);
    assert_eq!(ProxyStatus::Active.description(), "healthy");
    assert_eq!(ProxyStatus::Cooldown(5).description(), "cooldown");
    assert_eq!(ProxyStatus::Dead { restart_attempts: 2 }.description(), "dead");
}

#[test]
fn rendezvous_score_is_deterministic() {
    assert_eq!(
        stable_rendezvous_score("agent-a", "socks5://127.0.0.1:40001"),
        stable_rendezvous_score("agent-a", "socks5://127.0.0.1:40001")
    );
    assert_ne!(
        stable_rendezvous_score("agent-a", "socks5://127.0.0.1:40001"),
        stable_rendezvous_score("agent-a", "socks5://127.0.0.1:40002")
    );
}

#[test]
fn live_verifier_verdicts() {
    let verifier = LiveProxyVerifier;
    assert!(verifier.transport_verdict(204).is_ok());
    assert_eq!(
        verifier.transport_verdict(502),
        Err("HTTP-through-proxy returned HTTP 502 Bad Gateway".to_string())
    );
    assert_eq!(
        verifier.route_probe_url("https://opencode.ai/zen/v1//"),
        "https://opencode.ai/zen/v1/models"
    );
}

#[test]
fn staged_verification_stops_at_the_first_failing_stage() {
    let found = opencode2api::proxy_pool::types::ExitIdentity {
        public_ip: "203.0.113.10".to_string(),
        provider: None,
        colo: None,
        verified_at_unix_secs: 1,
    };
    assert_eq!(
        staged_verdict(None, None, None, 5000),
        Err(VerificationFailure::Transport("transport verification timed out after 5s".to_string()))
    );
    assert_eq!(
        staged_verdict(Some(Err("refused".to_string())), Some(Ok(found.clone())), Some(Ok(())), 5000),
        Err(VerificationFailure::Transport("refused".to_string()))
    );
    assert_eq!(
        staged_verdict(Some(Ok(())), None, Some(Ok(())), 1500),
        Err(VerificationFailure::Identity("identity verification timed out after 1500ms".to_string()))
    );
    assert_eq!(
        staged_verdict(Some(Ok(())), Some(Ok(found.clone())), Some(Err("502".to_string())), 5000),
        Err(VerificationFailure::Route("502".to_string()))
    );
    assert_eq!(
        staged_verdict(Some(Ok(())), Some(Ok(found.clone())), Some(Ok(())), 5000),
        Ok(found)
    );
}

#[test]
fn staged_verification_never_reaches_route_after_identity_failure() {
    let found = opencode2api::proxy_pool::types::ExitIdentity {
        public_ip: "203.0.113.10".to_string(),
        provider: None,
        colo: None,
        verified_at_unix_secs: 1,
    };
    assert_eq!(next_probe(&None, &None, &None), Some(VerificationProbe::Transport));
    assert_eq!(next_probe(&Some(Some(Ok(()))), &None, &None), Some(VerificationProbe::Identity));
    assert_eq!(next_probe(&Some(None), &None, &None), None);
    assert_eq!(next_probe(&Some(Some(Err("refused".to_string()))), &None, &None), None);
    assert_eq!(
        next_probe(&Some(Some(Ok(()))), &Some(Some(Err("no consensus".to_string()))), &None),
        None
    );
    assert_eq!(
        next_probe(&Some(Some(Ok(()))), &Some(Some(Ok(found.clone()))), &None),
        Some(VerificationProbe::Route)
    );
    assert_eq!(
        next_probe(&Some(Some(Ok(()))), &Some(Some(Ok(found))), &Some(Some(Ok(())))),
        None
    );
}

#[test]
fn test_rendezvous_deterministic() {
    let urls: Vec<String> = (0..3)
        .map(|i| format!("socks5://127.0.0.1:{}", 40001 + i))
        .collect();
    let _pool = opencode2api::proxy_pool::types::ProxyPool::new(&urls);

    let score1 = stable_rendezvous_score("agent-x", "socks5://127.0.0.1:40001");
    let score2 = stable_rendezvous_score("agent-x", "socks5://127.0.0.1:40001");
    assert_eq!(score1, score2, "rendezvous score must be deterministic");

    let score3 = stable_rendezvous_score("agent-x", "socks5://127.0.0.1:40002");
    assert_ne!(score1, score3, "different nodes should have different scores");
}
