use opencode2api::proxy_pool::pool::{entry_from_client, proxy_client_settings};
use opencode2api::proxy_pool::reconcile::{container_action, ContainerAction, ReconcileCycle};
use opencode2api::proxy_pool::subsystem::{ProxySubsystemPhase, ProxySubsystemStatus};
use opencode2api::ip::IpAddress;
use opencode2api::proxy_pool::identity::parse_observation;
use opencode2api::proxy_pool::maintenance::MAX_RATE_LIMIT_COOLDOWN_SECS;
use opencode2api::proxy_pool::restart::node_requires_automatic_restart;
use opencode2api::proxy_pool::types::{
    CircuitState, EgressRole, ExitIdentity, HealthState, LifecyclePolicy, ProxyPool,
    RecoveryCause, COOLDOWN_SECS, FAILURE_THRESHOLD,
};
use std::time::{SystemTime, UNIX_EPOCH};

fn now_ms() -> u64 {
    SystemTime::now()
        .duration_since(UNIX_EPOCH)
        .unwrap_or_default()
        .as_millis() as u64
}

fn now_secs() -> u64 {
    now_ms() / 1000
}

fn make_test_urls(count: usize) -> Vec<String> {
    (0..count)
        .map(|index| format!("socks5://127.0.0.1:{}", 40001 + index))
        .collect()
}

fn five_node_pool() -> ProxyPool {
    ProxyPool::new(&make_test_urls(5))
}

fn four_node_pool() -> ProxyPool {
    ProxyPool::new(&[
        "socks5://127.0.0.1:40001".to_string(),
        "socks5://127.0.0.1:40002".to_string(),
        "socks5://127.0.0.1:40003".to_string(),
        "socks5://127.0.0.1:40004".to_string(),
    ])
}

fn identity(ip: &str) -> ExitIdentity {
    ExitIdentity {
        public_ip: ip.to_string(),
        provider: Some("cloudflare-warp".to_string()),
        colo: Some("HKG".to_string()),
        verified_at_unix_secs: now_secs(),
    }
}

#[test]
fn route_availability_pending_while_required_identity_is_missing() {
    let mut pool = ProxyPool::new_with_policy(&["socks5://127.0.0.1:40001".to_string()], 1, true);
    pool.proxies[0].health = HealthState::Healthy;
    pool.proxies[0].exit_identity = None;
    assert!(pool.route_availability_pending());

    pool.proxies[0].health = HealthState::Unhealthy;
    pool.proxies[0].circuit = CircuitState::Open {
        until: now_ms() + 60_000,
    };
    assert!(!pool.route_availability_pending());
}

#[test]
fn proxy_pool_round_robin_distributes_across_primaries() {
    let mut pool = ProxyPool::new(&make_test_urls(3));
    assert_eq!(pool.proxies.len(), 3);
    assert_eq!(pool.active_count, 3);
    let mut seen = std::collections::HashSet::new();
    for _ in 0..6 {
        let index = pool.get_client("agent-1").expect("route").2;
        seen.insert(index);
        assert_eq!(pool.proxies[index].role, EgressRole::Primary);
    }
    assert_eq!(seen.len(), 3, "round-robin should use all 3 primaries");
}

#[test]
fn concurrent_burst_reuses_active_primary_before_advancing_round_robin() {
    let mut pool = ProxyPool::new(&make_test_urls(3));
    let first = pool.get_client("burst").expect("first route").2;
    assert_eq!(first, 0);
    let _lease = pool.begin_lease(first).expect("active lease");

    let second = pool.get_client("burst").expect("reuse active route").2;
    assert_eq!(second, first, "concurrent burst should share the in-flight primary");

    let retry = pool
        .get_client_excluding("burst", first)
        .expect("explicit retry still avoids failed proxy")
        .2;
    assert_ne!(retry, first);
}

#[test]
fn configured_active_count_only_changes_primary_serving_set() {
    let pool = ProxyPool::new_with_active_count(&make_test_urls(5), 2);
    assert_eq!(pool.active_count, 2);
    assert!(pool.proxies[0].routing_enabled);
    assert!(pool.proxies[1].routing_enabled);
    assert!(!pool.proxies[2].routing_enabled);
    assert_eq!(pool.proxies[3].role, EgressRole::WarmStandby);
    assert_eq!(pool.proxies[3].lifecycle, LifecyclePolicy::Protected);
}

#[test]
fn retry_excludes_failed_proxy_and_prefers_other_primary() {
    let mut pool = five_node_pool();
    let first = pool.get_client("retry-agent").expect("initial route");
    let retry = pool
        .get_client_excluding("retry-agent", first.2)
        .expect("alternate route");
    assert_ne!(first.2, retry.2);
    assert_eq!(pool.proxies[retry.2].role, EgressRole::Primary);
}

#[test]
fn round_robin_skips_rate_limited_node_and_continues_cycling() {
    let mut pool = five_node_pool();
    pool.mark_rate_limited(0, 300);
    let mut seen = std::collections::HashSet::new();
    for _ in 0..10 {
        let index = pool.select_proxy_for_key("any").expect("route").2;
        seen.insert(index);
        assert_ne!(index, 0, "rate-limited node 0 must never be selected");
        assert_eq!(pool.proxies[index].role, EgressRole::Primary);
    }
    assert_eq!(seen.len(), 2, "round-robin should use both healthy primaries");
}

#[test]
fn offline_unverified_standby_is_not_selected_after_primaries_are_unavailable() {
    let mut pool = five_node_pool();
    for index in 0..3 {
        pool.mark_rate_limited(index, 300);
    }
    assert!(pool.get_client("failover").is_none());
}

#[test]
fn verified_healthy_standby_is_used_only_after_primaries_are_unavailable() {
    let mut pool = five_node_pool();
    for index in 0..3 {
        pool.mark_rate_limited(index, 300);
    }
    pool.proxies[3].exit_identity = Some(identity("1.1.1.1"));
    pool.proxies[3].health = HealthState::Healthy;
    let selected = pool.get_client("failover").expect("verified standby route").2;
    assert_eq!(selected, 3);
    assert_eq!(pool.proxies[selected].role, EgressRole::WarmStandby);
}

#[test]
fn one_plus_one_standby_keeps_egress_ready_when_primary_is_unhealthy() {
    let urls = vec![
        "socks5h://127.0.0.1:40001".to_string(),
        "socks5h://127.0.0.1:40004".to_string(),
    ];
    let mut pool = ProxyPool::new_with_egress_policy(&urls, 1, false, 300);

    pool.proxies[0].health = HealthState::Unhealthy;
    pool.proxies[0].circuit = CircuitState::Open {
        until: now_ms() + 300_000,
    };
    pool.proxies[1].health = HealthState::Healthy;
    pool.proxies[1].circuit = CircuitState::Closed;
    pool.proxies[1].exit_identity = Some(identity("1.1.1.1"));

    let selected = pool
        .select_proxy_for_key("one-plus-one-failover")
        .expect("warm standby must remain routable")
        .2;
    assert_eq!(selected, 1);
    assert_eq!(pool.proxies[selected].role, EgressRole::WarmStandby);
    assert!(pool.egress_ready(1, 300));
}

#[test]
fn protected_standby_is_never_normal_route() {
    let mut pool = five_node_pool();
    for key in ["a", "b", "c", "d", "e"] {
        let selected = pool.get_client(key).expect("primary route").2;
        assert_eq!(pool.proxies[selected].role, EgressRole::Primary);
    }
}

#[test]
fn duplicate_exit_is_excluded_from_routing() {
    let mut pool = ProxyPool::new(&make_test_urls(3));
    pool.proxies[0].duplicate_of = Some("opencode-warp-owner".to_string());
    for _ in 0..6 {
        let selected = pool
            .select_proxy_for_key("duplicate-session")
            .expect("alternate primary")
            .2;
        assert_ne!(selected, 0, "duplicate node must never be selected");
    }
}

#[test]
fn rate_limit_recovery_is_never_used_as_half_open_probe() {
    let mut pool = ProxyPool::new(&["socks5://127.0.0.1:40001".to_string()]);
    pool.proxies[0].exit_identity = Some(identity("1.1.1.1"));
    pool.mark_rate_limited(0, 3_600);
    pool.drain_restart_queue();
    pool.proxies[0].health = HealthState::Recovering;
    pool.proxies[0].circuit = CircuitState::HalfOpen;
    pool.proxies[0].restart_attempts = pool.max_restart_attempts;

    assert!(pool.select_proxy_for_key("must-not-probe").is_none());
}

#[test]
fn half_open_node_accepts_only_one_probe_lease() {
    let mut pool = ProxyPool::new(&make_test_urls(1));
    pool.proxies[0].health = HealthState::Recovering;
    pool.proxies[0].circuit = CircuitState::HalfOpen;
    assert!(pool.select_proxy_for_key("probe").is_some());
    let lease = pool.begin_lease(0).expect("probe lease");
    assert!(pool.select_proxy_for_key("second-probe").is_none());
    pool.release_lease(lease);
    assert!(pool.select_proxy_for_key("probe-again").is_some());
}

#[test]
fn leases_block_destructive_lifecycle_operations() {
    let mut pool = ProxyPool::new(&make_test_urls(1));
    let lease = pool.begin_lease(0).expect("request lease");
    assert!(pool
        .can_modify_node(0)
        .unwrap_err()
        .contains("active request"));
    pool.release_lease(lease);
    assert!(pool.can_modify_node(0).is_ok());
}

#[test]
fn protected_node_cannot_be_modified_even_without_lease() {
    let pool = five_node_pool();
    let standby = pool
        .proxies
        .iter()
        .position(|node| node.role == EgressRole::WarmStandby)
        .expect("standby");
    assert!(pool
        .can_modify_node(standby)
        .unwrap_err()
        .contains("protected"));
}

#[test]
fn provider_rate_limit_does_not_degrade_proxy_transport_health() {
    let mut pool = ProxyPool::new(&make_test_urls(1));
    pool.proxies[0].health = HealthState::Healthy;
    pool.proxies[0].circuit = CircuitState::Closed;

    pool.mark_rate_limited(0, 60);

    assert_eq!(pool.proxies[0].health, HealthState::Healthy);
    assert_eq!(pool.proxies[0].circuit, CircuitState::Closed);
    assert_eq!(pool.proxies[0].recovery_cause, Some(RecoveryCause::RateLimit));
    assert!(pool.restart_queue.is_empty());
    assert!(pool.select_proxy_for_key("blocked").is_none());
}

#[test]
fn one_rate_limited_primary_does_not_gate_other_healthy_primaries() {
    let mut pool = ProxyPool::new(&make_test_urls(3));
    for node in &mut pool.proxies {
        node.health = HealthState::Healthy;
        node.circuit = CircuitState::Closed;
    }

    pool.mark_rate_limited(0, 120);

    let selected = pool
        .select_proxy_for_key("fresh-request")
        .expect("healthy non-rate-limited primary should stay routable")
        .2;
    assert_ne!(selected, 0);
    assert_eq!(pool.proxies[selected].health, HealthState::Healthy);
    assert_eq!(pool.proxies[selected].circuit, CircuitState::Closed);
}

#[test]
fn expired_circuit_becomes_half_open_and_successes_close_it() {
    let mut pool = ProxyPool::new(&make_test_urls(1));
    pool.proxies[0].health = HealthState::Degraded;
    pool.proxies[0].circuit = CircuitState::Open {
        until: now_ms() - 1_000,
    };
    pool.proxies[0].cooldown_until = Some(now_ms() - 1_000);
    assert_eq!(pool.recover_expired_cooldowns(), 1);
    assert_eq!(pool.proxies[0].health, HealthState::Recovering);
    assert_eq!(pool.proxies[0].circuit, CircuitState::HalfOpen);

    pool.record_success(0);
    assert_eq!(pool.proxies[0].circuit, CircuitState::HalfOpen);
    pool.record_success(0);
    assert_eq!(pool.proxies[0].health, HealthState::Healthy);
    assert_eq!(pool.proxies[0].circuit, CircuitState::Closed);
}

#[test]
fn transport_failure_degrades_then_opens_managed_node() {
    let mut pool = ProxyPool::new(&make_test_urls(1));
    pool.record_failure(0);
    assert_eq!(pool.proxies[0].health, HealthState::Degraded);
    assert!(pool.restart_queue.is_empty());

    pool.record_failure(0);
    assert_eq!(pool.proxies[0].health, HealthState::Unhealthy);
    assert!(matches!(pool.proxies[0].circuit, CircuitState::Open { .. }));
    assert_eq!(pool.restart_queue, vec![0]);
}

#[test]
fn success_clears_single_transport_failure_without_false_recovery() {
    let mut pool = ProxyPool::new(&make_test_urls(1));
    pool.record_failure(0);
    pool.record_success(0);
    assert_eq!(pool.proxies[0].consecutive_failures, 0);
    assert_eq!(pool.proxies[0].health, HealthState::Degraded);
}

#[test]
fn snapshot_exposes_independent_state_dimensions() {
    let mut pool = five_node_pool();
    pool.mark_rate_limited(1, 60);
    let _lease_one = pool.begin_lease(0).expect("lease one");
    let _lease_two = pool.begin_lease(0).expect("lease two");
    pool.proxies[0].exit_identity = Some(ExitIdentity {
        public_ip: "203.0.113.10".to_string(),
        provider: Some("warp".to_string()),
        colo: Some("SIN".to_string()),
        verified_at_unix_secs: 1,
    });

    let stats = pool.snapshot();
    assert_eq!(stats.policy, "primary-with-protected-warm-standby");
    assert_eq!(stats.primary.total, 3);
    assert_eq!(stats.primary.cooldown, 0);
    assert_eq!(stats.primary.active_requests, 2);
    assert_eq!(stats.primary.unique_verified_exits, 1);
    assert_eq!(stats.warm_standby.total, 2);
    assert!(stats.warm_standby.protected);
    assert_eq!(stats.nodes[0].health, HealthState::Healthy);
    assert_eq!(stats.nodes[0].circuit, "closed");
    assert_eq!(stats.nodes[1].health, HealthState::Healthy);
    assert_eq!(stats.nodes[1].circuit, "closed");
    assert_eq!(stats.nodes[1].recovery_cause, Some(RecoveryCause::RateLimit));
    assert!(stats.nodes[1].cooldown_remaining_secs.is_none());
}

#[test]
fn draining_primary_stops_new_routes_while_existing_lease_finishes() {
    let mut pool = ProxyPool::new(&make_test_urls(2));
    let lease = pool.begin_lease(0).expect("existing request lease");

    assert_eq!(pool.begin_drain(0).expect("begin drain"), 1);
    assert!(pool.proxies[0].draining);
    assert_eq!(pool.proxies[0].active_request_count(), 1);

    let (_, _, selected) = pool
        .select_proxy_for_key("fresh-request")
        .expect("second primary remains routable");
    assert_eq!(selected, 1, "draining primary must receive no fresh route");

    assert!(pool.begin_manual_restart(0).is_err());
    pool.release_lease(lease);
    pool.begin_manual_restart(0)
        .expect("drained zero-lease node can restart");
    pool.mark_healthy(0);
    assert!(!pool.proxies[0].draining, "successful recovery ends drain");
}

#[test]
fn draining_only_route_is_neither_ready_nor_pending() {
    let mut pool = ProxyPool::new(&make_test_urls(1));
    assert!(pool.egress_ready(0, 300));
    pool.begin_drain(0).expect("drain primary");
    assert!(!pool.egress_ready(0, 300));
    assert!(!pool.route_availability_pending());
}

#[test]
fn drain_cancel_is_non_destructive_and_protected_nodes_reject_drain() {
    let mut pool = five_node_pool();
    let health_before = pool.proxies[0].health;
    let circuit_before = pool.proxies[0].circuit;
    pool.begin_drain(0).expect("managed primary drain");
    pool.cancel_drain(0).expect("cancel managed drain");
    assert!(!pool.proxies[0].draining);
    assert_eq!(pool.proxies[0].health, health_before);
    assert_eq!(pool.proxies[0].circuit, circuit_before);

    let error = pool.begin_drain(3).expect_err("standby is protected");
    assert!(error.contains("protected"));
}

#[test]
fn restart_queue_drain_is_atomic() {
    let mut pool = ProxyPool::new(&make_test_urls(3));
    pool.restart_queue.extend([0, 1]);
    assert_eq!(pool.drain_restart_queue(), vec![0, 1]);
    assert!(pool.drain_restart_queue().is_empty());
}

#[test]
fn pool_normalizes_socks5_urls_to_remote_dns() {
    let pool = ProxyPool::new(&["socks5://127.0.0.1:40001".to_string()]);
    assert_eq!(pool.proxies.len(), 1);
    assert_eq!(pool.proxies[0].url, "socks5h://127.0.0.1:40001");
}

#[test]
fn warm_standby_stays_idle_while_another_primary_remains_routable() {
    let mut pool = five_node_pool();
    pool.proxies[0].health = HealthState::Unhealthy;
    pool.proxies[0].circuit = CircuitState::Open {
        until: now_ms() + 300_000,
    };
    for index in [3_usize, 4] {
        pool.proxies[index].exit_identity = Some(identity("1.1.1.1"));
    }
    for _ in 0..12 {
        let selected = pool
            .select_proxy_for_key("failover-scope")
            .expect("a healthy primary remains routable")
            .2;
        assert_eq!(pool.proxies[selected].role, EgressRole::Primary);
        assert_ne!(selected, 0);
    }
}

#[test]
fn empty_pool_returns_none() {
    let urls: Vec<String> = Vec::new();
    let mut pool = ProxyPool::new(&urls);
    assert!(pool.select_proxy_for_key("any").is_none());
    assert!(pool.get_client_excluding("any", 0).is_none());
}

#[test]
fn restart_attempts_are_independent_from_health_state() {
    let mut pool = four_node_pool();
    assert!(pool.apply_restart_failure(0, 1));
    assert_eq!(pool.proxies[0].restart_attempts, 1);
    assert_eq!(pool.proxies[0].health, HealthState::Unhealthy);
    assert_eq!(pool.drain_restart_queue(), vec![0]);

    assert!(pool.apply_restart_failure(0, 2));
    assert_eq!(pool.proxies[0].restart_attempts, 2);
    assert_eq!(pool.drain_restart_queue(), vec![0]);

    assert!(!pool.apply_restart_failure(0, 3));
    assert_eq!(pool.proxies[0].restart_attempts, 3);
    assert!(pool.drain_restart_queue().is_empty());
}

#[test]
fn protected_standby_is_never_queued_for_restart() {
    let mut pool = four_node_pool();
    let standby = pool
        .proxies
        .iter()
        .position(|node| node.role == EgressRole::WarmStandby)
        .expect("standby node");
    assert!(!pool.apply_restart_failure(standby, 1));
    assert!(pool.restart_queue.is_empty());
    assert_eq!(pool.proxies[standby].lifecycle, LifecyclePolicy::Protected);
}

#[test]
fn manual_restart_clears_stale_circuit_and_automatic_queue() {
    let mut pool = four_node_pool();
    let until = now_ms() + COOLDOWN_SECS * 1000;
    pool.proxies[0].health = HealthState::Degraded;
    pool.proxies[0].circuit = CircuitState::Open { until };
    pool.proxies[0].cooldown_until = Some(until);
    pool.proxies[0].consecutive_failures = FAILURE_THRESHOLD;
    pool.restart_queue.push(0);

    pool.begin_manual_restart(0).expect("manual restart");

    assert_eq!(pool.proxies[0].health, HealthState::Recovering);
    assert_eq!(pool.proxies[0].circuit, CircuitState::HalfOpen);
    assert!(pool.proxies[0].cooldown_until.is_none());
    assert_eq!(pool.proxies[0].consecutive_failures, 0);
    assert_eq!(pool.proxies[0].restart_attempts, 1);
    assert!(pool.restart_queue.is_empty());
}

#[test]
fn manual_restart_failure_requeues_managed_node() {
    let mut pool = four_node_pool();
    pool.begin_manual_restart(0).expect("manual restart");
    pool.mark_manual_restart_failed(0);

    assert_eq!(pool.proxies[0].health, HealthState::Unhealthy);
    assert!(matches!(pool.proxies[0].circuit, CircuitState::Open { .. }));
    assert_eq!(pool.restart_queue, vec![0]);
}

#[test]
fn stale_queue_entry_is_not_actionable_after_recovery() {
    let mut pool = four_node_pool();
    let node = &mut pool.proxies[0];
    node.health = HealthState::Healthy;
    node.circuit = CircuitState::Closed;
    node.recovery_cause = None;
    assert!(!node_requires_automatic_restart(node));

    node.health = HealthState::Unhealthy;
    node.recovery_cause = Some(RecoveryCause::Transport);
    assert!(node_requires_automatic_restart(node));
}

#[test]
fn health_monitor_probes_healthy_managed_primaries_but_not_protected_standby() {
    let pool = four_node_pool();
    let targets = pool.health_probe_targets();
    let ports: Vec<u16> = targets.into_iter().map(|(_, port)| port).collect();

    assert!(ports.contains(&40001));
    assert!(ports.contains(&40002));
    assert!(ports.contains(&40003));
    assert!(!ports.contains(&40004));
}

#[test]
fn two_failed_health_probes_queue_managed_primary_restart() {
    let mut pool = four_node_pool();

    pool.apply_health_probe_result(0, false);
    assert_eq!(pool.proxies[0].health, HealthState::Degraded);
    assert_eq!(pool.proxies[0].recovery_cause, Some(RecoveryCause::Transport));
    assert!(pool.restart_queue.is_empty());

    pool.apply_health_probe_result(0, false);
    assert_eq!(pool.proxies[0].health, HealthState::Unhealthy);
    assert!(matches!(pool.proxies[0].circuit, CircuitState::Open { .. }));
    assert_eq!(pool.restart_queue, vec![0]);
}

#[test]
fn successful_health_probe_clears_transport_failure_without_fake_request_success() {
    let mut pool = four_node_pool();
    pool.proxies[0].exit_identity = Some(identity("1.1.1.1"));

    pool.apply_health_probe_result(0, false);
    pool.apply_health_probe_result(0, true);

    assert_eq!(pool.proxies[0].health, HealthState::Healthy);
    assert_eq!(pool.proxies[0].circuit, CircuitState::Closed);
    assert!(pool.proxies[0].recovery_cause.is_none());
    assert_eq!(pool.proxies[0].consecutive_successes, 0);
    assert!(pool.restart_queue.is_empty());
}

#[test]
fn health_monitor_does_not_interfere_with_rate_limit_or_inflight_restart() {
    let mut pool = four_node_pool();
    pool.proxies[0].recovery_cause = Some(RecoveryCause::RateLimit);
    pool.proxies[1].health = HealthState::Recovering;
    pool.proxies[1].recovery_cause = Some(RecoveryCause::Transport);
    pool.proxies[1].restart_attempts = 1;

    let targets = pool.health_probe_targets();
    let indices: Vec<usize> = targets.into_iter().map(|(index, _)| index).collect();
    assert!(!indices.contains(&0));
    assert!(!indices.contains(&1));
}

#[test]
fn configured_restart_attempt_limit_is_honored() {
    let mut pool = four_node_pool();
    pool.set_max_restart_attempts(2);
    assert!(pool.apply_restart_failure(0, 1));
    assert!(!pool.apply_restart_failure(0, 2));
    assert_eq!(pool.proxies[0].restart_attempts, 2);
    assert!(pool.restart_queue.is_empty());
}

#[test]
fn active_rate_limit_cooldown_is_not_requeued_for_identity_rotation() {
    let mut pool = four_node_pool();
    pool.proxies[0].exit_identity = Some(identity("1.1.1.1"));
    pool.mark_rate_limited(0, 3_600);
    assert!(pool.restart_queue.is_empty());
    let quota_until = pool.proxies[0].rate_limit_until.expect("quota deadline");

    let expired = now_ms() - 1_000;
    pool.proxies[0].circuit = CircuitState::Open { until: expired };
    pool.proxies[0].cooldown_until = Some(expired);

    assert_eq!(pool.recover_expired_cooldowns(), 0);
    assert!(pool.restart_queue.is_empty());
    assert_eq!(pool.proxies[0].restart_attempts, 0);
    assert_eq!(pool.proxies[0].recovery_cause, Some(RecoveryCause::RateLimit));
    assert_eq!(pool.proxies[0].rate_limit_until, Some(quota_until));
    assert!(matches!(
        pool.proxies[0].circuit,
        CircuitState::Open { until } if until == quota_until
    ));
}

#[test]
fn rate_limit_recovery_rejects_same_exit_before_quota_expiry() {
    let mut pool = four_node_pool();
    pool.proxies[0].exit_identity = Some(identity("1.1.1.1"));
    pool.mark_rate_limited(0, 3_600);
    pool.drain_restart_queue();

    let error = pool
        .accept_recovered_identity(0, identity("1.1.1.1"))
        .expect_err("same exit must remain quarantined");
    assert!(error.contains("reused rate-limited exit IP"));
    assert_eq!(pool.proxies[0].recovery_cause, Some(RecoveryCause::RateLimit));
}

#[test]
fn rate_limit_recovery_may_reuse_exit_owned_only_by_disabled_spare() {
    let mut pool = four_node_pool();
    pool.active_count = 1;
    for (index, node) in pool.proxies.iter_mut().enumerate() {
        node.routing_enabled = index == 0;
    }
    pool.proxies[0].exit_identity = Some(identity("1.1.1.1"));
    pool.proxies[1].exit_identity = Some(identity("8.8.8.8"));
    pool.mark_rate_limited(0, 3_600);
    pool.drain_restart_queue();

    pool.accept_recovered_identity(0, identity("8.8.8.8"))
        .expect("disabled spare must not block active recovery");
    assert_eq!(pool.proxies[0].health, HealthState::Healthy);
    assert_eq!(pool.proxies[0].circuit, CircuitState::Closed);
    assert_eq!(
        pool.proxies[0]
            .exit_identity
            .as_ref()
            .map(|identity| identity.public_ip.as_str()),
        Some("8.8.8.8")
    );
    assert_eq!(
        pool.proxies[1].duplicate_of.as_deref(),
        Some(pool.proxies[0].id.as_str())
    );
}

#[test]
fn rate_limit_recovery_may_take_exit_owned_by_warm_standby() {
    let mut pool = four_node_pool();
    let standby = pool
        .proxies
        .iter()
        .position(|node| node.role == EgressRole::WarmStandby)
        .expect("warm standby");
    pool.proxies[0].exit_identity = Some(identity("1.1.1.1"));
    pool.proxies[standby].exit_identity = Some(identity("8.8.8.8"));
    pool.proxies[standby].health = HealthState::Healthy;
    pool.proxies[standby].circuit = CircuitState::Closed;
    pool.mark_rate_limited(0, 3_600);
    pool.drain_restart_queue();

    pool.accept_recovered_identity(0, identity("8.8.8.8"))
        .expect("warm standby must yield duplicate ownership to primary");

    assert_eq!(pool.proxies[0].health, HealthState::Healthy);
    assert_eq!(pool.proxies[0].circuit, CircuitState::Closed);
    assert_eq!(
        pool.proxies[0]
            .exit_identity
            .as_ref()
            .map(|identity| identity.public_ip.as_str()),
        Some("8.8.8.8")
    );
    assert_eq!(
        pool.proxies[standby].duplicate_of.as_deref(),
        Some(pool.proxies[0].id.as_str())
    );
}

#[test]
fn rate_limit_recovery_rejects_duplicate_exit() {
    let mut pool = four_node_pool();
    pool.proxies[0].exit_identity = Some(identity("1.1.1.1"));
    pool.proxies[1].exit_identity = Some(identity("8.8.8.8"));
    pool.mark_rate_limited(0, 3_600);
    pool.drain_restart_queue();

    let error = pool
        .accept_recovered_identity(0, identity("8.8.8.8"))
        .expect_err("duplicate exit must be rejected");
    assert!(error.contains("duplicate exit IP"));
}

#[test]
fn rate_limit_recovery_accepts_new_unique_exit() {
    let mut pool = four_node_pool();
    pool.proxies[0].exit_identity = Some(identity("1.1.1.1"));
    pool.proxies[1].exit_identity = Some(identity("8.8.8.8"));
    pool.mark_rate_limited(0, 3_600);
    pool.drain_restart_queue();

    pool.accept_recovered_identity(0, identity("9.9.9.9"))
        .expect("new unique exit should recover");
    assert_eq!(pool.proxies[0].health, HealthState::Healthy);
    assert_eq!(pool.proxies[0].circuit, CircuitState::Closed);
    assert_eq!(
        pool.proxies[0]
            .exit_identity
            .as_ref()
            .map(|identity| identity.public_ip.as_str()),
        Some("9.9.9.9")
    );
    assert!(pool.proxies[0].rate_limit_until.is_none());
    assert!(pool.proxies[0].quarantined_exit_ip.is_none());
    assert!(pool.proxies[0].recovery_cause.is_none());
}

#[test]
fn restart_failure_preserves_long_rate_limit_deadline() {
    let mut pool = four_node_pool();
    pool.proxies[0].exit_identity = Some(identity("1.1.1.1"));
    pool.mark_rate_limited(0, 3_600);
    let original_deadline = pool.proxies[0].rate_limit_until.expect("deadline");
    pool.drain_restart_queue();

    assert!(pool.apply_restart_failure(0, 1));
    assert_eq!(pool.proxies[0].rate_limit_until, Some(original_deadline));
    assert!(matches!(
        pool.proxies[0].circuit,
        CircuitState::Open { until } if until == original_deadline
    ));
}

#[test]
fn expired_open_circuit_becomes_half_open_not_healthy() {
    let mut pool = four_node_pool();
    pool.proxies[0].circuit = CircuitState::Open {
        until: now_ms() - 1_000,
    };
    pool.proxies[0].health = HealthState::Degraded;
    assert_eq!(pool.recover_expired_cooldowns(), 1);
    assert_eq!(pool.proxies[0].circuit, CircuitState::HalfOpen);
    assert_eq!(pool.proxies[0].health, HealthState::Recovering);
}

#[test]
fn hostile_retry_after_overflow_saturates_instead_of_panicking() {
    let mut pool = four_node_pool();
    pool.proxies[0].exit_identity = Some(identity("1.1.1.1"));
    let before = now_ms();

    pool.mark_rate_limited(0, u64::MAX);

    let node = &pool.proxies[0];
    let until = node.rate_limit_until.expect("saturated quota deadline");
    let ceiling = MAX_RATE_LIMIT_COOLDOWN_SECS * 1000;
    assert!(until >= before + ceiling);
    assert!(until <= now_ms() + ceiling);
    assert_eq!(node.quarantined_exit_ip.as_deref(), Some("1.1.1.1"));
    assert_eq!(node.recovery_cause, Some(RecoveryCause::RateLimit));
}

#[test]
fn adaptive_rate_limit_cooldown_doubles_then_caps() {
    let mut pool = four_node_pool();
    for retry in [0_u32, 1, 2, 3, 10] {
        let before = now_ms();
        pool.mark_rate_limited_adaptive(0, retry);
        let until = pool.proxies[0].rate_limit_until.expect("quota deadline");
        let want = 60_000 * (1_u64 << retry.min(3));
        assert!(until >= before + want, "retry {retry}: deadline shorter than base");
        assert!(until <= now_ms() + want, "retry {retry}: deadline exceeds base");
        pool.proxies[0].rate_limit_until = None;
        pool.proxies[0].quarantined_exit_ip = None;
    }
}

#[test]
fn clear_rate_limit_recovery_leaves_transport_circuit_counters_and_queue_intact() {
    let mut pool = four_node_pool();
    pool.proxies[0].exit_identity = Some(identity("1.1.1.1"));

    pool.mark_rate_limited(0, 3_600);
    pool.record_failure(0);
    pool.record_failure(0);

    assert_eq!(pool.restart_queue, vec![0]);
    assert!(matches!(pool.proxies[0].circuit, CircuitState::Open { .. }));
    assert_eq!(pool.proxies[0].consecutive_failures, FAILURE_THRESHOLD);
    assert!(pool.proxies[0].rate_limit_until.is_some());
    assert_eq!(pool.proxies[0].recovery_cause, Some(RecoveryCause::RateLimit));
    let cooldown = pool.proxies[0].cooldown_until;

    pool.clear_rate_limit_recovery(0);

    let node = &pool.proxies[0];
    assert!(node.rate_limit_until.is_none());
    assert!(node.quarantined_exit_ip.is_none());
    assert_eq!(node.recovery_cause, None);
    assert!(matches!(node.circuit, CircuitState::Open { .. }));
    assert_eq!(node.cooldown_until, cooldown);
    assert_eq!(node.health, HealthState::Unhealthy);
    assert_eq!(node.consecutive_failures, FAILURE_THRESHOLD);
    assert_eq!(pool.restart_queue, vec![0]);
}

#[test]
fn clear_rate_limit_recovery_does_not_touch_transport_recovery_state() {
    let mut pool = four_node_pool();
    pool.record_failure(0);

    pool.clear_rate_limit_recovery(0);

    let node = &pool.proxies[0];
    assert_eq!(node.recovery_cause, Some(RecoveryCause::Transport));
    assert_eq!(node.health, HealthState::Degraded);
    assert_eq!(node.consecutive_failures, 1);
}

#[test]
fn clear_rate_limit_recovery_ignores_unknown_index() {
    let mut pool = four_node_pool();
    let beyond = pool.proxies.len() + 7;
    pool.clear_rate_limit_recovery(beyond);
    assert!(pool.proxies.iter().all(|node| node.rate_limit_until.is_none()));
}

#[test]
fn parses_cloudflare_trace_json_and_plain_responses() {
    let trace = parse_observation("ip=1.1.1.1\ncolo=SIN\nwarp=on\n").expect("trace");
    assert_eq!(trace.ip, IpAddress::V4(1, 1, 1, 1));
    assert_eq!(trace.warp, Some(true));
    assert_eq!(trace.colo.as_deref(), Some("SIN"));

    let json = parse_observation(r#"{"ip":"1.1.1.1"}"#).expect("json");
    assert_eq!(json.ip, trace.ip);
    assert_eq!(parse_observation("1.1.1.1").expect("plain").ip, trace.ip);
}

#[test]
fn rejects_private_reserved_and_documentation_addresses() {
    for value in [
        "127.0.0.1",
        "10.0.0.1",
        "100.64.0.1",
        "203.0.113.1",
        "::1",
        "2001:db8::1",
    ] {
        assert!(parse_observation(value).is_none(), "accepted {value}");
    }
}

#[test]
fn duplicate_owner_is_deterministic_and_primary_first() {
    let mut pool = ProxyPool::new(&[
        "socks5://127.0.0.1:40001".to_string(),
        "socks5://127.0.0.1:40002".to_string(),
        "socks5://127.0.0.1:40004".to_string(),
    ]);
    for node in &mut pool.proxies {
        node.exit_identity = Some(identity("1.1.1.1"));
    }
    pool.suppress_duplicate_exits();
    assert_eq!(pool.proxies[0].duplicate_of, None);
    assert_eq!(pool.proxies[1].duplicate_of.as_deref(), Some("opencode-warp-1"));
    assert_eq!(pool.proxies[2].duplicate_of.as_deref(), Some("opencode-warp-1"));
    assert_eq!(pool.verified_unique_exit_count(), 1);
}

#[test]
fn strict_pool_is_not_ready_until_unique_identity_requirement_is_met() {
    let mut pool = ProxyPool::new_with_policy(
        &[
            "socks5://127.0.0.1:40001".to_string(),
            "socks5://127.0.0.1:40002".to_string(),
        ],
        2,
        true,
    );
    assert!(!pool.egress_ready(2, 300));
    pool.proxies[0].exit_identity = Some(identity("1.1.1.1"));
    pool.proxies[1].exit_identity = Some(identity("8.8.8.8"));
    pool.proxies[0].health = HealthState::Healthy;
    pool.proxies[1].health = HealthState::Healthy;
    pool.suppress_duplicate_exits();
    assert!(pool.egress_ready(2, 300));
}

#[test]
fn stale_identity_is_not_ready_or_routable_in_strict_mode() {
    let mut pool = ProxyPool::new_with_egress_policy(
        &["socks5h://127.0.0.1:40001".to_string()],
        1,
        true,
        30,
    );
    pool.proxies[0].exit_identity = Some(ExitIdentity {
        public_ip: "1.1.1.1".to_string(),
        provider: Some("cloudflare-warp".to_string()),
        colo: Some("SIN".to_string()),
        verified_at_unix_secs: 1,
    });
    pool.proxies[0].health = HealthState::Healthy;
    pool.suppress_duplicate_exits();

    assert_eq!(pool.verified_unique_exit_count(), 1);
    assert_eq!(pool.verified_unique_exit_count_fresh(30), 0);
    assert!(!pool.egress_ready(1, 30));
    assert!(pool.select_proxy_for_key("stale-session").is_none());
}

#[test]
fn recovery_and_quarantine_queries() {
    let mut pool = four_node_pool();
    assert!(!pool.recovery_in_progress());
    assert_eq!(pool.minimum_rate_limit_remaining(), None);
    pool.mark_rate_limited(1, 90);
    let left = pool.minimum_rate_limit_remaining().expect("quarantine");
    assert!(left <= 90 && left >= 89);
    pool.record_failure(0);
    pool.record_failure(0);
    assert!(pool.recovery_in_progress());
}

#[test]
fn transport_failure_during_half_open_recovery_discards_progress_and_reopens() {
    let mut pool = ProxyPool::new(&make_test_urls(1));
    pool.proxies[0].circuit = CircuitState::Open {
        until: now_ms() - 1_000,
    };
    pool.proxies[0].cooldown_until = Some(now_ms() - 1_000);
    pool.proxies[0].health = HealthState::Degraded;
    assert_eq!(pool.recover_expired_cooldowns(), 1);
    assert_eq!(pool.proxies[0].circuit, CircuitState::HalfOpen);

    pool.record_success(0);
    assert_eq!(pool.proxies[0].consecutive_successes, 1);
    assert_eq!(pool.proxies[0].circuit, CircuitState::HalfOpen);

    pool.record_failure(0);
    assert_eq!(pool.proxies[0].consecutive_successes, 0);
    assert_eq!(pool.proxies[0].consecutive_failures, 1);
    assert_eq!(pool.proxies[0].health, HealthState::Degraded);

    pool.record_failure(0);
    assert_eq!(pool.proxies[0].health, HealthState::Unhealthy);
    assert!(matches!(pool.proxies[0].circuit, CircuitState::Open { .. }));
    assert_eq!(pool.restart_queue, vec![0]);
}

#[test]
fn test_mark_healthy() {
    let mut pool = ProxyPool::new(&make_test_urls(1));
    pool.mark_rate_limited(0, 60);
    assert!(pool.proxies[0].rate_limit_until.is_some());
    assert_eq!(pool.proxies[0].recovery_cause, Some(RecoveryCause::RateLimit));

    pool.mark_healthy(0);
    assert_eq!(pool.proxies[0].health, HealthState::Healthy);
    assert_eq!(pool.proxies[0].circuit, CircuitState::Closed);
    assert!(pool.proxies[0].rate_limit_until.is_none());
    assert!(pool.proxies[0].recovery_cause.is_none());
}

#[test]
fn test_drain_restart_queue() {
    let mut pool = ProxyPool::new(&make_test_urls(3));
    assert!(pool.drain_restart_queue().is_empty());
    pool.restart_queue.push(0);
    pool.restart_queue.push(1);
    assert_eq!(pool.drain_restart_queue().len(), 2);
    assert!(pool.drain_restart_queue().is_empty());
}

#[test]
fn test_record_failure_enters_cooldown() {
    let mut pool = ProxyPool::new(&make_test_urls(1));
    assert_eq!(pool.proxies[0].consecutive_failures, 0);
    assert_eq!(pool.proxies[0].circuit, CircuitState::Closed);

    pool.record_failure(0);
    assert_eq!(pool.proxies[0].consecutive_failures, 1);
    assert_eq!(pool.proxies[0].circuit, CircuitState::Closed);

    pool.record_failure(0);
    assert!(matches!(pool.proxies[0].circuit, CircuitState::Open { .. }));
    assert!(pool.proxies[0].cooldown_until.is_some());
}

#[test]
fn test_http_400_does_not_mark_proxy_failed() {
    let mut pool = ProxyPool::new(&make_test_urls(1));
    pool.record_failure(0);
    assert_eq!(pool.proxies[0].consecutive_failures, 1);

    pool.record_success(0);
    assert_eq!(pool.proxies[0].consecutive_failures, 0);
    assert_eq!(pool.proxies[0].consecutive_successes, 1);
    assert_eq!(pool.proxies[0].circuit, CircuitState::Closed);
}

#[test]
fn test_snapshot_shows_cooldown_count() {
    let mut pool = five_node_pool();
    for index in [1, 2, 3] {
        pool.record_failure(index);
        pool.record_failure(index);
    }
    let stats = pool.snapshot();
    assert_eq!(stats.primary.cooldown, 2);
    assert_eq!(stats.primary.healthy, 1);
    assert_eq!(stats.warm_standby.cooldown, 1);
    assert_eq!(stats.warm_standby.healthy, 1);
}

#[test]
fn test_record_success_recovers_after_threshold() {
    let mut pool = ProxyPool::new(&make_test_urls(1));
    pool.record_failure(0);
    pool.record_failure(0);
    assert!(matches!(pool.proxies[0].circuit, CircuitState::Open { .. }));
    assert_eq!(pool.proxies[0].consecutive_successes, 0);

    // The cooldown runs out and the node is probed half-open.
    pool.proxies[0].circuit = CircuitState::Open { until: 0 };
    pool.proxies[0].cooldown_until = Some(0);
    assert_eq!(pool.recover_expired_cooldowns(), 1);

    pool.record_success(0);
    assert_eq!(pool.proxies[0].circuit, CircuitState::HalfOpen, "still recovering after 1 success");
    assert_eq!(pool.proxies[0].consecutive_successes, 1);

    pool.record_success(0);
    assert_eq!(pool.proxies[0].circuit, CircuitState::Closed);
    assert_eq!(pool.proxies[0].health, HealthState::Healthy);
    assert_eq!(pool.proxies[0].consecutive_failures, 0);
    assert_eq!(pool.proxies[0].consecutive_successes, 0);
}

#[test]
fn duplicate_marking_twice_changes_nothing() {
    let mut pool = ProxyPool::new(&make_test_urls(4));
    pool.proxies[0].exit_identity = Some(identity("1.1.1.1"));
    pool.proxies[1].exit_identity = Some(identity("1.1.1.1"));
    pool.proxies[2].exit_identity = Some(identity("8.8.8.8"));
    pool.proxies[3].exit_identity = Some(identity("1.1.1.1"));
    pool.suppress_duplicate_exits();
    let first: Vec<Option<String>> = pool.proxies.iter().map(|n| n.duplicate_of.clone()).collect();
    assert_eq!(
        first,
        vec![None, Some("opencode-warp-1".to_string()), None, Some("opencode-warp-1".to_string())]
    );
    pool.suppress_duplicate_exits();
    let second: Vec<Option<String>> = pool.proxies.iter().map(|n| n.duplicate_of.clone()).collect();
    assert_eq!(first, second);
}

#[test]
fn full_reconcile_cycle_marks_subsystem_ready_without_destructive_lifecycle() {

    let mut pool = ProxyPool::new(&make_test_urls(3));
    let mut status = ProxySubsystemStatus::starting();
    let now = pool.clock.now();
    let now_secs = now / 1000;

    let mut cycle = ReconcileCycle::start(&pool, &mut status, now_secs).expect("candidates");
    assert_eq!(status.phase, ProxySubsystemPhase::Starting);
    assert_eq!(cycle.nodes, vec![0, 1, 2]);

    // Bootstrap never destroys: it only creates a missing container or
    // starts a stopped one.
    assert_eq!(container_action(false, false), ContainerAction::Create);
    assert_eq!(container_action(true, false), ContainerAction::Start);
    assert_eq!(container_action(true, true), ContainerAction::Keep);

    cycle.bootstrap_done(&mut pool, &mut status, &vec![None, None, None], now, now_secs).expect("bootstrap");
    assert_eq!(status.phase, ProxySubsystemPhase::TransportVerifying);
    cycle.transport_done(&mut pool, &mut status, &vec![None, None, None], now, now_secs).expect("transport");
    assert_eq!(status.phase, ProxySubsystemPhase::IdentityVerifying);
    let exits = ["1.1.1.1", "8.8.8.8", "9.9.9.9"]
        .iter()
        .map(|ip| {
            Ok(ExitIdentity {
                public_ip: ip.to_string(),
                provider: Some("cloudflare-warp".to_string()),
                colo: None,
                verified_at_unix_secs: now_secs,
            })
        })
        .collect();
    cycle.identity_done(&mut pool, &mut status, exits, now, now_secs).expect("identity");
    assert_eq!(status.phase, ProxySubsystemPhase::RouteVerifying);
    let failed_routes = cycle
        .route_done(&mut pool, &mut status, &vec![None, None, None], now, now_secs, 1)
        .expect("route");
    assert_eq!(failed_routes, 0);
    assert_eq!(status.phase, ProxySubsystemPhase::Ready);
    assert!(status.is_ready());
    assert_eq!(status.last_success_unix_secs, Some(now_secs));
}

#[test]
fn failed_route_stage_leaves_the_subsystem_unready() {

    let mut pool = ProxyPool::new(&make_test_urls(1));
    let mut status = ProxySubsystemStatus::starting();
    let now = pool.clock.now();
    let now_secs = now / 1000;
    let mut cycle = ReconcileCycle::start(&pool, &mut status, now_secs).expect("candidates");
    cycle.bootstrap_done(&mut pool, &mut status, &vec![None], now, now_secs).expect("bootstrap");
    cycle.transport_done(&mut pool, &mut status, &vec![None], now, now_secs).expect("transport");
    cycle
        .identity_done(&mut pool, &mut status, vec![Ok(identity("1.1.1.1"))], now, now_secs)
        .expect("identity");
    let error = cycle
        .route_done(&mut pool, &mut status, &vec![Some("upstream route probe failed".to_string())], now, now_secs, 1)
        .unwrap_err();
    assert_eq!(error, "upstream route probe failed");
    assert_eq!(status.phase, ProxySubsystemPhase::RouteVerifying);
    assert!(!status.is_ready());

    let mut empty_status = ProxySubsystemStatus::starting();
    let empty = ProxyPool::new(&[]);
    assert!(ReconcileCycle::start(&empty, &mut empty_status, now_secs).is_err());
    assert_eq!(empty_status.phase, ProxySubsystemPhase::Starting);
}

#[test]
fn pool_holds_exactly_the_nodes_whose_clients_were_built() {
    assert_eq!(
        proxy_client_settings("socks5://127.0.0.1:40001"),
        ("socks5h://127.0.0.1:40001".to_string(), 600, 10)
    );
    assert_eq!(
        proxy_client_settings("http://127.0.0.1:8080"),
        ("http://127.0.0.1:8080".to_string(), 600, 10)
    );
    let url = "socks5://127.0.0.1:40002".to_string();
    assert!(entry_from_client(&url, None).is_none());
    let entry = entry_from_client(&url, Some(reqwest::Client::new())).expect("entry");
    assert_eq!(entry.url, "socks5h://127.0.0.1:40002");
    assert_eq!(entry.port, 40002);

    let urls = make_test_urls(3);
    let pool = ProxyPool::from_clients(
        &urls,
        vec![Some(reqwest::Client::new()), None, Some(reqwest::Client::new())],
        3,
    );
    let ports: Vec<u16> = pool.proxies.iter().map(|node| node.port).collect();
    assert_eq!(ports, vec![40001, 40003]);
    assert_eq!(pool.proxies[0].url, "socks5h://127.0.0.1:40001");
    assert_eq!(pool.active_count, 2);
}
