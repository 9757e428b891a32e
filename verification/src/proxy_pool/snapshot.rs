//! Health snapshots of the pool: per-node state and per-tier counts.
//!
//! A snapshot is taken at a time `now` in milliseconds.

use crate::proxy_pool::types::{
    clone_opt_identity, clone_opt_string, health_label_spec, CircuitState, EgressRole, HealthState,
    ProxyEntry, ProxyNodeStats, ProxyPool, ProxyPoolStats, ProxyTierStats,
};
use vstd::prelude::*;

verus! {

/// The compatibility status label dashboards read.
pub open spec fn status_label(n: ProxyEntry, now: u64) -> Seq<char> {
    if n.duplicate_of is Some {
        "duplicate_exit"@
    } else if n.circuit.open_at(now) {
        "cooldown"@
    } else if n.health == HealthState::Recovering {
        "starting"@
    } else if n.health == HealthState::Unhealthy {
        "dead"@
    } else if n.role == EgressRole::Primary && !n.routing_enabled {
        "spare"@
    } else {
        health_label_spec(n.health)
    }
}

/// The compatibility status label of a node at `now`.
pub fn compatibility_status(node: &ProxyEntry, now: u64) -> (label: &'static str)
    ensures
        label@ == status_label(*node, now),
{
    if node.duplicate_of.is_some() {
        "duplicate_exit"
    } else if node.circuit.is_open(now) {
        "cooldown"
    } else if node.health == HealthState::Recovering {
        "starting"
    } else if node.health == HealthState::Unhealthy {
        "dead"
    } else if node.role == EgressRole::Primary && !node.routing_enabled {
        "spare"
    } else {
        node.health_label()
    }
}

/// Whole seconds until the transport cooldown ends, where one is set and
/// has not passed.
pub open spec fn cooldown_remaining(n: ProxyEntry, now: u64) -> Option<u64> {
    match n.cooldown_until {
        Some(until) => if until >= now {
            Some(((until - now) / 1000) as u64)
        } else {
            None
        },
        None => None,
    }
}

/// The stats of `node` at `now` describe it.
pub open spec fn node_stats_of(n: ProxyEntry, now: u64, s: ProxyNodeStats) -> bool {
    &&& s.id@ == n.id@
    &&& s.port == n.port
    &&& s.role == n.role
    &&& s.lifecycle == n.lifecycle
    &&& s.routing_enabled == n.routing_enabled
    &&& s.draining == n.draining
    &&& s.health == n.health
    &&& s.circuit@ == n.circuit.label_spec()
    &&& s.status@ == status_label(n, now)
    &&& s.failure_count == n.consecutive_failures
    &&& s.success_count == n.consecutive_successes
    &&& s.restart_attempts == n.restart_attempts
    &&& s.cooldown_remaining_secs == cooldown_remaining(n, now)
    &&& s.recovery_cause == n.recovery_cause
    &&& s.quarantined_exit_ip == n.quarantined_exit_ip
    &&& s.active_requests == n.active_requests
    &&& s.exit_identity == n.exit_identity
    &&& s.duplicate_of == n.duplicate_of
}

/// The stats of one node at `now`.
pub fn node_stats(node: &ProxyEntry, now: u64) -> (stats: ProxyNodeStats)
    ensures
        node_stats_of(*node, now, stats),
{
    let remaining = match node.cooldown_until {
        Some(until) => if until >= now {
            Some((until - now) / 1000)
        } else {
            None
        },
        None => None,
    };
    ProxyNodeStats {
        id: node.id.clone(),
        port: node.port,
        role: node.role,
        lifecycle: node.lifecycle,
        routing_enabled: node.routing_enabled,
        draining: node.draining,
        health: node.health,
        circuit: String::from_str(node.circuit.label()),
        status: String::from_str(compatibility_status(node, now)),
        failure_count: node.consecutive_failures,
        success_count: node.consecutive_successes,
        restart_attempts: node.restart_attempts,
        cooldown_remaining_secs: remaining,
        recovery_cause: node.recovery_cause,
        quarantined_exit_ip: clone_opt_string(&node.quarantined_exit_ip),
        active_requests: node.active_requests,
        exit_identity: clone_opt_identity(&node.exit_identity),
        duplicate_of: clone_opt_string(&node.duplicate_of),
    }
}

/// Tier counts over the first `n` nodes of `role`: (healthy, degraded,
/// cooldown, recovering, dead). A node with an open circuit counts as
/// cooldown only; otherwise unknown counts as degraded.
pub open spec fn tier_counts(nodes: Seq<ProxyEntry>, n: int, role: EgressRole, now: u64) -> (nat, nat, nat, nat, nat)
    decreases n,
{
    if n <= 0 {
        (0, 0, 0, 0, 0)
    } else {
        let (h, d, c, r, x) = tier_counts(nodes, n - 1, role, now);
        let node = nodes[n - 1];
        if node.role != role {
            (h, d, c, r, x)
        } else if node.circuit.open_at(now) {
            (h, d, c + 1, r, x)
        } else if node.health == HealthState::Healthy {
            (h + 1, d, c, r, x)
        } else if node.health == HealthState::Unknown || node.health == HealthState::Degraded {
            (h, d + 1, c, r, x)
        } else if node.health == HealthState::Recovering {
            (h, d, c, r + 1, x)
        } else {
            (h, d, c, r, x + 1)
        }
    }
}

/// The ports of the first `n` nodes of `role`, in order.
pub open spec fn tier_ports(nodes: Seq<ProxyEntry>, n: int, role: EgressRole) -> Seq<u16>
    decreases n,
{
    if n <= 0 {
        Seq::empty()
    } else if nodes[n - 1].role == role {
        tier_ports(nodes, n - 1, role).push(nodes[n - 1].port)
    } else {
        tier_ports(nodes, n - 1, role)
    }
}

/// Leases held on the first `n` nodes of `role`, saturating.
pub open spec fn tier_leases(nodes: Seq<ProxyEntry>, n: int, role: EgressRole) -> usize
    decreases n,
{
    if n <= 0 {
        0
    } else {
        let before = tier_leases(nodes, n - 1, role);
        if nodes[n - 1].role == role {
            if before + nodes[n - 1].active_requests <= usize::MAX {
                (before + nodes[n - 1].active_requests) as usize
            } else {
                usize::MAX
            }
        } else {
            before
        }
    }
}

/// A node of `role` whose verified exit counts toward the tier's unique
/// exits.
pub open spec fn tier_exit(n: ProxyEntry, role: EgressRole) -> bool {
    n.role == role && n.duplicate_of is None && n.exit_identity is Some
}

/// Distinct verified exit addresses among the first `n` nodes of `role`.
pub open spec fn tier_unique_exits(nodes: Seq<ProxyEntry>, n: int, role: EgressRole) -> nat
    decreases n,
{
    if n <= 0 {
        0
    } else {
        let j = n - 1;
        let fresh_address = tier_exit(nodes[j], role) && !(exists|k: int|
            0 <= k < j && tier_exit(nodes[k], role) && #[trigger] nodes[k].exit_identity->0.public_ip@
                == nodes[j].exit_identity->0.public_ip@);
        tier_unique_exits(nodes, n - 1, role) + if fresh_address {
            1nat
        } else {
            0nat
        }
    }
}

/// `s` describes the `role` tier of `nodes` at `now`.
pub open spec fn tier_stats_of(nodes: Seq<ProxyEntry>, role: EgressRole, protected: bool, now: u64, s: ProxyTierStats) -> bool {
    let (h, d, c, r, x) = tier_counts(nodes, nodes.len() as int, role, now);
    &&& s.ports@ == tier_ports(nodes, nodes.len() as int, role)
    &&& s.total == s.ports@.len()
    &&& s.healthy == h
    &&& s.degraded == d
    &&& s.cooldown == c
    &&& s.recovering == r
    &&& s.dead == x
    &&& s.protected == protected
    &&& s.unique_verified_exits == tier_unique_exits(nodes, nodes.len() as int, role)
    &&& s.active_requests == tier_leases(nodes, nodes.len() as int, role)
}

proof fn lemma_tier_bounds(nodes: Seq<ProxyEntry>, n: int, role: EgressRole, now: u64)
    requires
        0 <= n,
    ensures
        tier_counts(nodes, n, role, now).0 + tier_counts(nodes, n, role, now).1 + tier_counts(nodes, n, role, now).2
            + tier_counts(nodes, n, role, now).3 + tier_counts(nodes, n, role, now).4 <= n,
        tier_ports(nodes, n, role).len() <= n,
        tier_unique_exits(nodes, n, role) <= n,
    decreases n,
{
    if n > 0 {
        lemma_tier_bounds(nodes, n - 1, role, now);
    }
}

fn tier_stats(nodes: &Vec<ProxyEntry>, role: EgressRole, protected: bool, now: u64) -> (stats: ProxyTierStats)
    ensures
        tier_stats_of(nodes@, role, protected, now, stats),
{
    let n = nodes.len();
    let mut ports: Vec<u16> = Vec::new();
    let mut healthy: usize = 0;
    let mut degraded: usize = 0;
    let mut cooldown: usize = 0;
    let mut recovering: usize = 0;
    let mut dead: usize = 0;
    let mut unique: usize = 0;
    let mut leases: usize = 0;
    let mut i: usize = 0;
    while i < n
        invariant
            n == nodes@.len(),
            i <= n,
            ports@ == tier_ports(nodes@, i as int, role),
            (healthy as nat, degraded as nat, cooldown as nat, recovering as nat, dead as nat)
                == tier_counts(nodes@, i as int, role, now),
            unique == tier_unique_exits(nodes@, i as int, role),
            leases == tier_leases(nodes@, i as int, role),
        decreases n - i,
    {
        proof {
            lemma_tier_bounds(nodes@, i as int, role, now);
        }
        let node = &nodes[i];
        if node.role == role {
            ports.push(node.port);
            leases = leases.saturating_add(node.active_requests);
            if node.circuit.is_open(now) {
                cooldown = cooldown + 1;
            } else if node.health == HealthState::Healthy {
                healthy = healthy + 1;
            } else if node.health == HealthState::Unknown || node.health == HealthState::Degraded {
                degraded = degraded + 1;
            } else if node.health == HealthState::Recovering {
                recovering = recovering + 1;
            } else {
                dead = dead + 1;
            }
            if node.duplicate_of.is_none() && node.exit_identity.is_some() {
                let mut seen = false;
                let mut k: usize = 0;
                while k < i
                    invariant
                        n == nodes@.len(),
                        k <= i < n,
                        tier_exit(nodes@[i as int], role),
                        seen == (exists|m: int|
                            0 <= m < k && tier_exit(nodes@[m], role)
                                && #[trigger] nodes@[m].exit_identity->0.public_ip@
                                == nodes@[i as int].exit_identity->0.public_ip@),
                    decreases i - k,
                {
                    let other = &nodes[k];
                    let same = match (&other.exit_identity, &nodes[i].exit_identity) {
                        (Some(a), Some(b)) => a.public_ip == b.public_ip,
                        _ => false,
                    };
                    if other.role == role && other.duplicate_of.is_none() && same {
                        seen = true;
                    }
                    k = k + 1;
                }
                if !seen {
                    unique = unique + 1;
                }
            }
        }
        i = i + 1;
    }
    let total = ports.len();
    ProxyTierStats {
        ports,
        total,
        healthy,
        degraded,
        cooldown,
        recovering,
        dead,
        protected,
        unique_verified_exits: unique,
        active_requests: leases,
    }
}

impl ProxyPool {
    /// A snapshot of the pool at `now`: the policy name, the primary and
    /// protected warm-standby tiers, and every node.
    pub fn snapshot_at(&self, now: u64) -> (stats: ProxyPoolStats)
        ensures
            stats.policy@ == "primary-with-protected-warm-standby"@,
            tier_stats_of(self.proxies@, EgressRole::Primary, false, now, stats.primary),
            tier_stats_of(self.proxies@, EgressRole::WarmStandby, true, now, stats.warm_standby),
            stats.nodes@.len() == self.proxies@.len(),
            forall|i: int| 0 <= i < stats.nodes@.len() ==> node_stats_of(self.proxies@[i], now, #[trigger] stats.nodes@[i]),
    {
        let mut nodes: Vec<ProxyNodeStats> = Vec::new();
        let mut i: usize = 0;
        while i < self.proxies.len()
            invariant
                i <= self.proxies@.len(),
                nodes@.len() == i,
                forall|k: int| 0 <= k < i ==> node_stats_of(self.proxies@[k], now, #[trigger] nodes@[k]),
            decreases self.proxies@.len() - i,
        {
            nodes.push(node_stats(&self.proxies[i], now));
            i = i + 1;
        }
        ProxyPoolStats {
            policy: String::from_str("primary-with-protected-warm-standby"),
            primary: tier_stats(&self.proxies, EgressRole::Primary, false, now),
            warm_standby: tier_stats(&self.proxies, EgressRole::WarmStandby, true, now),
            nodes,
        }
    }

    /// A snapshot of the pool now.
    pub fn snapshot(&self) -> (stats: ProxyPoolStats)
        ensures
            exists|now: u64| {
                &&& tier_stats_of(self.proxies@, EgressRole::Primary, false, now, stats.primary)
                &&& tier_stats_of(self.proxies@, EgressRole::WarmStandby, true, now, stats.warm_standby)
                &&& forall|i: int| 0 <= i < stats.nodes@.len() ==> node_stats_of(self.proxies@[i], now, #[trigger] stats.nodes@[i])
            },
            stats.policy@ == "primary-with-protected-warm-standby"@,
            stats.nodes@.len() == self.proxies@.len(),
    {
        let now = self.clock.now();
        self.snapshot_at(now)
    }
}

} // verus!
