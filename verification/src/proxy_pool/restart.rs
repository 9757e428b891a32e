//! Decisions of automatic node recovery: which nodes the health monitor
//! probes, what a probe result does, when a queued restart runs, and how a
//! restart's failure or recovered identity is settled.
//!
//! Time is in milliseconds; identity freshness is judged in whole seconds.

use crate::proxy_pool::identity::marked_duplicates;
use crate::proxy_pool::maintenance::{
    after_failure, failure_queues_restart, healthy_in_place, healthy_node, queue_add, queue_add_exec,
    queue_remove, queue_remove_exec, same_settings, RATE_LIMIT_ROTATION_RETRY_SECS,
};
use crate::proxy_pool::pool::modify_verdict;
use crate::proxy_pool::types::{
    fresh_identity, protected_port, CircuitState, EgressRole, ExitIdentity, HealthState,
    LifecyclePolicy, ProxyEntry, ProxyPool, RecoveryCause, COOLDOWN_MILLIS,
};
use crate::text::{push_str, str_chars};
use vstd::prelude::*;

verus! {

/// Restart attempts allowed per node (at least one).
pub open spec fn attempt_budget(p: ProxyPool) -> u32 {
    if p.max_restart_attempts < 1 {
        1
    } else {
        p.max_restart_attempts
    }
}

/// A managed node with a transport or quota recovery pending, dead, or with
/// an open circuit needs an automatic restart.
pub open spec fn requires_automatic_restart(n: ProxyEntry) -> bool {
    n.lifecycle == LifecyclePolicy::Managed && (n.recovery_cause is Some || n.health
        == HealthState::Unhealthy || n.circuit is Open)
}

/// Whether a queued automatic restart of `node` is still warranted.
pub fn node_requires_automatic_restart(node: &ProxyEntry) -> (required: bool)
    ensures
        required == requires_automatic_restart(*node),
{
    let open = match node.circuit {
        CircuitState::Open { .. } => true,
        _ => false,
    };
    node.lifecycle == LifecyclePolicy::Managed && (node.recovery_cause.is_some() || node.health
        == HealthState::Unhealthy || open)
}

/// An automatic restart of the node is in flight.
pub open spec fn restart_in_flight(n: ProxyEntry) -> bool {
    n.health == HealthState::Recovering && n.restart_attempts > 0
}

/// Node `i` is probed by the health monitor: a managed primary with a known
/// port, not quarantined for a provider quota, with restart budget left, not
/// queued and without a restart in flight.
pub open spec fn probe_target(p: ProxyPool, i: int) -> bool {
    let n = p.proxies@[i];
    &&& n.role == EgressRole::Primary
    &&& n.lifecycle == LifecyclePolicy::Managed
    &&& n.port != 0
    &&& n.recovery_cause != Some(RecoveryCause::RateLimit)
    &&& n.restart_attempts < attempt_budget(p)
    &&& !p.restart_queue@.contains(i as usize)
    &&& !restart_in_flight(n)
}

/// The health-probe targets among the first `n` nodes, with their ports.
pub open spec fn probe_targets(p: ProxyPool, n: int) -> Seq<(usize, u16)>
    decreases n,
{
    if n <= 0 {
        Seq::empty()
    } else {
        let before = probe_targets(p, n - 1);
        if probe_target(p, n - 1) {
            before.push(((n - 1) as usize, p.proxies@[n - 1].port))
        } else {
            before
        }
    }
}

fn queue_contains(queue: &Vec<usize>, index: usize) -> (found: bool)
    ensures
        found == queue@.contains(index),
{
    let mut i: usize = 0;
    while i < queue.len()
        invariant
            i <= queue@.len(),
            forall|j: int| 0 <= j < i ==> queue@[j] != index,
        decreases queue@.len() - i,
    {
        if queue[i] == index {
            return true;
        }
        i = i + 1;
    }
    false
}

/// The probe verdict of a node in eligible standing: a node whose exit is
/// verified (or need not be) recovers when a transport recovery is pending
/// or it is not healthy.
pub open spec fn probe_recovers(p: ProxyPool, n: ProxyEntry, now: u64) -> bool {
    (!p.require_verified_exit_ip || fresh_identity(n.exit_identity, now / 1000, p.identity_ttl))
        && (n.recovery_cause == Some(RecoveryCause::Transport) || n.health == HealthState::Unknown
        || n.health == HealthState::Degraded || n.health == HealthState::Recovering || n.health
        == HealthState::Unhealthy)
}

/// A probe result applies to node `i`: a managed primary, not quarantined
/// for a quota, with restart budget left.
pub open spec fn probe_applies(p: ProxyPool, i: int) -> bool {
    let n = p.proxies@[i];
    n.role == EgressRole::Primary && n.lifecycle == LifecyclePolicy::Managed && n.recovery_cause
        != Some(RecoveryCause::RateLimit) && n.restart_attempts < attempt_budget(p)
}

/// How a queued automatic restart starts.
#[derive(Debug, Clone, PartialEq, Eq)]
pub enum RestartStart {
    /// Nothing to do (stale, protected, in flight, out of budget, or
    /// quarantined for a quota).
    Skip,
    /// The node is leased; the restart was queued again for later.
    Deferred,
    /// Restart the container on `port` named `container_name`; this is
    /// restart attempt `attempt`.
    Proceed { port: u16, container_name: String, attempt: u32 },
}

/// The node as a restart attempt `attempt` begins: recovering, half-open,
/// the attempt counted, identity and duplicate mark cleared.
pub open spec fn restarting_node(n: ProxyEntry, attempt: u32) -> ProxyEntry {
    ProxyEntry {
        health: HealthState::Recovering,
        circuit: CircuitState::HalfOpen,
        restart_attempts: attempt,
        exit_identity: None,
        duplicate_of: None,
        ..n
    }
}

/// The restart attempt that follows the node's previous ones.
pub open spec fn next_attempt(n: ProxyEntry) -> u32 {
    if n.restart_attempts < u32::MAX {
        (n.restart_attempts + 1) as u32
    } else {
        u32::MAX
    }
}

/// A queued restart of node `index` may proceed.
pub open spec fn restart_may_proceed(p: ProxyPool, index: usize) -> bool {
    let n = p.proxies@[index as int];
    &&& index < p.proxies@.len()
    &&& n.lifecycle != LifecyclePolicy::Protected
    &&& n.active_requests == 0
    &&& requires_automatic_restart(n)
    &&& !(n.health == HealthState::Recovering && n.circuit == CircuitState::HalfOpen && n.restart_attempts > 0)
    &&& n.port != 0
    &&& !protected_port(n.port)
    &&& next_attempt(n) <= attempt_budget(p)
    &&& n.recovery_cause != Some(RecoveryCause::RateLimit)
}

/// The new exit already belongs to another actively routed primary.
pub open spec fn owned_elsewhere(p: ProxyPool, index: usize, ip: Seq<char>) -> bool {
    exists|j: int|
        0 <= j < p.proxies@.len() && j != index && (#[trigger] p.proxies@[j]).role == EgressRole::Primary
            && p.proxies@[j].routing_enabled && p.proxies@[j].exit_identity is Some
            && p.proxies@[j].exit_identity->0.public_ip@ == ip
}

/// The recovered exit is the one still quarantined under an active quota.
pub open spec fn reuses_quarantined_exit(n: ProxyEntry, ip: Seq<char>, now: u64) -> bool {
    (n.rate_limit_until matches Some(until) && now < until) && (n.quarantined_exit_ip matches Some(
        blocked,
    ) && blocked@ == ip)
}

/// The nodes after accepting a recovered identity on `index`, before
/// duplicate marks are recomputed.
pub open spec fn accepted_nodes(nodes: Seq<ProxyEntry>, index: int, identity: ExitIdentity) -> Seq<ProxyEntry> {
    nodes.update(index, healthy_node(ProxyEntry { exit_identity: Some(identity), duplicate_of: None, ..nodes[index] }))
}

/// The deadline a failed restart leaves: the quota deadline where it lies
/// beyond the transport cooldown, else the transport cooldown.
pub open spec fn restart_failure_deadline(n: ProxyEntry, now: u64) -> u64 {
    let transport = if now + COOLDOWN_MILLIS <= u64::MAX {
        (now + COOLDOWN_MILLIS) as u64
    } else {
        u64::MAX
    };
    match n.rate_limit_until {
        Some(until) => if until > transport { until } else { transport },
        None => transport,
    }
}

/// The pool `after` is `before` with a TCP probe of node `index` at `now`
/// applied (see `apply_health_probe_result_at`).
pub open spec fn probe_settled(before: ProxyPool, after: ProxyPool, index: usize, reachable: bool, now: u64) -> bool {
    &&& (!(index < before.proxies@.len() && probe_applies(before, index as int)) ==> after.proxies@
        == before.proxies@ && after.restart_queue@ == before.restart_queue@)
    &&& ((index < before.proxies@.len() && probe_applies(before, index as int)) ==> {
        let n = before.proxies@[index as int];
        if !reachable {
            &&& after.proxies@ == before.proxies@.update(index as int, after_failure(n, now))
            &&& after.restart_queue@ == if failure_queues_restart(n) {
                queue_add(before.restart_queue@, index)
            } else {
                before.restart_queue@
            }
        } else if probe_recovers(before, n, now) {
            &&& after.proxies@ == before.proxies@.update(index as int, healthy_node(n))
            &&& after.restart_queue@ == queue_remove(before.restart_queue@, index)
        } else if n.health == HealthState::Healthy {
            &&& after.proxies@ == before.proxies@.update(
                index as int,
                ProxyEntry { consecutive_failures: 0, ..n },
            )
            &&& after.restart_queue@ == before.restart_queue@
        } else {
            &&& after.proxies@ == before.proxies@
            &&& after.restart_queue@ == before.restart_queue@
        }
    })
}

/// The pool `after` is `before` with the failure of restart attempt
/// `attempt` of node `index` at `now` settled, `requeued` telling whether
/// the node was queued again (see `apply_restart_failure_at`).
pub open spec fn restart_failure_settled(before: ProxyPool, after: ProxyPool, index: usize, attempt: u32, now: u64, requeued: bool) -> bool {
    &&& (index >= before.proxies@.len() ==> !requeued && after.proxies@ == before.proxies@
        && after.restart_queue@ == before.restart_queue@)
    &&& (index < before.proxies@.len() ==> {
        let n = before.proxies@[index as int];
        let budget = attempt_budget(before);
        let counted: u32 = if attempt < budget { attempt } else { budget };
        let dead = ProxyEntry { restart_attempts: counted, health: HealthState::Unhealthy, ..n };
        if n.lifecycle == LifecyclePolicy::Protected {
            &&& !requeued
            &&& after.proxies@ == before.proxies@
            &&& after.restart_queue@ == queue_remove(before.restart_queue@, index)
        } else if n.recovery_cause == Some(RecoveryCause::RateLimit) && counted >= budget
            && (n.rate_limit_until matches Some(until) && now < until) {
            let retry_at: u64 = if now + RATE_LIMIT_ROTATION_RETRY_SECS * 1000 <= u64::MAX {
                (now + RATE_LIMIT_ROTATION_RETRY_SECS * 1000) as u64
            } else {
                u64::MAX
            };
            &&& !requeued
            &&& after.proxies@ == before.proxies@.update(
                index as int,
                ProxyEntry { circuit: CircuitState::Open { until: retry_at }, cooldown_until: Some(retry_at), ..dead },
            )
            &&& after.restart_queue@ == queue_remove(before.restart_queue@, index)
        } else {
            let until = restart_failure_deadline(n, now);
            &&& after.proxies@ == before.proxies@.update(
                index as int,
                ProxyEntry { circuit: CircuitState::Open { until }, cooldown_until: Some(until), ..dead },
            )
            &&& requeued == (counted < budget)
            &&& after.restart_queue@ == if counted < budget {
                queue_add(before.restart_queue@, index)
            } else {
                queue_remove(before.restart_queue@, index)
            }
        }
    })
}

/// The pool `after` is `before` with the identity a restarted node `index`
/// came back with judged at `now`, `r` the verdict (see
/// `accept_recovered_identity_at`).
pub open spec fn recovered_identity_settled(before: ProxyPool, after: ProxyPool, index: usize, identity: ExitIdentity, now: u64, r: Result<(), String>) -> bool {
    &&& (index >= before.proxies@.len() ==> r is Err && after.proxies@ == before.proxies@)
    &&& (index < before.proxies@.len() ==> {
        let n = before.proxies@[index as int];
        let ip = identity.public_ip@;
        if reuses_quarantined_exit(n, ip, now) || owned_elsewhere(before, index, ip) {
            &&& r is Err
            &&& after.proxies@ == before.proxies@
            &&& after.restart_queue@ == before.restart_queue@
        } else {
            &&& after.proxies@ == marked_duplicates(accepted_nodes(before.proxies@, index as int, identity))
            &&& after.restart_queue@ == queue_remove(before.restart_queue@, index)
            &&& (r is Ok <==> after.proxies@[index as int].duplicate_of is None)
        }
    })
}

impl ProxyPool {
    /// The nodes the health monitor probes, with their ports.
    pub fn health_probe_targets(&self) -> (targets: Vec<(usize, u16)>)
        ensures
            targets@ == probe_targets(*self, self.proxies@.len() as int),
    {
        let budget: u32 = if self.max_restart_attempts < 1 {
            1
        } else {
            self.max_restart_attempts
        };
        let mut targets: Vec<(usize, u16)> = Vec::new();
        let mut i: usize = 0;
        while i < self.proxies.len()
            invariant
                i <= self.proxies@.len(),
                budget == attempt_budget(*self),
                targets@ == probe_targets(*self, i as int),
            decreases self.proxies@.len() - i,
        {
            let node = &self.proxies[i];
            if node.role == EgressRole::Primary && node.lifecycle == LifecyclePolicy::Managed && node.port
                != 0 && node.recovery_cause != Some(RecoveryCause::RateLimit) && node.restart_attempts
                < budget && !queue_contains(&self.restart_queue, i) && !(node.health
                == HealthState::Recovering && node.restart_attempts > 0) {
                targets.push((i, node.port));
            }
            i = i + 1;
        }
        targets
    }

    /// Applies a TCP health probe of node `index` at `now`: an unreachable
    /// node records a transport failure; a reachable node with a pending
    /// transport recovery (and a fresh identity where one is required)
    /// becomes healthy and leaves the restart queue; a reachable healthy node
    /// forgets its failure streak.
    pub fn apply_health_probe_result_at(&mut self, index: usize, reachable: bool, now: u64)
        ensures
            same_settings(*final(self), *old(self)),
            probe_settled(*old(self), *final(self), index, reachable, now),
    {
        if index >= self.proxies.len() {
            return;
        }
        let budget: u32 = if self.max_restart_attempts < 1 {
            1
        } else {
            self.max_restart_attempts
        };
        let require = self.require_verified_exit_ip;
        let ttl = self.identity_ttl;
        let applies = {
            let node = &self.proxies[index];
            node.role == EgressRole::Primary && node.lifecycle == LifecyclePolicy::Managed
                && node.recovery_cause != Some(RecoveryCause::RateLimit) && node.restart_attempts < budget
        };
        if !applies {
            return;
        }
        if !reachable {
            self.record_failure_at(index, now);
            return;
        }
        let recover = {
            let node = &self.proxies[index];
            let identity_ready = !require || match &node.exit_identity {
                Some(identity) => identity.is_fresh_at(now / 1000, ttl),
                None => false,
            };
            identity_ready && (node.recovery_cause == Some(RecoveryCause::Transport) || node.health
                == HealthState::Unknown || node.health == HealthState::Degraded || node.health
                == HealthState::Recovering || node.health == HealthState::Unhealthy)
        };
        if recover {
            healthy_in_place(&mut self.proxies[index]);
            queue_remove_exec(&mut self.restart_queue, index);
        } else if self.proxies[index].health == HealthState::Healthy {
            self.proxies[index].consecutive_failures = 0;
        }
    }

    /// Applies a TCP health probe of node `index` now.
    pub fn apply_health_probe_result(&mut self, index: usize, reachable: bool)
        ensures
            same_settings(*final(self), *old(self)),
            final(self).proxies@.len() == old(self).proxies@.len(),
            exists|now: u64| probe_settled(*old(self), *final(self), index, reachable, now),
    {
        let now = self.clock.now();
        let ghost before = *self;
        self.apply_health_probe_result_at(index, reachable, now);
        assert(probe_settled(before, *self, index, reachable, now));
    }

    /// Starts a queued automatic restart of node `index`: a leased managed
    /// node is queued again for later; a stale, protected, in-flight,
    /// exhausted or quota-quarantined entry is skipped; otherwise the node
    /// enters recovery for the next attempt.
    pub fn begin_automatic_restart(&mut self, index: usize) -> (start: RestartStart)
        ensures
            same_settings(*final(self), *old(self)),
            restart_may_proceed(*old(self), index) ==> {
                let n = old(self).proxies@[index as int];
                &&& start == RestartStart::Proceed { port: n.port, container_name: n.container_name, attempt: next_attempt(n) }
                &&& final(self).proxies@ == old(self).proxies@.update(index as int, restarting_node(n, next_attempt(n)))
                &&& final(self).restart_queue@ == old(self).restart_queue@
            },
            !restart_may_proceed(*old(self), index) ==> final(self).proxies@ == old(self).proxies@,
            !restart_may_proceed(*old(self), index) && index < old(self).proxies@.len()
                && old(self).proxies@[index as int].lifecycle == LifecyclePolicy::Managed
                && old(self).proxies@[index as int].active_requests > 0 ==> start == RestartStart::Deferred
                && final(self).restart_queue@ == queue_add(old(self).restart_queue@, index),
            !restart_may_proceed(*old(self), index) && !(index < old(self).proxies@.len()
                && old(self).proxies@[index as int].lifecycle == LifecyclePolicy::Managed
                && old(self).proxies@[index as int].active_requests > 0) ==> start == RestartStart::Skip
                && final(self).restart_queue@ == old(self).restart_queue@,
    {
        match self.can_modify_node(index) {
            Err(_) => {
                if index < self.proxies.len() && self.proxies[index].lifecycle == LifecyclePolicy::Managed
                    && self.proxies[index].active_requests > 0 {
                    queue_add_exec(&mut self.restart_queue, index);
                    return RestartStart::Deferred;
                }
                return RestartStart::Skip;
            },
            Ok(()) => {},
        }
        let budget: u32 = if self.max_restart_attempts < 1 {
            1
        } else {
            self.max_restart_attempts
        };
        let (port, name, attempt, cause) = {
            let node = &self.proxies[index];
            if !node_requires_automatic_restart(node) {
                return RestartStart::Skip;
            }
            if node.health == HealthState::Recovering && node.circuit == CircuitState::HalfOpen
                && node.restart_attempts > 0 {
                return RestartStart::Skip;
            }
            (node.port, node.container_name.clone(), node.restart_attempts.saturating_add(1), node.recovery_cause)
        };
        if port == 0 || crate::proxy_pool::types::is_protected_proxy_port(port) || attempt > budget {
            return RestartStart::Skip;
        }
        if cause == Some(RecoveryCause::RateLimit) {
            return RestartStart::Skip;
        }
        let node = &mut self.proxies[index];
        node.health = HealthState::Recovering;
        node.circuit = CircuitState::HalfOpen;
        node.restart_attempts = attempt;
        node.exit_identity = None;
        node.duplicate_of = None;
        RestartStart::Proceed { port, container_name: name, attempt }
    }

    /// Settles a failed restart attempt `attempt` of node `index` at `now`.
    /// A protected node only leaves the queue. Otherwise the node is dead
    /// with its attempts counted (capped at the budget); a quota-quarantined
    /// node out of budget waits for a deferred rotation retry; any other node
    /// gets a cooldown at least as long as its quota deadline and is queued
    /// again while budget remains. Returns whether it was queued again.
    pub fn apply_restart_failure_at(&mut self, index: usize, attempt: u32, now: u64) -> (requeued: bool)
        ensures
            same_settings(*final(self), *old(self)),
            index >= old(self).proxies@.len() ==> !requeued && final(self).proxies@ == old(self).proxies@
                && final(self).restart_queue@ == old(self).restart_queue@,
            index < old(self).proxies@.len() ==> {
                let n = old(self).proxies@[index as int];
                let budget = attempt_budget(*old(self));
                let counted: u32 = if attempt < budget { attempt } else { budget };
                let dead = ProxyEntry { restart_attempts: counted, health: HealthState::Unhealthy, ..n };
                if n.lifecycle == LifecyclePolicy::Protected {
                    &&& !requeued
                    &&& final(self).proxies@ == old(self).proxies@
                    &&& final(self).restart_queue@ == queue_remove(old(self).restart_queue@, index)
                } else if n.recovery_cause == Some(RecoveryCause::RateLimit) && counted >= budget
                    && (n.rate_limit_until matches Some(until) && now < until) {
                    let retry_at: u64 = if now + RATE_LIMIT_ROTATION_RETRY_SECS * 1000 <= u64::MAX {
                        (now + RATE_LIMIT_ROTATION_RETRY_SECS * 1000) as u64
                    } else {
                        u64::MAX
                    };
                    &&& !requeued
                    &&& final(self).proxies@ == old(self).proxies@.update(
                        index as int,
                        ProxyEntry { circuit: CircuitState::Open { until: retry_at }, cooldown_until: Some(retry_at), ..dead },
                    )
                    &&& final(self).restart_queue@ == queue_remove(old(self).restart_queue@, index)
                } else {
                    let until = restart_failure_deadline(n, now);
                    &&& final(self).proxies@ == old(self).proxies@.update(
                        index as int,
                        ProxyEntry { circuit: CircuitState::Open { until }, cooldown_until: Some(until), ..dead },
                    )
                    &&& requeued == (counted < budget)
                    &&& final(self).restart_queue@ == if counted < budget {
                        queue_add(old(self).restart_queue@, index)
                    } else {
                        queue_remove(old(self).restart_queue@, index)
                    }
                }
            },
    {
        if index >= self.proxies.len() {
            return false;
        }
        let budget: u32 = if self.max_restart_attempts < 1 {
            1
        } else {
            self.max_restart_attempts
        };
        if self.proxies[index].lifecycle == LifecyclePolicy::Protected {
            queue_remove_exec(&mut self.restart_queue, index);
            return false;
        }
        let counted: u32 = if attempt < budget {
            attempt
        } else {
            budget
        };
        let quota_active = match self.proxies[index].rate_limit_until {
            Some(until) => now < until,
            None => false,
        };
        self.proxies[index].restart_attempts = counted;
        self.proxies[index].health = HealthState::Unhealthy;
        if self.proxies[index].recovery_cause == Some(RecoveryCause::RateLimit) && counted >= budget
            && quota_active {
            let retry_at = now.saturating_add(RATE_LIMIT_ROTATION_RETRY_SECS * 1000);
            self.proxies[index].circuit = CircuitState::Open { until: retry_at };
            self.proxies[index].cooldown_until = Some(retry_at);
            queue_remove_exec(&mut self.restart_queue, index);
            return false;
        }
        let transport = now.saturating_add(COOLDOWN_MILLIS);
        let until = match self.proxies[index].rate_limit_until {
            Some(quota) => if quota > transport {
                quota
            } else {
                transport
            },
            None => transport,
        };
        self.proxies[index].circuit = CircuitState::Open { until };
        self.proxies[index].cooldown_until = Some(until);
        if counted < budget {
            queue_add_exec(&mut self.restart_queue, index);
            true
        } else {
            queue_remove_exec(&mut self.restart_queue, index);
            false
        }
    }

    /// Settles a failed restart now.
    pub fn apply_restart_failure(&mut self, index: usize, attempt: u32) -> (requeued: bool)
        ensures
            same_settings(*final(self), *old(self)),
            index >= old(self).proxies@.len() ==> !requeued,
            exists|now: u64| restart_failure_settled(*old(self), *final(self), index, attempt, now, requeued),
    {
        let now = self.clock.now();
        let ghost before = *self;
        let requeued = self.apply_restart_failure_at(index, attempt, now);
        assert(restart_failure_settled(before, *self, index, attempt, now, requeued));
        requeued
    }

    /// Accepts the exit identity a restarted node `index` came back with at
    /// `now`: refused where it is the exit still quarantined under an active
    /// quota, or an exit another actively routed primary owns; otherwise the
    /// node becomes healthy with the new identity, leaves the restart queue,
    /// and duplicate marks are recomputed, which may still mark it.
    pub fn accept_recovered_identity_at(&mut self, index: usize, identity: ExitIdentity, now: u64) -> (r: Result<(), String>)
        ensures
            same_settings(*final(self), *old(self)),
            recovered_identity_settled(*old(self), *final(self), index, identity, now, r),
    {
        if index >= self.proxies.len() {
            let mut message = String::from_str("unknown proxy index ");
            crate::text::push_decimal(&mut message, index as u64);
            return Err(message);
        }
        let quota_active = match self.proxies[index].rate_limit_until {
            Some(until) => now < until,
            None => false,
        };
        let blocked = match &self.proxies[index].quarantined_exit_ip {
            Some(ip) => *ip == identity.public_ip,
            None => false,
        };
        if quota_active && blocked {
            let mut message = String::from_str("WARP restart reused rate-limited exit IP ");
            push_str(&mut message, identity.public_ip.as_str());
            return Err(message);
        }
        let mut j: usize = 0;
        while j < self.proxies.len()
            invariant
                j <= self.proxies@.len(),
                index < self.proxies@.len(),
                *self == *old(self),
                forall|k: int|
                    0 <= k < j && k != index ==> !((#[trigger] self.proxies@[k]).role == EgressRole::Primary
                        && self.proxies@[k].routing_enabled && self.proxies@[k].exit_identity is Some
                        && self.proxies@[k].exit_identity->0.public_ip@ == identity.public_ip@),
            decreases self.proxies@.len() - j,
        {
            let other = &self.proxies[j];
            let same = match &other.exit_identity {
                Some(existing) => existing.public_ip == identity.public_ip,
                None => false,
            };
            if j != index && other.role == EgressRole::Primary && other.routing_enabled && same {
                let mut message = String::from_str("WARP restart produced duplicate exit IP ");
                push_str(&mut message, identity.public_ip.as_str());
                push_str(&mut message, " already owned by ");
                push_str(&mut message, other.id.as_str());
                return Err(message);
            }
            j = j + 1;
        }
        let node = &mut self.proxies[index];
        node.exit_identity = Some(identity);
        node.duplicate_of = None;
        healthy_in_place(node);
        queue_remove_exec(&mut self.restart_queue, index);
        self.suppress_duplicate_exits();
        if self.proxies[index].duplicate_of.is_some() {
            return Err(String::from_str("recovered exit identity became a duplicate after reconciliation"));
        }
        Ok(())
    }

    /// Accepts a recovered identity now.
    pub fn accept_recovered_identity(&mut self, index: usize, identity: ExitIdentity) -> (r: Result<(), String>)
        ensures
            same_settings(*final(self), *old(self)),
            index >= old(self).proxies@.len() ==> r is Err,
            exists|now: u64| recovered_identity_settled(*old(self), *final(self), index, identity, now, r),
    {
        let now = self.clock.now();
        let ghost before = *self;
        let ghost given = identity;
        let r = self.accept_recovered_identity_at(index, identity, now);
        assert(recovered_identity_settled(before, *self, index, given, now, r));
        r
    }
}

/// A node of protected lifecycle is never queued again by a failed restart.
pub proof fn protected_node_never_requeued(p: ProxyPool, index: usize)
    requires
        index < p.proxies@.len(),
        p.proxies@[index as int].lifecycle == LifecyclePolicy::Protected,
    ensures
        !queue_remove(p.restart_queue@, index).contains(index),
{
    crate::proxy_pool::maintenance::lemma_queue_remove_absent(p.restart_queue@, index);
}

} // verus!
