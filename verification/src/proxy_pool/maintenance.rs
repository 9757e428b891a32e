//! Egress health, circuit transitions, and the managed-primary restart queue.
//!
//! Each transition of a single node is stated as a spec function over the
//! node; the pool operations apply it to one index and say what they do to
//! the restart queue. Functions ending in `_at` take the current time in
//! milliseconds; their siblings without the suffix read the clock.

use crate::proxy_pool::pool::{
    modify_verdict, protected_node_error, protected_node_message, unknown_index_error,
    unknown_index_message,
};
use crate::proxy_pool::types::{
    fresh_identity, rate_limit_active, CircuitState, EgressRole, ExitIdentity, HealthState,
    LifecyclePolicy, ProxyEntry, ProxyPool, RecoveryCause, COOLDOWN_MILLIS, FAILURE_THRESHOLD,
    RECOVERY_SUCCESS_COUNT,
};
use vstd::prelude::*;

verus! {

/// Seconds between rotation retries once a rate-limited node's restart budget is spent.
pub const RATE_LIMIT_ROTATION_RETRY_SECS: u64 = 30;

/// Longest provider cooldown the pool records: 30 days, in seconds.
pub const MAX_RATE_LIMIT_COOLDOWN_SECS: u64 = 2_592_000;

/// The pool-wide settings and counters other than nodes and queue are equal.
pub open spec fn same_settings(a: ProxyPool, b: ProxyPool) -> bool {
    &&& a.active_count == b.active_count
    &&& a.require_verified_exit_ip == b.require_verified_exit_ip
    &&& a.identity_ttl == b.identity_ttl
    &&& a.max_restart_attempts == b.max_restart_attempts
    &&& a.round_robin_counter == b.round_robin_counter
}

/// `a + b`, saturating at `u64::MAX`.
pub open spec fn sat_add(a: u64, b: u64) -> u64 {
    if a + b <= u64::MAX { (a + b) as u64 } else { u64::MAX }
}

/// `a + b` for counters, saturating at `u32::MAX`.
pub open spec fn sat_add32(a: u32, b: u32) -> u32 {
    if a + b <= u32::MAX { (a + b) as u32 } else { u32::MAX }
}

/// `q` with `i` appended unless already present.
pub open spec fn queue_add(q: Seq<usize>, i: usize) -> Seq<usize> {
    if q.contains(i) { q } else { q.push(i) }
}

/// `q` without any occurrence of `i`, order kept.
pub open spec fn queue_remove(q: Seq<usize>, i: usize) -> Seq<usize>
    decreases q.len(),
{
    if q.len() == 0 {
        q
    } else if q.last() == i {
        queue_remove(q.drop_last(), i)
    } else {
        queue_remove(q.drop_last(), i).push(q.last())
    }
}

proof fn lemma_push_contains(s: Seq<usize>, v: usize, x: usize)
    ensures
        s.push(v).contains(x) <==> (s.contains(x) || v == x),
{
    if s.contains(x) {
        let k = choose|k: int| 0 <= k < s.len() && s[k] == x;
        assert(s.push(v)[k] == x);
    }
    if v == x {
        assert(s.push(v)[s.len() as int] == x);
    }
    if s.push(v).contains(x) && v != x {
        let k = choose|k: int| 0 <= k < s.push(v).len() && s.push(v)[k] == x;
        assert(k < s.len());
        assert(s[k] == x);
    }
}

/// Removing `i` from a queue leaves no occurrence of it, and keeps every
/// other entry.
pub proof fn lemma_queue_remove_absent(q: Seq<usize>, i: usize)
    ensures
        !queue_remove(q, i).contains(i),
        forall|x: usize| x != i ==> (q.contains(x) <==> #[trigger] queue_remove(q, i).contains(x)),
    decreases q.len(),
{
    if q.len() > 0 {
        let d = q.drop_last();
        let l = q.last();
        lemma_queue_remove_absent(d, i);
        assert(q =~= d.push(l));
        let rd = queue_remove(d, i);
        if l != i {
            lemma_push_contains(rd, l, i);
        }
        assert forall|x: usize| x != i implies (q.contains(x) <==> #[trigger] queue_remove(q, i).contains(x)) by {
            lemma_push_contains(d, l, x);
            lemma_push_contains(rd, l, x);
        }
    }
}

/// No entry occurs twice in the queue.
pub open spec fn queue_unique(q: Seq<usize>) -> bool {
    forall|a: int, b: int| 0 <= a < b < q.len() ==> q[a] != q[b]
}

/// Adding to a queue without repeats keeps it without repeats.
pub proof fn lemma_queue_add_unique(q: Seq<usize>, i: usize)
    requires
        queue_unique(q),
    ensures
        queue_unique(queue_add(q, i)),
        queue_add(q, i).contains(i),
{
    if !q.contains(i) {
        assert(q.push(i)[q.len() as int] == i);
    }
}

/// A node restored to full health: closed circuit, no deadlines, no
/// recovery cause, counters and restart budget reset, drain ended.
pub open spec fn healthy_node(n: ProxyEntry) -> ProxyEntry {
    ProxyEntry {
        draining: false,
        health: HealthState::Healthy,
        circuit: CircuitState::Closed,
        cooldown_until: None,
        rate_limit_until: None,
        quarantined_exit_ip: None,
        recovery_cause: None,
        consecutive_failures: 0,
        consecutive_successes: 0,
        restart_attempts: 0,
        ..n
    }
}

/// A node after one successful request or probe.
pub open spec fn after_success(n: ProxyEntry) -> ProxyEntry {
    let counted = ProxyEntry {
        consecutive_failures: 0,
        consecutive_successes: sat_add32(n.consecutive_successes, 1),
        ..n
    };
    if (n.circuit == CircuitState::HalfOpen || n.health == HealthState::Recovering || n.health
        == HealthState::Degraded) && counted.consecutive_successes >= RECOVERY_SUCCESS_COUNT {
        healthy_node(counted)
    } else {
        counted
    }
}

/// A node after one transport failure at `now`.
pub open spec fn after_failure(n: ProxyEntry, now: u64) -> ProxyEntry {
    let counted = ProxyEntry {
        consecutive_successes: 0,
        consecutive_failures: sat_add32(n.consecutive_failures, 1),
        ..n
    };
    let caused = if n.recovery_cause != Some(RecoveryCause::RateLimit) {
        ProxyEntry {
            recovery_cause: Some(RecoveryCause::Transport),
            rate_limit_until: None,
            quarantined_exit_ip: None,
            ..counted
        }
    } else {
        counted
    };
    if caused.consecutive_failures < FAILURE_THRESHOLD {
        ProxyEntry { health: HealthState::Degraded, ..caused }
    } else {
        let until = sat_add(now, COOLDOWN_MILLIS);
        ProxyEntry {
            health: HealthState::Unhealthy,
            circuit: CircuitState::Open { until },
            cooldown_until: Some(until),
            ..caused
        }
    }
}

/// The failure opens the circuit of a managed node, which queues a restart.
pub open spec fn failure_queues_restart(n: ProxyEntry) -> bool {
    sat_add32(n.consecutive_failures, 1) >= FAILURE_THRESHOLD && n.lifecycle
        == LifecyclePolicy::Managed
}

/// The quota deadline for a provider cooldown of `secs` seconds requested
/// at `now`: `now + secs`, or the 30-day ceiling when that does not fit,
/// or `now` when even the ceiling does not fit.
pub open spec fn rate_limit_deadline(now: u64, secs: u64) -> u64 {
    if now + secs * 1000 <= u64::MAX {
        (now + secs * 1000) as u64
    } else if now + MAX_RATE_LIMIT_COOLDOWN_SECS * 1000 <= u64::MAX {
        (now + MAX_RATE_LIMIT_COOLDOWN_SECS * 1000) as u64
    } else {
        now
    }
}

/// A node after a provider rate limit of `secs` seconds at `now`: the
/// quota deadline never moves earlier, the current exit IP is quarantined,
/// and transport health is left alone.
pub open spec fn after_rate_limit(n: ProxyEntry, secs: u64, now: u64) -> ProxyEntry {
    let requested = rate_limit_deadline(now, secs);
    let until = match n.rate_limit_until {
        Some(existing) => if existing > requested { existing } else { requested },
        None => requested,
    };
    ProxyEntry {
        rate_limit_until: Some(until),
        quarantined_exit_ip: match n.exit_identity {
            Some(identity) => Some(identity.public_ip),
            None => n.quarantined_exit_ip,
        },
        recovery_cause: Some(RecoveryCause::RateLimit),
        consecutive_successes: 0,
        consecutive_failures: 0,
        ..n
    }
}

/// A provider rate limit never shortens a quota already recorded: the
/// node's deadline afterwards is at least the one it had, and at least the
/// one just requested.
pub proof fn quota_deadline_never_moves_earlier(n: ProxyEntry, secs: u64, now: u64)
    ensures
        after_rate_limit(n, secs, now).rate_limit_until is Some,
        n.rate_limit_until matches Some(e) ==> after_rate_limit(n, secs, now).rate_limit_until->0 >= e,
        after_rate_limit(n, secs, now).rate_limit_until->0 >= rate_limit_deadline(now, secs),
        now + secs * 1000 <= u64::MAX ==> after_rate_limit(n, secs, now).rate_limit_until->0 >= now + secs * 1000,
{
}

/// The adaptive cooldown for the node at `index` after `retry_count`
/// retries: 60 s doubled per retry up to three times, times a fixed
/// per-index jitter of 100, 85, 115 or 95 percent.
pub open spec fn adaptive_cooldown_secs(index: usize, retry_count: u32) -> u64 {
    let doublings = if retry_count < 3 { retry_count } else { 3 };
    let base: nat = 60 * pow2(doublings as nat);
    let jitter: nat = if index % 4 == 0 {
        100
    } else if index % 4 == 1 {
        85
    } else if index % 4 == 2 {
        115
    } else {
        95
    };
    (base * jitter / 100) as u64
}

/// `2^k`.
pub open spec fn pow2(k: nat) -> nat
    decreases k,
{
    if k == 0 { 1 } else { 2 * pow2((k - 1) as nat) }
}

/// A node reserved for an explicit restart.
pub open spec fn after_manual_restart_begins(n: ProxyEntry) -> ProxyEntry {
    ProxyEntry {
        draining: true,
        health: HealthState::Recovering,
        circuit: CircuitState::HalfOpen,
        cooldown_until: None,
        consecutive_failures: 0,
        consecutive_successes: 0,
        restart_attempts: sat_add32(n.restart_attempts, 1),
        recovery_cause: match n.recovery_cause {
            Some(cause) => Some(cause),
            None => Some(RecoveryCause::Transport),
        },
        exit_identity: None,
        duplicate_of: None,
        ..n
    }
}

/// A node whose explicit restart failed at `now`.
pub open spec fn after_manual_restart_failed(n: ProxyEntry, now: u64) -> ProxyEntry {
    let until = sat_add(now, COOLDOWN_MILLIS);
    ProxyEntry {
        draining: false,
        health: HealthState::Unhealthy,
        circuit: CircuitState::Open { until },
        cooldown_until: Some(until),
        consecutive_successes: 0,
        ..n
    }
}

/// A node with its provider quota and quarantine cleared.
pub open spec fn after_rate_limit_cleared(n: ProxyEntry) -> ProxyEntry {
    ProxyEntry {
        rate_limit_until: None,
        quarantined_exit_ip: None,
        recovery_cause: if n.recovery_cause == Some(RecoveryCause::RateLimit) {
            None
        } else {
            n.recovery_cause
        },
        ..n
    }
}

/// The expired open circuit of this node stays open because the provider
/// quota is still running.
pub open spec fn expiry_keeps_quota(n: ProxyEntry, now: u64) -> bool {
    n.recovery_cause == Some(RecoveryCause::RateLimit) && rate_limit_active(n, now)
}

/// A node after the cooldown sweep at `now`.
pub open spec fn after_expiry_sweep(n: ProxyEntry, now: u64) -> ProxyEntry {
    if !n.circuit.expired_at(now) {
        n
    } else if expiry_keeps_quota(n, now) {
        let until = n.rate_limit_until.unwrap();
        ProxyEntry {
            restart_attempts: 0,
            circuit: CircuitState::Open { until },
            health: HealthState::Degraded,
            cooldown_until: Some(until),
            consecutive_successes: 0,
            ..n
        }
    } else {
        let cleared = match n.rate_limit_until {
            Some(until) => if now >= until {
                ProxyEntry {
                    rate_limit_until: None,
                    quarantined_exit_ip: None,
                    recovery_cause: if n.recovery_cause == Some(RecoveryCause::RateLimit) {
                        None
                    } else {
                        n.recovery_cause
                    },
                    ..n
                }
            } else {
                n
            },
            None => n,
        };
        ProxyEntry {
            circuit: CircuitState::HalfOpen,
            health: HealthState::Recovering,
            cooldown_until: None,
            consecutive_successes: 0,
            ..cleared
        }
    }
}

/// The sweep moves this node to half-open.
pub open spec fn sweep_transitions(n: ProxyEntry, now: u64) -> bool {
    n.circuit.expired_at(now) && !expiry_keeps_quota(n, now)
}

/// Number of nodes among the first `k` that the sweep moves to half-open.
pub open spec fn sweep_count(nodes: Seq<ProxyEntry>, now: u64, k: int) -> nat
    decreases k,
{
    if k <= 0 {
        0
    } else {
        sweep_count(nodes, now, k - 1) + if sweep_transitions(nodes[k - 1], now) { 1nat } else { 0nat }
    }
}

/// `queue` with `index` removed.
pub fn queue_remove_exec(queue: &mut Vec<usize>, index: usize)
    ensures
        final(queue)@ == queue_remove(old(queue)@, index),
{
    let ghost original = queue@;
    let mut kept: Vec<usize> = Vec::new();
    let mut i: usize = 0;
    while i < queue.len()
        invariant
            i <= queue@.len(),
            queue@ == original,
            kept@ == queue_remove(original.take(i as int), index),
        decreases queue@.len() - i,
    {
        let value = queue[i];
        proof {
            assert(original.take(i + 1).drop_last() =~= original.take(i as int));
        }
        if value != index {
            kept.push(value);
        }
        i = i + 1;
    }
    assert(original.take(original.len() as int) =~= original);
    *queue = kept;
}

/// `queue` with `index` appended unless already present.
pub fn queue_add_exec(queue: &mut Vec<usize>, index: usize)
    ensures
        final(queue)@ == queue_add(old(queue)@, index),
{
    if !crate::proxy_pool::types::vec_contains_usize(queue, index) {
        queue.push(index);
    }
}

pub(crate) fn healthy_in_place(node: &mut ProxyEntry)
    ensures
        *final(node) == healthy_node(*old(node)),
{
    node.draining = false;
    node.health = HealthState::Healthy;
    node.circuit = CircuitState::Closed;
    node.cooldown_until = None;
    node.rate_limit_until = None;
    node.quarantined_exit_ip = None;
    node.recovery_cause = None;
    node.consecutive_failures = 0;
    node.consecutive_successes = 0;
    node.restart_attempts = 0;
}

impl ProxyPool {
    /// Records a successful request or probe on the node at `index`.
    pub fn record_success(&mut self, index: usize)
        ensures
            index < old(self).proxies@.len() ==> final(self).proxies@ == old(self).proxies@.update(
                index as int,
                after_success(old(self).proxies@[index as int]),
            ),
            index >= old(self).proxies@.len() ==> final(self).proxies@ == old(self).proxies@,
            final(self).restart_queue@ == old(self).restart_queue@,
            same_settings(*final(self), *old(self)),
    {
        if index >= self.proxies.len() {
            return;
        }
        let node = &mut self.proxies[index];
        node.consecutive_failures = 0;
        node.consecutive_successes = node.consecutive_successes.saturating_add(1);
        if (node.circuit == CircuitState::HalfOpen || node.health == HealthState::Recovering
            || node.health == HealthState::Degraded) && node.consecutive_successes
            >= RECOVERY_SUCCESS_COUNT {
            healthy_in_place(node);
        }
    }

    /// Records a transport failure on the node at `index` at time `now`.
    pub fn record_failure_at(&mut self, index: usize, now: u64)
        ensures
            index < old(self).proxies@.len() ==> {
                &&& final(self).proxies@ == old(self).proxies@.update(
                    index as int,
                    after_failure(old(self).proxies@[index as int], now),
                )
                &&& final(self).restart_queue@ == if failure_queues_restart(
                    old(self).proxies@[index as int],
                ) {
                    queue_add(old(self).restart_queue@, index)
                } else {
                    old(self).restart_queue@
                }
            },
            index >= old(self).proxies@.len() ==> final(self).proxies@ == old(self).proxies@
                && final(self).restart_queue@ == old(self).restart_queue@,
            same_settings(*final(self), *old(self)),
    {
        if index >= self.proxies.len() {
            return;
        }
        let managed;
        let opened;
        {
            let node = &mut self.proxies[index];
            node.consecutive_successes = 0;
            node.consecutive_failures = node.consecutive_failures.saturating_add(1);
            if node.recovery_cause != Some(RecoveryCause::RateLimit) {
                node.recovery_cause = Some(RecoveryCause::Transport);
                node.rate_limit_until = None;
                node.quarantined_exit_ip = None;
            }
            if node.consecutive_failures < FAILURE_THRESHOLD {
                node.health = HealthState::Degraded;
                opened = false;
            } else {
                let until = now.saturating_add(COOLDOWN_MILLIS);
                node.health = HealthState::Unhealthy;
                node.circuit = CircuitState::Open { until };
                node.cooldown_until = Some(until);
                opened = true;
            }
            managed = node.lifecycle == LifecyclePolicy::Managed;
        }
        if opened && managed {
            queue_add_exec(&mut self.restart_queue, index);
        }
    }

    /// Records a transport failure on the node at `index` now.
    pub fn record_failure(&mut self, index: usize)
        ensures
            exists|now: u64|
                {
                    &&& index < old(self).proxies@.len() ==> {
                        &&& final(self).proxies@ == old(self).proxies@.update(
                            index as int,
                            after_failure(old(self).proxies@[index as int], now),
                        )
                        &&& final(self).restart_queue@ == if failure_queues_restart(
                            old(self).proxies@[index as int],
                        ) {
                            queue_add(old(self).restart_queue@, index)
                        } else {
                            old(self).restart_queue@
                        }
                    }
                    &&& index >= old(self).proxies@.len() ==> final(self).proxies@
                        == old(self).proxies@ && final(self).restart_queue@ == old(self).restart_queue@
                },
            same_settings(*final(self), *old(self)),
    {
        let now = self.clock.now();
        self.record_failure_at(index, now);
    }

    /// Records a provider rate limit of `duration_secs` on the node at
    /// `index` at time `now`, leaving transport health alone and removing
    /// the node from the restart queue.
    pub fn mark_rate_limited_at(&mut self, index: usize, duration_secs: u64, now: u64)
        ensures
            index < old(self).proxies@.len() ==> {
                &&& final(self).proxies@ == old(self).proxies@.update(
                    index as int,
                    after_rate_limit(old(self).proxies@[index as int], duration_secs, now),
                )
                &&& final(self).restart_queue@ == queue_remove(old(self).restart_queue@, index)
            },
            index >= old(self).proxies@.len() ==> final(self).proxies@ == old(self).proxies@
                && final(self).restart_queue@ == old(self).restart_queue@,
            same_settings(*final(self), *old(self)),
    {
        if index >= self.proxies.len() {
            return;
        }
        let requested = if duration_secs <= (u64::MAX - now) / 1000 {
            now + duration_secs * 1000
        } else if MAX_RATE_LIMIT_COOLDOWN_SECS <= (u64::MAX - now) / 1000 {
            now + MAX_RATE_LIMIT_COOLDOWN_SECS * 1000
        } else {
            now
        };
        proof {
            let bound = (u64::MAX - now) / 1000;
            assert(duration_secs <= bound ==> now + duration_secs * 1000 <= u64::MAX) by (nonlinear_arith)
                requires
                    bound == (u64::MAX - now) / 1000,
                    now <= u64::MAX,
            ;
            assert(duration_secs > bound ==> now + duration_secs * 1000 > u64::MAX) by (nonlinear_arith)
                requires
                    bound == (u64::MAX - now) / 1000,
                    now <= u64::MAX,
            ;
            assert(MAX_RATE_LIMIT_COOLDOWN_SECS <= bound ==> now + MAX_RATE_LIMIT_COOLDOWN_SECS * 1000
                <= u64::MAX) by (nonlinear_arith)
                requires
                    bound == (u64::MAX - now) / 1000,
                    now <= u64::MAX,
            ;
            assert(MAX_RATE_LIMIT_COOLDOWN_SECS > bound ==> now + MAX_RATE_LIMIT_COOLDOWN_SECS * 1000
                > u64::MAX) by (nonlinear_arith)
                requires
                    bound == (u64::MAX - now) / 1000,
                    now <= u64::MAX,
            ;
        }
        {
            let node = &mut self.proxies[index];
            let until = match node.rate_limit_until {
                Some(existing) => if existing > requested {
                    existing
                } else {
                    requested
                },
                None => requested,
            };
            node.rate_limit_until = Some(until);
            match &node.exit_identity {
                Some(identity) => {
                    node.quarantined_exit_ip = Some(identity.public_ip.clone());
                },
                None => {},
            }
            node.recovery_cause = Some(RecoveryCause::RateLimit);
            node.consecutive_successes = 0;
            node.consecutive_failures = 0;
        }
        queue_remove_exec(&mut self.restart_queue, index);
    }

    /// Records a provider rate limit of `duration_secs` on the node at `index` now.
    pub fn mark_rate_limited(&mut self, index: usize, duration_secs: u64)
        ensures
            exists|now: u64|
                {
                    &&& index < old(self).proxies@.len() ==> {
                        &&& final(self).proxies@ == old(self).proxies@.update(
                            index as int,
                            after_rate_limit(old(self).proxies@[index as int], duration_secs, now),
                        )
                        &&& final(self).restart_queue@ == queue_remove(old(self).restart_queue@, index)
                    }
                    &&& index >= old(self).proxies@.len() ==> final(self).proxies@
                        == old(self).proxies@ && final(self).restart_queue@ == old(self).restart_queue@
                },
            same_settings(*final(self), *old(self)),
    {
        let now = self.clock.now();
        self.mark_rate_limited_at(index, duration_secs, now);
    }

    /// The adaptive cooldown, in seconds, for the node at `index` after
    /// `retry_count` retries.
    pub fn adaptive_cooldown(index: usize, retry_count: u32) -> (secs: u64)
        ensures
            secs == adaptive_cooldown_secs(index, retry_count),
    {
        let doublings: u32 = if retry_count < 3 { retry_count } else { 3 };
        let factor: u64 = if doublings == 0 {
            1
        } else if doublings == 1 {
            2
        } else if doublings == 2 {
            4
        } else {
            8
        };
        proof {
            assert(pow2(0) == 1);
            assert(pow2(1) == 2);
            assert(pow2(2) == 4);
            assert(pow2(3) == 8) by {
                assert(pow2(3) == 2 * pow2(2));
            }
        }
        let base: u64 = 60 * factor;
        let jitter: u64 = if index % 4 == 0 {
            100
        } else if index % 4 == 1 {
            85
        } else if index % 4 == 2 {
            115
        } else {
            95
        };
        base * jitter / 100
    }

    /// Records a rate limit with the adaptive cooldown at time `now`.
    pub fn mark_rate_limited_adaptive_at(&mut self, index: usize, retry_count: u32, now: u64)
        ensures
            index < old(self).proxies@.len() ==> {
                &&& final(self).proxies@ == old(self).proxies@.update(
                    index as int,
                    after_rate_limit(
                        old(self).proxies@[index as int],
                        adaptive_cooldown_secs(index, retry_count),
                        now,
                    ),
                )
                &&& final(self).restart_queue@ == queue_remove(old(self).restart_queue@, index)
            },
            index >= old(self).proxies@.len() ==> final(self).proxies@ == old(self).proxies@
                && final(self).restart_queue@ == old(self).restart_queue@,
            same_settings(*final(self), *old(self)),
    {
        let secs = ProxyPool::adaptive_cooldown(index, retry_count);
        self.mark_rate_limited_at(index, secs, now);
    }

    /// Records a rate limit with the adaptive cooldown now.
    pub fn mark_rate_limited_adaptive(&mut self, index: usize, retry_count: u32)
        ensures
            exists|now: u64|
                {
                    &&& index < old(self).proxies@.len() ==> {
                        &&& final(self).proxies@ == old(self).proxies@.update(
                            index as int,
                            after_rate_limit(
                                old(self).proxies@[index as int],
                                adaptive_cooldown_secs(index, retry_count),
                                now,
                            ),
                        )
                        &&& final(self).restart_queue@ == queue_remove(old(self).restart_queue@, index)
                    }
                    &&& index >= old(self).proxies@.len() ==> final(self).proxies@
                        == old(self).proxies@ && final(self).restart_queue@ == old(self).restart_queue@
                },
            same_settings(*final(self), *old(self)),
    {
        let now = self.clock.now();
        self.mark_rate_limited_adaptive_at(index, retry_count, now);
    }

    /// Stops fresh routing to a managed node while its leases finish;
    /// answers the number of leases still held.
    pub fn begin_drain(&mut self, index: usize) -> (result: Result<usize, String>)
        ensures
            drain_verdict(old(self).proxies@, index, result),
            result is Ok ==> final(self).proxies@ == old(self).proxies@.update(
                index as int,
                ProxyEntry { draining: true, ..old(self).proxies@[index as int] },
            ) && result == Ok::<usize, String>(old(self).proxies@[index as int].active_requests),
            result is Err ==> final(self).proxies@ == old(self).proxies@,
            final(self).restart_queue@ == old(self).restart_queue@,
            same_settings(*final(self), *old(self)),
    {
        if index >= self.proxies.len() {
            return Err(unknown_index_error(index));
        }
        if self.proxies[index].lifecycle == LifecyclePolicy::Protected {
            return Err(protected_node_error(&self.proxies[index].id));
        }
        self.proxies[index].draining = true;
        Ok(self.proxies[index].active_requests)
    }

    /// Re-enables fresh routing to a drained managed node.
    pub fn cancel_drain(&mut self, index: usize) -> (result: Result<(), String>)
        ensures
            drain_verdict(old(self).proxies@, index, result),
            result is Ok ==> final(self).proxies@ == old(self).proxies@.update(
                index as int,
                ProxyEntry { draining: false, ..old(self).proxies@[index as int] },
            ),
            result is Err ==> final(self).proxies@ == old(self).proxies@,
            final(self).restart_queue@ == old(self).restart_queue@,
            same_settings(*final(self), *old(self)),
    {
        if index >= self.proxies.len() {
            return Err(unknown_index_error(index));
        }
        if self.proxies[index].lifecycle == LifecyclePolicy::Protected {
            return Err(protected_node_error(&self.proxies[index].id));
        }
        self.proxies[index].draining = false;
        Ok(())
    }

    /// Reserves a managed, lease-free node for an explicit restart: removes
    /// it from routing and from the automatic restart queue and clears its
    /// cooldown and identity.
    pub fn begin_manual_restart(&mut self, index: usize) -> (result: Result<(), String>)
        ensures
            modify_verdict(old(self).proxies@, index, result),
            result is Ok ==> {
                &&& final(self).proxies@ == old(self).proxies@.update(
                    index as int,
                    after_manual_restart_begins(old(self).proxies@[index as int]),
                )
                &&& final(self).restart_queue@ == queue_remove(old(self).restart_queue@, index)
            },
            result is Err ==> final(self).proxies@ == old(self).proxies@
                && final(self).restart_queue@ == old(self).restart_queue@,
            same_settings(*final(self), *old(self)),
    {
        match self.can_modify_node(index) {
            Err(message) => {
                return Err(message);
            },
            Ok(()) => {},
        }
        queue_remove_exec(&mut self.restart_queue, index);
        let node = &mut self.proxies[index];
        node.draining = true;
        node.health = HealthState::Recovering;
        node.circuit = CircuitState::HalfOpen;
        node.cooldown_until = None;
        node.consecutive_failures = 0;
        node.consecutive_successes = 0;
        node.restart_attempts = node.restart_attempts.saturating_add(1);
        if node.recovery_cause.is_none() {
            node.recovery_cause = Some(RecoveryCause::Transport);
        }
        node.exit_identity = None;
        node.duplicate_of = None;
        Ok(())
    }

    /// Records a failed explicit restart at `now` and hands the node back to
    /// the automatic queue while restart budget remains.
    pub fn mark_manual_restart_failed_at(&mut self, index: usize, now: u64)
        ensures
            index < old(self).proxies@.len() ==> {
                &&& final(self).proxies@ == old(self).proxies@.update(
                    index as int,
                    after_manual_restart_failed(old(self).proxies@[index as int], now),
                )
                &&& final(self).restart_queue@ == if old(self).proxies@[index as int].lifecycle
                    == LifecyclePolicy::Managed && old(self).proxies@[index as int].restart_attempts
                    < old(self).max_restart_attempts {
                    queue_add(old(self).restart_queue@, index)
                } else {
                    old(self).restart_queue@
                }
            },
            index >= old(self).proxies@.len() ==> final(self).proxies@ == old(self).proxies@
                && final(self).restart_queue@ == old(self).restart_queue@,
            same_settings(*final(self), *old(self)),
    {
        if index >= self.proxies.len() {
            return;
        }
        let max_attempts = self.max_restart_attempts;
        let retry;
        {
            let node = &mut self.proxies[index];
            let until = now.saturating_add(COOLDOWN_MILLIS);
            node.draining = false;
            node.health = HealthState::Unhealthy;
            node.circuit = CircuitState::Open { until };
            node.cooldown_until = Some(until);
            node.consecutive_successes = 0;
            retry = node.lifecycle == LifecyclePolicy::Managed && node.restart_attempts < max_attempts;
        }
        if retry {
            queue_add_exec(&mut self.restart_queue, index);
        }
    }

    /// Records a failed explicit restart now.
    pub fn mark_manual_restart_failed(&mut self, index: usize)
        ensures
            exists|now: u64|
                {
                    &&& index < old(self).proxies@.len() ==> {
                        &&& final(self).proxies@ == old(self).proxies@.update(
                            index as int,
                            after_manual_restart_failed(old(self).proxies@[index as int], now),
                        )
                        &&& final(self).restart_queue@ == if old(self).proxies@[index as int].lifecycle
                            == LifecyclePolicy::Managed
                            && old(self).proxies@[index as int].restart_attempts
                            < old(self).max_restart_attempts {
                            queue_add(old(self).restart_queue@, index)
                        } else {
                            old(self).restart_queue@
                        }
                    }
                    &&& index >= old(self).proxies@.len() ==> final(self).proxies@
                        == old(self).proxies@ && final(self).restart_queue@ == old(self).restart_queue@
                },
            same_settings(*final(self), *old(self)),
    {
        let now = self.clock.now();
        self.mark_manual_restart_failed_at(index, now);
    }

    /// Restores the node at `index` to full health.
    pub fn mark_healthy(&mut self, index: usize)
        ensures
            index < old(self).proxies@.len() ==> final(self).proxies@ == old(self).proxies@.update(
                index as int,
                healthy_node(old(self).proxies@[index as int]),
            ),
            index >= old(self).proxies@.len() ==> final(self).proxies@ == old(self).proxies@,
            final(self).restart_queue@ == old(self).restart_queue@,
            same_settings(*final(self), *old(self)),
    {
        if index < self.proxies.len() {
            healthy_in_place(&mut self.proxies[index]);
        }
    }

    /// Clears only the provider quota and quarantine of the node at `index`;
    /// circuit, cooldown, counters, health and queue are kept.
    pub fn clear_rate_limit_recovery(&mut self, index: usize)
        ensures
            index < old(self).proxies@.len() ==> final(self).proxies@ == old(self).proxies@.update(
                index as int,
                after_rate_limit_cleared(old(self).proxies@[index as int]),
            ),
            index >= old(self).proxies@.len() ==> final(self).proxies@ == old(self).proxies@,
            final(self).restart_queue@ == old(self).restart_queue@,
            same_settings(*final(self), *old(self)),
    {
        if index >= self.proxies.len() {
            return;
        }
        let node = &mut self.proxies[index];
        node.rate_limit_until = None;
        node.quarantined_exit_ip = None;
        if node.recovery_cause == Some(RecoveryCause::RateLimit) {
            node.recovery_cause = None;
        }
    }

    /// Moves expired open circuits into half-open at `now` (or re-opens them
    /// to the quota deadline while a provider quota runs); answers how many
    /// moved to half-open.
    pub fn recover_expired_cooldowns_at(&mut self, now: u64) -> (transitioned: usize)
        ensures
            final(self).proxies@.len() == old(self).proxies@.len(),
            forall|i: int|
                0 <= i < old(self).proxies@.len() ==> #[trigger] final(self).proxies@[i]
                    == after_expiry_sweep(old(self).proxies@[i], now),
            transitioned == sweep_count(old(self).proxies@, now, old(self).proxies@.len() as int),
            final(self).restart_queue@ == old(self).restart_queue@,
            same_settings(*final(self), *old(self)),
    {
        let ghost before = self.proxies@;
        let mut transitioned: usize = 0;
        let mut i: usize = 0;
        while i < self.proxies.len()
            invariant
                i <= self.proxies@.len(),
                self.proxies@.len() == before.len(),
                transitioned == sweep_count(before, now, i as int),
                transitioned <= i,
                forall|j: int|
                    0 <= j < before.len() ==> #[trigger] self.proxies@[j] == if j < i {
                        after_expiry_sweep(before[j], now)
                    } else {
                        before[j]
                    },
                self.restart_queue@ == old(self).restart_queue@,
                same_settings(*self, *old(self)),
            decreases before.len() - i,
        {
            let node = &mut self.proxies[i];
            let expired = match node.circuit {
                CircuitState::Open { until } => now >= until,
                _ => false,
            };
            if expired {
                let rate_limit_running = match node.rate_limit_until {
                    Some(until) => now < until,
                    None => false,
                };
                if node.recovery_cause == Some(RecoveryCause::RateLimit) && rate_limit_running {
                    let until = match node.rate_limit_until {
                        Some(until) => until,
                        None => now,
                    };
                    node.restart_attempts = 0;
                    node.circuit = CircuitState::Open { until };
                    node.health = HealthState::Degraded;
                    node.cooldown_until = Some(until);
                    node.consecutive_successes = 0;
                } else {
                    let quota_over = match node.rate_limit_until {
                        Some(until) => now >= until,
                        None => false,
                    };
                    if quota_over {
                        node.rate_limit_until = None;
                        node.quarantined_exit_ip = None;
                        if node.recovery_cause == Some(RecoveryCause::RateLimit) {
                            node.recovery_cause = None;
                        }
                    }
                    node.circuit = CircuitState::HalfOpen;
                    node.health = HealthState::Recovering;
                    node.cooldown_until = None;
                    node.consecutive_successes = 0;
                    transitioned = transitioned + 1;
                }
            }
            i = i + 1;
        }
        transitioned
    }

    /// The cooldown sweep now.
    pub fn recover_expired_cooldowns(&mut self) -> (transitioned: usize)
        ensures
            final(self).proxies@.len() == old(self).proxies@.len(),
            exists|now: u64|
                {
                    &&& forall|i: int|
                        0 <= i < old(self).proxies@.len() ==> #[trigger] final(self).proxies@[i]
                            == after_expiry_sweep(old(self).proxies@[i], now)
                    &&& transitioned == sweep_count(
                        old(self).proxies@,
                        now,
                        old(self).proxies@.len() as int,
                    )
                },
            final(self).restart_queue@ == old(self).restart_queue@,
            same_settings(*final(self), *old(self)),
    {
        let now = self.clock.now();
        self.recover_expired_cooldowns_at(now)
    }
}

/// `result` is what a drain request for `index` answers on `nodes`.
pub open spec fn drain_verdict<T>(nodes: Seq<ProxyEntry>, index: usize, result: Result<T, String>) -> bool {
    if index >= nodes.len() {
        result matches Err(message) && message@ == unknown_index_message(index)
    } else if nodes[index as int].lifecycle == LifecyclePolicy::Protected {
        result matches Err(message) && message@ == protected_node_message(nodes[index as int].id@)
    } else {
        result is Ok
    }
}

} // verus!
