//! Round-robin load-balanced routing across primary and protected
//! warm-standby egress nodes.
//!
//! A selection runs four passes and takes the first that finds a node:
//! 0. the first serving primary that already carries a lease (bursts of
//!    sibling requests share one exit);
//! 1. the next serving primary in round-robin order;
//! 2. the next warm standby in round-robin order;
//! 3. the next node that may receive a half-open probe.
//! An excluded index (a retry after a failure on it) is skipped by every pass.

use crate::proxy_pool::types::{
    fresh_identity, rate_limit_active, share_client, CircuitState, EgressRole, HealthState,
    ProxyEntry, ProxyPool, RecoveryCause,
};
use vstd::prelude::*;

verus! {

/// The node needs a fresh verified exit identity to be routed.
pub open spec fn identity_required(node: ProxyEntry, require_verified_exit_ip: bool) -> bool {
    require_verified_exit_ip || node.role == EgressRole::WarmStandby
}

/// The node may take normal traffic at `now` (milliseconds).
pub open spec fn normal_route(node: ProxyEntry, now: u64, require_verified_exit_ip: bool, ttl: u64) -> bool {
    &&& !node.draining
    &&& node.health == HealthState::Healthy
    &&& node.circuit == CircuitState::Closed
    &&& node.duplicate_of is None
    &&& !rate_limit_active(node, now)
    &&& (identity_required(node, require_verified_exit_ip) ==> fresh_identity(
        node.exit_identity,
        (now / 1000) as u64,
        ttl,
    ))
}

/// The node may take one half-open probe request at `now`.
pub open spec fn probe_route(node: ProxyEntry, now: u64, require_verified_exit_ip: bool, ttl: u64) -> bool {
    &&& !node.draining
    &&& node.recovery_cause != Some(RecoveryCause::RateLimit)
    &&& node.duplicate_of is None
    &&& node.active_requests == 0
    &&& (identity_required(node, require_verified_exit_ip) ==> fresh_identity(
        node.exit_identity,
        (now / 1000) as u64,
        ttl,
    ))
    &&& (node.circuit == CircuitState::HalfOpen || node.circuit.expired_at(now))
}

/// Node `i` qualifies for selection pass `pass` (0 to 3).
pub open spec fn pass_eligible(pool: ProxyPool, now: u64, excluded: Option<usize>, pass: nat, i: int) -> bool {
    let node = pool.proxies@[i];
    let normal = normal_route(node, now, pool.require_verified_exit_ip, pool.identity_ttl);
    &&& excluded != Some(i as usize)
    &&& if pass == 0 {
        node.role == EgressRole::Primary && node.active_requests > 0 && node.routing_enabled && normal
    } else if pass == 1 {
        node.role == EgressRole::Primary && node.routing_enabled && normal
    } else if pass == 2 {
        node.role == EgressRole::WarmStandby && normal
    } else {
        probe_route(node, now, pool.require_verified_exit_ip, pool.identity_ttl)
    }
}

/// The first node at cyclic offset `off` or later from `start` that
/// qualifies for `pass`.
pub open spec fn scan(pool: ProxyPool, now: u64, excluded: Option<usize>, pass: nat, start: int, off: int) -> Option<int>
    decreases pool.proxies@.len() - off,
{
    let total = pool.proxies@.len() as int;
    if off >= total || off < 0 {
        None
    } else if pass_eligible(pool, now, excluded, pass, (start + off) % total) {
        Some((start + off) % total)
    } else {
        scan(pool, now, excluded, pass, start, off + 1)
    }
}

/// The round-robin starting position.
pub open spec fn rr_start(pool: ProxyPool) -> int {
    (pool.round_robin_counter as int) % (pool.proxies@.len() as int)
}

/// The node selected at `now` and the pass that found it.
pub open spec fn selection(pool: ProxyPool, now: u64, excluded: Option<usize>) -> Option<(int, nat)> {
    if pool.proxies@.len() == 0 {
        None
    } else if let Some(i) = scan(pool, now, excluded, 0, 0, 0) {
        Some((i, 0nat))
    } else if let Some(i) = scan(pool, now, excluded, 1, rr_start(pool), 0) {
        Some((i, 1nat))
    } else if let Some(i) = scan(pool, now, excluded, 2, rr_start(pool), 0) {
        Some((i, 2nat))
    } else if let Some(i) = scan(pool, now, excluded, 3, rr_start(pool), 0) {
        Some((i, 3nat))
    } else {
        None
    }
}

/// The round-robin counter after a selection.
pub open spec fn counter_after(pool: ProxyPool, now: u64, excluded: Option<usize>) -> usize {
    match selection(pool, now, excluded) {
        Some((i, pass)) => if pass == 0 {
            pool.round_robin_counter
        } else {
            ((i + 1) % (pool.proxies@.len() as int)) as usize
        },
        None => pool.round_robin_counter,
    }
}

/// `routed` is the client, URL and index of the node that `selection` picks.
pub open spec fn routed_as_selected(
    pool: ProxyPool,
    now: u64,
    excluded: Option<usize>,
    routed: Option<(reqwest::Client, String, usize)>,
) -> bool {
    match selection(pool, now, excluded) {
        Some((i, _)) => routed matches Some(r) && r.2 == i && r.1@ == pool.proxies@[i].url@,
        None => routed is None,
    }
}

fn is_normal_route(node: &ProxyEntry, now: u64, require_verified_exit_ip: bool, ttl: u64) -> (ok: bool)
    ensures
        ok == normal_route(*node, now, require_verified_exit_ip, ttl),
{
    let required = require_verified_exit_ip || node.role == EgressRole::WarmStandby;
    let identity_ok = if required {
        match &node.exit_identity {
            Some(identity) => identity.is_fresh_at(now / 1000, ttl),
            None => false,
        }
    } else {
        true
    };
    !node.draining && node.health == HealthState::Healthy && node.circuit == CircuitState::Closed
        && !node.is_duplicate() && !node.provider_rate_limit_active(now) && identity_ok
}

fn is_probe_route(node: &ProxyEntry, now: u64, require_verified_exit_ip: bool, ttl: u64) -> (ok: bool)
    ensures
        ok == probe_route(*node, now, require_verified_exit_ip, ttl),
{
    let required = require_verified_exit_ip || node.role == EgressRole::WarmStandby;
    let identity_ok = if required {
        match &node.exit_identity {
            Some(identity) => identity.is_fresh_at(now / 1000, ttl),
            None => false,
        }
    } else {
        true
    };
    if node.draining || node.recovery_cause == Some(RecoveryCause::RateLimit) || node.is_duplicate()
        || node.active_request_count() > 0 || !identity_ok {
        return false;
    }
    let expired = match node.circuit {
        CircuitState::Open { until } => now >= until,
        _ => false,
    };
    node.may_receive_probe_traffic() || expired
}

pub(crate) proof fn lemma_cyclic_index(start: int, offset: int, total: int, index: int)
    requires
        0 <= start < total,
        0 <= offset < total,
        (start < total - offset ==> index == start + offset),
        (start >= total - offset ==> index == start - (total - offset)),
    ensures
        index == (start + offset) % total,
{
    if start < total - offset {
        vstd::arithmetic::div_mod::lemma_small_mod((start + offset) as nat, total as nat);
    } else {
        vstd::arithmetic::div_mod::lemma_small_mod((start + offset - total) as nat, total as nat);
        vstd::arithmetic::div_mod::lemma_mod_sub_multiples_vanish(start + offset, total);
    }
}

impl ProxyPool {
    fn eligible(&self, now: u64, excluded: Option<usize>, pass: u8, i: usize) -> (ok: bool)
        requires
            i < self.proxies@.len(),
            pass <= 3,
        ensures
            ok == pass_eligible(*self, now, excluded, pass as nat, i as int),
    {
        if excluded == Some(i) {
            return false;
        }
        let node = &self.proxies[i];
        let normal = is_normal_route(node, now, self.require_verified_exit_ip, self.identity_ttl);
        if pass == 0 {
            node.role == EgressRole::Primary && node.active_request_count() > 0 && node.routing_enabled
                && normal
        } else if pass == 1 {
            node.role == EgressRole::Primary && node.routing_enabled && normal
        } else if pass == 2 {
            node.role == EgressRole::WarmStandby && normal
        } else {
            is_probe_route(node, now, self.require_verified_exit_ip, self.identity_ttl)
        }
    }

    fn scan_pass(&self, now: u64, excluded: Option<usize>, pass: u8, start: usize) -> (found: Option<usize>)
        requires
            pass <= 3,
            self.proxies@.len() > 0,
            start < self.proxies@.len(),
        ensures
            match found {
                Some(i) => i < self.proxies@.len() && scan(*self, now, excluded, pass as nat, start as int, 0)
                    == Some(i as int),
                None => scan(*self, now, excluded, pass as nat, start as int, 0) is None,
            },
    {
        let total = self.proxies.len();
        let mut offset: usize = 0;
        while offset < total
            invariant
                total == self.proxies@.len(),
                total > 0,
                start < total,
                offset <= total,
                pass <= 3,
                scan(*self, now, excluded, pass as nat, start as int, 0) == scan(
                    *self,
                    now,
                    excluded,
                    pass as nat,
                    start as int,
                    offset as int,
                ),
            decreases total - offset,
        {
            let index = if start < total - offset {
                start + offset
            } else {
                start - (total - offset)
            };
            proof {
                lemma_cyclic_index(start as int, offset as int, total as int, index as int);
            }
            if self.eligible(now, excluded, pass, index) {
                return Some(index);
            }
            offset = offset + 1;
        }
        None
    }

    /// Selects a node at `now`, skipping `excluded`, and advances the
    /// round-robin counter past a node found by passes 1 to 3.
    pub fn select_proxy_round_robin_at(&mut self, excluded: Option<usize>, now: u64) -> (routed: Option<(reqwest::Client, String, usize)>)
        ensures
            routed_as_selected(*old(self), now, excluded, routed),
            final(self).round_robin_counter == counter_after(*old(self), now, excluded),
            final(self).proxies@ == old(self).proxies@,
            final(self).restart_queue@ == old(self).restart_queue@,
            final(self).active_count == old(self).active_count,
            final(self).require_verified_exit_ip == old(self).require_verified_exit_ip,
            final(self).identity_ttl == old(self).identity_ttl,
            final(self).max_restart_attempts == old(self).max_restart_attempts,
    {
        let total = self.proxies.len();
        if total == 0 {
            return None;
        }
        match self.scan_pass(now, excluded, 0, 0) {
            Some(index) => {
                assert(selection(*self, now, excluded) == Some((index as int, 0nat)));
                return Some(self.selection_of(index));
            },
            None => {},
        }
        let start = self.round_robin_counter % total;
        let mut pass: u8 = 1;
        while pass <= 3
            invariant
                1 <= pass <= 4,
                total == self.proxies@.len(),
                total > 0,
                start as int == rr_start(*self),
                *self == *old(self),
                scan(*self, now, excluded, 0, 0, 0) is None,
                pass >= 2 ==> scan(*self, now, excluded, 1, start as int, 0) is None,
                pass >= 3 ==> scan(*self, now, excluded, 2, start as int, 0) is None,
                pass >= 4 ==> scan(*self, now, excluded, 3, start as int, 0) is None,
            decreases 4 - pass,
        {
            match self.scan_pass(now, excluded, pass, start) {
                Some(index) => {
                    assert(selection(*self, now, excluded) == Some((index as int, pass as nat)));
                    self.round_robin_counter = (index + 1) % total;
                    let chosen = self.selection_of(index);
                    return Some(chosen);
                },
                None => {},
            }
            pass = pass + 1;
        }
        None
    }

    fn selection_of(&self, index: usize) -> (routed: (reqwest::Client, String, usize))
        requires
            index < self.proxies@.len(),
        ensures
            routed.2 == index,
            routed.1@ == self.proxies@[index as int].url@,
    {
        let node = &self.proxies[index];
        (share_client(&node.client), node.url.clone(), index)
    }

    /// Selects a node now for a request; the routing key does not steer
    /// round-robin selection.
    pub fn select_proxy_for_key(&mut self, routing_key: &str) -> (routed: Option<(reqwest::Client, String, usize)>)
        ensures
            exists|now: u64|
                routed_as_selected(*old(self), now, None, routed) && final(self).round_robin_counter
                    == counter_after(*old(self), now, None),
            final(self).proxies@ == old(self).proxies@,
            final(self).restart_queue@ == old(self).restart_queue@,
    {
        let now = self.clock.now();
        self.select_proxy_round_robin_at(None, now)
    }

    /// Alias of `select_proxy_for_key`.
    pub fn get_client(&mut self, routing_key: &str) -> (routed: Option<(reqwest::Client, String, usize)>)
        ensures
            exists|now: u64|
                routed_as_selected(*old(self), now, None, routed) && final(self).round_robin_counter
                    == counter_after(*old(self), now, None),
            final(self).proxies@ == old(self).proxies@,
            final(self).restart_queue@ == old(self).restart_queue@,
    {
        self.select_proxy_for_key(routing_key)
    }

    /// Selects a node now, skipping the node at `excluded_index` (a retry
    /// after a failure there).
    pub fn get_client_excluding(&mut self, routing_key: &str, excluded_index: usize) -> (routed: Option<(reqwest::Client, String, usize)>)
        ensures
            exists|now: u64|
                routed_as_selected(*old(self), now, Some(excluded_index), routed)
                    && final(self).round_robin_counter == counter_after(
                    *old(self),
                    now,
                    Some(excluded_index),
                ),
            final(self).proxies@ == old(self).proxies@,
            final(self).restart_queue@ == old(self).restart_queue@,
    {
        let now = self.clock.now();
        self.select_proxy_round_robin_at(Some(excluded_index), now)
    }
}


/// The node would take normal traffic but for a missing or stale verified
/// identity: a route that becomes available once identity probing succeeds.
pub open spec fn awaiting_identity(node: ProxyEntry, now: u64, require_verified_exit_ip: bool, ttl: u64) -> bool {
    &&& !node.draining
    &&& node.health == HealthState::Healthy
    &&& node.circuit == CircuitState::Closed
    &&& node.duplicate_of is None
    &&& !rate_limit_active(node, now)
    &&& identity_required(node, require_verified_exit_ip)
    &&& !fresh_identity(node.exit_identity, (now / 1000) as u64, ttl)
}

fn is_awaiting_identity(node: &ProxyEntry, now: u64, require_verified_exit_ip: bool, ttl: u64) -> (waiting: bool)
    ensures
        waiting == awaiting_identity(*node, now, require_verified_exit_ip, ttl),
{
    let required = require_verified_exit_ip || node.role == EgressRole::WarmStandby;
    let fresh = match &node.exit_identity {
        Some(identity) => identity.is_fresh_at(now / 1000, ttl),
        None => false,
    };
    !node.draining && node.health == HealthState::Healthy && node.circuit == CircuitState::Closed
        && !node.is_duplicate() && !node.provider_rate_limit_active(now) && required && !fresh
}

/// Seconds left of a provider quarantine at `now`, rounded up.
pub open spec fn quarantine_secs_left(node: ProxyEntry, now: u64) -> Option<int> {
    match node.rate_limit_until {
        Some(until) => if now < until {
            Some((until - now + 999) / 1000)
        } else {
            None
        },
        None => None,
    }
}

/// The least of the quarantines left among the first `k` nodes.
pub open spec fn least_quarantine(nodes: Seq<ProxyEntry>, now: u64, k: int) -> Option<int>
    decreases k,
{
    if k <= 0 {
        None
    } else {
        let rest = least_quarantine(nodes, now, k - 1);
        match quarantine_secs_left(nodes[k - 1], now) {
            Some(s) => match rest {
                Some(r) => if s < r { Some(s) } else { Some(r) },
                None => Some(s),
            },
            None => rest,
        }
    }
}

/// Some node of the pool is held back only by its identity at `now`.
pub open spec fn pending_at(pool: ProxyPool, now: u64) -> bool {
    exists|i: int|
        0 <= i < pool.proxies@.len() && awaiting_identity(
            #[trigger] pool.proxies@[i],
            now,
            pool.require_verified_exit_ip,
            pool.identity_ttl,
        )
}

/// The shortest quarantine left in the pool at `now`.
pub open spec fn quarantine_at(pool: ProxyPool, now: u64) -> Option<int> {
    least_quarantine(pool.proxies@, now, pool.proxies@.len() as int)
}

impl ProxyPool {
    /// Whether some node is held back only by a missing or stale identity at
    /// `now`, so that a request may wait for it.
    pub fn route_availability_pending_at(&self, now: u64) -> (pending: bool)
        ensures
            pending == pending_at(*self, now),
    {
        let mut i: usize = 0;
        while i < self.proxies.len()
            invariant
                i <= self.proxies@.len(),
                forall|j: int| 0 <= j < i ==> !awaiting_identity(
                    #[trigger] self.proxies@[j],
                    now,
                    self.require_verified_exit_ip,
                    self.identity_ttl,
                ),
            decreases self.proxies@.len() - i,
        {
            if is_awaiting_identity(&self.proxies[i], now, self.require_verified_exit_ip, self.identity_ttl) {
                return true;
            }
            i = i + 1;
        }
        false
    }

    /// Whether some node is held back only by its identity, now.
    pub fn route_availability_pending(&self) -> (pending: bool)
        ensures
            exists|now: u64| pending == #[trigger] pending_at(*self, now),
    {
        self.route_availability_pending_at(self.clock.now())
    }

    /// Whether managed recovery is under way: a restart is queued or a node
    /// is recovering.
    pub fn recovery_in_progress(&self) -> (recovering: bool)
        ensures
            recovering == (self.restart_queue@.len() > 0 || exists|i: int|
                0 <= i < self.proxies@.len() && (#[trigger] self.proxies@[i]).health == HealthState::Recovering),
    {
        if self.restart_queue.len() > 0 {
            return true;
        }
        let mut i: usize = 0;
        while i < self.proxies.len()
            invariant
                i <= self.proxies@.len(),
                forall|j: int| 0 <= j < i ==> (#[trigger] self.proxies@[j]).health != HealthState::Recovering,
            decreases self.proxies@.len() - i,
        {
            if self.proxies[i].health == HealthState::Recovering {
                return true;
            }
            i = i + 1;
        }
        false
    }

    /// The shortest provider quarantine left at `now`, in whole seconds
    /// rounded up; `None` where no quarantine is active.
    pub fn minimum_rate_limit_remaining_at(&self, now: u64) -> (secs: Option<u64>)
        ensures
            quarantine_at(*self, now) == match secs {
                Some(s) => Some(s as int),
                None => None,
            },
    {
        let mut best: Option<u64> = None;
        let mut i: usize = 0;
        while i < self.proxies.len()
            invariant
                i <= self.proxies@.len(),
                match best {
                    Some(b) => least_quarantine(self.proxies@, now, i as int) == Some(b as int),
                    None => least_quarantine(self.proxies@, now, i as int) is None,
                },
            decreases self.proxies@.len() - i,
        {
            let left: Option<u64> = match self.proxies[i].rate_limit_until {
                Some(until) => if now < until {
                    let gap: u64 = until - now;
                    Some(gap / 1000 + if gap % 1000 == 0 { 0 } else { 1 })
                } else {
                    None
                },
                None => None,
            };
            proof {
                match self.proxies@[i as int].rate_limit_until {
                    Some(until) => if now < until {
                        let gap = until - now;
                        assert((gap + 999) / 1000 == gap / 1000 + if gap % 1000 == 0 { 0int } else { 1int });
                    },
                    None => {},
                }
            }
            best = match left {
                Some(s) => match best {
                    Some(b) => if s < b { Some(s) } else { Some(b) },
                    None => Some(s),
                },
                None => best,
            };
            i = i + 1;
        }
        best
    }

    /// The shortest provider quarantine left now, in whole seconds.
    pub fn minimum_rate_limit_remaining(&self) -> (secs: Option<u64>)
        ensures
            exists|now: u64|
                #[trigger] quarantine_at(*self, now) == match secs {
                    Some(s) => Some(s as int),
                    None => None,
                },
    {
        self.minimum_rate_limit_remaining_at(self.clock.now())
    }
}

} // verus!
