//! Decisions of the proxy subsystem reconciler.
//!
//! One reconcile cycle walks every configured node through bootstrap,
//! transport, identity and route verification. The caller performs each
//! stage's I/O for the nodes still in play and hands the outcomes to a
//! [`ReconcileCycle`], which updates the pool, narrows the nodes in play and
//! decides whether the cycle goes on, fails with an error, or ends ready.
//! Between cycles the reconciler backs off by [`recovery_backoff`].

use crate::proxy_pool::identity::{egress_ready_spec, identity_results_applied, marked_duplicates};
use crate::proxy_pool::maintenance::{after_failure, after_success, failure_queues_restart, queue_add, same_settings};
use crate::proxy_pool::subsystem::{ProxySubsystemPhase, ProxySubsystemStatus};
use crate::proxy_pool::types::{fresh_identity, CircuitState, ExitIdentity, HealthState, ProxyEntry, ProxyPool};
use crate::retry::machine::{push_status, status_display};
use crate::text::{decimal, push_decimal, push_str, str_chars, string_from_range, trim_end_char, trim_end_char_len};
use vstd::prelude::*;

verus! {

/// Why a node failed verification.
#[derive(Debug, Clone, PartialEq, Eq)]
pub enum VerificationFailure {
    Transport(String),
    Identity(String),
    Route(String),
}

/// The message of a verification failure.
pub open spec fn verification_text(failure: VerificationFailure) -> Seq<char> {
    match failure {
        VerificationFailure::Transport(m) => "transport verification failed: "@ + m@,
        VerificationFailure::Identity(m) => "identity verification failed: "@ + m@,
        VerificationFailure::Route(m) => "route verification failed: "@ + m@,
    }
}

impl VerificationFailure {
    /// The failure as displayed.
    pub fn message(&self) -> (text: String)
        ensures
            text@ == verification_text(*self),
    {
        let mut out = String::new();
        match self {
            VerificationFailure::Transport(m) => {
                push_str(&mut out, "transport verification failed: ");
                push_str(&mut out, m.as_str());
            },
            VerificationFailure::Identity(m) => {
                push_str(&mut out, "identity verification failed: ");
                push_str(&mut out, m.as_str());
            },
            VerificationFailure::Route(m) => {
                push_str(&mut out, "route verification failed: ");
                push_str(&mut out, m.as_str());
            },
        }
        assert(Seq::<char>::empty() + verification_text(*self) =~= verification_text(*self));
        out
    }
}

/// The message for a stage that outlived its timeout: whole seconds where
/// the timeout is a whole number of seconds, else milliseconds.
pub open spec fn timeout_text(stage: Seq<char>, timeout_ms: u64) -> Seq<char> {
    if timeout_ms % 1000 == 0 {
        stage + " verification timed out after "@ + decimal((timeout_ms / 1000) as nat) + "s"@
    } else {
        stage + " verification timed out after "@ + decimal(timeout_ms as nat) + "ms"@
    }
}

/// The message for a verification stage that timed out.
pub fn timeout_message(stage: &str, timeout_ms: u64) -> (text: String)
    ensures
        text@ == timeout_text(stage@, timeout_ms),
{
    let mut out = String::new();
    push_str(&mut out, stage);
    push_str(&mut out, " verification timed out after ");
    if timeout_ms % 1000 == 0 {
        push_decimal(&mut out, timeout_ms / 1000);
        push_str(&mut out, "s");
    } else {
        push_decimal(&mut out, timeout_ms);
        push_str(&mut out, "ms");
    }
    assert(Seq::<char>::empty() + timeout_text(stage@, timeout_ms) =~= timeout_text(stage@, timeout_ms));
    out
}

/// A verification probe of a candidate node.
#[derive(Debug, Clone, Copy, PartialEq, Eq, Structural)]
pub enum VerificationProbe {
    /// An HTTP request through the node.
    Transport,
    /// The exit-identity probes.
    Identity,
    /// The upstream route probe.
    Route,
}

/// The probe to run next on a candidate, given the outcomes so far (`None`
/// for a stage not run yet, `Some(None)` for a stage that outlived its
/// timeout): transport first; identity only once transport passed; route
/// only once identity passed; nothing once a stage failed or timed out, or
/// when all three passed.
pub fn next_probe(
    transport: &Option<Option<Result<(), String>>>,
    identity: &Option<Option<Result<ExitIdentity, String>>>,
    route: &Option<Option<Result<(), String>>>,
) -> (probe: Option<VerificationProbe>)
    ensures
        probe == match *transport {
            None => Some(VerificationProbe::Transport),
            Some(Some(Ok(()))) => match *identity {
                None => Some(VerificationProbe::Identity),
                Some(Some(Ok(_))) => match *route {
                    None => Some(VerificationProbe::Route),
                    Some(_) => None::<VerificationProbe>,
                },
                Some(_) => None::<VerificationProbe>,
            },
            Some(_) => None::<VerificationProbe>,
        },
{
    match transport {
        None => Some(VerificationProbe::Transport),
        Some(Some(Ok(()))) => match identity {
            None => Some(VerificationProbe::Identity),
            Some(Some(Ok(_))) => match route {
                None => Some(VerificationProbe::Route),
                Some(_) => None,
            },
            Some(_) => None,
        },
        Some(_) => None,
    }
}

/// The verdict on a candidate node verified stage by stage (transport, then
/// identity, then route): the first stage that failed decides, and a stage
/// that outlived its timeout (given as `None`) fails with the timeout
/// message; when every stage passed, the identity the node reported. A
/// stage after a failed one is not consulted.
pub fn staged_verdict(
    transport: Option<Result<(), String>>,
    identity: Option<Result<ExitIdentity, String>>,
    route: Option<Result<(), String>>,
    timeout_ms: u64,
) -> (verdict: Result<ExitIdentity, VerificationFailure>)
    ensures
        match transport {
            None => verdict matches Err(VerificationFailure::Transport(m)) && m@ == timeout_text(
                "transport"@,
                timeout_ms,
            ),
            Some(Err(e)) => verdict == Err::<ExitIdentity, VerificationFailure>(VerificationFailure::Transport(e)),
            Some(Ok(())) => match identity {
                None => verdict matches Err(VerificationFailure::Identity(m)) && m@ == timeout_text(
                    "identity"@,
                    timeout_ms,
                ),
                Some(Err(e)) => verdict == Err::<ExitIdentity, VerificationFailure>(VerificationFailure::Identity(e)),
                Some(Ok(found)) => match route {
                    None => verdict matches Err(VerificationFailure::Route(m)) && m@ == timeout_text(
                        "route"@,
                        timeout_ms,
                    ),
                    Some(Err(e)) => verdict == Err::<ExitIdentity, VerificationFailure>(VerificationFailure::Route(e)),
                    Some(Ok(())) => verdict == Ok::<ExitIdentity, VerificationFailure>(found),
                },
            },
        },
{
    match transport {
        None => {
            return Err(VerificationFailure::Transport(timeout_message("transport", timeout_ms)));
        },
        Some(Err(e)) => {
            return Err(VerificationFailure::Transport(e));
        },
        Some(Ok(())) => {},
    }
    let found = match identity {
        None => {
            return Err(VerificationFailure::Identity(timeout_message("identity", timeout_ms)));
        },
        Some(Err(e)) => {
            return Err(VerificationFailure::Identity(e));
        },
        Some(Ok(found)) => found,
    };
    match route {
        None => Err(VerificationFailure::Route(timeout_message("route", timeout_ms))),
        Some(Err(e)) => Err(VerificationFailure::Route(e)),
        Some(Ok(())) => Ok(found),
    }
}

/// The failure counter after a cycle: reset by a success, else one more
/// (saturating).
pub open spec fn attempt_after_cycle(current: u32, success: bool) -> u32 {
    if success {
        0
    } else if current < u32::MAX {
        (current + 1) as u32
    } else {
        u32::MAX
    }
}

/// The failure counter after a cycle.
pub fn failure_attempt_after_cycle(current: u32, success: bool) -> (next: u32)
    ensures
        next == attempt_after_cycle(current, success),
{
    if success {
        0
    } else {
        current.saturating_add(1)
    }
}

/// The base recovery step for a failure count, in seconds: 2, 5, 10, 30,
/// then 60.
pub open spec fn recovery_step_secs(attempt: u32) -> u64 {
    if attempt == 0 {
        2
    } else if attempt == 1 {
        5
    } else if attempt == 2 {
        10
    } else if attempt == 3 {
        30
    } else {
        60
    }
}

/// The recovery backoff in milliseconds: the step capped at `max_ms`, plus a
/// jitter of up to a fifth of it taken from `seed` (none for seed 0), capped
/// at `max_ms` again.
pub open spec fn recovery_backoff_spec(attempt: u32, max_ms: u64, seed: u64) -> u64 {
    let step = recovery_step_secs(attempt) * 1000;
    let base: u64 = if step < max_ms { step as u64 } else { max_ms };
    if seed == 0 || base == 0 || base / 5 == 0 {
        base
    } else {
        let jittered = base + (seed as int) % (base / 5 + 1);
        if jittered < max_ms { jittered as u64 } else { max_ms }
    }
}

/// The wait before the next reconcile cycle after `attempt` failed cycles.
pub fn recovery_backoff(attempt: u32, max_ms: u64, jitter_seed: u64) -> (wait_ms: u64)
    ensures
        wait_ms == recovery_backoff_spec(attempt, max_ms, jitter_seed),
        wait_ms <= max_ms,
{
    let secs: u64 = if attempt == 0 {
        2
    } else if attempt == 1 {
        5
    } else if attempt == 2 {
        10
    } else if attempt == 3 {
        30
    } else {
        60
    };
    let step: u64 = secs * 1000;
    let base: u64 = if step < max_ms {
        step
    } else {
        max_ms
    };
    if jitter_seed == 0 || base == 0 || base / 5 == 0 {
        return base;
    }
    let jitter: u64 = jitter_seed % (base / 5 + 1);
    let jittered: u64 = base + jitter;
    if jittered < max_ms {
        jittered
    } else {
        max_ms
    }
}

/// The reconciler's recovery backoff never exceeds its ceiling and, with a
/// positive ceiling, is never zero.
pub proof fn recovery_backoff_bounded_and_nonzero(attempt: u32, max_ms: u64, seed: u64)
    ensures
        recovery_backoff_spec(attempt, max_ms, seed) <= max_ms,
        max_ms > 0 ==> recovery_backoff_spec(attempt, max_ms, seed) > 0,
{
}

/// The pool's nodes and restart queue.
pub open spec fn pool_state(p: ProxyPool) -> (Seq<ProxyEntry>, Seq<usize>) {
    (p.proxies@, p.restart_queue@)
}

/// The pool state after a transport failure on `index` at `now`.
pub open spec fn with_failure(s: (Seq<ProxyEntry>, Seq<usize>), index: usize, now: u64) -> (Seq<ProxyEntry>, Seq<usize>) {
    if index < s.0.len() {
        (
            s.0.update(index as int, after_failure(s.0[index as int], now)),
            if failure_queues_restart(s.0[index as int]) {
                queue_add(s.1, index)
            } else {
                s.1
            },
        )
    } else {
        s
    }
}

/// The pool state after a success on `index`.
pub open spec fn with_success(s: (Seq<ProxyEntry>, Seq<usize>), index: usize) -> (Seq<ProxyEntry>, Seq<usize>) {
    if index < s.0.len() {
        (s.0.update(index as int, after_success(s.0[index as int])), s.1)
    } else {
        s
    }
}

/// The pool state after a stage whose outcome on node `nodes[k]` is
/// `failed[k]`: a failure recorded for each failed node, a success recorded
/// for each passing one where `record_success`.
pub open spec fn stage_applied(s: (Seq<ProxyEntry>, Seq<usize>), nodes: Seq<usize>, failed: Seq<bool>, now: u64, record_success: bool) -> (Seq<ProxyEntry>, Seq<usize>)
    decreases nodes.len(),
{
    if nodes.len() == 0 || failed.len() < nodes.len() {
        s
    } else {
        let n = (nodes.len() - 1) as int;
        let before = stage_applied(s, nodes.take(n), failed.take(n), now, record_success);
        if failed[n] {
            with_failure(before, nodes[n], now)
        } else if record_success {
            with_success(before, nodes[n])
        } else {
            before
        }
    }
}

/// The nodes of `nodes` whose outcome passed.
pub open spec fn passing(nodes: Seq<usize>, failed: Seq<bool>) -> Seq<usize>
    decreases nodes.len(),
{
    if nodes.len() == 0 || failed.len() < nodes.len() {
        Seq::empty()
    } else {
        let n = (nodes.len() - 1) as int;
        let before = passing(nodes.take(n), failed.take(n));
        if failed[n] {
            before
        } else {
            before.push(nodes[n])
        }
    }
}

/// The first error among `outcomes`, after `prior`.
pub open spec fn first_error_of(prior: Option<Seq<char>>, outcomes: Seq<Option<String>>) -> Option<Seq<char>>
    decreases outcomes.len(),
{
    if prior is Some {
        prior
    } else if outcomes.len() == 0 {
        None
    } else {
        match outcomes[0] {
            Some(e) => Some(e@),
            None => first_error_of(None, outcomes.drop_first()),
        }
    }
}

/// Which outcomes are failures.
pub open spec fn failed_flags(outcomes: Seq<Option<String>>) -> Seq<bool> {
    outcomes.map_values(|o: Option<String>| o is Some)
}

/// A node that may be route-probed at `now_secs`: healthy, closed, not a
/// duplicate, with an identity fresh for `ttl_secs`.
pub open spec fn route_candidate(n: ProxyEntry, now_secs: u64, ttl_secs: u64) -> bool {
    n.health == HealthState::Healthy && n.circuit == CircuitState::Closed && n.duplicate_of is None
        && fresh_identity(n.exit_identity, now_secs, ttl_secs)
}

/// The indices below `n` of the route candidates.
pub open spec fn route_candidates(nodes: Seq<ProxyEntry>, n: int, now_secs: u64, ttl_secs: u64) -> Seq<usize>
    decreases n,
{
    if n <= 0 {
        Seq::empty()
    } else {
        let before = route_candidates(nodes, n - 1, now_secs, ttl_secs);
        if route_candidate(nodes[n - 1], now_secs, ttl_secs) {
            before.push((n - 1) as usize)
        } else {
            before
        }
    }
}

/// The views of an optional message.
pub open spec fn message_view(m: Option<String>) -> Option<Seq<char>> {
    match m {
        Some(s) => Some(s@),
        None => None,
    }
}

/// One reconcile cycle in progress.
#[derive(Debug)]
pub struct ReconcileCycle {
    /// Nodes still in play, by index.
    pub nodes: Vec<usize>,
    /// Their ids when the cycle started.
    pub ids: Vec<String>,
    /// The first verification error of the cycle.
    pub first_error: Option<String>,
}

/// `after` is `before` moved into `phase` at `now_secs` with no error: the
/// last success kept and any backoff cleared.
pub open spec fn entered_phase(
    before: ProxySubsystemStatus,
    after: ProxySubsystemStatus,
    phase: ProxySubsystemPhase,
    now_secs: u64,
) -> bool {
    &&& after.phase == phase
    &&& after.last_transition_unix_secs == now_secs
    &&& after.last_success_unix_secs == before.last_success_unix_secs
    &&& after.last_error is None
    &&& after.backoff_until_unix_secs is None
}

/// `after` publishes readiness at `now_secs`: the `Ready` phase, success
/// stamped at the transition, error and backoff cleared.
pub open spec fn published_ready(after: ProxySubsystemStatus, now_secs: u64) -> bool {
    &&& after.phase == ProxySubsystemPhase::Ready
    &&& after.last_transition_unix_secs == now_secs
    &&& after.last_success_unix_secs == Some(now_secs)
    &&& after.last_error is None
    &&& after.backoff_until_unix_secs is None
}

/// The cycle's bookkeeping is aligned: one id per node in play, every node
/// in the pool.
pub open spec fn cycle_ok(c: ReconcileCycle, pool_len: nat) -> bool {
    &&& c.nodes@.len() == c.ids@.len()
    &&& forall|k: int| 0 <= k < c.nodes@.len() ==> (#[trigger] c.nodes@[k]) < pool_len
}

impl ReconcileCycle {
    /// Starts a cycle over every configured node, moving the subsystem into
    /// `Starting` at `now_secs`; fails on an empty pool.
    pub fn start(pool: &ProxyPool, status: &mut ProxySubsystemStatus, now_secs: u64) -> (cycle: Result<ReconcileCycle, String>)
        ensures
            entered_phase(*old(status), *final(status), ProxySubsystemPhase::Starting, now_secs),
            pool.proxies@.len() == 0 <==> cycle is Err,
            cycle matches Err(e) ==> e@ == "proxy pool has no configured candidates"@,
            cycle matches Ok(c) ==> {
                &&& cycle_ok(c, pool.proxies@.len())
                &&& c.nodes@ == Seq::new(pool.proxies@.len(), |k: int| k as usize)
                &&& forall|k: int| 0 <= k < c.ids@.len() ==> (#[trigger] c.ids@[k])@ == pool.proxies@[k].id@
                &&& c.first_error is None
            },
    {
        status.transition_at(ProxySubsystemPhase::Starting, None, now_secs);
        let n = pool.proxies.len();
        if n == 0 {
            return Err(String::from_str("proxy pool has no configured candidates"));
        }
        let mut nodes: Vec<usize> = Vec::new();
        let mut ids: Vec<String> = Vec::new();
        let mut i: usize = 0;
        while i < n
            invariant
                n == pool.proxies@.len(),
                i <= n,
                nodes@ == Seq::new(i as nat, |k: int| k as usize),
                ids@.len() == i,
                forall|k: int| 0 <= k < i ==> (#[trigger] ids@[k])@ == pool.proxies@[k].id@,
            decreases n - i,
        {
            nodes.push(i);
            ids.push(pool.proxies[i].id.clone());
            i = i + 1;
            assert(nodes@ =~= Seq::new(i as nat, |k: int| k as usize));
        }
        Ok(ReconcileCycle { nodes, ids, first_error: None })
    }

    /// Runs one stage's bookkeeping: records a failure for each failed node,
    /// a success for each passing one where `record_success`, keeps the
    /// passing nodes in play and returns the first failure message.
    fn apply_stage(&mut self, pool: &mut ProxyPool, outcomes: &Vec<Option<String>>, now: u64, record_success: bool) -> (first: Option<String>)
        requires
            cycle_ok(*old(self), old(pool).proxies@.len()),
            outcomes@.len() == old(self).nodes@.len(),
        ensures
            cycle_ok(*final(self), final(pool).proxies@.len()),
            final(pool).proxies@.len() == old(pool).proxies@.len(),
            pool_state(*final(pool)) == stage_applied(pool_state(*old(pool)), old(self).nodes@, failed_flags(outcomes@), now, record_success),
            same_settings(*final(pool), *old(pool)),
            final(self).nodes@ == passing(old(self).nodes@, failed_flags(outcomes@)),
            message_view(first) == first_error_of(None, outcomes@),
            final(self).first_error == old(self).first_error,
    {
        let ghost start = pool_state(*pool);
        let ghost old_nodes = self.nodes@;
        let ghost flags = failed_flags(outcomes@);
        let mut kept: Vec<usize> = Vec::new();
        let mut kept_ids: Vec<String> = Vec::new();
        let mut first: Option<String> = None;
        let mut k: usize = 0;
        let n = self.nodes.len();
        assert(outcomes@.skip(0) =~= outcomes@);
        while k < n
            invariant
                n == old_nodes.len(),
                self.nodes@ == old_nodes,
                self.ids@.len() == n,
                outcomes@.len() == n,
                flags == failed_flags(outcomes@),
                k <= n,
                forall|m: int| 0 <= m < n ==> (#[trigger] old_nodes[m]) < pool.proxies@.len(),
                pool.proxies@.len() == start.0.len(),
                pool_state(*pool) == stage_applied(start, old_nodes.take(k as int), flags.take(k as int), now, record_success),
                same_settings(*pool, *old(pool)),
                kept@ == passing(old_nodes.take(k as int), flags.take(k as int)),
                kept_ids@.len() == kept@.len(),
                forall|m: int| 0 <= m < kept@.len() ==> (#[trigger] kept@[m]) < pool.proxies@.len(),
                first_error_of(None, outcomes@) == first_error_of(message_view(first), outcomes@.skip(k as int)),
                self.first_error == old(self).first_error,
            decreases n - k,
        {
            proof {
                assert(old_nodes.take(k + 1).take(k as int) =~= old_nodes.take(k as int));
                assert(flags.take(k + 1).take(k as int) =~= flags.take(k as int));
                assert(old_nodes.take(k + 1)[k as int] == old_nodes[k as int]);
                assert(flags.take(k + 1)[k as int] == flags[k as int]);
                assert(flags[k as int] == outcomes@[k as int] is Some);
                assert(outcomes@.skip(k as int).drop_first() =~= outcomes@.skip(k + 1));
                assert(outcomes@.skip(k as int)[0] == outcomes@[k as int]);
            }
            let index = self.nodes[k];
            match &outcomes[k] {
                Some(error) => {
                    if first.is_none() {
                        first = Some(error.clone());
                    }
                    pool.record_failure_at(index, now);
                },
                None => {
                    if record_success {
                        pool.record_success(index);
                    }
                    kept.push(index);
                    kept_ids.push(self.ids[k].clone());
                },
            }
            k = k + 1;
        }
        proof {
            assert(old_nodes.take(n as int) =~= old_nodes);
            assert(flags.take(n as int) =~= flags);
        }
        self.nodes = kept;
        self.ids = kept_ids;
        first
    }

    /// Bootstrap outcomes for the nodes in play (`Some(error)` where the
    /// container could not be started): failures are recorded and the cycle
    /// fails when no node started; otherwise the subsystem moves into
    /// `TransportVerifying` at `now_secs`.
    pub fn bootstrap_done(
        &mut self,
        pool: &mut ProxyPool,
        status: &mut ProxySubsystemStatus,
        outcomes: &Vec<Option<String>>,
        now: u64,
        now_secs: u64,
    ) -> (r: Result<(), String>)
        requires
            cycle_ok(*old(self), old(pool).proxies@.len()),
            outcomes@.len() == old(self).nodes@.len(),
        ensures
            r is Ok ==> entered_phase(*old(status), *final(status), ProxySubsystemPhase::TransportVerifying, now_secs),
            r is Err ==> *final(status) == *old(status),
            cycle_ok(*final(self), final(pool).proxies@.len()),
            pool_state(*final(pool)) == stage_applied(pool_state(*old(pool)), old(self).nodes@, failed_flags(outcomes@), now, false),
            same_settings(*final(pool), *old(pool)),
            final(self).nodes@ == passing(old(self).nodes@, failed_flags(outcomes@)),
            final(self).first_error == old(self).first_error,
            r is Err <==> final(self).nodes@.len() == 0,
            r matches Err(e) ==> Some(e@) == (match first_error_of(None, outcomes@) {
                Some(m) => Some(m),
                None => Some("no proxy candidate could be started"@),
            }),
    {
        let first = self.apply_stage(pool, outcomes, now, false);
        if self.nodes.len() == 0 {
            return Err(match first {
                Some(e) => e,
                None => String::from_str("no proxy candidate could be started"),
            });
        }
        status.transition_at(ProxySubsystemPhase::TransportVerifying, None, now_secs);
        Ok(())
    }

    fn note_first(&mut self, first: Option<String>)
        ensures
            final(self).nodes@ == old(self).nodes@,
            final(self).ids@ == old(self).ids@,
            message_view(final(self).first_error) == (if old(self).first_error is Some {
                message_view(old(self).first_error)
            } else {
                message_view(first)
            }),
    {
        if self.first_error.is_none() {
            self.first_error = first;
        }
    }

    /// Transport-verification outcomes for the nodes in play: failures are
    /// recorded and the cycle fails when no node passed; otherwise the
    /// subsystem moves into `IdentityVerifying` at `now_secs`.
    pub fn transport_done(
        &mut self,
        pool: &mut ProxyPool,
        status: &mut ProxySubsystemStatus,
        outcomes: &Vec<Option<String>>,
        now: u64,
        now_secs: u64,
    ) -> (r: Result<(), String>)
        requires
            cycle_ok(*old(self), old(pool).proxies@.len()),
            outcomes@.len() == old(self).nodes@.len(),
        ensures
            r is Ok ==> entered_phase(*old(status), *final(status), ProxySubsystemPhase::IdentityVerifying, now_secs),
            r is Err ==> *final(status) == *old(status),
            cycle_ok(*final(self), final(pool).proxies@.len()),
            pool_state(*final(pool)) == stage_applied(pool_state(*old(pool)), old(self).nodes@, failed_flags(outcomes@), now, false),
            same_settings(*final(pool), *old(pool)),
            final(self).nodes@ == passing(old(self).nodes@, failed_flags(outcomes@)),
            message_view(final(self).first_error) == first_error_of(message_view(old(self).first_error), outcomes@),
            r is Err <==> final(self).nodes@.len() == 0,
            r matches Err(e) ==> Some(e@) == (match message_view(final(self).first_error) {
                Some(m) => Some(m),
                None => Some("no proxy passed transport verification"@),
            }),
    {
        let first = self.apply_stage(pool, outcomes, now, false);
        proof {
            if old(self).first_error is Some {
                assert(first_error_of(message_view(old(self).first_error), outcomes@) == message_view(old(self).first_error));
            }
        }
        self.note_first(first);
        if self.nodes.len() == 0 {
            return Err(match &self.first_error {
                Some(e) => e.clone(),
                None => String::from_str("no proxy passed transport verification"),
            });
        }
        status.transition_at(ProxySubsystemPhase::IdentityVerifying, None, now_secs);
        Ok(())
    }

    /// Identity-verification outcomes for the nodes in play: failures are
    /// recorded, every result is applied to the pool (with duplicate marks
    /// recomputed), and the nodes that may be route-probed at `now` remain in
    /// play. The cycle fails when no identity was verified or no candidate
    /// remains; otherwise the subsystem moves into `RouteVerifying` at
    /// `now_secs`.
    pub fn identity_done(
        &mut self,
        pool: &mut ProxyPool,
        status: &mut ProxySubsystemStatus,
        outcomes: Vec<Result<ExitIdentity, String>>,
        now: u64,
        now_secs: u64,
    ) -> (r: Result<(), String>)
        requires
            cycle_ok(*old(self), old(pool).proxies@.len()),
            outcomes@.len() == old(self).nodes@.len(),
        ensures
            r is Ok ==> entered_phase(*old(status), *final(status), ProxySubsystemPhase::RouteVerifying, now_secs),
            r is Err ==> *final(status) == *old(status),
            cycle_ok(*final(self), final(pool).proxies@.len()),
            same_settings(*final(pool), *old(pool)),
            final(pool).proxies@.len() == old(pool).proxies@.len(),
            ({
                let failed = outcomes@.map_values(|o: Result<ExitIdentity, String>| o is Err);
                let recorded = stage_applied(pool_state(*old(pool)), old(self).nodes@, failed, now, false);
                &&& final(pool).restart_queue@ == recorded.1
                &&& final(pool).proxies@ == marked_duplicates(identity_results_applied(
                    recorded.0,
                    Seq::new(outcomes@.len(), |k: int| (old(self).nodes@[k], old(self).ids@[k], outcomes@[k])),
                    old(pool).require_verified_exit_ip,
                    now,
                ))
            }),
            ({
                let verified = exists|k: int| 0 <= k < outcomes@.len() && (#[trigger] outcomes@[k]) is Ok;
                &&& !verified ==> r is Err
                &&& verified ==> final(self).nodes@ == route_candidates(final(pool).proxies@, final(pool).proxies@.len() as int, now / 1000, old(pool).identity_ttl)
                &&& verified ==> (r is Err <==> final(self).nodes@.len() == 0)
                &&& (verified && r is Err) ==> r->Err_0@ == "no unique healthy proxy exit remained after identity verification"@
            }),
    {
        let ghost start = pool_state(*pool);
        let ghost old_nodes = self.nodes@;
        let ghost old_ids = self.ids@;
        let ghost failed = outcomes@.map_values(|o: Result<ExitIdentity, String>| o is Err);
        let n = self.nodes.len();
        let mut results: Vec<(usize, String, Result<ExitIdentity, String>)> = Vec::new();
        let mut verified = false;
        let mut k: usize = 0;
        while k < n
            invariant
                n == old_nodes.len(),
                self.nodes@ == old_nodes,
                self.ids@ == old_ids,
                old_ids.len() == n,
                outcomes@.len() == n,
                failed == outcomes@.map_values(|o: Result<ExitIdentity, String>| o is Err),
                k <= n,
                forall|m: int| 0 <= m < n ==> (#[trigger] old_nodes[m]) < pool.proxies@.len(),
                pool.proxies@.len() == start.0.len(),
                pool_state(*pool) == stage_applied(start, old_nodes.take(k as int), failed.take(k as int), now, false),
                same_settings(*pool, *old(pool)),
                results@ =~= Seq::new(k as nat, |m: int| (old_nodes[m], old_ids[m], outcomes@[m])),
                verified == (exists|m: int| 0 <= m < k && (#[trigger] outcomes@[m]) is Ok),
                *status == *old(status),
            decreases n - k,
        {
            proof {
                assert(old_nodes.take(k + 1).take(k as int) =~= old_nodes.take(k as int));
                assert(failed.take(k + 1).take(k as int) =~= failed.take(k as int));
                assert(old_nodes.take(k + 1)[k as int] == old_nodes[k as int]);
                assert(failed.take(k + 1)[k as int] == failed[k as int]);
            }
            let index = self.nodes[k];
            let outcome = match &outcomes[k] {
                Ok(identity) => {
                    verified = true;
                    Ok(identity.duplicate())
                },
                Err(error) => {
                    if self.first_error.is_none() {
                        self.first_error = Some(error.clone());
                    }
                    pool.record_failure_at(index, now);
                    Err(error.clone())
                },
            };
            results.push((index, self.ids[k].clone(), outcome));
            k = k + 1;
        }
        proof {
            assert(old_nodes.take(n as int) =~= old_nodes);
            assert(failed.take(n as int) =~= failed);
        }
        let ghost applied_from = pool.proxies@;
        let ghost rs = results@;
        pool.apply_identity_results_at(results, now);
        proof {
            lemma_results_applied_len(applied_from, rs, old(pool).require_verified_exit_ip, now);
        }
        if !verified {
            return Err(match &self.first_error {
                Some(e) => e.clone(),
                None => String::from_str("no proxy passed identity verification"),
            });
        }
        let probe_secs = now / 1000;
        let ttl = pool.identity_ttl;
        let mut nodes: Vec<usize> = Vec::new();
        let mut ids: Vec<String> = Vec::new();
        let total = pool.proxies.len();
        let mut i: usize = 0;
        while i < total
            invariant
                total == pool.proxies@.len(),
                i <= total,
                nodes@ == route_candidates(pool.proxies@, i as int, probe_secs, ttl),
                *status == *old(status),
                ids@.len() == nodes@.len(),
                forall|m: int| 0 <= m < nodes@.len() ==> (#[trigger] nodes@[m]) < total,
            decreases total - i,
        {
            let node = &pool.proxies[i];
            let fresh = match &node.exit_identity {
                Some(identity) => identity.is_fresh_at(probe_secs, ttl),
                None => false,
            };
            if node.is_closed_and_healthy() && fresh {
                nodes.push(i);
                ids.push(node.id.clone());
            }
            i = i + 1;
        }
        self.nodes = nodes;
        self.ids = ids;
        if self.nodes.len() == 0 {
            return Err(String::from_str("no unique healthy proxy exit remained after identity verification"));
        }
        status.transition_at(ProxySubsystemPhase::RouteVerifying, None, now_secs);
        Ok(())
    }

    /// Route-verification outcomes for the nodes in play: successes and
    /// failures are recorded; the cycle fails when no route passed or when
    /// fewer than `minimum_unique_exit_ips` distinct fresh exits are ready at
    /// `now`. On success the subsystem publishes readiness at `now_secs`;
    /// a failed cycle leaves it in `RouteVerifying`. Returns the number of
    /// failed route probes.
    pub fn route_done(
        &mut self,
        pool: &mut ProxyPool,
        status: &mut ProxySubsystemStatus,
        outcomes: &Vec<Option<String>>,
        now: u64,
        now_secs: u64,
        minimum_unique_exit_ips: usize,
    ) -> (r: Result<usize, String>)
        requires
            cycle_ok(*old(self), old(pool).proxies@.len()),
            outcomes@.len() == old(self).nodes@.len(),
            old(status).phase == ProxySubsystemPhase::RouteVerifying,
        ensures
            r is Ok <==> final(status).phase == ProxySubsystemPhase::Ready,
            r is Ok ==> published_ready(*final(status), now_secs),
            r is Err ==> *final(status) == *old(status),
            cycle_ok(*final(self), final(pool).proxies@.len()),
            pool_state(*final(pool)) == stage_applied(pool_state(*old(pool)), old(self).nodes@, failed_flags(outcomes@), now, true),
            same_settings(*final(pool), *old(pool)),
            message_view(final(self).first_error) == first_error_of(message_view(old(self).first_error), outcomes@),
            ({
                let passed = passing(old(self).nodes@, failed_flags(outcomes@));
                let ready = egress_ready_spec(*final(pool), minimum_unique_exit_ips, final(pool).identity_ttl, now / 1000);
                &&& passed.len() == 0 ==> (r is Err && Some(r->Err_0@) == (match message_view(final(self).first_error) {
                    Some(m) => Some(m),
                    None => Some("no proxy passed route verification"@),
                }))
                &&& (passed.len() > 0 && !ready) ==> (r is Err && r->Err_0@ == "proxy verification passed but fewer than "@
                    + decimal(minimum_unique_exit_ips as nat) + " unique eligible exit(s) are ready"@)
                &&& (passed.len() > 0 && ready) ==> (r is Ok && r->Ok_0 == old(self).nodes@.len() - passed.len())
            }),
    {
        let before = self.nodes.len();
        let first = self.apply_stage(pool, outcomes, now, true);
        proof {
            lemma_passing_len(old(self).nodes@, failed_flags(outcomes@));
            if old(self).first_error is Some {
                assert(first_error_of(message_view(old(self).first_error), outcomes@) == message_view(old(self).first_error));
            }
        }
        self.note_first(first);
        if self.nodes.len() == 0 {
            return Err(match &self.first_error {
                Some(e) => e.clone(),
                None => String::from_str("no proxy passed route verification"),
            });
        }
        let ttl = pool.identity_ttl;
        if !pool.egress_ready_at(minimum_unique_exit_ips, ttl, now / 1000) {
            let mut message = String::from_str("proxy verification passed but fewer than ");
            push_decimal(&mut message, minimum_unique_exit_ips as u64);
            push_str(&mut message, " unique eligible exit(s) are ready");
            return Err(message);
        }
        status.mark_ready_at(now_secs);
        Ok(before - self.nodes.len())
    }
}

proof fn lemma_results_applied_len(nodes: Seq<ProxyEntry>, results: Seq<(usize, String, Result<ExitIdentity, String>)>, require: bool, now: u64)
    ensures
        identity_results_applied(nodes, results, require, now).len() == nodes.len(),
    decreases results.len(),
{
    if results.len() > 0 {
        lemma_results_applied_len(nodes, results.drop_last(), require, now);
    }
}

proof fn lemma_passing_len(nodes: Seq<usize>, failed: Seq<bool>)
    ensures
        passing(nodes, failed).len() <= nodes.len(),
    decreases nodes.len(),
{
    if nodes.len() > 0 && failed.len() >= nodes.len() {
        let n = (nodes.len() - 1) as int;
        lemma_passing_len(nodes.take(n), failed.take(n));
    }
}


/// The verifier that probes live egress nodes. The requests themselves are
/// made by the caller; these are the verdicts on what came back.
#[derive(Debug, Clone, Copy)]
pub struct LiveProxyVerifier;

impl LiveProxyVerifier {
    /// The transport verdict on the HTTP status of the probe request made
    /// through the node: success statuses pass.
    pub fn transport_verdict(&self, status: u16) -> (verdict: Result<(), String>)
        ensures
            verdict is Ok <==> 200 <= status <= 299,
            verdict matches Err(m) ==> m@ == "HTTP-through-proxy returned HTTP "@ + status_display(status),
    {
        if 200 <= status && status <= 299 {
            Ok(())
        } else {
            let mut message = String::new();
            push_str(&mut message, "HTTP-through-proxy returned HTTP ");
            push_status(&mut message, status);
            Err(message)
        }
    }

    /// The upstream URL the route probe requests: the base URL without
    /// trailing slashes, then `/models`.
    pub fn route_probe_url(&self, upstream_base_url: &str) -> (url: String)
        ensures
            url@ == trim_end_char(upstream_base_url@, '/') + "/models"@,
    {
        let chars = str_chars(upstream_base_url);
        let end = trim_end_char_len(chars.as_slice(), 0, '/');
        assert(chars@.subrange(0, chars@.len() as int) =~= chars@);
        let mut url = string_from_range(chars.as_slice(), 0, end);
        push_str(&mut url, "/models");
        url
    }
}


/// What bootstrap does to a candidate's container.
#[derive(Debug, Clone, Copy, PartialEq, Eq, Structural)]
pub enum ContainerAction {
    /// Create the missing container.
    Create,
    /// Start the stopped container.
    Start,
    /// Leave the running container alone.
    Keep,
}

/// The bootstrap action for a container that exists or not, runs or not.
pub fn container_action(exists: bool, running: bool) -> (action: ContainerAction)
    ensures
        action == (if !exists {
            ContainerAction::Create
        } else if !running {
            ContainerAction::Start
        } else {
            ContainerAction::Keep
        }),
{
    if !exists {
        ContainerAction::Create
    } else if !running {
        ContainerAction::Start
    } else {
        ContainerAction::Keep
    }
}

/// The bootstrap error of a container-runtime step on node `id`: a timeout
/// where there is no detail, else the runtime's failure.
pub open spec fn docker_step_error_spec(step: Seq<char>, id: Seq<char>, detail: Option<Seq<char>>) -> Seq<char> {
    match detail {
        None => "Docker "@ + step + " timed out for "@ + id,
        Some(d) => "Docker "@ + step + " failed for "@ + id + ": "@ + d,
    }
}

/// The error text of a failed container-runtime step.
pub fn docker_step_error(step: &str, id: &str, detail: Option<&str>) -> (message: String)
    ensures
        message@ == docker_step_error_spec(step@, id@, match detail { Some(d) => Some(d@), None => None }),
{
    let mut message = String::new();
    push_str(&mut message, "Docker ");
    push_str(&mut message, step);
    match detail {
        None => {
            push_str(&mut message, " timed out for ");
            push_str(&mut message, id);
        },
        Some(d) => {
            push_str(&mut message, " failed for ");
            push_str(&mut message, id);
            push_str(&mut message, ": ");
            push_str(&mut message, d);
        },
    }
    message
}

} // verus!
