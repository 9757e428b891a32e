//! The egress route decision of one upstream attempt.
//!
//! The caller reads the egress mode, the proxy subsystem phase and the pool,
//! tries a selection, and hands what it saw to [`decide_route`]; it then uses
//! the selected proxy, goes direct, waits and asks again, or fails.

use crate::config::EgressMode;
use crate::proxy_pool::types::{EgressRole, RouteKind, RouteMetadata};
use crate::retry::policy::{client_delay, client_retry_after};
use crate::text::{decimal, push_decimal, push_str};
use vstd::prelude::*;

verus! {

/// How long a strict proxy route waits for managed recovery, in milliseconds.
pub const ROUTE_WAIT_DEADLINE_MS: u64 = 30_000;

/// Pause between two selection rounds while recovery runs, in milliseconds.
pub const ROUTE_POLL_INTERVAL_MS: u64 = 250;

/// What the caller saw while choosing a route.
#[derive(Debug, Clone, Copy, PartialEq, Eq, Structural)]
pub struct RouteView {
    pub mode: EgressMode,
    /// The proxy subsystem reports ready.
    pub subsystem_ready: bool,
    /// The pool holds no node.
    pub pool_empty: bool,
    /// A node was selected and leased.
    pub selected: bool,
    /// Managed recovery is still bringing nodes back.
    pub recovery_pending: bool,
    /// The wait deadline has not passed.
    pub before_deadline: bool,
    /// Seconds until the earliest provider quarantine ends, if any.
    pub rate_limit_remaining_secs: Option<u64>,
}

/// Why no route can be had.
#[derive(Debug, Clone, Copy, PartialEq, Eq, Structural)]
pub enum RouteFailure {
    /// Proxy mode with an empty pool.
    PoolEmpty,
    /// Every node is quarantined for now.
    EgressUnavailable { retry_after_secs: u64 },
    /// No node qualifies.
    NoEligibleRoute,
}

/// The route decision.
#[derive(Debug, Clone, Copy, PartialEq, Eq, Structural)]
pub enum RouteDecision {
    /// Send straight from the host, reported as this kind.
    Direct(RouteKind),
    /// Use the selected and leased node.
    UseSelected,
    /// Sleep the poll interval and select again.
    Wait,
    /// Fail the request.
    Fail(RouteFailure),
}

/// The route decision for what the caller saw: direct mode goes direct;
/// hybrid mode uses a selected node once the subsystem is ready and goes
/// direct otherwise; proxy mode never falls back to direct, it waits for
/// recovery until the deadline and then fails.
pub open spec fn route_decision(v: RouteView) -> RouteDecision {
    match v.mode {
        EgressMode::Direct => RouteDecision::Direct(RouteKind::Direct),
        EgressMode::Hybrid => if v.subsystem_ready && v.selected {
            RouteDecision::UseSelected
        } else {
            RouteDecision::Direct(RouteKind::DirectHybridFallback)
        },
        EgressMode::Proxy => if v.pool_empty {
            RouteDecision::Fail(RouteFailure::PoolEmpty)
        } else if v.selected {
            RouteDecision::UseSelected
        } else if v.recovery_pending && v.before_deadline {
            RouteDecision::Wait
        } else {
            match v.rate_limit_remaining_secs {
                Some(secs) => RouteDecision::Fail(RouteFailure::EgressUnavailable { retry_after_secs: client_delay(secs) }),
                None => RouteDecision::Fail(RouteFailure::NoEligibleRoute),
            }
        },
    }
}

/// Decides the route of an attempt.
pub fn decide_route(v: &RouteView) -> (decision: RouteDecision)
    ensures
        decision == route_decision(*v),
{
    match v.mode {
        EgressMode::Direct => RouteDecision::Direct(RouteKind::Direct),
        EgressMode::Hybrid => if v.subsystem_ready && v.selected {
            RouteDecision::UseSelected
        } else {
            RouteDecision::Direct(RouteKind::DirectHybridFallback)
        },
        EgressMode::Proxy => if v.pool_empty {
            RouteDecision::Fail(RouteFailure::PoolEmpty)
        } else if v.selected {
            RouteDecision::UseSelected
        } else if v.recovery_pending && v.before_deadline {
            RouteDecision::Wait
        } else {
            match v.rate_limit_remaining_secs {
                Some(secs) => RouteDecision::Fail(
                    RouteFailure::EgressUnavailable { retry_after_secs: client_retry_after(secs) },
                ),
                None => RouteDecision::Fail(RouteFailure::NoEligibleRoute),
            }
        },
    }
}

/// Whether the hybrid selection should be tried at all: only once the proxy
/// subsystem is ready.
pub fn hybrid_selection_allowed(subsystem_ready: bool) -> (allowed: bool)
    ensures
        allowed == subsystem_ready,
{
    subsystem_ready
}

/// Strict proxy mode never sends a request straight from the host.
pub proof fn proxy_mode_never_goes_direct(v: RouteView)
    requires
        v.mode == EgressMode::Proxy,
    ensures
        !(route_decision(v) is Direct),
{
}

/// Hybrid mode never fails a request for want of a proxy: it goes direct.
pub proof fn hybrid_mode_never_fails(v: RouteView)
    requires
        v.mode == EgressMode::Hybrid,
    ensures
        !(route_decision(v) is Fail),
        !(route_decision(v) is Wait),
{
}

/// The message of a route failure.
pub open spec fn route_failure_text(failure: RouteFailure) -> Seq<char> {
    match failure {
        RouteFailure::PoolEmpty => "Proxy egress mode is configured but the proxy pool is empty"@,
        RouteFailure::EgressUnavailable { retry_after_secs } =>
            "no unique healthy proxy exit is currently available; managed recovery is still running; retry after "@
            + decimal(retry_after_secs as nat) + " second(s)"@,
        RouteFailure::NoEligibleRoute => "Proxy pool is configured but no eligible egress route is available"@,
    }
}

impl RouteFailure {
    /// The message told to the client.
    pub fn message(&self) -> (text: String)
        ensures
            text@ == route_failure_text(*self),
    {
        let mut out = String::new();
        match self {
            RouteFailure::PoolEmpty => push_str(
                &mut out,
                "Proxy egress mode is configured but the proxy pool is empty",
            ),
            RouteFailure::EgressUnavailable { retry_after_secs } => {
                push_str(
                    &mut out,
                    "no unique healthy proxy exit is currently available; managed recovery is still running; retry after ",
                );
                push_decimal(&mut out, *retry_after_secs);
                push_str(&mut out, " second(s)");
            },
            RouteFailure::NoEligibleRoute => push_str(
                &mut out,
                "Proxy pool is configured but no eligible egress route is available",
            ),
        }
        proof {
            assert(Seq::<char>::empty() + route_failure_text(*self) =~= route_failure_text(*self));
        }
        out
    }

    /// Whether the failure is reported as a temporary egress outage.
    pub fn is_egress_unavailable(&self) -> (b: bool)
        ensures
            b == (*self is EgressUnavailable),
    {
        match self {
            RouteFailure::EgressUnavailable { .. } => true,
            _ => false,
        }
    }
}

/// The route metadata of a proxied attempt: a primary reports `Proxy`, a warm
/// standby `Standby`, with the node's id.
pub fn proxy_route_metadata(role: EgressRole, node_id: String) -> (metadata: RouteMetadata)
    ensures
        metadata.kind == (match role {
            EgressRole::Primary => RouteKind::Proxy,
            EgressRole::WarmStandby => RouteKind::Standby,
        }),
        metadata.proxy_node == Some(node_id),
{
    RouteMetadata {
        kind: match role {
            EgressRole::Primary => RouteKind::Proxy,
            EgressRole::WarmStandby => RouteKind::Standby,
        },
        proxy_node: Some(node_id),
    }
}

/// The route metadata of a direct attempt.
pub fn direct_route_metadata(kind: RouteKind) -> (metadata: RouteMetadata)
    ensures
        metadata.kind == kind,
        metadata.proxy_node is None,
{
    RouteMetadata { kind, proxy_node: None }
}

} // verus!
