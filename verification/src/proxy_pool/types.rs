//! Egress-node domain types.
//!
//! Serving role, health, circuit state, lifecycle policy, identity, and load are
//! independent dimensions of a node. Time is measured in milliseconds on the
//! clock of `crate::clock`; every deadline is such a millisecond value.

use crate::text::{
    after_last, after_last_start, decimal, parse_u16, parse_u16_chars, push_decimal, push_str,
    slice_range, str_chars, trim_end_char, trim_end_char_len,
};
use std::hash::{Hash, Hasher};
use vstd::prelude::*;

verus! {

/// Consecutive transport failures before a node's circuit opens.
pub const FAILURE_THRESHOLD: u32 = 2;

/// Consecutive successes that close a half-open or recovering node.
pub const RECOVERY_SUCCESS_COUNT: u32 = 2;

/// Transport cooldown once the failure threshold is reached, in seconds.
pub const COOLDOWN_SECS: u64 = 120;

/// The transport cooldown in milliseconds.
pub const COOLDOWN_MILLIS: u64 = 120_000;

#[derive(Debug, Clone, Copy, PartialEq, Eq, Structural)]
pub enum EgressRole {
    Primary,
    WarmStandby,
}

pub type ProxyRole = EgressRole;

#[derive(Debug, Clone, Copy, PartialEq, Eq, Structural)]
pub enum RouteKind {
    Direct,
    Proxy,
    Standby,
    DirectHybridFallback,
}

#[derive(Debug, Clone, PartialEq, Eq)]
pub struct RouteMetadata {
    pub kind: RouteKind,
    pub proxy_node: Option<String>,
}

#[derive(Debug, Clone, Copy, PartialEq, Eq, Structural)]
pub enum LifecyclePolicy {
    Managed,
    Protected,
}

pub type ProxyLifecycle = LifecyclePolicy;

#[derive(Debug, Clone, Copy, PartialEq, Eq, Structural)]
pub enum HealthState {
    Unknown,
    Healthy,
    Degraded,
    Unhealthy,
    Recovering,
}

#[derive(Debug, Clone, Copy, PartialEq, Eq, Structural)]
pub enum RecoveryCause {
    Transport,
    RateLimit,
}

#[derive(Debug, Clone, Copy, PartialEq, Eq, Structural)]
pub enum CircuitState {
    Closed,
    Open { until: u64 },
    HalfOpen,
}

impl CircuitState {
    /// Display label of the circuit state.
    pub open spec fn label_spec(self) -> Seq<char> {
        match self {
            CircuitState::Closed => "closed"@,
            CircuitState::Open { .. } => "open"@,
            CircuitState::HalfOpen => "half_open"@,
        }
    }

    pub fn label(self) -> (label: &'static str)
        ensures
            label@ == self.label_spec(),
    {
        match self {
            CircuitState::Closed => "closed",
            CircuitState::Open { .. } => "open",
            CircuitState::HalfOpen => "half_open",
        }
    }

    /// The circuit is open and its deadline lies after `now`.
    pub open spec fn open_at(self, now: u64) -> bool {
        match self {
            CircuitState::Open { until } => now < until,
            _ => false,
        }
    }

    /// The circuit is open and its deadline has passed.
    pub open spec fn expired_at(self, now: u64) -> bool {
        match self {
            CircuitState::Open { until } => now >= until,
            _ => false,
        }
    }

    pub fn is_open(self, now: u64) -> (open: bool)
        ensures
            open == self.open_at(now),
    {
        match self {
            CircuitState::Open { until } => now < until,
            _ => false,
        }
    }
}

#[derive(Debug, Clone, PartialEq, Eq)]
pub struct ExitIdentity {
    pub public_ip: String,
    pub provider: Option<String>,
    pub colo: Option<String>,
    pub verified_at_unix_secs: u64,
}

/// The identity was verified no more than `ttl_secs` before `now_secs`
/// (a verification stamped in the future counts as fresh).
pub open spec fn identity_fresh(identity: ExitIdentity, now_secs: u64, ttl_secs: u64) -> bool {
    (if now_secs >= identity.verified_at_unix_secs {
        now_secs - identity.verified_at_unix_secs
    } else {
        0
    }) <= ttl_secs
}

/// `Some` identity that is fresh at `now_secs`.
pub open spec fn fresh_identity(identity: Option<ExitIdentity>, now_secs: u64, ttl_secs: u64) -> bool {
    match identity {
        Some(id) => identity_fresh(id, now_secs, ttl_secs),
        None => false,
    }
}

impl ExitIdentity {
    /// Whether this identity is fresh at `now_secs` for a time-to-live of `ttl_secs`.
    pub fn is_fresh_at(&self, now_secs: u64, ttl_secs: u64) -> (fresh: bool)
        ensures
            fresh == identity_fresh(*self, now_secs, ttl_secs),
    {
        now_secs.saturating_sub(self.verified_at_unix_secs) <= ttl_secs
    }

    /// Whether this identity is fresh now, reading the wall clock.
    pub fn is_fresh(&self, ttl_secs: u64) -> (fresh: bool)
        ensures
            exists|now: u64| fresh == identity_fresh(*self, now, ttl_secs),
    {
        let now = crate::clock::unix_now_secs();
        self.is_fresh_at(now, ttl_secs)
    }

    /// A copy of this identity.
    pub fn duplicate(&self) -> (copy: ExitIdentity)
        ensures
            copy == *self,
    {
        ExitIdentity {
            public_ip: self.public_ip.clone(),
            provider: clone_opt_string(&self.provider),
            colo: clone_opt_string(&self.colo),
            verified_at_unix_secs: self.verified_at_unix_secs,
        }
    }
}

/// A copy of an optional string.
pub fn clone_opt_string(value: &Option<String>) -> (copy: Option<String>)
    ensures
        copy == *value,
{
    match value {
        Some(s) => Some(s.clone()),
        None => None,
    }
}

/// A copy of an optional identity.
pub fn clone_opt_identity(value: &Option<ExitIdentity>) -> (copy: Option<ExitIdentity>)
    ensures
        copy == *value,
{
    match value {
        Some(identity) => Some(identity.duplicate()),
        None => None,
    }
}

#[verifier::external_type_specification]
#[verifier::external_body]
pub struct ExClient(reqwest::Client);

/// A handle to the same HTTP client (`reqwest::Client::clone`, which shares
/// the connection pool).
#[verifier::external_body]
pub(crate) fn share_client(client: &reqwest::Client) -> reqwest::Client {
    client.clone()
}

#[derive(Debug)]
pub struct ProxyEntry {
    pub id: String,
    pub url: String,
    pub client: reqwest::Client,
    pub port: u16,
    pub container_name: String,
    pub role: EgressRole,
    pub lifecycle: LifecyclePolicy,
    /// Whether this primary belongs to the normal serving set.
    pub routing_enabled: bool,
    /// Operator drain: no fresh routes while existing leases finish.
    pub draining: bool,
    pub health: HealthState,
    pub circuit: CircuitState,
    pub consecutive_failures: u32,
    pub consecutive_successes: u32,
    pub restart_attempts: u32,
    pub cooldown_until: Option<u64>,
    /// Upstream quota deadline, preserved across restart attempts.
    pub rate_limit_until: Option<u64>,
    /// Exit IP that received the rate limit and must not be reused before quota expiry.
    pub quarantined_exit_ip: Option<String>,
    pub recovery_cause: Option<RecoveryCause>,
    pub exit_identity: Option<ExitIdentity>,
    /// Node ID that already owns the same verified exit identity.
    pub duplicate_of: Option<String>,
    /// Number of request leases currently held on this node.
    pub active_requests: usize,
}

/// Display label of a health state.
pub open spec fn health_label_spec(health: HealthState) -> Seq<char> {
    match health {
        HealthState::Unknown => "unknown"@,
        HealthState::Healthy => "healthy"@,
        HealthState::Degraded => "degraded"@,
        HealthState::Unhealthy => "unhealthy"@,
        HealthState::Recovering => "recovering"@,
    }
}

/// A provider quota deadline is set and lies after `now`.
pub open spec fn rate_limit_active(node: ProxyEntry, now: u64) -> bool {
    match node.rate_limit_until {
        Some(until) => now < until,
        None => false,
    }
}

impl ProxyEntry {
    pub fn health_label(&self) -> (label: &'static str)
        ensures
            label@ == health_label_spec(self.health),
    {
        match self.health {
            HealthState::Unknown => "unknown",
            HealthState::Healthy => "healthy",
            HealthState::Degraded => "degraded",
            HealthState::Unhealthy => "unhealthy",
            HealthState::Recovering => "recovering",
        }
    }

    pub fn is_duplicate(&self) -> (duplicate: bool)
        ensures
            duplicate == self.duplicate_of.is_some(),
    {
        self.duplicate_of.is_some()
    }

    pub fn is_closed_and_healthy(&self) -> (ok: bool)
        ensures
            ok == (self.health == HealthState::Healthy && self.circuit == CircuitState::Closed
                && self.duplicate_of.is_none()),
    {
        self.health == HealthState::Healthy && self.circuit == CircuitState::Closed
            && !self.is_duplicate()
    }

    pub fn provider_rate_limit_active(&self, now: u64) -> (active: bool)
        ensures
            active == rate_limit_active(*self, now),
    {
        match self.rate_limit_until {
            Some(until) => now < until,
            None => false,
        }
    }

    pub fn may_receive_probe_traffic(&self) -> (probe: bool)
        ensures
            probe == (self.circuit == CircuitState::HalfOpen && self.duplicate_of.is_none()),
    {
        self.circuit == CircuitState::HalfOpen && !self.is_duplicate()
    }

    pub fn active_request_count(&self) -> (count: usize)
        ensures
            count == self.active_requests,
    {
        self.active_requests
    }
}

/// A request lease on the node at `index`; hand it back with
/// `ProxyPool::release_lease` when the request finishes.
#[derive(Debug)]
pub struct EgressLease {
    pub index: usize,
}

impl EgressLease {
    pub fn index(&self) -> (index: usize)
        ensures
            index == self.index,
    {
        self.index
    }
}

#[derive(Debug)]
pub struct ProxyPool {
    pub proxies: Vec<ProxyEntry>,
    pub active_count: usize,
    pub restart_queue: Vec<usize>,
    pub require_verified_exit_ip: bool,
    /// Identity time-to-live in seconds.
    pub identity_ttl: u64,
    pub max_restart_attempts: u32,
    /// Round-robin counter for per-request load balancing.
    pub round_robin_counter: usize,
    /// The monotonic clock the pool's deadlines are read on.
    pub clock: crate::clock::MonotonicClock,
}

impl ProxyPool {
    /// An empty pool with the default policy.
    pub fn empty() -> (pool: ProxyPool)
        ensures
            pool.proxies@.len() == 0,
            pool.active_count == 0,
            pool.restart_queue@.len() == 0,
            !pool.require_verified_exit_ip,
            pool.identity_ttl == 300,
            pool.max_restart_attempts == 3,
            pool.round_robin_counter == 0,
    {
        ProxyPool {
            proxies: Vec::new(),
            active_count: 0,
            restart_queue: Vec::new(),
            require_verified_exit_ip: false,
            identity_ttl: 300,
            max_restart_attempts: 3,
            round_robin_counter: 0,
            clock: crate::clock::MonotonicClock::start(),
        }
    }
}

impl Default for ProxyPool {
    fn default() -> (pool: ProxyPool)
        ensures
            pool.proxies@.len() == 0,
            pool.active_count == 0,
            pool.restart_queue@.len() == 0,
            !pool.require_verified_exit_ip,
            pool.identity_ttl == 300,
            pool.max_restart_attempts == 3,
            pool.round_robin_counter == 0,
    {
        ProxyPool::empty()
    }
}

#[derive(Debug, Clone)]
pub struct ProxyNodeStats {
    pub id: String,
    pub port: u16,
    pub role: EgressRole,
    pub lifecycle: LifecyclePolicy,
    pub routing_enabled: bool,
    pub draining: bool,
    pub health: HealthState,
    pub circuit: String,
    /// Compatibility label retained for existing dashboard clients.
    pub status: String,
    pub failure_count: u32,
    pub success_count: u32,
    pub restart_attempts: u32,
    pub cooldown_remaining_secs: Option<u64>,
    pub recovery_cause: Option<RecoveryCause>,
    pub quarantined_exit_ip: Option<String>,
    pub active_requests: usize,
    pub exit_identity: Option<ExitIdentity>,
    pub duplicate_of: Option<String>,
}

#[derive(Debug, Clone)]
pub struct ProxyTierStats {
    pub ports: Vec<u16>,
    pub total: usize,
    pub healthy: usize,
    pub degraded: usize,
    pub cooldown: usize,
    pub recovering: usize,
    pub dead: usize,
    pub protected: bool,
    pub unique_verified_exits: usize,
    pub active_requests: usize,
}

#[derive(Debug, Clone)]
pub struct ProxyPoolStats {
    pub policy: String,
    pub primary: ProxyTierStats,
    pub warm_standby: ProxyTierStats,
    pub nodes: Vec<ProxyNodeStats>,
}

/// The port a proxy URL names: the text after its last `:`, with trailing
/// `/` removed, parsed as `u16`; 0 when that fails.
pub open spec fn port_of(url: Seq<char>) -> u16 {
    match parse_u16(trim_end_char(after_last(url, ':'), '/')) {
        Some(port) => port,
        None => 0,
    }
}

pub fn extract_port(url: &str) -> (port: u16)
    ensures
        port == port_of(url@),
{
    let chars = str_chars(url);
    let start = after_last_start(chars.as_slice(), ':');
    let end = trim_end_char_len(chars.as_slice(), start, '/');
    let digits = slice_range(chars.as_slice(), start, end);
    match parse_u16_chars(digits.as_slice()) {
        Some(port) => port,
        None => 0,
    }
}
/// The container name managed for a proxy URL.
pub open spec fn container_name_of(url: Seq<char>) -> Seq<char> {
    let port = port_of(url);
    if 40001 <= port && port <= 40099 {
        "opencode-warp-"@ + decimal((port - 40000) as nat)
    } else {
        "opencode-proxy-"@ + decimal(port as nat)
    }
}

pub fn container_name(url: &str) -> (name: String)
    ensures
        name@ == container_name_of(url@),
{
    let port = extract_port(url);
    if 40001 <= port && port <= 40099 {
        let mut name = String::from_str("opencode-warp-");
        push_decimal(&mut name, (port - 40000) as u64);
        name
    } else {
        let mut name = String::from_str("opencode-proxy-");
        push_decimal(&mut name, port as u64);
        name
    }
}

/// Ports 40004-40005 are protected warm standbys.
pub open spec fn protected_port(port: u16) -> bool {
    port == 40004 || port == 40005
}

/// Ports 40001-40003 are managed primaries.
pub open spec fn managed_port(port: u16) -> bool {
    40001 <= port && port <= 40003
}

pub fn is_protected_proxy_port(port: u16) -> (protected: bool)
    ensures
        protected == protected_port(port),
{
    port == 40004 || port == 40005
}

pub fn is_managed_proxy_port(port: u16) -> (managed: bool)
    ensures
        managed == managed_port(port),
{
    40001 <= port && port <= 40003
}

/// The refusal message for a destructive action on a protected port.
pub open spec fn protected_refusal(port: u16) -> Seq<char> {
    "refusing to modify protected warm-standby proxy port "@ + decimal(port as nat)
        + " (40004-40005 are protected)"@
}

pub fn ensure_not_protected(port: u16) -> (result: Result<(), String>)
    ensures
        match result {
            Ok(()) => !protected_port(port),
            Err(message) => protected_port(port) && message@ == protected_refusal(port),
        },
{
    if is_protected_proxy_port(port) {
        let mut message = String::from_str("refusing to modify protected warm-standby proxy port ");
        push_decimal(&mut message, port as u64);
        push_str(&mut message, " (40004-40005 are protected)");
        Err(message)
    } else {
        Ok(())
    }
}

/// The distinct non-zero ports of `urls`, in first-occurrence order.
pub open spec fn configured_ports_spec(urls: Seq<Seq<char>>) -> Seq<u16>
    decreases urls.len(),
{
    if urls.len() == 0 {
        Seq::empty()
    } else {
        let earlier = configured_ports_spec(urls.drop_last());
        let port = port_of(urls.last());
        if port != 0 && !earlier.contains(port) {
            earlier.push(port)
        } else {
            earlier
        }
    }
}

/// The views of a vector of strings.
pub open spec fn string_views(strings: Seq<String>) -> Seq<Seq<char>> {
    strings.map_values(|s: String| s@)
}

pub fn configured_ports(urls: Option<&Vec<String>>) -> (ports: Vec<u16>)
    ensures
        ports@ == match urls {
            Some(list) => configured_ports_spec(string_views(list@)),
            None => Seq::empty(),
        },
{
    let mut ports: Vec<u16> = Vec::new();
    match urls {
        None => ports,
        Some(list) => {
            let mut i: usize = 0;
            while i < list.len()
                invariant
                    i <= list@.len(),
                    ports@ == configured_ports_spec(string_views(list@.take(i as int))),
                decreases list@.len() - i,
            {
                let port = extract_port(list[i].as_str());
                proof {
                    let prefix = list@.take(i + 1);
                    assert(prefix.drop_last() =~= list@.take(i as int));
                    assert(string_views(prefix).drop_last() =~= string_views(list@.take(i as int)));
                    assert(string_views(prefix).last() == list@[i as int]@);
                }
                if port != 0 && !vec_contains_u16(&ports, port) {
                    ports.push(port);
                }
                i = i + 1;
            }
            assert(list@.take(list@.len() as int) =~= list@);
            ports
        },
    }
}

/// Whether `values` contains `value`.
pub fn vec_contains_u16(values: &Vec<u16>, value: u16) -> (found: bool)
    ensures
        found == values@.contains(value),
{
    let mut i: usize = 0;
    while i < values.len()
        invariant
            i <= values@.len(),
            forall|j: int| 0 <= j < i ==> values@[j] != value,
        decreases values@.len() - i,
    {
        if values[i] == value {
            return true;
        }
        i = i + 1;
    }
    false
}

/// Whether `values` contains `value`.
pub fn vec_contains_usize(values: &Vec<usize>, value: usize) -> (found: bool)
    ensures
        found == values@.contains(value),
{
    let mut i: usize = 0;
    while i < values.len()
        invariant
            i <= values@.len(),
            forall|j: int| 0 <= j < i ==> values@[j] != value,
        decreases values@.len() - i,
    {
        if values[i] == value {
            return true;
        }
        i = i + 1;
    }
    false
}


/// The distinct non-zero ports of the configured primary proxies.
pub fn configured_primary_ports(config: &crate::config::BridgeConfig) -> (ports: Vec<u16>)
    ensures
        ports@ == match config.primary_proxies {
            Some(list) => configured_ports_spec(string_views(list@)),
            None => Seq::empty(),
        },
{
    configured_ports(config.primary_proxies.as_ref())
}

/// The distinct non-zero ports of the configured warm-standby proxies.
pub fn configured_warm_standby_ports(config: &crate::config::BridgeConfig) -> (ports: Vec<u16>)
    ensures
        ports@ == match config.warm_standby_proxies {
            Some(list) => configured_ports_spec(string_views(list@)),
            None => Seq::empty(),
        },
{
    configured_ports(config.warm_standby_proxies.as_ref())
}

/// The fixed primary proxy ports.
pub fn get_primary_ports() -> (ports: [u16; 3])
    ensures
        ports@ == seq![40001u16, 40002u16, 40003u16],
{
    let ports: [u16; 3] = [40001, 40002, 40003];
    assert(ports@ =~= seq![40001u16, 40002u16, 40003u16]);
    ports
}

/// The fixed warm-standby proxy ports.
pub fn get_warm_standby_ports() -> (ports: [u16; 2])
    ensures
        ports@ == seq![40004u16, 40005u16],
{
    let ports: [u16; 2] = [40004, 40005];
    assert(ports@ =~= seq![40004u16, 40005u16]);
    ports
}

/// A single-dimension node status: serving, spare, cooling down until a
/// millisecond deadline, dead after some restart attempts, or starting.
#[derive(Debug, Clone, Copy, PartialEq, Eq, Structural)]
pub enum ProxyStatus {
    Active,
    Spare,
    Cooldown(u64),
    Dead { restart_attempts: u32 },
    Starting,
}

/// The label of each status.
pub open spec fn status_description(status: ProxyStatus) -> Seq<char> {
    match status {
        ProxyStatus::Active => "healthy"@,
        ProxyStatus::Spare => "spare"@,
        ProxyStatus::Cooldown(_) => "cooldown"@,
        ProxyStatus::Dead { .. } => "dead"@,
        ProxyStatus::Starting => "starting"@,
    }
}

impl ProxyStatus {
    /// The human-readable label of the status.
    pub fn description(&self) -> (label: &'static str)
        ensures
            label@ == status_description(*self),
    {
        match self {
            ProxyStatus::Active => "healthy",
            ProxyStatus::Spare => "spare",
            ProxyStatus::Cooldown(_) => "cooldown",
            ProxyStatus::Dead { .. } => "dead",
            ProxyStatus::Starting => "starting",
        }
    }
}

/// What `std::collections::hash_map::DefaultHasher::new()` finishes with
/// after hashing `key` and then `node_id` as `str` values.
pub uninterp spec fn default_hash_pair(key: Seq<char>, node_id: Seq<char>) -> u64;

/// A deterministic 64-bit rendezvous score of a routing key on a node.
///
/// Trusted: hashes `key` and then `node_id` with a fresh `DefaultHasher`
/// (`new` always builds the same keyed hasher, so equal inputs give equal
/// scores within a build) and returns `finish()`.
#[verifier::external_body]
pub fn stable_rendezvous_score(key: &str, node_id: &str) -> (score: u64)
    ensures
        score == default_hash_pair(key@, node_id@),
{
    let mut hasher = std::collections::hash_map::DefaultHasher::new();
    key.hash(&mut hasher);
    node_id.hash(&mut hasher);
    hasher.finish()
}

} // verus!
