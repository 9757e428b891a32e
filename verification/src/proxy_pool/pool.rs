//! Egress-pool construction, request leases, and lifecycle guards.

use crate::proxy_pool::types::{
    container_name, container_name_of, extract_port, is_managed_proxy_port, is_protected_proxy_port,
    managed_port, port_of, protected_port, string_views, CircuitState, EgressLease,
    EgressRole, HealthState, LifecyclePolicy, ProxyEntry, ProxyPool,
};
use crate::text::{decimal, push_decimal, push_str, slice_range, str_chars};
use vstd::prelude::*;

verus! {

/// Per-client request timeout of pool clients, in seconds.
pub const CLIENT_TIMEOUT_SECS: u64 = 600;

/// Idle connections a pool client keeps per host.
pub const CLIENT_MAX_IDLE_PER_HOST: usize = 10;

/// Builds an HTTP client that sends all traffic through the proxy at `url`
/// (`reqwest::Proxy::all`, then `reqwest::ClientBuilder::build`).
///
/// `None` when reqwest rejects the proxy URL or cannot build the client.
/// Nothing is stated of when that happens: it rests on reqwest's URL parser
/// and on the TLS backend it initializes.
#[verifier::external_body]
fn build_proxy_client(url: &str, timeout_secs: u64, max_idle_per_host: usize) -> Option<reqwest::Client> {
    let proxy = reqwest::Proxy::all(url).ok()?;
    reqwest::Client::builder()
        .proxy(proxy)
        .timeout(std::time::Duration::from_secs(timeout_secs))
        .pool_max_idle_per_host(max_idle_per_host)
        .build()
        .ok()
}

/// `socks5://` URLs resolve names locally; the pool rewrites them to
/// `socks5h://` so that DNS resolution happens at the exit.
pub open spec fn normalized_proxy_url(url: Seq<char>) -> Seq<char> {
    if url.len() >= 9 && url.subrange(0, 9) == "socks5://"@ {
        "socks5h://"@ + url.subrange(9, url.len() as int)
    } else {
        url
    }
}

/// The proxy URL with `socks5://` rewritten to `socks5h://`.
pub fn normalize_proxy_url(url: &str) -> (normalized: String)
    ensures
        normalized@ == normalized_proxy_url(url@),
{
    let chars = str_chars(url);
    let prefix = str_chars("socks5://");
    let ghost lit = "socks5://"@;
    assert(prefix@ == lit);
    proof {
        reveal_strlit("socks5://");
    }
    if crate::text::matches_at(chars.as_slice(), prefix.as_slice(), 0) {
        assert(chars@.subrange(0, 9) == lit);
        let mut normalized = String::from_str("socks5h://");
        let rest = slice_range(chars.as_slice(), 9, chars.len());
        let tail = crate::text::string_from_chars(rest.as_slice());
        push_str(&mut normalized, tail.as_str());
        normalized
    } else {
        assert(!(chars@.len() >= 9 && chars@.subrange(0, 9) == lit));
        String::from_str(url)
    }
}

/// The role a port implies.
pub open spec fn role_of_port(port: u16) -> EgressRole {
    if protected_port(port) { EgressRole::WarmStandby } else { EgressRole::Primary }
}

/// The lifecycle policy a port implies.
pub open spec fn lifecycle_of_port(port: u16) -> LifecyclePolicy {
    if managed_port(port) { LifecyclePolicy::Managed } else { LifecyclePolicy::Protected }
}

/// `entry` is the freshly built node for `url`: healthy, closed, with no
/// history, routed when it is a primary.
pub open spec fn initial_entry(entry: ProxyEntry, url: Seq<char>) -> bool {
    let port = port_of(url);
    &&& entry.url@ == normalized_proxy_url(url)
    &&& entry.port == port
    &&& entry.id@ == container_name_of(url)
    &&& entry.container_name@ == container_name_of(url)
    &&& entry.role == role_of_port(port)
    &&& entry.lifecycle == lifecycle_of_port(port)
    &&& entry.routing_enabled == (role_of_port(port) == EgressRole::Primary)
    &&& !entry.draining
    &&& entry.health == HealthState::Healthy
    &&& entry.circuit == CircuitState::Closed
    &&& entry.consecutive_failures == 0
    &&& entry.consecutive_successes == 0
    &&& entry.restart_attempts == 0
    &&& entry.cooldown_until is None
    &&& entry.rate_limit_until is None
    &&& entry.quarantined_exit_ip is None
    &&& entry.recovery_cause is None
    &&& entry.exit_identity is None
    &&& entry.duplicate_of is None
    &&& entry.active_requests == 0
}

/// What the pool hands reqwest's client builder for a proxy URL: the URL
/// with `socks5://` rewritten to `socks5h://`, the request timeout in
/// seconds and the idle connections kept per host.
pub fn proxy_client_settings(url: &str) -> (settings: (String, u64, usize))
    ensures
        settings.0@ == normalized_proxy_url(url@),
        settings.1 == CLIENT_TIMEOUT_SECS,
        settings.2 == CLIENT_MAX_IDLE_PER_HOST,
{
    (normalize_proxy_url(url), CLIENT_TIMEOUT_SECS, CLIENT_MAX_IDLE_PER_HOST)
}

/// The node for `url` given the outcome of building its HTTP client: none
/// where no client was built, else the fresh node holding that client.
pub fn entry_from_client(url: &String, client: Option<reqwest::Client>) -> (entry: Option<ProxyEntry>)
    ensures
        entry is Some <==> client is Some,
        entry matches Some(e) ==> initial_entry(e, url@),
{
    let client = match client {
        Some(client) => client,
        None => {
            return None;
        },
    };
    let normalized = normalize_proxy_url(url.as_str());
    let port = extract_port(url.as_str());
    let name = container_name(url.as_str());
    let role = if is_protected_proxy_port(port) {
        EgressRole::WarmStandby
    } else {
        EgressRole::Primary
    };
    let lifecycle = if is_managed_proxy_port(port) {
        LifecyclePolicy::Managed
    } else {
        LifecyclePolicy::Protected
    };
    Some(ProxyEntry {
        id: name.clone(),
        url: normalized,
        client,
        port,
        container_name: name,
        role,
        lifecycle,
        routing_enabled: role == EgressRole::Primary,
        draining: false,
        health: HealthState::Healthy,
        circuit: CircuitState::Closed,
        consecutive_failures: 0,
        consecutive_successes: 0,
        restart_attempts: 0,
        cooldown_until: None,
        rate_limit_until: None,
        quarantined_exit_ip: None,
        recovery_cause: None,
        exit_identity: None,
        duplicate_of: None,
        active_requests: 0,
    })
}

/// The node for `url`: its client is built from `proxy_client_settings`
/// (whether reqwest builds it rests on its URL parser and TLS set-up), and
/// a built client yields the fresh node.
fn build_entry(url: &String) -> (entry: Option<ProxyEntry>)
    ensures
        entry matches Some(e) ==> initial_entry(e, url@),
{
    let settings = proxy_client_settings(url.as_str());
    let client = build_proxy_client(settings.0.as_str(), settings.1, settings.2);
    entry_from_client(url, client)
}

/// The indices of the built clients, in order.
pub open spec fn built_indices(clients: Seq<Option<reqwest::Client>>) -> Seq<int>
    decreases clients.len(),
{
    if clients.len() == 0 {
        Seq::empty()
    } else if clients.last() is Some {
        built_indices(clients.drop_last()).push(clients.len() - 1)
    } else {
        built_indices(clients.drop_last())
    }
}

/// Number of primaries among the first `n` nodes.
pub open spec fn primaries_before(nodes: Seq<ProxyEntry>, n: int) -> nat
    decreases n,
{
    if n <= 0 {
        0
    } else {
        primaries_before(nodes, n - 1) + if nodes[n - 1].role == EgressRole::Primary { 1nat } else { 0nat }
    }
}

/// Number of URLs whose port is not a protected standby port.
pub open spec fn unprotected_urls(urls: Seq<Seq<char>>, n: int) -> nat
    decreases n,
{
    if n <= 0 {
        0
    } else {
        unprotected_urls(urls, n - 1) + if protected_port(port_of(urls[n - 1])) { 0nat } else { 1nat }
    }
}

/// `src` maps each node to the URL it was built from, in increasing order.
pub open spec fn sources_ok(nodes: Seq<ProxyEntry>, urls: Seq<Seq<char>>, src: Seq<int>) -> bool {
    &&& src.len() == nodes.len()
    &&& forall|i: int| 0 <= i < src.len() ==> 0 <= #[trigger] src[i] < urls.len()
    &&& forall|i: int, j: int| 0 <= i < j < src.len() ==> src[i] < src[j]
    &&& forall|i: int|
        0 <= i < nodes.len() ==> initial_entry_except_routing(#[trigger] nodes[i], urls[src[i]])
}

/// The first `active` primaries of `nodes` are in the serving set.
pub open spec fn serving_set_ok(nodes: Seq<ProxyEntry>, active: nat) -> bool {
    forall|i: int|
        0 <= i < nodes.len() ==> (#[trigger] nodes[i]).routing_enabled == (nodes[i].role
            == EgressRole::Primary && primaries_before(nodes, i) < active)
}

/// `nodes` are the successfully built nodes of `urls`, in URL order, with
/// the first `active` primaries in the serving set.
pub open spec fn built_from(nodes: Seq<ProxyEntry>, urls: Seq<Seq<char>>, active: nat) -> bool {
    &&& exists|src: Seq<int>| #[trigger] sources_ok(nodes, urls, src)
    &&& serving_set_ok(nodes, active)
}

/// `initial_entry` apart from the serving-set flag.
pub open spec fn initial_entry_except_routing(entry: ProxyEntry, url: Seq<char>) -> bool {
    initial_entry(ProxyEntry { routing_enabled: role_of_port(port_of(url)) == EgressRole::Primary, ..entry }, url)
}

/// The message for an index outside the pool.
pub open spec fn unknown_index_message(index: usize) -> Seq<char> {
    "unknown proxy index "@ + decimal(index as nat)
}

/// The message for a protected node.
pub open spec fn protected_node_message(id: Seq<char>) -> Seq<char> {
    "node "@ + id + " is protected"@
}

/// The message for a node that still carries request leases.
pub open spec fn leased_node_message(id: Seq<char>, leases: usize) -> Seq<char> {
    "node "@ + id + " has "@ + decimal(leases as nat) + " active request lease(s)"@
}

pub fn unknown_index_error(index: usize) -> (message: String)
    ensures
        message@ == unknown_index_message(index),
{
    let mut message = String::from_str("unknown proxy index ");
    push_decimal(&mut message, index as u64);
    message
}

pub fn protected_node_error(id: &String) -> (message: String)
    ensures
        message@ == protected_node_message(id@),
{
    let mut message = String::from_str("node ");
    push_str(&mut message, id.as_str());
    push_str(&mut message, " is protected");
    message
}

impl ProxyPool {
    /// Pool of all `proxy_urls`; every primary is in the serving set.
    pub fn new(proxy_urls: &[String]) -> (pool: ProxyPool)
        ensures
            built_from(pool.proxies@, string_views(proxy_urls@), unprotected_urls(
                string_views(proxy_urls@),
                proxy_urls@.len() as int,
            )),
            pool.active_count == crate::proxy_pool::pool::min_nat(
                unprotected_urls(string_views(proxy_urls@), proxy_urls@.len() as int),
                primaries_before(pool.proxies@, pool.proxies@.len() as int),
            ),
            pool.restart_queue@.len() == 0,
            !pool.require_verified_exit_ip,
            pool.identity_ttl == 300,
            pool.max_restart_attempts == 3,
            pool.round_robin_counter == 0,
    {
        let mut primary_count: usize = 0;
        let mut i: usize = 0;
        while i < proxy_urls.len()
            invariant
                i <= proxy_urls@.len(),
                primary_count == unprotected_urls(string_views(proxy_urls@), i as int),
                primary_count <= i,
            decreases proxy_urls@.len() - i,
        {
            if !is_protected_proxy_port(extract_port(proxy_urls[i].as_str())) {
                primary_count = primary_count + 1;
            }
            i = i + 1;
        }
        ProxyPool::new_with_active_count(proxy_urls, primary_count)
    }

    /// Pool of all `proxy_urls` with at most `requested_active_count` primaries
    /// in the serving set.
    pub fn new_with_active_count(proxy_urls: &[String], requested_active_count: usize) -> (pool: ProxyPool)
        ensures
            built_from(pool.proxies@, string_views(proxy_urls@), requested_active_count as nat),
            pool.active_count == min_nat(
                requested_active_count as nat,
                primaries_before(pool.proxies@, pool.proxies@.len() as int),
            ),
            pool.restart_queue@.len() == 0,
            !pool.require_verified_exit_ip,
            pool.identity_ttl == 300,
            pool.max_restart_attempts == 3,
            pool.round_robin_counter == 0,
    {
        let ghost urls = string_views(proxy_urls@);
        let (proxies, Ghost(src)) = build_entries(proxy_urls);
        ProxyPool::assemble(proxies, Ghost(src), Ghost(urls), requested_active_count)
    }

    /// The pool over built nodes `proxies` (node `k` from URL `src[k]`),
    /// with at most `requested_active_count` primaries serving.
    fn assemble(
        proxies: Vec<ProxyEntry>,
        Ghost(src): Ghost<Seq<int>>,
        Ghost(urls): Ghost<Seq<Seq<char>>>,
        requested_active_count: usize,
    ) -> (pool: ProxyPool)
        requires
            src.len() == proxies@.len(),
            forall|k: int| 0 <= k < src.len() ==> 0 <= #[trigger] src[k] < urls.len(),
            forall|k: int, j: int| 0 <= k < j < src.len() ==> src[k] < src[j],
            forall|k: int| 0 <= k < proxies@.len() ==> initial_entry(#[trigger] proxies@[k], urls[src[k]]),
        ensures
            sources_ok(pool.proxies@, urls, src),
            serving_set_ok(pool.proxies@, requested_active_count as nat),
            pool.active_count == min_nat(
                requested_active_count as nat,
                primaries_before(pool.proxies@, pool.proxies@.len() as int),
            ),
            pool.restart_queue@.len() == 0,
            !pool.require_verified_exit_ip,
            pool.identity_ttl == 300,
            pool.max_restart_attempts == 3,
            pool.round_robin_counter == 0,
    {
        let mut proxies = proxies;
        let primary_count = count_primaries(&proxies);
        let active_count = if requested_active_count < primary_count {
            requested_active_count
        } else {
            primary_count
        };
        let ghost before = proxies@;
        assign_serving_set(&mut proxies, active_count);
        proof {
            lemma_serving_set(before, proxies@, urls, src, requested_active_count, active_count);
        }
        ProxyPool {
            proxies,
            active_count,
            restart_queue: Vec::new(),
            require_verified_exit_ip: false,
            identity_ttl: 300,
            max_restart_attempts: 3,
            round_robin_counter: 0,
            clock: crate::clock::MonotonicClock::start(),
        }
    }

    /// Pool of the nodes of `proxy_urls` whose HTTP clients were built:
    /// `clients[k]` is the outcome of building the client of `proxy_urls[k]`.
    /// The nodes are exactly those of the URLs with a client, in URL order,
    /// and at most `requested_active_count` primaries serve.
    pub fn from_clients(
        proxy_urls: &[String],
        clients: Vec<Option<reqwest::Client>>,
        requested_active_count: usize,
    ) -> (pool: ProxyPool)
        requires
            clients@.len() == proxy_urls@.len(),
        ensures
            sources_ok(pool.proxies@, string_views(proxy_urls@), built_indices(clients@)),
            serving_set_ok(pool.proxies@, requested_active_count as nat),
            pool.active_count == min_nat(
                requested_active_count as nat,
                primaries_before(pool.proxies@, pool.proxies@.len() as int),
            ),
            pool.restart_queue@.len() == 0,
            !pool.require_verified_exit_ip,
            pool.identity_ttl == 300,
            pool.max_restart_attempts == 3,
            pool.round_robin_counter == 0,
    {
        let ghost urls = string_views(proxy_urls@);
        let ghost outcomes = clients@;
        let mut proxies: Vec<ProxyEntry> = Vec::new();
        let ghost mut src: Seq<int> = Seq::empty();
        let mut clients = clients;
        let mut rest: Vec<Option<reqwest::Client>> = Vec::new();
        // Taken from the back, so the clients come out without copying.
        let mut i: usize = clients.len();
        while i > 0
            invariant
                i <= outcomes.len(),
                outcomes.len() == proxy_urls@.len(),
                clients@ == outcomes.take(i as int),
                rest@.len() == outcomes.len() - i,
                forall|k: int| 0 <= k < rest@.len() ==> (#[trigger] rest@[k]) == outcomes[outcomes.len() - 1 - k],
            decreases i,
        {
            let c = clients.pop().unwrap();
            rest.push(c);
            i = i - 1;
            assert(clients@ =~= outcomes.take(i as int));
        }
        // `rest` holds the outcomes in reverse; walk it from the back.
        let mut j: usize = 0;
        while j < proxy_urls.len()
            invariant
                j <= proxy_urls@.len(),
                outcomes.len() == proxy_urls@.len(),
                urls == string_views(proxy_urls@),
                rest@.len() == outcomes.len() - j,
                forall|k: int| 0 <= k < rest@.len() ==> (#[trigger] rest@[k]) == outcomes[outcomes.len() - 1 - k],
                src == built_indices(outcomes.take(j as int)),
                src.len() == proxies@.len(),
                forall|k: int| 0 <= k < src.len() ==> 0 <= #[trigger] src[k] < j,
                forall|k: int, m: int| 0 <= k < m < src.len() ==> src[k] < src[m],
                forall|k: int| 0 <= k < proxies@.len() ==> initial_entry(#[trigger] proxies@[k], urls[src[k]]),
            decreases proxy_urls@.len() - j,
        {
            let c = rest.pop().unwrap();
            assert(c == outcomes[j as int]);
            proof {
                assert(outcomes.take(j + 1).drop_last() =~= outcomes.take(j as int));
                assert(outcomes.take(j + 1).last() == outcomes[j as int]);
            }
            match entry_from_client(&proxy_urls[j], c) {
                Some(entry) => {
                    proxies.push(entry);
                    proof {
                        src = src.push(j as int);
                    }
                },
                None => {},
            }
            j = j + 1;
        }
        assert(outcomes.take(outcomes.len() as int) =~= outcomes);
        ProxyPool::assemble(proxies, Ghost(src), Ghost(urls), requested_active_count)
    }

    /// `new_with_active_count` with an exit-identity requirement.
    pub fn new_with_policy(
        proxy_urls: &[String],
        requested_active_count: usize,
        require_verified_exit_ip: bool,
    ) -> (pool: ProxyPool)
        ensures
            built_from(pool.proxies@, string_views(proxy_urls@), requested_active_count as nat),
            pool.active_count == min_nat(
                requested_active_count as nat,
                primaries_before(pool.proxies@, pool.proxies@.len() as int),
            ),
            pool.restart_queue@.len() == 0,
            pool.require_verified_exit_ip == require_verified_exit_ip,
            pool.identity_ttl == 300,
            pool.max_restart_attempts == 3,
            pool.round_robin_counter == 0,
    {
        let mut pool = ProxyPool::new_with_active_count(proxy_urls, requested_active_count);
        pool.require_verified_exit_ip = require_verified_exit_ip;
        pool
    }

    /// `new_with_policy` with an identity time-to-live in seconds.
    pub fn new_with_egress_policy(
        proxy_urls: &[String],
        requested_active_count: usize,
        require_verified_exit_ip: bool,
        identity_ttl_secs: u64,
    ) -> (pool: ProxyPool)
        ensures
            built_from(pool.proxies@, string_views(proxy_urls@), requested_active_count as nat),
            pool.active_count == min_nat(
                requested_active_count as nat,
                primaries_before(pool.proxies@, pool.proxies@.len() as int),
            ),
            pool.restart_queue@.len() == 0,
            pool.require_verified_exit_ip == require_verified_exit_ip,
            pool.identity_ttl == identity_ttl_secs,
            pool.max_restart_attempts == 3,
            pool.round_robin_counter == 0,
    {
        let mut pool = ProxyPool::new_with_policy(proxy_urls, requested_active_count, require_verified_exit_ip);
        pool.identity_ttl = identity_ttl_secs;
        pool
    }

    /// Sets the bounded restart budget of managed nodes.
    pub fn set_max_restart_attempts(&mut self, attempts: u32)
        ensures
            *final(self) == (ProxyPool { max_restart_attempts: attempts, ..*old(self) }),
    {
        self.max_restart_attempts = attempts;
    }

    /// Takes the whole restart queue, leaving it empty.
    pub fn drain_restart_queue(&mut self) -> (queued: Vec<usize>)
        ensures
            queued@ == old(self).restart_queue@,
            final(self).restart_queue@.len() == 0,
            final(self).proxies@ == old(self).proxies@,
            final(self).active_count == old(self).active_count,
            final(self).require_verified_exit_ip == old(self).require_verified_exit_ip,
            final(self).identity_ttl == old(self).identity_ttl,
            final(self).max_restart_attempts == old(self).max_restart_attempts,
            final(self).round_robin_counter == old(self).round_robin_counter,
    {
        let mut queued: Vec<usize> = Vec::new();
        std::mem::swap(&mut queued, &mut self.restart_queue);
        queued
    }

    /// Takes a request lease on the node at `index`.
    pub fn begin_lease(&mut self, index: usize) -> (lease: Option<EgressLease>)
        ensures
            final(self).proxies@.len() == old(self).proxies@.len(),
            index < old(self).proxies@.len() ==> {
                &&& lease == Some(EgressLease { index })
                &&& final(self).proxies@ == old(self).proxies@.update(
                    index as int,
                    ProxyEntry {
                        active_requests: sat_inc(old(self).proxies@[index as int].active_requests),
                        ..old(self).proxies@[index as int]
                    },
                )
            },
            index >= old(self).proxies@.len() ==> lease is None && final(self).proxies@
                == old(self).proxies@,
            final(self).restart_queue@ == old(self).restart_queue@,
            final(self).active_count == old(self).active_count,
            final(self).require_verified_exit_ip == old(self).require_verified_exit_ip,
            final(self).identity_ttl == old(self).identity_ttl,
            final(self).max_restart_attempts == old(self).max_restart_attempts,
            final(self).round_robin_counter == old(self).round_robin_counter,
    {
        if index >= self.proxies.len() {
            return None;
        }
        let count = self.proxies[index].active_requests;
        self.proxies[index].active_requests = count.saturating_add(1);
        Some(EgressLease { index })
    }

    /// Hands a request lease back.
    pub fn release_lease(&mut self, lease: EgressLease)
        ensures
            lease.index < old(self).proxies@.len() ==> final(self).proxies@ == old(self).proxies@.update(
                lease.index as int,
                ProxyEntry {
                    active_requests: sat_dec(old(self).proxies@[lease.index as int].active_requests),
                    ..old(self).proxies@[lease.index as int]
                },
            ),
            lease.index >= old(self).proxies@.len() ==> final(self).proxies@ == old(self).proxies@,
            final(self).restart_queue@ == old(self).restart_queue@,
            final(self).active_count == old(self).active_count,
            final(self).require_verified_exit_ip == old(self).require_verified_exit_ip,
            final(self).identity_ttl == old(self).identity_ttl,
            final(self).max_restart_attempts == old(self).max_restart_attempts,
            final(self).round_robin_counter == old(self).round_robin_counter,
    {
        let index = lease.index;
        if index < self.proxies.len() {
            let count = self.proxies[index].active_requests;
            self.proxies[index].active_requests = count.saturating_sub(1);
        }
    }

    /// Whether the node at `index` may be restarted or otherwise modified:
    /// it exists, is managed, and holds no request lease.
    pub fn can_modify_node(&self, index: usize) -> (result: Result<(), String>)
        ensures
            modify_verdict(self.proxies@, index, result),
    {
        if index >= self.proxies.len() {
            return Err(unknown_index_error(index));
        }
        let node = &self.proxies[index];
        if node.lifecycle == LifecyclePolicy::Protected {
            return Err(protected_node_error(&node.id));
        }
        let active_requests = node.active_request_count();
        if active_requests > 0 {
            let mut message = String::from_str("node ");
            push_str(&mut message, node.id.as_str());
            push_str(&mut message, " has ");
            push_decimal(&mut message, active_requests as u64);
            push_str(&mut message, " active request lease(s)");
            return Err(message);
        }
        Ok(())
    }
}

/// `result` is what `can_modify_node(index)` answers for `nodes`.
pub open spec fn modify_verdict(nodes: Seq<ProxyEntry>, index: usize, result: Result<(), String>) -> bool {
    if index >= nodes.len() {
        result matches Err(message) && message@ == unknown_index_message(index)
    } else if nodes[index as int].lifecycle == LifecyclePolicy::Protected {
        result matches Err(message) && message@ == protected_node_message(nodes[index as int].id@)
    } else if nodes[index as int].active_requests > 0 {
        result matches Err(message) && message@ == leased_node_message(
            nodes[index as int].id@,
            nodes[index as int].active_requests,
        )
    } else {
        result is Ok
    }
}

fn build_entries(proxy_urls: &[String]) -> (built: (Vec<ProxyEntry>, Ghost<Seq<int>>))
    ensures
        built.1@.len() == built.0@.len(),
        built.0@.len() <= proxy_urls@.len(),
        forall|k: int| 0 <= k < built.1@.len() ==> 0 <= #[trigger] built.1@[k] < proxy_urls@.len(),
        forall|k: int, j: int| 0 <= k < j < built.1@.len() ==> built.1@[k] < built.1@[j],
        forall|k: int|
            0 <= k < built.0@.len() ==> initial_entry(
                #[trigger] built.0@[k],
                string_views(proxy_urls@)[built.1@[k]],
            ),
{
    let ghost urls = string_views(proxy_urls@);
    let mut proxies: Vec<ProxyEntry> = Vec::new();
    let ghost mut src: Seq<int> = Seq::empty();
    let mut i: usize = 0;
    while i < proxy_urls.len()
        invariant
            i <= proxy_urls@.len(),
            urls == string_views(proxy_urls@),
            src.len() == proxies@.len(),
            proxies@.len() <= i,
            forall|k: int| 0 <= k < src.len() ==> 0 <= #[trigger] src[k] < i,
            forall|k: int, j: int| 0 <= k < j < src.len() ==> src[k] < src[j],
            forall|k: int| 0 <= k < proxies@.len() ==> initial_entry(#[trigger] proxies@[k], urls[src[k]]),
        decreases proxy_urls@.len() - i,
    {
        match build_entry(&proxy_urls[i]) {
            Some(entry) => {
                proxies.push(entry);
                proof {
                    src = src.push(i as int);
                }
            },
            None => {},
        }
        i = i + 1;
    }
    (proxies, Ghost(src))
}

fn count_primaries(proxies: &Vec<ProxyEntry>) -> (count: usize)
    ensures
        count == primaries_before(proxies@, proxies@.len() as int),
{
    let mut count: usize = 0;
    let mut k: usize = 0;
    while k < proxies.len()
        invariant
            k <= proxies@.len(),
            count == primaries_before(proxies@, k as int),
            count <= k,
        decreases proxies@.len() - k,
    {
        if proxies[k].role == EgressRole::Primary {
            count = count + 1;
        }
        k = k + 1;
    }
    count
}

fn assign_serving_set(proxies: &mut Vec<ProxyEntry>, active_count: usize)
    ensures
        final(proxies)@.len() == old(proxies)@.len(),
        forall|j: int|
            0 <= j < old(proxies)@.len() ==> (#[trigger] final(proxies)@[j]) == (if old(proxies)@[j].role
                == EgressRole::Primary {
                ProxyEntry {
                    routing_enabled: primaries_before(old(proxies)@, j) < active_count,
                    ..old(proxies)@[j]
                }
            } else {
                old(proxies)@[j]
            }),
{
    let ghost before = proxies@;
    let mut ordinal: usize = 0;
    let mut k: usize = 0;
    while k < proxies.len()
        invariant
            k <= proxies@.len(),
            proxies@.len() == before.len(),
            ordinal == primaries_before(before, k as int),
            ordinal <= k,
            forall|j: int|
                0 <= j < proxies@.len() ==> (#[trigger] proxies@[j]) == (if j < k && before[j].role
                    == EgressRole::Primary {
                    ProxyEntry { routing_enabled: primaries_before(before, j) < active_count, ..before[j] }
                } else {
                    before[j]
                }),
        decreases proxies@.len() - k,
    {
        if proxies[k].role == EgressRole::Primary {
            proxies[k].routing_enabled = ordinal < active_count;
            ordinal = ordinal + 1;
        }
        k = k + 1;
    }
}

proof fn lemma_serving_set(
    before: Seq<ProxyEntry>,
    after: Seq<ProxyEntry>,
    urls: Seq<Seq<char>>,
    src: Seq<int>,
    requested: usize,
    active: usize,
)
    requires
        src.len() == before.len(),
        forall|k: int| 0 <= k < src.len() ==> 0 <= #[trigger] src[k] < urls.len(),
        forall|k: int, j: int| 0 <= k < j < src.len() ==> src[k] < src[j],
        forall|k: int| 0 <= k < before.len() ==> initial_entry(#[trigger] before[k], urls[src[k]]),
        active == min_nat(requested as nat, primaries_before(before, before.len() as int)),
        after.len() == before.len(),
        forall|j: int|
            0 <= j < before.len() ==> (#[trigger] after[j]) == (if before[j].role == EgressRole::Primary {
                ProxyEntry { routing_enabled: primaries_before(before, j) < active, ..before[j] }
            } else {
                before[j]
            }),
    ensures
        built_from(after, urls, requested as nat),
        sources_ok(after, urls, src),
        serving_set_ok(after, requested as nat),
        active == min_nat(requested as nat, primaries_before(after, after.len() as int)),
{
    assert forall|j: int| 0 <= j < after.len() implies (#[trigger] after[j]).role == before[j].role by {}
    lemma_primaries_before_roles(after, before, after.len() as int);
    assert forall|j: int| 0 <= j < after.len() implies initial_entry_except_routing(
        #[trigger] after[j],
        urls[src[j]],
    ) by {
        assert(initial_entry(before[j], urls[src[j]]));
    }
    assert(sources_ok(after, urls, src));
    assert forall|i: int| 0 <= i < after.len() implies (#[trigger] after[i]).routing_enabled == (
    after[i].role == EgressRole::Primary && primaries_before(after, i) < requested as nat) by {
        lemma_primaries_before_roles(after, before, i);
        if before[i].role == EgressRole::Primary {
            lemma_primary_strictly_before_total(before, i);
        } else {
            assert(initial_entry(before[i], urls[src[i]]));
        }
    }
}

proof fn lemma_primary_strictly_before_total(nodes: Seq<ProxyEntry>, i: int)
    requires
        0 <= i < nodes.len(),
        nodes[i].role == EgressRole::Primary,
    ensures
        primaries_before(nodes, i) < primaries_before(nodes, nodes.len() as int),
{
    assert(primaries_before(nodes, i + 1) == primaries_before(nodes, i) + 1);
    lemma_primaries_before_bound(nodes, i + 1);
}

proof fn lemma_primaries_before_bound(nodes: Seq<ProxyEntry>, n: int)
    requires
        0 <= n <= nodes.len(),
    ensures
        primaries_before(nodes, n) <= primaries_before(nodes, nodes.len() as int),
    decreases nodes.len() - n,
{
    if n < nodes.len() {
        lemma_primaries_before_bound(nodes, n + 1);
    }
}

/// `n + 1`, saturating at `usize::MAX`.
pub open spec fn sat_inc(n: usize) -> usize {
    if n < usize::MAX { (n + 1) as usize } else { n }
}

/// `n - 1`, saturating at 0.
pub open spec fn sat_dec(n: usize) -> usize {
    if n > 0 { (n - 1) as usize } else { 0 }
}

/// The smaller of two naturals.
pub open spec fn min_nat(a: nat, b: nat) -> nat {
    if a < b { a } else { b }
}

proof fn lemma_primaries_before_roles(a: Seq<ProxyEntry>, b: Seq<ProxyEntry>, n: int)
    requires
        a.len() == b.len(),
        0 <= n <= a.len(),
        forall|j: int| 0 <= j < a.len() ==> (#[trigger] a[j]).role == b[j].role,
    ensures
        primaries_before(a, n) == primaries_before(b, n),
    decreases n,
{
    if n > 0 {
        lemma_primaries_before_roles(a, b, n - 1);
        assert(a[n - 1].role == b[n - 1].role);
    }
}


impl ProxyEntry {
    /// Takes a request lease on this node (the node at `index` of its pool).
    pub fn acquire_lease(&mut self, index: usize) -> (lease: EgressLease)
        ensures
            lease == (EgressLease { index }),
            *final(self) == (ProxyEntry { active_requests: sat_inc(old(self).active_requests), ..*old(self) }),
    {
        self.active_requests = self.active_requests.saturating_add(1);
        EgressLease { index }
    }
}

} // verus!
