//! Exit-identity observations: parsing what an identity endpoint answers,
//! reaching consensus across endpoints, and telling public addresses from
//! private, reserved and documentation ones.

use crate::text::first_occurrence;
use crate::ip::{
    ip_display, ip_parse, ip_to_string, is_public_ip, parse_ip, public_ip,
    IpAddress,
};
use crate::proxy_pool::types::{
    fresh_identity, CircuitState, EgressRole, ExitIdentity, HealthState, ProxyEntry, ProxyPool,
};
use crate::text::{
    char_views, chars_equal, eq_ignore_ascii_case, find_from, lex_less, lines, occurs_at, pieces,
    seq_lex_lt, split_lines, split_pieces, str_chars, str_eq_ignore_ascii_case, string_from_range,
    trim, trim_bounds, Separator, lemma_lex_irreflexive, lemma_lex_asymmetric,
    lemma_lex_transitive, decimal, push_decimal, push_str,
};
use vstd::prelude::*;

verus! {

/// The first piece of `pieces` that parses, once trimmed, as a public
/// address.
pub open spec fn first_public_among(candidates: Seq<Seq<char>>) -> Option<IpAddress>
    decreases candidates.len(),
{
    if candidates.len() == 0 {
        None
    } else {
        let parsed = ip_parse(trim(candidates[0]));
        if parsed is Some && public_ip(parsed->0) {
            parsed
        } else {
            first_public_among(candidates.drop_first())
        }
    }
}

/// The first public address among the comma- or whitespace-separated
/// candidates of `value`.
pub open spec fn first_public_ip_spec(value: Seq<char>) -> Option<IpAddress> {
    first_public_among(pieces(value, Separator::CommaOrSpace))
}

/// The first public address in `value`.
pub fn first_public_ip(value: &[char]) -> (found: Option<IpAddress>)
    ensures
        found == first_public_ip_spec(value@),
{
    let parts = split_pieces(value, Separator::CommaOrSpace);
    let ghost all = char_views(parts@);
    let mut i: usize = 0;
    assert(all.skip(0) =~= all);
    while i < parts.len()
        invariant
            i <= parts@.len(),
            all == char_views(parts@),
            all == pieces(value@, Separator::CommaOrSpace),
            first_public_among(all) == first_public_among(all.skip(i as int)),
        decreases parts@.len() - i,
    {
        let part = &parts[i];
        let (from, to) = trim_bounds(part.as_slice(), 0, part.len());
        let candidate = string_from_range(part.as_slice(), from, to);
        proof {
            assert(part@.subrange(0, part@.len() as int) =~= part@);
            assert(all.skip(i as int)[0] == part@);
            assert(all.skip(i as int).drop_first() =~= all.skip(i + 1));
        }
        let parsed = parse_ip(candidate.as_str());
        assert(candidate@ == trim(all.skip(i as int)[0]));
        match parsed {
            Some(ip) => {
                if is_public_ip(ip) {
                    assert(first_public_among(all.skip(i as int)) == Some(ip));
                    return Some(ip);
                }
            },
            None => {},
        }
        i = i + 1;
    }
    None
}

/// What one identity endpoint reported.
#[derive(Debug, Clone, PartialEq, Eq)]
pub struct ProbeObservation {
    pub ip: IpAddress,
    pub provider: Option<String>,
    pub colo: Option<String>,
    /// The Cloudflare trace's WARP flag, where the endpoint reported one.
    pub warp: Option<bool>,
}

/// The view of an optional string.
pub open spec fn opt_view(o: Option<String>) -> Option<Seq<char>> {
    match o {
        Some(s) => Some(s@),
        None => None,
    }
}

/// The string a JSON text holds under `key` at its top level
/// (`serde_json::from_str::<Value>`, then `get(key)` and `as_str`).
pub uninterp spec fn json_str_field(text: Seq<char>, key: Seq<char>) -> Option<Seq<char>>;

/// Reads the top-level string field `key` of a JSON text with serde_json;
/// `None` where the text is no JSON, or the field is missing or no string.
#[verifier::external_body]
fn json_string_field(text: &str, key: &str) -> (field: Option<String>)
    ensures
        opt_view(field) == json_str_field(text@, key@),
{
    match serde_json::from_str::<serde_json::Value>(text) {
        Ok(value) => value.get(key).and_then(serde_json::Value::as_str).map(|s| s.to_string()),
        Err(_) => None,
    }
}

/// `line` split at its first `=` into trimmed key and value.
pub open spec fn key_value(line: Seq<char>) -> Option<(Seq<char>, Seq<char>)> {
    match first_occurrence(line, seq!['='], 0) {
        Some(k) => Some((trim(line.take(k)), trim(line.skip(k + 1)))),
        None => None,
    }
}

/// The value of the last `key=value` line whose key is `key`.
pub open spec fn trace_field(ls: Seq<Seq<char>>, key: Seq<char>) -> Option<Seq<char>>
    decreases ls.len(),
{
    if ls.len() == 0 {
        None
    } else {
        match key_value(ls.last()) {
            Some((k, v)) => if k == key {
                Some(v)
            } else {
                trace_field(ls.drop_last(), key)
            },
            None => trace_field(ls.drop_last(), key),
        }
    }
}

/// The public address a JSON answer reports under `ip`, `query` or
/// `origin`, in that order.
pub open spec fn json_ip(t: Seq<char>) -> Option<IpAddress> {
    let by_ip = match json_str_field(t, "ip"@) {
        Some(raw) => first_public_ip_spec(raw),
        None => None,
    };
    let by_query = match json_str_field(t, "query"@) {
        Some(raw) => first_public_ip_spec(raw),
        None => None,
    };
    let by_origin = match json_str_field(t, "origin"@) {
        Some(raw) => first_public_ip_spec(raw),
        None => None,
    };
    if by_ip is Some {
        by_ip
    } else if by_query is Some {
        by_query
    } else {
        by_origin
    }
}

/// The public address a Cloudflare-trace answer reports under `ip`.
pub open spec fn trace_ip(t: Seq<char>) -> Option<IpAddress> {
    match trace_field(lines(t), "ip"@) {
        Some(v) => first_public_ip_spec(v),
        None => None,
    }
}

/// The trace's WARP flag: `on` or `plus`, ignoring case.
pub open spec fn trace_warp(t: Seq<char>) -> Option<bool> {
    match trace_field(lines(t), "warp"@) {
        Some(v) => Some(eq_ignore_ascii_case(v, "on"@) || eq_ignore_ascii_case(v, "plus"@)),
        None => None,
    }
}

/// `obs` is what an identity endpoint's `body` reports: a JSON answer, else
/// a Cloudflare trace, else a bare address list; `None` where none of them
/// holds a public address.
pub open spec fn observation_of(body: Seq<char>, obs: Option<ProbeObservation>) -> bool {
    let t = trim(body);
    if json_ip(t) is Some {
        obs matches Some(o) && o.ip == json_ip(t)->0 && opt_view(o.provider) == json_str_field(t, "provider"@)
            && opt_view(o.colo) == json_str_field(t, "colo"@) && o.warp is None
    } else if trace_ip(t) is Some {
        obs matches Some(o) && o.ip == trace_ip(t)->0 && o.warp == trace_warp(t) && opt_view(o.provider) == (
        if trace_warp(t) == Some(true) {
            Some("cloudflare-warp"@)
        } else {
            None
        }) && opt_view(o.colo) == trace_field(lines(t), "colo"@)
    } else {
        match first_public_ip_spec(t) {
            Some(ip) => obs == Some(ProbeObservation { ip, provider: None, colo: None, warp: None }),
            None => obs is None,
        }
    }
}

fn json_key_ip(t: &str, key: &str) -> (ip: Option<IpAddress>)
    ensures
        ip == (match json_str_field(t@, key@) {
            Some(raw) => first_public_ip_spec(raw),
            None => None,
        }),
{
    match json_string_field(t, key) {
        Some(raw) => {
            let chars = str_chars(raw.as_str());
            first_public_ip(chars.as_slice())
        },
        None => None,
    }
}

/// The trimmed value of the last `key=value` line of `ls` with key `key`.
fn find_trace_field(ls: &Vec<Vec<char>>, key: &str) -> (value: Option<String>)
    ensures
        opt_view(value) == trace_field(char_views(ls@), key@),
{
    let key_chars = str_chars(key);
    let eq = vec!['='];
    let mut i: usize = ls.len();
    assert(char_views(ls@).take(i as int) =~= char_views(ls@));
    while i > 0
        invariant
            i <= ls@.len(),
            key_chars@ == key@,
            eq@ == seq!['='],
            trace_field(char_views(ls@), key@) == trace_field(char_views(ls@).take(i as int), key@),
        decreases i,
    {
        let line = &ls[i - 1];
        let ghost prefix = char_views(ls@).take(i as int);
        assert(prefix.last() == line@);
        assert(prefix.drop_last() =~= char_views(ls@).take(i - 1));
        match find_from(line.as_slice(), eq.as_slice(), 0) {
            Some(k) => {
                proof {
                    crate::text::lemma_first_occurrence_found(line@, seq!['='], k as int);
                }
                let n = line.len();
                assert(k + 1 <= n) by {
                    assert(occurs_at(line@, eq@, k as int));
                }
                let (kf, kt) = trim_bounds(line.as_slice(), 0, k);
                let (vf, vt) = trim_bounds(line.as_slice(), k + 1, n);
                let found_key = crate::text::slice_range(line.as_slice(), kf, kt);
                proof {
                    assert(line@.subrange(0, k as int) =~= line@.take(k as int));
                    assert(line@.subrange(k + 1, line@.len() as int) =~= line@.skip(k + 1));
                }
                if chars_equal(found_key.as_slice(), key_chars.as_slice()) {
                    return Some(string_from_range(line.as_slice(), vf, vt));
                }
            },
            None => {
                proof {
                    crate::text::lemma_first_occurrence_none(line@, seq!['=']);
                }
            },
        }
        i = i - 1;
    }
    None
}

/// Reads an identity endpoint's answer.
pub fn parse_observation(body: &str) -> (obs: Option<ProbeObservation>)
    ensures
        observation_of(body@, obs),
{
    let chars = str_chars(body);
    let (from, to) = trim_bounds(chars.as_slice(), 0, chars.len());
    assert(chars@.subrange(0, chars@.len() as int) =~= chars@);
    let trimmed = string_from_range(chars.as_slice(), from, to);
    let t = trimmed.as_str();
    let by_ip = json_key_ip(t, "ip");
    let by_query = json_key_ip(t, "query");
    let by_origin = json_key_ip(t, "origin");
    let json = if by_ip.is_some() {
        by_ip
    } else if by_query.is_some() {
        by_query
    } else {
        by_origin
    };
    match json {
        Some(ip) => {
            return Some(ProbeObservation {
                ip,
                provider: json_string_field(t, "provider"),
                colo: json_string_field(t, "colo"),
                warp: None,
            });
        },
        None => {},
    }
    let trimmed_chars = str_chars(t);
    let ls = split_lines(trimmed_chars.as_slice());
    let trace = match find_trace_field(&ls, "ip") {
        Some(v) => {
            let v_chars = str_chars(v.as_str());
            first_public_ip(v_chars.as_slice())
        },
        None => None,
    };
    match trace {
        Some(ip) => {
            let warp = match find_trace_field(&ls, "warp") {
                Some(v) => Some(str_eq_ignore_ascii_case(v.as_str(), "on") || str_eq_ignore_ascii_case(
                    v.as_str(),
                    "plus",
                )),
                None => None,
            };
            let provider = match warp {
                Some(true) => Some(String::from_str("cloudflare-warp")),
                _ => None,
            };
            return Some(ProbeObservation { ip, provider, colo: find_trace_field(&ls, "colo"), warp });
        },
        None => {},
    }
    match first_public_ip(trimmed_chars.as_slice()) {
        Some(ip) => Some(ProbeObservation { ip, provider: None, colo: None, warp: None }),
        None => None,
    }
}

/// How many observations report `ip`.
pub open spec fn ip_count(obs: Seq<Option<ProbeObservation>>, ip: IpAddress) -> nat
    decreases obs.len(),
{
    if obs.len() == 0 {
        0
    } else {
        ip_count(obs.drop_last(), ip) + (if reports(obs.last(), ip) {
            1nat
        } else {
            0nat
        })
    }
}

/// Some observation reports `ip`.
pub open spec fn reported(obs: Seq<Option<ProbeObservation>>, ip: IpAddress) -> bool {
    exists|i: int| 0 <= i < obs.len() && reports(#[trigger] obs[i], ip)
}

/// The observation reports `ip`.
pub open spec fn reports(o: Option<ProbeObservation>, ip: IpAddress) -> bool {
    o matches Some(x) && x.ip == ip
}

/// The observation reports `ip` with a WARP flag.
pub open spec fn reports_warp(o: Option<ProbeObservation>, ip: IpAddress) -> bool {
    o matches Some(x) && x.ip == ip && x.warp is Some
}

/// The observation reports `ip` with WARP on.
pub open spec fn reports_warp_on(o: Option<ProbeObservation>, ip: IpAddress) -> bool {
    o matches Some(x) && x.ip == ip && x.warp == Some(true)
}

/// `w` wins the consensus: it is reported, and every reported address has
/// fewer reports than `w`, or as many and a text that does not sort before
/// `w`'s.
pub open spec fn consensus_winner(obs: Seq<Option<ProbeObservation>>, w: IpAddress) -> bool {
    &&& reported(obs, w)
    &&& forall|i: int|
        0 <= i < obs.len() && (#[trigger] obs[i]) is Some ==> {
            let c = ip_count(obs, obs[i]->0.ip);
            c < ip_count(obs, w) || (c == ip_count(obs, w) && !seq_lex_lt(
                ip_display(obs[i]->0.ip),
                ip_display(w),
            ))
        }
}

/// The first provider reported with `ip`.
pub open spec fn first_provider(obs: Seq<Option<ProbeObservation>>, ip: IpAddress) -> Option<Seq<char>>
    decreases obs.len(),
{
    if obs.len() == 0 {
        None
    } else if obs[0] matches Some(o) && o.ip == ip && o.provider is Some {
        opt_view(obs[0]->0.provider)
    } else {
        first_provider(obs.drop_first(), ip)
    }
}

/// The first colo reported with `ip`.
pub open spec fn first_colo(obs: Seq<Option<ProbeObservation>>, ip: IpAddress) -> Option<Seq<char>>
    decreases obs.len(),
{
    if obs.len() == 0 {
        None
    } else if obs[0] matches Some(o) && o.ip == ip && o.colo is Some {
        opt_view(obs[0]->0.colo)
    } else {
        first_colo(obs.drop_first(), ip)
    }
}

/// Some observation of `ip` carries a WARP flag.
pub open spec fn warp_signalled(obs: Seq<Option<ProbeObservation>>, ip: IpAddress) -> bool {
    exists|i: int| 0 <= i < obs.len() && reports_warp(#[trigger] obs[i], ip)
}

/// Some observation of `ip` reports WARP on.
pub open spec fn warp_confirmed(obs: Seq<Option<ProbeObservation>>, ip: IpAddress) -> bool {
    exists|i: int| 0 <= i < obs.len() && reports_warp_on(#[trigger] obs[i], ip)
}

/// Observations needed for consensus: two, or one with a single endpoint.
pub open spec fn consensus_quorum(endpoint_count: usize) -> nat {
    if endpoint_count < 2 {
        endpoint_count as nat
    } else {
        2
    }
}

/// The outcome of probing `endpoint_count` endpoints that reported `obs`
/// (`None` for an endpoint that failed) at `now_secs`.
pub open spec fn consensus_outcome(endpoint_count: usize, obs: Seq<Option<ProbeObservation>>, now_secs: u64, r: Result<ExitIdentity, String>) -> bool {
    if endpoint_count == 0 {
        r matches Err(e) && e@ == "no identity endpoints configured"@
    } else if !(exists|i: int| 0 <= i < obs.len() && (#[trigger] obs[i]) is Some) {
        r matches Err(e) && e@ == "all identity probes failed"@
    } else {
        exists|w: IpAddress|
            consensus_winner(obs, w) && if ip_count(obs, w) < consensus_quorum(endpoint_count) {
                r matches Err(e) && e@ == "identity probes did not reach consensus: "@ + decimal(
                    ip_count(obs, w),
                ) + "/"@ + decimal(consensus_quorum(endpoint_count))
            } else if warp_signalled(obs, w) && !warp_confirmed(obs, w) {
                r matches Err(e) && e@ == "Cloudflare trace did not report warp=on or warp=plus"@
            } else {
                r matches Ok(id) && id.public_ip@ == ip_display(w) && opt_view(id.provider)
                    == first_provider(obs, w) && opt_view(id.colo) == first_colo(obs, w)
                    && id.verified_at_unix_secs == now_secs
            }
    }
}

fn count_reports(obs: &Vec<Option<ProbeObservation>>, ip: IpAddress) -> (n: usize)
    ensures
        n == ip_count(obs@, ip),
{
    let mut n: usize = 0;
    let mut i: usize = 0;
    while i < obs.len()
        invariant
            i <= obs@.len(),
            n == ip_count(obs@.take(i as int), ip),
            n <= i,
        decreases obs@.len() - i,
    {
        proof {
            assert(obs@.take(i + 1).drop_last() =~= obs@.take(i as int));
        }
        match &obs[i] {
            Some(o) => {
                if o.ip == ip {
                    n = n + 1;
                }
            },
            None => {},
        }
        i = i + 1;
    }
    assert(obs@.take(i as int) =~= obs@);
    n
}

fn find_first_provider(obs: &Vec<Option<ProbeObservation>>, ip: IpAddress, colo: bool) -> (found: Option<String>)
    ensures
        opt_view(found) == (if colo {
            first_colo(obs@, ip)
        } else {
            first_provider(obs@, ip)
        }),
{
    let mut i: usize = 0;
    assert(obs@.skip(0) =~= obs@);
    while i < obs.len()
        invariant
            i <= obs@.len(),
            colo ==> first_colo(obs@, ip) == first_colo(obs@.skip(i as int), ip),
            !colo ==> first_provider(obs@, ip) == first_provider(obs@.skip(i as int), ip),
        decreases obs@.len() - i,
    {
        proof {
            assert(obs@.skip(i as int)[0] == obs@[i as int]);
            assert(obs@.skip(i as int).drop_first() =~= obs@.skip(i + 1));
        }
        match &obs[i] {
            Some(o) => {
                if o.ip == ip {
                    let field = if colo {
                        &o.colo
                    } else {
                        &o.provider
                    };
                    match field {
                        Some(v) => {
                            return Some(v.clone());
                        },
                        None => {},
                    }
                }
            },
            None => {},
        }
        i = i + 1;
    }
    None
}

/// Reaches consensus over what `endpoint_count` identity endpoints reported
/// (`None` for an endpoint whose probe failed): the address most endpoints
/// agree on, ties going to the address whose text sorts first, stamped with
/// `now_secs`.
pub fn identity_consensus(endpoint_count: usize, obs: &Vec<Option<ProbeObservation>>, now_secs: u64) -> (r: Result<ExitIdentity, String>)
    ensures
        consensus_outcome(endpoint_count, obs@, now_secs, r),
{
    if endpoint_count == 0 {
        return Err(String::from_str("no identity endpoints configured"));
    }
    let mut best: Option<IpAddress> = None;
    let mut best_count: usize = 0;
    let mut best_text: Vec<char> = Vec::new();
    let mut i: usize = 0;
    while i < obs.len()
        invariant
            i <= obs@.len(),
            best is None ==> forall|j: int| 0 <= j < i ==> obs@[j] is None,
            best matches Some(w) ==> {
                &&& reported(obs@, w)
                &&& best_count == ip_count(obs@, w)
                &&& best_text@ == ip_display(w)
                &&& forall|j: int|
                    0 <= j < i && (#[trigger] obs@[j]) is Some ==> {
                        let c = ip_count(obs@, obs@[j]->0.ip);
                        c < best_count || (c == best_count && !seq_lex_lt(
                            ip_display(obs@[j]->0.ip),
                            best_text@,
                        ))
                    }
            },
        decreases obs@.len() - i,
    {
        match &obs[i] {
            Some(o) => {
                let c = count_reports(obs, o.ip);
                let text = ip_to_string(&o.ip);
                let chars = str_chars(text.as_str());
                let better = match best {
                    None => true,
                    Some(_) => c > best_count || (c == best_count && lex_less(chars.as_slice(), best_text.as_slice())),
                };
                proof {
                    lemma_lex_irreflexive(chars@);
                    if best is Some && c == best_count && seq_lex_lt(chars@, best_text@) {
                        lemma_lex_asymmetric(chars@, best_text@);
                        assert forall|j: int| 0 <= j < i && (#[trigger] obs@[j]) is Some implies !seq_lex_lt(
                            ip_display(obs@[j]->0.ip),
                            chars@,
                        ) || ip_count(obs@, obs@[j]->0.ip) < best_count by {
                            if seq_lex_lt(ip_display(obs@[j]->0.ip), chars@) {
                                lemma_lex_transitive(ip_display(obs@[j]->0.ip), chars@, best_text@);
                            }
                        }
                    }
                }
                if better {
                    best = Some(o.ip);
                    best_count = c;
                    best_text = chars;
                }
            },
            None => {},
        }
        i = i + 1;
    }
    match best {
        None => Err(String::from_str("all identity probes failed")),
        Some(w) => {
            assert(consensus_winner(obs@, w));
            assert(exists|i: int| 0 <= i < obs@.len() && (#[trigger] obs@[i]) is Some) by {
                let i = choose|i: int| 0 <= i < obs@.len() && reports(#[trigger] obs@[i], w);
                assert(obs@[i] is Some);
            }
            let quorum: usize = if endpoint_count < 2 {
                endpoint_count
            } else {
                2
            };
            if best_count < quorum {
                let mut message = String::from_str("identity probes did not reach consensus: ");
                push_decimal(&mut message, best_count as u64);
                push_str(&mut message, "/");
                push_decimal(&mut message, quorum as u64);
                return Err(message);
            }
            let mut signalled = false;
            let mut confirmed = false;
            let mut k: usize = 0;
            while k < obs.len()
                invariant
                    k <= obs@.len(),
                    signalled == (exists|j: int| 0 <= j < k && reports_warp(#[trigger] obs@[j], w)),
                    confirmed == (exists|j: int| 0 <= j < k && reports_warp_on(#[trigger] obs@[j], w)),
                decreases obs@.len() - k,
            {
                match &obs[k] {
                    Some(o) => {
                        if o.ip == w {
                            match o.warp {
                                Some(flag) => {
                                    signalled = true;
                                    if flag {
                                        confirmed = true;
                                    }
                                },
                                None => {},
                            }
                        }
                    },
                    None => {},
                }
                k = k + 1;
            }
            if signalled && !confirmed {
                return Err(String::from_str("Cloudflare trace did not report warp=on or warp=plus"));
            }
            Ok(ExitIdentity {
                public_ip: String::from_str(best_text_string(&best_text).as_str()),
                provider: find_first_provider(obs, w, false),
                colo: find_first_provider(obs, w, true),
                verified_at_unix_secs: now_secs,
            })
        },
    }
}

fn best_text_string(text: &Vec<char>) -> (s: String)
    ensures
        s@ == text@,
{
    crate::text::string_from_chars(text.as_slice())
}

/// Both nodes have a verified exit, and it is the same address text.
pub open spec fn same_exit(a: ProxyEntry, b: ProxyEntry) -> bool {
    a.exit_identity is Some && b.exit_identity is Some && a.exit_identity->0.public_ip@
        == b.exit_identity->0.public_ip@
}

/// Serving-role rank: primaries before warm standbys.
pub open spec fn role_rank(role: EgressRole) -> int {
    match role {
        EgressRole::Primary => 0,
        EgressRole::WarmStandby => 1,
    }
}

/// Node `a` outranks node `b` for ownership of a shared exit: primaries
/// first, then routing-enabled nodes, then by id, then by position.
pub open spec fn owner_before(nodes: Seq<ProxyEntry>, a: int, b: int) -> bool {
    let x = nodes[a];
    let y = nodes[b];
    ||| role_rank(x.role) < role_rank(y.role)
    ||| (role_rank(x.role) == role_rank(y.role) && x.routing_enabled && !y.routing_enabled)
    ||| (role_rank(x.role) == role_rank(y.role) && x.routing_enabled == y.routing_enabled
        && seq_lex_lt(x.id@, y.id@))
    ||| (role_rank(x.role) == role_rank(y.role) && x.routing_enabled == y.routing_enabled && x.id@
        == y.id@ && a < b)
}

/// The best-ranked node among the first `n` that shares node `i`'s exit
/// (`-1` where none does).
pub open spec fn owner_upto(nodes: Seq<ProxyEntry>, i: int, n: int) -> int
    decreases n,
{
    if n <= 0 {
        -1
    } else {
        let prev = owner_upto(nodes, i, n - 1);
        let j = n - 1;
        if same_exit(nodes[i], nodes[j]) && (prev < 0 || owner_before(nodes, j, prev)) {
            j
        } else {
            prev
        }
    }
}

/// The owner of node `i`'s exit.
pub open spec fn exit_owner(nodes: Seq<ProxyEntry>, i: int) -> int {
    owner_upto(nodes, i, nodes.len() as int)
}

/// What node `i` is marked a duplicate of: the owner's id when another node
/// owns its exit.
pub open spec fn duplicate_mark(nodes: Seq<ProxyEntry>, i: int) -> Option<String> {
    if nodes[i].exit_identity is None || exit_owner(nodes, i) == i || exit_owner(nodes, i) < 0 {
        None
    } else {
        Some(nodes[exit_owner(nodes, i)].id)
    }
}

/// The nodes with their duplicate marks recomputed.
pub open spec fn marked_duplicates(nodes: Seq<ProxyEntry>) -> Seq<ProxyEntry> {
    Seq::new(nodes.len(), |i: int| ProxyEntry { duplicate_of: duplicate_mark(nodes, i), ..nodes[i] })
}

/// Nodes counted as distinct verified exits among the first `n`: each
/// node with an identity and no duplicate mark (and, where `ttl` is given,
/// an identity fresh at `now_secs`) whose address no earlier such node has.
pub open spec fn counted_exit(nodes: Seq<ProxyEntry>, j: int, fresh: Option<(u64, u64)>) -> bool {
    &&& nodes[j].exit_identity is Some
    &&& nodes[j].duplicate_of is None
    &&& match fresh {
        Some((now, ttl)) => fresh_identity(nodes[j].exit_identity, now, ttl),
        None => true,
    }
}

/// The number of distinct exit addresses among the counted nodes of the
/// first `n`.
pub open spec fn distinct_exits(nodes: Seq<ProxyEntry>, n: int, fresh: Option<(u64, u64)>) -> nat
    decreases n,
{
    if n <= 0 {
        0
    } else {
        let j = n - 1;
        let new_address = counted_exit(nodes, j, fresh) && !(exists|k: int|
            0 <= k < j && counted_exit(nodes, k, fresh) && #[trigger] nodes[k].exit_identity->0.public_ip@
                == nodes[j].exit_identity->0.public_ip@);
        distinct_exits(nodes, n - 1, fresh) + if new_address {
            1nat
        } else {
            0nat
        }
    }
}

/// A node that counts toward readiness: not draining, serving (a primary of
/// the serving set, or a warm standby), healthy with a closed circuit, not a
/// duplicate exit, and with a fresh verified identity where one is required
/// (in strict mode, and always for a warm standby).
pub open spec fn ready_node(n: ProxyEntry, require_verified: bool, now_secs: u64, ttl: u64) -> bool {
    &&& !n.draining
    &&& (n.routing_enabled || n.role == EgressRole::WarmStandby)
    &&& n.health == HealthState::Healthy
    &&& n.circuit == CircuitState::Closed
    &&& n.duplicate_of is None
    &&& ((require_verified || n.role == EgressRole::WarmStandby) ==> fresh_identity(n.exit_identity, now_secs, ttl))
}

/// The pool is ready at `now_secs`: some node can carry traffic, and in
/// strict mode at least `minimum` distinct fresh exits are verified.
pub open spec fn egress_ready_spec(pool: ProxyPool, minimum: usize, ttl: u64, now_secs: u64) -> bool {
    &&& exists|i: int| 0 <= i < pool.proxies@.len() && ready_node(#[trigger] pool.proxies@[i], pool.require_verified_exit_ip, now_secs, ttl)
    &&& (pool.require_verified_exit_ip ==> distinct_exits(pool.proxies@, pool.proxies@.len() as int, Some((now_secs, ttl))) >= minimum)
}

/// One identity result applied to a node: a verified identity is recorded
/// and brings an unknown or recovering node with a closed or expired circuit
/// back to health; a failure clears the identity and, in strict mode, marks a
/// node that is not dead as unknown.
pub open spec fn with_identity_result(n: ProxyEntry, result: Result<ExitIdentity, String>, require_verified: bool, now: u64) -> ProxyEntry {
    match result {
        Ok(identity) => {
            let recorded = ProxyEntry { exit_identity: Some(identity), ..n };
            if (n.health == HealthState::Unknown || n.health == HealthState::Recovering) && !n.circuit.open_at(now) {
                ProxyEntry { health: HealthState::Healthy, circuit: CircuitState::Closed, ..recorded }
            } else {
                recorded
            }
        },
        Err(_) => {
            let cleared = ProxyEntry { exit_identity: None, ..n };
            if require_verified && n.health != HealthState::Unhealthy {
                ProxyEntry { health: HealthState::Unknown, ..cleared }
            } else {
                cleared
            }
        },
    }
}

/// The nodes after applying `results` in order; a result whose index is out
/// of range or whose node id no longer matches is skipped.
pub open spec fn identity_results_applied(nodes: Seq<ProxyEntry>, results: Seq<(usize, String, Result<ExitIdentity, String>)>, require_verified: bool, now: u64) -> Seq<ProxyEntry>
    decreases results.len(),
{
    if results.len() == 0 {
        nodes
    } else {
        let before = identity_results_applied(nodes, results.drop_last(), require_verified, now);
        let (index, id, result) = results.last();
        if index < before.len() && before[index as int].id@ == id@ {
            before.update(index as int, with_identity_result(before[index as int], result, require_verified, now))
        } else {
            before
        }
    }
}

fn outranks(nodes: &Vec<ProxyEntry>, a: usize, b: usize) -> (before: bool)
    requires
        a < nodes@.len(),
        b < nodes@.len(),
    ensures
        before == owner_before(nodes@, a as int, b as int),
{
    let x = &nodes[a];
    let y = &nodes[b];
    let rx: u8 = match x.role {
        EgressRole::Primary => 0,
        EgressRole::WarmStandby => 1,
    };
    let ry: u8 = match y.role {
        EgressRole::Primary => 0,
        EgressRole::WarmStandby => 1,
    };
    if rx != ry {
        return rx < ry;
    }
    if x.routing_enabled != y.routing_enabled {
        return x.routing_enabled;
    }
    let xid = str_chars(x.id.as_str());
    let yid = str_chars(y.id.as_str());
    if lex_less(xid.as_slice(), yid.as_slice()) {
        return true;
    }
    if chars_equal(xid.as_slice(), yid.as_slice()) {
        return a < b;
    }
    false
}

fn shares_exit(x: &ProxyEntry, y: &ProxyEntry) -> (same: bool)
    ensures
        same == same_exit(*x, *y),
{
    match (&x.exit_identity, &y.exit_identity) {
        (Some(a), Some(b)) => a.public_ip == b.public_ip,
        _ => false,
    }
}

impl ProxyPool {
    /// Recomputes which nodes share a verified exit with a better-ranked
    /// node and marks each such node a duplicate of that owner.
    pub fn suppress_duplicate_exits(&mut self)
        ensures
            final(self).proxies@ == marked_duplicates(old(self).proxies@),
            final(self).restart_queue@ == old(self).restart_queue@,
            final(self).active_count == old(self).active_count,
            final(self).require_verified_exit_ip == old(self).require_verified_exit_ip,
            final(self).identity_ttl == old(self).identity_ttl,
            final(self).max_restart_attempts == old(self).max_restart_attempts,
            final(self).round_robin_counter == old(self).round_robin_counter,
    {
        let ghost nodes = self.proxies@;
        let n = self.proxies.len();
        let mut marks: Vec<Option<String>> = Vec::new();
        let mut i: usize = 0;
        while i < n
            invariant
                n == nodes.len(),
                self.proxies@ == nodes,
                *self == *old(self),
                i <= n,
                marks@.len() == i,
                forall|k: int| 0 <= k < i ==> marks@[k] == duplicate_mark(nodes, k),
            decreases n - i,
        {
            let mut owner: Option<usize> = None;
            let mut j: usize = 0;
            while j < n
                invariant
                    n == nodes.len(),
                    self.proxies@ == nodes,
                    i < n,
                    j <= n,
                    match owner {
                        Some(o) => o as int == owner_upto(nodes, i as int, j as int) && o < j,
                        None => owner_upto(nodes, i as int, j as int) == -1,
                    },
                decreases n - j,
            {
                if shares_exit(&self.proxies[i], &self.proxies[j]) {
                    let take = match owner {
                        None => true,
                        Some(o) => outranks(&self.proxies, j, o),
                    };
                    if take {
                        owner = Some(j);
                    }
                }
                j = j + 1;
            }
            let mark = match owner {
                Some(o) => if o != i && self.proxies[i].exit_identity.is_some() {
                    Some(self.proxies[o].id.clone())
                } else {
                    None
                },
                None => None,
            };
            marks.push(mark);
            i = i + 1;
        }
        let mut k: usize = 0;
        while k < n
            invariant
                n == nodes.len(),
                self.proxies@.len() == n,
                self.restart_queue@ == old(self).restart_queue@,
                crate::proxy_pool::maintenance::same_settings(*self, *old(self)),
                self.round_robin_counter == old(self).round_robin_counter,
                k <= n,
                marks@.len() == n,
                forall|m: int| 0 <= m < n ==> marks@[m] == duplicate_mark(nodes, m),
                forall|m: int| 0 <= m < k ==> self.proxies@[m] == marked_duplicates(nodes)[m],
                forall|m: int| k <= m < n ==> self.proxies@[m] == nodes[m],
            decreases n - k,
        {
            let mark = match &marks[k] {
                Some(id) => Some(id.clone()),
                None => None,
            };
            self.proxies[k].duplicate_of = mark;
            k = k + 1;
        }
        assert(self.proxies@ =~= marked_duplicates(nodes));
    }

    /// Applies identity probe results (node index, node id when probed, and
    /// result) at `now`, then recomputes duplicate marks.
    pub fn apply_identity_results_at(&mut self, results: Vec<(usize, String, Result<ExitIdentity, String>)>, now: u64)
        ensures
            final(self).proxies@ == marked_duplicates(
                identity_results_applied(old(self).proxies@, results@, old(self).require_verified_exit_ip, now),
            ),
            final(self).restart_queue@ == old(self).restart_queue@,
            final(self).active_count == old(self).active_count,
            final(self).require_verified_exit_ip == old(self).require_verified_exit_ip,
            final(self).identity_ttl == old(self).identity_ttl,
            final(self).max_restart_attempts == old(self).max_restart_attempts,
            final(self).round_robin_counter == old(self).round_robin_counter,
    {
        let ghost start = self.proxies@;
        let mut r: usize = 0;
        let ghost rs = results@;
        let mut results = results;
        while r < results.len()
            invariant
                results@ == rs,
                r <= rs.len(),
                self.proxies@ == identity_results_applied(start, rs.take(r as int), self.require_verified_exit_ip, now),
                self.require_verified_exit_ip == old(self).require_verified_exit_ip,
                self.restart_queue@ == old(self).restart_queue@,
                self.active_count == old(self).active_count,
                self.identity_ttl == old(self).identity_ttl,
                self.max_restart_attempts == old(self).max_restart_attempts,
                self.round_robin_counter == old(self).round_robin_counter,
            decreases rs.len() - r,
        {
            proof {
                assert(rs.take(r + 1).drop_last() =~= rs.take(r as int));
                assert(rs.take(r + 1).last() == rs[r as int]);
            }
            let index = results[r].0;
            if index < self.proxies.len() && self.proxies[index].id == results[r].1 {
                let require = self.require_verified_exit_ip;
                let ghost before = self.proxies@[index as int];
                match &results[r].2 {
                    Ok(identity) => {
                        let recovering = (self.proxies[index].health == HealthState::Unknown
                            || self.proxies[index].health == HealthState::Recovering)
                            && !self.proxies[index].circuit.is_open(now);
                        self.proxies[index].exit_identity = Some(identity.duplicate());
                        if recovering {
                            self.proxies[index].health = HealthState::Healthy;
                            self.proxies[index].circuit = CircuitState::Closed;
                        }
                    },
                    Err(_) => {
                        let demote = require && self.proxies[index].health != HealthState::Unhealthy;
                        self.proxies[index].exit_identity = None;
                        if demote {
                            self.proxies[index].health = HealthState::Unknown;
                        }
                    },
                }
                assert(self.proxies@[index as int] == with_identity_result(before, rs[r as int].2, require, now));
            }
            r = r + 1;
        }
        assert(rs.take(rs.len() as int) =~= rs);
        self.suppress_duplicate_exits();
    }

    /// Applies identity probe results now.
    pub fn apply_identity_results(&mut self, results: Vec<(usize, String, Result<ExitIdentity, String>)>)
        ensures
            exists|now: u64|
                final(self).proxies@ == marked_duplicates(
                    identity_results_applied(old(self).proxies@, results@, old(self).require_verified_exit_ip, now),
                ),
            final(self).restart_queue@ == old(self).restart_queue@,
            final(self).require_verified_exit_ip == old(self).require_verified_exit_ip,
    {
        let now = self.clock.now();
        self.apply_identity_results_at(results, now);
    }

    fn count_distinct_exits(&self, fresh: Option<(u64, u64)>) -> (count: usize)
        ensures
            count == distinct_exits(self.proxies@, self.proxies@.len() as int, fresh),
    {
        let n = self.proxies.len();
        let mut count: usize = 0;
        let mut j: usize = 0;
        while j < n
            invariant
                n == self.proxies@.len(),
                j <= n,
                count == distinct_exits(self.proxies@, j as int, fresh),
                count <= j,
            decreases n - j,
        {
            let counted = self.counts_as_exit(j, fresh);
            if counted {
                let mut seen = false;
                let mut k: usize = 0;
                while k < j
                    invariant
                        n == self.proxies@.len(),
                        k <= j < n,
                        counted_exit(self.proxies@, j as int, fresh),
                        seen == (exists|m: int|
                            0 <= m < k && counted_exit(self.proxies@, m, fresh)
                                && #[trigger] self.proxies@[m].exit_identity->0.public_ip@
                                == self.proxies@[j as int].exit_identity->0.public_ip@),
                    decreases j - k,
                {
                    if self.counts_as_exit(k, fresh) && shares_exit(&self.proxies[k], &self.proxies[j]) {
                        seen = true;
                    }
                    k = k + 1;
                }
                if !seen {
                    count = count + 1;
                }
            }
            j = j + 1;
        }
        count
    }

    fn counts_as_exit(&self, j: usize, fresh: Option<(u64, u64)>) -> (counted: bool)
        requires
            j < self.proxies@.len(),
        ensures
            counted == counted_exit(self.proxies@, j as int, fresh),
    {
        let node = &self.proxies[j];
        match &node.exit_identity {
            Some(identity) => node.duplicate_of.is_none() && match fresh {
                Some((now, ttl)) => identity.is_fresh_at(now, ttl),
                None => true,
            },
            None => false,
        }
    }

    /// The number of distinct verified exit addresses among nodes not marked
    /// duplicate.
    pub fn verified_unique_exit_count(&self) -> (count: usize)
        ensures
            count == distinct_exits(self.proxies@, self.proxies@.len() as int, None),
    {
        self.count_distinct_exits(None)
    }

    /// The number of distinct exit addresses whose verification is fresh at
    /// `now_secs` for a time-to-live of `ttl_secs`.
    pub fn verified_unique_exit_count_fresh_at(&self, ttl_secs: u64, now_secs: u64) -> (count: usize)
        ensures
            count == distinct_exits(self.proxies@, self.proxies@.len() as int, Some((now_secs, ttl_secs))),
    {
        self.count_distinct_exits(Some((now_secs, ttl_secs)))
    }

    /// The number of distinct exit addresses verified within `ttl_secs`
    /// before now.
    pub fn verified_unique_exit_count_fresh(&self, ttl_secs: u64) -> (count: usize)
        ensures
            exists|now: u64| count == distinct_exits(self.proxies@, self.proxies@.len() as int, Some((now, ttl_secs))),
    {
        let now = crate::clock::unix_now_secs();
        self.verified_unique_exit_count_fresh_at(ttl_secs, now)
    }

    /// Whether the pool can serve traffic at `now_secs`.
    pub fn egress_ready_at(&self, minimum_unique_exit_ips: usize, identity_ttl_secs: u64, now_secs: u64) -> (ready: bool)
        ensures
            ready == egress_ready_spec(*self, minimum_unique_exit_ips, identity_ttl_secs, now_secs),
    {
        let n = self.proxies.len();
        let require = self.require_verified_exit_ip;
        let mut routable = false;
        let mut i: usize = 0;
        while i < n
            invariant
                n == self.proxies@.len(),
                require == self.require_verified_exit_ip,
                i <= n,
                routable == (exists|k: int| 0 <= k < i && ready_node(#[trigger] self.proxies@[k], require, now_secs, identity_ttl_secs)),
            decreases n - i,
        {
            let node = &self.proxies[i];
            let fresh = match &node.exit_identity {
                Some(identity) => identity.is_fresh_at(now_secs, identity_ttl_secs),
                None => false,
            };
            let standby = node.role == EgressRole::WarmStandby;
            if !node.draining && (node.routing_enabled || standby) && node.health == HealthState::Healthy
                && node.circuit == CircuitState::Closed && node.duplicate_of.is_none() && (!(require || standby)
                || fresh) {
                routable = true;
            }
            i = i + 1;
        }
        routable && (!require || self.verified_unique_exit_count_fresh_at(identity_ttl_secs, now_secs)
            >= minimum_unique_exit_ips)
    }

    /// Whether the pool can serve traffic now.
    pub fn egress_ready(&self, minimum_unique_exit_ips: usize, identity_ttl_secs: u64) -> (ready: bool)
        ensures
            exists|now: u64| ready == egress_ready_spec(*self, minimum_unique_exit_ips, identity_ttl_secs, now),
    {
        let now = crate::clock::unix_now_secs();
        self.egress_ready_at(minimum_unique_exit_ips, identity_ttl_secs, now)
    }
}

proof fn lemma_owner_same_group(nodes: Seq<ProxyEntry>, i: int, j: int, n: int)
    requires
        0 <= i < nodes.len(),
        0 <= j < nodes.len(),
        0 <= n <= nodes.len(),
        same_exit(nodes[i], nodes[j]),
    ensures
        owner_upto(nodes, i, n) == owner_upto(nodes, j, n),
        owner_upto(nodes, i, n) < n,
        owner_upto(nodes, i, n) >= 0 ==> same_exit(nodes[i], nodes[owner_upto(nodes, i, n)]),
        i < n ==> owner_upto(nodes, i, n) >= 0,
    decreases n,
{
    if n > 0 {
        lemma_owner_same_group(nodes, i, j, n - 1);
    }
}

/// Each shared exit keeps at most one unmarked node: of two nodes reporting
/// the same exit address, at least one is marked a duplicate.
pub proof fn one_owner_per_exit(nodes: Seq<ProxyEntry>, i: int, j: int)
    requires
        0 <= i < nodes.len(),
        0 <= j < nodes.len(),
        i != j,
        same_exit(nodes[i], nodes[j]),
    ensures
        marked_duplicates(nodes)[i].duplicate_of is Some || marked_duplicates(nodes)[j].duplicate_of is Some,
{
    lemma_owner_same_group(nodes, i, j, nodes.len() as int);
}

/// A node whose exit no other node reports is never marked a duplicate.
pub proof fn unshared_exit_is_never_duplicate(nodes: Seq<ProxyEntry>, i: int)
    requires
        0 <= i < nodes.len(),
        forall|k: int| 0 <= k < nodes.len() && k != i ==> !same_exit(nodes[i], #[trigger] nodes[k]),
    ensures
        marked_duplicates(nodes)[i].duplicate_of is None,
{
    lemma_owner_unshared(nodes, i, nodes.len() as int);
}

proof fn lemma_owner_before_transitive(nodes: Seq<ProxyEntry>, a: int, b: int, c: int)
    requires
        owner_before(nodes, a, b),
        owner_before(nodes, b, c),
    ensures
        owner_before(nodes, a, c),
{
    let x = nodes[a];
    let y = nodes[b];
    let z = nodes[c];
    if role_rank(x.role) == role_rank(y.role) && role_rank(y.role) == role_rank(z.role)
        && x.routing_enabled == y.routing_enabled && y.routing_enabled == z.routing_enabled {
        if seq_lex_lt(x.id@, y.id@) && seq_lex_lt(y.id@, z.id@) {
            lemma_lex_transitive(x.id@, y.id@, z.id@);
        }
    }
}

proof fn lemma_owner_not_outranked(nodes: Seq<ProxyEntry>, i: int, n: int)
    requires
        0 <= i < nodes.len(),
        0 <= n <= nodes.len(),
    ensures
        owner_upto(nodes, i, n) < n,
        owner_upto(nodes, i, n) < 0 ==> forall|k: int| 0 <= k < n ==> !same_exit(nodes[i], #[trigger] nodes[k]),
        owner_upto(nodes, i, n) >= 0 ==> forall|k: int|
            0 <= k < n && same_exit(nodes[i], #[trigger] nodes[k]) ==> !owner_before(
                nodes,
                k,
                owner_upto(nodes, i, n),
            ),
    decreases n,
{
    if n > 0 {
        lemma_owner_not_outranked(nodes, i, n - 1);
        let prev = owner_upto(nodes, i, n - 1);
        let j = n - 1;
        let o = owner_upto(nodes, i, n);
        lemma_lex_irreflexive(nodes[j].id@);
        if o == j && prev >= 0 {
            assert forall|k: int| 0 <= k < n && same_exit(nodes[i], #[trigger] nodes[k]) implies !owner_before(
                nodes,
                k,
                o,
            ) by {
                if k < j && owner_before(nodes, k, j) {
                    lemma_owner_before_transitive(nodes, k, j, prev);
                }
            }
        }
    }
}

proof fn lemma_owner_ignores_marks(nodes: Seq<ProxyEntry>, marked: Seq<ProxyEntry>, i: int, n: int)
    requires
        marked.len() == nodes.len(),
        0 <= i < nodes.len(),
        0 <= n <= nodes.len(),
        forall|k: int| 0 <= k < nodes.len() ==> (#[trigger] marked[k]) == (ProxyEntry { duplicate_of: marked[k].duplicate_of, ..nodes[k] }),
    ensures
        owner_upto(marked, i, n) == owner_upto(nodes, i, n),
    decreases n,
{
    if n > 0 {
        lemma_owner_ignores_marks(nodes, marked, i, n - 1);
        lemma_owner_not_outranked(nodes, i, n - 1);
        let prev = owner_upto(nodes, i, n - 1);
        let j = n - 1;
        assert(marked[i] == (ProxyEntry { duplicate_of: marked[i].duplicate_of, ..nodes[i] }));
        assert(marked[j] == (ProxyEntry { duplicate_of: marked[j].duplicate_of, ..nodes[j] }));
        assert(same_exit(marked[i], marked[j]) == same_exit(nodes[i], nodes[j]));
        if prev >= 0 {
            assert(marked[prev] == (ProxyEntry { duplicate_of: marked[prev].duplicate_of, ..nodes[prev] }));
            assert(owner_before(marked, j, prev) == owner_before(nodes, j, prev));
        }
    }
}

/// Every exit address has exactly one owner, the best-ranked node reporting
/// it (primaries first, then routed nodes, then by id, then by position; no
/// node of the group outranks it): the owner is left unmarked and every
/// other node of the group is marked a duplicate of the owner's id. A node
/// without an identity is never marked.
pub proof fn each_exit_has_one_owner(nodes: Seq<ProxyEntry>, i: int)
    requires
        0 <= i < nodes.len(),
    ensures
        nodes[i].exit_identity is None ==> marked_duplicates(nodes)[i].duplicate_of is None,
        nodes[i].exit_identity is Some ==> {
            let o = exit_owner(nodes, i);
            &&& 0 <= o < nodes.len()
            &&& same_exit(nodes[i], nodes[o])
            &&& marked_duplicates(nodes)[o].duplicate_of is None
            &&& (o != i ==> marked_duplicates(nodes)[i].duplicate_of == Some(nodes[o].id))
            &&& forall|k: int|
                0 <= k < nodes.len() && same_exit(nodes[i], #[trigger] nodes[k]) ==> !owner_before(nodes, k, o)
        },
{
    if nodes[i].exit_identity is Some {
        let n = nodes.len() as int;
        lemma_owner_same_group(nodes, i, i, n);
        let o = exit_owner(nodes, i);
        lemma_owner_same_group(nodes, i, o, n);
        lemma_owner_not_outranked(nodes, i, n);
    }
}

/// Recomputing duplicate marks a second time changes nothing.
pub proof fn duplicate_marking_is_idempotent(nodes: Seq<ProxyEntry>)
    ensures
        marked_duplicates(marked_duplicates(nodes)) == marked_duplicates(nodes),
{
    let m = marked_duplicates(nodes);
    assert forall|k: int| 0 <= k < nodes.len() implies (#[trigger] m[k]) == (ProxyEntry {
        duplicate_of: m[k].duplicate_of,
        ..nodes[k]
    }) by {}
    assert forall|i: int| 0 <= i < nodes.len() implies #[trigger] marked_duplicates(m)[i] == m[i] by {
        lemma_owner_ignores_marks(nodes, m, i, nodes.len() as int);
        let o = exit_owner(nodes, i);
        if m[i].exit_identity is Some && o != i && o >= 0 {
            lemma_owner_same_group(nodes, i, i, nodes.len() as int);
            assert(m[o].id == nodes[o].id);
        }
    }
    assert(marked_duplicates(m) =~= m);
}

proof fn lemma_owner_unshared(nodes: Seq<ProxyEntry>, i: int, n: int)
    requires
        0 <= i < nodes.len(),
        0 <= n <= nodes.len(),
        forall|k: int| 0 <= k < nodes.len() && k != i ==> !same_exit(nodes[i], #[trigger] nodes[k]),
    ensures
        owner_upto(nodes, i, n) == (if i < n && nodes[i].exit_identity is Some { i } else { -1 }),
    decreases n,
{
    if n > 0 {
        lemma_owner_unshared(nodes, i, n - 1);
    }
}

} // verus!
