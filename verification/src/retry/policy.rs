//! Retry and model-fallback policy: failure classification, fallback model
//! lists, provider `Retry-After` handling and bounded backoff.

use crate::config::RetryConfig;
use crate::text::{
    contains_seq, lower_chars, lower_contains, lower_seq, matches_at, occurs_at, parse_u64,
    parse_u64_chars, str_chars, string_from_range, trim, trim_bounds, trim_string,
};
use vstd::prelude::*;

verus! {

/// Why an upstream attempt did not produce a usable response.
#[derive(Debug, Clone, Copy, PartialEq, Eq, Structural)]
pub enum FailureClass {
    Transport,
    Timeout,
    RateLimit,
    ProviderClient,
    ProviderServer,
    MalformedResponse,
    Cancelled,
}

/// The retry counter a failure class is reported under.
#[derive(Debug, Clone, Copy, PartialEq, Eq, Structural)]
pub enum RetryMetricClass {
    Transport,
    Timeout,
    RateLimit,
    ProviderClient,
    ProviderServer,
    MalformedResponse,
}

/// Longest provider `Retry-After` honoured for quarantine bookkeeping: 30 days,
/// in seconds.
pub const MAX_RESPECTED_RETRY_AFTER_SECS: u64 = 2_592_000;

/// Shortest client-visible retry delay, in seconds.
pub const MIN_CLIENT_RETRY_AFTER_SECS: u64 = 1;

/// Longest client-visible retry delay, in seconds: the cadence of managed
/// proxy recovery.
pub const MAX_CLIENT_RETRY_AFTER_SECS: u64 = 30;

/// The body reads as a rate limit, whatever the status code says.
pub open spec fn rate_limit_text(body: Seq<char>) -> bool {
    let lower = lower_seq(body);
    ||| contains_seq(lower, "rate limit"@)
    ||| contains_seq(lower, "rate_limit"@)
    ||| contains_seq(lower, "quota exceeded"@)
    ||| contains_seq(lower, "quota_exceeded"@)
    ||| contains_seq(lower, "too many requests"@)
    ||| contains_seq(lower, "throttl"@)
}

/// Whether an error body carries a rate-limit signal (case-insensitive).
pub fn is_rate_limit_body(body: &str) -> (limited: bool)
    ensures
        limited == rate_limit_text(body@),
{
    let lower = lower_chars(body);
    lower_contains(&lower, "rate limit") || lower_contains(&lower, "rate_limit")
        || lower_contains(&lower, "quota exceeded") || lower_contains(&lower, "quota_exceeded")
        || lower_contains(&lower, "too many requests") || lower_contains(&lower, "throttl")
}

/// A body that speaks of throttling, in any letter case, reads as a rate
/// limit, and so does any 4xx answer carrying it: it is classified as a
/// rate limit, never as a plain client error.
pub proof fn throttling_reads_as_rate_limit(body: Seq<char>, status: u16)
    requires
        contains_seq(lower_seq(body), "throttl"@),
    ensures
        rate_limit_text(body),
        status_class(status, Some(body)) == FailureClass::RateLimit,
{
}

/// Each of the rate-limit phrases, in any letter case, marks a body as a
/// rate limit.
pub proof fn rate_limit_phrases_read_as_rate_limit(body: Seq<char>)
    requires
        contains_seq(lower_seq(body), "rate limit"@) || contains_seq(lower_seq(body), "rate_limit"@)
            || contains_seq(lower_seq(body), "quota exceeded"@) || contains_seq(lower_seq(body), "quota_exceeded"@)
            || contains_seq(lower_seq(body), "too many requests"@) || contains_seq(lower_seq(body), "throttl"@),
    ensures
        rate_limit_text(body),
{
}

/// The model name marks a reasoning-heavy model.
pub open spec fn reasoning_heavy(model: Seq<char>) -> bool {
    let name = lower_seq(model);
    ||| (contains_seq(name, "deepseek"@) && (contains_seq(name, "r1"@) || contains_seq(
        name,
        "reasoner"@,
    )))
    ||| contains_seq(name, "reasoning"@)
    ||| contains_seq(name, "-r1"@)
}

/// Whether `model` names a reasoning-heavy model (case-insensitive).
pub fn is_reasoning_heavy_model(model: &str) -> (heavy: bool)
    ensures
        heavy == reasoning_heavy(model@),
{
    let name = lower_chars(model);
    (lower_contains(&name, "deepseek") && (lower_contains(&name, "r1") || lower_contains(
        &name,
        "reasoner",
    ))) || lower_contains(&name, "reasoning") || lower_contains(&name, "-r1")
}

/// A configured model name with the provider prefix `opencode/` removed.
pub open spec fn model_alias(name: Seq<char>) -> Seq<char> {
    if occurs_at(name, "opencode/"@, 0) {
        name.skip("opencode/"@.len() as int)
    } else {
        name
    }
}

/// Maps a configured model name to the name the provider serves it under.
pub fn map_model_name(name: &str) -> (mapped: String)
    ensures
        mapped@ == model_alias(name@),
{
    let chars = str_chars(name);
    let prefix = str_chars("opencode/");
    if matches_at(&chars, &prefix, 0) {
        string_from_range(&chars, prefix.len(), chars.len())
    } else {
        string_from_range(&chars, 0, chars.len())
    }
}

/// The configured fallbacks, trimmed and mapped, without empty names.
pub open spec fn configured_fallbacks(fallbacks: Seq<Seq<char>>) -> Seq<Seq<char>>
    decreases fallbacks.len(),
{
    if fallbacks.len() == 0 {
        Seq::empty()
    } else {
        let before = configured_fallbacks(fallbacks.drop_last());
        let mapped = model_alias(trim(fallbacks.last()));
        if mapped.len() == 0 {
            before
        } else {
            before.push(mapped)
        }
    }
}

/// `names` with every repeat of an earlier name removed.
pub open spec fn first_occurrences(names: Seq<Seq<char>>) -> Seq<Seq<char>>
    decreases names.len(),
{
    if names.len() == 0 {
        Seq::empty()
    } else {
        let before = first_occurrences(names.drop_last());
        if before.contains(names.last()) {
            before
        } else {
            before.push(names.last())
        }
    }
}

/// The views of a vector of strings.
pub open spec fn views(strings: Seq<String>) -> Seq<Seq<char>> {
    strings.map_values(|s: String| s@)
}

/// The models an attempt may go through, in order: the requested model, then
/// the configured fallbacks, or, where none are configured and implicit
/// fallbacks are enabled, the two free models (never for a reasoning stream).
pub open spec fn model_retry_list(model: Seq<char>, stream: bool, retry: RetryConfig) -> Seq<Seq<char>> {
    let configured = configured_fallbacks(views(retry.model_fallbacks@));
    let extra = if configured.len() == 0 {
        if retry.default_fallbacks_enabled && !(stream && reasoning_heavy(model)) && (contains_seq(
            model,
            "deepseek-v4-flash-free"@,
        ) || contains_seq(model, "nemotron-3-ultra-free"@)) {
            seq!["deepseek-v4-flash-free"@, "nemotron-3-ultra-free"@]
        } else {
            Seq::empty()
        }
    } else {
        configured
    };
    first_occurrences(seq![model] + extra)
}

fn mapped_fallbacks(fallbacks: &Vec<String>) -> (mapped: Vec<String>)
    ensures
        views(mapped@) == configured_fallbacks(views(fallbacks@)),
{
    let mut mapped: Vec<String> = Vec::new();
    let mut i: usize = 0;
    while i < fallbacks.len()
        invariant
            i <= fallbacks@.len(),
            views(mapped@) == configured_fallbacks(views(fallbacks@.take(i as int))),
        decreases fallbacks@.len() - i,
    {
        let trimmed = trim_string(fallbacks[i].as_str());
        let name = map_model_name(trimmed.as_str());
        proof {
            let next = views(fallbacks@.take(i + 1));
            assert(next.drop_last() =~= views(fallbacks@.take(i as int)));
            assert(next.last() == fallbacks@[i as int]@);
        }
        if !name.as_str().is_empty() {
            mapped.push(name);
            assert(views(mapped@) =~= configured_fallbacks(views(fallbacks@.take(i as int))).push(
                name@,
            ));
        }
        i = i + 1;
    }
    assert(fallbacks@.take(i as int) =~= fallbacks@);
    mapped
}

fn contains_name(names: &Vec<String>, name: &String) -> (found: bool)
    ensures
        found == views(names@).contains(name@),
{
    let mut i: usize = 0;
    while i < names.len()
        invariant
            i <= names@.len(),
            forall|j: int| 0 <= j < i ==> names@[j]@ != name@,
        decreases names@.len() - i,
    {
        if names[i] == *name {
            assert(views(names@)[i as int] == name@);
            return true;
        }
        i = i + 1;
    }
    proof {
        if views(names@).contains(name@) {
            let j = choose|j: int| 0 <= j < views(names@).len() && views(names@)[j] == name@;
            assert(names@[j]@ == name@);
        }
    }
    false
}

/// The models to try for a request, in order and without repeats.
pub fn build_model_retry_list(model: &str, stream: bool, retry: &RetryConfig) -> (models: Vec<String>)
    ensures
        views(models@) == model_retry_list(model@, stream, *retry),
{
    let configured = mapped_fallbacks(&retry.model_fallbacks);
    let mut candidates: Vec<String> = Vec::new();
    candidates.push(String::from_str(model));
    if configured.len() == 0 {
        if retry.default_fallbacks_enabled && !(stream && is_reasoning_heavy_model(model)) && (
        crate::text::str_contains(model, "deepseek-v4-flash-free") || crate::text::str_contains(
            model,
            "nemotron-3-ultra-free",
        )) {
            candidates.push(String::from_str("deepseek-v4-flash-free"));
            candidates.push(String::from_str("nemotron-3-ultra-free"));
        }
    } else {
        let mut k: usize = 0;
        while k < configured.len()
            invariant
                k <= configured@.len(),
                views(candidates@) =~= seq![model@] + views(configured@).take(k as int),
            decreases configured@.len() - k,
        {
            let ghost before = candidates@;
            let name = configured[k].clone();
            candidates.push(name);
            assert(candidates@ == before.push(configured@[k as int]));
            assert(views(candidates@) =~= views(before).push(views(configured@)[k as int]));
            k = k + 1;
            assert(views(candidates@) =~= seq![model@] + views(configured@).take(k as int));
        }
        assert(views(configured@).take(k as int) =~= views(configured@));
    }
    assert(views(candidates@) =~= seq![model@] + (if views(configured@).len() == 0 {
        if retry.default_fallbacks_enabled && !(stream && reasoning_heavy(model@)) && (contains_seq(
            model@,
            "deepseek-v4-flash-free"@,
        ) || contains_seq(model@, "nemotron-3-ultra-free"@)) {
            seq!["deepseek-v4-flash-free"@, "nemotron-3-ultra-free"@]
        } else {
            Seq::empty()
        }
    } else {
        views(configured@)
    }));
    let mut models: Vec<String> = Vec::new();
    let mut i: usize = 0;
    while i < candidates.len()
        invariant
            i <= candidates@.len(),
            views(models@) == first_occurrences(views(candidates@).take(i as int)),
        decreases candidates@.len() - i,
    {
        proof {
            let next = views(candidates@).take(i + 1);
            assert(next.drop_last() =~= views(candidates@).take(i as int));
            assert(next.last() == candidates@[i as int]@);
        }
        if !contains_name(&models, &candidates[i]) {
            models.push(candidates[i].clone());
            assert(views(models@) =~= first_occurrences(views(candidates@).take(i as int)).push(
                candidates@[i as int]@,
            ));
        }
        i = i + 1;
    }
    assert(views(candidates@).take(i as int) =~= views(candidates@));
    models
}

/// Class of an HTTP status (and, where read, its body): 429 or a rate-limit
/// body is a rate limit, then 5xx is a provider server failure, 4xx a provider
/// client failure, and anything else a malformed response.
pub open spec fn status_class(status: u16, body: Option<Seq<char>>) -> FailureClass {
    if status == 429 || (body matches Some(b) && rate_limit_text(b)) {
        FailureClass::RateLimit
    } else if 500 <= status <= 599 {
        FailureClass::ProviderServer
    } else if 400 <= status <= 499 {
        FailureClass::ProviderClient
    } else {
        FailureClass::MalformedResponse
    }
}

/// Classifies an HTTP status and optional body.
pub fn classify_status(status: u16, body: Option<&str>) -> (class: FailureClass)
    ensures
        class == status_class(
            status,
            match body {
                Some(b) => Some(b@),
                None => None,
            },
        ),
{
    let limited_body = match body {
        Some(text) => is_rate_limit_body(text),
        None => false,
    };
    if status == 429 || limited_body {
        FailureClass::RateLimit
    } else if 500 <= status && status <= 599 {
        FailureClass::ProviderServer
    } else if 400 <= status && status <= 499 {
        FailureClass::ProviderClient
    } else {
        FailureClass::MalformedResponse
    }
}

/// A transport error is a timeout or another transport failure.
pub fn classify_transport_error(is_timeout: bool) -> (class: FailureClass)
    ensures
        class == (if is_timeout {
            FailureClass::Timeout
        } else {
            FailureClass::Transport
        }),
{
    if is_timeout {
        FailureClass::Timeout
    } else {
        FailureClass::Transport
    }
}

/// The class under which a cancelled attempt is reported.
pub fn cancellation_failure() -> (class: FailureClass)
    ensures
        class == FailureClass::Cancelled,
{
    FailureClass::Cancelled
}

/// Only a transport failure or a timeout may move a request to another egress
/// node; a provider answer says nothing about the node it came through.
pub open spec fn egress_change_allowed(class: FailureClass) -> bool {
    class == FailureClass::Transport || class == FailureClass::Timeout
}

/// Whether a retry after `class` may pick a different egress node.
pub fn may_change_egress_after_failure(class: FailureClass) -> (allowed: bool)
    ensures
        allowed == egress_change_allowed(class),
{
    match class {
        FailureClass::Transport | FailureClass::Timeout => true,
        _ => false,
    }
}

/// The retry counter for a failure class.
pub open spec fn metric_class(class: FailureClass) -> RetryMetricClass {
    match class {
        FailureClass::Transport => RetryMetricClass::Transport,
        FailureClass::Timeout => RetryMetricClass::Timeout,
        FailureClass::RateLimit => RetryMetricClass::RateLimit,
        FailureClass::ProviderClient => RetryMetricClass::ProviderClient,
        FailureClass::ProviderServer => RetryMetricClass::ProviderServer,
        FailureClass::MalformedResponse | FailureClass::Cancelled => RetryMetricClass::MalformedResponse,
    }
}

/// The retry counter a failure class is reported under.
pub fn retry_metric_class(class: FailureClass) -> (metric: RetryMetricClass)
    ensures
        metric == metric_class(class),
{
    match class {
        FailureClass::Transport => RetryMetricClass::Transport,
        FailureClass::Timeout => RetryMetricClass::Timeout,
        FailureClass::RateLimit => RetryMetricClass::RateLimit,
        FailureClass::ProviderClient => RetryMetricClass::ProviderClient,
        FailureClass::ProviderServer => RetryMetricClass::ProviderServer,
        FailureClass::MalformedResponse | FailureClass::Cancelled => RetryMetricClass::MalformedResponse,
    }
}

/// A 400 body that rejects the `reasoning_content` field.
pub open spec fn reasoning_content_rejection(body: Seq<char>) -> bool {
    let lower = lower_seq(body);
    contains_seq(lower, "reasoning_content"@) && (contains_seq(lower, "invalid_request"@)
        || contains_seq(lower, "unsupported"@) || contains_seq(lower, "must"@))
}

/// Whether a 400 body rejects the `reasoning_content` field.
pub fn is_reasoning_content_compatibility_error(body: &str) -> (rejected: bool)
    ensures
        rejected == reasoning_content_rejection(body@),
{
    let lower = lower_chars(body);
    lower_contains(&lower, "reasoning_content") && (lower_contains(&lower, "invalid_request")
        || lower_contains(&lower, "unsupported") || lower_contains(&lower, "must"))
}

/// A 400 body that rejects grammar-constrained decoding.
pub open spec fn grammar_constraint_rejection(body: Seq<char>) -> bool {
    let lower = lower_seq(body);
    ||| contains_seq(lower, "grammar-constrained"@)
    ||| contains_seq(lower, "grammar constrained"@)
    ||| (contains_seq(lower, "response_format"@) && contains_seq(lower, "unsupported"@))
}

/// Whether a 400 body rejects grammar-constrained decoding.
pub fn is_grammar_constraint_compatibility_error(body: &str) -> (rejected: bool)
    ensures
        rejected == grammar_constraint_rejection(body@),
{
    let lower = lower_chars(body);
    lower_contains(&lower, "grammar-constrained") || lower_contains(&lower, "grammar constrained")
        || (lower_contains(&lower, "response_format") && lower_contains(&lower, "unsupported"))
}

/// What an HTTP date parses to, in whole seconds since the Unix epoch
/// (`httpdate::parse_http_date`); `None` where it is no HTTP date.
pub uninterp spec fn http_date_secs(value: Seq<char>) -> Option<u64>;

/// Parses an IMF-fixdate (or another HTTP date form) with `httpdate`.
#[verifier::external_body]
fn parse_http_date_secs(value: &str) -> (secs: Option<u64>)
    ensures
        secs == http_date_secs(value@),
{
    match httpdate::parse_http_date(value) {
        Ok(when) => match when.duration_since(std::time::UNIX_EPOCH) {
            Ok(since) => Some(since.as_secs()),
            Err(_) => None,
        },
        Err(_) => None,
    }
}

/// A `Retry-After` value read at `now_millis` (Unix milliseconds): delta
/// seconds, or the whole seconds from now until an HTTP date no earlier
/// than now.
pub open spec fn retry_after_secs(value: Seq<char>, now_millis: u64) -> Option<u64> {
    match parse_u64(trim(value)) {
        Some(seconds) => Some(seconds),
        None => match http_date_secs(value) {
            Some(when) => if when * 1000 >= now_millis {
                Some(((when * 1000 - now_millis) / 1000) as u64)
            } else {
                None
            },
            None => None,
        },
    }
}

/// Parses a `Retry-After` header value at `now_millis` (Unix milliseconds).
pub fn parse_retry_after(value: &str, now_millis: u64) -> (delay: Option<u64>)
    ensures
        delay == retry_after_secs(value@, now_millis),
{
    let chars = str_chars(value);
    let (from, to) = trim_bounds(&chars, 0, chars.len());
    assert(chars@.subrange(0, chars@.len() as int) =~= chars@);
    let trimmed = crate::text::slice_range(&chars, from, to);
    match parse_u64_chars(&trimmed) {
        Some(seconds) => Some(seconds),
        None => match parse_http_date_secs(value) {
            Some(when) => {
                let when_millis: u128 = (when as u128) * 1000;
                if when_millis >= (now_millis as u128) {
                    let ahead: u128 = (when_millis - (now_millis as u128)) / 1000;
                    assert(ahead <= when) by (nonlinear_arith)
                        requires
                            when_millis == when * 1000,
                            ahead == (when_millis - now_millis) / 1000,
                            now_millis >= 0,
                            when_millis >= now_millis,
                    ;
                    Some(ahead as u64)
                } else {
                    None
                }
            },
            None => None,
        },
    }
}

/// The retry delay told to a client: at least one second, at most thirty.
pub open spec fn client_delay(remaining_secs: u64) -> u64 {
    if remaining_secs < MIN_CLIENT_RETRY_AFTER_SECS {
        MIN_CLIENT_RETRY_AFTER_SECS
    } else if remaining_secs > MAX_CLIENT_RETRY_AFTER_SECS {
        MAX_CLIENT_RETRY_AFTER_SECS
    } else {
        remaining_secs
    }
}

/// Clamps a provider quota deadline to the client-visible recovery cadence.
pub fn client_retry_after(remaining_secs: u64) -> (secs: u64)
    ensures
        secs == client_delay(remaining_secs),
        MIN_CLIENT_RETRY_AFTER_SECS <= secs <= MAX_CLIENT_RETRY_AFTER_SECS,
{
    if remaining_secs < MIN_CLIENT_RETRY_AFTER_SECS {
        MIN_CLIENT_RETRY_AFTER_SECS
    } else if remaining_secs > MAX_CLIENT_RETRY_AFTER_SECS {
        MAX_CLIENT_RETRY_AFTER_SECS
    } else {
        remaining_secs
    }
}

/// Caps a provider `Retry-After` at thirty days.
pub fn clamp_provider_retry_after(delay_secs: u64) -> (secs: u64)
    ensures
        secs == (if delay_secs < MAX_RESPECTED_RETRY_AFTER_SECS {
            delay_secs
        } else {
            MAX_RESPECTED_RETRY_AFTER_SECS
        }),
{
    if delay_secs < MAX_RESPECTED_RETRY_AFTER_SECS {
        delay_secs
    } else {
        MAX_RESPECTED_RETRY_AFTER_SECS
    }
}

/// `2^k`.
pub open spec fn pow2(k: nat) -> nat
    decreases k,
{
    if k == 0 {
        1
    } else {
        2 * pow2((k - 1) as nat)
    }
}

/// The backoff before retry `attempt`, in milliseconds: the base doubled per
/// attempt (at most 16 doublings), scaled by a deterministic 75% to 125%
/// jitter taken from `seed`, then capped at the configured maximum.
pub open spec fn backoff_ms(base_ms: u64, max_ms: u64, attempt: u32, seed: u64) -> u64 {
    let doublings: nat = if attempt < 16 { attempt as nat } else { 16 };
    let base = base_ms * pow2(doublings);
    let jittered = base * (75 + seed % 51) / 100;
    if jittered < max_ms {
        jittered as u64
    } else {
        max_ms
    }
}

proof fn lemma_pow2_monotone(k: nat, n: nat)
    requires
        k <= n,
    ensures
        1 <= pow2(k) <= pow2(n),
    decreases n,
{
    if n > k {
        lemma_pow2_monotone(k, (n - 1) as nat);
    } else if k > 0 {
        lemma_pow2_monotone((k - 1) as nat, (k - 1) as nat);
    }
}

proof fn lemma_pow2_bound(k: nat)
    requires
        k <= 16,
    ensures
        1 <= pow2(k) <= 65536,
{
    lemma_pow2_monotone(k, 16);
    assert(pow2(16) == 65536) by {
        reveal_with_fuel(pow2, 17);
    }
}

/// The deterministic, bounded backoff before retry `attempt`, in milliseconds.
pub fn bounded_backoff(retry: &RetryConfig, attempt: u32, jitter_seed: u64) -> (delay_ms: u64)
    ensures
        delay_ms == backoff_ms(retry.base_backoff_ms, retry.max_backoff_ms, attempt, jitter_seed),
        delay_ms <= retry.max_backoff_ms,
{
    let doublings: u32 = if attempt < 16 { attempt } else { 16 };
    let mut factor: u128 = 1;
    let mut k: u32 = 0;
    while k < doublings
        invariant
            k <= doublings <= 16,
            factor == pow2(k as nat),
        decreases doublings - k,
    {
        proof {
            lemma_pow2_bound(k as nat);
        }
        factor = factor * 2;
        k = k + 1;
    }
    proof {
        lemma_pow2_bound(doublings as nat);
        assert(retry.base_backoff_ms * factor <= 0xffff_ffff_ffff_ffffnat * 65536) by (nonlinear_arith)
            requires
                retry.base_backoff_ms <= 0xffff_ffff_ffff_ffffnat,
                factor <= 65536,
        ;
    }
    let base: u128 = (retry.base_backoff_ms as u128) * factor;
    let percent: u128 = 75 + (jitter_seed % 51) as u128;
    proof {
        assert(base * percent <= 0xffff_ffff_ffff_ffffnat * 65536 * 125) by (nonlinear_arith)
            requires
                base <= 0xffff_ffff_ffff_ffffnat * 65536,
                percent <= 125,
        ;
    }
    let jittered: u128 = base * percent / 100;
    if jittered < retry.max_backoff_ms as u128 {
        jittered as u64
    } else {
        retry.max_backoff_ms
    }
}

/// The wait before a same-egress rate-limit retry: the bounded backoff, or
/// the provider's delay where that is longer (milliseconds).
pub open spec fn rate_limit_wait_ms(base: u64, max: u64, retry_count: u32, proxy_index: Option<usize>, retry_after_secs: Option<u64>) -> u64 {
    let seed = (match proxy_index {
        Some(i) => i as u64,
        None => 0u64,
    }) ^ (retry_count as u64);
    let bounded = backoff_ms(base, max, retry_count, seed);
    match retry_after_secs {
        Some(secs) => {
            let provider = if secs <= u64::MAX / 1000 {
                (secs * 1000) as u64
            } else {
                u64::MAX
            };
            if provider > bounded {
                provider
            } else {
                bounded
            }
        },
        None => bounded,
    }
}

/// How long to wait before a same-egress rate-limit retry, in milliseconds.
pub fn rate_limit_backoff_ms(retry: &RetryConfig, retry_count: u32, proxy_index: Option<usize>, retry_after_secs: Option<u64>) -> (wait_ms: u64)
    ensures
        wait_ms == rate_limit_wait_ms(
            retry.base_backoff_ms,
            retry.max_backoff_ms,
            retry_count,
            proxy_index,
            retry_after_secs,
        ),
{
    let index: u64 = match proxy_index {
        Some(i) => i as u64,
        None => 0,
    };
    let seed: u64 = index ^ (retry_count as u64);
    let bounded = bounded_backoff(retry, retry_count, seed);
    match retry_after_secs {
        Some(secs) => {
            let provider: u64 = if secs <= u64::MAX / 1000 {
                secs * 1000
            } else {
                u64::MAX
            };
            if provider > bounded {
                provider
            } else {
                bounded
            }
        },
        None => bounded,
    }
}

/// How long to wait before a retry after a transport failure, in
/// milliseconds.
pub fn transport_backoff_ms(retry: &RetryConfig, retry_count: u32, proxy_index: Option<usize>) -> (wait_ms: u64)
    ensures
        wait_ms == rate_limit_wait_ms(
            retry.base_backoff_ms,
            retry.max_backoff_ms,
            retry_count,
            proxy_index,
            None,
        ),
{
    rate_limit_backoff_ms(retry, retry_count, proxy_index, None)
}

} // verus!
