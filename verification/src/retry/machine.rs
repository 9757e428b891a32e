//! The decisions of the upstream retry loop.
//!
//! One request runs as a loop of attempts. The caller performs each attempt
//! (route selection, the HTTP exchange, sleeping, pool bookkeeping) and hands
//! the outcome to [`RetryLoop::step`], which updates the loop state and says
//! what happens next. Every step that asks for another attempt makes
//! lexicographic progress on the loop's budgets, so the loop always ends.

use crate::config::RetryConfig;
use crate::retry::policy::{
    client_delay, client_retry_after, egress_change_allowed, grammar_constraint_rejection,
    is_grammar_constraint_compatibility_error, is_rate_limit_body,
    is_reasoning_content_compatibility_error, may_change_egress_after_failure, metric_class,
    parse_retry_after, rate_limit_backoff_ms, rate_limit_text, rate_limit_wait_ms,
    reasoning_content_rejection, retry_after_secs, retry_metric_class, status_class,
    clamp_provider_retry_after, classify_status, FailureClass, RetryMetricClass,
    MAX_RESPECTED_RETRY_AFTER_SECS,
};
use crate::text::{decimal, push_decimal, push_str, str_chars};
use vstd::prelude::*;

verus! {

/// Wait before retrying with the next upstream credential, in milliseconds.
pub const KEY_ROTATION_BACKOFF_MS: u64 = 200;

/// Request sanitizations allowed per request: repairing and stripping
/// reasoning content undo each other, so a persistent 400 must not loop.
pub const MAX_COMPAT_SANITIZE_ROUNDS: u32 = 2;

/// State of one request's retry loop.
#[derive(Debug, Clone, Copy, PartialEq, Eq, Structural)]
pub struct RetryLoop {
    /// Number of models in the fallback list (at least one).
    pub model_count: usize,
    /// Index of the model the next attempt uses.
    pub model_index: usize,
    /// Retries spent on the current model.
    pub retry_count: u32,
    /// Retries allowed per model.
    pub max_retries: u32,
    /// Configured upstream credentials (0 or 1 means no rotation).
    pub key_count: usize,
    /// Credentials already rotated through for the current rate limit.
    pub key_attempts: usize,
    /// Request sanitizations already applied.
    pub sanitize_rounds: u32,
    /// Egress node the next route selection must avoid.
    pub last_failed_proxy: Option<usize>,
    /// The next attempt reuses the previous route (same egress, same node).
    pub retain_route: bool,
}

/// What one attempt produced.
#[derive(Debug, Clone)]
pub enum AttemptOutcome {
    /// An HTTP response: its status, its `Retry-After` header, and its body
    /// where [`needs_body`] asked for it.
    Response { status: u16, retry_after: Option<String>, body: Option<String> },
    /// No response: a transport failure.
    Transport { timed_out: bool, connect_failed: bool },
}

/// A rate-limit penalty on an egress node.
#[derive(Debug, Clone, Copy, PartialEq, Eq, Structural)]
pub enum RateLimitPenalty {
    /// Quarantine the node for the provider's `Retry-After` seconds.
    Fixed { index: usize, secs: u64 },
    /// Quarantine the node for the adaptive cooldown of this retry.
    Adaptive { index: usize, retry_count: u32 },
}

/// Why a transport failure ended the loop, as told to the client.
#[derive(Debug, Clone, Copy, PartialEq, Eq, Structural)]
pub enum NetworkDetail {
    TimedOut,
    ConnectFailed,
    RequestFailed,
}

/// How the loop ends without a response for the client.
#[derive(Debug, Clone, Copy, PartialEq, Eq, Structural)]
pub enum RetryFailure {
    /// The provider quota outlasts the backoff ceiling.
    EgressUnavailable { retry_after_secs: u64 },
    /// Rate limited on every retry of the last model.
    RateLimited { retries: u32, status: u16 },
    /// Rate limited through HTTP 400 on every retry of the last model.
    RateLimitedBadRequest { retries: u32 },
    /// The provider failed on the last model.
    ServerError { status: u16 },
    /// The provider rejected the request on the last model.
    BadRequest,
    /// The provider wants payment.
    PaymentRequired,
    /// The last model is forbidden or unknown.
    ModelUnavailable { status: u16 },
    /// Transport failures on every retry of the last model.
    Network { retries: u32, detail: NetworkDetail },
}

/// What the caller does next.
#[derive(Debug, Clone, Copy, PartialEq, Eq, Structural)]
pub enum NextMove {
    /// Hand the response to the client.
    Deliver,
    /// Run another attempt.
    Attempt,
    /// Sanitize the request, then report whether it changed through
    /// [`RetryLoop::after_sanitize`].
    Sanitize { repair_reasoning: bool, strip_response_format: bool },
    /// End the loop with this failure.
    Fail(RetryFailure),
}

/// The effects of one step, in the order the caller applies them.
#[derive(Debug, Clone, Copy, PartialEq, Eq, Structural)]
pub struct RetryStep {
    /// Record a transport success on this node.
    pub record_success_on: Option<usize>,
    /// Clear the rate-limit quarantine of this node (a retained route
    /// succeeded).
    pub clear_rate_limit_on: Option<usize>,
    /// Count a retry under this class.
    pub metric: Option<RetryMetricClass>,
    /// Count a switch to a fallback model.
    pub model_fallback: bool,
    /// Penalise this node for a rate limit.
    pub penalty: Option<RateLimitPenalty>,
    /// Record a transport failure on this node.
    pub record_failure_on: Option<usize>,
    /// Sleep this long before the next move, in milliseconds.
    pub wait_ms: u64,
    /// The next move.
    pub next: NextMove,
}

/// The body is read for these statuses only.
pub open spec fn body_needed(status: u16) -> bool {
    status == 400 || status == 402 || status == 403 || status == 404
}

/// Whether the caller reads the response body before stepping.
pub fn needs_body(status: u16) -> (needed: bool)
    ensures
        needed == body_needed(status),
{
    status == 400 || status == 402 || status == 403 || status == 404
}

/// The loop state at the start of a request.
pub open spec fn initial_loop(model_count: usize, max_network_attempts: usize, key_count: usize) -> RetryLoop {
    RetryLoop {
        model_count,
        model_index: 0,
        retry_count: 0,
        max_retries: max_network_attempts as u32,
        key_count,
        key_attempts: 0,
        sanitize_rounds: 0,
        last_failed_proxy: None,
        retain_route: false,
    }
}

/// A step with no effects besides its wait and next move.
pub open spec fn plain_step(wait_ms: u64, next: NextMove) -> RetryStep {
    RetryStep {
        record_success_on: None,
        clear_rate_limit_on: None,
        metric: None,
        model_fallback: false,
        penalty: None,
        record_failure_on: None,
        wait_ms,
        next,
    }
}

/// The loop state is consistent.
pub open spec fn loop_ok(s: RetryLoop) -> bool {
    &&& s.model_index < s.model_count
    &&& s.retry_count <= s.max_retries
    &&& (s.key_count > 0 ==> s.key_attempts < s.key_count)
    &&& s.sanitize_rounds <= MAX_COMPAT_SANITIZE_ROUNDS
}

/// Whether a credential rotation is left for the current rate limit.
pub open spec fn can_rotate_key(s: RetryLoop) -> bool {
    s.key_count > 1 && s.key_attempts + 1 < s.key_count
}

/// The state after switching to the next fallback model.
pub open spec fn switched_model(s: RetryLoop) -> RetryLoop {
    RetryLoop {
        model_index: (s.model_index + 1) as usize,
        retry_count: 0,
        last_failed_proxy: None,
        retain_route: false,
        ..s
    }
}

/// A fallback model is left.
pub open spec fn has_next_model(s: RetryLoop) -> bool {
    s.model_index + 1 < s.model_count
}

/// The outcome of a rate limit (HTTP 429 or a rate-limit 400 body) once key
/// rotation is exhausted: switch model, retry on the same route after a
/// penalty, or fail.
pub open spec fn rate_limited_step(s: RetryLoop, retry: RetryConfig, status: u16, through_400: bool, retry_after: Option<u64>, proxy: Option<usize>, success_on: Option<usize>, clear_on: Option<usize>) -> (RetryLoop, RetryStep) {
    let base = RetryLoop { key_attempts: 0, retain_route: false, ..s };
    if has_next_model(base) {
        (switched_model(base), RetryStep { record_success_on: success_on, clear_rate_limit_on: clear_on, model_fallback: true, ..plain_step(0, NextMove::Attempt) })
    } else if base.retry_count < base.max_retries {
        let count = (base.retry_count + 1) as u32;
        let penalty = match proxy {
            Some(i) => match retry_after {
                Some(secs) => Some(RateLimitPenalty::Fixed { index: i, secs }),
                None => Some(RateLimitPenalty::Adaptive { index: i, retry_count: count }),
            },
            None => None,
        };
        let next_state = RetryLoop { retry_count: count, last_failed_proxy: None, ..base };
        let effects = RetryStep {
            record_success_on: success_on,
            clear_rate_limit_on: clear_on,
            metric: Some(RetryMetricClass::RateLimit),
            penalty,
            ..plain_step(0, NextMove::Attempt)
        };
        let too_long = match retry_after {
            Some(secs) => secs * 1000 > retry.max_backoff_ms,
            None => false,
        };
        if too_long {
            (
                next_state,
                RetryStep { next: NextMove::Fail(RetryFailure::EgressUnavailable { retry_after_secs: client_delay(retry_after->0) }), ..effects },
            )
        } else {
            (
                RetryLoop { retain_route: true, ..next_state },
                RetryStep {
                    wait_ms: rate_limit_wait_ms(retry.base_backoff_ms, retry.max_backoff_ms, count, proxy, retry_after),
                    ..effects
                },
            )
        }
    } else {
        (
            base,
            RetryStep {
                record_success_on: success_on,
                clear_rate_limit_on: clear_on,
                ..plain_step(0, NextMove::Fail(if through_400 {
                    RetryFailure::RateLimitedBadRequest { retries: base.retry_count }
                } else {
                    RetryFailure::RateLimited { retries: base.retry_count, status }
                }))
            },
        )
    }
}

/// Switch to the next model, or fail with `failure`.
pub open spec fn advance_or_fail(s: RetryLoop, failure: RetryFailure, success_on: Option<usize>) -> (RetryLoop, RetryStep) {
    if has_next_model(s) {
        (switched_model(s), RetryStep { record_success_on: success_on, model_fallback: true, ..plain_step(0, NextMove::Attempt) })
    } else {
        (RetryLoop { retain_route: false, ..s }, RetryStep { record_success_on: success_on, ..plain_step(0, NextMove::Fail(failure)) })
    }
}

/// The client-facing reason for a terminal transport failure.
pub open spec fn network_detail(timed_out: bool, connect_failed: bool) -> NetworkDetail {
    if timed_out {
        NetworkDetail::TimedOut
    } else if connect_failed {
        NetworkDetail::ConnectFailed
    } else {
        NetworkDetail::RequestFailed
    }
}

/// The step taken on `outcome` of an attempt through `proxy` (the node of the
/// attempt's route, `None` for a direct route), read at `now_millis`.
pub open spec fn step_spec(s: RetryLoop, retry: RetryConfig, proxy: Option<usize>, outcome: AttemptOutcome, now_millis: u64) -> (RetryLoop, RetryStep) {
    match outcome {
        AttemptOutcome::Response { status, retry_after, body } => {
            let retained = s.retain_route;
            let clear_on = if 200 <= status <= 299 && retained { proxy } else { None };
            let body_view = match body {
                Some(b) => b@,
                None => Seq::empty(),
            };
            let class = status_class(status, None);
            if class == FailureClass::RateLimit {
                if can_rotate_key(s) {
                    (
                        RetryLoop { key_attempts: (s.key_attempts + 1) as usize, retain_route: true, ..s },
                        RetryStep { record_success_on: proxy, clear_rate_limit_on: clear_on, ..plain_step(KEY_ROTATION_BACKOFF_MS, NextMove::Attempt) },
                    )
                } else {
                    let parsed = match retry_after {
                        Some(h) => match retry_after_secs(h@, now_millis) {
                            Some(secs) => Some(if secs < MAX_RESPECTED_RETRY_AFTER_SECS { secs } else { MAX_RESPECTED_RETRY_AFTER_SECS }),
                            None => None,
                        },
                        None => None,
                    };
                    rate_limited_step(s, retry, status, false, parsed, proxy, proxy, clear_on)
                }
            } else if class == FailureClass::ProviderServer {
                advance_or_fail(RetryLoop { retain_route: false, ..s }, RetryFailure::ServerError { status }, proxy)
            } else if status == 400 {
                if rate_limit_text(body_view) {
                    if can_rotate_key(s) {
                        (
                            RetryLoop { key_attempts: (s.key_attempts + 1) as usize, retain_route: true, ..s },
                            RetryStep { record_success_on: proxy, ..plain_step(KEY_ROTATION_BACKOFF_MS, NextMove::Attempt) },
                        )
                    } else {
                        rate_limited_step(s, retry, status, true, None, proxy, proxy, None)
                    }
                } else {
                    let budget = s.sanitize_rounds < MAX_COMPAT_SANITIZE_ROUNDS;
                    let repair = budget && reasoning_content_rejection(body_view);
                    let strip = budget && grammar_constraint_rejection(body_view);
                    if repair || strip {
                        (
                            RetryLoop { retain_route: false, ..s },
                            RetryStep { record_success_on: proxy, ..plain_step(0, NextMove::Sanitize { repair_reasoning: repair, strip_response_format: strip }) },
                        )
                    } else {
                        advance_or_fail(RetryLoop { retain_route: false, ..s }, RetryFailure::BadRequest, proxy)
                    }
                }
            } else if status == 402 {
                (RetryLoop { retain_route: false, ..s }, RetryStep { record_success_on: proxy, ..plain_step(0, NextMove::Fail(RetryFailure::PaymentRequired)) })
            } else if status == 403 || status == 404 {
                advance_or_fail(RetryLoop { retain_route: false, ..s }, RetryFailure::ModelUnavailable { status }, proxy)
            } else {
                (RetryLoop { retain_route: false, ..s }, RetryStep { record_success_on: proxy, clear_rate_limit_on: clear_on, ..plain_step(0, NextMove::Deliver) })
            }
        },
        AttemptOutcome::Transport { timed_out, connect_failed } => {
            let class = if timed_out { FailureClass::Timeout } else { FailureClass::Transport };
            let base = RetryLoop { retain_route: false, ..s };
            if base.retry_count < base.max_retries {
                let count = (base.retry_count + 1) as u32;
                let last = match proxy {
                    Some(i) => if egress_change_allowed(class) { Some(i) } else { None },
                    None => base.last_failed_proxy,
                };
                (
                    RetryLoop { retry_count: count, last_failed_proxy: last, ..base },
                    RetryStep {
                        metric: Some(metric_class(class)),
                        record_failure_on: proxy,
                        ..plain_step(rate_limit_wait_ms(retry.base_backoff_ms, retry.max_backoff_ms, count, proxy, None), NextMove::Attempt)
                    },
                )
            } else {
                advance_or_fail(base, RetryFailure::Network { retries: base.retry_count, detail: network_detail(timed_out, connect_failed) }, None)
            }
        },
    }
}

/// The step after the caller sanitized the request: another attempt where it
/// changed, else a model switch or the bad-request failure.
pub open spec fn after_sanitize_spec(s: RetryLoop, changed: bool) -> (RetryLoop, RetryStep) {
    if changed {
        (
            RetryLoop { sanitize_rounds: (s.sanitize_rounds + 1) as u32, ..s },
            RetryStep { metric: Some(RetryMetricClass::ProviderClient), ..plain_step(0, NextMove::Attempt) },
        )
    } else {
        advance_or_fail(s, RetryFailure::BadRequest, None)
    }
}

/// Lexicographic progress of the loop's budgets from `old` to `new`:
/// sanitizations, then models, then retries, then credentials.
pub open spec fn made_progress(new: RetryLoop, old: RetryLoop) -> bool {
    ||| new.sanitize_rounds > old.sanitize_rounds
    ||| (new.sanitize_rounds == old.sanitize_rounds && new.model_index > old.model_index)
    ||| (new.sanitize_rounds == old.sanitize_rounds && new.model_index == old.model_index
        && new.retry_count > old.retry_count)
    ||| (new.sanitize_rounds == old.sanitize_rounds && new.model_index == old.model_index
        && new.retry_count == old.retry_count && new.key_attempts > old.key_attempts)
}

impl RetryLoop {
    /// The loop state at the start of a request over `model_count` models.
    pub fn new(model_count: usize, retry: &RetryConfig) -> (state: RetryLoop)
        requires
            model_count > 0,
        ensures
            state == initial_loop(model_count, retry.max_network_attempts, retry.upstream_api_keys@.len() as usize),
            loop_ok(state),
    {
        RetryLoop {
            model_count,
            model_index: 0,
            retry_count: 0,
            max_retries: retry.max_network_attempts as u32,
            key_count: retry.upstream_api_keys.len(),
            key_attempts: 0,
            sanitize_rounds: 0,
            last_failed_proxy: None,
            retain_route: false,
        }
    }

    /// Whether the loop state is consistent (the condition `step` needs).
    pub fn is_consistent(&self) -> (ok: bool)
        ensures
            ok == loop_ok(*self),
    {
        self.model_index < self.model_count && self.retry_count <= self.max_retries && (self.key_count == 0
            || self.key_attempts < self.key_count) && self.sanitize_rounds <= MAX_COMPAT_SANITIZE_ROUNDS
    }

    /// The credential an attempt uses, counted from the request's starting
    /// credential `start`; `None` without configured credentials.
    pub fn key_slot(&self, start: usize) -> (slot: Option<usize>)
        ensures
            slot == (if self.key_count == 0 {
                None
            } else {
                Some(((start as int + self.key_attempts as int) % self.key_count as int) as usize)
            }),
            slot matches Some(k) ==> k < self.key_count,
    {
        if self.key_count == 0 {
            None
        } else {
            let a: usize = start % self.key_count;
            let b: usize = self.key_attempts % self.key_count;
            let slot: usize = if a < self.key_count - b {
                a + b
            } else {
                a - (self.key_count - b)
            };
            proof {
                let n = self.key_count as int;
                vstd::arithmetic::div_mod::lemma_add_mod_noop(start as int, self.key_attempts as int, n);
                if a < n - b {
                    vstd::arithmetic::div_mod::lemma_small_mod((a + b) as nat, n as nat);
                } else {
                    vstd::arithmetic::div_mod::lemma_small_mod((a + b - n) as nat, n as nat);
                    vstd::arithmetic::div_mod::lemma_mod_sub_multiples_vanish(a + b, n);
                }
            }
            Some(slot)
        }
    }

    fn switch_model(&mut self) -> (switched: bool)
        ensures
            switched == has_next_model(*old(self)),
            switched ==> *final(self) == switched_model(*old(self)),
            !switched ==> *final(self) == *old(self),
    {
        if self.model_index < self.model_count && self.model_count - self.model_index > 1 {
            self.model_index = self.model_index + 1;
            self.retry_count = 0;
            self.last_failed_proxy = None;
            self.retain_route = false;
            true
        } else {
            false
        }
    }

    fn advance_or_fail(&mut self, failure: RetryFailure, success_on: Option<usize>) -> (step: RetryStep)
        ensures
            (*final(self), step) == advance_or_fail(*old(self), failure, success_on),
    {
        if self.switch_model() {
            RetryStep {
                record_success_on: success_on,
                clear_rate_limit_on: None,
                metric: None,
                model_fallback: true,
                penalty: None,
                record_failure_on: None,
                wait_ms: 0,
                next: NextMove::Attempt,
            }
        } else {
            self.retain_route = false;
            RetryStep {
                record_success_on: success_on,
                clear_rate_limit_on: None,
                metric: None,
                model_fallback: false,
                penalty: None,
                record_failure_on: None,
                wait_ms: 0,
                next: NextMove::Fail(failure),
            }
        }
    }

    fn rate_limited(&mut self, retry: &RetryConfig, status: u16, through_400: bool, retry_after: Option<u64>, proxy: Option<usize>, clear_on: Option<usize>) -> (step: RetryStep)
        requires
            old(self).retry_count <= old(self).max_retries,
        ensures
            (*final(self), step) == rate_limited_step(*old(self), *retry, status, through_400, retry_after, proxy, proxy, clear_on),
    {
        self.key_attempts = 0;
        self.retain_route = false;
        if self.switch_model() {
            return RetryStep {
                record_success_on: proxy,
                clear_rate_limit_on: clear_on,
                metric: None,
                model_fallback: true,
                penalty: None,
                record_failure_on: None,
                wait_ms: 0,
                next: NextMove::Attempt,
            };
        }
        if self.retry_count < self.max_retries {
            let count: u32 = self.retry_count + 1;
            self.retry_count = count;
            self.last_failed_proxy = None;
            let penalty = match proxy {
                Some(i) => match retry_after {
                    Some(secs) => Some(RateLimitPenalty::Fixed { index: i, secs }),
                    None => Some(RateLimitPenalty::Adaptive { index: i, retry_count: count }),
                },
                None => None,
            };
            let too_long = match retry_after {
                Some(secs) => secs > u64::MAX / 1000 || secs * 1000 > retry.max_backoff_ms,
                None => false,
            };
            if too_long {
                let secs = match retry_after {
                    Some(secs) => secs,
                    None => 0,
                };
                return RetryStep {
                    record_success_on: proxy,
                    clear_rate_limit_on: clear_on,
                    metric: Some(RetryMetricClass::RateLimit),
                    model_fallback: false,
                    penalty,
                    record_failure_on: None,
                    wait_ms: 0,
                    next: NextMove::Fail(RetryFailure::EgressUnavailable { retry_after_secs: client_retry_after(secs) }),
                };
            }
            self.retain_route = true;
            let wait_ms = rate_limit_backoff_ms(retry, count, proxy, retry_after);
            RetryStep {
                record_success_on: proxy,
                clear_rate_limit_on: clear_on,
                metric: Some(RetryMetricClass::RateLimit),
                model_fallback: false,
                penalty,
                record_failure_on: None,
                wait_ms,
                next: NextMove::Attempt,
            }
        } else {
            let failure = if through_400 {
                RetryFailure::RateLimitedBadRequest { retries: self.retry_count }
            } else {
                RetryFailure::RateLimited { retries: self.retry_count, status }
            };
            RetryStep {
                record_success_on: proxy,
                clear_rate_limit_on: clear_on,
                metric: None,
                model_fallback: false,
                penalty: None,
                record_failure_on: None,
                wait_ms: 0,
                next: NextMove::Fail(failure),
            }
        }
    }

    /// Takes the outcome of an attempt through `proxy` (`None`: a direct
    /// route) at `now_millis` (Unix milliseconds) and decides what follows.
    pub fn step(&mut self, retry: &RetryConfig, proxy: Option<usize>, outcome: &AttemptOutcome, now_millis: u64) -> (step: RetryStep)
        requires
            loop_ok(*old(self)),
        ensures
            (*final(self), step) == step_spec(*old(self), *retry, proxy, *outcome, now_millis),
    {
        match outcome {
            AttemptOutcome::Response { status, retry_after, body } => {
                let status = *status;
                let retained = self.retain_route;
                let clear_on = if 200 <= status && status <= 299 && retained {
                    proxy
                } else {
                    None
                };
                let class = classify_status(status, None);
                let can_rotate = self.key_count > 1 && self.key_attempts + 1 < self.key_count;
                if class == FailureClass::RateLimit {
                    if can_rotate {
                        self.key_attempts = self.key_attempts + 1;
                        self.retain_route = true;
                        return RetryStep {
                            record_success_on: proxy,
                            clear_rate_limit_on: clear_on,
                            metric: None,
                            model_fallback: false,
                            penalty: None,
                            record_failure_on: None,
                            wait_ms: KEY_ROTATION_BACKOFF_MS,
                            next: NextMove::Attempt,
                        };
                    }
                    let parsed = match retry_after {
                        Some(h) => match parse_retry_after(h.as_str(), now_millis) {
                            Some(secs) => Some(clamp_provider_retry_after(secs)),
                            None => None,
                        },
                        None => None,
                    };
                    return self.rate_limited(retry, status, false, parsed, proxy, clear_on);
                }
                self.retain_route = false;
                if class == FailureClass::ProviderServer {
                    return self.advance_or_fail(RetryFailure::ServerError { status }, proxy);
                }
                if status == 400 {
                    let empty = String::new();
                    let text: &str = match body {
                        Some(b) => b.as_str(),
                        None => empty.as_str(),
                    };
                    let limited = is_rate_limit_body(text);
                    let reasoning = is_reasoning_content_compatibility_error(text);
                    let grammar = is_grammar_constraint_compatibility_error(text);
                    if limited {
                        if can_rotate {
                            self.key_attempts = self.key_attempts + 1;
                            self.retain_route = true;
                            return RetryStep {
                                record_success_on: proxy,
                                clear_rate_limit_on: None,
                                metric: None,
                                model_fallback: false,
                                penalty: None,
                                record_failure_on: None,
                                wait_ms: KEY_ROTATION_BACKOFF_MS,
                                next: NextMove::Attempt,
                            };
                        }
                        return self.rate_limited(retry, status, true, None, proxy, None);
                    }
                    let budget = self.sanitize_rounds < MAX_COMPAT_SANITIZE_ROUNDS;
                    let repair = budget && reasoning;
                    let strip = budget && grammar;
                    if repair || strip {
                        return RetryStep {
                            record_success_on: proxy,
                            clear_rate_limit_on: None,
                            metric: None,
                            model_fallback: false,
                            penalty: None,
                            record_failure_on: None,
                            wait_ms: 0,
                            next: NextMove::Sanitize { repair_reasoning: repair, strip_response_format: strip },
                        };
                    }
                    return self.advance_or_fail(RetryFailure::BadRequest, proxy);
                }
                if status == 402 {
                    return RetryStep {
                        record_success_on: proxy,
                        clear_rate_limit_on: None,
                        metric: None,
                        model_fallback: false,
                        penalty: None,
                        record_failure_on: None,
                        wait_ms: 0,
                        next: NextMove::Fail(RetryFailure::PaymentRequired),
                    };
                }
                if status == 403 || status == 404 {
                    return self.advance_or_fail(RetryFailure::ModelUnavailable { status }, proxy);
                }
                RetryStep {
                    record_success_on: proxy,
                    clear_rate_limit_on: clear_on,
                    metric: None,
                    model_fallback: false,
                    penalty: None,
                    record_failure_on: None,
                    wait_ms: 0,
                    next: NextMove::Deliver,
                }
            },
            AttemptOutcome::Transport { timed_out, connect_failed } => {
                let class = if *timed_out {
                    FailureClass::Timeout
                } else {
                    FailureClass::Transport
                };
                self.retain_route = false;
                if self.retry_count < self.max_retries {
                    let count: u32 = self.retry_count + 1;
                    self.retry_count = count;
                    match proxy {
                        Some(i) => {
                            self.last_failed_proxy = if may_change_egress_after_failure(class) {
                                Some(i)
                            } else {
                                None
                            };
                        },
                        None => {},
                    }
                    let wait_ms = rate_limit_backoff_ms(retry, count, proxy, None);
                    RetryStep {
                        record_success_on: None,
                        clear_rate_limit_on: None,
                        metric: Some(retry_metric_class(class)),
                        model_fallback: false,
                        penalty: None,
                        record_failure_on: proxy,
                        wait_ms,
                        next: NextMove::Attempt,
                    }
                } else {
                    let detail = if *timed_out {
                        NetworkDetail::TimedOut
                    } else if *connect_failed {
                        NetworkDetail::ConnectFailed
                    } else {
                        NetworkDetail::RequestFailed
                    };
                    let failure = RetryFailure::Network { retries: self.retry_count, detail };
                    self.advance_or_fail(failure, None)
                }
            },
        }
    }

    /// Reports whether the sanitization asked for by a
    /// [`NextMove::Sanitize`] changed the request.
    pub fn after_sanitize(&mut self, changed: bool) -> (step: RetryStep)
        requires
            loop_ok(*old(self)),
            old(self).sanitize_rounds < MAX_COMPAT_SANITIZE_ROUNDS,
        ensures
            (*final(self), step) == after_sanitize_spec(*old(self), changed),
    {
        if changed {
            self.sanitize_rounds = self.sanitize_rounds + 1;
            RetryStep {
                record_success_on: None,
                clear_rate_limit_on: None,
                metric: Some(RetryMetricClass::ProviderClient),
                model_fallback: false,
                penalty: None,
                record_failure_on: None,
                wait_ms: 0,
                next: NextMove::Attempt,
            }
        } else {
            self.advance_or_fail(RetryFailure::BadRequest, None)
        }
    }
}

/// A forbidden or unknown model (HTTP 403 or 404) is replaced by the next
/// fallback model while one is left: another attempt follows on the next
/// model, with the fallback counted and the retry budget fresh. On the last
/// model the loop fails with the status.
pub proof fn unavailable_model_falls_back(
    s: RetryLoop,
    retry: RetryConfig,
    proxy: Option<usize>,
    status: u16,
    retry_after: Option<String>,
    body: Option<String>,
    now_millis: u64,
)
    requires
        status == 403 || status == 404,
    ensures
        ({
            let (t, step) = step_spec(s, retry, proxy, AttemptOutcome::Response { status, retry_after, body }, now_millis);
            &&& s.model_index + 1 < s.model_count ==> {
                &&& step.next == NextMove::Attempt
                &&& step.model_fallback
                &&& t.model_index == s.model_index + 1
                &&& t.retry_count == 0
                &&& t.model_count == s.model_count
            }
            &&& s.model_index + 1 >= s.model_count ==> {
                &&& step.next == NextMove::Fail(RetryFailure::ModelUnavailable { status })
                &&& t.model_index == s.model_index
            }
        }),
{
}

/// Every step keeps the loop state consistent: the model index stays inside
/// the fallback list, retries within their budget, the credential cursor
/// within the credentials and sanitizations within their cap.
pub proof fn step_keeps_loop_ok(s: RetryLoop, retry: RetryConfig, proxy: Option<usize>, outcome: AttemptOutcome, now_millis: u64)
    requires
        loop_ok(s),
    ensures
        loop_ok(step_spec(s, retry, proxy, outcome, now_millis).0),
{
}

/// A completed sanitization keeps the loop state consistent.
pub proof fn after_sanitize_keeps_loop_ok(s: RetryLoop, changed: bool)
    requires
        loop_ok(s),
        s.sanitize_rounds < MAX_COMPAT_SANITIZE_ROUNDS,
    ensures
        loop_ok(after_sanitize_spec(s, changed).0),
{
}

/// The loop ends: every step that asks for another attempt spends budget
/// (a sanitization, a model, a retry or a credential, in that order), and a
/// step that asks for a sanitization leaves the budgets as they were.
pub proof fn retry_loop_makes_progress(s: RetryLoop, retry: RetryConfig, proxy: Option<usize>, outcome: AttemptOutcome, now_millis: u64, changed: bool)
    requires
        loop_ok(s),
    ensures
        step_spec(s, retry, proxy, outcome, now_millis).1.next == NextMove::Attempt ==> made_progress(
            step_spec(s, retry, proxy, outcome, now_millis).0,
            s,
        ),
        step_spec(s, retry, proxy, outcome, now_millis).1.next is Sanitize ==> {
            let t = step_spec(s, retry, proxy, outcome, now_millis).0;
            &&& t.sanitize_rounds == s.sanitize_rounds < MAX_COMPAT_SANITIZE_ROUNDS
            &&& t.model_index == s.model_index
            &&& t.retry_count == s.retry_count
            &&& t.key_attempts == s.key_attempts
        },
        s.sanitize_rounds < MAX_COMPAT_SANITIZE_ROUNDS ==> (after_sanitize_spec(s, changed).1.next
            == NextMove::Attempt ==> made_progress(after_sanitize_spec(s, changed).0, s)),
{
}

/// A provider answer (any HTTP response) never counts against the egress node
/// it came through: no transport failure is recorded and no new node is marked
/// to avoid. Only a transport failure or timeout through a node marks that
/// node to avoid.
pub proof fn responses_never_blame_egress(s: RetryLoop, retry: RetryConfig, proxy: Option<usize>, outcome: AttemptOutcome, now_millis: u64)
    requires
        loop_ok(s),
    ensures
        outcome is Response ==> {
            let (t, step) = step_spec(s, retry, proxy, outcome, now_millis);
            &&& step.record_failure_on is None
            &&& (t.last_failed_proxy is None || t.last_failed_proxy == s.last_failed_proxy)
        },
        ({
            let (t, step) = step_spec(s, retry, proxy, outcome, now_millis);
            t.last_failed_proxy != s.last_failed_proxy && t.last_failed_proxy is Some ==> (outcome is Transport
                && t.last_failed_proxy == proxy)
        }),
{
}

/// A direct route (no egress node) is never penalised, blamed or cleared.
pub proof fn direct_route_touches_no_node(s: RetryLoop, retry: RetryConfig, outcome: AttemptOutcome, now_millis: u64)
    requires
        loop_ok(s),
    ensures
        ({
            let step = step_spec(s, retry, None, outcome, now_millis).1;
            &&& step.penalty is None
            &&& step.record_failure_on is None
            &&& step.clear_rate_limit_on is None
            &&& step.record_success_on is None
        }),
{
}

/// A rate limit with a credential rotation left retries at once on the same
/// route with the next credential, without spending a retry or a model.
pub proof fn rate_limit_rotates_credentials_first(s: RetryLoop, retry: RetryConfig, proxy: Option<usize>, retry_after: Option<String>, body: Option<String>, now_millis: u64)
    requires
        loop_ok(s),
        can_rotate_key(s),
    ensures
        ({
            let (t, step) = step_spec(s, retry, proxy, AttemptOutcome::Response { status: 429, retry_after, body }, now_millis);
            &&& t.key_attempts == s.key_attempts + 1
            &&& t.retain_route
            &&& t.retry_count == s.retry_count
            &&& t.model_index == s.model_index
            &&& step.penalty is None
            &&& step.wait_ms == KEY_ROTATION_BACKOFF_MS
            &&& step.next == NextMove::Attempt
        }),
{
}

/// The error kind a failure is reported as.
#[derive(Debug, Clone, Copy, PartialEq, Eq, Structural)]
pub enum FailureKind {
    /// No usable egress for now; the client should retry later.
    EgressUnavailable,
    /// The provider wants payment.
    PaymentRequired,
    /// Any other upstream failure.
    Upstream,
}

/// The reason phrase HTTP gives a status code (`StatusCode::canonical_reason`).
pub uninterp spec fn canonical_reason(code: u16) -> Option<Seq<char>>;

/// The reason phrase of a status code, from the HTTP crate reqwest uses.
#[verifier::external_body]
fn status_reason(code: u16) -> (reason: Option<String>)
    ensures
        reason matches Some(r) ==> canonical_reason(code) == Some(r@),
        reason is None ==> canonical_reason(code) is None,
{
    match reqwest::StatusCode::from_u16(code) {
        Ok(status) => status.canonical_reason().map(|r| r.to_string()),
        Err(_) => None,
    }
}

/// How a status code is displayed: the number and its reason phrase.
pub open spec fn status_display(code: u16) -> Seq<char> {
    decimal(code as nat) + " "@ + match canonical_reason(code) {
        Some(r) => r,
        None => "<unknown status code>"@,
    }
}

pub(crate) fn push_status(out: &mut String, code: u16)
    ensures
        final(out)@ == old(out)@ + status_display(code),
{
    push_decimal(out, code as u64);
    push_str(out, " ");
    match status_reason(code) {
        Some(reason) => push_str(out, reason.as_str()),
        None => push_str(out, "<unknown status code>"),
    }
}

/// The first `n` characters of `s`.
pub open spec fn prefix_chars(s: Seq<char>, n: nat) -> Seq<char> {
    if s.len() <= n {
        s
    } else {
        s.take(n as int)
    }
}

/// The client-facing text of a terminal network error.
pub open spec fn network_detail_text(detail: NetworkDetail) -> Seq<char> {
    match detail {
        NetworkDetail::TimedOut => "upstream timed out"@,
        NetworkDetail::ConnectFailed => "upstream connection failed"@,
        NetworkDetail::RequestFailed => "upstream request failed"@,
    }
}

/// The error kind of a failure.
pub open spec fn failure_kind(failure: RetryFailure) -> FailureKind {
    match failure {
        RetryFailure::EgressUnavailable { .. } => FailureKind::EgressUnavailable,
        RetryFailure::PaymentRequired => FailureKind::PaymentRequired,
        _ => FailureKind::Upstream,
    }
}

/// The message of a failure; `body` is the response body of a 403 or 404, of
/// which the first 200 characters are shown.
pub open spec fn failure_text(failure: RetryFailure, body: Seq<char>) -> Seq<char> {
    match failure {
        RetryFailure::EgressUnavailable { retry_after_secs } => "upstream rate limit is active; retry after "@
            + decimal(retry_after_secs as nat) + " second(s)"@,
        RetryFailure::RateLimited { retries, status } => "Rate limited after "@ + decimal(retries as nat)
            + " retries (status "@ + status_display(status) + ")"@,
        RetryFailure::RateLimitedBadRequest { retries } => "Rate limited through HTTP 400 after "@
            + decimal(retries as nat) + " retries"@,
        RetryFailure::ServerError { status } => "Upstream server error after model fallback (status "@
            + status_display(status) + ")"@,
        RetryFailure::BadRequest => "Upstream returned HTTP 400 after model fallback"@,
        RetryFailure::PaymentRequired => "Upstream API requires payment. Check your API credits/billing on the provider dashboard."@,
        RetryFailure::ModelUnavailable { status } => "Upstream returned status "@ + status_display(status)
            + ": "@ + prefix_chars(body, 200),
        RetryFailure::Network { retries, detail } => "Network error after "@ + decimal(retries as nat)
            + " retries: "@ + network_detail_text(detail),
    }
}

/// The first `n` characters of `s` as a new `String`.
pub fn prefix_string(s: &str, n: usize) -> (prefix: String)
    ensures
        prefix@ == prefix_chars(s@, n as nat),
{
    let chars = str_chars(s);
    let end: usize = if chars.len() <= n { chars.len() } else { n };
    assert(chars@.subrange(0, chars@.len() as int) =~= chars@);
    crate::text::string_from_range(&chars, 0, end)
}

impl RetryFailure {
    /// The error kind this failure is reported as.
    pub fn kind(&self) -> (kind: FailureKind)
        ensures
            kind == failure_kind(*self),
    {
        match self {
            RetryFailure::EgressUnavailable { .. } => FailureKind::EgressUnavailable,
            RetryFailure::PaymentRequired => FailureKind::PaymentRequired,
            _ => FailureKind::Upstream,
        }
    }

    /// The message told to the client; `body` is the response body of a 403
    /// or 404.
    pub fn message(&self, body: &str) -> (text: String)
        ensures
            text@ == failure_text(*self, body@),
    {
        let mut out = String::new();
        match self {
            RetryFailure::EgressUnavailable { retry_after_secs } => {
                push_str(&mut out, "upstream rate limit is active; retry after ");
                push_decimal(&mut out, *retry_after_secs);
                push_str(&mut out, " second(s)");
            },
            RetryFailure::RateLimited { retries, status } => {
                push_str(&mut out, "Rate limited after ");
                push_decimal(&mut out, *retries as u64);
                push_str(&mut out, " retries (status ");
                push_status(&mut out, *status);
                push_str(&mut out, ")");
            },
            RetryFailure::RateLimitedBadRequest { retries } => {
                push_str(&mut out, "Rate limited through HTTP 400 after ");
                push_decimal(&mut out, *retries as u64);
                push_str(&mut out, " retries");
            },
            RetryFailure::ServerError { status } => {
                push_str(&mut out, "Upstream server error after model fallback (status ");
                push_status(&mut out, *status);
                push_str(&mut out, ")");
            },
            RetryFailure::BadRequest => {
                push_str(&mut out, "Upstream returned HTTP 400 after model fallback");
            },
            RetryFailure::PaymentRequired => {
                push_str(
                    &mut out,
                    "Upstream API requires payment. Check your API credits/billing on the provider dashboard.",
                );
            },
            RetryFailure::ModelUnavailable { status } => {
                push_str(&mut out, "Upstream returned status ");
                push_status(&mut out, *status);
                push_str(&mut out, ": ");
                let prefix = prefix_string(body, 200);
                push_str(&mut out, prefix.as_str());
            },
            RetryFailure::Network { retries, detail } => {
                push_str(&mut out, "Network error after ");
                push_decimal(&mut out, *retries as u64);
                push_str(&mut out, " retries: ");
                match detail {
                    NetworkDetail::TimedOut => push_str(&mut out, "upstream timed out"),
                    NetworkDetail::ConnectFailed => push_str(&mut out, "upstream connection failed"),
                    NetworkDetail::RequestFailed => push_str(&mut out, "upstream request failed"),
                }
            },
        }
        proof {
            assert(Seq::<char>::empty() + failure_text(*self, body@) =~= failure_text(*self, body@));
        }
        out
    }
}

} // verus!
