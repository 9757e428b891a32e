//! Provider orchestration: the strict fallback order, the chain's time
//! budget, what each provider's outcome does to the chain, and the redirect
//! rule of the keyless scrapers.
//!
//! The caller performs each attempt (an HTTP request under the remaining
//! budget) and hands its outcome to a [`SearchChain`], which says whether the
//! search is answered or which provider comes next.

use crate::search::types::{
    format_search_context, provider_label, search_context, error_kind_label, SearchError,
    SearchErrorKind, SearchProviderKind, SearchResult,
};
use crate::text::{decimal, push_decimal, push_str};
use vstd::prelude::*;

verus! {

/// The providers of a chain in strict priority: the keyed providers whose
/// credential is configured (Tavily, Exa, Serper, then SearXNG where its URL
/// is set), then the keyless DuckDuckGo and Yahoo scrapers.
pub open spec fn chain_spec(tavily: bool, exa: bool, serper: bool, searxng: bool) -> Seq<SearchProviderKind> {
    (if tavily { seq![SearchProviderKind::Tavily] } else { Seq::empty() })
        + (if exa { seq![SearchProviderKind::Exa] } else { Seq::empty() })
        + (if serper { seq![SearchProviderKind::Serper] } else { Seq::empty() })
        + (if searxng { seq![SearchProviderKind::SearXng] } else { Seq::empty() })
        + seq![SearchProviderKind::DuckDuckGo, SearchProviderKind::Yahoo]
}

/// The provider chain for the configured credentials.
pub fn provider_chain(tavily: bool, exa: bool, serper: bool, searxng: bool) -> (chain: Vec<SearchProviderKind>)
    ensures
        chain@ == chain_spec(tavily, exa, serper, searxng),
{
    let mut chain: Vec<SearchProviderKind> = Vec::new();
    if tavily {
        chain.push(SearchProviderKind::Tavily);
    }
    if exa {
        chain.push(SearchProviderKind::Exa);
    }
    if serper {
        chain.push(SearchProviderKind::Serper);
    }
    if searxng {
        chain.push(SearchProviderKind::SearXng);
    }
    chain.push(SearchProviderKind::DuckDuckGo);
    chain.push(SearchProviderKind::Yahoo);
    assert(chain@ =~= chain_spec(tavily, exa, serper, searxng));
    chain
}

/// What came of one provider attempt.
pub enum AttemptOutcome {
    /// The provider answered with these results (possibly none).
    Answered(Vec<SearchResult>),
    /// The provider failed.
    Failed(SearchError),
    /// The chain's deadline cut the attempt before a response arrived.
    DeadlineHit,
}

/// What the chain does next.
pub enum ChainStep {
    /// Try `provider` within `remaining_ms` milliseconds.
    Attempt { provider: SearchProviderKind, remaining_ms: u128 },
    /// The search is over: its results, or the last error.
    Finished(Result<Vec<SearchResult>, SearchError>),
}

/// The message of an error made by the chain when its budget runs out
/// mid-attempt: the budget as `std::time::Duration` debug-prints whole
/// seconds.
pub open spec fn deadline_message(budget_secs: u64) -> Seq<char> {
    "chain budget of "@ + decimal(budget_secs as nat) + "s exhausted before a response arrived"@
}

/// The error a chain ends with when no provider completed at all.
pub open spec fn unattempted_message() -> Seq<char> {
    "search chain budget exhausted before any provider completed"@
}

/// A search walking the provider chain under a time budget.
pub struct SearchChain {
    providers: Vec<SearchProviderKind>,
    next: usize,
    last_error: Option<SearchError>,
    budget_secs: u64,
    started_ms: u64,
}

impl SearchChain {
    /// The providers in order.
    pub closed spec fn providers_spec(&self) -> Seq<SearchProviderKind> {
        self.providers@
    }

    /// How many providers have been handed out.
    pub closed spec fn next_spec(&self) -> int {
        self.next as int
    }

    /// The error of the latest unsuccessful attempt.
    pub closed spec fn last_error_spec(&self) -> Option<SearchError> {
        self.last_error
    }

    pub closed spec fn budget_spec(&self) -> (u64, u64) {
        (self.budget_secs, self.started_ms)
    }

    /// No more providers are handed out than the chain holds.
    #[verifier::type_invariant]
    spec fn wf(&self) -> bool {
        self.next <= self.providers@.len()
    }

    /// A chain over `providers`, started at `started_ms` with a budget of
    /// `budget_secs` seconds.
    pub fn new(providers: Vec<SearchProviderKind>, budget_secs: u64, started_ms: u64) -> (chain: SearchChain)
        ensures
            chain.providers_spec() == providers@,
            chain.next_spec() == 0,
            chain.last_error_spec() is None,
            chain.budget_spec() == (budget_secs, started_ms),
    {
        SearchChain { providers, next: 0, last_error: None, budget_secs, started_ms }
    }

    /// The budget left at `now_ms`, if any is: the budget less the time
    /// since the start (a clock that went back counts no time).
    pub open spec fn remaining_spec(budget_secs: u64, started_ms: u64, now_ms: u64) -> Option<int> {
        let elapsed: int = if now_ms >= started_ms { now_ms - started_ms } else { 0 };
        let budget: int = budget_secs * 1000;
        if elapsed <= budget {
            Some(budget - elapsed)
        } else {
            None
        }
    }

    /// The result of a finished chain: the last error, else a budget error.
    pub open spec fn final_error_ok(last: Option<SearchError>, error: SearchError) -> bool {
        match last {
            Some(e) => error == e,
            None => error.provider == SearchProviderKind::DuckDuckGo
                && error.kind == SearchErrorKind::BudgetExhausted
                && error.message@ == unattempted_message(),
        }
    }

    fn take_last_error(&mut self) -> (last: Option<SearchError>)
        ensures
            last == old(self).last_error,
            final(self).providers == old(self).providers,
            final(self).next == old(self).next,
            final(self).budget_secs == old(self).budget_secs,
            final(self).started_ms == old(self).started_ms,
        no_unwind
    {
        proof {
            use_type_invariant(&*self);
        }
        let mut last: Option<SearchError> = None;
        std::mem::swap(&mut last, &mut self.last_error);
        last
    }

    fn finish(&mut self) -> (error: SearchError)
        ensures
            Self::final_error_ok(old(self).last_error, error),
            final(self).providers == old(self).providers,
            final(self).next == old(self).next,
            final(self).budget_secs == old(self).budget_secs,
            final(self).started_ms == old(self).started_ms,
    {
        match self.take_last_error() {
            Some(e) => e,
            None => SearchError::new(
                SearchProviderKind::DuckDuckGo,
                SearchErrorKind::BudgetExhausted,
                String::from_str("search chain budget exhausted before any provider completed"),
            ),
        }
    }

    /// The next step at `now_ms`: the next provider with the budget left, or,
    /// where every provider was tried or the budget is gone, the end with the
    /// last error.
    pub fn next_step(&mut self, now_ms: u64) -> (step: ChainStep)
        ensures
            final(self).providers_spec() == old(self).providers_spec(),
            final(self).budget_spec() == old(self).budget_spec(),
            ({
                let remaining = Self::remaining_spec(old(self).budget_spec().0, old(self).budget_spec().1, now_ms);
                if old(self).next_spec() < old(self).providers_spec().len() && remaining is Some {
                    &&& step matches ChainStep::Attempt { provider, remaining_ms }
                        && provider == old(self).providers_spec()[old(self).next_spec()]
                        && remaining_ms == remaining.unwrap()
                    &&& final(self).next_spec() == old(self).next_spec() + 1
                    &&& final(self).last_error_spec() == old(self).last_error_spec()
                } else {
                    step matches ChainStep::Finished(Err(e)) && Self::final_error_ok(old(self).last_error_spec(), e)
                }
            }),
    {
        proof {
            use_type_invariant(&*self);
        }
        let elapsed: u64 = if now_ms >= self.started_ms { now_ms - self.started_ms } else { 0 };
        let budget: u128 = (self.budget_secs as u128) * 1000;
        if self.next < self.providers.len() && (elapsed as u128) <= budget {
            let provider = self.providers[self.next];
            self.next = self.next + 1;
            let remaining: u128 = budget - (elapsed as u128);
            ChainStep::Attempt { provider, remaining_ms: remaining }
        } else {
            ChainStep::Finished(Err(self.finish()))
        }
    }

    /// Takes the outcome of the attempt of `provider`: results end the search;
    /// no results, a failure or the deadline become the last error and the
    /// chain goes on. Returns the results where the search is answered.
    pub fn record(&mut self, provider: SearchProviderKind, outcome: AttemptOutcome) -> (answer: Option<Vec<SearchResult>>)
        ensures
            final(self).providers_spec() == old(self).providers_spec(),
            final(self).next_spec() == old(self).next_spec(),
            final(self).budget_spec() == old(self).budget_spec(),
            match outcome {
                AttemptOutcome::Answered(results) => if results@.len() > 0 {
                    answer == Some(results) && final(self).last_error_spec() == old(self).last_error_spec()
                } else {
                    answer is None && (final(self).last_error_spec() matches Some(e)
                        && e.provider == provider && e.kind == SearchErrorKind::NoResults
                        && e.message@ == "provider returned no results"@)
                },
                AttemptOutcome::Failed(error) => answer is None && final(self).last_error_spec() == Some(error),
                AttemptOutcome::DeadlineHit => answer is None && (final(self).last_error_spec() matches Some(e)
                    && e.provider == provider && e.kind == SearchErrorKind::BudgetExhausted
                    && e.message@ == deadline_message(old(self).budget_spec().0)),
            },
    {
        proof {
            use_type_invariant(&*self);
        }
        match outcome {
            AttemptOutcome::Answered(results) => {
                if results.len() > 0 {
                    Some(results)
                } else {
                    self.last_error = Some(SearchError::new(
                        provider,
                        SearchErrorKind::NoResults,
                        String::from_str("provider returned no results"),
                    ));
                    None
                }
            },
            AttemptOutcome::Failed(error) => {
                self.last_error = Some(error);
                None
            },
            AttemptOutcome::DeadlineHit => {
                let mut message = String::new();
                push_str(&mut message, "chain budget of ");
                push_decimal(&mut message, self.budget_secs);
                push_str(&mut message, "s exhausted before a response arrived");
                self.last_error = Some(SearchError::new(provider, SearchErrorKind::BudgetExhausted, message));
                None
            },
        }
    }
}

/// The text a search hands back to the model: the formatted results, or the
/// failure.
pub open spec fn search_reply_spec(outcome: Result<Seq<SearchResult>, SearchError>) -> Seq<char> {
    match outcome {
        Ok(results) => search_context(results, "No search results found."@),
        Err(e) => "Web search failed: "@ + provider_label(e.provider) + " "@ + error_kind_label(e.kind) + ": "@ + e.message@,
    }
}

/// The text for the model from a finished search.
pub fn search_reply(outcome: &Result<Vec<SearchResult>, SearchError>) -> (text: String)
    ensures
        text@ == search_reply_spec(match outcome {
            Ok(results) => Ok(results@),
            Err(e) => Err(*e),
        }),
{
    match outcome {
        Ok(results) => format_search_context(results.as_slice(), "No search results found."),
        Err(error) => {
            let mut text = String::new();
            push_str(&mut text, "Web search failed: ");
            let shown = error.to_string();
            push_str(&mut text, shown.as_str());
            text
        },
    }
}


/// Redirect hops a keyless scraper may follow before being cut off.
pub const MAX_SCRAPER_REDIRECTS: usize = 3;

/// The origin of a URL: its scheme, its host where it has one, and its port
/// or the scheme's known default port.
#[derive(Debug, Clone)]
pub struct UrlOrigin {
    pub scheme: String,
    pub host: Option<String>,
    pub port: Option<u16>,
}

/// An origin as plain values.
pub open spec fn origin_view(o: UrlOrigin) -> (Seq<char>, Option<Seq<char>>, Option<u16>) {
    (o.scheme@, match o.host { Some(h) => Some(h@), None => None }, o.port)
}

/// What `reqwest::Url::parse` makes of `url`: `None` where it fails, else the
/// parsed URL's `scheme()`, `host_str()` and `port_or_known_default()`.
pub uninterp spec fn url_origin_parts(url: Seq<char>) -> Option<(Seq<char>, Option<Seq<char>>, Option<u16>)>;

/// Parses a URL and reads its origin (trusted: `reqwest::Url::parse`, then
/// `scheme`, `host_str` and `port_or_known_default`).
#[verifier::external_body]
fn parse_url_origin(url: &str) -> (origin: Option<UrlOrigin>)
    ensures
        match origin {
            Some(o) => url_origin_parts(url@) == Some(origin_view(o)),
            None => url_origin_parts(url@) is None,
        },
{
    match reqwest::Url::parse(url) {
        Ok(parsed) => Some(UrlOrigin {
            scheme: parsed.scheme().to_string(),
            host: parsed.host_str().map(|host| host.to_string()),
            port: parsed.port_or_known_default(),
        }),
        Err(_) => None,
    }
}

impl UrlOrigin {
    /// The origin of `url`, or `None` where it does not parse as a URL.
    pub fn parse(url: &str) -> (origin: Option<UrlOrigin>)
        ensures
            match origin {
                Some(o) => url_origin_parts(url@) == Some(origin_view(o)),
                None => url_origin_parts(url@) is None,
            },
    {
        parse_url_origin(url)
    }
}

/// Whether one redirect hop keeps a scraper on its origin: the same host, and
/// either the same scheme and port, or an `http` to `https` upgrade that keeps
/// the port or moves it from 80 to 443.
pub open spec fn stays_on_origin_spec(
    last: (Seq<char>, Option<Seq<char>>, Option<u16>),
    target: (Seq<char>, Option<Seq<char>>, Option<u16>),
) -> bool {
    if last.1 != target.1 {
        false
    } else if last.0 == target.0 {
        last.2 == target.2
    } else {
        last.0 == "http"@ && target.0 == "https"@ && (last.2 == target.2 || (last.2 == Some(80u16)
            && target.2 == Some(443u16)))
    }
}

fn same_host(a: &Option<String>, b: &Option<String>) -> (same: bool)
    ensures
        same == ((match *a { Some(h) => Some(h@), None => None::<Seq<char>> }) == (match *b {
            Some(h) => Some(h@),
            None => None::<Seq<char>>,
        })),
{
    match (a, b) {
        (Some(x), Some(y)) => crate::text::str_equal(x.as_str(), y.as_str()),
        (None, None) => true,
        _ => false,
    }
}

/// Whether the hop from `last` to `target` stays on the scraper's origin.
pub fn scraper_redirect_stays_on_origin(last: &UrlOrigin, target: &UrlOrigin) -> (stays: bool)
    ensures
        stays == stays_on_origin_spec(origin_view(*last), origin_view(*target)),
{
    if !same_host(&last.host, &target.host) {
        return false;
    }
    if crate::text::str_equal(last.scheme.as_str(), target.scheme.as_str()) {
        return last.port == target.port;
    }
    let upgrade = crate::text::str_equal(last.scheme.as_str(), "http") && crate::text::str_equal(
        target.scheme.as_str(),
        "https",
    );
    let canonical_move = match (last.port, target.port) {
        (Some(80), Some(443)) => true,
        _ => false,
    };
    upgrade && (last.port == target.port || canonical_move)
}

/// The redirect verdict of the keyless scrapers: `Err` with the reason where
/// the hop is refused, `Ok` where it is followed.
pub open spec fn redirect_verdict_spec(
    previous_hops: nat,
    last: Option<(Seq<char>, Option<Seq<char>>, Option<u16>)>,
    target: (Seq<char>, Option<Seq<char>>, Option<u16>),
) -> Result<(), Seq<char>> {
    if previous_hops >= MAX_SCRAPER_REDIRECTS {
        Err("search scraper exceeded redirect hop limit"@)
    } else {
        match last {
            None => Err("redirect without recorded origin"@),
            Some(l) => if stays_on_origin_spec(l, target) {
                Ok(())
            } else {
                Err("redirect to a different origin blocked"@)
            },
        }
    }
}

/// Whether a scraper follows a redirect to `target`, after `previous_hops`
/// visited URLs of which `last` is the most recent.
pub fn scraper_redirect_verdict(previous_hops: usize, last: Option<&UrlOrigin>, target: &UrlOrigin) -> (verdict: Result<(), &'static str>)
    ensures
        match (verdict, redirect_verdict_spec(
            previous_hops as nat,
            match last { Some(l) => Some(origin_view(*l)), None => None },
            origin_view(*target),
        )) {
            (Ok(()), Ok(())) => true,
            (Err(m), Err(n)) => m@ == n,
            _ => false,
        },
{
    if previous_hops >= MAX_SCRAPER_REDIRECTS {
        return Err("search scraper exceeded redirect hop limit");
    }
    match last {
        None => Err("redirect without recorded origin"),
        Some(l) => {
            if scraper_redirect_stays_on_origin(l, target) {
                Ok(())
            } else {
                Err("redirect to a different origin blocked")
            }
        },
    }
}

/// A followed redirect never leaves the host and never downgrades from
/// `https` to `http`.
pub proof fn followed_redirect_keeps_host_and_never_downgrades(
    last: (Seq<char>, Option<Seq<char>>, Option<u16>),
    target: (Seq<char>, Option<Seq<char>>, Option<u16>),
)
    requires
        stays_on_origin_spec(last, target),
    ensures
        last.1 == target.1,
        !(last.0 == "https"@ && target.0 == "http"@),
{
    reveal_strlit("https");
    reveal_strlit("http");
    assert("https"@.len() != "http"@.len());
    assert("https"@ != "http"@);
}

} // verus!
