//! Search-domain types and the bounded formatting policy.

use crate::search::util::{truncate_chars, truncated};
use crate::text::{
    char_views, is_whitespace, lemma_pieces_nonempty, occurs_at, pieces, push_char, push_str,
    split_pieces, str_chars, trim, Separator,
};
use vstd::prelude::*;

verus! {

/// Longest accepted query, in characters.
pub const MAX_QUERY_CHARS: usize = 1024;

/// Fewest results a query may ask for.
pub const MIN_RESULTS: usize = 1;

/// Most results a query may ask for.
pub const MAX_RESULTS: usize = 20;

/// Longest kept title, in characters.
pub const MAX_TITLE_CHARS: usize = 240;

#[derive(Debug, Clone, Copy, PartialEq, Eq, Structural)]
pub enum SearchProviderKind {
    Tavily,
    Exa,
    Serper,
    SearXng,
    DuckDuckGo,
    Yahoo,
}

#[derive(Debug, Clone, Copy, PartialEq, Eq, Structural)]
pub enum SearchErrorKind {
    InvalidQuery,
    UnsafeEndpoint,
    Timeout,
    Transport,
    HttpStatus,
    ResponseTooLarge,
    MalformedResponse,
    NoResults,
    BudgetExhausted,
}

/// The display name of a provider.
pub open spec fn provider_label(kind: SearchProviderKind) -> Seq<char> {
    match kind {
        SearchProviderKind::Tavily => "Tavily"@,
        SearchProviderKind::Exa => "Exa"@,
        SearchProviderKind::Serper => "Serper"@,
        SearchProviderKind::SearXng => "SearXNG"@,
        SearchProviderKind::DuckDuckGo => "DuckDuckGo"@,
        SearchProviderKind::Yahoo => "Yahoo"@,
    }
}

/// The display text of an error kind.
pub open spec fn error_kind_label(kind: SearchErrorKind) -> Seq<char> {
    match kind {
        SearchErrorKind::InvalidQuery => "invalid query"@,
        SearchErrorKind::UnsafeEndpoint => "unsafe endpoint"@,
        SearchErrorKind::Timeout => "timeout"@,
        SearchErrorKind::Transport => "transport error"@,
        SearchErrorKind::HttpStatus => "HTTP error"@,
        SearchErrorKind::ResponseTooLarge => "response too large"@,
        SearchErrorKind::MalformedResponse => "malformed response"@,
        SearchErrorKind::NoResults => "no results"@,
        SearchErrorKind::BudgetExhausted => "budget exhausted"@,
    }
}

impl SearchProviderKind {
    /// The provider as displayed.
    pub fn to_string(&self) -> (label: String)
        ensures
            label@ == provider_label(*self),
    {
        String::from_str(match self {
            SearchProviderKind::Tavily => "Tavily",
            SearchProviderKind::Exa => "Exa",
            SearchProviderKind::Serper => "Serper",
            SearchProviderKind::SearXng => "SearXNG",
            SearchProviderKind::DuckDuckGo => "DuckDuckGo",
            SearchProviderKind::Yahoo => "Yahoo",
        })
    }
}

impl SearchErrorKind {
    /// The kind as displayed.
    pub fn to_string(&self) -> (label: String)
        ensures
            label@ == error_kind_label(*self),
    {
        String::from_str(match self {
            SearchErrorKind::InvalidQuery => "invalid query",
            SearchErrorKind::UnsafeEndpoint => "unsafe endpoint",
            SearchErrorKind::Timeout => "timeout",
            SearchErrorKind::Transport => "transport error",
            SearchErrorKind::HttpStatus => "HTTP error",
            SearchErrorKind::ResponseTooLarge => "response too large",
            SearchErrorKind::MalformedResponse => "malformed response",
            SearchErrorKind::NoResults => "no results",
            SearchErrorKind::BudgetExhausted => "budget exhausted",
        })
    }
}

#[derive(Debug, Clone, PartialEq, Eq)]
pub struct SearchError {
    pub provider: SearchProviderKind,
    pub kind: SearchErrorKind,
    pub message: String,
}

impl SearchError {
    pub fn new(provider: SearchProviderKind, kind: SearchErrorKind, message: String) -> (error: SearchError)
        ensures
            error.provider == provider,
            error.kind == kind,
            error.message == message,
    {
        SearchError { provider, kind, message }
    }

    /// The error as displayed: provider, kind, then the message.
    pub fn to_string(&self) -> (text: String)
        ensures
            text@ == provider_label(self.provider) + " "@ + error_kind_label(self.kind) + ": "@ + self.message@,
    {
        let mut out = self.provider.to_string();
        push_str(&mut out, " ");
        let kind = self.kind.to_string();
        push_str(&mut out, kind.as_str());
        push_str(&mut out, ": ");
        push_str(&mut out, self.message.as_str());
        out
    }
}

#[derive(Debug, Clone, PartialEq, Eq)]
pub struct SearchQuery {
    pub text: String,
    pub max_results: usize,
}

/// `n` clamped to `lo..=hi`.
pub open spec fn clamped(n: usize, lo: usize, hi: usize) -> usize {
    if n < lo {
        lo
    } else if n > hi {
        hi
    } else {
        n
    }
}

impl SearchQuery {
    /// A validated query: the text trimmed, non-empty and at most 1024
    /// characters; the result count clamped to 1..=20.
    pub fn new(text: String, max_results: usize) -> (query: Result<SearchQuery, SearchError>)
        ensures
            trim(text@).len() == 0 ==> (query matches Err(e) && e.provider == SearchProviderKind::DuckDuckGo
                && e.kind == SearchErrorKind::InvalidQuery && e.message@ == "search query cannot be empty"@),
            trim(text@).len() > MAX_QUERY_CHARS ==> (query matches Err(e) && e.provider
                == SearchProviderKind::DuckDuckGo && e.kind == SearchErrorKind::InvalidQuery && e.message@
                == "search query exceeds 1024 characters"@),
            0 < trim(text@).len() <= MAX_QUERY_CHARS ==> (query matches Ok(q) && q.text@ == trim(text@)
                && q.max_results == clamped(max_results, MIN_RESULTS, MAX_RESULTS)),
    {
        let trimmed = crate::text::trim_string(text.as_str());
        let chars = str_chars(trimmed.as_str());
        if chars.len() == 0 {
            return Err(SearchError::new(
                SearchProviderKind::DuckDuckGo,
                SearchErrorKind::InvalidQuery,
                String::from_str("search query cannot be empty"),
            ));
        }
        if chars.len() > MAX_QUERY_CHARS {
            return Err(SearchError::new(
                SearchProviderKind::DuckDuckGo,
                SearchErrorKind::InvalidQuery,
                String::from_str("search query exceeds 1024 characters"),
            ));
        }
        let clamped_results = if max_results < MIN_RESULTS {
            MIN_RESULTS
        } else if max_results > MAX_RESULTS {
            MAX_RESULTS
        } else {
            max_results
        };
        Ok(SearchQuery { text: trimmed, max_results: clamped_results })
    }
}

#[derive(Debug, Clone, PartialEq, Eq)]
pub struct SearchResult {
    pub title: String,
    pub url: String,
    pub snippet: String,
}

/// The non-empty pieces of `ps`, in order.
pub open spec fn nonempty(ps: Seq<Seq<char>>) -> Seq<Seq<char>>
    decreases ps.len(),
{
    if ps.len() == 0 {
        Seq::empty()
    } else if ps.last().len() == 0 {
        nonempty(ps.drop_last())
    } else {
        nonempty(ps.drop_last()).push(ps.last())
    }
}

/// Words joined by single spaces.
pub open spec fn joined(words: Seq<Seq<char>>) -> Seq<char>
    decreases words.len(),
{
    if words.len() == 0 {
        Seq::empty()
    } else if words.len() == 1 {
        words[0]
    } else {
        joined(words.drop_last()).push(' ') + words.last()
    }
}

/// The words of `s` (`str::split_whitespace`) joined by single spaces.
pub open spec fn collapsed(s: Seq<char>) -> Seq<char> {
    joined(nonempty(pieces(s, Separator::Whitespace)))
}

/// Text with whitespace collapsed and cut to at most `max` characters
/// (an overlong text ends in `...` when `max` exceeds 3).
pub open spec fn compacted(s: Seq<char>, max: nat) -> Seq<char> {
    let normalized = collapsed(s);
    if normalized.len() <= max {
        normalized
    } else if max <= 3 {
        normalized.take(max as int)
    } else {
        truncated(normalized, (max - 3) as nat)
    }
}

/// Collapses whitespace runs to single spaces and drops leading and
/// trailing whitespace.
pub fn collapse_whitespace(value: &str) -> (out: Vec<char>)
    ensures
        out@ == collapsed(value@),
{
    let chars = str_chars(value);
    let parts = split_pieces(chars.as_slice(), Separator::Whitespace);
    let ghost ps = char_views(parts@);
    let mut out: Vec<char> = Vec::new();
    let mut words: usize = 0;
    let mut i: usize = 0;
    while i < parts.len()
        invariant
            i <= parts@.len(),
            ps == char_views(parts@),
            ps == pieces(value@, Separator::Whitespace),
            words == nonempty(ps.take(i as int)).len(),
            words <= i,
            out@ == joined(nonempty(ps.take(i as int))),
        decreases parts@.len() - i,
    {
        assert(ps.take(i + 1).drop_last() =~= ps.take(i as int));
        assert(ps.take(i + 1).last() == parts@[i as int]@);
        proof {
            if parts@[i as int]@.len() == 0 {
                assert(nonempty(ps.take(i + 1)) == nonempty(ps.take(i as int)));
            } else {
                assert(nonempty(ps.take(i + 1)) == nonempty(ps.take(i as int)).push(parts@[i as int]@));
            }
        }
        let part = &parts[i];
        if part.len() > 0 {
            let ghost before = out@;
            if words > 0 {
                out.push(' ');
            }
            let mut k: usize = 0;
            let ghost spaced = out@;
            while k < part.len()
                invariant
                    k <= part@.len(),
                    out@ == spaced + part@.take(k as int),
                decreases part@.len() - k,
            {
                out.push(part[k]);
                k = k + 1;
                assert(out@ =~= spaced + part@.take(k as int));
            }
            assert(part@.take(k as int) =~= part@);
            proof {
                let prev = nonempty(ps.take(i as int));
                if words == 0 {
                    assert(before =~= Seq::<char>::empty());
                    assert(out@ =~= part@);
                    assert(prev.push(part@).len() == 1);
                    assert(joined(prev.push(part@)) == prev.push(part@)[0]);
                } else {
                    assert(prev.push(part@).drop_last() =~= prev);
                    assert(out@ =~= before.push(' ') + part@);
                }
            }
            words = words + 1;
        }
        i = i + 1;
    }
    assert(ps.take(i as int) =~= ps);
    out
}

/// Collapses whitespace and bounds a text to `max_chars` characters.
pub fn compact_text(value: &str, max_chars: usize) -> (out: String)
    ensures
        out@ == compacted(value@, max_chars as nat),
{
    let normalized = collapse_whitespace(value);
    if normalized.len() <= max_chars {
        crate::text::string_from_chars(normalized.as_slice())
    } else if max_chars <= 3 {
        let r = crate::text::string_from_range(normalized.as_slice(), 0, max_chars);
        assert(normalized@.subrange(0, max_chars as int) =~= normalized@.take(max_chars as int));
        r
    } else {
        let text = crate::text::string_from_chars(normalized.as_slice());
        truncate_chars(text.as_str(), max_chars - 3)
    }
}

/// `s` begins with `p`.
pub open spec fn begins_with(s: Seq<char>, p: Seq<char>) -> bool {
    occurs_at(s, p, 0)
}

/// A result as (title, URL, snippet) views.
pub open spec fn result_view(r: SearchResult) -> (Seq<char>, Seq<char>, Seq<char>) {
    (r.title@, r.url@, r.snippet@)
}

/// What `SearchResult::normalized` gives, as views.
pub open spec fn normalized_spec(title: Seq<char>, url: Seq<char>, snippet: Seq<char>, max_snippet_chars: nat) -> Option<(Seq<char>, Seq<char>, Seq<char>)> {
    let u = trim(url);
    if u.len() > 0 && (begins_with(u, "http://"@) || begins_with(u, "https://"@)) {
        Some((compacted(title, MAX_TITLE_CHARS as nat), u, compacted(snippet, max_snippet_chars)))
    } else {
        None
    }
}

impl SearchResult {
    /// A result with its title bounded to 240 characters and its snippet to
    /// `max_snippet_chars` (whitespace collapsed), and its URL trimmed;
    /// `None` unless the URL is `http://` or `https://`.
    pub fn normalized(title: &str, url: &str, snippet: &str, max_snippet_chars: usize) -> (result: Option<SearchResult>)
        ensures
            ({
                let u = trim(url@);
                let acceptable = u.len() > 0 && (begins_with(u, "http://"@) || begins_with(u, "https://"@));
                &&& !acceptable ==> result is None
                &&& acceptable ==> (result matches Some(r) && r.url@ == u && r.title@ == compacted(
                    title@,
                    MAX_TITLE_CHARS as nat,
                ) && r.snippet@ == compacted(snippet@, max_snippet_chars as nat))
            }),
            match result {
                Some(r) => normalized_spec(title@, url@, snippet@, max_snippet_chars as nat) == Some(result_view(r)),
                None => normalized_spec(title@, url@, snippet@, max_snippet_chars as nat) is None,
            },
    {
        let title = compact_text(title, MAX_TITLE_CHARS);
        let url = crate::text::trim_string(url);
        let snippet = compact_text(snippet, max_snippet_chars);
        let chars = str_chars(url.as_str());
        let http = str_chars("http://");
        let https = str_chars("https://");
        if chars.len() == 0 || !(crate::text::matches_at(chars.as_slice(), http.as_slice(), 0)
            || crate::text::matches_at(chars.as_slice(), https.as_slice(), 0)) {
            return None;
        }
        Some(SearchResult { title, url, snippet })
    }
}

/// Limits and timeouts of the search adapters.
#[derive(Debug, Clone)]
pub struct SearchPolicy {
    pub max_results: usize,
    pub max_snippet_chars: usize,
    pub max_response_bytes: usize,
    pub request_timeout_secs: u64,
    pub allow_private_searxng: bool,
    /// Time budget of the whole provider chain, in seconds.
    pub chain_budget_secs: u64,
}

impl Default for SearchPolicy {
    fn default() -> (policy: SearchPolicy)
        ensures
            policy.max_results == 5,
            policy.max_snippet_chars == 500,
            policy.max_response_bytes == 1048576,
            policy.request_timeout_secs == 15,
            !policy.allow_private_searxng,
            policy.chain_budget_secs == 22,
    {
        SearchPolicy {
            max_results: 5,
            max_snippet_chars: 500,
            max_response_bytes: 1048576,
            request_timeout_secs: 15,
            allow_private_searxng: false,
            chain_budget_secs: 22,
        }
    }
}

/// One result as shown to the model.
pub open spec fn result_block(r: SearchResult) -> Seq<char> {
    "URL: "@ + r.url@ + "\nTitle: "@ + r.title@ + "\nSnippet: "@ + r.snippet@ + "\n"@
}

/// The results as shown to the model, separated by blank lines; the empty
/// message where there are none.
pub open spec fn search_context(results: Seq<SearchResult>, empty_message: Seq<char>) -> Seq<char>
    decreases results.len(),
{
    if results.len() == 0 {
        empty_message
    } else if results.len() == 1 {
        result_block(results[0])
    } else {
        search_context(results.drop_last(), empty_message) + "\n"@ + result_block(results.last())
    }
}

fn push_result(out: &mut String, r: &SearchResult)
    ensures
        final(out)@ == old(out)@ + result_block(*r),
{
    push_str(out, "URL: ");
    push_str(out, r.url.as_str());
    push_str(out, "\nTitle: ");
    push_str(out, r.title.as_str());
    push_str(out, "\nSnippet: ");
    push_str(out, r.snippet.as_str());
    push_str(out, "\n");
    assert(out@ =~= old(out)@ + result_block(*r));
}

/// Formats search results for the model.
pub fn format_search_context(results: &[SearchResult], empty_message: &str) -> (text: String)
    ensures
        text@ == search_context(results@, empty_message@),
{
    if results.len() == 0 {
        return String::from_str(empty_message);
    }
    let mut out = String::new();
    push_result(&mut out, &results[0]);
    assert(results@.take(1).len() == 1);
    assert(out@ =~= search_context(results@.take(1), empty_message@));
    let mut i: usize = 1;
    while i < results.len()
        invariant
            1 <= i <= results@.len(),
            out@ == search_context(results@.take(i as int), empty_message@),
        decreases results@.len() - i,
    {
        assert(results@.take(i + 1).drop_last() =~= results@.take(i as int));
        assert(results@.take(i + 1).last() == results@[i as int]);
        push_str(&mut out, "\n");
        push_result(&mut out, &results[i]);
        i = i + 1;
    }
    assert(results@.take(i as int) =~= results@);
    out
}

} // verus!
