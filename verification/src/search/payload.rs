//! Results from the JSON search APIs (Tavily, Exa, SearXNG, Serper).
//!
//! A payload reaches this module as the plain values the result logic reads:
//! for each listed item its title, URL, text and highlights where they are
//! JSON strings.

use crate::presentation::joined_with;
use crate::search::types::{
    normalized_spec, result_view, SearchError, SearchErrorKind, SearchPolicy, SearchProviderKind,
    SearchResult,
};
use crate::search::duckduckgo::results_view;
use crate::text::push_str;

use vstd::prelude::*;

verus! {

/// One listed result: each field holds the item's value where it is a JSON
/// string; `highlights` holds one entry per highlight (`None` for one that
/// is not a string) where the item's highlights are an array.
#[derive(Debug, Clone)]
pub struct ListingItem {
    pub title: Option<String>,
    pub url: Option<String>,
    pub text: Option<String>,
    pub highlights: Option<Vec<Option<String>>>,
}

/// A field of a JSON object: absent, a string, or another value.
#[derive(Debug, Clone)]
pub enum JsonText {
    Absent,
    Text(String),
    Other,
}

/// Serper's answer box: its `snippet`, `answer` and `link` fields.
#[derive(Debug, Clone)]
pub struct AnswerBox {
    pub snippet: JsonText,
    pub answer: JsonText,
    pub link: JsonText,
}

/// A Serper payload: whether its root is an object, its answer box where it
/// has one, and its organic results where they are an array.
#[derive(Debug, Clone)]
pub struct SerperPayload {
    pub is_object: bool,
    pub answer_box: Option<AnswerBox>,
    pub organic: Option<Vec<ListingItem>>,
}

/// The text of an optional string, empty where there is none.
pub open spec fn text_or_empty(s: Option<String>) -> Seq<char> {
    match s {
        Some(t) => t@,
        None => Seq::empty(),
    }
}

/// The string highlights among the first `k`, in order.
pub open spec fn string_highlights(h: Seq<Option<String>>, k: int) -> Seq<Seq<char>>
    decreases k,
{
    if k <= 0 {
        Seq::empty()
    } else {
        match h[k - 1] {
            Some(t) => string_highlights(h, k - 1).push(t@),
            None => string_highlights(h, k - 1),
        }
    }
}

/// The snippet of an item: its string highlights joined by ` ... `, else
/// (where that is empty) its text.
pub open spec fn item_snippet(item: ListingItem) -> Seq<char> {
    let joined = match item.highlights {
        Some(h) => joined_with(string_highlights(h@, h@.len() as int), " ... "@),
        None => Seq::empty(),
    };
    if joined.len() == 0 {
        text_or_empty(item.text)
    } else {
        joined
    }
}

/// What an item normalizes to.
pub open spec fn item_result(item: ListingItem, max_snippet: nat) -> Option<(Seq<char>, Seq<char>, Seq<char>)> {
    normalized_spec(text_or_empty(item.title), text_or_empty(item.url), item_snippet(item), max_snippet)
}

/// The results of the first `k` items, in order, unbounded.
pub open spec fn items_results(items: Seq<ListingItem>, k: int, max_snippet: nat) -> Seq<(Seq<char>, Seq<char>, Seq<char>)>
    decreases k,
{
    if k <= 0 {
        Seq::empty()
    } else {
        match item_result(items[k - 1], max_snippet) {
            Some(r) => items_results(items, k - 1, max_snippet).push(r),
            None => items_results(items, k - 1, max_snippet),
        }
    }
}

/// At most the first `n` entries.
pub open spec fn at_most<T>(s: Seq<T>, n: nat) -> Seq<T> {
    if s.len() <= n {
        s
    } else {
        s.take(n as int)
    }
}

/// The results of a listing: the normalizable items, at most `max_results`.
pub open spec fn listing_spec(items: Seq<ListingItem>, max_snippet: nat, max_results: nat) -> Seq<(Seq<char>, Seq<char>, Seq<char>)> {
    at_most(items_results(items, items.len() as int, max_snippet), max_results)
}

fn join_highlights(h: &Vec<Option<String>>) -> (joined: String)
    ensures
        joined@ == joined_with(string_highlights(h@, h@.len() as int), " ... "@),
{
    let mut joined = String::new();
    let mut count: usize = 0;
    let mut i: usize = 0;
    while i < h.len()
        invariant
            i <= h@.len(),
            count == string_highlights(h@, i as int).len(),
            count <= i,
            joined@ == joined_with(string_highlights(h@, i as int), " ... "@),
        decreases h@.len() - i,
    {
        match &h[i] {
            Some(t) => {
                let ghost before = joined@;
                if count > 0 {
                    push_str(&mut joined, " ... ");
                }
                push_str(&mut joined, t.as_str());
                proof {
                    let prev = string_highlights(h@, i as int);
                    let next = string_highlights(h@, i + 1);
                    assert(next == prev.push(t@));
                    assert(next.drop_last() =~= prev);
                    if count == 0 {
                        assert(prev.len() == 0);
                        assert(before =~= Seq::<char>::empty());
                        assert(joined@ =~= t@);
                    }
                }
                count = count + 1;
            },
            None => {},
        }
        i = i + 1;
    }
    joined
}

fn snippet_of(item: &ListingItem) -> (snippet: String)
    ensures
        snippet@ == item_snippet(*item),
{
    let joined = match &item.highlights {
        Some(h) => join_highlights(h),
        None => String::new(),
    };
    if crate::text::str_chars(joined.as_str()).len() == 0 {
        match &item.text {
            Some(t) => t.clone(),
            None => String::new(),
        }
    } else {
        joined
    }
}

fn text_of(s: &Option<String>) -> (text: String)
    ensures
        text@ == text_or_empty(*s),
{
    match s {
        Some(t) => t.clone(),
        None => String::new(),
    }
}

/// Appends the results of `items` to `results` until `max_results` are held.
fn collect_items(items: &Vec<ListingItem>, results: &mut Vec<SearchResult>, max_snippet: usize, max_results: usize)
    requires
        old(results)@.len() <= max_results,
    ensures
        results_view(final(results)@) == at_most(
            results_view(old(results)@) + items_results(items@, items@.len() as int, max_snippet as nat),
            max_results as nat,
        ),
{
    let ghost start = results_view(results@);
    let mut i: usize = 0;
    while i < items.len() && results.len() < max_results
        invariant
            i <= items@.len(),
            results@.len() <= max_results,
            start.len() <= max_results,
            results_view(results@) == at_most(start + items_results(items@, i as int, max_snippet as nat), max_results as nat),
        decreases items@.len() - i,
    {
        let item = &items[i];
        let title = text_of(&item.title);
        let url = text_of(&item.url);
        let snippet = snippet_of(item);
        let parsed = SearchResult::normalized(title.as_str(), url.as_str(), snippet.as_str(), max_snippet);
        let ghost prev = results@;
        match parsed {
            Some(r) => {
                results.push(r);
                assert(results_view(results@) =~= results_view(prev).push(result_view(r)));
            },
            None => {},
        }
        proof {
            let before = start + items_results(items@, i as int, max_snippet as nat);
            let after = start + items_results(items@, i + 1, max_snippet as nat);
            assert(results_view(prev).len() < max_results);
            assert(before.len() == results_view(prev).len());
            match item_result(items@[i as int], max_snippet as nat) {
                Some(r) => {
                    assert(after =~= before.push(r));
                },
                None => {
                    assert(after =~= before);
                },
            }
        }
        i = i + 1;
    }
    proof {
        let all = start + items_results(items@, items@.len() as int, max_snippet as nat);
        let part = start + items_results(items@, i as int, max_snippet as nat);
        if i < items@.len() {
            lemma_items_results_extends(items@, i as int, items@.len() as int, max_snippet as nat);
            assert(part.len() >= max_results);
            assert(at_most(all, max_results as nat) =~= at_most(part, max_results as nat));
        }
    }
}

proof fn lemma_items_results_extends(items: Seq<ListingItem>, j: int, k: int, max_snippet: nat)
    requires
        0 <= j <= k,
    ensures
        items_results(items, j, max_snippet).len() <= items_results(items, k, max_snippet).len(),
        items_results(items, k, max_snippet).take(items_results(items, j, max_snippet).len() as int)
            == items_results(items, j, max_snippet),
    decreases k - j,
{
    if j < k {
        lemma_items_results_extends(items, j, k - 1, max_snippet);
        let a = items_results(items, j, max_snippet);
        let b = items_results(items, k - 1, max_snippet);
        match item_result(items[k - 1], max_snippet) {
            Some(r) => {
                assert(b.push(r).take(a.len() as int) =~= b.take(a.len() as int));
            },
            None => {},
        }
    }
}

/// The results of a listing payload (Tavily, Exa, SearXNG): a payload
/// without a results array is malformed.
pub fn parse_listing(provider: SearchProviderKind, items: &Option<Vec<ListingItem>>, policy: &SearchPolicy) -> (parsed: Result<Vec<SearchResult>, SearchError>)
    ensures
        match *items {
            None => parsed matches Err(e) && e.provider == provider && e.kind == SearchErrorKind::MalformedResponse
                && e.message@ == "missing results array"@,
            Some(list) => parsed matches Ok(results) && results_view(results@) == listing_spec(
                list@,
                policy.max_snippet_chars as nat,
                policy.max_results as nat,
            ),
        },
{
    match items {
        None => Err(SearchError::new(
            provider,
            SearchErrorKind::MalformedResponse,
            String::from_str("missing results array"),
        )),
        Some(list) => {
            let mut results: Vec<SearchResult> = Vec::new();
            collect_items(list, &mut results, policy.max_snippet_chars, policy.max_results);
            assert(results_view(Seq::<SearchResult>::empty()) =~= Seq::<(Seq<char>, Seq<char>, Seq<char>)>::empty());
            assert(Seq::<(Seq<char>, Seq<char>, Seq<char>)>::empty() + items_results(
                list@,
                list@.len() as int,
                policy.max_snippet_chars as nat,
            ) =~= items_results(list@, list@.len() as int, policy.max_snippet_chars as nat));
            Ok(results)
        },
    }
}

/// The answer-box snippet: the `snippet` field where present, else the
/// `answer` field; empty unless that field is a string.
pub open spec fn answer_snippet(a: AnswerBox) -> Seq<char> {
    let field = match a.snippet {
        JsonText::Absent => a.answer,
        _ => a.snippet,
    };
    match field {
        JsonText::Text(t) => t@,
        _ => Seq::empty(),
    }
}

/// The answer-box link, or Google's search page.
pub open spec fn answer_link(a: AnswerBox) -> Seq<char> {
    match a.link {
        JsonText::Text(t) => t@,
        _ => "https://google.com/search"@,
    }
}

/// The direct-answer result of an answer box, where its snippet is not
/// empty and it normalizes.
pub open spec fn answer_results(answer: Option<AnswerBox>, max_snippet: nat) -> Seq<(Seq<char>, Seq<char>, Seq<char>)> {
    match answer {
        Some(a) => if answer_snippet(a).len() > 0 {
            match normalized_spec("Direct answer"@, answer_link(a), answer_snippet(a), max_snippet) {
                Some(r) => seq![r],
                None => Seq::empty(),
            }
        } else {
            Seq::empty()
        },
        None => Seq::empty(),
    }
}

/// The results of a Serper payload: the direct answer, then the organic
/// results, at most `max_results` in all.
pub open spec fn serper_spec(p: SerperPayload, max_snippet: nat, max_results: nat) -> Seq<(Seq<char>, Seq<char>, Seq<char>)> {
    let organic = match p.organic {
        Some(items) => items_results(items@, items@.len() as int, max_snippet),
        None => Seq::empty(),
    };
    at_most(answer_results(p.answer_box, max_snippet) + organic, max_results)
}

fn field_text(field: &JsonText) -> (text: String)
    ensures
        text@ == match *field {
            JsonText::Text(t) => t@,
            _ => Seq::<char>::empty(),
        },
{
    match field {
        JsonText::Text(t) => t.clone(),
        _ => String::new(),
    }
}

/// The results of a Serper payload; a payload whose root is not an object
/// is malformed.
pub fn parse_serper(payload: &SerperPayload, policy: &SearchPolicy) -> (parsed: Result<Vec<SearchResult>, SearchError>)
    ensures
        !payload.is_object ==> (parsed matches Err(e) && e.provider == SearchProviderKind::Serper && e.kind
            == SearchErrorKind::MalformedResponse && e.message@ == "response root must be an object"@),
        payload.is_object ==> (parsed matches Ok(results) && results_view(results@) == serper_spec(
            *payload,
            policy.max_snippet_chars as nat,
            policy.max_results as nat,
        )),
{
    if !payload.is_object {
        return Err(SearchError::new(
            SearchProviderKind::Serper,
            SearchErrorKind::MalformedResponse,
            String::from_str("response root must be an object"),
        ));
    }
    let mut results: Vec<SearchResult> = Vec::new();
    let ghost answer = answer_results(payload.answer_box, policy.max_snippet_chars as nat);
    match &payload.answer_box {
        Some(a) => {
            let chosen = match &a.snippet {
                JsonText::Absent => &a.answer,
                _ => &a.snippet,
            };
            let snippet = field_text(chosen);
            let link = match &a.link {
                JsonText::Text(t) => t.clone(),
                _ => String::from_str("https://google.com/search"),
            };
            if crate::text::str_chars(snippet.as_str()).len() > 0 {
                match SearchResult::normalized("Direct answer", link.as_str(), snippet.as_str(), policy.max_snippet_chars) {
                    Some(r) => {
                        results.push(r);
                    },
                    None => {},
                }
            }
        },
        None => {},
    }
    assert(results_view(results@) =~= answer);
    let ghost organic = match &payload.organic {
        Some(items) => items_results(items@, items@.len() as int, policy.max_snippet_chars as nat),
        None => Seq::empty(),
    };
    if results.len() > policy.max_results {
        results = Vec::new();
        assert(at_most(answer + organic, policy.max_results as nat) =~= Seq::<(Seq<char>, Seq<char>, Seq<char>)>::empty());
        return Ok(results);
    }
    match &payload.organic {
        Some(items) => {
            collect_items(items, &mut results, policy.max_snippet_chars, policy.max_results);
        },
        None => {
            assert(answer + organic =~= answer);
        },
    }
    Ok(results)
}

} // verus!
