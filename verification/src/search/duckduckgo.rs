//! Results from DuckDuckGo's HTML endpoint.

use crate::search::types::{normalized_spec, result_view, SearchPolicy, SearchResult};
use crate::search::util::{decoded_bytes, html_text, strip_html_tags, url_decode, utf8_lossy};
use crate::text::{
    find_first, find_last, first_occurrence, last_occurrence, lemma_first_occurrence,
    lemma_first_occurrence_bounds, lemma_first_occurrence_none, matches_at, occurs_at, push_str,
    slice_range, str_chars, string_from_chars, string_from_range,
};
use vstd::prelude::*;

verus! {

/// The `href` and text of the anchor whose opening tag holds `class`: the
/// last `<a` before the first occurrence of `class`, its `href="..."`
/// value, and its text up to `</a>`.
pub open spec fn anchor_in(f: Seq<char>, class: Seq<char>) -> Option<(Seq<char>, Seq<char>)> {
    match first_occurrence(f, class, 0) {
        None => None,
        Some(cp) => match last_occurrence(f.take(cp), "<a"@) {
            None => None,
            Some(st) => match first_occurrence(f, seq!['>'], st) {
                None => None,
                Some(te) => {
                    let tag = f.subrange(st, te);
                    match first_occurrence(tag, "href=\""@, 0) {
                        None => None,
                        Some(h) => match first_occurrence(tag, seq!['"'], h + "href=\""@.len()) {
                            None => None,
                            Some(he) => match first_occurrence(f, "</a>"@, te + 1) {
                                None => None,
                                Some(ae) => Some((tag.subrange(h + "href=\""@.len(), he), f.subrange(te + 1, ae))),
                            },
                        },
                    }
                },
            },
        },
    }
}

/// The target of a result link: the percent-decoded `uddg=` parameter
/// (up to the next `uddg=` or `&`), else a protocol-relative link made
/// `https:`, else the link as is.
pub open spec fn result_target(href: Seq<char>) -> Seq<char> {
    match first_occurrence(href, "uddg="@, 0) {
        Some(u) => {
            let from = u + "uddg="@.len();
            let seg_end = match first_occurrence(href, "uddg="@, from) {
                Some(v) => v,
                None => href.len() as int,
            };
            let seg = href.subrange(from, seg_end);
            let encoded = match first_occurrence(seg, seq!['&'], 0) {
                Some(a) => seg.take(a),
                None => seg,
            };
            utf8_lossy(decoded_bytes(encoded, 0))
        },
        None => if occurs_at(href, "//"@, 0) {
            "https:"@ + href
        } else {
            href
        },
    }
}

/// The target of a DuckDuckGo redirect link is the decoding of the `uddg=`
/// value alone: the text after the first `uddg=` up to the next `&` (or the
/// link's end). No other `&`-separated parameter of the link reaches the
/// result URL.
pub proof fn redirect_target_stops_at_ampersand(href: Seq<char>, u: int, a: int)
    requires
        first_occurrence(href, "uddg="@, 0) == Some(u),
        u + 5 <= a <= href.len(),
        forall|k: int| u + 5 <= k < a ==> href[k] != '&',
        a == href.len() || href[a] == '&',
        forall|k: int| u + 5 <= k < a ==> !occurs_at(href, "uddg="@, k),
    ensures
        result_target(href) == utf8_lossy(decoded_bytes(href.subrange(u + 5, a), 0)),
{
    reveal_strlit("uddg=");
    let marker = "uddg="@;
    assert(marker.len() == 5);
    let from = u + 5;
    lemma_first_occurrence_bounds(href, marker, 0);
    let seg_end = match first_occurrence(href, marker, from) {
        Some(v) => v,
        None => href.len() as int,
    };
    if first_occurrence(href, marker, from) is Some {
        lemma_first_occurrence_bounds(href, marker, from);
        let v = first_occurrence(href, marker, from)->0;
        if v < a {
            assert(!occurs_at(href, marker, v));
        }
        if v == a && a < href.len() {
            assert(href.subrange(v, v + 5)[0] == href[v]);
            assert(marker[0] == 'u');
        }
    }
    assert(seg_end >= a);
    let seg = href.subrange(from, seg_end);
    let amp = seq!['&'];
    if a < seg_end {
        assert(a < href.len());
        assert(seg.subrange(a - from, a - from + 1) =~= amp);
        assert forall|j: int| 0 <= j < a - from implies !occurs_at(seg, amp, j) by {
            if occurs_at(seg, amp, j) {
                assert(seg.subrange(j, j + 1)[0] == seg[j]);
                assert(seg[j] == href[from + j]);
            }
        }
        lemma_first_occurrence(seg, amp, 0, a - from);
        assert(seg.take(a - from) =~= href.subrange(from, a));
    } else {
        assert(seg_end == a);
        assert forall|j: int| 0 <= j implies !occurs_at(seg, amp, j) by {
            if occurs_at(seg, amp, j) {
                assert(seg.subrange(j, j + 1)[0] == seg[j]);
                assert(seg[j] == href[from + j]);
            }
        }
        lemma_first_occurrence_none(seg, amp);
        assert(seg =~= href.subrange(from, a));
    }
}

/// The result a `result__body` block holds: its `result__a` anchor gives
/// title and link, its `result__snippet` anchor (if any) the snippet.
pub open spec fn block_result(block: Seq<char>, max_snippet: nat) -> Option<(Seq<char>, Seq<char>, Seq<char>)> {
    match anchor_in(block, "result__a"@) {
        None => None,
        Some((href, text)) => {
            let snippet = match anchor_in(block, "result__snippet"@) {
                Some((_, t)) => html_text(t),
                None => Seq::empty(),
            };
            normalized_spec(html_text(text), result_target(href), snippet, max_snippet)
        },
    }
}

/// The result a bare `result__snippet` anchor holds.
pub open spec fn snippet_result(fragment: Seq<char>, max_snippet: nat) -> Option<(Seq<char>, Seq<char>, Seq<char>)> {
    match anchor_in(fragment, "result__snippet"@) {
        None => None,
        Some((href, text)) => normalized_spec("DuckDuckGo result"@, result_target(href), html_text(text), max_snippet),
    }
}

/// Results of bare snippet anchors from `pos` on, after `found`.
pub open spec fn snippet_scan(html: Seq<char>, pos: int, found: Seq<(Seq<char>, Seq<char>, Seq<char>)>, max_results: nat, max_snippet: nat) -> Seq<(Seq<char>, Seq<char>, Seq<char>)>
    decreases html.len() + 1 - pos,
{
    if pos < 0 || pos > html.len() {
        found
    } else {
        match first_occurrence(html, "result__snippet"@, pos) {
            None => found,
            Some(s) => {
                let parsed = snippet_result(html.skip(s), max_snippet);
                let next = match parsed {
                    Some(r) => found.push(r),
                    None => found,
                };
                if parsed is Some && next.len() >= max_results {
                    next
                } else {
                    match first_occurrence(html, "</a>"@, s) {
                        None => next,
                        Some(n) => {
                            proof {
                                crate::text::lemma_first_occurrence_bounds(html, "</a>"@, s);
                                crate::text::lemma_first_occurrence_bounds(html, "result__snippet"@, pos);
                                reveal_strlit("</a>");
                            }
                            snippet_scan(html, n + "</a>"@.len(), next, max_results, max_snippet)
                        },
                    }
                }
            },
        }
    }
}

/// The results of a DuckDuckGo HTML page: the first `result__body` block's
/// result, else the results of bare snippet anchors, at most `max_results`
/// of them.
pub open spec fn page_results(html: Seq<char>, max_results: nat, max_snippet: nat) -> Seq<(Seq<char>, Seq<char>, Seq<char>)> {
    let first = match first_occurrence(html, "result__body"@, 0) {
        None => Seq::empty(),
        Some(s) => match block_result(html.skip(s), max_snippet) {
            Some(r) => seq![r],
            None => Seq::empty(),
        },
    };
    if first.len() > 0 {
        first
    } else {
        snippet_scan(html, 0, Seq::empty(), max_results, max_snippet)
    }
}

/// The views of a list of results.
pub open spec fn results_view(rs: Seq<SearchResult>) -> Seq<(Seq<char>, Seq<char>, Seq<char>)> {
    rs.map_values(|r: SearchResult| result_view(r))
}

/// Finds the anchor whose opening tag holds `class`.
pub fn find_anchor(f: &[char], class: &str) -> (anchor: Option<(Vec<char>, Vec<char>)>)
    ensures
        match anchor {
            Some((href, text)) => anchor_in(f@, class@) == Some((href@, text@)),
            None => anchor_in(f@, class@) is None,
        },
{
    let class_chars = str_chars(class);
    let open = str_chars("<a");
    let gt: Vec<char> = vec!['>'];
    assert(gt@ =~= seq!['>']);
    let href_marker = str_chars("href=\"");
    let quote: Vec<char> = vec!['"'];
    assert(quote@ =~= seq!['"']);
    let close = str_chars("</a>");
    let cp = match find_first(f, class_chars.as_slice(), 0) {
        None => {
            return None;
        },
        Some(cp) => cp,
    };
    let before = slice_range(f, 0, cp);
    assert(before@ =~= f@.take(cp as int));
    let st = match find_last(before.as_slice(), open.as_slice()) {
        None => {
            return None;
        },
        Some(st) => st,
    };
    let te = match find_first(f, gt.as_slice(), st) {
        None => {
            return None;
        },
        Some(te) => te,
    };
    let tag = slice_range(f, st, te);
    let h = match find_first(tag.as_slice(), href_marker.as_slice(), 0) {
        None => {
            return None;
        },
        Some(h) => h,
    };
    let value_start = h + href_marker.len();
    let he = match find_first(tag.as_slice(), quote.as_slice(), value_start) {
        None => {
            return None;
        },
        Some(he) => he,
    };
    let flen = f.len();
    assert(te + 1 <= flen);
    let ae = match find_first(f, close.as_slice(), te + 1) {
        None => {
            return None;
        },
        Some(ae) => ae,
    };
    let href = slice_range(tag.as_slice(), value_start, he);
    let text = slice_range(f, te + 1, ae);
    Some((href, text))
}

/// The target of a result link.
pub fn decode_result_url(href: &[char]) -> (target: String)
    ensures
        target@ == result_target(href@),
{
    let marker = str_chars("uddg=");
    let amp: Vec<char> = vec!['&'];
    assert(amp@ =~= seq!['&']);
    match find_first(href, marker.as_slice(), 0) {
        Some(u) => {
            let hlen = href.len();
            assert(u + marker@.len() <= hlen);
            let from = u + marker.len();
            let seg_end = match find_first(href, marker.as_slice(), from) {
                Some(v) => v,
                None => href.len(),
            };
            let seg = slice_range(href, from, seg_end);
            let encoded = match find_first(seg.as_slice(), amp.as_slice(), 0) {
                Some(a) => {
                    let e = slice_range(seg.as_slice(), 0, a);
                    assert(e@ =~= seg@.take(a as int));
                    e
                },
                None => seg,
            };
            let text = string_from_chars(encoded.as_slice());
            url_decode(text.as_str())
        },
        None => {
            let slashes = str_chars("//");
            if matches_at(href, slashes.as_slice(), 0) {
                let mut out = String::from_str("https:");
                let rest = string_from_chars(href);
                push_str(&mut out, rest.as_str());
                out
            } else {
                string_from_chars(href)
            }
        },
    }
}

fn parse_block(block: &[char], max_snippet: usize) -> (result: Option<SearchResult>)
    ensures
        match result {
            Some(r) => block_result(block@, max_snippet as nat) == Some(result_view(r)),
            None => block_result(block@, max_snippet as nat) is None,
        },
{
    let (href, text) = match find_anchor(block, "result__a") {
        None => {
            return None;
        },
        Some(anchor) => anchor,
    };
    let snippet = match find_anchor(block, "result__snippet") {
        Some((_, t)) => {
            let raw = string_from_chars(t.as_slice());
            strip_html_tags(raw.as_str())
        },
        None => String::new(),
    };
    let raw_title = string_from_chars(text.as_slice());
    let title = strip_html_tags(raw_title.as_str());
    let url = decode_result_url(href.as_slice());
    SearchResult::normalized(title.as_str(), url.as_str(), snippet.as_str(), max_snippet)
}

fn parse_snippet_anchor(fragment: &[char], max_snippet: usize) -> (result: Option<SearchResult>)
    ensures
        match result {
            Some(r) => snippet_result(fragment@, max_snippet as nat) == Some(result_view(r)),
            None => snippet_result(fragment@, max_snippet as nat) is None,
        },
{
    let (href, text) = match find_anchor(fragment, "result__snippet") {
        None => {
            return None;
        },
        Some(anchor) => anchor,
    };
    let raw = string_from_chars(text.as_slice());
    let snippet = strip_html_tags(raw.as_str());
    let url = decode_result_url(href.as_slice());
    SearchResult::normalized("DuckDuckGo result", url.as_str(), snippet.as_str(), max_snippet)
}

/// Reads the results of a DuckDuckGo HTML page.
pub fn parse_html(html: &str, policy: &SearchPolicy) -> (results: Vec<SearchResult>)
    ensures
        results_view(results@) == page_results(html@, policy.max_results as nat, policy.max_snippet_chars as nat),
{
    let h = str_chars(html);
    let body_marker = str_chars("result__body");
    let mut results: Vec<SearchResult> = Vec::new();
    match find_first(h.as_slice(), body_marker.as_slice(), 0) {
        Some(s) => {
            let block = slice_range(h.as_slice(), s, h.len());
            assert(block@ =~= h@.skip(s as int));
            match parse_block(block.as_slice(), policy.max_snippet_chars) {
                Some(r) => {
                    results.push(r);
                    assert(results_view(results@) =~= seq![result_view(r)]);
                    return results;
                },
                None => {},
            }
        },
        None => {},
    }
    let snippet_marker = str_chars("result__snippet");
    let close = str_chars("</a>");
    proof {
        reveal_strlit("</a>");
    }
    let mut pos: usize = 0;
    let mut done = false;
    assert(results_view(results@) =~= Seq::<(Seq<char>, Seq<char>, Seq<char>)>::empty());
    while pos <= h.len() && !done
        invariant
            h@ == html@,
            snippet_marker@ == "result__snippet"@,
            close@ == "</a>"@,
            close@.len() == 4,
            pos <= h@.len() + 1,
            !done ==> snippet_scan(h@, 0, Seq::empty(), policy.max_results as nat, policy.max_snippet_chars as nat)
                == snippet_scan(h@, pos as int, results_view(results@), policy.max_results as nat, policy.max_snippet_chars as nat),
            done ==> snippet_scan(h@, 0, Seq::empty(), policy.max_results as nat, policy.max_snippet_chars as nat)
                == results_view(results@),
        decreases h@.len() + 1 - pos, if done { 0int } else { 1int },
    {
        match find_first(h.as_slice(), snippet_marker.as_slice(), pos) {
            None => {
                done = true;
            },
            Some(s) => {
                let fragment = slice_range(h.as_slice(), s, h.len());
                assert(fragment@ =~= h@.skip(s as int));
                let parsed = parse_snippet_anchor(fragment.as_slice(), policy.max_snippet_chars);
                let mut full = false;
                match parsed {
                    Some(r) => {
                        let ghost before = results@;
                        results.push(r);
                        assert(results_view(results@) =~= results_view(before).push(result_view(r)));
                        full = results.len() >= policy.max_results;
                    },
                    None => {},
                }
                if full {
                    done = true;
                } else {
                    match find_first(h.as_slice(), close.as_slice(), s) {
                        None => {
                            done = true;
                        },
                        Some(n) => {
                            pos = n + close.len();
                        },
                    }
                }
            },
        }
    }
    results
}

} // verus!
