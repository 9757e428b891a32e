//! Results from Yahoo's HTML search page.

use crate::search::duckduckgo::results_view;
use crate::search::types::{normalized_spec, result_view, SearchPolicy, SearchResult};
use crate::search::util::{decoded_bytes, html_text, strip_html_tags, url_decode, utf8_lossy};
use crate::text::{
    contains_seq, find_first, find_last, first_occurrence, last_occurrence, slice_range, str_chars,
    str_contains, string_from_chars,
};
use vstd::prelude::*;

verus! {

/// The value of `href="..."` in an opening tag.
pub open spec fn href_value(tag: Seq<char>) -> Option<Seq<char>> {
    match first_occurrence(tag, "href=\""@, 0) {
        None => None,
        Some(h) => match first_occurrence(tag, seq!['"'], h + "href=\""@.len()) {
            None => None,
            Some(e) => Some(tag.subrange(h + "href=\""@.len(), e)),
        },
    }
}

/// The visible text of the first element opened by `open` and closed by
/// `close` in `f`.
pub open spec fn element_text(f: Seq<char>, open: Seq<char>, close: Seq<char>) -> Option<Seq<char>> {
    match first_occurrence(f, open, 0) {
        None => None,
        Some(s) => match first_occurrence(f, seq!['>'], s) {
            None => None,
            Some(g) => match first_occurrence(f, close, g + 1) {
                None => None,
                Some(e) => Some(html_text(f.subrange(g + 1, e))),
            },
        },
    }
}

/// The target of a Yahoo redirect link: the percent-decoded `/RU=` part
/// (up to `/RK=`), else the link as is.
pub open spec fn redirect_target(href: Seq<char>) -> Seq<char> {
    match first_occurrence(href, "/RU="@, 0) {
        Some(u) => {
            let from = u + "/RU="@.len();
            let seg_end = match first_occurrence(href, "/RU="@, from) {
                Some(v) => v,
                None => href.len() as int,
            };
            let seg = href.subrange(from, seg_end);
            let encoded = match first_occurrence(seg, "/RK="@, 0) {
                Some(k) => seg.take(k),
                None => seg,
            };
            utf8_lossy(decoded_bytes(encoded, 0))
        },
        None => href,
    }
}

/// A challenge page instead of results.
pub open spec fn challenge_page(html: Seq<char>) -> bool {
    contains_seq(html, "cf-turnstile"@) || contains_seq(html, "captcha_header"@)
}

/// The results of algorithmic result anchors from `pos` on, after `found`.
pub open spec fn algo_scan(html: Seq<char>, pos: int, found: Seq<(Seq<char>, Seq<char>, Seq<char>)>, max_results: nat, max_snippet: nat) -> Seq<(Seq<char>, Seq<char>, Seq<char>)>
    decreases html.len() + 1 - pos,
{
    if pos < 0 || pos > html.len() {
        found
    } else {
        match first_occurrence(html, "data-matarget=\"algo\""@, pos) {
            None => found,
            Some(m) => {
                proof {
                    crate::text::lemma_first_occurrence_bounds(html, "data-matarget=\"algo\""@, pos);
                }
                match last_occurrence(html.subrange(pos, m), "<a"@) {
                    None => algo_scan(html, m + 1, found, max_results, max_snippet),
                    Some(rel) => {
                        let a = pos + rel;
                        match first_occurrence(html, seq!['>'], a) {
                            None => found,
                            Some(te) => match href_value(html.subrange(a, te)) {
                                None => algo_scan(html, m + 1, found, max_results, max_snippet),
                                Some(href) => match first_occurrence(html, "</a>"@, te + 1) {
                                    None => found,
                                    Some(ae) => {
                                        proof {
                                            crate::text::lemma_last_occurrence_bounds(html.subrange(pos, m), "<a"@);
                                            crate::text::lemma_first_occurrence_bounds(html, seq!['>'], a);
                                            crate::text::lemma_first_occurrence_bounds(html, "</a>"@, te + 1);
                                            reveal_strlit("</a>");
                                        }
                                        let body = html.subrange(te + 1, ae);
                                        let title = match element_text(body, "<h3"@, "</h3>"@) {
                                            Some(t) => t,
                                            None => html_text(body),
                                        };
                                        let after = ae + "</a>"@.len();
                                        let block_end = match first_occurrence(html, "</li>"@, after) {
                                            Some(b) => b,
                                            None => html.len() as int,
                                        };
                                        let snippet = match element_text(html.subrange(after, block_end), "<p"@, "</p>"@) {
                                            Some(t) => t,
                                            None => Seq::empty(),
                                        };
                                        let parsed = normalized_spec(title, redirect_target(href), snippet, max_snippet);
                                        let next = match parsed {
                                            Some(r) => found.push(r),
                                            None => found,
                                        };
                                        if parsed is Some && next.len() >= max_results {
                                            next
                                        } else {
                                            proof {
                                                if first_occurrence(html, "</li>"@, after) is Some {
                                                    crate::text::lemma_first_occurrence_bounds(html, "</li>"@, after);
                                                }
                                            }
                                            algo_scan(html, block_end, next, max_results, max_snippet)
                                        }
                                    },
                                },
                            },
                        }
                    },
                }
            },
        }
    }
}

/// The results of a Yahoo page: none for a challenge page, else those of
/// its algorithmic result anchors, at most `max_results` of them.
pub open spec fn yahoo_results(html: Seq<char>, max_results: nat, max_snippet: nat) -> Seq<(Seq<char>, Seq<char>, Seq<char>)> {
    if challenge_page(html) {
        Seq::empty()
    } else {
        algo_scan(html, 0, Seq::empty(), max_results, max_snippet)
    }
}

fn find_href(tag: &[char]) -> (value: Option<Vec<char>>)
    ensures
        match value {
            Some(v) => href_value(tag@) == Some(v@),
            None => href_value(tag@) is None,
        },
{
    let marker = str_chars("href=\"");
    let quote: Vec<char> = vec!['"'];
    assert(quote@ =~= seq!['"']);
    let h = match find_first(tag, marker.as_slice(), 0) {
        None => {
            return None;
        },
        Some(h) => h,
    };
    let tlen = tag.len();
    assert(h + marker@.len() <= tlen);
    let start = h + marker.len();
    match find_first(tag, quote.as_slice(), start) {
        None => None,
        Some(e) => Some(slice_range(tag, start, e)),
    }
}

fn find_element_text(f: &[char], open: &str, close: &str) -> (text: Option<String>)
    ensures
        match text {
            Some(t) => element_text(f@, open@, close@) == Some(t@),
            None => element_text(f@, open@, close@) is None,
        },
{
    let o = str_chars(open);
    let c = str_chars(close);
    let gt: Vec<char> = vec!['>'];
    assert(gt@ =~= seq!['>']);
    let s = match find_first(f, o.as_slice(), 0) {
        None => {
            return None;
        },
        Some(s) => s,
    };
    let g = match find_first(f, gt.as_slice(), s) {
        None => {
            return None;
        },
        Some(g) => g,
    };
    let flen = f.len();
    assert(g + 1 <= flen);
    match find_first(f, c.as_slice(), g + 1) {
        None => None,
        Some(e) => {
            let inner = slice_range(f, g + 1, e);
            let raw = string_from_chars(inner.as_slice());
            Some(strip_html_tags(raw.as_str()))
        },
    }
}

/// The target of a Yahoo redirect link.
pub fn decode_redirect_url(href: &[char]) -> (target: String)
    ensures
        target@ == redirect_target(href@),
{
    let marker = str_chars("/RU=");
    let key = str_chars("/RK=");
    match find_first(href, marker.as_slice(), 0) {
        Some(u) => {
            let hlen = href.len();
            assert(u + marker@.len() <= hlen);
            let from = u + marker.len();
            let seg_end = match find_first(href, marker.as_slice(), from) {
                Some(v) => v,
                None => href.len(),
            };
            let seg = slice_range(href, from, seg_end);
            let encoded = match find_first(seg.as_slice(), key.as_slice(), 0) {
                Some(k) => {
                    let e = slice_range(seg.as_slice(), 0, k);
                    assert(e@ =~= seg@.take(k as int));
                    e
                },
                None => seg,
            };
            let text = string_from_chars(encoded.as_slice());
            url_decode(text.as_str())
        },
        None => string_from_chars(href),
    }
}

/// Reads the results of a Yahoo search page.
pub fn parse_html(html: &str, policy: &SearchPolicy) -> (results: Vec<SearchResult>)
    ensures
        results_view(results@) == yahoo_results(html@, policy.max_results as nat, policy.max_snippet_chars as nat),
{
    let mut results: Vec<SearchResult> = Vec::new();
    assert(results_view(results@) =~= Seq::<(Seq<char>, Seq<char>, Seq<char>)>::empty());
    if str_contains(html, "cf-turnstile") || str_contains(html, "captcha_header") {
        return results;
    }
    let h = str_chars(html);
    let marker = str_chars("data-matarget=\"algo\"");
    let open = str_chars("<a");
    let gt: Vec<char> = vec!['>'];
    assert(gt@ =~= seq!['>']);
    let close = str_chars("</a>");
    let item_close = str_chars("</li>");
    proof {
        reveal_strlit("</a>");
        reveal_strlit("data-matarget=\"algo\"");
    }
    let mut pos: usize = 0;
    let mut done = false;
    while pos <= h.len() && !done
        invariant
            h@ == html@,
            marker@ == "data-matarget=\"algo\""@,
            marker@.len() == 20,
            open@ == "<a"@,
            gt@ == seq!['>'],
            close@ == "</a>"@,
            close@.len() == 4,
            item_close@ == "</li>"@,
            pos <= h@.len() + 1,
            !done ==> algo_scan(h@, 0, Seq::empty(), policy.max_results as nat, policy.max_snippet_chars as nat)
                == algo_scan(h@, pos as int, results_view(results@), policy.max_results as nat, policy.max_snippet_chars as nat),
            done ==> algo_scan(h@, 0, Seq::empty(), policy.max_results as nat, policy.max_snippet_chars as nat)
                == results_view(results@),
        decreases h@.len() + 1 - pos, if done { 0int } else { 1int },
    {
        let m = match find_first(h.as_slice(), marker.as_slice(), pos) {
            None => {
                done = true;
                continue;
            },
            Some(m) => m,
        };
        let before = slice_range(h.as_slice(), pos, m);
        let rel = match find_last(before.as_slice(), open.as_slice()) {
            None => {
                pos = m + 1;
                continue;
            },
            Some(rel) => rel,
        };
        proof {
            crate::text::lemma_last_occurrence_bounds(before@, open@);
        }
        let a = pos + rel;
        let te = match find_first(h.as_slice(), gt.as_slice(), a) {
            None => {
                done = true;
                continue;
            },
            Some(te) => te,
        };
        let tag = slice_range(h.as_slice(), a, te);
        let href = match find_href(tag.as_slice()) {
            None => {
                pos = m + 1;
                continue;
            },
            Some(href) => href,
        };
        let hlen = h.len();
        assert(te + 1 <= hlen);
        let ae = match find_first(h.as_slice(), close.as_slice(), te + 1) {
            None => {
                done = true;
                continue;
            },
            Some(ae) => ae,
        };
        let body = slice_range(h.as_slice(), te + 1, ae);
        let title = match find_element_text(body.as_slice(), "<h3", "</h3>") {
            Some(t) => t,
            None => {
                let raw = string_from_chars(body.as_slice());
                strip_html_tags(raw.as_str())
            },
        };
        let after = ae + close.len();
        let block_end = match find_first(h.as_slice(), item_close.as_slice(), after) {
            Some(b) => b,
            None => h.len(),
        };
        let tail = slice_range(h.as_slice(), after, block_end);
        let snippet = match find_element_text(tail.as_slice(), "<p", "</p>") {
            Some(t) => t,
            None => String::new(),
        };
        let url = decode_redirect_url(href.as_slice());
        let parsed = SearchResult::normalized(title.as_str(), url.as_str(), snippet.as_str(), policy.max_snippet_chars);
        let mut full = false;
        match parsed {
            Some(r) => {
                let ghost prev = results@;
                results.push(r);
                assert(results_view(results@) =~= results_view(prev).push(result_view(r)));
                full = results.len() >= policy.max_results;
            },
            None => {},
        }
        if full {
            done = true;
        } else {
            pos = block_end;
        }
    }
    results
}

} // verus!
