//! Cleaning model output: leaked system and tool-protocol tags are removed
//! where they stand in ordinary text, and left alone inside code fences,
//! inline code and double-quoted text.

use crate::text::{
    char_is_whitespace, find_first, find_from, is_whitespace, matches_at, occurs_at, push_char, str_chars,
    trim_start,
};
use vstd::prelude::*;

verus! {

/// Where in a Markdown text the scan stands: inside a fence (marker and
/// length of its opening run, length 0 for none), inside an inline code span
/// (length of its backtick run, 0 for none), or inside a double-quoted
/// phrase.
#[derive(Debug, Clone, Copy, PartialEq, Eq, Structural)]
pub struct MarkdownContext {
    pub fence_marker: char,
    pub fence_len: usize,
    pub inline_len: usize,
    pub in_quote: bool,
}

/// Ordinary text, outside code and quotes.
pub open spec fn plain_context() -> MarkdownContext {
    MarkdownContext { fence_marker: '`', fence_len: 0, inline_len: 0, in_quote: false }
}

/// Tags in ordinary text are live; inside code or quotes they are inert.
pub open spec fn executable(st: MarkdownContext) -> bool {
    st.fence_len == 0 && st.inline_len == 0 && !st.in_quote
}

/// The context after a fragment: a run of `n` characters `c` (a run of
/// backticks or tildes, or one other character). A fence closes at a run of
/// its marker at least as long as its opening; an inline span at a backtick
/// run of its own length; a quote at `"` or at a line end. In ordinary text
/// a run of three or more backticks or tildes opens a fence, a shorter
/// backtick run an inline span, and `"` a quote.
pub open spec fn after_fragment(st: MarkdownContext, c: char, n: nat) -> MarkdownContext {
    if st.fence_len > 0 {
        if c == st.fence_marker && n >= st.fence_len {
            MarkdownContext { fence_len: 0, ..st }
        } else {
            st
        }
    } else if st.inline_len > 0 {
        if c == '`' && n == st.inline_len {
            MarkdownContext { inline_len: 0, ..st }
        } else {
            st
        }
    } else if st.in_quote {
        if c == '"' || c == '\n' {
            MarkdownContext { in_quote: false, ..st }
        } else {
            st
        }
    } else if (c == '`' || c == '~') && n >= 3 && n <= usize::MAX {
        MarkdownContext { fence_marker: c, fence_len: n as usize, ..st }
    } else if c == '`' && n <= usize::MAX {
        MarkdownContext { inline_len: n as usize, ..st }
    } else if c == '"' {
        MarkdownContext { in_quote: true, ..st }
    } else {
        st
    }
}

impl MarkdownContext {
    /// Ordinary text.
    pub fn plain() -> (st: MarkdownContext)
        ensures
            st == plain_context(),
    {
        MarkdownContext { fence_marker: '`', fence_len: 0, inline_len: 0, in_quote: false }
    }

    /// Whether tags are live here.
    pub fn is_executable_context(&self) -> (live: bool)
        ensures
            live == executable(*self),
    {
        self.fence_len == 0 && self.inline_len == 0 && !self.in_quote
    }

    /// Steps over a run of `n` characters `c`.
    pub fn advance(&mut self, c: char, n: usize)
        ensures
            *final(self) == after_fragment(*old(self), c, n as nat),
    {
        if self.fence_len > 0 {
            if c == self.fence_marker && n >= self.fence_len {
                self.fence_len = 0;
            }
        } else if self.inline_len > 0 {
            if c == '`' && n == self.inline_len {
                self.inline_len = 0;
            }
        } else if self.in_quote {
            if c == '"' || c == '\n' {
                self.in_quote = false;
            }
        } else if (c == '`' || c == '~') && n >= 3 {
            self.fence_marker = c;
            self.fence_len = n;
        } else if c == '`' {
            self.inline_len = n;
        } else if c == '"' {
            self.in_quote = true;
        }
    }
}

/// The leaked tags removed outright, in the order they are tried.
pub open spec fn leak_tags() -> Seq<Seq<char>> {
    seq![
        "</think>"@, "<think>"@, "</thinking>"@, "<thinking>"@, "</parameter>"@, "<parameter>"@,
        "</｜DSML｜parameter>"@, "<｜DSML｜parameter>"@, "</｜DSML｜invoke>"@, "<｜DSML｜invoke>"@,
        "</｜DSML｜tool_calls>"@, "<｜DSML｜tool_calls>"@, "<|DSML|tool_calls>"@, "</|DSML|tool_calls>"@,
        "<|DSML|invoke>"@, "</|DSML|invoke>"@, "<|DSML|parameter>"@, "</|DSML|parameter>"@,
        "<dsml>"@, "</dsml>"@, "&lt;/think&gt;"@, "&lt;think&gt;"@, "</tool_calls>"@,
        "<tool_calls>"@, "</tool_call>"@, "<tool_call>"@, "</invoke>"@, "<invoke>"@,
    ]
}

/// Tool-protocol opening tags that may carry attributes, in the order they
/// are tried.
pub open spec fn open_prefixes() -> Seq<Seq<char>> {
    seq![
        "<|DSML|invoke"@, "<|DSML|tool_calls"@, "<|DSML|parameter"@, "<｜DSML｜invoke"@,
        "<｜DSML｜tool_calls"@, "<｜DSML｜parameter"@, "<tool_calls"@, "<tool_call"@, "<invoke"@,
        "<parameter"@,
    ]
}

/// The generic XML tool tags of `leak_tags` (by position) that the
/// compatibility parser reads.
pub open spec fn compat_exact_tag(k: int) -> bool {
    k == 4 || k == 5 || (22 <= k && k <= 27)
}

/// The generic XML opening prefixes of `open_prefixes` (by position).
pub open spec fn compat_open_prefix(k: int) -> bool {
    6 <= k && k <= 9
}

/// The first tag of `tags` from position `k` on that occurs at `i` and is
/// not preserved, by its position in the list.
pub open spec fn first_tag_from(text: Seq<char>, i: int, tags: Seq<Seq<char>>, k: int, preserved: spec_fn(int) -> bool) -> Option<int>
    decreases tags.len() - k,
{
    if k < 0 || k >= tags.len() {
        None
    } else if !preserved(k) && occurs_at(text, tags[k], i) {
        Some(k)
    } else {
        first_tag_from(text, i, tags, k + 1, preserved)
    }
}

/// What the preserve flag keeps among the exact tags.
pub open spec fn exact_preserved(preserve: bool) -> spec_fn(int) -> bool {
    |k: int| preserve && compat_exact_tag(k)
}

/// What the preserve flag keeps among the opening prefixes.
pub open spec fn prefix_preserved(preserve: bool) -> spec_fn(int) -> bool {
    |k: int| preserve && compat_open_prefix(k)
}

/// The position of the first `>` at or after `j` outside single or double
/// quotes, `quote` being the quote open at `j`.
pub open spec fn tag_close(text: Seq<char>, j: int, quote: Option<char>) -> Option<int>
    decreases text.len() - j,
{
    if j < 0 || j >= text.len() {
        None
    } else {
        let c = text[j];
        match quote {
            Some(q) => if c == q {
                tag_close(text, j + 1, None)
            } else {
                tag_close(text, j + 1, quote)
            },
            None => if c == '"' || c == '\'' {
                tag_close(text, j + 1, Some(c))
            } else if c == '>' {
                Some(j)
            } else {
                tag_close(text, j + 1, None)
            },
        }
    }
}

/// The end of the fragment starting at `i`: a run of backticks or tildes
/// is one fragment, any other character is one.
pub open spec fn fragment_end(text: Seq<char>, i: int) -> int
    decreases text.len() - i,
{
    if i + 1 < text.len() && (text[i] == '`' || text[i] == '~') && text[i + 1] == text[i] {
        fragment_end(text, i + 1)
    } else {
        i + 1
    }
}

/// Every leaked tag and every opening prefix is non-empty.
pub proof fn lemma_tables_nonempty()
    ensures
        forall|k: int| 0 <= k < leak_tags().len() ==> #[trigger] leak_tags()[k].len() > 0,
        forall|k: int| 0 <= k < open_prefixes().len() ==> #[trigger] open_prefixes()[k].len() > 0,
{
    reveal_strlit("</think>");
    reveal_strlit("<think>");
    reveal_strlit("</thinking>");
    reveal_strlit("<thinking>");
    reveal_strlit("</parameter>");
    reveal_strlit("<parameter>");
    reveal_strlit("</｜DSML｜parameter>");
    reveal_strlit("<｜DSML｜parameter>");
    reveal_strlit("</｜DSML｜invoke>");
    reveal_strlit("<｜DSML｜invoke>");
    reveal_strlit("</｜DSML｜tool_calls>");
    reveal_strlit("<｜DSML｜tool_calls>");
    reveal_strlit("<|DSML|tool_calls>");
    reveal_strlit("</|DSML|tool_calls>");
    reveal_strlit("<|DSML|invoke>");
    reveal_strlit("</|DSML|invoke>");
    reveal_strlit("<|DSML|parameter>");
    reveal_strlit("</|DSML|parameter>");
    reveal_strlit("<dsml>");
    reveal_strlit("</dsml>");
    reveal_strlit("&lt;/think&gt;");
    reveal_strlit("&lt;think&gt;");
    reveal_strlit("</tool_calls>");
    reveal_strlit("<tool_calls>");
    reveal_strlit("</tool_call>");
    reveal_strlit("<tool_call>");
    reveal_strlit("</invoke>");
    reveal_strlit("<invoke>");
    reveal_strlit("<|DSML|invoke");
    reveal_strlit("<|DSML|tool_calls");
    reveal_strlit("<|DSML|parameter");
    reveal_strlit("<｜DSML｜invoke");
    reveal_strlit("<｜DSML｜tool_calls");
    reveal_strlit("<｜DSML｜parameter");
    reveal_strlit("<tool_calls");
    reveal_strlit("<tool_call");
    reveal_strlit("<invoke");
    reveal_strlit("<parameter");
}

/// A tag found at `i` is a listed, unpreserved tag occurring there.
pub proof fn lemma_first_tag_found(text: Seq<char>, i: int, tags: Seq<Seq<char>>, k: int, preserved: spec_fn(int) -> bool)
    requires
        first_tag_from(text, i, tags, k, preserved) is Some,
    ensures
        ({
            let t = first_tag_from(text, i, tags, k, preserved)->0;
            &&& k <= t < tags.len()
            &&& 0 <= t
            &&& !preserved(t)
            &&& occurs_at(text, tags[t], i)
        }),
    decreases tags.len() - k,
{
    if k >= 0 && k < tags.len() && !(!preserved(k) && occurs_at(text, tags[k], i)) {
        lemma_first_tag_found(text, i, tags, k + 1, preserved);
    }
}

/// A closing `>` is found at or after where the search starts.
pub proof fn lemma_tag_close_after(text: Seq<char>, j: int, quote: Option<char>)
    requires
        tag_close(text, j, quote) is Some,
    ensures
        j <= tag_close(text, j, quote)->0 < text.len(),
    decreases text.len() - j,
{
    if j >= 0 && j < text.len() {
        let c = text[j];
        match quote {
            Some(q) => if c == q {
                lemma_tag_close_after(text, j + 1, None);
            } else {
                lemma_tag_close_after(text, j + 1, quote);
            },
            None => if c == '"' || c == '\'' {
                lemma_tag_close_after(text, j + 1, Some(c));
            } else if c != '>' {
                lemma_tag_close_after(text, j + 1, None);
            },
        }
    }
}

/// Some character of `s` is not whitespace.
pub open spec fn has_visible(s: Seq<char>) -> bool {
    exists|k: int| 0 <= k < s.len() && !is_whitespace(#[trigger] s[k])
}

proof fn lemma_visible_concat(a: Seq<char>, b: Seq<char>)
    ensures
        has_visible(a + b) == (has_visible(a) || has_visible(b)),
{
    if has_visible(a) {
        let w = choose|w: int| 0 <= w < a.len() && !is_whitespace(#[trigger] a[w]);
        assert((a + b)[w] == a[w]);
    }
    if has_visible(b) {
        let w = choose|w: int| 0 <= w < b.len() && !is_whitespace(#[trigger] b[w]);
        assert((a + b)[a.len() + w] == b[w]);
    }
    if has_visible(a + b) {
        let w = choose|w: int| 0 <= w < (a + b).len() && !is_whitespace(#[trigger] (a + b)[w]);
        if w < a.len() {
            assert(a[w] == (a + b)[w]);
        } else {
            assert(b[w - a.len()] == (a + b)[w]);
        }
    }
}

/// The text kept from position `i` on, and whether a tag was removed before
/// any visible character, given the context `st` at `i`, whether visible
/// text was kept already, and whether a tag was removed before it.
pub open spec fn strip_scan(text: Seq<char>, i: int, st: MarkdownContext, visible: bool, stripped: bool, preserve: bool) -> (Seq<char>, bool)
    decreases text.len() - i,
{
    if i < 0 || i >= text.len() {
        (Seq::empty(), stripped)
    } else {
        let tag = first_tag_from(text, i, leak_tags(), 0, exact_preserved(preserve));
        let prefix = first_tag_from(text, i, open_prefixes(), 0, prefix_preserved(preserve));
        let close = match prefix {
            Some(k) => tag_close(text, i + open_prefixes()[k].len(), None),
            None => None,
        };
        if executable(st) && tag is Some {
            proof {
                lemma_first_tag_found(text, i, leak_tags(), 0, exact_preserved(preserve));
                lemma_tables_nonempty();
            }
            strip_scan(text, i + leak_tags()[tag->0].len(), st, visible, stripped || !visible, preserve)
        } else if executable(st) && close is Some {
            proof {
                lemma_first_tag_found(text, i, open_prefixes(), 0, prefix_preserved(preserve));
                lemma_tables_nonempty();
                lemma_tag_close_after(text, i + open_prefixes()[prefix->0].len(), None);
            }
            strip_scan(text, close->0 + 1, st, visible, stripped || !visible, preserve)
        } else {
            proof {
                lemma_fragment_end_bounds(text, i);
            }
            let end = fragment_end(text, i);
            let fragment = text.subrange(i, end);
            let rest = strip_scan(
                text,
                end,
                after_fragment(st, text[i], (end - i) as nat),
                visible || has_visible(fragment),
                stripped,
                preserve,
            );
            (fragment + rest.0, rest.1)
        }
    }
}

/// `text` with leaked tags removed outside code and quotes, starting in
/// context `st`; leading whitespace is trimmed when a tag was removed before
/// any visible text.
pub open spec fn stripped_text(text: Seq<char>, st: MarkdownContext, preserve: bool) -> Seq<char> {
    let (kept, stripped) = strip_scan(text, 0, st, false, false, preserve);
    if stripped {
        trim_start(kept)
    } else {
        kept
    }
}

proof fn lemma_trim_start_idempotent(s: Seq<char>)
    ensures
        trim_start(trim_start(s)) == trim_start(s),
    decreases s.len(),
{
    if s.len() > 0 && is_whitespace(s[0]) {
        lemma_trim_start_idempotent(s.drop_first());
    }
}

proof fn lemma_occurs_shift(p: Seq<char>, t: Seq<char>, j: int, pat: Seq<char>)
    requires
        0 <= j,
    ensures
        occurs_at(p + t, pat, p.len() + j) == occurs_at(t, pat, j),
{
    if j + pat.len() <= t.len() {
        assert((p + t).subrange(p.len() + j, p.len() + j + pat.len()) =~= t.subrange(j, j + pat.len()));
    }
}

proof fn lemma_first_tag_shift(p: Seq<char>, t: Seq<char>, j: int, tags: Seq<Seq<char>>, k: int, preserved: spec_fn(int) -> bool)
    requires
        0 <= j,
    ensures
        first_tag_from(p + t, p.len() + j, tags, k, preserved) == first_tag_from(t, j, tags, k, preserved),
    decreases tags.len() - k,
{
    if 0 <= k < tags.len() {
        lemma_occurs_shift(p, t, j, tags[k]);
        lemma_first_tag_shift(p, t, j, tags, k + 1, preserved);
    }
}

proof fn lemma_tag_close_shift(p: Seq<char>, t: Seq<char>, j: int, quote: Option<char>)
    requires
        0 <= j,
    ensures
        tag_close(p + t, p.len() + j, quote) == (match tag_close(t, j, quote) {
            Some(x) => Some(x + p.len()),
            None => None,
        }),
    decreases t.len() - j,
{
    if j < t.len() {
        assert((p + t)[p.len() + j] == t[j]);
        lemma_tag_close_shift(p, t, j + 1, None);
        let c = t[j];
        if c != '"' && c != '\'' {
            lemma_tag_close_shift(p, t, j + 1, quote);
        } else {
            lemma_tag_close_shift(p, t, j + 1, Some(c));
            lemma_tag_close_shift(p, t, j + 1, quote);
        }
    }
}

proof fn lemma_fragment_end_shift(p: Seq<char>, t: Seq<char>, j: int)
    requires
        0 <= j < t.len(),
    ensures
        fragment_end(p + t, p.len() + j) == fragment_end(t, j) + p.len(),
    decreases t.len() - j,
{
    assert((p + t)[p.len() + j] == t[j]);
    if j + 1 < t.len() {
        assert((p + t)[p.len() + j + 1] == t[j + 1]);
        lemma_fragment_end_shift(p, t, j + 1);
    }
}

/// The scan of a text's tail does not depend on what precedes it.
proof fn lemma_strip_scan_shift(
    p: Seq<char>,
    t: Seq<char>,
    j: int,
    st: MarkdownContext,
    visible: bool,
    stripped: bool,
    preserve: bool,
)
    requires
        0 <= j,
    ensures
        strip_scan(p + t, p.len() + j, st, visible, stripped, preserve) == strip_scan(t, j, st, visible, stripped, preserve),
    decreases t.len() - j,
{
    let text = p + t;
    let i = p.len() + j;
    if j < t.len() {
        lemma_first_tag_shift(p, t, j, leak_tags(), 0, exact_preserved(preserve));
        lemma_first_tag_shift(p, t, j, open_prefixes(), 0, prefix_preserved(preserve));
        let tag = first_tag_from(t, j, leak_tags(), 0, exact_preserved(preserve));
        let prefix = first_tag_from(t, j, open_prefixes(), 0, prefix_preserved(preserve));
        lemma_tables_nonempty();
        if executable(st) && tag is Some {
            lemma_first_tag_found(t, j, leak_tags(), 0, exact_preserved(preserve));
            lemma_strip_scan_shift(p, t, j + leak_tags()[tag->0].len(), st, visible, stripped || !visible, preserve);
            return;
        }
        if prefix is Some {
            lemma_first_tag_found(t, j, open_prefixes(), 0, prefix_preserved(preserve));
            let from = j + open_prefixes()[prefix->0].len();
            lemma_tag_close_shift(p, t, from, None);
            if executable(st) && tag_close(t, from, None) is Some {
                lemma_tag_close_after(t, from, None);
                lemma_strip_scan_shift(p, t, tag_close(t, from, None)->0 + 1, st, visible, stripped || !visible, preserve);
                return;
            }
        }
        lemma_fragment_end_bounds(t, j);
        lemma_fragment_end_shift(p, t, j);
        let end = fragment_end(t, j);
        assert(text[i] == t[j]);
        assert(text.subrange(i, end + p.len()) =~= t.subrange(j, end));
        let fragment = t.subrange(j, end);
        lemma_strip_scan_shift(
            p,
            t,
            end,
            after_fragment(st, t[j], (end - j) as nat),
            visible || has_visible(fragment),
            stripped,
            preserve,
        );
    }
}

/// The text a scan keeps does not depend on the flags it carries; a scan
/// that starts with a tag already removed reports one removed.
proof fn lemma_strip_scan_flags(
    t: Seq<char>,
    j: int,
    st: MarkdownContext,
    visible: bool,
    stripped: bool,
    other_visible: bool,
    other_stripped: bool,
    preserve: bool,
)
    ensures
        strip_scan(t, j, st, visible, stripped, preserve).0 == strip_scan(t, j, st, other_visible, other_stripped, preserve).0,
        stripped ==> strip_scan(t, j, st, visible, stripped, preserve).1,
    decreases t.len() - j,
{
    if 0 <= j < t.len() {
        let tag = first_tag_from(t, j, leak_tags(), 0, exact_preserved(preserve));
        let prefix = first_tag_from(t, j, open_prefixes(), 0, prefix_preserved(preserve));
        lemma_tables_nonempty();
        if executable(st) && tag is Some {
            lemma_first_tag_found(t, j, leak_tags(), 0, exact_preserved(preserve));
            lemma_strip_scan_flags(
                t,
                j + leak_tags()[tag->0].len(),
                st,
                visible,
                stripped || !visible,
                other_visible,
                other_stripped || !other_visible,
                preserve,
            );
            return;
        }
        if prefix is Some {
            lemma_first_tag_found(t, j, open_prefixes(), 0, prefix_preserved(preserve));
            let from = j + open_prefixes()[prefix->0].len();
            if executable(st) && tag_close(t, from, None) is Some {
                lemma_tag_close_after(t, from, None);
                lemma_strip_scan_flags(
                    t,
                    tag_close(t, from, None)->0 + 1,
                    st,
                    visible,
                    stripped || !visible,
                    other_visible,
                    other_stripped || !other_visible,
                    preserve,
                );
                return;
            }
        }
        lemma_fragment_end_bounds(t, j);
        let end = fragment_end(t, j);
        let fragment = t.subrange(j, end);
        lemma_strip_scan_flags(
            t,
            end,
            after_fragment(st, t[j], (end - j) as nat),
            visible || has_visible(fragment),
            stripped,
            other_visible || has_visible(fragment),
            other_stripped,
            preserve,
        );
    }
}

proof fn lemma_first_tag_prefix(text: Seq<char>, tags: Seq<Seq<char>>, m: int, k: int, preserved: spec_fn(int) -> bool)
    requires
        0 <= m <= k < tags.len(),
        !preserved(k),
        occurs_at(text, tags[k], 0),
        forall|x: int| 0 <= x < k ==> !occurs_at(text, #[trigger] tags[x], 0),
    ensures
        first_tag_from(text, 0, tags, m, preserved) == Some(k),
    decreases k - m,
{
    if m < k {
        lemma_first_tag_prefix(text, tags, m + 1, k, preserved);
    }
}

/// A text opening with an HTML-encoded `<think>` or `</think>` tag, in live
/// (executable) context, loses that tag: what remains is the cleaned rest
/// of the text, with leading whitespace trimmed as after any removed tag.
pub proof fn encoded_think_tags_are_stripped(t: Seq<char>, st: MarkdownContext, preserve: bool)
    requires
        executable(st),
    ensures
        stripped_text("&lt;think&gt;"@ + t, st, preserve) == trim_start(stripped_text(t, st, preserve)),
        stripped_text("&lt;/think&gt;"@ + t, st, preserve) == trim_start(stripped_text(t, st, preserve)),
{
    lemma_tables_nonempty();
    reveal_strlit("</think>");
    reveal_strlit("<think>");
    reveal_strlit("</thinking>");
    reveal_strlit("<thinking>");
    reveal_strlit("</parameter>");
    reveal_strlit("<parameter>");
    reveal_strlit("</｜DSML｜parameter>");
    reveal_strlit("<｜DSML｜parameter>");
    reveal_strlit("</｜DSML｜invoke>");
    reveal_strlit("<｜DSML｜invoke>");
    reveal_strlit("</｜DSML｜tool_calls>");
    reveal_strlit("<｜DSML｜tool_calls>");
    reveal_strlit("<|DSML|tool_calls>");
    reveal_strlit("</|DSML|tool_calls>");
    reveal_strlit("<|DSML|invoke>");
    reveal_strlit("</|DSML|invoke>");
    reveal_strlit("<|DSML|parameter>");
    reveal_strlit("</|DSML|parameter>");
    reveal_strlit("<dsml>");
    reveal_strlit("</dsml>");
    reveal_strlit("&lt;/think&gt;");
    reveal_strlit("&lt;think&gt;");
    let open = "&lt;think&gt;"@;
    let close = "&lt;/think&gt;"@;
    let kept = strip_scan(t, 0, st, false, false, preserve).0;
    lemma_strip_scan_flags(t, 0, st, false, true, false, false, preserve);
    lemma_trim_start_idempotent(kept);
    assert(leak_tags()[21] == open);
    assert(leak_tags()[20] == close);
    assert forall|m: int| 0 <= m < 21 implies !occurs_at(open + t, #[trigger] leak_tags()[m], 0) by {
        if occurs_at(open + t, leak_tags()[m], 0) {
            let w = leak_tags()[m];
            if m < 20 {
                assert(w[0] == '<');
                assert((open + t).subrange(0, w.len() as int)[0] == (open + t)[0]);
            } else {
                assert((open + t).subrange(0, w.len() as int)[4] == (open + t)[4]);
                assert(w[4] == '/');
            }
        }
    }
    assert(occurs_at(open + t, open, 0)) by {
        assert((open + t).subrange(0, open.len() as int) =~= open);
    }
    lemma_first_tag_prefix(open + t, leak_tags(), 0, 21, exact_preserved(preserve));
    lemma_strip_scan_shift(open, t, 0, st, false, true, preserve);
    assert forall|m: int| 0 <= m < 20 implies !occurs_at(close + t, #[trigger] leak_tags()[m], 0) by {
        if occurs_at(close + t, leak_tags()[m], 0) {
            let w = leak_tags()[m];
            assert(w[0] == '<');
            assert((close + t).subrange(0, w.len() as int)[0] == (close + t)[0]);
        }
    }
    assert(occurs_at(close + t, close, 0)) by {
        assert((close + t).subrange(0, close.len() as int) =~= close);
    }
    lemma_first_tag_prefix(close + t, leak_tags(), 0, 20, exact_preserved(preserve));
    lemma_strip_scan_shift(close, t, 0, st, false, true, preserve);
}

fn tag_table() -> (tags: Vec<Vec<char>>)
    ensures
        crate::text::char_views(tags@) == leak_tags(),
{
    let mut tags: Vec<Vec<char>> = Vec::new();
    tags.push(str_chars("</think>"));
    tags.push(str_chars("<think>"));
    tags.push(str_chars("</thinking>"));
    tags.push(str_chars("<thinking>"));
    tags.push(str_chars("</parameter>"));
    tags.push(str_chars("<parameter>"));
    tags.push(str_chars("</｜DSML｜parameter>"));
    tags.push(str_chars("<｜DSML｜parameter>"));
    tags.push(str_chars("</｜DSML｜invoke>"));
    tags.push(str_chars("<｜DSML｜invoke>"));
    tags.push(str_chars("</｜DSML｜tool_calls>"));
    tags.push(str_chars("<｜DSML｜tool_calls>"));
    tags.push(str_chars("<|DSML|tool_calls>"));
    tags.push(str_chars("</|DSML|tool_calls>"));
    tags.push(str_chars("<|DSML|invoke>"));
    tags.push(str_chars("</|DSML|invoke>"));
    tags.push(str_chars("<|DSML|parameter>"));
    tags.push(str_chars("</|DSML|parameter>"));
    tags.push(str_chars("<dsml>"));
    tags.push(str_chars("</dsml>"));
    tags.push(str_chars("&lt;/think&gt;"));
    tags.push(str_chars("&lt;think&gt;"));
    tags.push(str_chars("</tool_calls>"));
    tags.push(str_chars("<tool_calls>"));
    tags.push(str_chars("</tool_call>"));
    tags.push(str_chars("<tool_call>"));
    tags.push(str_chars("</invoke>"));
    tags.push(str_chars("<invoke>"));
    assert(crate::text::char_views(tags@) =~= leak_tags());
    tags
}

fn prefix_table() -> (prefixes: Vec<Vec<char>>)
    ensures
        crate::text::char_views(prefixes@) == open_prefixes(),
{
    let mut prefixes: Vec<Vec<char>> = Vec::new();
    prefixes.push(str_chars("<|DSML|invoke"));
    prefixes.push(str_chars("<|DSML|tool_calls"));
    prefixes.push(str_chars("<|DSML|parameter"));
    prefixes.push(str_chars("<｜DSML｜invoke"));
    prefixes.push(str_chars("<｜DSML｜tool_calls"));
    prefixes.push(str_chars("<｜DSML｜parameter"));
    prefixes.push(str_chars("<tool_calls"));
    prefixes.push(str_chars("<tool_call"));
    prefixes.push(str_chars("<invoke"));
    prefixes.push(str_chars("<parameter"));
    assert(crate::text::char_views(prefixes@) =~= open_prefixes());
    prefixes
}

fn find_tag(text: &[char], i: usize, tags: &Vec<Vec<char>>, exact: bool, preserve: bool) -> (found: Option<usize>)
    requires
        exact ==> crate::text::char_views(tags@) == leak_tags(),
        !exact ==> crate::text::char_views(tags@) == open_prefixes(),
    ensures
        ({
            let spec_found = if exact {
                first_tag_from(text@, i as int, leak_tags(), 0, exact_preserved(preserve))
            } else {
                first_tag_from(text@, i as int, open_prefixes(), 0, prefix_preserved(preserve))
            };
            match found {
                Some(k) => spec_found == Some(k as int) && k < tags@.len(),
                None => spec_found is None,
            }
        }),
{
    let ghost list = crate::text::char_views(tags@);
    let ghost keep = if exact {
        exact_preserved(preserve)
    } else {
        prefix_preserved(preserve)
    };
    let mut k: usize = 0;
    while k < tags.len()
        invariant
            k <= tags@.len(),
            list == crate::text::char_views(tags@),
            exact ==> list == leak_tags() && keep == exact_preserved(preserve),
            !exact ==> list == open_prefixes() && keep == prefix_preserved(preserve),
            first_tag_from(text@, i as int, list, 0, keep) == first_tag_from(text@, i as int, list, k as int, keep),
        decreases tags@.len() - k,
    {
        let kept = preserve && if exact {
            k == 4 || k == 5 || (22 <= k && k <= 27)
        } else {
            6 <= k && k <= 9
        };
        assert(kept == keep(k as int));
        assert(list[k as int] == tags@[k as int]@);
        if !kept && matches_at(text, tags[k].as_slice(), i) {
            return Some(k);
        }
        k = k + 1;
    }
    None
}

fn find_tag_close(text: &[char], from: usize) -> (close: Option<usize>)
    ensures
        match close {
            Some(j) => tag_close(text@, from as int, None) == Some(j as int) && j < text@.len(),
            None => tag_close(text@, from as int, None) is None,
        },
{
    let mut quote: Option<char> = None;
    let mut j: usize = from;
    while j < text.len()
        invariant
            from <= j <= text@.len() || (j == from && from > text@.len()),
            tag_close(text@, from as int, None) == tag_close(text@, j as int, quote),
        decreases text@.len() - j,
    {
        let c = text[j];
        match quote {
            Some(q) => {
                if c == q {
                    quote = None;
                }
            },
            None => {
                if c == '"' || c == '\'' {
                    quote = Some(c);
                } else if c == '>' {
                    return Some(j);
                }
            },
        }
        j = j + 1;
    }
    None
}

fn fragment_end_at(text: &[char], i: usize) -> (end: usize)
    requires
        i < text@.len(),
    ensures
        end as int == fragment_end(text@, i as int),
        i < end <= text@.len(),
{
    let mut end: usize = i;
    while end < text.len() - 1 && (text[end] == '`' || text[end] == '~') && text[end + 1] == text[end]
        invariant
            i <= end < text@.len(),
            fragment_end(text@, i as int) == fragment_end(text@, end as int),
            forall|k: int| i <= k <= end ==> text@[k] == text@[i as int],
        decreases text@.len() - end,
    {
        end = end + 1;
    }
    proof {
        lemma_fragment_end_bounds(text@, end as int);
    }
    end + 1
}

/// A fragment is at least one character long and ends inside the text.
pub proof fn lemma_fragment_end_bounds(text: Seq<char>, i: int)
    requires
        0 <= i < text.len(),
    ensures
        i < fragment_end(text, i) <= text.len(),
    decreases text.len() - i,
{
    if i + 1 < text.len() && (text[i] == '`' || text[i] == '~') && text[i + 1] == text[i] {
        lemma_fragment_end_bounds(text, i + 1);
    }
}

/// Removes leaked tags from `text`, starting in context `initial`; generic
/// XML tool tags are kept where `preserve_compat_xml`.
pub fn strip_system_tags_impl(text: &str, initial: MarkdownContext, preserve_compat_xml: bool) -> (cleaned: String)
    ensures
        cleaned@ == stripped_text(text@, initial, preserve_compat_xml),
{
    let t = str_chars(text);
    let tags = tag_table();
    let prefixes = prefix_table();
    let mut st = initial;
    let mut kept: Vec<char> = Vec::new();
    let mut i: usize = 0;
    let mut visible = false;
    let mut stripped = false;
    let ghost total = strip_scan(t@, 0, initial, false, false, preserve_compat_xml);
    while i < t.len()
        invariant
            i <= t@.len(),
            t@ == text@,
            crate::text::char_views(tags@) == leak_tags(),
            crate::text::char_views(prefixes@) == open_prefixes(),
            total == strip_scan(t@, 0, initial, false, false, preserve_compat_xml),
            total.0 == kept@ + strip_scan(t@, i as int, st, visible, stripped, preserve_compat_xml).0,
            total.1 == strip_scan(t@, i as int, st, visible, stripped, preserve_compat_xml).1,
            visible == has_visible(kept@),
        decreases t@.len() - i,
    {
        let live = st.is_executable_context();
        if live {
            match find_tag(t.as_slice(), i, &tags, true, preserve_compat_xml) {
                Some(k) => {
                    assert(leak_tags()[k as int] == tags@[k as int]@);
                    proof {
                        lemma_first_tag_found(t@, i as int, leak_tags(), 0, exact_preserved(preserve_compat_xml));
                        lemma_tables_nonempty();
                        assert(occurs_at(t@, tags@[k as int]@, i as int));
                    }
                    if !visible {
                        stripped = true;
                    }
                    i = i + tags[k].len();
                    continue;
                },
                None => {},
            }
            match find_tag(t.as_slice(), i, &prefixes, false, preserve_compat_xml) {
                Some(k) => {
                    assert(open_prefixes()[k as int] == prefixes@[k as int]@);
                    proof {
                        lemma_first_tag_found(t@, i as int, open_prefixes(), 0, prefix_preserved(preserve_compat_xml));
                        lemma_tables_nonempty();
                        assert(occurs_at(t@, prefixes@[k as int]@, i as int));
                    }
                    let from = i + prefixes[k].len();
                    match find_tag_close(t.as_slice(), from) {
                        Some(close) => {
                            proof {
                                lemma_tag_close_after(t@, from as int, None);
                            }
                            if !visible {
                                stripped = true;
                            }
                            i = close + 1;
                            continue;
                        },
                        None => {},
                    }
                },
                None => {},
            }
        }
        let end = fragment_end_at(t.as_slice(), i);
        let c = t[i];
        let ghost before = kept@;
        let mut k: usize = i;
        while k < end
            invariant
                i <= k <= end <= t@.len(),
                kept@ == before + t@.subrange(i as int, k as int),
            decreases end - k,
        {
            kept.push(t[k]);
            assert(before + t@.subrange(i as int, k + 1) =~= (before + t@.subrange(i as int, k as int)).push(t@[k as int]));
            k = k + 1;
        }
        let mut frag_visible = false;
        let mut m: usize = i;
        while m < end
            invariant
                i <= m <= end <= t@.len(),
                frag_visible == has_visible(t@.subrange(i as int, m as int)),
            decreases end - m,
        {
            proof {
                lemma_visible_concat(t@.subrange(i as int, m as int), seq![t@[m as int]]);
                assert(t@.subrange(i as int, m + 1) =~= t@.subrange(i as int, m as int) + seq![t@[m as int]]);
                assert(has_visible(seq![t@[m as int]]) == !is_whitespace(t@[m as int])) by {
                    if !is_whitespace(t@[m as int]) {
                        assert(seq![t@[m as int]][0] == t@[m as int]);
                    }
                }
            }
            if !char_is_whitespace(t[m]) {
                frag_visible = true;
            }
            m = m + 1;
        }
        let seen_visible = visible || frag_visible;
        proof {
            let fragment = t@.subrange(i as int, end as int);
            lemma_visible_concat(before, fragment);
            assert(kept@ + strip_scan(t@, end as int, after_fragment(st, c, (end - i) as nat), visible || has_visible(fragment), stripped, preserve_compat_xml).0
                =~= before + (fragment + strip_scan(t@, end as int, after_fragment(st, c, (end - i) as nat), visible || has_visible(fragment), stripped, preserve_compat_xml).0));
        }
        st.advance(c, end - i);
        visible = seen_visible;
        i = end;
    }
    proof {
        assert(kept@ + Seq::<char>::empty() =~= kept@);
    }
    let mut start: usize = 0;
    assert(kept@.skip(0) =~= kept@);
    if stripped {
        while start < kept.len() && char_is_whitespace(kept[start])
            invariant
                start <= kept@.len(),
                trim_start(kept@) == trim_start(kept@.skip(start as int)),
            decreases kept@.len() - start,
        {
            proof {
                assert(kept@.skip(start as int).drop_first() =~= kept@.skip(start + 1));
                assert(kept@.skip(start as int)[0] == kept@[start as int]);
            }
            start = start + 1;
        }
        proof {
            let rest = kept@.skip(start as int);
            if rest.len() > 0 {
                assert(rest[0] == kept@[start as int]);
            }
        }
    }
    assert(kept@.skip(0) =~= kept@);
    let result = crate::text::string_from_range(kept.as_slice(), start, kept.len());
    assert(kept@.subrange(start as int, kept@.len() as int) =~= kept@.skip(start as int));
    result
}

/// Removes leaked system and tool-protocol tags from model output, in plain
/// context.
pub fn strip_system_tags(text: &str) -> (cleaned: String)
    ensures
        cleaned@ == stripped_text(text@, plain_context(), false),
{
    strip_system_tags_impl(text, MarkdownContext::plain(), false)
}

/// Removes leaked tags from a continuation of text whose context so far is
/// `initial`.
pub fn strip_system_tags_with_context(text: &str, initial: &MarkdownContext) -> (cleaned: String)
    ensures
        cleaned@ == stripped_text(text@, *initial, false),
{
    strip_system_tags_impl(text, *initial, false)
}

/// Removes leaked tags but keeps the generic XML tool tags the
/// compatibility parser reads.
pub fn strip_system_tags_preserving_compat_xml(text: &str) -> (cleaned: String)
    ensures
        cleaned@ == stripped_text(text@, plain_context(), true),
{
    strip_system_tags_impl(text, MarkdownContext::plain(), true)
}

/// Where an attribute's value starts in the text after its name (from
/// position `i`, `eq` telling whether `=` was seen): skipping whitespace and
/// `=` signs, the first other character after an `=` starts the value (a
/// quote opens a quoted value); any other character first means no value.
pub open spec fn value_start(rem: Seq<char>, i: int, eq: bool) -> Option<(int, Option<char>)>
    decreases rem.len() - i,
{
    if i < 0 || i >= rem.len() {
        None
    } else if is_whitespace(rem[i]) {
        value_start(rem, i + 1, eq)
    } else if rem[i] == '=' {
        value_start(rem, i + 1, true)
    } else if eq {
        if rem[i] == '"' || rem[i] == '\'' {
            Some((i + 1, Some(rem[i])))
        } else {
            Some((i, None))
        }
    } else {
        None
    }
}

/// The end of an unquoted value starting at `i`: the first whitespace or
/// `>`, else the end of the text.
pub open spec fn bare_value_end(rem: Seq<char>, i: int) -> int
    decreases rem.len() - i,
{
    if i < 0 || i >= rem.len() {
        rem.len() as int
    } else if is_whitespace(rem[i]) || rem[i] == '>' {
        i
    } else {
        bare_value_end(rem, i + 1)
    }
}

/// The value of the attribute whose name ends just before `rem`.
pub open spec fn attribute_value(rem: Seq<char>) -> Option<Seq<char>> {
    match value_start(rem, 0, false) {
        None => None,
        Some((start, Some(q))) => match crate::text::first_occurrence(rem, seq![q], start) {
            Some(end) => Some(rem.subrange(start, end)),
            None => None,
        },
        Some((start, None)) => Some(rem.subrange(start, bare_value_end(rem, start))),
    }
}

/// The value of the first occurrence of `name` at or after `pos` that starts
/// the tag content or follows whitespace and carries a value; empty where
/// none does.
pub open spec fn attribute_from(content: Seq<char>, name: Seq<char>, pos: int) -> Seq<char>
    decreases content.len() + 1 - pos,
{
    if name.len() == 0 || pos < 0 || pos > content.len() {
        Seq::empty()
    } else {
        match crate::text::first_occurrence(content, name, pos) {
            None => Seq::empty(),
            Some(m) => {
                proof {
                    crate::text::lemma_first_occurrence_bounds(content, name, pos);
                }
                let next = m + name.len();
                if !(m == 0 || is_whitespace(content[m - 1])) {
                    attribute_from(content, name, next)
                } else {
                    match attribute_value(content.skip(next)) {
                        Some(v) => v,
                        None => attribute_from(content, name, next),
                    }
                }
            },
        }
    }
}

fn find_value_start(rem: &[char]) -> (found: Option<(usize, Option<char>)>)
    ensures
        match found {
            Some((st, q)) => value_start(rem@, 0, false) == Some((st as int, q)) && st <= rem@.len(),
            None => value_start(rem@, 0, false) is None,
        },
{
    let mut eq = false;
    let mut i: usize = 0;
    while i < rem.len()
        invariant
            i <= rem@.len(),
            value_start(rem@, 0, false) == value_start(rem@, i as int, eq),
        decreases rem@.len() - i,
    {
        let c = rem[i];
        if char_is_whitespace(c) {
            i = i + 1;
        } else if c == '=' {
            eq = true;
            i = i + 1;
        } else if eq {
            if c == '"' || c == '\'' {
                return Some((i + 1, Some(c)));
            } else {
                return Some((i, None));
            }
        } else {
            return None;
        }
    }
    None
}

fn find_char_from(s: &[char], c: char, from: usize) -> (found: Option<usize>)
    requires
        from <= s@.len(),
    ensures
        match found {
            Some(k) => crate::text::first_occurrence(s@, seq![c], from as int) == Some(k as int) && from <= k < s@.len(),
            None => crate::text::first_occurrence(s@, seq![c], from as int) is None,
        },
{
    let mut k: usize = from;
    while k < s.len()
        invariant
            from <= k <= s@.len(),
            crate::text::first_occurrence(s@, seq![c], from as int) == crate::text::first_occurrence(s@, seq![c], k as int),
        decreases s@.len() - k,
    {
        assert(occurs_at(s@, seq![c], k as int) == (s@[k as int] == c)) by {
            if s@[k as int] == c {
                assert(s@.subrange(k as int, k + 1) =~= seq![c]);
            } else {
                assert(s@.subrange(k as int, k + 1)[0] == s@[k as int]);
            }
        }
        if s[k] == c {
            return Some(k);
        }
        k = k + 1;
    }
    assert(!occurs_at(s@, seq![c], k as int));
    assert(crate::text::first_occurrence(s@, seq![c], k + 1) is None);
    assert(crate::text::first_occurrence(s@, seq![c], k as int) is None);
    None
}

fn attribute_value_of(rem: &[char]) -> (value: Option<String>)
    ensures
        match value {
            Some(v) => attribute_value(rem@) == Some(v@),
            None => attribute_value(rem@) is None,
        },
{
    match find_value_start(rem) {
        None => None,
        Some((start, Some(q))) => match find_char_from(rem, q, start) {
            Some(end) => Some(crate::text::string_from_range(rem, start, end)),
            None => None,
        },
        Some((start, None)) => {
            let mut end: usize = start;
            while end < rem.len() && !char_is_whitespace(rem[end]) && rem[end] != '>'
                invariant
                    start <= end <= rem@.len(),
                    bare_value_end(rem@, start as int) == bare_value_end(rem@, end as int),
                decreases rem@.len() - end,
            {
                end = end + 1;
            }
            Some(crate::text::string_from_range(rem, start, end))
        },
    }
}

/// The value of attribute `attr_name` in the content of an opening tag:
/// the first occurrence that starts the content or follows whitespace and
/// carries a value, quoted or bare; empty where there is none.
pub fn extract_attribute(tag_content: &str, attr_name: &str) -> (value: String)
    ensures
        value@ == attribute_from(tag_content@, attr_name@, 0),
{
    let content = str_chars(tag_content);
    let name = str_chars(attr_name);
    if name.len() == 0 {
        return String::new();
    }
    let mut pos: usize = 0;
    while pos <= content.len()
        invariant
            pos <= content@.len() + 1,
            name@.len() > 0,
            content@ == tag_content@,
            name@ == attr_name@,
            attribute_from(content@, name@, 0) == attribute_from(content@, name@, pos as int),
        decreases content@.len() + 1 - pos,
    {
        match find_from(content.as_slice(), name.as_slice(), pos) {
            None => {
                proof {
                    crate::text::lemma_first_occurrence_none_from(content@, name@, pos as int);
                }
                return String::new();
            },
            Some(m) => {
                proof {
                    crate::text::lemma_first_occurrence(content@, name@, pos as int, m as int);
                }
                let next = m + name.len();
                let boundary = m == 0 || char_is_whitespace(content[m - 1]);
                if boundary {
                    let rem = crate::text::slice_range(content.as_slice(), next, content.len());
                    assert(rem@ =~= content@.skip(next as int));
                    match attribute_value_of(rem.as_slice()) {
                        Some(v) => {
                            return v;
                        },
                        None => {},
                    }
                }
                pos = next;
            },
        }
    }
    String::new()
}

/// A tool-call argument: text that parses as JSON (an object or array), or
/// plain text.
#[derive(Debug, Clone, PartialEq, Eq)]
pub enum ArgumentValue {
    Json(String),
    Text(String),
}

/// A DSML tool invocation: the tool name and its arguments by name, in the
/// order each name was first given.
#[derive(Debug, Clone, PartialEq, Eq)]
pub struct ParsedDsmlCall {
    pub name: String,
    pub arguments: Vec<(String, ArgumentValue)>,
}

/// An argument value as (parsed as JSON, text).
pub open spec fn value_view(v: ArgumentValue) -> (bool, Seq<char>) {
    match v {
        ArgumentValue::Json(t) => (true, t@),
        ArgumentValue::Text(t) => (false, t@),
    }
}

/// The arguments as (name, value) views.
pub open spec fn arguments_view(args: Seq<(String, ArgumentValue)>) -> Seq<(Seq<char>, (bool, Seq<char>))> {
    args.map_values(|a: (String, ArgumentValue)| (a.0@, value_view(a.1)))
}

/// A call as (name, arguments) views.
pub open spec fn call_view(c: ParsedDsmlCall) -> (Seq<char>, Seq<(Seq<char>, (bool, Seq<char>))>) {
    (c.name@, arguments_view(c.arguments@))
}

/// The calls as views.
pub open spec fn calls_view(cs: Seq<ParsedDsmlCall>) -> Seq<(Seq<char>, Seq<(Seq<char>, (bool, Seq<char>))>)> {
    cs.map_values(|c: ParsedDsmlCall| call_view(c))
}

/// Whether a text parses as JSON (`serde_json::from_str::<Value>`).
pub uninterp spec fn json_valid(text: Seq<char>) -> bool;

/// Checks with serde_json whether a text is a JSON document.
#[verifier::external_body]
fn json_parses(text: &str) -> (valid: bool)
    ensures
        valid == json_valid(text@),
{
    serde_json::from_str::<serde_json::Value>(text).is_ok()
}

/// The opening of a DSML invocation.
pub open spec fn invoke_open() -> Seq<char> {
    "<｜DSML｜invoke"@
}

/// The close of a DSML invocation.
pub open spec fn invoke_close() -> Seq<char> {
    "</｜DSML｜invoke>"@
}

/// The opening of a DSML parameter.
pub open spec fn param_open() -> Seq<char> {
    "<｜DSML｜parameter"@
}

/// The close of a DSML parameter.
pub open spec fn param_close() -> Seq<char> {
    "</｜DSML｜parameter>"@
}

/// The DSML markers have their lengths.
pub proof fn lemma_markers()
    ensures
        invoke_open().len() == 13,
        invoke_close().len() == 15,
        param_open().len() == 16,
        param_close().len() == 18,
{
    reveal_strlit("<｜DSML｜invoke");
    reveal_strlit("</｜DSML｜invoke>");
    reveal_strlit("<｜DSML｜parameter");
    reveal_strlit("</｜DSML｜parameter>");
}

/// Where a foreign invocation opens at the top level of an invocation body,
/// searching from `pos`: parameter elements are skipped whole, and an
/// unterminated parameter ends the search.
pub open spec fn foreign_from(body: Seq<char>, pos: int) -> Option<int>
    decreases body.len() - pos,
{
    if pos < 0 || pos >= body.len() {
        None
    } else if occurs_at(body, invoke_open(), pos) {
        Some(pos)
    } else if occurs_at(body, param_open(), pos) {
        match crate::text::first_occurrence(body, param_close(), pos) {
            None => None,
            Some(c) => {
                proof {
                    crate::text::lemma_first_occurrence_bounds(body, param_close(), pos);
                    lemma_markers();
                }
                foreign_from(body, c + param_close().len())
            },
        }
    } else {
        foreign_from(body, pos + 1)
    }
}

/// `s` starts with `p`.
pub open spec fn starts_with(s: Seq<char>, p: Seq<char>) -> bool {
    p.len() <= s.len() && s.take(p.len() as int) == p
}

/// `s` ends with `p`.
pub open spec fn ends_with(s: Seq<char>, p: Seq<char>) -> bool {
    p.len() <= s.len() && s.skip(s.len() - p.len()) == p
}

/// A parameter value with a surrounding code fence removed: the fence's
/// first line (or its three backticks) and a closing fence are dropped and
/// the rest trimmed.
pub open spec fn unfenced(v: Seq<char>) -> Seq<char> {
    if starts_with(v, "```"@) {
        let body = match crate::text::first_occurrence(v, seq!['\n'], 0) {
            Some(n) => v.skip(n + 1),
            None => v.skip(3),
        };
        let inner = if ends_with(body, "```"@) {
            body.take(body.len() - 3)
        } else {
            body
        };
        crate::text::trim(inner)
    } else {
        v
    }
}

/// How a cleaned parameter value is kept: a `{...}` or `[...]` text that
/// parses as JSON is kept as JSON, anything else as text.
pub open spec fn typed_value(v: Seq<char>) -> (bool, Seq<char>) {
    let bracketed = v.len() > 0 && ((v[0] == '{' && v.last() == '}') || (v[0] == '[' && v.last() == ']'));
    (bracketed && json_valid(v), v)
}

/// The first position at or after `k` of an argument named `name`.
pub open spec fn first_named(args: Seq<(Seq<char>, (bool, Seq<char>))>, name: Seq<char>, k: int) -> Option<int>
    decreases args.len() - k,
{
    if k < 0 || k >= args.len() {
        None
    } else if args[k].0 == name {
        Some(k)
    } else {
        first_named(args, name, k + 1)
    }
}

/// `args` with `name` set to `value`: replaced where present, else appended.
pub open spec fn args_insert(args: Seq<(Seq<char>, (bool, Seq<char>))>, name: Seq<char>, value: (bool, Seq<char>)) -> Seq<(Seq<char>, (bool, Seq<char>))> {
    match first_named(args, name, 0) {
        Some(k) => args.update(k, (name, value)),
        None => args.push((name, value)),
    }
}

/// Parameters of an invocation body from `pos` on, added to `args`; the flag
/// tells a truncated parameter (no end of its opening tag, or no close).
pub open spec fn params_from(body: Seq<char>, pos: int, args: Seq<(Seq<char>, (bool, Seq<char>))>) -> (Seq<(Seq<char>, (bool, Seq<char>))>, bool)
    decreases body.len() + 1 - pos,
{
    if pos < 0 || pos > body.len() {
        (args, false)
    } else {
        match crate::text::first_occurrence(body, param_open(), pos) {
            None => (args, false),
            Some(ps) => match crate::text::first_occurrence(body, seq!['>'], ps) {
                None => (args, true),
                Some(oe) => match crate::text::first_occurrence(body, param_close(), ps) {
                    None => (args, true),
                    Some(pc) => if pc < oe + 1 {
                        (args, true)
                    } else {
                        proof {
                            crate::text::lemma_first_occurrence_bounds(body, param_close(), ps);
                            crate::text::lemma_first_occurrence_bounds(body, param_open(), pos);
                            lemma_markers();
                        }
                        let name = attribute_from(body.subrange(ps, oe), "name"@, 0);
                        let value = typed_value(unfenced(crate::text::trim(body.subrange(oe + 1, pc))));
                        let with_file = if name == "path"@ {
                            args_insert(args, "file"@, value)
                        } else {
                            args
                        };
                        let next = if name.len() > 0 {
                            args_insert(with_file, name, value)
                        } else {
                            with_file
                        };
                        params_from(body, pc + param_close().len(), next)
                    },
                },
            },
        }
    }
}

/// Invocations from `pos` on: the calls found so far, how many invocations
/// were completed, and whether the scan hit a truncation.
pub open spec fn invokes_from(text: Seq<char>, pos: int, calls: Seq<(Seq<char>, Seq<(Seq<char>, (bool, Seq<char>))>)>, processed: nat, truncated: bool) -> (Seq<(Seq<char>, Seq<(Seq<char>, (bool, Seq<char>))>)>, nat, bool)
    decreases text.len() + 1 - pos,
{
    if pos < 0 || pos > text.len() {
        (calls, processed, truncated)
    } else {
        match crate::text::first_occurrence(text, invoke_open(), pos) {
            None => (calls, processed, truncated),
            Some(s) => match crate::text::first_occurrence(text, seq!['>'], s) {
                None => (calls, processed, true),
                Some(oe) => match crate::text::first_occurrence(text, invoke_close(), s) {
                    None => (calls, processed, true),
                    Some(ie) => if ie < oe + 1 {
                        (calls, processed, true)
                    } else {
                        proof {
                            crate::text::lemma_first_occurrence_bounds(text, invoke_close(), s);
                            crate::text::lemma_first_occurrence_bounds(text, seq!['>'], s);
                            crate::text::lemma_first_occurrence_bounds(text, invoke_open(), pos);
                            lemma_markers();
                        }
                        let name = attribute_from(text.subrange(s, oe), "name"@, 0);
                        let body = text.subrange(oe + 1, ie);
                        match foreign_from(body, 0) {
                            Some(f) => {
                                proof {
                                    lemma_foreign_bounds(body, 0);
                                }
                                invokes_from(text, oe + 1 + f, calls, processed, truncated)
                            },
                            None => {
                                let (args, cut) = params_from(body, 0, Seq::empty());
                                let next_calls = if name.len() > 0 {
                                    calls.push((name, args))
                                } else {
                                    calls
                                };
                                invokes_from(text, ie + invoke_close().len(), next_calls, processed + 1, truncated || cut)
                            },
                        }
                    },
                },
            },
        }
    }
}

/// A foreign opening found from `pos` lies at or after `pos`.
pub proof fn lemma_foreign_bounds(body: Seq<char>, pos: int)
    requires
        foreign_from(body, pos) is Some,
    ensures
        pos <= foreign_from(body, pos)->0 < body.len(),
    decreases body.len() - pos,
{
    if pos >= 0 && pos < body.len() && !occurs_at(body, invoke_open(), pos) {
        if occurs_at(body, param_open(), pos) {
            crate::text::lemma_first_occurrence_bounds(body, param_close(), pos);
            lemma_markers();
            let c = crate::text::first_occurrence(body, param_close(), pos)->0;
            lemma_foreign_bounds(body, c + param_close().len());
        } else {
            lemma_foreign_bounds(body, pos + 1);
        }
    }
}

/// The invocations of a DSML block, and whether the block is structurally
/// broken: a truncation, or a completed invocation without a name.
pub open spec fn dsml_calls(text: Seq<char>) -> (Seq<(Seq<char>, Seq<(Seq<char>, (bool, Seq<char>))>)>, bool) {
    let (calls, processed, truncated) = invokes_from(text, 0, Seq::empty(), 0, false);
    (calls, truncated || processed != calls.len())
}


/// Where a foreign invocation opens at the top level of an invocation body.
pub fn find_foreign_invoke_open(body: &[char]) -> (found: Option<usize>)
    ensures
        match found {
            Some(k) => foreign_from(body@, 0) == Some(k as int),
            None => foreign_from(body@, 0) is None,
        },
{
    let open = str_chars("<｜DSML｜invoke");
    let param = str_chars("<｜DSML｜parameter");
    let close = str_chars("</｜DSML｜parameter>");
    proof {
        lemma_markers();
    }
    let mut pos: usize = 0;
    while pos < body.len()
        invariant
            open@ == invoke_open(),
            param@ == param_open(),
            close@ == param_close(),
            close@.len() == 18,
            foreign_from(body@, 0) == foreign_from(body@, pos as int),
        decreases body@.len() - pos,
    {
        if matches_at(body, open.as_slice(), pos) {
            return Some(pos);
        }
        if matches_at(body, param.as_slice(), pos) {
            match find_first(body, close.as_slice(), pos) {
                None => {
                    return None;
                },
                Some(c) => {
                    pos = c + close.len();
                },
            }
        } else {
            pos = pos + 1;
        }
    }
    None
}

fn starts_with_chars(s: &[char], p: &[char]) -> (b: bool)
    ensures
        b == starts_with(s@, p@),
{
    let r = matches_at(s, p, 0);
    proof {
        if p@.len() <= s@.len() {
            assert(s@.subrange(0, p@.len() as int) =~= s@.take(p@.len() as int));
        }
    }
    r
}

fn ends_with_chars(s: &[char], p: &[char]) -> (b: bool)
    ensures
        b == ends_with(s@, p@),
{
    if p.len() > s.len() {
        return false;
    }
    let r = matches_at(s, p, s.len() - p.len());
    proof {
        assert(s@.subrange(s@.len() - p@.len(), s@.len() as int) =~= s@.skip(s@.len() - p@.len()));
    }
    r
}

fn clean_value(raw: &[char]) -> (value: ArgumentValue)
    ensures
        value_view(value) == typed_value(unfenced(crate::text::trim(raw@))),
{
    let (from, to) = crate::text::trim_bounds(raw, 0, raw.len());
    assert(raw@.subrange(0, raw@.len() as int) =~= raw@);
    let v = crate::text::slice_range(raw, from, to);
    let ghost tv = crate::text::trim(raw@);
    assert(v@ == tv);
    let fence = str_chars("```");
    proof {
        reveal_strlit("```");
    }
    assert(fence@.len() == 3);
    let cleaned: Vec<char> = if starts_with_chars(v.as_slice(), fence.as_slice()) {
        let newline: Vec<char> = vec!['\n'];
        assert(newline@ =~= seq!['\n']);
        let body = match find_first(v.as_slice(), newline.as_slice(), 0) {
            Some(n) => {
                let r = crate::text::slice_range(v.as_slice(), n + 1, v.len());
                assert(r@ =~= v@.skip(n + 1));
                r
            },
            None => {
                let r = crate::text::slice_range(v.as_slice(), 3, v.len());
                assert(r@ =~= v@.skip(3));
                r
            },
        };
        let ghost spec_body = match crate::text::first_occurrence(tv, seq!['\n'], 0) {
            Some(n) => tv.skip(n + 1),
            None => tv.skip(3),
        };
        assert(body@ == spec_body);
        let inner = if ends_with_chars(body.as_slice(), fence.as_slice()) {
            let r = crate::text::slice_range(body.as_slice(), 0, body.len() - 3);
            assert(r@ =~= body@.take(body@.len() - 3));
            r
        } else {
            body
        };
        let (a, b) = crate::text::trim_bounds(inner.as_slice(), 0, inner.len());
        assert(inner@.subrange(0, inner@.len() as int) =~= inner@);
        crate::text::slice_range(inner.as_slice(), a, b)
    } else {
        v
    };
    assert(cleaned@ == unfenced(tv));
    let n = cleaned.len();
    let bracketed = n > 0 && ((cleaned[0] == '{' && cleaned[n - 1] == '}') || (cleaned[0] == '['
        && cleaned[n - 1] == ']'));
    let text = crate::text::string_from_chars(cleaned.as_slice());
    if bracketed && json_parses(text.as_str()) {
        ArgumentValue::Json(text)
    } else {
        ArgumentValue::Text(text)
    }
}

fn insert_argument(args: &mut Vec<(String, ArgumentValue)>, name: String, value: ArgumentValue)
    ensures
        arguments_view(final(args)@) == args_insert(arguments_view(old(args)@), name@, value_view(value)),
{
    let ghost before = arguments_view(args@);
    let mut k: usize = 0;
    while k < args.len()
        invariant
            k <= args@.len(),
            args@ == old(args)@,
            before == arguments_view(args@),
            first_named(before, name@, 0) == first_named(before, name@, k as int),
        decreases args@.len() - k,
    {
        if args[k].0 == name {
            assert(before[k as int].0 == name@);
            assert(first_named(before, name@, k as int) == Some(k as int));
            args.set(k, (name, value));
            assert(arguments_view(args@) =~= before.update(k as int, (name@, value_view(value))));
            return;
        }
        assert(before[k as int].0 != name@);
        k = k + 1;
    }
    args.push((name, value));
    assert(arguments_view(args@) =~= before.push((name@, value_view(value))));
}

fn parse_params(body: &[char]) -> (parsed: (Vec<(String, ArgumentValue)>, bool))
    ensures
        (arguments_view(parsed.0@), parsed.1) == params_from(body@, 0, Seq::empty()),
{
    let open = str_chars("<｜DSML｜parameter");
    let close = str_chars("</｜DSML｜parameter>");
    let gt: Vec<char> = vec!['>'];
    assert(gt@ =~= seq!['>']);
    proof {
        lemma_markers();
        reveal_strlit("name");
        reveal_strlit("path");
        reveal_strlit("file");
    }
    let mut args: Vec<(String, ArgumentValue)> = Vec::new();
    let mut pos: usize = 0;
    assert(arguments_view(args@) =~= Seq::<(Seq<char>, (bool, Seq<char>))>::empty());
    while pos <= body.len()
        invariant
            open@ == param_open(),
            close@ == param_close(),
            gt@ == seq!['>'],
            close@.len() == 18,
            pos <= body@.len() + 1,
            params_from(body@, 0, Seq::empty()) == params_from(body@, pos as int, arguments_view(args@)),
        decreases body@.len() + 1 - pos,
    {
        let ps = match find_first(body, open.as_slice(), pos) {
            None => {
                return (args, false);
            },
            Some(ps) => ps,
        };
        let oe = match find_first(body, gt.as_slice(), ps) {
            None => {
                return (args, true);
            },
            Some(oe) => oe,
        };
        let pc = match find_first(body, close.as_slice(), ps) {
            None => {
                return (args, true);
            },
            Some(pc) => pc,
        };
        if pc < oe + 1 {
            return (args, true);
        }
        let tag = crate::text::string_from_range(body, ps, oe);
        let name = extract_attribute(tag.as_str(), "name");
        let raw = crate::text::slice_range(body, oe + 1, pc);
        let value = clean_value(raw.as_slice());
        let path = String::from_str("path");
        if name == path {
            let copy = match &value {
                ArgumentValue::Json(t) => ArgumentValue::Json(t.clone()),
                ArgumentValue::Text(t) => ArgumentValue::Text(t.clone()),
            };
            insert_argument(&mut args, String::from_str("file"), copy);
        }
        if !name.as_str().is_empty() {
            insert_argument(&mut args, name, value);
        }
        pos = pc + close.len();
    }
    (args, false)
}

/// The invocations of a DSML block, and whether the block is structurally
/// broken (a truncation, or a completed invocation without a name).
/// An invocation whose body holds a foreign top-level invocation opening was
/// never closed: it is dropped and the scan resumes at the foreign opening.
pub fn parse_dsml_tool_calls_checked(text: &str) -> (parsed: (Vec<ParsedDsmlCall>, bool))
    ensures
        (calls_view(parsed.0@), parsed.1) == dsml_calls(text@),
{
    let t = str_chars(text);
    let open = str_chars("<｜DSML｜invoke");
    let close = str_chars("</｜DSML｜invoke>");
    let gt: Vec<char> = vec!['>'];
    assert(gt@ =~= seq!['>']);
    proof {
        lemma_markers();
        reveal_strlit("name");
    }
    let mut calls: Vec<ParsedDsmlCall> = Vec::new();
    let mut processed: usize = 0;
    let mut truncated = false;
    let mut pos: usize = 0;
    let mut done = false;
    assert(calls_view(calls@) =~= Seq::<(Seq<char>, Seq<(Seq<char>, (bool, Seq<char>))>)>::empty());
    while pos <= t.len() && !done
        invariant
            t@ == text@,
            open@ == invoke_open(),
            close@ == invoke_close(),
            gt@ == seq!['>'],
            close@.len() == 15,
            pos <= t@.len() + 1,
            processed <= pos,
            !done ==> invokes_from(t@, 0, Seq::empty(), 0, false) == invokes_from(t@, pos as int, calls_view(calls@), processed as nat, truncated),
            done ==> invokes_from(t@, 0, Seq::empty(), 0, false) == (calls_view(calls@), processed as nat, truncated),
        decreases t@.len() + 1 - pos, if done { 0int } else { 1int },
    {
        match find_first(t.as_slice(), open.as_slice(), pos) {
            None => {
                done = true;
            },
            Some(s) => {
                match find_first(t.as_slice(), gt.as_slice(), s) {
                    None => {
                        truncated = true;
                        done = true;
                    },
                    Some(oe) => {
                        match find_first(t.as_slice(), close.as_slice(), s) {
                            None => {
                                truncated = true;
                                done = true;
                            },
                            Some(ie) => {
                                if ie < oe + 1 {
                                    truncated = true;
                                    done = true;
                                } else {
                                    let tag = crate::text::string_from_range(t.as_slice(), s, oe);
                                    let name = extract_attribute(tag.as_str(), "name");
                                    let body = crate::text::slice_range(t.as_slice(), oe + 1, ie);
                                    match find_foreign_invoke_open(body.as_slice()) {
                                        Some(f) => {
                                            proof {
                                                lemma_foreign_bounds(body@, 0);
                                            }
                                            pos = oe + 1 + f;
                                        },
                                        None => {
                                            let (args, cut) = parse_params(body.as_slice());
                                            processed = processed + 1;
                                            if !name.as_str().is_empty() {
                                                let ghost before = calls@;
                                                calls.push(ParsedDsmlCall { name, arguments: args });
                                                assert(calls_view(calls@) =~= calls_view(before).push((name@, arguments_view(args@))));
                                            }
                                            truncated = truncated || cut;
                                            pos = ie + close.len();
                                        },
                                    }
                                }
                            },
                        }
                    },
                }
            },
        }
    }
    let broken = truncated || processed != calls.len();
    (calls, broken)
}

/// The invocations of a DSML block.
pub fn parse_dsml_tool_calls(text: &str) -> (calls: Vec<ParsedDsmlCall>)
    ensures
        calls_view(calls@) == dsml_calls(text@).0,
{
    parse_dsml_tool_calls_checked(text).0
}

/// The invocations of a DSML block, and whether it is structurally broken.
pub fn parse_dsml_tool_calls_detailed(text: &str) -> (parsed: (Vec<ParsedDsmlCall>, bool))
    ensures
        (calls_view(parsed.0@), parsed.1) == dsml_calls(text@),
{
    parse_dsml_tool_calls_checked(text)
}

/// The opening of a DSML tool-call block.
pub open spec fn block_open() -> Seq<char> {
    "<｜DSML｜tool_calls>"@
}

/// The close of a DSML tool-call block.
pub open spec fn block_close() -> Seq<char> {
    "</｜DSML｜tool_calls>"@
}

/// Where `marker` first occurs at or after `i` at a fragment boundary in
/// ordinary text, and the context there, scanning from context `st`.
pub open spec fn marker_scan(text: Seq<char>, marker: Seq<char>, i: int, st: MarkdownContext) -> Option<(int, MarkdownContext)>
    decreases text.len() - i,
{
    if i < 0 || i >= text.len() {
        None
    } else if executable(st) && occurs_at(text, marker, i) {
        Some((i, st))
    } else {
        proof {
            lemma_fragment_end_bounds(text, i);
        }
        let end = fragment_end(text, i);
        marker_scan(text, marker, end, after_fragment(st, text[i], (end - i) as nat))
    }
}

/// A marker found by the scan lies at or after where it started.
pub proof fn lemma_marker_scan_bounds(text: Seq<char>, marker: Seq<char>, i: int, st: MarkdownContext)
    requires
        marker_scan(text, marker, i, st) is Some,
    ensures
        i <= (marker_scan(text, marker, i, st)->0).0 < text.len(),
        occurs_at(text, marker, (marker_scan(text, marker, i, st)->0).0),
    decreases text.len() - i,
{
    if i >= 0 && i < text.len() && !(executable(st) && occurs_at(text, marker, i)) {
        lemma_fragment_end_bounds(text, i);
        let end = fragment_end(text, i);
        lemma_marker_scan_bounds(text, marker, end, after_fragment(st, text[i], (end - i) as nat));
    }
}

/// The extraction from `off` on: the kept text, the calls, and whether a
/// block was malformed.
pub open spec fn extract_from(text: Seq<char>, off: int, st: MarkdownContext, kept: Seq<char>, calls: Seq<(Seq<char>, Seq<(Seq<char>, (bool, Seq<char>))>)>, malformed: bool) -> (Seq<char>, Seq<(Seq<char>, Seq<(Seq<char>, (bool, Seq<char>))>)>, bool)
    decreases text.len() + 1 - off,
{
    if off < 0 || off > text.len() {
        (kept, calls, malformed)
    } else {
        match marker_scan(text, block_open(), off, st) {
            None => (kept + text.skip(off), calls, malformed),
            Some((start, at)) => {
                let before = kept + text.subrange(off, start);
                match crate::text::first_occurrence(text, block_close(), start) {
                    None => (before + text.skip(start), calls, true),
                    Some(ce) => {
                        proof {
                            lemma_marker_scan_bounds(text, block_open(), off, st);
                            crate::text::lemma_first_occurrence_bounds(text, block_close(), start);
                            lemma_block_markers();
                        }
                        let end = ce + block_close().len();
                        let block = text.subrange(start, end);
                        let (parsed, broken) = dsml_calls(block);
                        if broken {
                            extract_from(text, end, at, before + block, calls, true)
                        } else {
                            extract_from(text, end, at, before, calls + parsed, malformed)
                        }
                    },
                }
            },
        }
    }
}

/// The block markers have their lengths.
pub proof fn lemma_block_markers()
    ensures
        block_open().len() == 18,
        block_close().len() == 19,
{
    reveal_strlit("<｜DSML｜tool_calls>");
    reveal_strlit("</｜DSML｜tool_calls>");
}

/// What DSML extraction gives: the text with well-formed tool-call blocks
/// taken out (and, unless a block was malformed, leaked tags stripped with
/// generic XML tool tags kept), the calls of those blocks, and whether a
/// block was malformed (kept verbatim then).
pub open spec fn dsml_extraction(text: Seq<char>) -> (Seq<char>, Seq<(Seq<char>, Seq<(Seq<char>, (bool, Seq<char>))>)>, bool) {
    let (kept, calls, malformed) = extract_from(text, 0, plain_context(), Seq::empty(), Seq::empty(), false);
    (if malformed { kept } else { stripped_text(kept, plain_context(), true) }, calls, malformed)
}

/// The result of DSML extraction.
#[derive(Debug, Clone, PartialEq, Eq)]
pub struct DsmlExtraction {
    pub cleaned_text: String,
    pub calls: Vec<ParsedDsmlCall>,
    pub malformed_intent: bool,
}

fn find_marker(text: &[char], marker: &[char], from: usize, st: MarkdownContext) -> (found: Option<(usize, MarkdownContext)>)
    ensures
        match found {
            Some((k, at)) => marker_scan(text@, marker@, from as int, st) == Some((k as int, at)),
            None => marker_scan(text@, marker@, from as int, st) is None,
        },
{
    let mut i: usize = from;
    let mut ctx = st;
    if i >= text.len() {
        return None;
    }
    while i < text.len()
        invariant
            from <= i <= text@.len(),
            marker_scan(text@, marker@, from as int, st) == marker_scan(text@, marker@, i as int, ctx),
        decreases text@.len() - i,
    {
        if ctx.is_executable_context() && matches_at(text, marker, i) {
            return Some((i, ctx));
        }
        let end = fragment_end_at(text, i);
        ctx.advance(text[i], end - i);
        i = end;
    }
    None
}

fn append_range(out: &mut Vec<char>, text: &[char], from: usize, to: usize)
    requires
        from <= to <= text@.len(),
    ensures
        final(out)@ == old(out)@ + text@.subrange(from as int, to as int),
{
    let mut k: usize = from;
    while k < to
        invariant
            from <= k <= to <= text@.len(),
            out@ == old(out)@ + text@.subrange(from as int, k as int),
        decreases to - k,
    {
        out.push(text[k]);
        k = k + 1;
        assert(out@ =~= old(out)@ + text@.subrange(from as int, k as int));
    }
}

fn clone_value(v: &ArgumentValue) -> (copy: ArgumentValue)
    ensures
        value_view(copy) == value_view(*v),
{
    match v {
        ArgumentValue::Json(t) => ArgumentValue::Json(t.clone()),
        ArgumentValue::Text(t) => ArgumentValue::Text(t.clone()),
    }
}

impl ParsedDsmlCall {
    /// A copy of the call.
    pub fn clone_call(&self) -> (copy: ParsedDsmlCall)
        ensures
            call_view(copy) == call_view(*self),
    {
        let mut args: Vec<(String, ArgumentValue)> = Vec::new();
        let mut k: usize = 0;
        while k < self.arguments.len()
            invariant
                k <= self.arguments@.len(),
                arguments_view(args@) =~= arguments_view(self.arguments@).take(k as int),
            decreases self.arguments@.len() - k,
        {
            let name = self.arguments[k].0.clone();
            let value = clone_value(&self.arguments[k].1);
            let ghost prev = args@;
            let ghost entry = (name@, value_view(value));
            assert(entry == arguments_view(self.arguments@)[k as int]);
            args.push((name, value));
            assert(args@ == prev.push((name, value)));
            assert(arguments_view(args@) =~= arguments_view(prev).push(entry));
            k = k + 1;
            assert(arguments_view(args@) =~= arguments_view(self.arguments@).take(k as int));
        }
        assert(arguments_view(self.arguments@).take(k as int) =~= arguments_view(self.arguments@));
        ParsedDsmlCall { name: self.name.clone(), arguments: args }
    }
}

/// Takes well-formed DSML tool-call blocks out of model output and parses
/// their calls; a block without its close or with a broken structure is kept
/// verbatim and marks the output malformed, in which case no tag is stripped.
pub fn extract_and_clean_dsml_detailed(text: &str) -> (extraction: DsmlExtraction)
    ensures
        (extraction.cleaned_text@, calls_view(extraction.calls@), extraction.malformed_intent) == dsml_extraction(text@),
{
    let t = str_chars(text);
    let open = str_chars("<｜DSML｜tool_calls>");
    let close = str_chars("</｜DSML｜tool_calls>");
    proof {
        lemma_block_markers();
    }
    let mut kept: Vec<char> = Vec::new();
    let mut calls: Vec<ParsedDsmlCall> = Vec::new();
    let mut malformed = false;
    let mut off: usize = 0;
    let mut st = MarkdownContext::plain();
    let mut done = false;
    let ghost total = extract_from(t@, 0, plain_context(), Seq::empty(), Seq::empty(), false);
    assert(calls_view(calls@) =~= Seq::<(Seq<char>, Seq<(Seq<char>, (bool, Seq<char>))>)>::empty());
    while off <= t.len() && !done
        invariant
            t@ == text@,
            open@ == block_open(),
            close@ == block_close(),
            close@.len() == 19,
            off <= t@.len(),
            total == extract_from(t@, 0, plain_context(), Seq::empty(), Seq::empty(), false),
            !done ==> total == extract_from(t@, off as int, st, kept@, calls_view(calls@), malformed),
            done ==> total == (kept@, calls_view(calls@), malformed),
        decreases t@.len() + 1 - off, if done { 0int } else { 1int },
    {
        match find_marker(t.as_slice(), open.as_slice(), off, st) {
            None => {
                append_range(&mut kept, t.as_slice(), off, t.len());
                assert(t@.subrange(off as int, t@.len() as int) =~= t@.skip(off as int));
                done = true;
            },
            Some((start, at)) => {
                proof {
                    lemma_marker_scan_bounds(t@, open@, off as int, st);
                }
                append_range(&mut kept, t.as_slice(), off, start);
                match find_first(t.as_slice(), close.as_slice(), start) {
                    None => {
                        append_range(&mut kept, t.as_slice(), start, t.len());
                        assert(t@.subrange(start as int, t@.len() as int) =~= t@.skip(start as int));
                        malformed = true;
                        done = true;
                    },
                    Some(ce) => {
                        let end = ce + close.len();
                        let block = crate::text::string_from_range(t.as_slice(), start, end);
                        let (parsed, broken) = parse_dsml_tool_calls_checked(block.as_str());
                        if broken {
                            append_range(&mut kept, t.as_slice(), start, end);
                            malformed = true;
                        } else {
                            let ghost before = calls@;
                            let mut j: usize = 0;
                            let mut parsed = parsed;
                            let ghost parsed_view = calls_view(parsed@);
                            while j < parsed.len()
                                invariant
                                    j <= parsed@.len(),
                                    calls_view(parsed@) == parsed_view,
                                    calls_view(calls@) =~= calls_view(before) + parsed_view.take(j as int),
                                decreases parsed@.len() - j,
                            {
                                let call = parsed[j].clone_call();
                                let ghost prev = calls@;
                                let ghost entry = call_view(call);
                                assert(parsed_view[j as int] == call_view(parsed@[j as int]));
                                calls.push(call);
                                assert(calls@ == prev.push(call));
                                assert(calls_view(calls@) =~= calls_view(prev).push(entry));
                                j = j + 1;
                                assert(calls_view(calls@) =~= calls_view(before) + parsed_view.take(j as int));
                            }
                            assert(parsed_view.take(j as int) =~= parsed_view);
                        }
                        st = at;
                        off = end;
                    },
                }
            },
        }
    }
    let kept_string = crate::text::string_from_chars(kept.as_slice());
    let cleaned_text = if malformed {
        kept_string
    } else {
        strip_system_tags_preserving_compat_xml(kept_string.as_str())
    };
    DsmlExtraction { cleaned_text, calls, malformed_intent: malformed }
}


/// The cleaned text and the parsed calls of model output (see
/// [`extract_and_clean_dsml_detailed`]).
pub fn extract_and_clean_dsml(text: &str) -> (result: (String, Vec<ParsedDsmlCall>))
    ensures
        (result.0@, calls_view(result.1@)) == ({
            let e = dsml_extraction(text@);
            (e.0, e.1)
        }),
{
    let extraction = extract_and_clean_dsml_detailed(text);
    (extraction.cleaned_text, extraction.calls)
}


/// DSML outside executable context never runs: where no tool-call block
/// opens in executable context (every marker sits in a code fence, inline
/// code or a quoted string, or there is none), extraction yields no call,
/// marks nothing malformed, and only strips leaked tags.
pub proof fn inert_markers_never_execute(text: Seq<char>)
    requires
        marker_scan(text, block_open(), 0, plain_context()) is None,
    ensures
        dsml_extraction(text).1.len() == 0,
        !dsml_extraction(text).2,
        dsml_extraction(text).0 == stripped_text(text, plain_context(), true),
{
    assert(Seq::<char>::empty() + text.skip(0) =~= text);
}


/// A broken block is never half-executed: where the only live tool-call
/// block lacks its close, or closes but does not parse, the text is kept
/// verbatim, no call comes out, and the output is marked malformed.
pub proof fn broken_block_is_kept_verbatim(text: Seq<char>)
    requires
        marker_scan(text, block_open(), 0, plain_context()) is Some,
        ({
            let (start, at) = marker_scan(text, block_open(), 0, plain_context()).unwrap();
            match crate::text::first_occurrence(text, block_close(), start) {
                None => true,
                Some(ce) => {
                    let end = ce + block_close().len();
                    &&& dsml_calls(text.subrange(start, end)).1
                    &&& marker_scan(text, block_open(), end, at) is None
                },
            }
        }),
    ensures
        dsml_extraction(text) == (text, Seq::<(Seq<char>, Seq<(Seq<char>, (bool, Seq<char>))>)>::empty(), true),
{
    let (start, at) = marker_scan(text, block_open(), 0, plain_context()).unwrap();
    lemma_marker_scan_bounds(text, block_open(), 0, plain_context());
    let before = Seq::<char>::empty() + text.subrange(0, start);
    let none_calls = Seq::<(Seq<char>, Seq<(Seq<char>, (bool, Seq<char>))>)>::empty();
    match crate::text::first_occurrence(text, block_close(), start) {
        None => {
            assert(before + text.skip(start) =~= text);
            assert(extract_from(text, 0, plain_context(), Seq::empty(), none_calls, false) == (text, none_calls, true));
        },
        Some(ce) => {
            crate::text::lemma_first_occurrence_bounds(text, block_close(), start);
            lemma_block_markers();
            let end = ce + block_close().len();
            let block = text.subrange(start, end);
            assert(before + block + text.skip(end) =~= text);
            assert(extract_from(text, end, at, before + block, none_calls, true) == (text, none_calls, true));
            assert(extract_from(text, 0, plain_context(), Seq::empty(), none_calls, false) == extract_from(
                text,
                end,
                at,
                before + block,
                none_calls,
                true,
            ));
        },
    }
}

} // verus!
