//! Width-aware primitives of the line-oriented command output: the usable
//! terminal width, rules, summaries, and truncation and wrapping to a visible
//! width.

use crate::text::{
    char_views, is_whitespace, lemma_pieces_nonempty, pieces, push_char, push_str, separates, split_pieces, str_chars,
    string_from_chars, Separator,
};
use crate::tui::{pad_to_width, padded, push_spaces, spaces, strip_ansi, stripped_ansi, visible_width};
use vstd::prelude::*;

verus! {

pub const DEFAULT_TERMINAL_WIDTH: usize = 100;
pub const MIN_TERMINAL_WIDTH: usize = 40;
pub const MAX_TERMINAL_WIDTH: usize = 240;
pub const MAX_CONTENT_WIDTH: usize = 96;
pub const INDENT: usize = 2;
pub const LABEL_GAP: usize = 3;
pub const BRAND_SYMBOL: &'static str = "\u{25c6}";

/// The terminal width used for layout: the reported column count where it
/// lies in `[MIN_TERMINAL_WIDTH, MAX_TERMINAL_WIDTH]`, else the default.
pub open spec fn terminal_width_spec(columns: Option<usize>) -> int {
    match columns {
        Some(c) if MIN_TERMINAL_WIDTH <= c <= MAX_TERMINAL_WIDTH => c as int,
        _ => DEFAULT_TERMINAL_WIDTH as int,
    }
}

/// The terminal width for a reported column count (`None` where the
/// terminal reports none).
pub fn terminal_width(columns: Option<usize>) -> (width: usize)
    ensures
        width == terminal_width_spec(columns),
{
    match columns {
        Some(c) => {
            if MIN_TERMINAL_WIDTH <= c && c <= MAX_TERMINAL_WIDTH {
                c
            } else {
                DEFAULT_TERMINAL_WIDTH
            }
        },
        None => DEFAULT_TERMINAL_WIDTH,
    }
}

/// The content width: the terminal width less the indent, kept within
/// `[MIN_TERMINAL_WIDTH - INDENT, MAX_CONTENT_WIDTH]`.
pub open spec fn content_width_spec(columns: Option<usize>) -> int {
    let inner = terminal_width_spec(columns) - INDENT;
    if inner < MIN_TERMINAL_WIDTH - INDENT {
        (MIN_TERMINAL_WIDTH - INDENT) as int
    } else if inner > MAX_CONTENT_WIDTH {
        MAX_CONTENT_WIDTH as int
    } else {
        inner
    }
}

/// The width available to content.
pub fn content_width(columns: Option<usize>) -> (width: usize)
    ensures
        width == content_width_spec(columns),
        MIN_TERMINAL_WIDTH - INDENT <= width <= MAX_CONTENT_WIDTH,
{
    let inner = terminal_width(columns) - INDENT;
    if inner < MIN_TERMINAL_WIDTH - INDENT {
        MIN_TERMINAL_WIDTH - INDENT
    } else if inner > MAX_CONTENT_WIDTH {
        MAX_CONTENT_WIDTH
    } else {
        inner
    }
}

/// Whether the layout is compact (content narrower than 68 columns).
pub fn compact(columns: Option<usize>) -> (narrow: bool)
    ensures
        narrow == (content_width_spec(columns) < 68),
{
    content_width(columns) < 68
}

/// A horizontal rule: `character` repeated across the content width.
pub fn rule(character: char, columns: Option<usize>) -> (line: String)
    ensures
        line@ == Seq::new(content_width_spec(columns) as nat, |i: int| character),
{
    let width = content_width(columns);
    let mut line = String::new();
    let mut i: usize = 0;
    while i < width
        invariant
            i <= width,
            width == content_width_spec(columns),
            line@ =~= Seq::new(i as nat, |j: int| character),
        decreases width - i,
    {
        push_char(&mut line, character);
        i = i + 1;
    }
    line
}

/// `parts` joined by `sep`.
pub open spec fn joined_with(parts: Seq<Seq<char>>, sep: Seq<char>) -> Seq<char>
    decreases parts.len(),
{
    if parts.len() == 0 {
        Seq::empty()
    } else if parts.len() == 1 {
        parts[0]
    } else {
        joined_with(parts.drop_last(), sep) + sep + parts.last()
    }
}

/// A summary line: the indent, then `parts` separated by three spaces.
pub fn summary(parts: &[String]) -> (line: String)
    ensures
        line@ == "  "@ + joined_with(parts@.map_values(|p: String| p@), "   "@),
{
    let mut line = String::new();
    push_str(&mut line, "  ");
    let ghost views = parts@.map_values(|p: String| p@);
    let mut i: usize = 0;
    while i < parts.len()
        invariant
            i <= parts@.len(),
            views == parts@.map_values(|p: String| p@),
            line@ == "  "@ + joined_with(views.take(i as int), "   "@),
        decreases parts@.len() - i,
    {
        let ghost before = line@;
        if i > 0 {
            push_str(&mut line, "   ");
        }
        push_str(&mut line, parts[i].as_str());
        proof {
            let next = views.take(i + 1);
            assert(next.drop_last() =~= views.take(i as int));
            assert(next.last() == parts@[i as int]@);
            if i == 0 {
                assert(views.take(0) =~= Seq::<Seq<char>>::empty());
                assert(before =~= "  "@);
            }
        }
        i = i + 1;
    }
    assert(views.take(parts@.len() as int) =~= views);
    line
}

/// What `unicode_width::UnicodeWidthChar::width` gives for `c`: its display
/// width in columns, `None` for a control character.
pub uninterp spec fn char_width(c: char) -> Option<usize>;

/// What `unicode_width::UnicodeWidthStr::width` gives for `s`: its display
/// width in columns.
pub uninterp spec fn str_width(s: Seq<char>) -> usize;

/// The display width of a character (trusted: `UnicodeWidthChar::width`).
#[verifier::external_body]
fn display_width_char(c: char) -> (width: Option<usize>)
    ensures
        width == char_width(c),
{
    unicode_width::UnicodeWidthChar::width(c)
}

/// The display width of a string (trusted: `UnicodeWidthStr::width`).
#[verifier::external_body]
pub(crate) fn display_width_str(s: &str) -> (width: usize)
    ensures
        width == str_width(s@),
{
    unicode_width::UnicodeWidthStr::width(s)
}

/// The width a character counts for in truncation and wrapping (control
/// characters count 0).
pub open spec fn counted_width(c: char) -> int {
    match char_width(c) {
        Some(w) => w as int,
        None => 0,
    }
}

/// How many leading characters of `s` from `i` on fit in `target` columns
/// when `used` are already taken: the scan stops at the first character
/// that would overflow.
pub open spec fn fitting_end(s: Seq<char>, i: int, used: int, target: int) -> int
    decreases s.len() - i,
{
    if i < 0 || i >= s.len() {
        i
    } else if used + counted_width(s[i]) > target {
        i
    } else {
        fitting_end(s, i + 1, used + counted_width(s[i]), target)
    }
}

/// `value` cut to `max_width` columns, an ellipsis marking the cut.
pub open spec fn truncated_spec(value: Seq<char>, max_width: nat) -> Seq<char> {
    if str_width(value) <= max_width {
        value
    } else if max_width == 0 {
        Seq::empty()
    } else if max_width == 1 {
        seq!['\u{2026}']
    } else {
        value.take(fitting_end(value, 0, 0, max_width - 1)) + seq!['\u{2026}']
    }
}

proof fn lemma_fitting_end_bounds(s: Seq<char>, i: int, used: int, target: int)
    requires
        0 <= i <= s.len(),
    ensures
        i <= fitting_end(s, i, used, target) <= s.len(),
    decreases s.len() - i,
{
    if i < s.len() && used + counted_width(s[i]) <= target {
        lemma_fitting_end_bounds(s, i + 1, used + counted_width(s[i]), target);
    }
}

/// `value` cut to at most `max_width` display columns; where it is cut, an
/// ellipsis ends it.
pub fn truncate(value: &str, max_width: usize) -> (out: String)
    ensures
        out@ == truncated_spec(value@, max_width as nat),
{
    if display_width_str(value) <= max_width {
        return value.to_string();
    }
    if max_width == 0 {
        return String::new();
    }
    if max_width == 1 {
        let mut out = String::new();
        push_char(&mut out, '\u{2026}');
        return out;
    }
    let target = max_width - 1;
    let chars = str_chars(value);
    let mut result = String::new();
    let mut used: usize = 0;
    let mut i: usize = 0;
    proof {
        lemma_fitting_end_bounds(chars@, 0, 0, target as int);
    }
    while i < chars.len()
        invariant
            i <= chars@.len(),
            chars@ == value@,
            used <= target,
            result@ == chars@.take(i as int),
            fitting_end(chars@, 0, 0, target as int) == fitting_end(chars@, i as int, used as int, target as int),
        ensures
            i <= chars@.len(),
            chars@ == value@,
            result@ == chars@.take(i as int),
            fitting_end(chars@, 0, 0, target as int) == i,
        decreases chars@.len() - i,
    {
        let width: usize = match display_width_char(chars[i]) {
            Some(w) => w,
            None => 0,
        };
        if width > target - used {
            break;
        }
        push_char(&mut result, chars[i]);
        used = used + width;
        i = i + 1;
        assert(result@ =~= chars@.take(i as int));
    }
    push_char(&mut result, '\u{2026}');
    result
}


/// The state of wrapping: the finished lines, the line being filled, and
/// that line's width.
pub type WrapState = (Seq<Seq<char>>, Seq<char>, int);

/// One character of a word wider than the line: it starts a new chunk where
/// the current, non-empty chunk would overflow.
pub open spec fn chunk_step(state: WrapState, c: char, max: int) -> WrapState {
    let w = counted_width(c);
    if state.2 + w > max && state.1.len() > 0 {
        (state.0.push(state.1), seq![c], w)
    } else {
        (state.0, state.1.push(c), state.2 + w)
    }
}

/// A word wider than the line, cut into chunks character by character.
pub open spec fn chunk_chars(state: WrapState, word: Seq<char>, max: int) -> WrapState
    decreases word.len(),
{
    if word.len() == 0 {
        state
    } else {
        chunk_step(chunk_chars(state, word.drop_last(), max), word.last(), max)
    }
}

/// One word: the current line is finished where the word does not fit on it;
/// a word wider than the line is chunked and its last chunk becomes the
/// current line; else the word joins the line after a space.
pub open spec fn word_step(state: WrapState, word: Seq<char>, max: int) -> WrapState {
    let ww = str_width(word) as int;
    let sep: int = if state.1.len() > 0 { 1 } else { 0 };
    let cut: WrapState = if state.1.len() > 0 && state.2 + sep + ww > max {
        (state.0.push(state.1), Seq::empty(), 0)
    } else {
        state
    };
    if ww > max {
        chunk_chars((cut.0, Seq::empty(), 0), word, max)
    } else if cut.1.len() > 0 {
        (cut.0, cut.1 + seq![' '] + word, cut.2 + 1 + ww)
    } else {
        (cut.0, cut.1 + word, cut.2 + ww)
    }
}

/// The words in order.
pub open spec fn words_fold(state: WrapState, words: Seq<Seq<char>>, max: int) -> WrapState
    decreases words.len(),
{
    if words.len() == 0 {
        state
    } else {
        word_step(words_fold(state, words.drop_last(), max), words.last(), max)
    }
}

/// The non-empty pieces, in order.
pub open spec fn nonempty_only(ps: Seq<Seq<char>>) -> Seq<Seq<char>>
    decreases ps.len(),
{
    if ps.len() == 0 {
        Seq::empty()
    } else if ps.last().len() > 0 {
        nonempty_only(ps.drop_last()).push(ps.last())
    } else {
        nonempty_only(ps.drop_last())
    }
}

/// The words of a paragraph (`str::split_whitespace`).
pub open spec fn words_of(paragraph: Seq<char>) -> Seq<Seq<char>> {
    nonempty_only(pieces(paragraph, Separator::Whitespace))
}

/// The lines of one paragraph appended to `lines`: an empty paragraph gives
/// one empty line.
pub open spec fn paragraph_lines(lines: Seq<Seq<char>>, paragraph: Seq<char>, max: int) -> Seq<Seq<char>> {
    if paragraph.len() == 0 {
        lines.push(Seq::empty())
    } else {
        let done = words_fold((lines, Seq::empty(), 0), words_of(paragraph), max);
        if done.1.len() > 0 {
            done.0.push(done.1)
        } else {
            done.0
        }
    }
}

/// The paragraphs in order.
pub open spec fn paragraphs_fold(lines: Seq<Seq<char>>, paragraphs: Seq<Seq<char>>, max: int) -> Seq<Seq<char>>
    decreases paragraphs.len(),
{
    if paragraphs.len() == 0 {
        lines
    } else {
        paragraph_lines(paragraphs_fold(lines, paragraphs.drop_last(), max), paragraphs.last(), max)
    }
}

/// `value` wrapped to `max_width` display columns (at least 1): each
/// newline-separated paragraph is filled word by word, words wider than the
/// line are cut, and at least one line results.
pub open spec fn wrapped_spec(value: Seq<char>, max_width: nat) -> Seq<Seq<char>> {
    let max: int = if max_width == 0 { 1 } else { max_width as int };
    let lines = paragraphs_fold(Seq::empty(), pieces(value, Separator::Newline), max);
    if lines.len() == 0 {
        seq![Seq::empty()]
    } else {
        lines
    }
}

/// The views of a vector of strings.
pub open spec fn string_seq_views(strings: Seq<String>) -> Seq<Seq<char>> {
    strings.map_values(|s: String| s@)
}

/// Appends the chunks of a word wider than the line; returns the last chunk
/// and its width.
fn chunk_word(lines: &mut Vec<String>, word: &[char], max: usize) -> (last: (String, usize))
    ensures
        ({
            let done = chunk_chars((string_seq_views(old(lines)@), Seq::empty(), 0), word@, max as int);
            &&& string_seq_views(final(lines)@) == done.0
            &&& last.0@ == done.1
            &&& last.1 == done.2
        }),
{
    let mut chunk = String::new();
    let mut chunk_len: usize = 0;
    let mut width: usize = 0;
    let mut i: usize = 0;
    let ghost start: WrapState = (string_seq_views(lines@), Seq::empty(), 0);
    while i < word.len()
        invariant
            i <= word@.len(),
            start == (string_seq_views(old(lines)@), Seq::<char>::empty(), 0int),
            ({
                let st = chunk_chars(start, word@.take(i as int), max as int);
                &&& string_seq_views(lines@) == st.0
                &&& chunk@ == st.1
                &&& width == st.2
            }),
            chunk_len == chunk@.len(),
            chunk_len <= i,
        decreases word@.len() - i,
    {
        let c = word[i];
        let w: usize = match display_width_char(c) {
            Some(w) => w,
            None => 0,
        };
        proof {
            assert(word@.take(i + 1).drop_last() =~= word@.take(i as int));
            assert(word@.take(i + 1).last() == c);
        }
        let ghost before_lines = lines@;
        if (width as u128) + (w as u128) > (max as u128) && chunk_len > 0 {
            let finished = chunk;
            lines.push(finished);
            assert(string_seq_views(lines@) =~= string_seq_views(before_lines).push(finished@));
            chunk = String::new();
            push_char(&mut chunk, c);
            width = w;
            chunk_len = 1;
            assert(chunk@ =~= seq![c]);
        } else {
            proof {
                if chunk@.len() > 0 {
                    assert(width + w <= max);
                }
            }
            push_char(&mut chunk, c);
            width = width + w;
            chunk_len = chunk_len + 1;
        }
        i = i + 1;
    }
    assert(word@.take(word@.len() as int) =~= word@);
    (chunk, width)
}


proof fn lemma_chunk_nonempty(state: WrapState, word: Seq<char>, max: int)
    requires
        word.len() > 0,
    ensures
        chunk_chars(state, word, max).1.len() > 0,
{
}

/// Appends the lines of one paragraph.
fn wrap_paragraph(lines: &mut Vec<String>, paragraph: &[char], max: usize)
    requires
        max >= 1,
    ensures
        string_seq_views(final(lines)@) == paragraph_lines(string_seq_views(old(lines)@), paragraph@, max as int),
{
    if paragraph.len() == 0 {
        let ghost before = lines@;
        lines.push(String::new());
        assert(string_seq_views(lines@) =~= string_seq_views(before).push(Seq::empty()));
        return;
    }
    let parts = split_pieces(paragraph, Separator::Whitespace);
    let ghost views = char_views(parts@);
    let ghost start: WrapState = (string_seq_views(lines@), Seq::empty(), 0);
    let mut line = String::new();
    let mut line_nonempty = false;
    let mut width: usize = 0;
    let mut k: usize = 0;
    while k < parts.len()
        invariant
            k <= parts@.len(),
            max >= 1,
            views == char_views(parts@),
            views == pieces(paragraph@, Separator::Whitespace),
            start == (string_seq_views(old(lines)@), Seq::<char>::empty(), 0int),
            ({
                let st = words_fold(start, nonempty_only(views.take(k as int)), max as int);
                &&& string_seq_views(lines@) == st.0
                &&& line@ == st.1
                &&& width == st.2
            }),
            line_nonempty == (line@.len() > 0),
            !line_nonempty ==> width == 0,
        decreases parts@.len() - k,
    {
        let piece = &parts[k];
        proof {
            assert(views.take(k + 1).drop_last() =~= views.take(k as int));
            assert(views.take(k + 1).last() == piece@);
            let prev = nonempty_only(views.take(k as int));
            if piece@.len() > 0 {
                assert(nonempty_only(views.take(k + 1)) == prev.push(piece@));
                assert(prev.push(piece@).drop_last() =~= prev);
            } else {
                assert(nonempty_only(views.take(k + 1)) == prev);
            }
        }
        if piece.len() > 0 {
            let ghost st0: WrapState = (string_seq_views(lines@), line@, width as int);
            let word = string_from_chars(piece.as_slice());
            let ww = display_width_str(word.as_str());
            let sep: u128 = if line_nonempty { 1 } else { 0 };
            if line_nonempty && (width as u128) + sep + (ww as u128) > (max as u128) {
                let ghost before = lines@;
                let finished = line;
                lines.push(finished);
                assert(string_seq_views(lines@) =~= string_seq_views(before).push(finished@));
                line = String::new();
                line_nonempty = false;
                width = 0;
            }
            if ww > max {
                let (chunk, chunk_width) = chunk_word(lines, piece.as_slice(), max);
                proof {
                    lemma_chunk_nonempty((string_seq_views(lines@), Seq::empty(), 0), piece@, max as int);
                }
                line = chunk;
                width = chunk_width;
                line_nonempty = true;
            } else {
                if line_nonempty {
                    push_char(&mut line, ' ');
                    width = width + 1;
                }
                push_str(&mut line, word.as_str());
                width = width + ww;
                line_nonempty = true;
            }
            assert(word_step(st0, piece@, max as int) == (string_seq_views(lines@), line@, width as int));
        }
        k = k + 1;
    }
    assert(views.take(parts@.len() as int) =~= views);
    let ghost before = lines@;
    if line_nonempty {
        lines.push(line);
        assert(string_seq_views(lines@) =~= string_seq_views(before).push(line@));
    }
}

/// `value` wrapped to `max_width` display columns (a width of 0 counts as
/// 1): paragraphs are kept, words are filled onto lines, a word wider than a
/// line is cut, and there is at least one line.
pub fn wrap(value: &str, max_width: usize) -> (lines: Vec<String>)
    ensures
        string_seq_views(lines@) == wrapped_spec(value@, max_width as nat),
{
    let max: usize = if max_width == 0 { 1 } else { max_width };
    let chars = str_chars(value);
    let paragraphs = split_pieces(chars.as_slice(), Separator::Newline);
    let ghost views = char_views(paragraphs@);
    let mut lines: Vec<String> = Vec::new();
    let mut k: usize = 0;
    while k < paragraphs.len()
        invariant
            k <= paragraphs@.len(),
            max >= 1,
            max == (if max_width == 0 { 1int } else { max_width as int }),
            views == char_views(paragraphs@),
            views == pieces(value@, Separator::Newline),
            string_seq_views(lines@) == paragraphs_fold(Seq::empty(), views.take(k as int), max as int),
        decreases paragraphs@.len() - k,
    {
        proof {
            assert(views.take(k + 1).drop_last() =~= views.take(k as int));
            assert(views.take(k + 1).last() == paragraphs@[k as int]@);
        }
        wrap_paragraph(&mut lines, paragraphs[k].as_slice(), max);
        k = k + 1;
    }
    assert(views.take(paragraphs@.len() as int) =~= views);
    if lines.len() == 0 {
        lines.push(String::new());
        assert(string_seq_views(lines@) =~= seq![Seq::<char>::empty()]);
    }
    lines
}


/// The non-whitespace characters of `s`, in order.
pub open spec fn ink(s: Seq<char>) -> Seq<char>
    decreases s.len(),
{
    if s.len() == 0 {
        Seq::empty()
    } else if is_whitespace(s.last()) {
        ink(s.drop_last())
    } else {
        ink(s.drop_last()).push(s.last())
    }
}

/// The lines laid end to end.
pub open spec fn laid_end_to_end(lines: Seq<Seq<char>>) -> Seq<char>
    decreases lines.len(),
{
    if lines.len() == 0 {
        Seq::empty()
    } else {
        laid_end_to_end(lines.drop_last()) + lines.last()
    }
}

proof fn lemma_ink_add(a: Seq<char>, b: Seq<char>)
    ensures
        ink(a + b) == ink(a) + ink(b),
    decreases b.len(),
{
    if b.len() == 0 {
        assert(a + b =~= a);
        assert(ink(a) + ink(b) =~= ink(a));
    } else {
        assert((a + b).drop_last() =~= a + b.drop_last());
        assert((a + b).last() == b.last());
        lemma_ink_add(a, b.drop_last());
        if is_whitespace(b.last()) {
        } else {
            assert(ink(a + b) =~= ink(a) + ink(b));
        }
    }
}

proof fn lemma_laid_push(lines: Seq<Seq<char>>, x: Seq<char>)
    ensures
        laid_end_to_end(lines.push(x)) == laid_end_to_end(lines) + x,
{
    assert(lines.push(x).drop_last() =~= lines);
}

proof fn lemma_space_is_blank()
    ensures
        ink(seq![' ']) == Seq::<char>::empty(),
{
    assert((' ' as u32) == 0x20);
    assert(seq![' '].last() == ' ');
    assert(is_whitespace(' '));
    assert(seq![' '].drop_last() =~= Seq::<char>::empty());
    assert(ink(Seq::<char>::empty()) == Seq::<char>::empty());
    assert(ink(seq![' ']) == ink(seq![' '].drop_last()));
}

proof fn lemma_pieces_ink(s: Seq<char>, sep: Separator)
    requires
        forall|c: char| separates(sep, c) ==> is_whitespace(c),
    ensures
        ink(laid_end_to_end(pieces(s, sep))) == ink(s),
    decreases s.len(),
{
    if s.len() == 0 {
        assert(laid_end_to_end(seq![Seq::<char>::empty()]) =~= Seq::<char>::empty()) by {
            lemma_laid_push(Seq::empty(), Seq::empty());
            assert(Seq::<Seq<char>>::empty().push(Seq::<char>::empty()) =~= seq![Seq::<char>::empty()]);
        }
    } else {
        let before = pieces(s.drop_last(), sep);
        let c = s.last();
        lemma_pieces_ink(s.drop_last(), sep);
        lemma_pieces_nonempty(s.drop_last(), sep);
        if separates(sep, c) {
            lemma_laid_push(before, Seq::empty());
            assert(laid_end_to_end(before) + Seq::<char>::empty() =~= laid_end_to_end(before));
        } else {
            let n = before.len() - 1;
            let after = before.update(n, before.last().push(c));
            assert(after.drop_last() =~= before.drop_last());
            assert(laid_end_to_end(before) == laid_end_to_end(before.drop_last()) + before.last());
            assert(laid_end_to_end(after) =~= laid_end_to_end(before) + seq![c]);
            lemma_ink_add(laid_end_to_end(before), seq![c]);
            assert(s =~= s.drop_last() + seq![c]);
            lemma_ink_add(s.drop_last(), seq![c]);
        }
    }
}

proof fn lemma_nonempty_ink(ps: Seq<Seq<char>>)
    ensures
        ink(laid_end_to_end(nonempty_only(ps))) == ink(laid_end_to_end(ps)),
    decreases ps.len(),
{
    if ps.len() > 0 {
        lemma_nonempty_ink(ps.drop_last());
        if ps.last().len() > 0 {
            lemma_laid_push(nonempty_only(ps.drop_last()), ps.last());
            lemma_ink_add(laid_end_to_end(nonempty_only(ps.drop_last())), ps.last());
            lemma_ink_add(laid_end_to_end(ps.drop_last()), ps.last());
        } else {
            assert(laid_end_to_end(ps.drop_last()) + ps.last() =~= laid_end_to_end(ps.drop_last()));
        }
    }
}

proof fn lemma_chunk_laid(state: WrapState, word: Seq<char>, max: int)
    requires
        state.2 >= 0,
    ensures
        ({
            let r = chunk_chars(state, word, max);
            &&& laid_end_to_end(r.0) + r.1 == laid_end_to_end(state.0) + state.1 + word
            &&& r.2 >= 0
        }),
    decreases word.len(),
{
    if word.len() == 0 {
        assert(laid_end_to_end(state.0) + state.1 + word =~= laid_end_to_end(state.0) + state.1);
    } else {
        lemma_chunk_laid(state, word.drop_last(), max);
        let r = chunk_chars(state, word.drop_last(), max);
        let c = word.last();
        assert(word =~= word.drop_last().push(c));
        if r.2 + counted_width(c) > max && r.1.len() > 0 {
            lemma_laid_push(r.0, r.1);
            assert(laid_end_to_end(r.0.push(r.1)) + seq![c] =~= laid_end_to_end(state.0) + state.1 + word);
        } else {
            let base = laid_end_to_end(state.0) + state.1;
            assert(laid_end_to_end(r.0) + r.1.push(c) =~= (laid_end_to_end(r.0) + r.1).push(c));
            assert((base + word.drop_last()).push(c) =~= base + word);
        }
    }
}

proof fn lemma_word_step_ink(state: WrapState, word: Seq<char>, max: int)
    requires
        state.2 >= 0,
    ensures
        ({
            let r = word_step(state, word, max);
            &&& ink(laid_end_to_end(r.0) + r.1) == ink(laid_end_to_end(state.0) + state.1) + ink(word)
            &&& r.2 >= 0
        }),
{
    let ww = str_width(word) as int;
    let sep: int = if state.1.len() > 0 { 1 } else { 0 };
    let cut: WrapState = if state.1.len() > 0 && state.2 + sep + ww > max {
        (state.0.push(state.1), Seq::empty(), 0)
    } else {
        state
    };
    assert(laid_end_to_end(cut.0) + cut.1 == laid_end_to_end(state.0) + state.1) by {
        if state.1.len() > 0 && state.2 + sep + ww > max {
            lemma_laid_push(state.0, state.1);
            assert(laid_end_to_end(state.0.push(state.1)) + Seq::<char>::empty() =~= laid_end_to_end(state.0) + state.1);
        }
    }
    let head = laid_end_to_end(cut.0) + cut.1;
    if ww > max {
        assert(cut.1.len() == 0);
        assert(laid_end_to_end(cut.0) + Seq::<char>::empty() =~= head);
        lemma_chunk_laid((cut.0, Seq::empty(), 0), word, max);
        lemma_ink_add(head, word);
    } else if cut.1.len() > 0 {
        assert(laid_end_to_end(cut.0) + (cut.1 + seq![' '] + word) =~= head + seq![' '] + word);
        lemma_ink_add(head + seq![' '], word);
        lemma_ink_add(head, seq![' ']);
        lemma_space_is_blank();
        assert(ink(head) + Seq::<char>::empty() =~= ink(head));
    } else {
        assert(laid_end_to_end(cut.0) + (cut.1 + word) =~= head + word);
        lemma_ink_add(head, word);
    }
}

proof fn lemma_words_fold_ink(state: WrapState, words: Seq<Seq<char>>, max: int)
    requires
        state.2 >= 0,
    ensures
        ({
            let r = words_fold(state, words, max);
            &&& ink(laid_end_to_end(r.0) + r.1) == ink(laid_end_to_end(state.0) + state.1) + ink(laid_end_to_end(words))
            &&& r.2 >= 0
        }),
    decreases words.len(),
{
    if words.len() == 0 {
        assert(ink(laid_end_to_end(state.0) + state.1) + ink(Seq::<char>::empty()) =~= ink(laid_end_to_end(state.0) + state.1));
    } else {
        lemma_words_fold_ink(state, words.drop_last(), max);
        let r = words_fold(state, words.drop_last(), max);
        lemma_word_step_ink(r, words.last(), max);
        lemma_ink_add(laid_end_to_end(words.drop_last()), words.last());
        assert(ink(laid_end_to_end(state.0) + state.1) + ink(laid_end_to_end(words.drop_last())) + ink(words.last())
            =~= ink(laid_end_to_end(state.0) + state.1) + ink(laid_end_to_end(words)));
    }
}

proof fn lemma_paragraph_ink(lines: Seq<Seq<char>>, paragraph: Seq<char>, max: int)
    ensures
        ink(laid_end_to_end(paragraph_lines(lines, paragraph, max))) == ink(laid_end_to_end(lines)) + ink(paragraph),
{
    if paragraph.len() == 0 {
        lemma_laid_push(lines, Seq::empty());
        assert(laid_end_to_end(lines) + Seq::<char>::empty() =~= laid_end_to_end(lines));
        assert(ink(laid_end_to_end(lines)) + ink(paragraph) =~= ink(laid_end_to_end(lines)));
    } else {
        let words = words_of(paragraph);
        assert(laid_end_to_end(lines) + Seq::<char>::empty() =~= laid_end_to_end(lines));
        lemma_words_fold_ink((lines, Seq::empty(), 0), words, max);
        let done = words_fold((lines, Seq::empty(), 0), words, max);
        lemma_nonempty_ink(pieces(paragraph, Separator::Whitespace));
        lemma_pieces_ink(paragraph, Separator::Whitespace);
        if done.1.len() > 0 {
            lemma_laid_push(done.0, done.1);
        } else {
            assert(laid_end_to_end(done.0) + done.1 =~= laid_end_to_end(done.0));
        }
    }
}

proof fn lemma_paragraphs_ink(lines: Seq<Seq<char>>, paragraphs: Seq<Seq<char>>, max: int)
    ensures
        ink(laid_end_to_end(paragraphs_fold(lines, paragraphs, max))) == ink(laid_end_to_end(lines)) + ink(
            laid_end_to_end(paragraphs),
        ),
    decreases paragraphs.len(),
{
    if paragraphs.len() == 0 {
        assert(ink(laid_end_to_end(lines)) + ink(Seq::<char>::empty()) =~= ink(laid_end_to_end(lines)));
    } else {
        lemma_paragraphs_ink(lines, paragraphs.drop_last(), max);
        lemma_paragraph_ink(paragraphs_fold(lines, paragraphs.drop_last(), max), paragraphs.last(), max);
        lemma_ink_add(laid_end_to_end(paragraphs.drop_last()), paragraphs.last());
        assert(ink(laid_end_to_end(lines)) + ink(laid_end_to_end(paragraphs.drop_last())) + ink(paragraphs.last())
            =~= ink(laid_end_to_end(lines)) + ink(laid_end_to_end(paragraphs)));
    }
}

/// Wrapping keeps every word: the non-whitespace characters of the lines,
/// laid end to end, are those of the value, in order.
pub proof fn wrap_keeps_every_word(value: Seq<char>, max_width: nat)
    ensures
        ink(laid_end_to_end(wrapped_spec(value, max_width))) == ink(value),
{
    let max: int = if max_width == 0 { 1 } else { max_width as int };
    let ps = pieces(value, Separator::Newline);
    assert forall|c: char| separates(Separator::Newline, c) implies is_whitespace(c) by {
        assert(('\n' as u32) == 0x0a);
    }
    lemma_pieces_ink(value, Separator::Newline);
    lemma_paragraphs_ink(Seq::empty(), ps, max);
    let lines = paragraphs_fold(Seq::empty(), ps, max);
    if lines.len() == 0 {
        assert(laid_end_to_end(lines) =~= Seq::<char>::empty());
        lemma_laid_push(Seq::empty(), Seq::empty());
        assert(Seq::<Seq<char>>::empty().push(Seq::<char>::empty()) =~= seq![Seq::<char>::empty()]);
    }
}

/// `first`, then each line of `rest` on a new line behind `prefix`.
pub open spec fn continued(first: Seq<char>, rest: Seq<Seq<char>>, prefix: Seq<char>) -> Seq<char>
    decreases rest.len(),
{
    if rest.len() == 0 {
        first
    } else {
        continued(first, rest.drop_last(), prefix) + seq!['\n'] + prefix + rest.last()
    }
}

proof fn lemma_continued_prefix(x: Seq<char>, y: Seq<char>, rest: Seq<Seq<char>>, prefix: Seq<char>)
    ensures
        continued(x + y, rest, prefix) == x + continued(y, rest, prefix),
    decreases rest.len(),
{
    if rest.len() > 0 {
        lemma_continued_prefix(x, y, rest.drop_last(), prefix);
        assert(continued(x + y, rest, prefix) =~= x + continued(y, rest, prefix));
    } else {
        assert(continued(x + y, rest, prefix) =~= x + continued(y, rest, prefix));
    }
}

/// A row of the compact layout: the label (cut to the available width) on a
/// line of its own, then the value, stripped of control sequences and
/// wrapped, one level further in.
pub open spec fn compact_row(label: Seq<char>, value: Seq<char>, available: nat) -> Seq<char> {
    let lines = wrapped_spec(stripped_ansi(value), available);
    let inner = spaces(2 * INDENT as nat);
    spaces(INDENT as nat) + truncated_spec(label, available) + seq!['\n'] + continued(
        inner + lines[0],
        lines.drop_first(),
        inner,
    )
}

/// The lines of a value in the aligned layout: where its visible width
/// exceeds the value column, the value stripped of control sequences and
/// wrapped to the column; else the value as it is.
pub open spec fn value_lines(value: Seq<char>, value_width: nat) -> Seq<Seq<char>> {
    if str_width(stripped_ansi(value)) > value_width {
        wrapped_spec(stripped_ansi(value), value_width)
    } else {
        seq![value]
    }
}

/// A row of the aligned layout: the label cut and padded to the label
/// column, a gap, then the value's first line; further lines start under the
/// value column.
pub open spec fn aligned_row(label: Seq<char>, value: Seq<char>, label_width: nat, value_width: nat) -> Seq<char> {
    let lines = value_lines(value, value_width);
    spaces(INDENT as nat) + padded(truncated_spec(label, label_width), label_width) + spaces(LABEL_GAP as nat)
        + continued(lines[0], lines.drop_first(), spaces((INDENT + label_width + LABEL_GAP) as nat))
}

/// The widest label, in display columns.
pub open spec fn widest_label(rows: Seq<(Seq<char>, Seq<char>)>) -> nat
    decreases rows.len(),
{
    if rows.len() == 0 {
        0
    } else {
        let w = str_width(rows.last().0) as nat;
        let rest = widest_label(rows.drop_last());
        if w > rest { w } else { rest }
    }
}

/// The widest label cap.
pub const MAX_LABEL_WIDTH: usize = 22;

/// The smallest value column.
pub const MIN_VALUE_WIDTH: usize = 12;

/// The label column: the widest label, at most `MAX_LABEL_WIDTH`.
pub open spec fn label_column(rows: Seq<(Seq<char>, Seq<char>)>) -> nat {
    let w = widest_label(rows);
    if w < MAX_LABEL_WIDTH { w } else { MAX_LABEL_WIDTH as nat }
}

/// The value column: what the label column and the gap leave, at least
/// `MIN_VALUE_WIDTH`.
pub open spec fn value_column(available: nat, label_width: nat) -> nat {
    let rest = available - label_width - LABEL_GAP;
    if rest < MIN_VALUE_WIDTH { MIN_VALUE_WIDTH as nat } else { rest as nat }
}

/// The rows of the compact layout.
pub open spec fn compact_rows(rows: Seq<(Seq<char>, Seq<char>)>, available: nat) -> Seq<Seq<char>> {
    rows.map_values(|r: (Seq<char>, Seq<char>)| compact_row(r.0, r.1, available))
}

/// The rows of the aligned layout.
pub open spec fn aligned_rows(rows: Seq<(Seq<char>, Seq<char>)>, label_width: nat, value_width: nat) -> Seq<Seq<char>> {
    rows.map_values(|r: (Seq<char>, Seq<char>)| aligned_row(r.0, r.1, label_width, value_width))
}

/// The label/value list: nothing for no rows; in a compact layout each label
/// above its value; else labels in one column and values aligned in the
/// next; rows separated by newlines.
pub open spec fn facts_spec(rows: Seq<(Seq<char>, Seq<char>)>, columns: Option<usize>) -> Seq<char> {
    let available = (content_width_spec(columns) - INDENT) as nat;
    if rows.len() == 0 {
        Seq::empty()
    } else if content_width_spec(columns) < 68 {
        joined_with(compact_rows(rows, available), seq!['\n'])
    } else {
        let label_width = label_column(rows);
        joined_with(aligned_rows(rows, label_width, value_column(available, label_width)), seq!['\n'])
    }
}

/// The label and value texts of the rows.
pub open spec fn fact_rows<'a>(rows: Seq<(&'a str, String)>) -> Seq<(Seq<char>, Seq<char>)> {
    rows.map_values(|r: (&'a str, String)| (r.0@, r.1@))
}

/// Appends `lines[0]`, then each later line on a new line behind `prefix`.
fn push_continued(out: &mut String, lines: &Vec<String>, prefix: &str)
    requires
        lines@.len() >= 1,
    ensures
        final(out)@ == continued(old(out)@ + lines@[0]@, string_seq_views(lines@).drop_first(), prefix@),
{
    let ghost views = string_seq_views(lines@);
    push_str(out, lines[0].as_str());
    let ghost start = out@;
    let mut i: usize = 1;
    assert(views.drop_first().take(0) =~= Seq::<Seq<char>>::empty());
    while i < lines.len()
        invariant
            1 <= i <= lines@.len(),
            views == string_seq_views(lines@),
            out@ == continued(start, views.drop_first().take(i - 1), prefix@),
        decreases lines@.len() - i,
    {
        push_char(out, '\n');
        push_str(out, prefix);
        push_str(out, lines[i].as_str());
        proof {
            let t = views.drop_first().take(i as int);
            assert(t.drop_last() =~= views.drop_first().take(i - 1));
            assert(t.last() == lines@[i as int]@);
        }
        i = i + 1;
    }
    assert(views.drop_first().take(lines@.len() - 1) =~= views.drop_first());
}

/// The parts joined by newlines.
fn join_lines(parts: &Vec<String>) -> (out: String)
    ensures
        out@ == joined_with(string_seq_views(parts@), seq!['\n']),
{
    let ghost views = string_seq_views(parts@);
    let mut out = String::new();
    let mut i: usize = 0;
    while i < parts.len()
        invariant
            i <= parts@.len(),
            views == string_seq_views(parts@),
            out@ == joined_with(views.take(i as int), seq!['\n']),
        decreases parts@.len() - i,
    {
        let ghost before = out@;
        if i > 0 {
            push_char(&mut out, '\n');
        }
        push_str(&mut out, parts[i].as_str());
        proof {
            let next = views.take(i + 1);
            assert(next.drop_last() =~= views.take(i as int));
            assert(next.last() == parts@[i as int]@);
            if i == 0 {
                assert(views.take(0) =~= Seq::<Seq<char>>::empty());
                assert(before =~= Seq::<char>::empty());
                assert(out@ =~= parts@[0]@);
            } else {
                assert(out@ =~= before + seq!['\n'] + parts@[i as int]@);
            }
        }
        i = i + 1;
    }
    assert(views.take(parts@.len() as int) =~= views);
    out
}

fn compact_fact_row(label: &str, value: &String, available: usize) -> (row: String)
    requires
        available >= 1,
    ensures
        row@ == compact_row(label@, value@, available as nat),
{
    let mut row = String::new();
    push_spaces(&mut row, INDENT);
    let shown = truncate(label, available);
    push_str(&mut row, shown.as_str());
    push_char(&mut row, '\n');
    let clean = strip_ansi(value.as_str());
    let lines = wrap(clean.as_str(), available);
    let mut inner = String::new();
    push_spaces(&mut inner, 2 * INDENT);
    let ghost head = row@;
    push_str(&mut row, inner.as_str());
    assert(string_seq_views(lines@).len() == lines@.len());
    assert(lines@.len() >= 1);
    push_continued(&mut row, &lines, inner.as_str());
    proof {
        lemma_continued_prefix(head, inner@ + lines@[0]@, string_seq_views(lines@).drop_first(), inner@);
        assert(head + inner@ + lines@[0]@ =~= head + (inner@ + lines@[0]@));
    }
    row
}

fn aligned_fact_row(label: &str, value: &String, label_width: usize, value_width: usize) -> (row: String)
    requires
        label_width <= MAX_LABEL_WIDTH,
        value_width >= 1,
    ensures
        row@ == aligned_row(label@, value@, label_width as nat, value_width as nat),
{
    let mut row = String::new();
    push_spaces(&mut row, INDENT);
    let shown = truncate(label, label_width);
    let shown = pad_to_width(shown.as_str(), label_width);
    push_str(&mut row, shown.as_str());
    push_spaces(&mut row, LABEL_GAP);
    let mut lines: Vec<String> = Vec::new();
    if visible_width(value.as_str()) > value_width {
        let clean = strip_ansi(value.as_str());
        lines = wrap(clean.as_str(), value_width);
    } else {
        lines.push(value.clone());
        assert(string_seq_views(lines@) =~= seq![value@]);
    }
    assert(string_seq_views(lines@) == value_lines(value@, value_width as nat));
    assert(string_seq_views(lines@).len() == lines@.len());
    let mut prefix = String::new();
    push_spaces(&mut prefix, INDENT + label_width + LABEL_GAP);
    let ghost head = row@;
    push_continued(&mut row, &lines, prefix.as_str());
    proof {
        lemma_continued_prefix(head, lines@[0]@, string_seq_views(lines@).drop_first(), prefix@);
    }
    row
}

/// A borderless list of label/value facts laid out for a terminal of
/// `columns` columns (`None` where it reports none): rows are separated by
/// newlines; in a compact layout each label stands above its wrapped value;
/// else labels fill a column of at most `MAX_LABEL_WIDTH` and values line
/// up after a gap, wrapped only where wider than their column.
pub fn facts(rows: &[(&str, String)], columns: Option<usize>) -> (out: String)
    ensures
        out@ == facts_spec(fact_rows(rows@), columns),
{
    let ghost views = fact_rows(rows@);
    if rows.len() == 0 {
        return String::new();
    }
    let available = content_width(columns) - INDENT;
    let mut rendered: Vec<String> = Vec::new();
    if compact(columns) {
        let mut i: usize = 0;
        while i < rows.len()
            invariant
                i <= rows@.len(),
                views == fact_rows(rows@),
                available == content_width_spec(columns) - INDENT,
                string_seq_views(rendered@) == compact_rows(views.take(i as int), available as nat),
            decreases rows@.len() - i,
        {
            let row = compact_fact_row(rows[i].0, &rows[i].1, available);
            let ghost before = rendered@;
            rendered.push(row);
            proof {
                assert(views.take(i + 1) =~= views.take(i as int).push(views[i as int]));
                assert(compact_rows(views.take(i + 1), available as nat) =~= compact_rows(
                    views.take(i as int),
                    available as nat,
                ).push(row@));
                assert(string_seq_views(rendered@) =~= string_seq_views(before).push(row@));
            }
            i = i + 1;
        }
        assert(views.take(rows@.len() as int) =~= views);
    } else {
        let mut widest: usize = 0;
        let mut i: usize = 0;
        while i < rows.len()
            invariant
                i <= rows@.len(),
                views == fact_rows(rows@),
                widest == widest_label(views.take(i as int)),
            decreases rows@.len() - i,
        {
            let w = display_width_str(rows[i].0);
            proof {
                assert(views.take(i + 1).drop_last() =~= views.take(i as int));
                assert(views.take(i + 1).last() == views[i as int]);
            }
            if w > widest {
                widest = w;
            }
            i = i + 1;
        }
        assert(views.take(rows@.len() as int) =~= views);
        let label_width = if widest < MAX_LABEL_WIDTH { widest } else { MAX_LABEL_WIDTH };
        let rest = available - label_width - LABEL_GAP;
        let value_width = if rest < MIN_VALUE_WIDTH { MIN_VALUE_WIDTH } else { rest };
        let mut k: usize = 0;
        while k < rows.len()
            invariant
                k <= rows@.len(),
                views == fact_rows(rows@),
                label_width == label_column(views),
                label_width <= MAX_LABEL_WIDTH,
                value_width >= 1,
                string_seq_views(rendered@) == aligned_rows(views.take(k as int), label_width as nat, value_width as nat),
            decreases rows@.len() - k,
        {
            let row = aligned_fact_row(rows[k].0, &rows[k].1, label_width, value_width);
            let ghost before = rendered@;
            rendered.push(row);
            proof {
                assert(views.take(k + 1) =~= views.take(k as int).push(views[k as int]));
                assert(aligned_rows(views.take(k + 1), label_width as nat, value_width as nat) =~= aligned_rows(
                    views.take(k as int),
                    label_width as nat,
                    value_width as nat,
                ).push(row@));
                assert(string_seq_views(rendered@) =~= string_seq_views(before).push(row@));
            }
            k = k + 1;
        }
        assert(views.take(rows@.len() as int) =~= views);
        assert(value_width == value_column(available as nat, label_width as nat));
    }
    join_lines(&rendered)
}

} // verus!
