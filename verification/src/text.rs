//! Character-level string primitives shared by the parsers and formatters.
//!
//! Strings are reasoned about through their `Seq<char>` views. The few calls
//! into std that vstd does not specify are wrapped here, one std function per
//! wrapper; everything else is verified code over character vectors.

use vstd::prelude::*;
use vstd::std_specs::iter::IteratorSpec;

verus! {

/// The characters of `s`, in order.
pub fn str_chars(s: &str) -> (chars: Vec<char>)
    ensures
        chars@ == s@,
{
    let mut chars: Vec<char> = Vec::new();
    for c in it: s.chars()
        invariant
            chars@ == it.seq().take(it.index() as int),
    {
        chars.push(c);
    }
    chars
}


/// Appends one character to `s` (std `String::push`).
#[verifier::external_body]
pub(crate) fn push_char(s: &mut String, c: char)
    ensures
        final(s)@ == old(s)@.push(c),
{
    s.push(c);
}

/// A `String` holding exactly the characters of `chars`.
pub fn string_from_chars(chars: &[char]) -> (s: String)
    ensures
        s@ == chars@,
{
    let mut s = String::new();
    let mut i: usize = 0;
    while i < chars.len()
        invariant
            i <= chars@.len(),
            s@ == chars@.take(i as int),
        decreases chars@.len() - i,
    {
        push_char(&mut s, chars[i]);
        assert(chars@.take(i as int).push(chars@[i as int]) =~= chars@.take(i + 1));
        i = i + 1;
    }
    assert(chars@.take(chars@.len() as int) =~= chars@);
    s
}

/// The character of a decimal digit value.
pub open spec fn digit_char(d: nat) -> char {
    if d == 0 { '0' }
    else if d == 1 { '1' }
    else if d == 2 { '2' }
    else if d == 3 { '3' }
    else if d == 4 { '4' }
    else if d == 5 { '5' }
    else if d == 6 { '6' }
    else if d == 7 { '7' }
    else if d == 8 { '8' }
    else { '9' }
}

/// The decimal representation of `n`, without leading zeros.
pub open spec fn decimal(n: nat) -> Seq<char>
    decreases n,
{
    if n < 10 {
        seq![digit_char(n)]
    } else {
        decimal(n / 10).push(digit_char(n % 10))
    }
}

fn digit_to_char(d: u64) -> (c: char)
    requires
        d < 10,
    ensures
        c == digit_char(d as nat),
{
    if d == 0 { '0' }
    else if d == 1 { '1' }
    else if d == 2 { '2' }
    else if d == 3 { '3' }
    else if d == 4 { '4' }
    else if d == 5 { '5' }
    else if d == 6 { '6' }
    else if d == 7 { '7' }
    else if d == 8 { '8' }
    else { '9' }
}

/// Appends the decimal representation of `n` to `out`.
pub fn push_decimal(out: &mut String, n: u64)
    ensures
        final(out)@ == old(out)@ + decimal(n as nat),
    decreases n,
{
    if n < 10 {
        push_char(out, digit_to_char(n));
    } else {
        push_decimal(out, n / 10);
        push_char(out, digit_to_char(n % 10));
    }
}

/// Appends `suffix` to `out`.
pub fn push_str(out: &mut String, suffix: &str)
    ensures
        final(out)@ == old(out)@ + suffix@,
{
    out.append(suffix);
}


/// `c` is an ASCII decimal digit.
pub open spec fn is_digit(c: char) -> bool {
    '0' <= c && c <= '9'
}

/// The value of an ASCII decimal digit.
pub open spec fn digit_value(c: char) -> nat {
    (c as u32 - '0' as u32) as nat
}

/// The number written by a string of decimal digits (0 for the empty string).
pub open spec fn digits_value(s: Seq<char>) -> nat
    decreases s.len(),
{
    if s.len() == 0 {
        0
    } else {
        digits_value(s.drop_last()) * 10 + digit_value(s.last())
    }
}

/// Every character of `s` is a decimal digit.
pub open spec fn all_digits(s: Seq<char>) -> bool {
    forall|i: int| 0 <= i < s.len() ==> is_digit(#[trigger] s[i])
}

/// `s` without one leading `+` sign.
pub open spec fn unsigned_body(s: Seq<char>) -> Seq<char> {
    if s.len() > 0 && s[0] == '+' { s.drop_first() } else { s }
}

/// What `u16::from_str` accepts: an optional `+`, then one or more decimal
/// digits whose value fits in 16 bits.
pub open spec fn parse_u16(s: Seq<char>) -> Option<u16> {
    let body = unsigned_body(s);
    if body.len() > 0 && all_digits(body) && digits_value(body) <= 65535 {
        Some(digits_value(body) as u16)
    } else {
        None
    }
}

proof fn lemma_capped_step(v: nat, d: nat)
    requires
        d < 10,
    ensures
        ({
            let capped = if v < 65536 { v } else { 65536 };
            let next = capped * 10 + d;
            let full = v * 10 + d;
            (if next < 65536 { next } else { 65536 }) == (if full < 65536 { full } else { 65536 })
        }),
{
    if v >= 65536 {
        assert(v * 10 + d >= 65536) by (nonlinear_arith)
            requires
                v >= 65536,
        ;
        assert(65536 * 10 + d >= 65536);
    }
}

/// Parses `chars` as `u16::from_str` does.
pub fn parse_u16_chars(chars: &[char]) -> (result: Option<u16>)
    ensures
        result == parse_u16(chars@),
{
    let start: usize = if chars.len() > 0 && chars[0] == '+' { 1 } else { 0 };
    let ghost body = unsigned_body(chars@);
    assert(body =~= chars@.subrange(start as int, chars@.len() as int));
    if start >= chars.len() {
        return None;
    }
    let mut value: u32 = 0;
    let mut i: usize = start;
    while i < chars.len()
        invariant
            start <= i <= chars@.len(),
            body == unsigned_body(chars@),
            body =~= chars@.subrange(start as int, chars@.len() as int),
            all_digits(chars@.subrange(start as int, i as int)),
            value == (if digits_value(chars@.subrange(start as int, i as int)) < 65536 {
                digits_value(chars@.subrange(start as int, i as int))
            } else {
                65536
            }),
        decreases chars@.len() - i,
    {
        let c = chars[i];
        if !('0' <= c && c <= '9') {
            assert(body[i - start] == c);
            assert(!is_digit(body[i - start]));
            assert(!all_digits(body));
            return None;
        }
        let d: u32 = (c as u32) - ('0' as u32);
        proof {
            let prefix = chars@.subrange(start as int, i as int);
            let next = chars@.subrange(start as int, i + 1);
            assert(next.drop_last() =~= prefix);
            assert(next.last() == c);
            lemma_capped_step(digits_value(prefix), d as nat);
            assert forall|j: int| 0 <= j < next.len() implies is_digit(#[trigger] next[j]) by {
                if j < prefix.len() {
                    assert(next[j] == prefix[j]);
                }
            }
        }
        let stepped: u32 = value * 10 + d;
        value = if stepped < 65536 { stepped } else { 65536 };
        i = i + 1;
    }
    assert(chars@.subrange(start as int, i as int) =~= body);
    if value <= 65535 {
        Some(value as u16)
    } else {
        None
    }
}


/// The part of `s` after its last `sep` (all of `s` when `sep` does not occur);
/// the first item `str::rsplit(sep)` yields.
pub open spec fn after_last(s: Seq<char>, sep: char) -> Seq<char>
    decreases s.len(),
{
    if s.len() == 0 {
        s
    } else if s.last() == sep {
        Seq::empty()
    } else {
        after_last(s.drop_last(), sep).push(s.last())
    }
}

/// `s` with every trailing `c` removed (`str::trim_end_matches` on a char).
pub open spec fn trim_end_char(s: Seq<char>, c: char) -> Seq<char>
    decreases s.len(),
{
    if s.len() > 0 && s.last() == c {
        trim_end_char(s.drop_last(), c)
    } else {
        s
    }
}

/// Index just past the last `sep` in `chars` (0 when there is none).
pub fn after_last_start(chars: &[char], sep: char) -> (start: usize)
    ensures
        start <= chars@.len(),
        chars@.subrange(start as int, chars@.len() as int) == after_last(chars@, sep),
{
    let mut end: usize = chars.len();
    proof {
        assert(chars@.take(end as int) =~= chars@);
        assert(chars@ + chars@.subrange(end as int, chars@.len() as int) =~= chars@);
    }
    while end > 0
        invariant
            end <= chars@.len(),
            forall|j: int| end <= j < chars@.len() ==> chars@[j] != sep,
            after_last(chars@, sep) == after_last(chars@.take(end as int), sep)
                + chars@.subrange(end as int, chars@.len() as int),
        decreases end,
    {
        if chars[end - 1] == sep {
            proof {
                let t = chars@.take(end as int);
                assert(t.last() == sep);
                assert(after_last(t, sep) =~= Seq::<char>::empty());
                assert(Seq::<char>::empty() + chars@.subrange(end as int, chars@.len() as int)
                    =~= chars@.subrange(end as int, chars@.len() as int));
            }
            return end;
        }
        proof {
            let t = chars@.take(end as int);
            let t2 = chars@.take(end - 1);
            assert(t.drop_last() =~= t2);
            assert(after_last(t, sep) == after_last(t2, sep).push(t.last()));
            assert(after_last(t2, sep).push(t.last()) + chars@.subrange(end as int, chars@.len() as int)
                =~= after_last(t2, sep) + chars@.subrange(end - 1, chars@.len() as int));
        }
        end = end - 1;
    }
    proof {
        assert(chars@.take(0) =~= Seq::<char>::empty());
        assert(Seq::<char>::empty() + chars@.subrange(0, chars@.len() as int) =~= chars@.subrange(0, chars@.len() as int));
    }
    0
}

/// Length of `chars@.subrange(start, len)` once every trailing `c` is removed.
pub fn trim_end_char_len(chars: &[char], start: usize, c: char) -> (end: usize)
    requires
        start <= chars@.len(),
    ensures
        start <= end <= chars@.len(),
        chars@.subrange(start as int, end as int) == trim_end_char(
            chars@.subrange(start as int, chars@.len() as int),
            c,
        ),
{
    let mut end: usize = chars.len();
    while end > start && chars[end - 1] == c
        invariant
            start <= end <= chars@.len(),
            trim_end_char(chars@.subrange(start as int, chars@.len() as int), c)
                == trim_end_char(chars@.subrange(start as int, end as int), c),
        decreases end,
    {
        proof {
            let t = chars@.subrange(start as int, end as int);
            assert(t.drop_last() =~= chars@.subrange(start as int, end - 1));
        }
        end = end - 1;
    }
    end
}

/// `c` has the Unicode `White_Space` property (`char::is_whitespace`).
pub open spec fn is_whitespace(c: char) -> bool {
    let u: u32 = c as u32;
    (0x09 <= u && u <= 0x0d) || u == 0x20 || u == 0x85 || u == 0xa0 || u == 0x1680
        || (0x2000 <= u && u <= 0x200a) || u == 0x2028 || u == 0x2029 || u == 0x202f
        || u == 0x205f || u == 0x3000
}

/// Executable `char::is_whitespace`.
pub fn char_is_whitespace(c: char) -> (b: bool)
    ensures
        b == is_whitespace(c),
{
    let u: u32 = c as u32;
    (0x09 <= u && u <= 0x0d) || u == 0x20 || u == 0x85 || u == 0xa0 || u == 0x1680
        || (0x2000 <= u && u <= 0x200a) || u == 0x2028 || u == 0x2029 || u == 0x202f
        || u == 0x205f || u == 0x3000
}

/// `s` without leading whitespace (`str::trim_start`).
pub open spec fn trim_start(s: Seq<char>) -> Seq<char>
    decreases s.len(),
{
    if s.len() > 0 && is_whitespace(s[0]) {
        trim_start(s.drop_first())
    } else {
        s
    }
}

/// `s` without trailing whitespace (`str::trim_end`).
pub open spec fn trim_end(s: Seq<char>) -> Seq<char>
    decreases s.len(),
{
    if s.len() > 0 && is_whitespace(s.last()) {
        trim_end(s.drop_last())
    } else {
        s
    }
}

/// `s` without leading and trailing whitespace (`str::trim`).
pub open spec fn trim(s: Seq<char>) -> Seq<char> {
    trim_end(trim_start(s))
}

/// Bounds `(start, end)` of `chars@.subrange(from, to)` with whitespace trimmed
/// from both ends.
pub fn trim_bounds(chars: &[char], from: usize, to: usize) -> (bounds: (usize, usize))
    requires
        from <= to <= chars@.len(),
    ensures
        from <= bounds.0 <= bounds.1 <= to,
        chars@.subrange(bounds.0 as int, bounds.1 as int) == trim(
            chars@.subrange(from as int, to as int),
        ),
{
    let mut start: usize = from;
    while start < to && char_is_whitespace(chars[start])
        invariant
            from <= start <= to <= chars@.len(),
            trim_start(chars@.subrange(from as int, to as int)) == trim_start(
                chars@.subrange(start as int, to as int),
            ),
        decreases to - start,
    {
        proof {
            let t = chars@.subrange(start as int, to as int);
            assert(t.drop_first() =~= chars@.subrange(start + 1, to as int));
        }
        start = start + 1;
    }
    proof {
        let t = chars@.subrange(start as int, to as int);
        if t.len() > 0 {
            assert(t[0] == chars@[start as int]);
        }
        assert(trim_start(t) == t);
    }
    let mut end: usize = to;
    while end > start && char_is_whitespace(chars[end - 1])
        invariant
            from <= start <= end <= to <= chars@.len(),
            trim(chars@.subrange(from as int, to as int)) == trim_end(
                chars@.subrange(start as int, end as int),
            ),
        decreases end,
    {
        proof {
            let t = chars@.subrange(start as int, end as int);
            assert(t.drop_last() =~= chars@.subrange(start as int, end - 1));
        }
        end = end - 1;
    }
    (start, end)
}

/// `pat` occurs in `s` at position `i`.
pub open spec fn occurs_at(s: Seq<char>, pat: Seq<char>, i: int) -> bool {
    0 <= i && i + pat.len() <= s.len() && s.subrange(i, i + pat.len()) == pat
}

/// Whether `pat` occurs in `chars` at position `i`.
pub fn matches_at(chars: &[char], pat: &[char], i: usize) -> (b: bool)
    ensures
        b == occurs_at(chars@, pat@, i as int),
{
    if i > chars.len() || pat.len() > chars.len() - i {
        return false;
    }
    let mut k: usize = 0;
    while k < pat.len()
        invariant
            i + pat.len() <= chars.len(),
            k <= pat@.len(),
            forall|j: int| 0 <= j < k ==> chars@[i + j] == pat@[j],
        decreases pat@.len() - k,
    {
        if chars[i + k] != pat[k] {
            assert(chars@.subrange(i as int, i + pat@.len())[k as int] != pat@[k as int]);
            return false;
        }
        k = k + 1;
    }
    assert(chars@.subrange(i as int, i + pat@.len()) =~= pat@);
    true
}

/// First position at or after `from` where `pat` occurs in `chars`.
pub fn find_from(chars: &[char], pat: &[char], from: usize) -> (found: Option<usize>)
    ensures
        match found {
            Some(k) => from <= k && occurs_at(chars@, pat@, k as int) && forall|j: int|
                from <= j < k ==> !occurs_at(chars@, pat@, j),
            None => forall|j: int| from <= j ==> !occurs_at(chars@, pat@, j),
        },
{
    if from > chars.len() {
        return None;
    }
    let mut k: usize = from;
    while k < chars.len()
        invariant
            from <= k <= chars.len(),
            forall|j: int| from <= j < k ==> !occurs_at(chars@, pat@, j),
        decreases chars@.len() - k,
    {
        if matches_at(chars, pat, k) {
            return Some(k);
        }
        k = k + 1;
    }
    if matches_at(chars, pat, k) {
        return Some(k);
    }
    None
}

/// `pat` occurs somewhere in `s`.
pub open spec fn contains_seq(s: Seq<char>, pat: Seq<char>) -> bool {
    exists|i: int| occurs_at(s, pat, i)
}

/// Whether `pat` occurs in `chars` (`str::contains`).
pub fn contains(chars: &[char], pat: &[char]) -> (b: bool)
    ensures
        b == contains_seq(chars@, pat@),
{
    match find_from(chars, pat, 0) {
        Some(k) => true,
        None => {
            assert forall|i: int| !occurs_at(chars@, pat@, i) by {
                if i >= 0 {
                }
            }
            false
        },
    }
}

/// Whether `pat` occurs in `s`.
pub fn str_contains(s: &str, pat: &str) -> (b: bool)
    ensures
        b == contains_seq(s@, pat@),
{
    let chars = str_chars(s);
    let pattern = str_chars(pat);
    contains(&chars, &pattern)
}

/// ASCII lowercase of one character (`char::to_ascii_lowercase`).
pub open spec fn ascii_lower(c: char) -> char {
    if 'A' <= c && c <= 'Z' {
        ((c as u32) + 32) as char
    } else {
        c
    }
}

/// ASCII lowercase of a string (`str::to_ascii_lowercase`).
pub open spec fn lower_seq(s: Seq<char>) -> Seq<char> {
    s.map_values(|c: char| ascii_lower(c))
}

/// The ASCII lowercase of one character.
pub fn lower_char(c: char) -> (l: char)
    ensures
        l == ascii_lower(c),
{
    if 'A' <= c && c <= 'Z' {
        let b: u8 = c as u8;
        let lowered: u8 = b + 32;
        lowered as char
    } else {
        c
    }
}

/// The ASCII lowercase of `s`, as characters.
pub fn lower_chars(s: &str) -> (lowered: Vec<char>)
    ensures
        lowered@ == lower_seq(s@),
{
    let chars = str_chars(s);
    let mut out: Vec<char> = Vec::new();
    let mut i: usize = 0;
    while i < chars.len()
        invariant
            i <= chars@.len(),
            chars@ == s@,
            out@ =~= lower_seq(chars@.take(i as int)),
        decreases chars@.len() - i,
    {
        out.push(lower_char(chars[i]));
        i = i + 1;
        assert(out@ =~= lower_seq(chars@.take(i as int)));
    }
    assert(chars@.take(i as int) =~= chars@);
    out
}

/// Whether the ASCII-lowercased `s` contains `pat`.
pub fn lower_contains(lowered: &[char], pat: &str) -> (b: bool)
    ensures
        b == contains_seq(lowered@, pat@),
{
    let pattern = str_chars(pat);
    contains(lowered, &pattern)
}

/// What `u64::from_str` accepts: an optional `+`, then one or more decimal
/// digits whose value fits in 64 bits.
pub open spec fn parse_u64(s: Seq<char>) -> Option<u64> {
    let body = unsigned_body(s);
    if body.len() > 0 && all_digits(body) && digits_value(body) <= u64::MAX {
        Some(digits_value(body) as u64)
    } else {
        None
    }
}

proof fn lemma_capped_step64(v: nat, d: nat)
    requires
        d < 10,
    ensures
        ({
            let cap = 0x1_0000_0000_0000_0000nat;
            let capped = if v < cap { v } else { cap };
            let next = capped * 10 + d;
            let full = v * 10 + d;
            (if next < cap { next } else { cap }) == (if full < cap { full } else { cap })
        }),
{
    let cap = 0x1_0000_0000_0000_0000nat;
    if v >= cap {
        assert(v * 10 + d >= cap) by (nonlinear_arith)
            requires
                v >= cap,
                cap == 0x1_0000_0000_0000_0000nat,
        ;
    }
}

/// Parses `chars` as `u64::from_str` does.
pub fn parse_u64_chars(chars: &[char]) -> (result: Option<u64>)
    ensures
        result == parse_u64(chars@),
{
    let start: usize = if chars.len() > 0 && chars[0] == '+' { 1 } else { 0 };
    let ghost body = unsigned_body(chars@);
    assert(body =~= chars@.subrange(start as int, chars@.len() as int));
    if start >= chars.len() {
        return None;
    }
    let cap: u128 = 0x1_0000_0000_0000_0000;
    let mut value: u128 = 0;
    let mut i: usize = start;
    while i < chars.len()
        invariant
            start <= i <= chars@.len(),
            cap == 0x1_0000_0000_0000_0000nat,
            body == unsigned_body(chars@),
            body =~= chars@.subrange(start as int, chars@.len() as int),
            all_digits(chars@.subrange(start as int, i as int)),
            value == (if digits_value(chars@.subrange(start as int, i as int)) < cap {
                digits_value(chars@.subrange(start as int, i as int))
            } else {
                cap as nat
            }),
        decreases chars@.len() - i,
    {
        let c = chars[i];
        if !('0' <= c && c <= '9') {
            assert(body[i - start] == c);
            assert(!is_digit(body[i - start]));
            assert(!all_digits(body));
            return None;
        }
        let d: u128 = ((c as u32) - ('0' as u32)) as u128;
        proof {
            let prefix = chars@.subrange(start as int, i as int);
            let next = chars@.subrange(start as int, i + 1);
            assert(next.drop_last() =~= prefix);
            assert(next.last() == c);
            lemma_capped_step64(digits_value(prefix), d as nat);
            assert forall|j: int| 0 <= j < next.len() implies is_digit(#[trigger] next[j]) by {
                if j < prefix.len() {
                    assert(next[j] == prefix[j]);
                }
            }
        }
        let stepped: u128 = value * 10 + d;
        value = if stepped < cap { stepped } else { cap };
        i = i + 1;
    }
    assert(chars@.subrange(start as int, i as int) =~= body);
    if value < cap {
        Some(value as u64)
    } else {
        None
    }
}

/// Characters `from..to` of `chars` as a `String`.
pub fn string_from_range(chars: &[char], from: usize, to: usize) -> (s: String)
    requires
        from <= to <= chars@.len(),
    ensures
        s@ == chars@.subrange(from as int, to as int),
{
    let mut s = String::new();
    let mut i: usize = from;
    while i < to
        invariant
            from <= i <= to <= chars@.len(),
            s@ == chars@.subrange(from as int, i as int),
        decreases to - i,
    {
        push_char(&mut s, chars[i]);
        assert(chars@.subrange(from as int, i as int).push(chars@[i as int]) =~= chars@.subrange(
            from as int,
            i + 1,
        ));
        i = i + 1;
    }
    s
}

/// `s` with surrounding whitespace removed (`str::trim`).
pub fn trim_string(s: &str) -> (t: String)
    ensures
        t@ == trim(s@),
{
    let chars = str_chars(s);
    let (from, to) = trim_bounds(&chars, 0, chars.len());
    assert(chars@.subrange(0, chars@.len() as int) =~= chars@);
    string_from_range(&chars, from, to)
}

/// A copy of `chars@.subrange(start, end)`.
pub fn slice_range(chars: &[char], start: usize, end: usize) -> (part: Vec<char>)
    requires
        start <= end <= chars@.len(),
    ensures
        part@ == chars@.subrange(start as int, end as int),
{
    let mut part: Vec<char> = Vec::new();
    let mut i: usize = start;
    while i < end
        invariant
            start <= i <= end <= chars@.len(),
            part@ == chars@.subrange(start as int, i as int),
        decreases end - i,
    {
        part.push(chars[i]);
        assert(chars@.subrange(start as int, i + 1) =~= chars@.subrange(start as int, i as int).push(
            chars@[i as int],
        ));
        i = i + 1;
    }
    part
}

/// Whether two character sequences are equal.
pub fn chars_equal(a: &[char], b: &[char]) -> (same: bool)
    ensures
        same == (a@ == b@),
{
    if a.len() != b.len() {
        return false;
    }
    let mut i: usize = 0;
    while i < a.len()
        invariant
            i <= a@.len(),
            a@.len() == b@.len(),
            forall|j: int| 0 <= j < i ==> a@[j] == b@[j],
        decreases a@.len() - i,
    {
        if a[i] != b[i] {
            return false;
        }
        i = i + 1;
    }
    assert(a@ =~= b@);
    true
}

/// The two strings are equal ignoring ASCII case (`str::eq_ignore_ascii_case`).
pub open spec fn eq_ignore_ascii_case(a: Seq<char>, b: Seq<char>) -> bool {
    lower_seq(a) == lower_seq(b)
}

/// Whether `a` and `b` are equal ignoring ASCII case.
pub fn str_eq_ignore_ascii_case(a: &str, b: &str) -> (same: bool)
    ensures
        same == eq_ignore_ascii_case(a@, b@),
{
    let la = lower_chars(a);
    let lb = lower_chars(b);
    chars_equal(&la, &lb)
}

/// `a` sorts strictly before `b` by character code (the order of `str`'s `Ord`
/// on these strings).
pub open spec fn seq_lex_lt(a: Seq<char>, b: Seq<char>) -> bool
    decreases a.len(),
{
    if a.len() == 0 {
        b.len() > 0
    } else if b.len() == 0 {
        false
    } else if a[0] != b[0] {
        (a[0] as u32) < (b[0] as u32)
    } else {
        seq_lex_lt(a.drop_first(), b.drop_first())
    }
}

/// Whether `a` sorts strictly before `b`.
pub fn lex_less(a: &[char], b: &[char]) -> (less: bool)
    ensures
        less == seq_lex_lt(a@, b@),
{
    let mut i: usize = 0;
    assert(a@.skip(0) =~= a@);
    assert(b@.skip(0) =~= b@);
    while i < a.len() && i < b.len()
        invariant
            i <= a@.len(),
            i <= b@.len(),
            a@.take(i as int) == b@.take(i as int),
            seq_lex_lt(a@, b@) == seq_lex_lt(a@.skip(i as int), b@.skip(i as int)),
        decreases a@.len() - i,
    {
        if a[i] != b[i] {
            assert(a@.skip(i as int)[0] == a@[i as int]);
            assert(b@.skip(i as int)[0] == b@[i as int]);
            return (a[i] as u32) < (b[i] as u32);
        }
        proof {
            assert(a@.skip(i as int).drop_first() =~= a@.skip(i + 1));
            assert(b@.skip(i as int).drop_first() =~= b@.skip(i + 1));
            assert(a@.skip(i as int)[0] == a@[i as int]);
            assert(b@.skip(i as int)[0] == b@[i as int]);
            assert(a@.take(i + 1) =~= a@.take(i as int).push(a@[i as int]));
            assert(b@.take(i + 1) =~= b@.take(i as int).push(b@[i as int]));
        }
        i = i + 1;
    }
    proof {
        if i == a@.len() {
            assert(a@.skip(i as int).len() == 0);
        }
        if i == b@.len() {
            assert(b@.skip(i as int).len() == 0);
        }
    }
    i < b.len()
}

/// Where a text is split.
#[derive(Debug, Clone, Copy, PartialEq, Eq, Structural)]
pub enum Separator {
    /// At `\n`.
    Newline,
    /// At `,` and at whitespace.
    CommaOrSpace,
    /// At `.`.
    Dot,
    /// At `:`.
    Colon,
    /// At `=`.
    Equals,
    /// At whitespace.
    Whitespace,
}

/// `c` separates pieces under `sep`.
pub open spec fn separates(sep: Separator, c: char) -> bool {
    match sep {
        Separator::Newline => c == '\n',
        Separator::CommaOrSpace => c == ',' || is_whitespace(c),
        Separator::Dot => c == '.',
        Separator::Colon => c == ':',
        Separator::Equals => c == '=',
        Separator::Whitespace => is_whitespace(c),
    }
}

/// The pieces of `s` between separators, empty pieces included
/// (`str::split`).
pub open spec fn pieces(s: Seq<char>, sep: Separator) -> Seq<Seq<char>>
    decreases s.len(),
{
    if s.len() == 0 {
        seq![Seq::empty()]
    } else {
        let before = pieces(s.drop_last(), sep);
        if separates(sep, s.last()) {
            before.push(Seq::empty())
        } else {
            before.update(before.len() - 1, before.last().push(s.last()))
        }
    }
}

pub proof fn lemma_pieces_nonempty(s: Seq<char>, sep: Separator)
    ensures
        pieces(s, sep).len() >= 1,
    decreases s.len(),
{
    if s.len() > 0 {
        lemma_pieces_nonempty(s.drop_last(), sep);
    }
}

/// The views of a vector of character vectors.
pub open spec fn char_views(v: Seq<Vec<char>>) -> Seq<Seq<char>> {
    v.map_values(|x: Vec<char>| x@)
}

fn is_separator(sep: Separator, c: char) -> (b: bool)
    ensures
        b == separates(sep, c),
{
    match sep {
        Separator::Newline => c == '\n',
        Separator::CommaOrSpace => c == ',' || char_is_whitespace(c),
        Separator::Dot => c == '.',
        Separator::Colon => c == ':',
        Separator::Equals => c == '=',
        Separator::Whitespace => char_is_whitespace(c),
    }
}

/// Splits `chars` into its pieces.
pub fn split_pieces(chars: &[char], sep: Separator) -> (parts: Vec<Vec<char>>)
    ensures
        char_views(parts@) == pieces(chars@, sep),
{
    let mut done: Vec<Vec<char>> = Vec::new();
    let mut current: Vec<char> = Vec::new();
    let mut i: usize = 0;
    assert(chars@.take(0) =~= Seq::<char>::empty());
    while i < chars.len()
        invariant
            i <= chars@.len(),
            char_views(done@).push(current@) == pieces(chars@.take(i as int), sep),
        decreases chars@.len() - i,
    {
        let c = chars[i];
        proof {
            assert(chars@.take(i + 1).drop_last() =~= chars@.take(i as int));
            assert(chars@.take(i + 1).last() == c);
        }
        if is_separator(sep, c) {
            let ghost old_done = done@;
            let finished = current;
            done.push(finished);
            current = Vec::new();
            assert(char_views(done@) =~= char_views(old_done).push(finished@));
            assert(char_views(done@).push(current@) =~= char_views(old_done).push(finished@).push(
                Seq::empty(),
            ));
        } else {
            let ghost old_current = current@;
            current.push(c);
            assert(char_views(done@).push(current@) =~= char_views(done@).push(old_current).update(
                char_views(done@).len() as int,
                old_current.push(c),
            ));
        }
        i = i + 1;
    }
    assert(chars@.take(i as int) =~= chars@);
    let ghost before = done@;
    done.push(current);
    assert(char_views(done@) =~= char_views(before).push(current@));
    done
}

/// `s` without one trailing carriage return.
pub open spec fn strip_cr(s: Seq<char>) -> Seq<char> {
    if s.len() > 0 && s.last() == '\r' {
        s.drop_last()
    } else {
        s
    }
}

/// The lines of `s` (`str::lines`): split at `\n`, without a final empty
/// piece, each without a trailing `\r`.
pub open spec fn lines(s: Seq<char>) -> Seq<Seq<char>> {
    let p = pieces(s, Separator::Newline);
    let kept = if p.last().len() == 0 {
        p.drop_last()
    } else {
        p
    };
    kept.map_values(|line: Seq<char>| strip_cr(line))
}

/// The lines of `chars`.
pub fn split_lines(chars: &[char]) -> (result: Vec<Vec<char>>)
    ensures
        char_views(result@) == lines(chars@),
{
    let parts = split_pieces(chars, Separator::Newline);
    proof {
        lemma_pieces_nonempty(chars@, Separator::Newline);
    }
    let count: usize = if parts[parts.len() - 1].len() == 0 {
        parts.len() - 1
    } else {
        parts.len()
    };
    let ghost p = pieces(chars@, Separator::Newline);
    let ghost kept = if p.last().len() == 0 {
        p.drop_last()
    } else {
        p
    };
    assert(kept.len() == count);
    let mut result: Vec<Vec<char>> = Vec::new();
    let mut i: usize = 0;
    while i < count
        invariant
            i <= count <= parts@.len(),
            char_views(parts@) == p,
            kept.len() == count,
            forall|j: int| 0 <= j < count ==> kept[j] == p[j],
            char_views(result@) =~= kept.take(i as int).map_values(|line: Seq<char>| strip_cr(line)),
        decreases count - i,
    {
        let line = &parts[i];
        let end: usize = if line.len() > 0 && line[line.len() - 1] == '\r' {
            line.len() - 1
        } else {
            line.len()
        };
        let stripped = slice_range(line.as_slice(), 0, end);
        proof {
            assert(line@ == p[i as int]);
            if line@.len() > 0 && line@.last() == '\r' {
                assert(line@.subrange(0, end as int) =~= line@.drop_last());
            } else {
                assert(line@.subrange(0, end as int) =~= line@);
            }
        }
        let ghost old_result = result@;
        result.push(stripped);
        assert(char_views(result@) =~= char_views(old_result).push(stripped@));
        i = i + 1;
        assert(kept.take(i as int).map_values(|line: Seq<char>| strip_cr(line)) =~= kept.take(
            (i - 1) as int,
        ).map_values(|line: Seq<char>| strip_cr(line)).push(strip_cr(kept[(i - 1) as int])));
    }
    assert(kept.take(count as int) =~= kept);
    result
}

/// No string sorts before itself.
pub proof fn lemma_lex_irreflexive(a: Seq<char>)
    ensures
        !seq_lex_lt(a, a),
    decreases a.len(),
{
    if a.len() > 0 {
        lemma_lex_irreflexive(a.drop_first());
    }
}

/// Two strings never sort before each other.
pub proof fn lemma_lex_asymmetric(a: Seq<char>, b: Seq<char>)
    requires
        seq_lex_lt(a, b),
    ensures
        !seq_lex_lt(b, a),
    decreases a.len(),
{
    if a.len() > 0 && b.len() > 0 && a[0] == b[0] {
        lemma_lex_asymmetric(a.drop_first(), b.drop_first());
    }
}

/// Sorting before is transitive.
pub proof fn lemma_lex_transitive(a: Seq<char>, b: Seq<char>, c: Seq<char>)
    requires
        seq_lex_lt(a, b),
        seq_lex_lt(b, c),
    ensures
        seq_lex_lt(a, c),
    decreases a.len(),
{
    if a.len() > 0 && b.len() > 0 && c.len() > 0 && a[0] == b[0] && b[0] == c[0] {
        lemma_lex_transitive(a.drop_first(), b.drop_first(), c.drop_first());
    }
}

/// The first position at or after `i` where `pat` occurs in `s`.
pub open spec fn first_occurrence(s: Seq<char>, pat: Seq<char>, i: int) -> Option<int>
    decreases s.len() + 1 - i,
{
    if i < 0 || i > s.len() {
        None
    } else if occurs_at(s, pat, i) {
        Some(i)
    } else {
        first_occurrence(s, pat, i + 1)
    }
}

pub proof fn lemma_no_occurrence(s: Seq<char>, pat: Seq<char>, i: int)
    requires
        0 <= i,
        forall|j: int| i <= j ==> !occurs_at(s, pat, j),
    ensures
        first_occurrence(s, pat, i) is None,
    decreases s.len() + 1 - i,
{
    if i <= s.len() {
        lemma_no_occurrence(s, pat, i + 1);
    }
}

pub proof fn lemma_first_occurrence(s: Seq<char>, pat: Seq<char>, i: int, k: int)
    requires
        0 <= i <= k,
        occurs_at(s, pat, k),
        forall|j: int| i <= j < k ==> !occurs_at(s, pat, j),
    ensures
        first_occurrence(s, pat, i) == Some(k),
    decreases k - i,
{
    if i < k {
        lemma_first_occurrence(s, pat, i + 1, k);
    }
}

/// A position found by a left-to-right search is the first occurrence.
pub proof fn lemma_first_occurrence_found(s: Seq<char>, pat: Seq<char>, k: int)
    requires
        0 <= k,
        occurs_at(s, pat, k),
        forall|j: int| 0 <= j < k ==> !occurs_at(s, pat, j),
    ensures
        first_occurrence(s, pat, 0) == Some(k),
{
    lemma_first_occurrence(s, pat, 0, k);
}

/// A search that finds nothing means there is no first occurrence.
pub proof fn lemma_first_occurrence_none(s: Seq<char>, pat: Seq<char>)
    requires
        forall|j: int| 0 <= j ==> !occurs_at(s, pat, j),
    ensures
        first_occurrence(s, pat, 0) is None,
{
    lemma_no_occurrence(s, pat, 0);
}

/// A first occurrence at or after `i` lies at or after `i`, within the text.
pub proof fn lemma_first_occurrence_bounds(s: Seq<char>, pat: Seq<char>, i: int)
    requires
        first_occurrence(s, pat, i) is Some,
    ensures
        i <= first_occurrence(s, pat, i)->0,
        occurs_at(s, pat, first_occurrence(s, pat, i)->0),
    decreases s.len() + 1 - i,
{
    if i >= 0 && i <= s.len() && !occurs_at(s, pat, i) {
        lemma_first_occurrence_bounds(s, pat, i + 1);
    }
}

/// A search from `i` that finds nothing means there is no occurrence from
/// `i` on.
pub proof fn lemma_first_occurrence_none_from(s: Seq<char>, pat: Seq<char>, i: int)
    requires
        0 <= i,
        forall|j: int| i <= j ==> !occurs_at(s, pat, j),
    ensures
        first_occurrence(s, pat, i) is None,
{
    lemma_no_occurrence(s, pat, i);
}

/// The first occurrence of `pat` in `text` at or after `from`.
pub fn find_first(text: &[char], pat: &[char], from: usize) -> (found: Option<usize>)
    ensures
        match found {
            Some(k) => first_occurrence(text@, pat@, from as int) == Some(k as int) && from <= k
                && k + pat@.len() <= text@.len(),
            None => first_occurrence(text@, pat@, from as int) is None,
        },
{
    if from > text.len() {
        return None;
    }
    match find_from(text, pat, from) {
        Some(k) => {
            proof {
                lemma_first_occurrence(text@, pat@, from as int, k as int);
            }
            Some(k)
        },
        None => {
            proof {
                lemma_first_occurrence_none_from(text@, pat@, from as int);
            }
            None
        },
    }
}

/// The last position at or before `i` where `pat` occurs in `s`.
pub open spec fn last_occurrence_upto(s: Seq<char>, pat: Seq<char>, i: int) -> Option<int>
    decreases i + 1,
{
    if i < 0 {
        None
    } else if occurs_at(s, pat, i) {
        Some(i)
    } else {
        last_occurrence_upto(s, pat, i - 1)
    }
}

/// The last position where `pat` occurs in `s` (`str::rfind`).
pub open spec fn last_occurrence(s: Seq<char>, pat: Seq<char>) -> Option<int> {
    last_occurrence_upto(s, pat, s.len() as int)
}

/// The last occurrence of `pat` in `text`.
pub fn find_last(text: &[char], pat: &[char]) -> (found: Option<usize>)
    ensures
        match found {
            Some(k) => last_occurrence(text@, pat@) == Some(k as int) && k + pat@.len() <= text@.len(),
            None => last_occurrence(text@, pat@) is None,
        },
{
    let mut i: usize = text.len();
    loop
        invariant
            i <= text@.len(),
            last_occurrence(text@, pat@) == last_occurrence_upto(text@, pat@, i as int),
        decreases i,
    {
        if matches_at(text, pat, i) {
            return Some(i);
        }
        if i == 0 {
            return None;
        }
        i = i - 1;
    }
}

/// Where `last_occurrence` finds `pat`, it occurs there, inside `s`.
pub proof fn lemma_last_occurrence_bounds(s: Seq<char>, pat: Seq<char>)
    requires
        last_occurrence(s, pat) is Some,
    ensures
        0 <= last_occurrence(s, pat).unwrap(),
        occurs_at(s, pat, last_occurrence(s, pat).unwrap()),
        last_occurrence(s, pat).unwrap() + pat.len() <= s.len(),
{
    lemma_last_occurrence_upto_bounds(s, pat, s.len() as int);
}

proof fn lemma_last_occurrence_upto_bounds(s: Seq<char>, pat: Seq<char>, i: int)
    requires
        last_occurrence_upto(s, pat, i) is Some,
    ensures
        0 <= last_occurrence_upto(s, pat, i).unwrap() <= i,
        occurs_at(s, pat, last_occurrence_upto(s, pat, i).unwrap()),
    decreases i + 1,
{
    if i >= 0 && !occurs_at(s, pat, i) {
        lemma_last_occurrence_upto_bounds(s, pat, i - 1);
    }
}

/// Whether the two strings are equal.
pub fn str_equal(a: &str, b: &str) -> (same: bool)
    ensures
        same == (a@ == b@),
{
    let ca = str_chars(a);
    let cb = str_chars(b);
    chars_equal(&ca, &cb)
}

} // verus!
