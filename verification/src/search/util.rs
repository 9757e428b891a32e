//! Text helpers of the search adapters: percent-decoding and -encoding,
//! HTML tag stripping, and bounded truncation.

use crate::ip::{hex_value, is_hex_digit};
use crate::text::{occurs_at, push_char, push_str, str_chars};
use vstd::prelude::*;

verus! {

/// The UTF-8 encoding of one character.
pub open spec fn utf8_char(c: char) -> Seq<u8> {
    let u = c as u32;
    if u < 0x80 {
        seq![u as u8]
    } else if u < 0x800 {
        seq![(0xC0 + u / 64) as u8, (0x80 + u % 64) as u8]
    } else if u < 0x10000 {
        seq![(0xE0 + u / 4096) as u8, (0x80 + (u / 64) % 64) as u8, (0x80 + u % 64) as u8]
    } else {
        seq![
            (0xF0 + u / 262144) as u8,
            (0x80 + (u / 4096) % 64) as u8,
            (0x80 + (u / 64) % 64) as u8,
            (0x80 + u % 64) as u8,
        ]
    }
}

/// The UTF-8 encoding of a string.
pub open spec fn utf8_encode(s: Seq<char>) -> Seq<u8>
    decreases s.len(),
{
    if s.len() == 0 {
        Seq::empty()
    } else {
        utf8_encode(s.drop_last()) + utf8_char(s.last())
    }
}

/// What `String::from_utf8_lossy` makes of bytes: their decoding, with each
/// invalid sequence replaced by U+FFFD.
pub uninterp spec fn utf8_lossy(bytes: Seq<u8>) -> Seq<char>;

/// Decodes bytes as UTF-8, replacing invalid sequences
/// (`String::from_utf8_lossy`). Valid UTF-8 decodes to the characters it
/// encodes.
#[verifier::external_body]
pub(crate) fn decode_utf8_lossy(bytes: &[u8]) -> (text: String)
    ensures
        text@ == utf8_lossy(bytes@),
        forall|s: Seq<char>| utf8_encode(s) == bytes@ ==> text@ == s,
{
    String::from_utf8_lossy(bytes).into_owned()
}

fn push_utf8(out: &mut Vec<u8>, c: char)
    ensures
        final(out)@ == old(out)@ + utf8_char(c),
{
    let u: u32 = c as u32;
    if u < 0x80 {
        out.push(u as u8);
    } else if u < 0x800 {
        out.push((0xC0 + u / 64) as u8);
        out.push((0x80 + u % 64) as u8);
    } else if u < 0x10000 {
        out.push((0xE0 + u / 4096) as u8);
        out.push((0x80 + (u / 64) % 64) as u8);
        out.push((0x80 + u % 64) as u8);
    } else {
        out.push((0xF0 + u / 262144) as u8);
        out.push((0x80 + (u / 4096) % 64) as u8);
        out.push((0x80 + (u / 64) % 64) as u8);
        out.push((0x80 + u % 64) as u8);
    }
    assert(out@ =~= old(out)@ + utf8_char(c));
}

/// The UTF-8 bytes of a string.
pub fn utf8_bytes(s: &str) -> (bytes: Vec<u8>)
    ensures
        bytes@ == utf8_encode(s@),
{
    let chars = str_chars(s);
    let mut bytes: Vec<u8> = Vec::new();
    let mut i: usize = 0;
    while i < chars.len()
        invariant
            i <= chars@.len(),
            chars@ == s@,
            bytes@ == utf8_encode(chars@.take(i as int)),
        decreases chars@.len() - i,
    {
        assert(chars@.take(i + 1).drop_last() =~= chars@.take(i as int));
        push_utf8(&mut bytes, chars[i]);
        i = i + 1;
    }
    assert(chars@.take(i as int) =~= chars@);
    bytes
}

/// The bytes a percent-encoded text stands for, from position `i`: a `%`
/// followed by two hexadecimal digits is one byte; any other character
/// stands for its own UTF-8 bytes.
pub open spec fn decoded_bytes(s: Seq<char>, i: int) -> Seq<u8>
    decreases s.len() - i,
{
    if i < 0 || i >= s.len() {
        Seq::empty()
    } else if s[i] == '%' && i + 2 < s.len() && is_hex_digit(s[i + 1]) && is_hex_digit(s[i + 2]) {
        seq![(hex_value(s[i + 1]) * 16 + hex_value(s[i + 2])) as u8] + decoded_bytes(s, i + 3)
    } else {
        utf8_char(s[i]) + decoded_bytes(s, i + 1)
    }
}

fn hex_digit(c: char) -> (v: Option<u8>)
    ensures
        v matches Some(x) ==> is_hex_digit(c) && x == hex_value(c),
        v is None ==> !is_hex_digit(c),
{
    if '0' <= c && c <= '9' {
        Some(((c as u32) - ('0' as u32)) as u8)
    } else if 'a' <= c && c <= 'f' {
        Some(((c as u32) - ('a' as u32) + 10) as u8)
    } else if 'A' <= c && c <= 'F' {
        Some(((c as u32) - ('A' as u32) + 10) as u8)
    } else {
        None
    }
}

/// Decodes percent-escapes; an escape that is not `%` and two hexadecimal
/// digits stays as written, and `+` stays `+`. The decoded bytes are read
/// as UTF-8.
pub fn url_decode(s: &str) -> (decoded: String)
    ensures
        decoded@ == utf8_lossy(decoded_bytes(s@, 0)),
        forall|t: Seq<char>| utf8_encode(t) == decoded_bytes(s@, 0) ==> decoded@ == t,
{
    let chars = str_chars(s);
    let mut bytes: Vec<u8> = Vec::new();
    let mut i: usize = 0;
    while i < chars.len()
        invariant
            i <= chars@.len(),
            chars@ == s@,
            decoded_bytes(chars@, 0) == bytes@ + decoded_bytes(chars@, i as int),
        decreases chars@.len() - i,
    {
        let c = chars[i];
        if c == '%' && chars.len() >= 2 && i < chars.len() - 2 {
            match (hex_digit(chars[i + 1]), hex_digit(chars[i + 2])) {
                (Some(h), Some(l)) => {
                    let ghost before = bytes@;
                    bytes.push(h * 16 + l);
                    assert(bytes@ + decoded_bytes(chars@, i + 3) =~= before + decoded_bytes(chars@, i as int));
                    i = i + 3;
                    continue;
                },
                _ => {},
            }
        }
        let ghost before = bytes@;
        push_utf8(&mut bytes, c);
        assert(bytes@ + decoded_bytes(chars@, i + 1) =~= before + decoded_bytes(chars@, i as int));
        i = i + 1;
    }
    assert(bytes@ + Seq::<u8>::empty() =~= bytes@);
    decode_utf8_lossy(bytes.as_slice())
}

/// An uppercase hexadecimal digit.
pub open spec fn upper_hex(d: nat) -> char {
    if d < 10 {
        ((d + '0' as nat) as u32) as char
    } else {
        ((d - 10 + 'A' as nat) as u32) as char
    }
}

/// A byte left as is by form encoding.
pub open spec fn unreserved(b: u8) -> bool {
    (97 <= b <= 122) || (65 <= b <= 90) || (48 <= b <= 57) || b == 45 || b == 95 || b == 46 || b == 126
}

/// The form encoding of one byte: unreserved bytes as themselves, a space
/// as `+`, anything else as `%` and two uppercase hexadecimal digits.
pub open spec fn encoded_byte(b: u8) -> Seq<char> {
    if unreserved(b) {
        seq![(b as u32) as char]
    } else if b == 32 {
        seq!['+']
    } else {
        seq!['%', upper_hex((b / 16) as nat), upper_hex((b % 16) as nat)]
    }
}

/// The form encoding of bytes.
pub open spec fn encoded_bytes(bs: Seq<u8>) -> Seq<char>
    decreases bs.len(),
{
    if bs.len() == 0 {
        Seq::empty()
    } else {
        encoded_bytes(bs.drop_last()) + encoded_byte(bs.last())
    }
}

fn upper_hex_char(d: u8) -> (c: char)
    requires
        d < 16,
    ensures
        c == upper_hex(d as nat),
{
    if d < 10 {
        (d + 48) as char
    } else {
        (d - 10 + 65) as char
    }
}

/// Form-encodes the UTF-8 bytes of a query.
pub fn urlencoding_simple(query: &str) -> (encoded: String)
    ensures
        encoded@ == encoded_bytes(utf8_encode(query@)),
{
    let bytes = utf8_bytes(query);
    let mut out = String::new();
    let mut i: usize = 0;
    while i < bytes.len()
        invariant
            i <= bytes@.len(),
            bytes@ == utf8_encode(query@),
            out@ == encoded_bytes(bytes@.take(i as int)),
        decreases bytes@.len() - i,
    {
        let b = bytes[i];
        assert(bytes@.take(i + 1).drop_last() =~= bytes@.take(i as int));
        let ghost before = out@;
        if (97 <= b && b <= 122) || (65 <= b && b <= 90) || (48 <= b && b <= 57) || b == 45 || b == 95
            || b == 46 || b == 126 {
            push_char(&mut out, b as char);
        } else if b == 32 {
            push_char(&mut out, '+');
        } else {
            push_char(&mut out, '%');
            push_char(&mut out, upper_hex_char(b / 16));
            push_char(&mut out, upper_hex_char(b % 16));
        }
        assert(out@ =~= before + encoded_byte(b));
        i = i + 1;
    }
    assert(bytes@.take(i as int) =~= bytes@);
    out
}

proof fn lemma_decoded_suffix(s: Seq<char>, i: int, t: Seq<char>, j: int)
    requires
        0 <= i <= s.len(),
        0 <= j <= t.len(),
        s.skip(i) == t.skip(j),
    ensures
        decoded_bytes(s, i) == decoded_bytes(t, j),
    decreases s.len() - i,
{
    assert(s.skip(i).len() == s.len() - i);
    assert(t.skip(j).len() == t.len() - j);
    if i < s.len() {
        assert(s[i] == s.skip(i)[0]);
        assert(t[j] == t.skip(j)[0]);
        assert(s.skip(i + 1) =~= t.skip(j + 1)) by {
            assert forall|k: int| 0 <= k < s.skip(i + 1).len() implies #[trigger] s.skip(i + 1)[k] == t.skip(j + 1)[k] by {
                assert(s.skip(i + 1)[k] == s.skip(i)[k + 1]);
                assert(t.skip(j + 1)[k] == t.skip(j)[k + 1]);
            }
        }
        lemma_decoded_suffix(s, i + 1, t, j + 1);
        if i + 2 < s.len() {
            assert(s[i + 1] == s.skip(i)[1]);
            assert(t[j + 1] == t.skip(j)[1]);
            assert(s[i + 2] == s.skip(i)[2]);
            assert(t[j + 2] == t.skip(j)[2]);
            assert(s.skip(i + 3) =~= t.skip(j + 3)) by {
                assert forall|k: int| 0 <= k < s.skip(i + 3).len() implies #[trigger] s.skip(i + 3)[k] == t.skip(j + 3)[k] by {
                    assert(s.skip(i + 3)[k] == s.skip(i)[k + 3]);
                    assert(t.skip(j + 3)[k] == t.skip(j)[k + 3]);
                }
            }
            lemma_decoded_suffix(s, i + 3, t, j + 3);
        }
    }
}

proof fn lemma_upper_hex(d: nat)
    requires
        d < 16,
    ensures
        is_hex_digit(upper_hex(d)),
        hex_value(upper_hex(d)) == d,
{
}

proof fn lemma_encoded_concat(x: Seq<u8>, y: Seq<u8>)
    ensures
        encoded_bytes(x + y) == encoded_bytes(x) + encoded_bytes(y),
    decreases y.len(),
{
    if y.len() == 0 {
        assert(x + y =~= x);
        assert(encoded_bytes(x) + encoded_bytes(y) =~= encoded_bytes(x));
    } else {
        assert((x + y).drop_last() =~= x + y.drop_last());
        assert((x + y).last() == y.last());
        lemma_encoded_concat(x, y.drop_last());
        assert(encoded_bytes(x + y) =~= encoded_bytes(x) + encoded_bytes(y));
    }
}

proof fn lemma_decode_token(b: u8, rest: Seq<char>)
    requires
        b != 32,
    ensures
        decoded_bytes(encoded_byte(b) + rest, 0) == seq![b] + decoded_bytes(rest, 0),
{
    let e = encoded_byte(b);
    let s = e + rest;
    if unreserved(b) {
        assert(s[0] == (b as u32) as char);
        assert(s.skip(1) =~= rest.skip(0));
        lemma_decoded_suffix(s, 1, rest, 0);
        assert(utf8_char(s[0]) =~= seq![b]);
    } else {
        lemma_upper_hex((b / 16) as nat);
        lemma_upper_hex((b % 16) as nat);
        assert(s[0] == '%');
        assert(s[1] == upper_hex((b / 16) as nat));
        assert(s[2] == upper_hex((b % 16) as nat));
        assert(s.skip(3) =~= rest.skip(0));
        lemma_decoded_suffix(s, 3, rest, 0);
        assert(((b / 16) as nat * 16 + (b % 16) as nat) as u8 == b);
    }
}

/// Percent-decoding undoes form encoding for bytes that hold no space byte
/// (form encoding writes a space as `+`, which decoding leaves as it is).
pub proof fn form_encoding_round_trips(bytes: Seq<u8>)
    requires
        forall|k: int| 0 <= k < bytes.len() ==> bytes[k] != 32,
    ensures
        decoded_bytes(encoded_bytes(bytes), 0) == bytes,
    decreases bytes.len(),
{
    if bytes.len() == 0 {
        assert(encoded_bytes(bytes) =~= Seq::<char>::empty());
    } else {
        let head = seq![bytes[0]];
        let rest = bytes.drop_first();
        assert(head + rest =~= bytes);
        lemma_encoded_concat(head, rest);
        assert(head.drop_last() =~= Seq::<u8>::empty());
        assert(head.last() == bytes[0]);
        assert(encoded_bytes(Seq::<u8>::empty()) == Seq::<char>::empty());
        assert(encoded_bytes(head) =~= encoded_byte(bytes[0]));
        form_encoding_round_trips(rest);
        lemma_decode_token(bytes[0], encoded_bytes(rest));
        assert(seq![bytes[0]] + rest =~= bytes);
    }
}

/// The characters of `s` from `i` on outside `<...>` tags, `in_tag` telling
/// whether a tag is open at `i`.
pub open spec fn untagged(s: Seq<char>, i: int, in_tag: bool) -> Seq<char>
    decreases s.len() - i,
{
    if i < 0 || i >= s.len() {
        Seq::empty()
    } else if s[i] == '<' {
        untagged(s, i + 1, true)
    } else if s[i] == '>' {
        untagged(s, i + 1, false)
    } else if !in_tag {
        seq![s[i]] + untagged(s, i + 1, in_tag)
    } else {
        untagged(s, i + 1, in_tag)
    }
}

/// `s` from position `i` with every non-overlapping occurrence of `pat`
/// replaced by `rep`, left to right (`str::replace`).
pub open spec fn replaced(s: Seq<char>, pat: Seq<char>, rep: Seq<char>, i: int) -> Seq<char>
    decreases s.len() - i,
{
    if i < 0 || i >= s.len() || pat.len() == 0 {
        if 0 <= i < s.len() { s.skip(i) } else { Seq::empty() }
    } else if occurs_at(s, pat, i) {
        rep + replaced(s, pat, rep, i + pat.len())
    } else {
        seq![s[i]] + replaced(s, pat, rep, i + 1)
    }
}

/// `s` with `pat` replaced by `rep` throughout.
pub open spec fn replace_all(s: Seq<char>, pat: Seq<char>, rep: Seq<char>) -> Seq<char> {
    replaced(s, pat, rep, 0)
}

fn replace_chars(s: &Vec<char>, pat: &str, rep: &str) -> (out: Vec<char>)
    requires
        pat@.len() > 0,
    ensures
        out@ == replace_all(s@, pat@, rep@),
{
    let p = str_chars(pat);
    let r = str_chars(rep);
    let mut out: Vec<char> = Vec::new();
    let mut i: usize = 0;
    while i < s.len()
        invariant
            i <= s@.len(),
            p@ == pat@,
            r@ == rep@,
            p@.len() > 0,
            replace_all(s@, pat@, rep@) == out@ + replaced(s@, pat@, rep@, i as int),
        decreases s@.len() - i,
    {
        let ghost before = out@;
        if crate::text::matches_at(s.as_slice(), p.as_slice(), i) {
            let mut k: usize = 0;
            while k < r.len()
                invariant
                    k <= r@.len(),
                    out@ == before + r@.take(k as int),
                decreases r@.len() - k,
            {
                out.push(r[k]);
                k = k + 1;
                assert(out@ =~= before + r@.take(k as int));
            }
            assert(r@.take(k as int) =~= r@);
            assert(out@ + replaced(s@, pat@, rep@, i + p@.len()) =~= before + replaced(s@, pat@, rep@, i as int));
            i = i + p.len();
        } else {
            out.push(s[i]);
            assert(out@ + replaced(s@, pat@, rep@, i + 1) =~= before + replaced(s@, pat@, rep@, i as int));
            i = i + 1;
        }
    }
    assert(out@ + Seq::<char>::empty() =~= out@);
    out
}

/// Text with HTML tags dropped, then the entities `&quot;`, `&amp;`,
/// `&#x27;`, `&lt;` and `&gt;` replaced, in that order.
pub open spec fn html_text(html: Seq<char>) -> Seq<char> {
    let t = untagged(html, 0, false);
    replace_all(
        replace_all(
            replace_all(replace_all(replace_all(t, "&quot;"@, "\""@), "&amp;"@, "&"@), "&#x27;"@, "'"@),
            "&lt;"@,
            "<"@,
        ),
        "&gt;"@,
        ">"@,
    )
}

/// The visible text of an HTML fragment.
pub fn strip_html_tags(html: &str) -> (text: String)
    ensures
        text@ == html_text(html@),
{
    let chars = str_chars(html);
    let mut out: Vec<char> = Vec::new();
    let mut in_tag = false;
    let mut i: usize = 0;
    while i < chars.len()
        invariant
            i <= chars@.len(),
            chars@ == html@,
            untagged(chars@, 0, false) == out@ + untagged(chars@, i as int, in_tag),
        decreases chars@.len() - i,
    {
        let c = chars[i];
        let ghost before = out@;
        if c == '<' {
            in_tag = true;
        } else if c == '>' {
            in_tag = false;
        } else if !in_tag {
            out.push(c);
            assert(out@ + untagged(chars@, i + 1, in_tag) =~= before + untagged(chars@, i as int, in_tag));
        }
        i = i + 1;
    }
    assert(out@ + Seq::<char>::empty() =~= out@);
    proof {
        reveal_strlit("&quot;");
        reveal_strlit("&amp;");
        reveal_strlit("&#x27;");
        reveal_strlit("&lt;");
        reveal_strlit("&gt;");
    }
    let a = replace_chars(&out, "&quot;", "\"");
    let b = replace_chars(&a, "&amp;", "&");
    let c = replace_chars(&b, "&#x27;", "'");
    let d = replace_chars(&c, "&lt;", "<");
    let e = replace_chars(&d, "&gt;", ">");
    crate::text::string_from_chars(e.as_slice())
}

/// `value` cut to `max_chars` characters with `...` appended, where it is
/// longer.
pub open spec fn truncated(value: Seq<char>, max_chars: nat) -> Seq<char> {
    if value.len() <= max_chars {
        value
    } else {
        value.take(max_chars as int) + "..."@
    }
}

/// Cuts `value` to `max_chars` characters plus `...` where it is longer.
pub fn truncate_chars(value: &str, max_chars: usize) -> (out: String)
    ensures
        out@ == truncated(value@, max_chars as nat),
{
    let chars = str_chars(value);
    if chars.len() <= max_chars {
        return crate::text::string_from_chars(chars.as_slice());
    }
    let mut out = crate::text::string_from_range(chars.as_slice(), 0, max_chars);
    assert(chars@.subrange(0, max_chars as int) =~= chars@.take(max_chars as int));
    push_str(&mut out, "...");
    out
}

} // verus!
