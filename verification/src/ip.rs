//! IP addresses: parsing the textual forms std accepts, displaying them in
//! canonical form, and telling public addresses from private, reserved and
//! documentation ones.

use crate::text::{
    all_digits, char_views, decimal, digits_value, find_from, first_occurrence, is_digit,
    lemma_first_occurrence, lemma_no_occurrence, lemma_pieces_nonempty, occurs_at, pieces,
    push_char, push_decimal, push_str, split_pieces, str_chars, Separator,
};
use vstd::prelude::*;

verus! {

/// An IP address: four octets, or eight 16-bit segments.
#[derive(Debug, Clone, Copy, PartialEq, Eq, Structural)]
pub enum IpAddress {
    V4(u8, u8, u8, u8),
    V6(u16, u16, u16, u16, u16, u16, u16, u16),
}

/// One decimal octet of a dotted address: one to three digits, no leading
/// zero, at most 255.
pub open spec fn dec_octet(p: Seq<char>) -> Option<u8> {
    if 1 <= p.len() <= 3 && all_digits(p) && (p.len() == 1 || p[0] != '0') && digits_value(p) <= 255 {
        Some(digits_value(p) as u8)
    } else {
        None
    }
}

/// The octets of a dotted IPv4 address.
pub open spec fn ipv4_octets(s: Seq<char>) -> Option<(u8, u8, u8, u8)> {
    let ps = pieces(s, Separator::Dot);
    if ps.len() == 4 {
        match (dec_octet(ps[0]), dec_octet(ps[1]), dec_octet(ps[2]), dec_octet(ps[3])) {
            (Some(a), Some(b), Some(c), Some(d)) => Some((a, b, c, d)),
            _ => None,
        }
    } else {
        None
    }
}

/// `c` is an ASCII hexadecimal digit.
pub open spec fn is_hex_digit(c: char) -> bool {
    is_digit(c) || ('a' <= c && c <= 'f') || ('A' <= c && c <= 'F')
}

/// The value of a hexadecimal digit.
pub open spec fn hex_value(c: char) -> nat {
    if is_digit(c) {
        (c as u32 - '0' as u32) as nat
    } else if 'a' <= c && c <= 'f' {
        (c as u32 - 'a' as u32 + 10) as nat
    } else {
        (c as u32 - 'A' as u32 + 10) as nat
    }
}

/// The number written by a string of hexadecimal digits.
pub open spec fn hex_digits_value(s: Seq<char>) -> nat
    decreases s.len(),
{
    if s.len() == 0 {
        0
    } else {
        hex_digits_value(s.drop_last()) * 16 + hex_value(s.last())
    }
}

/// One group of an IPv6 address: one to four hexadecimal digits.
pub open spec fn hex_group(p: Seq<char>) -> Option<u16> {
    if 1 <= p.len() <= 4 && (forall|i: int| 0 <= i < p.len() ==> is_hex_digit(#[trigger] p[i])) {
        Some(hex_digits_value(p) as u16)
    } else {
        None
    }
}

/// The groups written by `ps`, every piece a hexadecimal group.
pub open spec fn hex_groups(ps: Seq<Seq<char>>) -> Option<Seq<u16>>
    decreases ps.len(),
{
    if ps.len() == 0 {
        Some(Seq::empty())
    } else {
        match (hex_groups(ps.drop_last()), hex_group(ps.last())) {
            (Some(g), Some(x)) => Some(g.push(x)),
            _ => None,
        }
    }
}

/// The groups written by one side of an IPv6 address: nothing for an empty
/// text, else colon-separated groups, the last of which may be a dotted IPv4
/// address (two groups) where `allow_v4`.
pub open spec fn v6_part(text: Seq<char>, allow_v4: bool) -> Option<Seq<u16>> {
    if text.len() == 0 {
        Some(Seq::empty())
    } else {
        let ps = pieces(text, Separator::Colon);
        let tail_v4 = ipv4_octets(ps.last());
        if allow_v4 && tail_v4 is Some {
            let (a, b, c, d) = tail_v4->0;
            match hex_groups(ps.drop_last()) {
                Some(g) => Some(g.push((a as int * 256 + b as int) as u16).push((c as int * 256 + d as int) as u16)),
                None => None,
            }
        } else {
            hex_groups(ps)
        }
    }
}


/// The eight groups of an IPv6 address: eight groups, or fewer around one
/// `::` that stands for one or more zero groups.
pub open spec fn ipv6_groups(s: Seq<char>) -> Option<Seq<u16>> {
    match first_occurrence(s, "::"@, 0) {
        None => match v6_part(s, true) {
            Some(g) => if g.len() == 8 {
                Some(g)
            } else {
                None
            },
            None => None,
        },
        Some(k) => match (v6_part(s.take(k), false), v6_part(s.skip(k + 2), true)) {
            (Some(h), Some(t)) => if h.len() + t.len() <= 7 {
                Some(h + Seq::new((8 - h.len() - t.len()) as nat, |i: int| 0u16) + t)
            } else {
                None
            },
            _ => None,
        },
    }
}

/// What std's `IpAddr` parser makes of a text: a dotted IPv4 address, else
/// an IPv6 address.
pub open spec fn ip_parse(s: Seq<char>) -> Option<IpAddress> {
    match ipv4_octets(s) {
        Some((a, b, c, d)) => Some(IpAddress::V4(a, b, c, d)),
        None => match ipv6_groups(s) {
            Some(g) => Some(IpAddress::V6(g[0], g[1], g[2], g[3], g[4], g[5], g[6], g[7])),
            None => None,
        },
    }
}

fn parse_dec_octet(p: &[char]) -> (octet: Option<u8>)
    ensures
        octet == dec_octet(p@),
{
    if p.len() < 1 || p.len() > 3 {
        return None;
    }
    if p.len() > 1 && p[0] == '0' {
        return None;
    }
    let mut value: u32 = 0;
    let mut i: usize = 0;
    while i < p.len()
        invariant
            i <= p@.len() <= 3,
            all_digits(p@.take(i as int)),
            value == digits_value(p@.take(i as int)),
            value < (if i == 0 { 1nat } else if i == 1 { 10nat } else if i == 2 { 100nat } else { 1000nat }),
        decreases p@.len() - i,
    {
        let c = p[i];
        if !('0' <= c && c <= '9') {
            assert(!all_digits(p@)) by {
                assert(!is_digit(p@[i as int]));
            }
            return None;
        }
        proof {
            assert(p@.take(i + 1).drop_last() =~= p@.take(i as int));
            assert forall|j: int| 0 <= j < i + 1 implies is_digit(#[trigger] p@.take(i + 1)[j]) by {
                if j < i {
                    assert(p@.take(i + 1)[j] == p@.take(i as int)[j]);
                }
            }
            if i == 0 {
                assert(p@.take(0).len() == 0);
            }
        }
        value = value * 10 + ((c as u32) - ('0' as u32));
        i = i + 1;
    }
    assert(p@.take(i as int) =~= p@);
    if value <= 255 {
        Some(value as u8)
    } else {
        None
    }
}

/// Parses a dotted IPv4 address.
pub fn parse_ipv4(chars: &[char]) -> (octets: Option<(u8, u8, u8, u8)>)
    ensures
        octets == ipv4_octets(chars@),
{
    let parts = split_pieces(chars, Separator::Dot);
    if parts.len() != 4 {
        return None;
    }
    proof {
        assert(char_views(parts@)[0] == parts@[0]@);
        assert(char_views(parts@)[1] == parts@[1]@);
        assert(char_views(parts@)[2] == parts@[2]@);
        assert(char_views(parts@)[3] == parts@[3]@);
    }
    let a = parse_dec_octet(parts[0].as_slice());
    let b = parse_dec_octet(parts[1].as_slice());
    let c = parse_dec_octet(parts[2].as_slice());
    let d = parse_dec_octet(parts[3].as_slice());
    match (a, b, c, d) {
        (Some(a), Some(b), Some(c), Some(d)) => Some((a, b, c, d)),
        _ => None,
    }
}

fn hex_digit_value(c: char) -> (v: Option<u32>)
    ensures
        v matches Some(x) ==> is_hex_digit(c) && x == hex_value(c) && x < 16,
        v is None ==> !is_hex_digit(c),
{
    if '0' <= c && c <= '9' {
        Some((c as u32) - ('0' as u32))
    } else if 'a' <= c && c <= 'f' {
        Some((c as u32) - ('a' as u32) + 10)
    } else if 'A' <= c && c <= 'F' {
        Some((c as u32) - ('A' as u32) + 10)
    } else {
        None
    }
}

fn parse_hex_group(p: &[char]) -> (group: Option<u16>)
    ensures
        group == hex_group(p@),
{
    if p.len() < 1 || p.len() > 4 {
        return None;
    }
    let mut value: u32 = 0;
    let mut i: usize = 0;
    while i < p.len()
        invariant
            i <= p@.len() <= 4,
            forall|j: int| 0 <= j < i ==> is_hex_digit(#[trigger] p@[j]),
            value == hex_digits_value(p@.take(i as int)),
            value < 65536,
            i == 0 ==> value == 0,
            value < (if i == 0 { 1nat } else if i == 1 { 16nat } else if i == 2 { 256nat } else if i == 3 { 4096nat } else { 65536nat }),
        decreases p@.len() - i,
    {
        let d = match hex_digit_value(p[i]) {
            Some(d) => d,
            None => {
                return None;
            },
        };
        proof {
            assert(p@.take(i + 1).drop_last() =~= p@.take(i as int));
            if i == 0 {
                assert(p@.take(0).len() == 0);
            }
        }
        value = value * 16 + d;
        i = i + 1;
    }
    assert(p@.take(i as int) =~= p@);
    Some(value as u16)
}

/// The groups of `ps@[0..count)` where each is a hexadecimal group.
fn parse_hex_groups(ps: &Vec<Vec<char>>, count: usize) -> (groups: Option<Vec<u16>>)
    requires
        count <= ps@.len(),
    ensures
        match groups {
            Some(g) => hex_groups(char_views(ps@).take(count as int)) == Some(g@),
            None => hex_groups(char_views(ps@).take(count as int)) is None,
        },
{
    let mut out: Vec<u16> = Vec::new();
    let mut i: usize = 0;
    assert(char_views(ps@).take(0) =~= Seq::<Seq<char>>::empty());
    while i < count
        invariant
            i <= count <= ps@.len(),
            hex_groups(char_views(ps@).take(i as int)) == Some(out@),
        decreases count - i,
    {
        proof {
            assert(char_views(ps@).take(i + 1).drop_last() =~= char_views(ps@).take(i as int));
            assert(char_views(ps@).take(i + 1).last() == ps@[i as int]@);
        }
        match parse_hex_group(ps[i].as_slice()) {
            Some(g) => out.push(g),
            None => {
                proof {
                    lemma_hex_groups_prefix_fails(char_views(ps@).take(count as int), i as int);
                    assert(char_views(ps@).take(count as int).take(i + 1) =~= char_views(ps@).take(i + 1));
                }
                return None;
            },
        }
        i = i + 1;
    }
    Some(out)
}

proof fn lemma_hex_groups_prefix_fails(ps: Seq<Seq<char>>, i: int)
    requires
        0 <= i < ps.len(),
        hex_groups(ps.take(i + 1)) is None,
    ensures
        hex_groups(ps) is None,
    decreases ps.len(),
{
    if ps.len() > i + 1 {
        assert(ps.drop_last().take(i + 1) =~= ps.take(i + 1));
        lemma_hex_groups_prefix_fails(ps.drop_last(), i);
    } else {
        assert(ps.take(i + 1) =~= ps);
    }
}

fn parse_v6_part(text: &[char], allow_v4: bool) -> (groups: Option<Vec<u16>>)
    ensures
        match groups {
            Some(g) => v6_part(text@, allow_v4) == Some(g@),
            None => v6_part(text@, allow_v4) is None,
        },
{
    if text.len() == 0 {
        return Some(Vec::new());
    }
    let parts = split_pieces(text, Separator::Colon);
    proof {
        lemma_pieces_nonempty(text@, Separator::Colon);
    }
    let n = parts.len();
    let ghost ps = pieces(text@, Separator::Colon);
    assert(char_views(parts@).take(n as int) =~= ps);
    assert(char_views(parts@).take((n - 1) as int) =~= ps.drop_last());
    assert(ps.last() == parts@[n - 1]@);
    let v4 = parse_ipv4(parts[n - 1].as_slice());
    match v4 {
        Some((a, b, c, d)) => {
            if allow_v4 {
                match parse_hex_groups(&parts, n - 1) {
                    Some(mut g) => {
                        g.push((a as u16) * 256 + b as u16);
                        g.push((c as u16) * 256 + d as u16);
                        return Some(g);
                    },
                    None => {
                        return None;
                    },
                }
            }
        },
        None => {},
    }
    parse_hex_groups(&parts, n)
}

/// Parses an IPv6 address into its eight groups.
pub fn parse_ipv6(chars: &[char]) -> (groups: Option<Vec<u16>>)
    ensures
        match groups {
            Some(g) => ipv6_groups(chars@) == Some(g@) && g@.len() == 8,
            None => ipv6_groups(chars@) is None,
        },
{
    let pattern = str_chars("::");
    proof {
        reveal_strlit("::");
    }
    assert(pattern@.len() == 2);
    let found = find_from(chars, pattern.as_slice(), 0);
    match found {
        None => {
            proof {
                lemma_no_occurrence(chars@, pattern@, 0);
            }
            match parse_v6_part(chars, true) {
                Some(g) => if g.len() == 8 {
                    Some(g)
                } else {
                    None
                },
                None => None,
            }
        },
        Some(k) => {
            proof {
                lemma_first_occurrence(chars@, pattern@, 0, k as int);
            }
            assert(k + 2 <= chars@.len()) by {
                assert(occurs_at(chars@, pattern@, k as int));
            }
            let len = chars.len();
            assert(k + 2 <= len);
            let head = crate::text::slice_range(chars, 0, k);
            let tail = crate::text::slice_range(chars, k + 2, len);
            assert(head@ =~= chars@.take(k as int));
            assert(tail@ =~= chars@.skip(k + 2));
            let h = parse_v6_part(head.as_slice(), false);
            let t = parse_v6_part(tail.as_slice(), true);
            match (h, t) {
                (Some(h), Some(t)) => {
                    if h.len() <= 7 && t.len() <= 7 - h.len() {
                        let mut g: Vec<u16> = Vec::new();
                        let mut i: usize = 0;
                        while i < h.len()
                            invariant
                                i <= h@.len(),
                                g@ =~= h@.take(i as int),
                            decreases h@.len() - i,
                        {
                            g.push(h[i]);
                            i = i + 1;
                        }
                        let zeros: usize = 8 - h.len() - t.len();
                        let mut z: usize = 0;
                        while z < zeros
                            invariant
                                z <= zeros,
                                zeros == 8 - h@.len() - t@.len(),
                                g@ =~= h@ + Seq::new(z as nat, |i: int| 0u16),
                            decreases zeros - z,
                        {
                            g.push(0);
                            z = z + 1;
                        }
                        let mut j: usize = 0;
                        while j < t.len()
                            invariant
                                j <= t@.len(),
                                zeros == 8 - h@.len() - t@.len(),
                                g@ =~= h@ + Seq::new(zeros as nat, |i: int| 0u16) + t@.take(j as int),
                            decreases t@.len() - j,
                        {
                            g.push(t[j]);
                            j = j + 1;
                        }
                        assert(t@.take(j as int) =~= t@);
                        Some(g)
                    } else {
                        None
                    }
                },
                _ => None,
            }
        },
    }
}



/// Parses an IPv4 or IPv6 address as std's `IpAddr` parser does.
pub fn parse_ip(text: &str) -> (ip: Option<IpAddress>)
    ensures
        ip == ip_parse(text@),
{
    let chars = str_chars(text);
    match parse_ipv4(chars.as_slice()) {
        Some((a, b, c, d)) => Some(IpAddress::V4(a, b, c, d)),
        None => match parse_ipv6(chars.as_slice()) {
            Some(g) => Some(IpAddress::V6(g[0], g[1], g[2], g[3], g[4], g[5], g[6], g[7])),
            None => None,
        },
    }
}

/// A public IPv4 address: not unspecified, loopback, private, link-local,
/// multicast or broadcast, and not in shared address space (100.64/10), the
/// IETF block (192.0.0/24), a documentation block (192.0.2/24,
/// 198.51.100/24, 203.0.113/24), the benchmarking block (198.18/15) or the
/// reserved range from 240/4.
pub open spec fn public_v4(a: u8, b: u8, c: u8, d: u8) -> bool {
    !((a == 0 && b == 0 && c == 0 && d == 0) || a == 127 || a == 10 || (a == 172 && 16 <= b <= 31)
        || (a == 192 && b == 168) || (a == 169 && b == 254) || (224 <= a <= 239) || (a == 255 && b
        == 255 && c == 255 && d == 255) || (a == 100 && 64 <= b <= 127) || (a == 192 && b == 0 && c
        == 0) || (a == 192 && b == 0 && c == 2) || (a == 198 && (b == 18 || b == 19)) || (a == 198
        && b == 51 && c == 100) || (a == 203 && b == 0 && c == 113) || a >= 240)
}

/// A public IPv6 address: not unspecified, loopback or multicast, and not a
/// unique-local (fc00::/7), link-local (fe80::/10) or documentation
/// (2001:db8::/32) address.
pub open spec fn public_v6(s0: u16, s1: u16, s2: u16, s3: u16, s4: u16, s5: u16, s6: u16, s7: u16) -> bool {
    let zero_middle = s1 == 0 && s2 == 0 && s3 == 0 && s4 == 0 && s5 == 0 && s6 == 0;
    !((s0 == 0 && zero_middle && s7 == 0) || (s0 == 0 && zero_middle && s7 == 1) || 0xff00 <= s0
        || (0xfc00 <= s0 <= 0xfdff) || (0xfe80 <= s0 <= 0xfebf) || (s0 == 0x2001 && s1 == 0x0db8))
}

/// A public address of either family.
pub open spec fn public_ip(ip: IpAddress) -> bool {
    match ip {
        IpAddress::V4(a, b, c, d) => public_v4(a, b, c, d),
        IpAddress::V6(s0, s1, s2, s3, s4, s5, s6, s7) => public_v6(s0, s1, s2, s3, s4, s5, s6, s7),
    }
}

/// Whether an address is publicly routable.
pub fn is_public_ip(ip: IpAddress) -> (public: bool)
    ensures
        public == public_ip(ip),
{
    match ip {
        IpAddress::V4(a, b, c, d) => !((a == 0 && b == 0 && c == 0 && d == 0) || a == 127 || a == 10 || (a
            == 172 && 16 <= b && b <= 31) || (a == 192 && b == 168) || (a == 169 && b == 254) || (224 <= a
            && a <= 239) || (a == 255 && b == 255 && c == 255 && d == 255) || (a == 100 && 64 <= b && b
            <= 127) || (a == 192 && b == 0 && c == 0) || (a == 192 && b == 0 && c == 2) || (a == 198 && (b
            == 18 || b == 19)) || (a == 198 && b == 51 && c == 100) || (a == 203 && b == 0 && c == 113)
            || a >= 240),
        IpAddress::V6(s0, s1, s2, s3, s4, s5, s6, s7) => {
            let zero_middle = s1 == 0 && s2 == 0 && s3 == 0 && s4 == 0 && s5 == 0 && s6 == 0;
            !((s0 == 0 && zero_middle && s7 == 0) || (s0 == 0 && zero_middle && s7 == 1) || 0xff00 <= s0
                || (0xfc00 <= s0 && s0 <= 0xfdff) || (0xfe80 <= s0 && s0 <= 0xfebf) || (s0 == 0x2001
                && s1 == 0x0db8))
        },
    }
}

/// A lowercase hexadecimal digit.
pub open spec fn hex_char(d: nat) -> char {
    if d < 10 {
        ((d + '0' as nat) as u32) as char
    } else {
        ((d - 10 + 'a' as nat) as u32) as char
    }
}

/// Lowercase hexadecimal without leading zeros (`{:x}`).
pub open spec fn hex_text(n: nat) -> Seq<char>
    decreases n,
{
    if n < 16 {
        seq![hex_char(n)]
    } else {
        hex_text(n / 16).push(hex_char(n % 16))
    }
}

/// Groups in hexadecimal, joined by `:`.
pub open spec fn joined_hex(g: Seq<u16>) -> Seq<char>
    decreases g.len(),
{
    if g.len() == 0 {
        Seq::empty()
    } else if g.len() == 1 {
        hex_text(g[0] as nat)
    } else {
        joined_hex(g.drop_last()).push(':') + hex_text(g.last() as nat)
    }
}

/// Scan state after the first `n` groups: start and length of the first
/// longest run of zero groups, then of the current run.
pub open spec fn zero_scan(g: Seq<u16>, n: nat) -> (nat, nat, nat, nat)
    decreases n,
{
    if n == 0 {
        (0, 0, 0, 0)
    } else {
        let (ls, ll, cs, cl) = zero_scan(g, (n - 1) as nat);
        let i = (n - 1) as nat;
        if g[i as int] == 0 {
            let cs2 = if cl == 0 { i } else { cs };
            let cl2 = cl + 1;
            if cl2 > ll {
                (cs2, cl2, cs2, cl2)
            } else {
                (ls, ll, cs2, cl2)
            }
        } else {
            (ls, ll, 0, 0)
        }
    }
}

/// Dotted-decimal IPv4 text.
pub open spec fn v4_text(a: u8, b: u8, c: u8, d: u8) -> Seq<char> {
    decimal(a as nat).push('.') + decimal(b as nat).push('.') + decimal(c as nat).push('.') + decimal(
        d as nat,
    )
}

/// Canonical IPv6 text: an IPv4-mapped address as `::ffff:a.b.c.d`, else
/// the groups in hexadecimal with the first longest run of two or more zero
/// groups written `::`.
pub open spec fn v6_text(g: Seq<u16>) -> Seq<char> {
    if g[0] == 0 && g[1] == 0 && g[2] == 0 && g[3] == 0 && g[4] == 0 && g[5] == 0xffff {
        "::ffff:"@ + v4_text((g[6] / 256) as u8, (g[6] % 256) as u8, (g[7] / 256) as u8, (g[7] % 256) as u8)
    } else {
        let (ls, ll, cs, cl) = zero_scan(g, 8);
        if ll > 1 {
            joined_hex(g.take(ls as int)) + "::"@ + joined_hex(g.skip((ls + ll) as int))
        } else {
            joined_hex(g)
        }
    }
}

/// How std displays an address.
pub open spec fn ip_display(ip: IpAddress) -> Seq<char> {
    match ip {
        IpAddress::V4(a, b, c, d) => v4_text(a, b, c, d),
        IpAddress::V6(s0, s1, s2, s3, s4, s5, s6, s7) => v6_text(seq![s0, s1, s2, s3, s4, s5, s6, s7]),
    }
}

fn hex_digit_char(d: u16) -> (c: char)
    requires
        d < 16,
    ensures
        c == hex_char(d as nat),
{
    if d < 10 {
        let b: u8 = (d as u8) + 48;
        b as char
    } else {
        let b: u8 = (d as u8) - 10 + 97;
        b as char
    }
}

fn push_hex(out: &mut String, n: u16)
    ensures
        final(out)@ == old(out)@ + hex_text(n as nat),
    decreases n,
{
    if n < 16 {
        push_char(out, hex_digit_char(n));
    } else {
        push_hex(out, n / 16);
        push_char(out, hex_digit_char(n % 16));
    }
}

fn push_joined_hex(out: &mut String, g: &[u16], from: usize, to: usize)
    requires
        from <= to <= g@.len(),
    ensures
        final(out)@ == old(out)@ + joined_hex(g@.subrange(from as int, to as int)),
{
    let mut i: usize = from;
    assert(g@.subrange(from as int, from as int) =~= Seq::<u16>::empty());
    while i < to
        invariant
            from <= i <= to <= g@.len(),
            out@ == old(out)@ + joined_hex(g@.subrange(from as int, i as int)),
        decreases to - i,
    {
        let ghost before = out@;
        if i > from {
            push_char(out, ':');
        }
        push_hex(out, g[i]);
        proof {
            let next = g@.subrange(from as int, i + 1);
            assert(next.drop_last() =~= g@.subrange(from as int, i as int));
            assert(next.last() == g@[i as int]);
            if i == from {
                assert(next.len() == 1);
                assert(out@ =~= old(out)@ + joined_hex(next));
            } else {
                assert(out@ =~= old(out)@ + joined_hex(next));
            }
        }
        i = i + 1;
    }
}

fn push_v4(out: &mut String, a: u8, b: u8, c: u8, d: u8)
    ensures
        final(out)@ == old(out)@ + v4_text(a, b, c, d),
{
    push_decimal(out, a as u64);
    push_char(out, '.');
    push_decimal(out, b as u64);
    push_char(out, '.');
    push_decimal(out, c as u64);
    push_char(out, '.');
    push_decimal(out, d as u64);
    assert(out@ =~= old(out)@ + v4_text(a, b, c, d));
}

/// Displays an address in its canonical text form.
pub fn ip_to_string(ip: &IpAddress) -> (text: String)
    ensures
        text@ == ip_display(*ip),
{
    let mut out = String::new();
    match *ip {
        IpAddress::V4(a, b, c, d) => {
            push_v4(&mut out, a, b, c, d);
        },
        IpAddress::V6(s0, s1, s2, s3, s4, s5, s6, s7) => {
            let g: Vec<u16> = vec![s0, s1, s2, s3, s4, s5, s6, s7];
            assert(g@ =~= seq![s0, s1, s2, s3, s4, s5, s6, s7]);
            if s0 == 0 && s1 == 0 && s2 == 0 && s3 == 0 && s4 == 0 && s5 == 0xffff {
                push_str(&mut out, "::ffff:");
                push_v4(&mut out, (s6 / 256) as u8, (s6 % 256) as u8, (s7 / 256) as u8, (s7 % 256) as u8);
            } else {
                let mut ls: usize = 0;
                let mut ll: usize = 0;
                let mut cs: usize = 0;
                let mut cl: usize = 0;
                let mut i: usize = 0;
                while i < 8
                    invariant
                        i <= 8,
                        g@.len() == 8,
                        (ls as nat, ll as nat, cs as nat, cl as nat) == zero_scan(g@, i as nat),
                        ls + ll <= i,
                        cs + cl <= i,
                    decreases 8 - i,
                {
                    if g[i] == 0 {
                        if cl == 0 {
                            cs = i;
                        }
                        cl = cl + 1;
                        if cl > ll {
                            ls = cs;
                            ll = cl;
                        }
                    } else {
                        cs = 0;
                        cl = 0;
                    }
                    i = i + 1;
                }
                if ll > 1 {
                    push_joined_hex(&mut out, g.as_slice(), 0, ls);
                    push_str(&mut out, "::");
                    push_joined_hex(&mut out, g.as_slice(), ls + ll, 8);
                    assert(g@.subrange(0, ls as int) =~= g@.take(ls as int));
                    assert(g@.subrange((ls + ll) as int, 8) =~= g@.skip((ls + ll) as int));
                } else {
                    push_joined_hex(&mut out, g.as_slice(), 0, 8);
                    assert(g@.subrange(0, 8) =~= g@);
                }
            }
        },
    }
    assert(Seq::<char>::empty() + ip_display(*ip) =~= ip_display(*ip));
    out
}





} // verus!
