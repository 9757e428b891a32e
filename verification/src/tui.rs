//! Terminal text helpers: stripping escape sequences and padding to a display
//! width.

use crate::presentation::{display_width_str, str_width};
use crate::text::{push_char, str_chars};
use vstd::prelude::*;

verus! {

/// The escape character that opens a terminal control sequence.
pub const ESCAPE: char = '\u{1b}';

/// Where the scan for control sequences stands.
#[derive(PartialEq, Eq, Structural, Clone, Copy)]
pub enum AnsiScan {
    /// Ordinary text.
    Text,
    /// Just after an escape character.
    Escape,
    /// Inside a control sequence (`ESC [`), until its final character.
    Sequence,
}

/// A control sequence ends with a character in `'@'..='~'`.
pub open spec fn is_sequence_final(c: char) -> bool {
    0x40 <= (c as u32) && (c as u32) <= 0x7e
}

/// One character of the scan: text is kept; `ESC [` opens a control sequence
/// that is dropped through its final character; an escape character that
/// opens no sequence is kept.
pub open spec fn scan_step(state: (AnsiScan, Seq<char>), c: char) -> (AnsiScan, Seq<char>) {
    match state.0 {
        AnsiScan::Text => if c == ESCAPE {
            (AnsiScan::Escape, state.1)
        } else {
            (AnsiScan::Text, state.1.push(c))
        },
        AnsiScan::Escape => if c == '[' {
            (AnsiScan::Sequence, state.1)
        } else if c == ESCAPE {
            (AnsiScan::Escape, state.1.push(ESCAPE))
        } else {
            (AnsiScan::Text, state.1.push(ESCAPE).push(c))
        },
        AnsiScan::Sequence => if is_sequence_final(c) {
            (AnsiScan::Text, state.1)
        } else {
            (AnsiScan::Sequence, state.1)
        },
    }
}

/// The scan over all of `s`, from ordinary text.
pub open spec fn ansi_scan(s: Seq<char>) -> (AnsiScan, Seq<char>)
    decreases s.len(),
{
    if s.len() == 0 {
        (AnsiScan::Text, Seq::empty())
    } else {
        scan_step(ansi_scan(s.drop_last()), s.last())
    }
}

/// `s` without its control sequences; an escape character left pending at
/// the end is kept.
pub open spec fn stripped_ansi(s: Seq<char>) -> Seq<char> {
    let done = ansi_scan(s);
    if done.0 == AnsiScan::Escape {
        done.1.push(ESCAPE)
    } else {
        done.1
    }
}

fn is_final_char(c: char) -> (b: bool)
    ensures
        b == is_sequence_final(c),
{
    '@' <= c && c <= '~'
}

/// `value` with its terminal control sequences (`ESC [ ... final`) removed.
pub fn strip_ansi(value: &str) -> (clean: String)
    ensures
        clean@ == stripped_ansi(value@),
{
    let chars = str_chars(value);
    let mut out = String::new();
    let mut state = AnsiScan::Text;
    let mut i: usize = 0;
    while i < chars.len()
        invariant
            i <= chars@.len(),
            chars@ == value@,
            (state, out@) == ansi_scan(chars@.take(i as int)),
        decreases chars@.len() - i,
    {
        let c = chars[i];
        proof {
            assert(chars@.take(i + 1).drop_last() =~= chars@.take(i as int));
            assert(chars@.take(i + 1).last() == c);
        }
        match state {
            AnsiScan::Text => {
                if c == ESCAPE {
                    state = AnsiScan::Escape;
                } else {
                    push_char(&mut out, c);
                }
            },
            AnsiScan::Escape => {
                if c == '[' {
                    state = AnsiScan::Sequence;
                } else if c == ESCAPE {
                    push_char(&mut out, ESCAPE);
                } else {
                    push_char(&mut out, ESCAPE);
                    push_char(&mut out, c);
                    state = AnsiScan::Text;
                }
            },
            AnsiScan::Sequence => {
                if is_final_char(c) {
                    state = AnsiScan::Text;
                }
            },
        }
        i = i + 1;
    }
    assert(chars@.take(chars@.len() as int) =~= chars@);
    if state == AnsiScan::Escape {
        push_char(&mut out, ESCAPE);
    }
    out
}

/// The display width of `value` once its control sequences are removed.
pub fn visible_width(value: &str) -> (width: usize)
    ensures
        width == str_width(stripped_ansi(value@)),
{
    let clean = strip_ansi(value);
    display_width_str(clean.as_str())
}

/// `n` spaces.
pub open spec fn spaces(n: nat) -> Seq<char> {
    Seq::new(n, |i: int| ' ')
}

/// Appends `n` spaces to `out`.
pub fn push_spaces(out: &mut String, n: usize)
    ensures
        final(out)@ == old(out)@ + spaces(n as nat),
{
    let ghost start = out@;
    let mut i: usize = 0;
    while i < n
        invariant
            i <= n,
            out@ == start + spaces(i as nat),
        decreases n - i,
    {
        push_char(out, ' ');
        i = i + 1;
        assert(out@ =~= start + spaces(i as nat));
    }
}

/// `s` filled out with spaces to `width` display columns; left as it is where
/// it is already that wide.
pub open spec fn padded(s: Seq<char>, width: nat) -> Seq<char> {
    if str_width(s) >= width {
        s
    } else {
        s + spaces((width - str_width(s)) as nat)
    }
}

/// `value` padded with spaces to `width` display columns.
pub fn pad_to_width(value: &str, width: usize) -> (out: String)
    ensures
        out@ == padded(value@, width as nat),
{
    let current = display_width_str(value);
    let mut out = value.to_string();
    if current < width {
        push_spaces(&mut out, width - current);
    }
    out
}

} // verus!
