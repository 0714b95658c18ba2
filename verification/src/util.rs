//! How a piece of text is shown in a line of diagnostics.

use crate::text::{char_text, pop_char};
use vstd::prelude::*;
use vstd::string::{StrSliceExecFns, StringExecFns};

verus! {

/// The digit that stands for `v` in hexadecimal notation, with small letters.
pub open spec fn hex_digit(v: nat) -> char {
    if v < 10 {
        ('0' as u8 + v as u8) as char
    } else {
        ('a' as u8 + (v - 10) as u8) as char
    }
}

/// The hexadecimal notation of `v`, without leading zeros.
pub open spec fn hex_of(v: nat) -> Seq<char>
    decreases v,
{
    if v < 16 {
        seq![hex_digit(v)]
    } else {
        hex_of(v / 16).push(hex_digit(v % 16))
    }
}

/// How the character `c` is shown: a tab, a carriage return, a newline and a
/// backslash behind a backslash, any other printable ASCII character as it
/// is, and every other character by its number.
pub open spec fn escape_char(c: char) -> Seq<char> {
    if c == '\t' {
        seq!['\\', 't']
    } else if c == '\r' {
        seq!['\\', 'r']
    } else if c == '\n' {
        seq!['\\', 'n']
    } else if c == '\\' {
        seq!['\\', '\\']
    } else if ' ' <= c <= '~' {
        seq![c]
    } else {
        seq!['\\', 'u', '{'] + hex_of(c as nat) + seq!['}']
    }
}

/// How the text `s` is shown: each of its characters as it is shown.
pub open spec fn escape_all(s: Seq<char>) -> Seq<char>
    decreases s.len(),
{
    if s.len() == 0 {
        Seq::empty()
    } else {
        escape_all(s.drop_last()) + escape_char(s.last())
    }
}

/// The first characters of `s`, at most `width` of them.
pub open spec fn clipped(s: Seq<char>, width: nat) -> Seq<char> {
    if s.len() > width {
        s.take(width as int)
    } else {
        s
    }
}

/// `n` spaces.
pub open spec fn blanks(n: nat) -> Seq<char> {
    Seq::new(n, |i: int| ' ')
}

/// The text `s` as [`formatter_str`] shows it: at most 33 characters of what
/// `s` is shown as, between two bars, and spaces behind them up to a width of
/// 35.
pub open spec fn formatted(s: Seq<char>) -> Seq<char> {
    let shown = clipped(escape_all(s), 33);
    seq!['|'] + shown + seq!['|'] + blanks((33 - shown.len()) as nat)
}

/// The hexadecimal digit for `v`.
fn hex_digit_of(v: u32) -> (c: char)
    requires
        v < 16,
    ensures
        c == hex_digit(v as nat),
{
    if v < 10 {
        (48u8 + v as u8) as char
    } else {
        (97u8 + (v - 10) as u8) as char
    }
}

/// Appends the hexadecimal notation of `v` to `out`.
fn push_hex(out: &mut String, v: u32)
    ensures
        final(out)@ == old(out)@ + hex_of(v as nat),
    decreases v,
{
    if v >= 16 {
        push_hex(out, v / 16);
    }
    let digit = char_text(hex_digit_of(v % 16));
    out.append(digit.as_str());
    proof {
        if v >= 16 {
            assert(old(out)@ + hex_of((v / 16) as nat) + seq![hex_digit((v % 16) as nat)] =~= old(
                out,
            )@ + hex_of((v / 16) as nat).push(hex_digit((v % 16) as nat)));
        }
    }
}

/// Appends to `out` how the character `c` is shown.
fn push_escaped(out: &mut String, c: char)
    ensures
        final(out)@ == old(out)@ + escape_char(c),
{
    proof {
        reveal_strlit("\\t");
        reveal_strlit("\\r");
        reveal_strlit("\\n");
        reveal_strlit("\\\\");
        reveal_strlit("\\u{");
        reveal_strlit("}");
    }
    if c == '\t' {
        out.append("\\t");
    } else if c == '\r' {
        out.append("\\r");
    } else if c == '\n' {
        out.append("\\n");
    } else if c == '\\' {
        out.append("\\\\");
    } else if ' ' <= c && c <= '~' {
        let one = char_text(c);
        out.append(one.as_str());
    } else {
        out.append("\\u{");
        push_hex(out, c as u32);
        out.append("}");
        proof {
            assert(old(out)@ + "\\u{"@ + hex_of(c as nat) + "}"@ =~= old(out)@ + (seq![
                '\\',
                'u',
                '{',
            ] + hex_of(c as nat) + seq!['}']));
        }
    }
}

/// What is shown of a longer text starts with what is shown of its head.
proof fn lemma_escape_grows(s: Seq<char>, k: int)
    requires
        0 <= k <= s.len(),
    ensures
        escape_all(s.take(k)).is_prefix_of(escape_all(s)),
        escape_all(s.take(k)).len() >= k,
    decreases s.len() - k,
{
    if k == s.len() {
        assert(s.take(k) =~= s);
        lemma_escape_len(s);
    } else {
        lemma_escape_grows(s, k + 1);
        let longer = s.take(k + 1);
        assert(longer.drop_last() =~= s.take(k));
        lemma_escape_len(s.take(k));
    }
}

/// Every character is shown by at least one character.
proof fn lemma_escape_len(s: Seq<char>)
    ensures
        escape_all(s).len() >= s.len(),
    decreases s.len(),
{
    if s.len() > 0 {
        lemma_escape_len(s.drop_last());
    }
}

/// Shows `c` in a line of diagnostics: at most 33 characters of it, control
/// characters and characters outside ASCII written out, between two bars and
/// padded with spaces to a width of 35.
pub fn formatter_str(c: &str) -> (line: String)
    ensures
        line@ == formatted(c@),
{
    let mut shown = String::new();
    let mut rest: &str = c;
    let ghost mut k: int = 0;
    let mut n: usize = 0;
    loop
        invariant
            0 <= k <= c@.len(),
            rest@ == c@.skip(k),
            shown@ == escape_all(c@.take(k)),
            n == k,
            n <= 33,
        ensures
            n == 33 || k == c@.len(),
        decreases c@.len() - k,
    {
        if n == 33 {
            break ;
        }
        match pop_char(rest) {
            None => {
                break ;
            },
            Some((ch, tail)) => {
                proof {
                    let longer = c@.take(k + 1);
                    assert(longer.drop_last() =~= c@.take(k));
                }
                push_escaped(&mut shown, ch);
                rest = tail;
                n = n + 1;
                proof {
                    k = k + 1;
                }
            },
        }
    }
    proof {
        lemma_escape_grows(c@, k);
        if k == c@.len() {
            assert(c@.take(k) =~= c@);
        }
    }
    let len = shown.as_str().unicode_len();
    let clip: String = if len > 33 {
        shown.as_str().substring_char(0, 33).to_owned()
    } else {
        shown
    };
    proof {
        reveal_strlit("|");
        reveal_strlit(" ");
    }
    let shown_len = clip.as_str().unicode_len();
    let mut line = String::from_str("|").concat(clip.as_str()).concat("|");
    let mut pad: usize = shown_len;
    while pad < 33
        invariant
            shown_len <= pad <= 33,
            line@ == seq!['|'] + clip@ + seq!['|'] + blanks((pad - shown_len) as nat),
            " "@ == seq![' '],
        decreases 33 - pad,
    {
        line.append(" ");
        proof {
            assert(blanks((pad - shown_len) as nat) + seq![' '] =~= blanks(
                (pad + 1 - shown_len) as nat,
            ));
            assert(seq!['|'] + clip@ + seq!['|'] + blanks((pad - shown_len) as nat) + seq![' ']
                =~= seq!['|'] + clip@ + seq!['|'] + blanks((pad + 1 - shown_len) as nat));
        }
        pad = pad + 1;
    }
    line
}

} // verus!
