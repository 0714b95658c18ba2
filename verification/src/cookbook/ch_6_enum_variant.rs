//! Variants that are told apart by their notation: a number in binary, in
//! hexadecimal or in decimal.

use crate::chain::{ChainState, SelectState};
use crate::classes::{digit, digits, lemma_run_length_is_run, one_of, run_length};
use crate::convert::{digit_value, number, parse_unsigned, unsigned_number};
use crate::cursor::Cursor;
use crate::error::{failure, no_match, ParsingError};
use crate::text_parser::{Matchable, Selectable};
use vstd::prelude::*;

verus! {

/// A number and the notation in which it was written.
#[derive(PartialEq, Eq, Debug, Structural)]
pub enum Number {
    Binary(u32),
    Hex(u32),
    Decimal(u32),
}

/// The digits of the binary notation.
pub open spec fn binary_digits() -> Seq<char> {
    seq!['0', '1']
}

/// The digits of the hexadecimal notation: the letters are capitals.
pub open spec fn hex_digits() -> Seq<char> {
    seq!['0', '1', '2', '3', '4', '5', '6', '7', '8', '9', 'A', 'B', 'C', 'D', 'E', 'F']
}

/// The digits of `class` that stand in `s` behind the two characters of a
/// prefix.
pub open spec fn prefixed_digits(s: Seq<char>, class: Seq<char>) -> Seq<char> {
    s.skip(2).take(run_length(s.skip(2), one_of(class)) as int)
}

/// The decimal digits at the head of `s`.
pub open spec fn leading_digits(s: Seq<char>) -> Seq<char> {
    s.take(run_length(s, digits()) as int)
}

/// `s` starts with a binary number: `0b` and at least one binary digit.
pub open spec fn starts_binary(s: Seq<char>) -> bool {
    "0b"@.is_prefix_of(s) && prefixed_digits(s, binary_digits()).len() >= 1
}

/// `s` starts with a hexadecimal number: `0x` and at least one hexadecimal
/// digit.
pub open spec fn starts_hex(s: Seq<char>) -> bool {
    "0x"@.is_prefix_of(s) && prefixed_digits(s, hex_digits()).len() >= 1
}

/// What the number at the head of `s` reads as, with the text that follows
/// it; `None` where there is no number, or none that fits.
///
/// The notations are tried in their order: binary, hexadecimal, decimal. A
/// binary or hexadecimal number that does not fit in 32 bits ends the
/// reading; a decimal number that does not fit is no number.
pub open spec fn number_of(s: Seq<char>) -> Option<(Seq<char>, Number)> {
    if starts_binary(s) {
        let written = prefixed_digits(s, binary_digits());
        if number(written, 2) <= u32::MAX {
            Some((s.skip(2 + written.len() as int), Number::Binary(number(written, 2) as u32)))
        } else {
            None
        }
    } else if starts_hex(s) {
        let written = prefixed_digits(s, hex_digits());
        if number(written, 16) <= u32::MAX {
            Some((s.skip(2 + written.len() as int), Number::Hex(number(written, 16) as u32)))
        } else {
            None
        }
    } else {
        let written = leading_digits(s);
        if written.len() >= 1 && number(written, 10) <= u32::MAX {
            Some((s.skip(written.len() as int), Number::Decimal(number(written, 10) as u32)))
        } else {
            None
        }
    }
}

/// A run of characters of `class` is a number without a sign in the base
/// `radix`, where every character of `class` is a digit in that base.
pub proof fn lemma_run_is_number(s: Seq<char>, class: spec_fn(char) -> bool, radix: nat)
    requires
        2 <= radix <= 36,
        forall|c: char| class(c) ==> (#[trigger] digit_value(c, radix)) is Some,
        run_length(s, class) >= 1,
    ensures
        unsigned_number(s.take(run_length(s, class) as int), radix) == Some(
            number(s.take(run_length(s, class) as int), radix),
        ),
{
    lemma_run_length_is_run(s, class);
    let k = run_length(s, class);
    assert(digit_value('+', radix) is None);
}

/// Reads a number at the head of `s`, in the first notation that fits:
/// binary behind `0b`, hexadecimal behind `0x`, or decimal.
pub fn parse_number(s: &str) -> (r: Result<(&str, Number), ParsingError>)
    ensures
        r is Ok <==> number_of(s@) is Some,
        r is Ok ==> (r.unwrap().0@, r.unwrap().1) == number_of(s@).unwrap(),
        r is Err ==> r.unwrap_err()@ == if starts_binary(s@) || starts_hex(s@) {
            no_match("parse int error"@, ""@)
        } else {
            no_match("Unknown format"@, ""@)
        },
{
    let ghost text = s@;
    proof {
        reveal_strlit("0b");
        reveal_strlit("0x");
    }
    let bits: [char; 2] = ['0', '1'];
    let b0 = Cursor::from(s).debug_context("binary");
    let b1 = b0.text("0b");
    let b2 = b1.chars_in(1.., bits.as_slice());
    let b3 = b2.parse_selection_as_str();
    proof {
        if "0b"@.is_prefix_of(text) {
            let tail = text.skip(2);
            let k = run_length(tail, one_of(bits@)) as int;
            lemma_run_length_is_run(tail, one_of(bits@));
            if k >= 1 {
                lemma_run_is_number(tail, one_of(bits@), 2);
            }
        }
    }
    if let Ok((c, written)) = b3.validate() {
        return match parse_unsigned(written, 2, u32::MAX as u64) {
            Some(n) => Ok((c, Number::Binary(n as u32))),
            None => Err(failure("parse int error", "")),
        };
    }
    let hex_chars: [char; 16] = [
        '0',
        '1',
        '2',
        '3',
        '4',
        '5',
        '6',
        '7',
        '8',
        '9',
        'A',
        'B',
        'C',
        'D',
        'E',
        'F',
    ];
    let h0 = Cursor::from(s).debug_context("hex");
    let h1 = h0.text("0x");
    let h2 = h1.chars_in(1.., hex_chars.as_slice());
    let h3 = h2.parse_selection_as_str();
    proof {
        if "0x"@.is_prefix_of(text) {
            let tail = text.skip(2);
            let k = run_length(tail, one_of(hex_chars@)) as int;
            lemma_run_length_is_run(tail, one_of(hex_chars@));
            if k >= 1 {
                assert forall|c: char| one_of(hex_chars@)(c) implies (#[trigger] digit_value(
                    c,
                    16,
                )) is Some by {
                }
                lemma_run_is_number(tail, one_of(hex_chars@), 16);
            }
        }
    }
    if let Ok((c, hex)) = h3.validate() {
        return match parse_unsigned(hex, 16, u32::MAX as u64) {
            Some(n) => Ok((c, Number::Hex(n as u32))),
            None => Err(failure("parse int error", "")),
        };
    }
    let d0 = Cursor::from(s).debug_context("decimal");
    let d1 = d0.digits(1..);
    let d2 = d1.parse_selection::<u32>();
    proof {
        let k = run_length(text, digits()) as int;
        lemma_run_length_is_run(text, digits());
        if k >= 1 {
            lemma_run_is_number(text, digits(), 10);
        }
    }
    if let Ok((c, n)) = d2.validate() {
        return Ok((c, Number::Decimal(n)));
    }
    Err(failure("Unknown format", ""))
}

} // verus!
