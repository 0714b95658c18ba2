//! A time of day, written as two digits, a colon and two digits.

use core::str::FromStr;
use crate::chain::{ChainState, SelectState};
use crate::classes::{digit, digits, lemma_run_length_is_run, run_length};
use crate::convert::{all_digits, digit_value, number, unsigned_number, FromText};
use crate::cursor::Cursor;
use crate::error::{no_match, ErrorView, ParsingError};
use crate::text_parser::{Matchable, Selectable};
use vstd::prelude::*;

verus! {

/// Hours and minutes, as they were written: neither is held to a range.
#[derive(PartialEq, Eq, Clone, Copy, Debug, Structural)]
pub struct Time {
    pub hours: u32,
    pub mins: u32,
}

impl Time {
    pub fn new(hours: u32, mins: u32) -> (t: Self)
        ensures
            t.hours == hours,
            t.mins == mins,
    {
        Self { hours, mins }
    }
}

/// Whether `s` writes a time: two digits, a colon, two digits, and nothing else.
pub open spec fn is_time(s: Seq<char>) -> bool {
    &&& s.len() == 5
    &&& digit(s[0])
    &&& digit(s[1])
    &&& s[2] == ':'
    &&& digit(s[3])
    &&& digit(s[4])
}

/// The number that two digits write.
pub open spec fn two_digits(a: char, b: char) -> nat {
    ((a as int - '0' as int) * 10 + (b as int - '0' as int)) as nat
}

/// The time that `s` writes.
pub open spec fn time_of(s: Seq<char>) -> Time {
    Time { hours: two_digits(s[0], s[1]) as u32, mins: two_digits(s[3], s[4]) as u32 }
}

/// Why `s` is no time: the step that does not match, and what it was asked
/// for.
pub open spec fn time_error(s: Seq<char>) -> ErrorView {
    if !(s.len() >= 2 && digit(s[0]) && digit(s[1])) {
        no_match("digits"@, "too few"@)
    } else if !(s.len() >= 3 && s[2] == ':') {
        no_match("char"@, seq![':'])
    } else if !(s.len() >= 5 && digit(s[3]) && digit(s[4])) {
        no_match("digits"@, "too few"@)
    } else {
        no_match("eos"@, ""@)
    }
}

/// Two digits write a number below a hundred, and are accepted as a `u32`.
pub proof fn lemma_two_digits(s: Seq<char>)
    requires
        s.len() == 2,
        digit(s[0]),
        digit(s[1]),
    ensures
        <u32 as FromText>::accepts(s),
        unsigned_number(s, 10) == Some(two_digits(s[0], s[1])),
        two_digits(s[0], s[1]) <= 99,
{
    let one = s.drop_last();
    assert(number(one.drop_last(), 10) == 0);
    assert(number(s, 10) == number(one, 10) * 10 + digit_value(s[1], 10).unwrap());
}

/// The run of digits at the head of `s` has two or more digits exactly where
/// the first two characters of `s` are digits.
pub proof fn lemma_two_digit_run(s: Seq<char>)
    ensures
        run_length(s, digits()) >= 2 <==> s.len() >= 2 && digit(s[0]) && digit(s[1]),
{
    lemma_run_length_is_run(s, digits());
}

impl Time {
    /// Reads a time such as `09:23` or `23:59`: the whole of `s` must be one.
    /// Any other text is no match.
    pub fn parse(s: &str) -> (r: Result<Time, ParsingError>)
        ensures
            r is Ok <==> is_time(s@),
            r is Ok ==> r.unwrap() == time_of(s@),
            r is Err ==> r.unwrap_err()@ == time_error(s@),
    {
        let ghost text = s@;
        let c0 = Cursor::from(s);
        let c1 = c0.digits(2..=2);
        let v1 = c1.parse_selection::<u32>();
        let v2 = v1.char(':');
        let v3 = v2.digits(2..=2);
        let v4 = v3.parse_selection::<u32>();
        let v5 = v4.end_of_stream();
        proof {
            lemma_two_digit_run(text);
            if text.len() >= 2 && digit(text[0]) && digit(text[1]) {
                let first = text.take(2);
                lemma_two_digits(first);
                if text.len() >= 3 && text[2] == ':' {
                    let tail = text.skip(3);
                    assert(text.skip(2).skip(1) =~= tail);
                    lemma_two_digit_run(tail);
                    if tail.len() >= 2 && digit(tail[0]) && digit(tail[1]) {
                        let second = tail.take(2);
                        lemma_two_digits(second);
                    }
                }
            }
        }
        match v5.validate() {
            Ok((_c, hours, mins)) => Ok(Time { hours, mins }),
            Err(e) => Err(e),
        }
    }
}

impl FromText for Time {
    open spec fn accepts(s: Seq<char>) -> bool {
        is_time(s)
    }

    open spec fn value_of(s: Seq<char>, v: Self) -> bool {
        v == time_of(s)
    }

    fn from_text(s: &str) -> (r: Option<Self>) {
        match Time::parse(s) {
            Ok(t) => Some(t),
            Err(_) => None,
        }
    }
}

impl FromStr for Time {
    type Err = ParsingError;

    fn from_str(s: &str) -> (r: Result<Self, Self::Err>)
        ensures
            r is Ok <==> is_time(s@),
            r is Ok ==> r.unwrap() == time_of(s@),
    {
        Time::parse(s)
    }
}

} // verus!
