//! One value in several notations: a time of day, with or without `AM` or
//! `PM` behind it.

use crate::chain::{ChainState, SelectState};
use crate::classes::{
    any_char, is_run, lemma_run_length, lemma_run_length_is_run, run_length, spaces,
};
use crate::cookbook::ch_2_simple_example::{is_time, lemma_two_digits, time_of, Time};
use crate::cursor::Cursor;
use crate::error::{no_match, ErrorView, ParsingError};
use crate::moves::{text_alt_move, words_view};
use crate::text::same_text;
use crate::text_parser::{Matchable, Selectable};
use vstd::prelude::*;

verus! {

/// `s` starts with a time.
pub open spec fn starts_with_time(s: Seq<char>) -> bool {
    s.len() >= 5 && is_time(s.take(5))
}

/// `s` without the white space at its head.
pub open spec fn trimmed(s: Seq<char>) -> Seq<char> {
    s.skip(run_length(s, spaces()) as int)
}

/// What is trimmed has no white space at its head left to trim.
pub proof fn lemma_trimmed_twice(s: Seq<char>)
    ensures
        trimmed(trimmed(s)) == trimmed(s),
{
    let then = trimmed(s);
    lemma_run_length_is_run(s, spaces());
    lemma_run_length_is_run(then, spaces());
}

/// Any five characters are a run of five of any character.
pub proof fn lemma_any_run(s: Seq<char>)
    ensures
        run_length(s, any_char()) == s.len(),
{
    lemma_run_length(s, s.len(), any_char());
}

/// Why `s` does not start with a time: it has fewer than five characters, or
/// its first five are no time.
pub open spec fn no_time(s: Seq<char>) -> ErrorView {
    if s.len() < 5 {
        no_match("chars_any"@, "too few"@)
    } else {
        no_match("FromStr"@, ""@)
    }
}

/// Reads the time at the head of `s`, and returns it with what follows it.
/// Any other text is no match.
pub fn parse_time(s: &str) -> (r: Result<(&str, Time), ParsingError>)
    ensures
        r is Ok <==> starts_with_time(s@),
        r is Ok ==> r.unwrap().0@ == s@.skip(5) && r.unwrap().1 == time_of(s@.take(5)),
        r is Ok ==> r.unwrap().0@.is_suffix_of(s@),
        r is Err ==> r.unwrap_err()@ == no_time(s@),
{
    let c0 = Cursor::from(s);
    let c1 = c0.chars_any(5..=5);
    let v1 = c1.parse_selection::<Time>();
    proof {
        lemma_any_run(s@);
    }
    v1.validate()
}

/// The time `t` as it reads with `PM` behind it: twelve hours later.
pub open spec fn afternoon(t: Time) -> Time {
    Time { hours: (t.hours + 12) as u32, mins: t.mins }
}

/// What a clock reading at the head of `s` gives: the time and the text that
/// follows the reading. The reading is a time, then white space, then `AM` or
/// `PM` and more white space, or nothing.
pub open spec fn clock_of(s: Seq<char>) -> (Seq<char>, Time) {
    let time = time_of(s.take(5));
    let then = trimmed(s.skip(5));
    if "AM"@.is_prefix_of(then) {
        (trimmed(then.skip(2)), time)
    } else if "PM"@.is_prefix_of(then) {
        (trimmed(then.skip(2)), afternoon(time))
    } else {
        (then, time)
    }
}

/// The hours of a time that was read are below a hundred.
pub proof fn lemma_hours_small(s: Seq<char>)
    requires
        is_time(s),
    ensures
        time_of(s).hours <= 99,
        time_of(s).mins <= 99,
{
    lemma_two_digits(seq![s[0], s[1]]);
    lemma_two_digits(seq![s[3], s[4]]);
}

/// Reads a clock at the head of `s`: a time, and `AM` or `PM` behind it where
/// there is one. `PM` adds twelve hours. Where the text does not start with a
/// time there is no match.
pub fn parse_clock(s: &str) -> (r: Result<(&str, Time), ParsingError>)
    ensures
        r is Ok <==> starts_with_time(s@),
        r is Ok ==> (r.unwrap().0@, r.unwrap().1) == clock_of(s@),
        r is Err ==> r.unwrap_err()@ == no_time(s@),
{
    let c0 = Cursor::from(s);
    let c1 = c0.chars_any(5..=5);
    let v1 = c1.parse_selection::<Time>();
    let v2 = v1.ws();
    proof {
        lemma_any_run(s@);
        reveal_strlit("AM");
        reveal_strlit("PM");
        reveal_with_fuel(text_alt_move, 4);
    }
    let (c1, time) = match v2.validate() {
        Ok(found) => found,
        Err(e) => {
            return Err(e);
        },
    };
    proof {
        lemma_hours_small(s@.take(5));
    }
    let words: [&str; 2] = ["AM", "PM"];
    let d0 = Cursor::from(c1);
    let d1 = d0.text_alt(words.as_slice());
    let q1 = d1.parse_selection_as_str();
    let q2 = q1.ws();
    proof {
        reveal_with_fuel(text_alt_move, 4);
    }
    match q2.validate() {
        Ok((c2, ampm)) => {
            let time = if same_text(ampm, "AM") {
                time
            } else {
                Time::new(time.hours + 12, time.mins)
            };
            Ok((c2, time))
        },
        Err(_) => Ok((c1, time)),
    }
}

/// Reads a clock as [`parse_clock`] does, in one chain: the empty word stands
/// for a reading without `AM` or `PM`.
pub fn parse_clock_v2(c: &str) -> (r: Result<(&str, Time), ParsingError>)
    ensures
        r is Ok <==> starts_with_time(c@),
        r is Ok ==> (r.unwrap().0@, r.unwrap().1) == clock_of(c@),
        r is Err ==> r.unwrap_err()@ == no_time(c@),
{
    let words: [&str; 3] = ["AM", "PM", ""];
    let c0 = Cursor::from(c).debug_context("clockv2");
    let c1 = c0.chars_any(5..=5);
    let v1 = c1.parse_selection::<Time>();
    let v2 = v1.ws();
    let v3 = v2.text_alt(words.as_slice());
    let v4 = v3.parse_selection_as_str();
    let v5 = v4.ws();
    proof {
        lemma_any_run(c@);
        reveal_with_fuel(text_alt_move, 4);
        reveal_strlit("AM");
        reveal_strlit("PM");
        reveal_strlit("");
        if c@.len() >= 5 {
            if is_time(c@.take(5)) {
                lemma_hours_small(c@.take(5));
                let then = trimmed(c@.skip(5));
                assert("AM"@[0] == 'A' && "PM"@[0] == 'P');
                assert(then.skip(0) =~= then);
                lemma_trimmed_twice(c@.skip(5));
            }
        }
    }
    let (c1, time, ampm) = match v5.validate() {
        Ok(found) => found,
        Err(e) => {
            return Err(e);
        },
    };
    let time = if same_text(ampm, "PM") {
        Time::new(time.hours + 12, time.mins)
    } else {
        time
    };
    Ok((c1, time))
}

} // verus!
