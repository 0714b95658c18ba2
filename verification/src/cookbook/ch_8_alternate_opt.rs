//! Options inside a chain: a character that is a digit or a letter, and an
//! event that names a day, a time, or both.

use core::str::FromStr;
use crate::chain::{ChainState, SelectState};
use crate::classes::digit;
use crate::convert::{all_digits, digit_value, number, unsigned_number, FromText};
use crate::cookbook::ch_2_simple_example::{time_of, Time};
use crate::cookbook::ch_7_alternate::{lemma_any_run, parse_time, starts_with_time, trimmed};
use crate::cursor::Cursor;
use crate::error::{failure, no_match, ParsingError};
use crate::moves::{text_alt_move, words_view};
use crate::text::same_text;
use crate::text_parser::{Matchable, Selectable};
use vstd::pervasive::unreached;
use vstd::prelude::*;

verus! {

/// One character, read as a digit where it is one.
#[derive(PartialEq, Eq, Debug, Structural)]
pub enum OneChar {
    Digit(u32),
    Letter(char),
}

/// What the first character `c` of a text reads as.
pub open spec fn one_char_of(c: char) -> OneChar {
    if digit(c) {
        OneChar::Digit((c as int - '0' as int) as u32)
    } else {
        OneChar::Letter(c)
    }
}

/// A text of one character is accepted as a number exactly where the
/// character is a digit, and is then the value of that digit.
pub proof fn lemma_one_digit(s: Seq<char>)
    requires
        s.len() == 1,
    ensures
        <u32 as FromText>::accepts(s) <==> digit(s[0]),
        digit(s[0]) ==> unsigned_number(s, 10) == Some((s[0] as int - '0' as int) as nat),
{
    if digit(s[0]) {
        assert(number(s.drop_last(), 10) == 0);
    }
}

/// Reads the first character of `s`, as a digit where it is one and as a
/// letter where it is none. The empty text is no match.
pub fn parse_char(s: &str) -> (r: Result<(&str, OneChar), ParsingError>)
    ensures
        r is Ok <==> s@.len() >= 1,
        r is Ok ==> r.unwrap().0@ == s@.skip(1) && r.unwrap().1 == one_char_of(s@[0]),
        r is Err ==> r.unwrap_err()@ == no_match("chars_any"@, "too few"@),
{
    let c0 = Cursor::from(s);
    let c1 = c0.chars_any(1..=1);
    let v1 = c1.parse_opt_selection::<u32>();
    let v2 = v1.parse_opt_selection::<char>();
    proof {
        lemma_any_run(s@);
        if s@.len() >= 1 {
            lemma_one_digit(s@.take(1));
        }
    }
    let (c, opt_digit, opt_letter) = match v2.validate() {
        Ok(found) => found,
        Err(e) => {
            return Err(e);
        },
    };
    let one_char = match (opt_digit, opt_letter) {
        (Some(d), _) => OneChar::Digit(d),
        (None, Some(c)) => OneChar::Letter(c),
        (None, None) => unreached(),
    };
    Ok((c, one_char))
}

/// A working day.
#[derive(PartialEq, Eq, Debug, Clone, Copy, Structural)]
pub enum Day {
    Mon,
    Tue,
    Wed,
    Thu,
    Fri,
}

/// The day that `s` names.
pub open spec fn day_of(s: Seq<char>) -> Option<Day> {
    if s == "Mon"@ {
        Some(Day::Mon)
    } else if s == "Tue"@ {
        Some(Day::Tue)
    } else if s == "Wed"@ {
        Some(Day::Wed)
    } else if s == "Thu"@ {
        Some(Day::Thu)
    } else if s == "Fri"@ {
        Some(Day::Fri)
    } else {
        None
    }
}

impl Day {
    /// The names of the days, in their order.
    pub fn variants() -> (names: [&'static str; 5])
        ensures
            names@ == seq!["Mon", "Tue", "Wed", "Thu", "Fri"],
    {
        ["Mon", "Tue", "Wed", "Thu", "Fri"]
    }

    /// The day that `s` names. Any other text is no match.
    pub fn parse(s: &str) -> (r: Result<Day, ParsingError>)
        ensures
            r is Ok <==> day_of(s@) is Some,
            r is Ok ==> Some(r.unwrap()) == day_of(s@),
            r is Err ==> r.unwrap_err()@ == no_match("Matching variant not found"@, ""@),
    {
        if same_text(s, "Mon") {
            Ok(Day::Mon)
        } else if same_text(s, "Tue") {
            Ok(Day::Tue)
        } else if same_text(s, "Wed") {
            Ok(Day::Wed)
        } else if same_text(s, "Thu") {
            Ok(Day::Thu)
        } else if same_text(s, "Fri") {
            Ok(Day::Fri)
        } else {
            Err(failure("Matching variant not found", ""))
        }
    }
}

impl FromText for Day {
    open spec fn accepts(s: Seq<char>) -> bool {
        day_of(s) is Some
    }

    open spec fn value_of(s: Seq<char>, v: Self) -> bool {
        day_of(s) == Some(v)
    }

    fn from_text(s: &str) -> (r: Option<Self>) {
        match Day::parse(s) {
            Ok(day) => Some(day),
            Err(_) => None,
        }
    }
}

impl FromStr for Day {
    type Err = ParsingError;

    fn from_str(s: &str) -> (r: Result<Self, Self::Err>)
        ensures
            r is Ok <==> day_of(s@) is Some,
            r is Ok ==> Some(r.unwrap()) == day_of(s@),
    {
        Day::parse(s)
    }
}

/// `s` starts with the name of a day.
pub open spec fn starts_with_day(s: Seq<char>) -> bool {
    s.len() >= 3 && day_of(s.take(3)) is Some
}

/// The names of the days are what they are.
pub proof fn lemma_day_names()
    ensures
        "Mon"@ == seq!['M', 'o', 'n'],
        "Tue"@ == seq!['T', 'u', 'e'],
        "Wed"@ == seq!['W', 'e', 'd'],
        "Thu"@ == seq!['T', 'h', 'u'],
        "Fri"@ == seq!['F', 'r', 'i'],
{
    reveal_strlit("Mon");
    reveal_strlit("Tue");
    reveal_strlit("Wed");
    reveal_strlit("Thu");
    reveal_strlit("Fri");
}

/// Reads the name of a day at the head of `s`, and returns the day with what
/// follows the name. Any other text is no match.
pub fn parse_day(s: &str) -> (r: Result<(&str, Day), ParsingError>)
    ensures
        r is Ok <==> starts_with_day(s@),
        r is Ok ==> r.unwrap().0@ == s@.skip(3) && Some(r.unwrap().1) == day_of(s@.take(3)),
        r is Ok ==> r.unwrap().0@.is_suffix_of(s@),
        r is Err ==> r.unwrap_err()@ == no_match("text_alt"@, "Mon"@),
{
    let names = Day::variants();
    let c0 = Cursor::from(s);
    let c1 = c0.text_alt(names.as_slice());
    let v1 = c1.parse_selection::<Day>();
    proof {
        lemma_day_names();
        reveal_with_fuel(text_alt_move, 6);
    }
    v1.validate()
}

/// What happens, and when.
#[derive(PartialEq, Eq, Debug, Structural)]
pub enum Event {
    DayTime(Day, Time),
    TimeOnly(Time),
    DayOnly(Day),
}

/// The text behind the day at the head of `s`, if there is a day, and the
/// white space that follows: where the time of an event is looked for.
pub open spec fn after_day(s: Seq<char>) -> Seq<char> {
    if starts_with_day(s) {
        trimmed(s.skip(3))
    } else {
        trimmed(s)
    }
}

/// The text behind an event at the head of `s`.
pub open spec fn after_event(s: Seq<char>) -> Seq<char> {
    let then = after_day(s);
    if starts_with_time(then) {
        trimmed(then.skip(5))
    } else {
        trimmed(then)
    }
}

/// The event at the head of `s`, where there is one: a day, a time, or a day
/// and then a time.
pub open spec fn event_of(s: Seq<char>) -> Option<Event> {
    let then = after_day(s);
    if starts_with_day(s) {
        if starts_with_time(then) {
            Some(Event::DayTime(day_of(s.take(3)).unwrap(), time_of(then.take(5))))
        } else {
            Some(Event::DayOnly(day_of(s.take(3)).unwrap()))
        }
    } else {
        if starts_with_time(then) {
            Some(Event::TimeOnly(time_of(then.take(5))))
        } else {
            None
        }
    }
}

/// Reads an event at the head of `s`: a day, a time, or a day and then a
/// time, with white space behind each. With neither there is no match.
pub fn parse_event(s: &str) -> (r: Result<(&str, Event), ParsingError>)
    ensures
        r is Ok <==> event_of(s@) is Some,
        r is Ok ==> r.unwrap().0@ == after_event(s@) && Some(r.unwrap().1) == event_of(s@),
        r is Err ==> r.unwrap_err()@ == no_match("Must specify day or time (or both)"@, ""@),
{
    let c0 = Cursor::from(s);
    let v1 = c0.parse_opt_with(parse_day);
    let v2 = v1.ws();
    let v3 = v2.parse_opt_with(parse_time);
    let v4 = v3.ws();
    let (c1, opt_day, opt_time) = match v4.validate() {
        Ok(found) => found,
        Err(e) => {
            return Err(e);
        },
    };
    match (opt_day, opt_time) {
        (Some(d), Some(t)) => Ok((c1, Event::DayTime(d, t))),
        (None, Some(t)) => Ok((c1, Event::TimeOnly(t))),
        (Some(d), None) => Ok((c1, Event::DayOnly(d))),
        (None, None) => Err(failure("Must specify day or time (or both)", "")),
    }
}

} // verus!
