use daisychain::chain::ChainState;
use daisychain::cookbook::ch_2_simple_example::Time;
use daisychain::cookbook::ch_3_binding_vars::{parse_quoted_text, parse_quoted_text_v2, QuotedText};
use daisychain::cookbook::ch_4_enum_handcrafted::{parse_enum, Color};
use daisychain::cookbook::ch_6_enum_variant::{parse_number, Number};
use daisychain::cookbook::ch_7_alternate::{parse_clock, parse_clock_v2, parse_time};
use daisychain::cookbook::ch_8_alternate_opt::{
    parse_char, parse_day, parse_event, Day, Event, OneChar,
};
use daisychain::cursor::Cursor;
use daisychain::error::ParsingError;
use daisychain::text_parser::{Matchable, Selectable};
use std::str::FromStr;

#[test]
fn test_parse_0923() {
    assert_eq!(Time::from_str("09:23").unwrap(), Time::new(9, 23));
    assert!(Time::from_str("09+23").is_err());
    assert!(Time::from_str("09:23X").is_err());
}

#[test]
fn test_parse_three_times() -> Result<(), ParsingError> {
    let s = "09:23 11:45 23:59";
    let valid_chars: Vec<_> = "0123456789:".chars().collect();
    let valid_chars = valid_chars.as_slice();

    let (_c, t1, t2, t3) = Cursor::from(s)
        .chars_in(1.., valid_chars)
        .parse_selection::<Time>()
        .ws()
        .chars_in(1.., valid_chars)
        .parse_selection::<Time>()
        .ws()
        .chars_in(1.., valid_chars)
        .parse_selection::<Time>()
        .validate()?;
    assert_eq!(t1, Time::new(9, 23));
    assert_eq!(t2, Time::new(11, 45));
    assert_eq!(t3, Time::new(23, 59));
    Ok(())
}

#[test]
fn test_parse_quoted_text() -> Result<(), ParsingError> {
    let s = "'Hello World!', said Ferris";
    let (c, qt) = parse_quoted_text(s)?;
    assert_eq!(qt, QuotedText::new('\'', "Hello World!".to_string()));
    assert_eq!(c, ", said Ferris");

    let (c, qt) = parse_quoted_text("\"Hi\", he said")?;
    assert_eq!(qt, QuotedText::new('"', "Hi".to_string()));
    assert_eq!(c, ", he said");

    let (c, qt) = parse_quoted_text_v2("\"Hi\", he said")?;
    assert_eq!(qt, QuotedText::new('"', "Hi".to_string()));
    assert_eq!(c, ", he said");

    let res = parse_quoted_text("'Hi, ");
    assert!(res.is_err());
    Ok(())
}

#[test]
fn ch_4_enum_handcrafted_test_parse_enum() -> Result<(), ParsingError> {
    // from_str expects the whole string to match
    assert_eq!(Color::from_str("Red")?, Color::Red);
    assert!(Color::from_str("Red Arrow").is_err());

    // parse_enum consumes only what it needs for matching
    let (c, color) = parse_enum("Red Arrow")?;
    assert_eq!(color, Color::Red);
    assert_eq!(c, " Arrow");
    Ok(())
}

#[test]
fn test_parse_number() {
    // from_str expects the whole string to match
    assert_eq!(parse_number("123").unwrap().1, Number::Decimal(123));
    assert_eq!(parse_number("0b1001").unwrap().1, Number::Binary(9));
    assert_eq!(parse_number("0xFF").unwrap().1, Number::Hex(255));
    assert!(parse_number("n/a").is_err());

    // 0b201 will parse as a decimal zero, with cursor moved to 0|b201
    let (c, var) = parse_number("0b201").unwrap();
    assert_eq!(var, Number::Decimal(0));
    assert_eq!(c, "b201");
}

#[test]
fn test_parse_clock() -> Result<(), ParsingError> {
    assert_eq!(parse_clock("11:35 AM".into())?.1, Time::new(11, 35));
    assert_eq!(parse_clock("11:59 PM".into())?.1, Time::new(23, 59));
    assert_eq!(parse_clock("01:59".into())?.1, Time::new(1, 59));
    assert_eq!(parse_clock("1:59".into()).is_err(), true);

    // check that the cursor is left at the right terminating position
    assert_eq!(parse_clock("11:35 AM X".into())?.0, "X");
    assert_eq!(parse_clock("11:59 PM Y".into())?.0, "Y");
    assert_eq!(parse_clock("01:59 Z".into())?.0, "Z");
    Ok(())
}

#[test]
fn test_parse_clock_v2() -> Result<(), ParsingError> {
    assert_eq!(parse_clock_v2("11:35 AM".into())?.1, Time::new(11, 35));
    assert_eq!(parse_clock_v2("11:59 PM".into())?.1, Time::new(23, 59));
    assert_eq!(parse_clock_v2("01:59".into())?.1, Time::new(1, 59));
    assert_eq!(parse_clock_v2("1:59".into()).is_err(), true);

    // check that the cursor is left at the right terminating position
    assert_eq!(parse_clock_v2("11:35 AM X".into())?.0, "X");
    assert_eq!(parse_clock_v2("11:59 PM Y".into())?.0, "Y");
    assert_eq!(parse_clock_v2("01:59 Z".into())?.0, "Z");
    Ok(())
}

#[test]
fn test_onechar() -> Result<(), ParsingError> {
    assert_eq!(parse_char("1")?.1, OneChar::Digit(1));
    assert_eq!(parse_char("A")?.1, OneChar::Letter('A'));
    assert!(parse_char("").is_err());

    // check that the cursor is left at the right terminating position
    assert_eq!(parse_char("1X")?.0, "X");
    assert_eq!(parse_char("AY")?.0, "Y");
    Ok(())
}

#[test]
fn test_event() -> Result<(), ParsingError> {
    let t = Time::new(11, 35);
    assert_eq!(parse_event("11:35")?.1, Event::TimeOnly(t));
    assert_eq!(parse_event("Wed 11:35")?.1, Event::DayTime(Day::Wed, t));
    assert_eq!(parse_event("Wed")?.1, Event::DayOnly(Day::Wed));
    assert!(parse_event("X").is_err());

    // check that the cursor is left at the right terminating position
    assert_eq!(parse_event("11:35 X")?.0, "X");
    assert_eq!(parse_event("Wed 11:59 Y")?.0, "Y");
    assert_eq!(parse_event("Wed Z")?.0, "Z");
    Ok(())
}

#[test]
fn test_parse_time_takes_five_characters() {
    assert_eq!(parse_time("23:59 and more").unwrap(), (" and more", Time::new(23, 59)));
    assert!(parse_time("23:5").is_err());
    assert!(parse_time("ab:cd").is_err());
}

#[test]
fn test_parse_day_by_name() {
    assert_eq!(parse_day("Fri 13th").unwrap(), (" 13th", Day::Fri));
    assert_eq!(Day::from_str("Thu").unwrap(), Day::Thu);
    assert!(Day::from_str("Sat").is_err());
    assert!(parse_day("Sun").is_err());
    assert_eq!(Day::variants(), ["Mon", "Tue", "Wed", "Thu", "Fri"]);
}

#[test]
fn test_parse_number_that_does_not_fit() {
    // 33 binary digits do not fit in 32 bits, and end the reading
    assert!(parse_number("0b100000000000000000000000000000000").is_err());
    assert_eq!(
        parse_number("0xFFFFFFFF").unwrap(),
        ("", Number::Hex(u32::MAX))
    );
    assert!(parse_number("0x100000000").is_err());
    // small letters are no hexadecimal digits here: a decimal zero
    assert_eq!(parse_number("0xff").unwrap(), ("xff", Number::Decimal(0)));
    assert_eq!(
        parse_number("4294967295").unwrap(),
        ("", Number::Decimal(u32::MAX))
    );
    assert!(parse_number("4294967296").is_err());
}

fn why<T: std::fmt::Debug>(r: Result<T, ParsingError>) -> String {
    r.unwrap_err().message()
}

#[test]
fn test_failures_name_the_step_that_did_not_match() {
    assert_eq!(why(Time::from_str("9:23")), "FailedMatch: (action='digits' args='too few')");
    assert_eq!(why(Time::from_str("09+23")), "FailedMatch: (action='char' args=':')");
    assert_eq!(why(Time::from_str("09:2")), "FailedMatch: (action='digits' args='too few')");
    assert_eq!(why(Time::from_str("09:234")), "FailedMatch: (action='eos' args='')");
    assert_eq!(why(parse_time("1:59")), "FailedMatch: (action='chars_any' args='too few')");
    assert_eq!(why(parse_time("1:59 ")), "FailedMatch: (action='FromStr' args='')");
    assert_eq!(why(parse_clock("1:59 AM")), "FailedMatch: (action='FromStr' args='')");
    assert_eq!(why(parse_clock_v2("1:59")), "FailedMatch: (action='chars_any' args='too few')");
    assert_eq!(why(parse_char("")), "FailedMatch: (action='chars_any' args='too few')");
    assert_eq!(why(parse_day("Sun")), "FailedMatch: (action='text_alt' args='Mon')");
    assert_eq!(
        why(Day::from_str("Sun")),
        "FailedMatch: (action='Matching variant not found' args='')"
    );
    assert_eq!(
        why(parse_event("X")),
        "FailedMatch: (action='Must specify day or time (or both)' args='')"
    );
    assert_eq!(why(parse_enum("Pink")), "FailedMatch: (action='text_alt' args='Red')");
    assert_eq!(why(Color::from_str("Pink")), "FailedMatch: (action='matching color' args='')");
    assert_eq!(why(parse_quoted_text("Hi")), "FailedMatch: (action='chars_in' args='too few')");
    assert_eq!(why(parse_quoted_text("'Hi")), "FailedMatch: (action='chars_in' args='too few')");
    assert_eq!(
        why(parse_quoted_text_v2("'Hi\"")),
        "FailedMatch: (action='chars_in' args='too few')"
    );
    assert_eq!(why(parse_number("n/a")), "FailedMatch: (action='Unknown format' args='')");
    assert_eq!(
        why(parse_number("0x100000000")),
        "FailedMatch: (action='parse int error' args='')"
    );
}

#[test]
fn test_readings_of_a_clock() {
    assert_eq!(parse_clock("11:35PM").unwrap(), ("", Time::new(23, 35)));
    assert_eq!(parse_clock("11:35 am").unwrap(), ("am", Time::new(11, 35)));
    assert_eq!(parse_clock("99:99 PM  x").unwrap(), ("x", Time::new(111, 99)));
    assert_eq!(parse_clock_v2("11:35PM").unwrap(), ("", Time::new(23, 35)));
    assert_eq!(parse_clock_v2("11:35 am").unwrap(), ("am", Time::new(11, 35)));
    assert_eq!(parse_clock_v2("99:99 PM  x").unwrap(), ("x", Time::new(111, 99)));
    assert_eq!(parse_clock_v2("11:35   ").unwrap(), ("", Time::new(11, 35)));
}

#[test]
fn test_events() {
    assert_eq!(
        parse_event("Mon09:15x").unwrap(),
        ("x", Event::DayTime(Day::Mon, Time::new(9, 15)))
    );
    assert_eq!(parse_event("Tue  9:15").unwrap(), ("9:15", Event::DayOnly(Day::Tue)));
    assert_eq!(parse_event("  09:15").unwrap(), ("", Event::TimeOnly(Time::new(9, 15))));
    assert!(parse_event("").is_err());
    assert_eq!(parse_char("٣").unwrap(), ("", OneChar::Letter('٣')));
    assert_eq!(parse_char("+1").unwrap(), ("1", OneChar::Letter('+')));
}
