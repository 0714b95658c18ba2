use daisychain::chain::{ChainState, SelectState};
use daisychain::contrib::parsers::email;
use daisychain::convert::FromText;
use daisychain::count::CountRange;
use daisychain::cursor::Cursor;
use daisychain::error::ParsingError;
use daisychain::text_parser::{Bind, Matchable, Selectable};

/// Seconds with a fraction.
#[derive(PartialEq, Debug, Clone, Copy)]
struct Secs(f64);

impl FromText for Secs {
    fn from_text(s: &str) -> Option<Self> {
        s.parse::<f64>().ok().map(Secs)
    }
}

#[derive(PartialEq, Debug)]
struct Time(i32, i32, f64);

fn parse_time_v1(s: &str) -> Result<(&str, Time), ParsingError> {
    let (mut hh, mut mm, mut sss) = (0_i32, 0_i32, Secs(0_f64));
    let c = Cursor::from(s)
        .digits(2..=2)
        .parse_selection()
        .bind(&mut hh)
        .text(":")
        .digits(2..=2)
        .parse_selection()
        .bind(&mut mm)
        .text(":")
        .select(|c| c.digits(2..=2).text(".").digits(3..=3))
        .parse_selection()
        .bind(&mut sss)
        .validate()?;
    Ok((c, Time(hh, mm, sss.0)))
}

fn parse_time_v2(s: &str) -> Result<(&str, Time), ParsingError> {
    let (mut hh, mut mm, mut sss) = (0_i32, 0_i32, Secs(0_f64));
    let c = Cursor::from(s)
        .digits(2..=2)
        .parse_selection()
        .bind(&mut hh)
        .text(":")
        .digits(2..=2)
        .parse_selection()
        .bind(&mut mm)
        .text(":")
        .selection_start()
        .digits(2..=2)
        .text(".")
        .digits(3..=3)
        .selection_end()
        .parse_selection()
        .bind(&mut sss)
        .validate()?;
    Ok((c, Time(hh, mm, sss.0)))
}

fn parse_time_v3(s: &str) -> Result<(&str, Time), ParsingError> {
    let (c, hh, mm, sss) = Cursor::from(s)
        .digits(2..=2)
        .parse_selection()
        .text(":")
        .digits(2..=2)
        .parse_selection()
        .text(":")
        .select(|c| c.digits(2..=2).text(".").digits(3..=3))
        .parse_selection::<Secs>()
        .validate()?;
    Ok((c, Time(hh, mm, sss.0)))
}

fn parse_time_v4(s: &str) -> Result<(&str, Time), ParsingError> {
    let (c, hh, mm, sss) = Cursor::from(s)
        .selection_start()
        .digits(2..=2)
        .parse_selection()
        .text(":")
        .selection_start()
        .digits(2..=2)
        .parse_selection()
        .text(":")
        .select(|c| c.digits(2..=2).text(".").digits(3..=3))
        .parse_selection::<Secs>()
        .validate()?;
    Ok((c, Time(hh, mm, sss.0)))
}

#[test]
fn test_parse_from_str() {
    let (c, i, j) = Cursor::from("42X45Y")
        .digits(1..)
        .parse_selection::<i32>()
        .text("X")
        .digits(1..)
        .parse_selection::<i32>()
        .validate()
        .unwrap();
    assert_eq!(i, 42);
    assert_eq!(j, 45);
    assert_eq!(c, "Y");

    let (c, s) = Cursor::from(" cat ")
        .ws()
        .alphabetics(1..)
        .parse_selection::<String>()
        .ws()
        .validate()
        .unwrap();
    assert_eq!(s, String::from("cat"));
    assert_eq!(c, "");

    let (c, s) = Cursor::from(" cat ")
        .ws()
        .alphabetics(1..)
        .parse_selection::<String>()
        .ws()
        .validate()
        .unwrap();
    assert_eq!(s, String::from("cat"));
    assert_eq!(c, "");
}

fn rb<R: CountRange>(_: R) {}

#[test]
fn test_parse_range() {
    rb(1..3);
    rb(..=3);
    rb(..);
}

#[test]
fn test_parse_nested() {
    rb(1..3);
    rb(..=3);
    rb(..);

    assert_eq!(
        parse_time_v1("23:59:13.234").unwrap(),
        ("", Time(23, 59, 13.234))
    );
    assert_eq!(
        parse_time_v2("23:59:13.234").unwrap(),
        ("", Time(23, 59, 13.234))
    );
    assert_eq!(
        parse_time_v3("23:59:13.234").unwrap(),
        ("", Time(23, 59, 13.234))
    );
    assert_eq!(
        parse_time_v4("23:59:13.234").unwrap().1,
        Time(23, 59, 13.234)
    );

    assert_eq!(
        parse_time_v1("23:59:13.234Hello").unwrap(),
        ("Hello", Time(23, 59, 13.234))
    );
    assert_eq!(parse_time_v3("23:X:13.234Hello").is_err(), true);

    let c = Cursor::from("23:59:12.345");
    let (_c, t) = c.clone().parse_with(parse_time_v1).validate().unwrap();
    assert_eq!(t, Time(23, 59, 12.345));

    let (_c, t) = c.clone().parse_with(parse_time_v2).validate().unwrap();
    assert_eq!(t, Time(23, 59, 12.345));

    let (_c, t) = c.clone().parse_with(parse_time_v3).validate().unwrap();
    assert_eq!(t, Time(23, 59, 12.345));

    let (_c, t) = c.clone().parse_with(parse_time_v4).validate().unwrap();
    assert_eq!(t, Time(23, 59, 12.345));

    let (_c, t) = c
        .clone()
        .parse_with(|c| parse_time_v3(c))
        .validate()
        .unwrap();
    assert_eq!(t, Time(23, 59, 12.345));

    let (_c, t) = c
        .clone()
        .parse_with(|c| parse_time_v4(c))
        .validate()
        .unwrap();
    assert_eq!(t, Time(23, 59, 12.345));
}

fn parse_str_time_array(s: &str) -> Result<(&str, Vec<Time>), ParsingError> {
    let (c, vec) = Cursor::from(s)
        .debug_context("str time array")
        .text("{")
        .ws()
        .parse_struct_vec(|c| {
            Cursor::from(c)
                .parse_with(|c| parse_time_v3(c))
                .maybe(",")
                .ws()
                .validate()
        })
        .ws()
        .text("}")
        .validate()?;
    Ok((c, vec))
}

fn parse_time_array(s: &str) -> Result<(&str, Vec<Time>), ParsingError> {
    let (c, vec) = Cursor::from(s)
        .debug_context("time array")
        .text("{")
        .ws()
        .parse_struct_vec(|c| {
            Cursor::from(c)
                .parse_with(parse_time_v4)
                .maybe(",")
                .ws()
                .validate()
        })
        .ws()
        .text("}")
        .validate()?;
    Ok((c, vec))
}

#[test]
fn test_parse_lists() {
    let s = Cursor::from("1,2,3,4,5,");
    let mut vec1 = vec![];
    let res1 = s.parse_struct_vec_to(
        |c| {
            Cursor::from(c)
                .selection_start()
                .digits(1..5)
                .selection_end()
                .text_alt(&[",", " "])
                .parse_selection_as_str()
                .validate()
        },
        &mut vec1,
    );
    assert_eq!(res1.is_ok(), true);
    assert_eq!(vec1.len(), 5, "vec:{:?}", vec1);
    assert_eq!(vec1[0], "1");
    assert_eq!(vec1[1], "2");
    assert_eq!(res1.unwrap().str().ok(), Some(""));

    let mut ll2: Vec<i32> = Vec::new();
    let s = Cursor::from("{1,2,3,4,5,}");
    let res2 = s
        .debug_context("array")
        .text("{")
        .repeat(1.., |c| c.digits(1..).append_last(&mut ll2).maybe(","))
        .text("}")
        .validate();
    assert_eq!(res2.is_ok(), true);
    assert_eq!(ll2.len(), 5, "linkedlist:{:?}", ll2);

    let res = parse_str_time_array("{01:02:03.345, 02:02:03.346, 23:02:03.347}").unwrap();
    assert_eq!(res.1.len(), 3);
    assert_eq!(res.1[0], Time(1, 2, 3.345));
    assert_eq!(res.1[2], Time(23, 2, 3.347));
    assert_eq!(res.1.len(), 3);
    assert_eq!(res.0, "");

    let res = parse_time_array("{01:02:03.345, 02:02:03.346, 23:02:03.347}").unwrap();
    assert_eq!(res.1.len(), 3);
    assert_eq!(res.1[0], Time(1, 2, 3.345));
    assert_eq!(res.1[2], Time(23, 2, 3.347));
    assert_eq!(res.1.len(), 3);
    assert_eq!(res.0, "");
}

#[test]
fn test_cursor() {
    let s = "Hello World!";
    let c1 = Cursor::from(s);
    let c2: Cursor = s.into();

    let s1 = c1.str().unwrap();
    assert_eq!(s1, s);

    let s2: &str = c2.try_into().unwrap();
    assert_eq!(s2, s);
}

#[test]
fn test_email() {
    assert_eq!(email(Cursor::from("andy@google.com")).str().unwrap(), "");
    assert_eq!(email(Cursor::from("google.com")).str().is_err(), true);
}
