use daisychain::chain::ChainState;
use daisychain::cursor::Cursor;
use daisychain::error::ParsingError;
use daisychain::parser::{Parser, StrFunc, StrMethod};

// a simple lexer+parser
fn lp<'a, T>(s: Cursor<'a>, mut p: impl Parser<'a, Cursor<'a>, T, Error = ParsingError>) {
    let _ = p.parse(s);
}

#[derive(Default)]
struct StructEx;

impl StructEx {
    fn parse_ex2<'a>(&self, s: &'a str) -> Result<(&'a str, String), ParsingError> {
        Ok((s, String::from("Example2")))
    }

    fn parse_ex4<'a>(&self, s: Cursor<'a>) -> Result<(Cursor<'a>, String), ParsingError> {
        Ok((s, String::from("Example4")))
    }
}

fn parse_ex1(s: &str) -> Result<(&str, String), ParsingError> {
    Ok((s, String::from("Example1")))
}

fn parse_ex3(s: Cursor) -> Result<(Cursor, String), ParsingError> {
    Ok((s, String::from("Example3")))
}

#[test]
fn test_casting() {
    let selfie = StructEx;

    let f: for<'a> fn(&'a str) -> Result<(&'a str, String), ParsingError> = parse_ex1;
    let tup_ex2 = StrMethod(&selfie, StructEx::parse_ex2);
    lp("parse_ex1 as ...     ".into(), StrFunc(f));
    lp("parse_ex1 as StrFunc ".into(), StrFunc(parse_ex1));
    lp("(&selfie,f)          ".into(), tup_ex2);
    lp("parse_ex3            ".into(), parse_ex3);
    lp("|c| self.parse_ex4(c)".into(), |c| selfie.parse_ex4(c));
    lp("|c| parse_ex(c)      ".into(), |c| parse_ex3(c));
}

#[test]
fn test_str_func_runs_on_the_remaining_text() {
    let mut p = StrFunc(parse_ex1);
    let (c, t) = p.parse(Cursor::from("rest")).unwrap();
    assert_eq!(t, "Example1");
    assert_eq!(c.validate().unwrap(), "rest");
}

#[test]
fn test_str_func_hands_on_the_error_of_a_halted_cursor() {
    let halted = Cursor::from("rest").set_error(ParsingError::Fatal(None));
    let mut p = StrFunc(parse_ex1);
    assert!(matches!(p.parse(halted), Err(ParsingError::Fatal(None))));
    let selfie = StructEx;
    let halted = Cursor::from("rest").set_error(ParsingError::Fatal(None));
    let mut p = StrMethod(&selfie, StructEx::parse_ex2);
    assert!(matches!(p.parse(halted), Err(ParsingError::Fatal(None))));
    let (c, t) = p.parse(Cursor::from("rest")).unwrap();
    assert_eq!((c.validate().unwrap(), t.as_str()), ("rest", "Example2"));
}
