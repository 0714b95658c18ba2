use daisychain::combo::{Chaining, DeTuple, Par, Parser, SP, StrParser};
use daisychain::error::ParsingError;

#[test]
fn test_detuple() {
    println!("{:?}", (1, (2, 3, ())).detuple());
    println!("{:?}", (1, (2, (3, 4, ()))).detuple());
}

fn tail_lexer(s: &str) -> Result<&str, ParsingError> {
    Ok(&s[1..])
}

fn ws(s: &str) -> Result<&str, ParsingError> {
    Ok(s.trim_start())
}

fn num_parser(s: &str) -> Result<(&str, i32), ParsingError> {
    Ok((&s[1..], s[0..=0].parse::<i32>()?))
}

#[test]
fn test_combo() {
    // define a simple lexer+parser
    assert_eq!(SP.validate("cat").unwrap(), "cat");

    let mut parser1 = SP
        .chain_parser(tail_lexer)
        .chain_parser(ws)
        .chain_parser(tail_lexer);

    let mut _parser1b = tail_lexer.chain_parser(ws).chain_parser(tail_lexer);

    let parser2 = SP
        .chain_parser(|s| tail_lexer(s))
        .chain_parser(ws)
        .chain_parser(tail_lexer);

    let s = parser1.validate("c   t2dog").unwrap();
    println!("{}", parser1.name(""));
    println!("{}", parser2.name(""));
    assert_eq!(s, "2dog");

    let mut parser3 = SP.make_parser(Par::new(num_parser));
    println!("{}", parser3.name(""));

    let (s, d) = parser3.validate("5dog").unwrap();
    assert_eq!(s, "dog");
    assert_eq!(d, 5);

    let mut parser4 = parser3.chain_parser(parser1);
    let (s, d) = parser4.validate("6d   gs").unwrap();
    assert_eq!(s, "s");
    assert_eq!(d, 6);
    println!("{}", parser4.name(""));

    let mut parser5 = parser4.chain_parser(Par::new(num_parser));
    println!("{}", parser5.name(""));
    let (s, d1, d2) = parser5.validate("7d   g4x").unwrap();
    assert_eq!(s, "x");
    assert_eq!(d1, 7);
    assert_eq!(d2, 4);
    println!("{}", parser5.name(""));
}

#[test]
fn test_detuple_flattens() {
    assert_eq!((1, (2, 3, ())).detuple(), (1, 2, 3));
    assert_eq!((1, (2, (3, 4, ()))).detuple(), (1, 2, 3, 4));
}

#[test]
fn test_chain_of_ws_and_find() {
    let mut spaced = SP.ws();
    assert_eq!(spaced.validate("   cat").unwrap(), "cat");
    let mut seeker = SP.find("dog");
    assert_eq!(seeker.validate("cat and dog").unwrap(), "dog");
    assert!(seeker.validate("cat and mouse").is_err());
    assert_eq!(SP.name("> "), "> SP");
    assert_eq!(spaced.name(""), "chain\nSP\nLex ws");
}

#[test]
fn test_parse_selection_converts_the_whole_input() {
    let mut number = SP.parse_selection::<i32>();
    assert_eq!(number.validate("-42").unwrap(), ("-42", -42));
    assert!(number.validate("42 ").is_err());
}

#[test]
fn test_chain_stops_at_the_first_failure() {
    fn never(_s: &str) -> Result<&str, ParsingError> {
        Err(ParsingError::Fatal(None))
    }
    let mut chain = SP.chain_parser(never).chain_parser(tail_lexer);
    assert!(matches!(chain.validate("cat"), Err(ParsingError::Fatal(None))));
}
