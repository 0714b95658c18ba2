use daisychain::chain::{ChainState, SelectState};
use daisychain::classes::{is_digit, is_horizontal_space, is_one_of, is_word_char, skip_spaces};
use daisychain::clipboard::Clipboard;
use daisychain::contrib::parsers::{email, is_domain_char, is_name_char, to_upper};
use daisychain::convert::{parse_digits, parse_signed, parse_unsigned, to_digit, FromText};
use daisychain::count::CountRange;
use daisychain::cursor::Cursor;
use daisychain::error::{failure, ParsingError, Recoverable};
use daisychain::moves::{
    at_end, seek, seek_past, seek_past_eol, strip_alt, strip_char, strip_eol, strip_maybe,
    strip_text,
};
use daisychain::selection::Selection;
use daisychain::text::{byte_len, pop_char, same_text, scan, span};
use daisychain::text_parser::{Bind, Matchable, Selectable};
use daisychain::util::formatter_str;

#[test]
fn failure_names_step_and_argument() {
    match failure("text", ":") {
        ParsingError::NoMatch { action, args } => {
            assert_eq!(action, "text");
            assert_eq!(args, ":");
        }
        e => panic!("{e:?}"),
    }
}

#[test]
fn errors_say_what_they_are() {
    assert_eq!(
        failure("text", ":").message(),
        "FailedMatch: (action='text' args=':')"
    );
    assert_eq!(ParsingError::Fatal(None).message(), "Fatal:");
    assert_eq!(
        ParsingError::Fatal(Some("disk on fire".to_string())).message(),
        "Fatal:disk on fire"
    );
    assert_eq!(
        ParsingError::default().message(),
        "FailedMatch: (action='' args='')"
    );
}

#[test]
fn only_no_match_is_recoverable() {
    assert!(failure("x", "y").is_recoverable());
    assert!(ParsingError::default().is_recoverable());
    assert!(!ParsingError::Fatal(None).is_recoverable());
    assert!(!ParsingError::Fatal(Some("why".to_string())).is_recoverable());
}

#[test]
fn errors_are_cloned_whole() {
    let e = ParsingError::Fatal(Some("why".to_string())).clone();
    assert!(matches!(e, ParsingError::Fatal(Some(cause)) if cause == "why"));
    let e = failure("find", "needle").clone();
    assert_eq!(e.message(), "FailedMatch: (action='find' args='needle')");
}

#[test]
fn errors_of_the_standard_conversions_are_no_match() {
    let e: ParsingError = "x".parse::<i32>().unwrap_err().into();
    assert_eq!(e.message(), "FailedMatch: (action='parse int error' args='')");
    let e: ParsingError = "x".parse::<bool>().unwrap_err().into();
    assert_eq!(e.message(), "FailedMatch: (action='parse bool error' args='')");
}

#[test]
fn each_step_names_itself_in_its_failure() {
    fn named(c: Cursor) -> String {
        c.validate().unwrap_err().message()
    }
    let c = || Cursor::from("abc");
    assert_eq!(named(c().text("x")), "FailedMatch: (action='text' args='x')");
    assert_eq!(named(c().char('x')), "FailedMatch: (action='char' args='x')");
    assert_eq!(
        named(c().text_alt(&["x", "y"])),
        "FailedMatch: (action='text_alt' args='x')"
    );
    assert_eq!(
        named(c().text_alt(&[])),
        "FailedMatch: (action='text_alt' args='no words')"
    );
    assert_eq!(named(c().end_of_stream()), "FailedMatch: (action='eos' args='')");
    assert_eq!(named(c().end_of_line()), "FailedMatch: (action='eol' args='')");
    assert_eq!(named(c().find("x")), "FailedMatch: (action='find' args='x')");
    assert_eq!(named(c().scan_text("x")), "FailedMatch: (action='scan' args='x')");
    assert_eq!(
        named(c().parse_selection::<i32>().0),
        "FailedMatch: (action='FromStr' args='')"
    );
    let mut vec: Vec<i32> = vec![];
    assert_eq!(
        named(c().append_last(&mut vec)),
        "FailedMatch: (action='' args='')"
    );
    let (c, v) = Cursor::from("abc").parse_with(|_| Err::<(&str, i32), _>(failure("mine", "own")));
    assert_eq!(v, None);
    assert_eq!(named(c), "FailedMatch: (action='mine' args='own')");
    let e = Some("abc").text("x").validate().unwrap_err();
    assert_eq!(
        e.message(),
        "FailedMatch: (action='str on erroring cursor' args='')"
    );
    let e = Cursor::from("abc").text("x").str().unwrap_err();
    assert_eq!(
        e.message(),
        "FailedMatch: (action='str on erroring cursor' args='')"
    );
}

#[test]
fn validate_asks_for_every_value() {
    let missing = (Cursor::from("abc"), None::<i32>);
    assert_eq!(
        missing.validate().unwrap_err().message(),
        "FailedMatch: (action='validate' args='')"
    );
    let second = ((Cursor::from("abc"), Some(1)), None::<i32>);
    assert_eq!(
        second.validate().unwrap_err().message(),
        "FailedMatch: (action='validate' args='')"
    );
    let third = (((Cursor::from("abc"), Some(1)), Some(2)), None::<i32>);
    assert_eq!(
        third.validate().unwrap_err().message(),
        "FailedMatch: (action='validate' args='')"
    );
    let all = (((Cursor::from("abc"), Some(1)), Some("two")), Some('3'));
    assert_eq!(all.validate().unwrap(), ("abc", 1, "two", '3'));
    // the error of the chain comes before a missing value
    let halted = (Cursor::from("abc").text("x"), None::<i32>);
    assert_eq!(
        halted.validate().unwrap_err().message(),
        "FailedMatch: (action='text' args='x')"
    );
}

#[test]
fn steps_on_a_chain_with_values_carry_the_values() {
    let chain = ((Cursor::from("abc def"), Some(1)), Some("two"));
    let (rest, one, two) = chain.text("abc").ws().validate().unwrap();
    assert_eq!((rest, one, two), ("def", 1, "two"));
    let chain = (Cursor::from("abc def"), Some(1));
    let chain = chain.selection_start().word().selection_end().ws();
    assert_eq!(chain.get_selection().unwrap(), "abc");
    let (chain, word) = chain.parse_selection::<String>();
    assert_eq!(word.as_deref(), Some("abc"));
    assert_eq!(chain.validate().unwrap(), ("def", 1));
}

#[test]
fn selection_moves_with_the_cursor() {
    let input = "abcdef";
    let fresh = Selection::Defaulted(input);
    assert_eq!(fresh.start(), input);
    assert_eq!(fresh.selection("def"), (input, "def"));
    let moved = fresh.move_cursor("cdef");
    assert_eq!(moved, Selection::Last(input, "cdef"));
    assert_eq!(moved.selection("ignored"), (input, "cdef"));
    let again = moved.move_cursor("ef");
    assert_eq!(again, Selection::Last("cdef", "ef"));
    assert_eq!(again.start(), "cdef");
    let open = Selection::Start("cdef", None);
    assert_eq!(open.move_cursor("f"), open);
    assert_eq!(open.selection("f"), ("cdef", "f"));
    let closed = Selection::Start("cdef", Some("ef"));
    assert_eq!(closed.move_cursor("f"), closed);
    assert_eq!(closed.selection("f"), ("cdef", "ef"));
    assert_eq!(closed.start(), "cdef");
}

#[test]
fn cursor_keeps_its_selection_in_step() {
    let c = Cursor::from("abcdef");
    assert_eq!(c.selection(), Selection::Defaulted("abcdef"));
    assert_eq!(c.get_selection().unwrap(), "");
    let c = c.text("ab");
    assert_eq!(c.selection(), Selection::Last("abcdef", "cdef"));
    assert_eq!(c.get_selection().unwrap(), "ab");
    let c = c.text("c");
    assert_eq!(c.selection(), Selection::Last("cdef", "def"));
    assert_eq!(c.get_selection().unwrap(), "c");
    let c = c.selection_start();
    assert_eq!(c.selection(), Selection::Start("def", None));
    let c = c.text("d");
    assert_eq!(c.get_selection().unwrap(), "d");
    let c = c.selection_end().text("e");
    assert_eq!(c.selection(), Selection::Start("def", Some("ef")));
    assert_eq!(c.get_selection().unwrap(), "d");
    assert_eq!(c.str().unwrap(), "f");
    // closing without a mark selects from the start of the last step
    let c = Cursor::from("abcdef").text("ab").text("c").selection_end();
    assert_eq!(c.selection(), Selection::Start("cdef", Some("def")));
}

#[test]
fn cursors_are_equal_where_they_are_live_and_alike() {
    assert!(Cursor::from("abc") == Cursor::from("abc"));
    assert!(Cursor::from("abc").text("a") == Cursor::from("abc").text("a"));
    assert!(Cursor::from("abc").text("a") != Cursor::from("bc"));
    assert!(Cursor::from("abc") != Cursor::from("abd"));
    assert!(Cursor::from("abc").labelled("x") != Cursor::from("abc"));
    // a halted cursor equals none, itself included
    assert!(Cursor::from("abc").text("x") != Cursor::from("abc").text("x"));
    let c = Cursor::from("abc").labelled("here");
    c.well_formed();
    assert_eq!(c.context(), "here");
    assert_eq!(c.clone().text("a").context(), "here");
    assert_eq!(c.debug_context("there").context(), "here");
}

#[test]
fn selections_and_texts_are_shown_in_35_columns() {
    assert_eq!(formatter_str("Hello"), format!("|Hello|{}", " ".repeat(28)));
    assert_eq!(formatter_str(""), format!("||{}", " ".repeat(33)));
    assert_eq!(
        formatter_str("a\tb\r\n'c' \"d\" \\"),
        format!("|a\\tb\\r\\n'c' \"d\" \\\\|{}", " ".repeat(15))
    );
    assert_eq!(formatter_str("é\u{1}"), format!("|\\u{{e9}}\\u{{1}}|{}", " ".repeat(22)));
    assert_eq!(formatter_str("\u{10ffff}~ "), format!("|\\u{{10ffff}}~ |{}", " ".repeat(21)));
    let long = "0123456789".repeat(5);
    assert_eq!(formatter_str(&long), format!("|{}|", &long[..33]));
    assert_eq!(formatter_str(&long).len(), 35);
    let tabs = "\t".repeat(40);
    assert_eq!(formatter_str(&tabs), format!("|{}\\|", "\\t".repeat(16)));
    assert_eq!(
        Selection::Defaulted("ab").describe(),
        format!("Defaulted(|ab|{})", " ".repeat(31))
    );
    assert_eq!(
        Selection::Start("ab", None).describe(),
        format!("Start('|ab|{}', '||{}')", " ".repeat(31), " ".repeat(33))
    );
    assert_eq!(
        Selection::Start("ab", Some("b")).describe(),
        format!("Start('|ab|{}', '|b|{}')", " ".repeat(31), " ".repeat(32))
    );
    assert_eq!(
        Selection::Last("ab", "b").describe(),
        format!("Last('|ab|{}','|b|{}')", " ".repeat(31), " ".repeat(32))
    );
}

#[test]
fn numbers_are_read_as_the_standard_library_reads_them() {
    let texts = [
        "0", "1", "42", "007", "+5", "-5", "-0", "+0", "+", "-", "", " 1", "1 ", "1_000", "--1",
        "+-1", "-+1", "++1", "4294967295", "4294967296", "2147483647", "2147483648",
        "-2147483648", "-2147483649", "18446744073709551615", "18446744073709551616",
        "9223372036854775807", "9223372036854775808", "-9223372036854775808",
        "-9223372036854775809", "000000000000000000000000000000000000001", "١٢٣", "0x1f", "1e3",
        "99999999999999999999999999999999999999",
    ];
    for t in texts {
        assert_eq!(u32::from_text(t), t.parse::<u32>().ok(), "u32 {t:?}");
        assert_eq!(u64::from_text(t), t.parse::<u64>().ok(), "u64 {t:?}");
        assert_eq!(i32::from_text(t), t.parse::<i32>().ok(), "i32 {t:?}");
        assert_eq!(i64::from_text(t), t.parse::<i64>().ok(), "i64 {t:?}");
        assert_eq!(char::from_text(t), t.parse::<char>().ok(), "char {t:?}");
        assert_eq!(String::from_text(t), t.parse::<String>().ok(), "String {t:?}");
        for radix in [2, 8, 10, 16, 36] {
            assert_eq!(
                parse_unsigned(t, radix, u32::MAX as u64),
                u32::from_str_radix(t, radix).ok().map(u64::from),
                "u32 {t:?} in base {radix}"
            );
            assert_eq!(
                parse_signed(t, radix, i32::MAX as i64),
                i32::from_str_radix(t, radix).ok().map(i64::from),
                "i32 {t:?} in base {radix}"
            );
        }
    }
    assert_eq!(parse_unsigned("fF", 16, 255), Some(255));
    assert_eq!(parse_unsigned("fF", 16, 254), None);
    assert_eq!(parse_signed("-zz", 36, 2000), Some(-1295));
    assert_eq!(parse_digits("101", 2, 5), Some(5));
    assert_eq!(parse_digits("+101", 2, 5), None);
    assert_eq!(parse_digits("", 10, 5), None);
    assert_eq!(parse_digits("6", 10, 5), None);
    for c in ['0', '9', 'a', 'z', 'A', 'Z', 'g', '/', ':', '@', '[', '`', '{', 'é', '٣'] {
        for radix in 2..=36 {
            assert_eq!(to_digit(c, radix), c.to_digit(radix), "{c:?} in base {radix}");
        }
    }
}

#[test]
fn ranges_are_read_as_inclusive_bounds() {
    assert_eq!((2..5).start_end(), (Some(2), Some(4)));
    assert_eq!((2..=5).start_end(), (Some(2), Some(5)));
    assert_eq!((2..).start_end(), (Some(2), None));
    assert_eq!((..5).start_end(), (None, Some(4)));
    assert_eq!((..=5).start_end(), (None, Some(5)));
    assert_eq!((..).start_end(), (None, None));
    assert_eq!((-3..i32::MIN).start_end(), (Some(-3), Some(i32::MIN as i64 - 1)));
    assert_eq!((i32::MIN..=i32::MAX).start_end(), (Some(i32::MIN as i64), Some(i32::MAX as i64)));
    assert_eq!((..i32::MIN).start_end(), (None, Some(i32::MIN as i64 - 1)));
}

#[test]
fn repeat_stops_at_the_upper_bound() {
    let mut calls = 0;
    let c = Cursor::from("aaaaaa").repeat(2..=4, |c| {
        calls += 1;
        c.text("a")
    });
    assert_eq!(c.str().unwrap(), "aa");
    assert_eq!(calls, 4);
    let c = Cursor::from("aaaaaa").repeat(2..4, |c| c.text("a"));
    assert_eq!(c.str().unwrap(), "aaa");
    let c = Cursor::from("aaaaaa").repeat(.., |c| c.text("a"));
    assert_eq!(c.str().unwrap(), "");
    let c = Cursor::from("aaaaaa").repeat(..=-1, |c| c.text("a"));
    assert_eq!(c.str().unwrap(), "aaaaaa");
    // the least count is not enforced
    let c = Cursor::from("ab").repeat(5..=7, |c| c.text("a"));
    assert_eq!(c.str().unwrap(), "b");
    let c = Some("xyz").repeat(1.., |c| c.text("a"));
    assert_eq!(c, Some("xyz"));
}

#[test]
fn values_are_bound_to_variables() {
    let mut n = 7;
    let c = (Cursor::from("x"), Some(3)).bind(&mut n);
    assert_eq!((c.str().unwrap(), n), ("x", 3));
    let c = (Cursor::from("x"), None).bind(&mut n);
    assert_eq!((c.str().unwrap(), n), ("x", 3));
    let mut word = String::new();
    let c = Cursor::from("nine lives")
        .alphabetics(1..)
        .parse_selection()
        .bind(&mut word)
        .ws();
    assert_eq!((c.str().unwrap(), word.as_str()), ("lives", "nine"));
}

#[test]
fn options_do_not_halt_the_chain() {
    let (c, v) = Cursor::from("12x").digits(1..).parse_opt_selection::<u32>();
    assert_eq!((c.str().unwrap(), v), ("x", Some(Some(12))));
    let (c, v) = Cursor::from("ab1").alphabetics(1..).parse_opt_selection::<u32>();
    assert_eq!((c.str().unwrap(), v), ("1", Some(None)));
    let (c, v) = Cursor::from("ab1").parse_opt_with(|s: &str| Ok((&s[2..], 2)));
    assert_eq!((c.str().unwrap(), v), ("1", Some(Some(2))));
    let (c, v) = Cursor::from("ab1").parse_opt_with(|_| Err::<(&str, i32), _>(failure("no", "")));
    assert_eq!((c.str().unwrap(), v), ("ab1", Some(None)));
    let (c, v) = Cursor::from("ab1").parse_with_str(|s: &str| Ok((&s[2..], 2)));
    assert_eq!((c.str().unwrap(), v), ("1", Some(2)));
    let (c, v) = Cursor::from("ab1").parse_with_str(|_| Err::<(&str, i32), _>(failure("no", "")));
    assert_eq!((c.str().unwrap(), v), ("ab1", None));
    let mut vec = vec![1];
    let c = Cursor::from("23x").digits(1..).append_last(&mut vec);
    assert_eq!((c.str().unwrap(), vec), ("x", vec![1, 23]));
}

#[test]
fn clipboard_reads_the_remaining_text() {
    let mut n = 5;
    let c = Clipboard::new(Cursor::from("-12")).put_i32(&mut n);
    assert_eq!((c.str().unwrap(), n), ("-12", -12));
    let c = Clipboard::new(Cursor::from("12 ")).put_i32(&mut n);
    assert_eq!(n, -12);
    assert_eq!(
        c.validate().unwrap_err().message(),
        "FailedMatch: (action='parse i32' args='12 ')"
    );
    let c = Clipboard::new(Cursor::from("1").text("x")).put_i32(&mut n);
    assert_eq!(n, -12);
    assert_eq!(
        c.validate().unwrap_err().message(),
        "FailedMatch: (action='text' args='x')"
    );
    assert_eq!(Clipboard::new(Cursor::from("42")).as_i32().unwrap(), 42);
    assert_eq!(Clipboard::new(Some("42")).as_i32().unwrap(), 42);
    assert!(Clipboard::new(Cursor::from("4x")).as_i32().is_err());
    assert!(Clipboard::new((Cursor::from("42"), None::<i32>)).as_i32().is_err());
    let mut s = "before";
    let c = Clipboard::new(Cursor::from("abc").text("a")).put_str(&mut s);
    assert_eq!((c.str().unwrap(), s), ("bc", "bc"));
    let c = Clipboard::new(Cursor::from("abc").text("x")).put_str(&mut s);
    assert!(c.is_skip());
    assert_eq!(s, "bc");
}

#[test]
fn classes_of_characters() {
    for c in '\0'..='\u{ff}' {
        assert_eq!(is_digit(c), c.is_ascii_digit());
        assert_eq!(
            is_horizontal_space(c),
            c.is_whitespace() && c != '\n' && c != '\r'
        );
        assert_eq!(
            is_word_char(c),
            c.is_alphanumeric() || c.is_ascii_digit() || c == '-'
        );
        assert_eq!(is_one_of(&['a', 'é', '\0'], c), c == 'a' || c == 'é' || c == '\0');
        assert_eq!(is_one_of(&[], c), false);
        assert_eq!(to_upper(c), c.to_ascii_uppercase());
        let u = c.to_ascii_uppercase();
        assert_eq!(
            is_name_char(c),
            ('A'..'Z').contains(&u) || ('0'..'9').contains(&u) || "._%+-".contains(u)
        );
        assert_eq!(
            is_domain_char(c),
            ('A'..'Z').contains(&u) || ('0'..'9').contains(&u) || ".-".contains(u)
        );
    }
    assert_eq!(Some(" \t\u{a0}\u{2003}x").ws(), Some("x"));
    assert_eq!(Some(" \t\u{a0}\n x").hws(), Some("\n x"));
    assert_eq!(Some("añ9-_x").word(), Some("_x"));
    assert_eq!(Some("añ9 x").non_ws(), Some(" x"));
    assert_eq!(Some("añ9x").non_ws(), Some(""));
    assert_eq!(Some("añ٣-").alphanumerics(1..), Some("-"));
    assert_eq!(Some("añ٣-").alphabetics(1..), Some("٣-"));
}

#[test]
fn email_takes_name_at_and_domain() {
    assert_eq!(email(Some("Andy.Smith+x@Mail-1.Example.com, ...")), Some(", ..."));
    assert_eq!(email(Some("@example.com")), None);
    assert_eq!(email(Some("andy@")), None);
    assert_eq!(email(Some("andy example.com")), None);
    // the tables stop short of their last letter and digit
    assert_eq!(email(Some("jazz@example.com")), None);
    assert_eq!(email(Some("a9@example.com")), None);
    assert_eq!(email(Some("a8@b8z")), Some("z"));
}

#[test]
fn slices_of_text() {
    assert_eq!(pop_char("héllo"), Some(('h', "éllo")));
    assert_eq!(pop_char("éllo"), Some(('é', "llo")));
    assert_eq!(pop_char(""), None);
    assert_eq!(byte_len("héllo"), 6);
    assert!(same_text("héllo", "héllo"));
    assert!(!same_text("héllo", "héll"));
    assert!(!same_text("héll", "héllo"));
    assert!(same_text("", ""));
    let input = "héllo wörld";
    assert_eq!(span(input, &input[7..]), "héllo ");
    assert_eq!(span(input, input), "");
    assert_eq!(span(input, ""), input);
    assert_eq!(skip_spaces(" \n\t x "), "x ");
    assert_eq!(scan("héllo", None, |c| c == 'l'), (2, "llo"));
    assert_eq!(scan("héllo", Some(1), |c| c == 'l'), (1, "éllo"));
    assert_eq!(scan("héllo", Some(0), |c| c == 'l'), (0, "héllo"));
    assert_eq!(scan("héllo", Some(9), |_| false), (5, ""));
    assert_eq!(strip_text("héllo", "hé"), Some("llo"));
    assert_eq!(strip_text("héllo", "he"), None);
    assert_eq!(strip_char("éllo", 'é'), Some("llo"));
    assert_eq!(strip_char("éllo", 'e'), None);
    assert_eq!(strip_char("", 'e'), None);
    assert_eq!(strip_maybe("héllo", "hé"), Some("llo"));
    assert_eq!(strip_maybe("héllo", "he"), Some("héllo"));
    assert_eq!(strip_alt("héllo", &["he", "h", "hé"]), Some("éllo"));
    assert_eq!(strip_alt("héllo", &[]), None);
    assert_eq!(at_end(""), Some(""));
    assert_eq!(at_end(" "), None);
    assert_eq!(strip_eol("\r\nx"), Some("x"));
    assert_eq!(seek("héllo héllo", "llo"), Some("llo héllo"));
    assert_eq!(seek("héllo", ""), Some("héllo"));
    assert_eq!(seek("", ""), Some(""));
    assert_eq!(seek("", "x"), None);
    assert_eq!(seek("aab", "ab"), Some("ab"));
    assert_eq!(seek_past("héllo héllo", "llo"), Some(" héllo"));
    assert_eq!(seek_past("héllo", "o"), Some(""));
    assert_eq!(seek_past_eol("é\nx\ny"), Some("x\ny"));
    assert_eq!(seek_past_eol("é"), Some(""));
}
