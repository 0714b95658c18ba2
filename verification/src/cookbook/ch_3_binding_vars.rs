//! A value that a later step depends on: text between quotes, where the
//! opening quote decides which character closes it.

use crate::chain::{ChainState, SelectState};
use crate::classes::{lemma_run_length_is_run, none_of, one_of, run_length};
use crate::cursor::Cursor;
use crate::error::{no_match, ParsingError};
use crate::text_parser::{Bind, Matchable, Selectable};
use vstd::prelude::*;

verus! {

/// A text and the quotes that it stood between.
#[derive(PartialEq, Debug)]
pub struct QuotedText {
    pub quote: char,
    pub text: String,
}

impl QuotedText {
    pub fn new(quote: char, text: String) -> (q: Self)
        ensures
            q.quote == quote,
            q.text == text,
    {
        Self { quote, text }
    }
}

/// Whether `c` opens a quoted text.
pub open spec fn is_quote(c: char) -> bool {
    c == '"' || c == '\''
}

/// The number of characters of `s` behind its first, up to the next
/// occurrence of that first character.
pub open spec fn quoted_len(s: Seq<char>) -> int {
    run_length(s.skip(1), none_of(seq![s[0]])) as int
}

/// `s` starts with a quoted text: a quote, any characters but that quote, and
/// that quote again.
pub open spec fn starts_quoted(s: Seq<char>) -> bool {
    s.len() >= 1 && is_quote(s[0]) && quoted_len(s) + 1 < s.len()
}

/// The run of a class of one or two characters at the head of `s` is not
/// empty exactly where the first character of `s` is in the class.
pub proof fn lemma_first_in_class(s: Seq<char>, class: Seq<char>)
    ensures
        run_length(s, one_of(class)) >= 1 <==> s.len() >= 1 && class.contains(s[0]),
{
    lemma_run_length_is_run(s, one_of(class));
}

/// Reads a quoted text at the head of `inp`: the text between two double
/// quotes or between two single quotes. It returns the text and its quote
/// with what follows the closing quote. Any other text is no match.
pub fn parse_quoted_text(inp: &str) -> (r: Result<(&str, QuotedText), ParsingError>)
    ensures
        r is Ok <==> starts_quoted(inp@),
        r is Ok ==> ({
            let (rest, quoted) = r.unwrap();
            &&& quoted.quote == inp@[0]
            &&& quoted.text@ == inp@.subrange(1, quoted_len(inp@) + 1)
            &&& rest@ == inp@.skip(quoted_len(inp@) + 2)
        }),
        r is Err ==> r.unwrap_err()@ == no_match("chars_in"@, "too few"@),
{
    let quotes: [char; 2] = ['"', '\''];
    let c0 = Cursor::from(inp);
    let c1 = c0.chars_in(1..=1, quotes.as_slice());
    let v1 = c1.parse_selection::<char>();
    proof {
        lemma_first_in_class(inp@, quotes@);
    }
    let (c, quote) = match v1.validate() {
        Ok(found) => found,
        Err(e) => {
            return Err(e);
        },
    };
    let closing: [char; 1] = [quote];
    let d0 = Cursor::from(c);
    let d1 = d0.chars_not_in(0.., closing.as_slice());
    let q1 = d1.parse_selection::<String>();
    let q2 = q1.chars_in(1..=1, closing.as_slice());
    proof {
        let inner = inp@.skip(1);
        let k = quoted_len(inp@);
        assert(closing@ =~= seq![inp@[0]]);
        lemma_run_length_is_run(inner, none_of(closing@));
        lemma_first_in_class(inner.skip(k), closing@);
    }
    match q2.validate() {
        Ok((c, text)) => Ok((c, QuotedText { quote, text })),
        Err(e) => Err(e),
    }
}

/// Reads a quoted text as [`parse_quoted_text`] does, in one chain: the quote
/// is taken out of the chain into a variable, which the later steps use.
pub fn parse_quoted_text_v2(inp: &str) -> (r: Result<(&str, QuotedText), ParsingError>)
    ensures
        r is Ok <==> starts_quoted(inp@),
        r is Ok ==> ({
            let (rest, quoted) = r.unwrap();
            &&& quoted.quote == inp@[0]
            &&& quoted.text@ == inp@.subrange(1, quoted_len(inp@) + 1)
            &&& rest@ == inp@.skip(quoted_len(inp@) + 2)
        }),
        r is Err ==> r.unwrap_err()@ == no_match("chars_in"@, "too few"@),
{
    let quotes: [char; 2] = ['"', '\''];
    let mut quote: char = '\0';
    let c0 = Cursor::from(inp);
    let c1 = c0.chars_in(1..=1, quotes.as_slice());
    let v1 = c1.parse_selection::<char>();
    let c2 = v1.bind(&mut quote);
    proof {
        lemma_first_in_class(inp@, quotes@);
    }
    let closing: [char; 1] = [quote];
    let c3 = c2.chars_not_in(0.., closing.as_slice());
    let q1 = c3.parse_selection::<String>();
    let q2 = q1.chars_in(1..=1, closing.as_slice());
    proof {
        if inp@.len() >= 1 && is_quote(inp@[0]) {
            let inner = inp@.skip(1);
            let k = quoted_len(inp@);
            assert(closing@ =~= seq![inp@[0]]);
            lemma_run_length_is_run(inner, none_of(closing@));
            lemma_first_in_class(inner.skip(k), closing@);
            assert(inner.take(inner.len() - inner.skip(k).len()) =~= inp@.subrange(
                1,
                k + 1,
            ));
        }
    }
    match q2.validate() {
        Ok((c, text)) => Ok((c, QuotedText { quote, text })),
        Err(e) => Err(e),
    }
}

} // verus!
