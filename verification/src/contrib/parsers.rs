//! An e-mail address, loosely: a name, an at sign and a domain.

use core::ops::RangeFrom;
use crate::chain::{counted, lemma_matched_counted, rest_of, stepped, ChainState};
use crate::count::CountRange;
use crate::moves::text_move;
use crate::text_parser::Matchable;
use vstd::prelude::*;

verus! {

/// The capital of a small ASCII letter, and any other character as it is.
pub open spec fn upper(c: char) -> char {
    if 'a' <= c <= 'z' {
        ((c as u8) - 32) as char
    } else {
        c
    }
}

/// A capital letter before `Z`, or a digit before `9`.
pub open spec fn plain(u: char) -> bool {
    ('A' <= u < 'Z') || ('0' <= u < '9')
}

/// A character of the name of an address: a letter other than `z`, in either
/// case, a digit other than `9`, or one of `.`, `_`, `%`, `+` and `-`.
pub open spec fn name_char(c: char) -> bool {
    let u = upper(c);
    plain(u) || u == '.' || u == '_' || u == '%' || u == '+' || u == '-'
}

/// A character of the domain of an address: a letter other than `z`, in
/// either case, a digit other than `9`, or one of `.` and `-`.
pub open spec fn domain_char(c: char) -> bool {
    let u = upper(c);
    plain(u) || u == '.' || u == '-'
}

/// The class of the characters of a name.
pub open spec fn name_chars() -> spec_fn(char) -> bool {
    |c: char| name_char(c)
}

/// The class of the characters of a domain.
pub open spec fn domain_chars() -> spec_fn(char) -> bool {
    |c: char| domain_char(c)
}

/// The capital of a small ASCII letter, and any other character as it is.
pub fn to_upper(c: char) -> (u: char)
    ensures
        u == upper(c),
{
    if 'a' <= c && c <= 'z' {
        ((c as u8) - 32) as char
    } else {
        c
    }
}

/// Whether `c` may stand in the name of an address.
pub fn is_name_char(c: char) -> (b: bool)
    ensures
        b == name_char(c),
{
    let u = to_upper(c);
    ('A' <= u && u < 'Z') || ('0' <= u && u < '9') || u == '.' || u == '_' || u == '%' || u == '+'
        || u == '-'
}

/// Whether `c` may stand in the domain of an address.
pub fn is_domain_char(c: char) -> (b: bool)
    ensures
        b == domain_char(c),
{
    let u = to_upper(c);
    ('A' <= u && u < 'Z') || ('0' <= u && u < '9') || u == '.' || u == '-'
}

/// The outcome of matching an address from the chain `before`: one or more
/// characters of a name have left the chain `named`, the at sign behind them
/// the chain `at`, and one or more characters of a domain behind that the
/// outcome.
pub open spec fn addressed<'a, C: ChainState<'a>>(
    before: &C,
    named: &C,
    at: &C,
    after: &C,
) -> bool {
    &&& counted(before, name_chars(), Some(1), None, "chars_match"@, named)
    &&& stepped(named, text_move(rest_of(named), "@"@), "text"@, "@"@, at)
    &&& counted(at, domain_chars(), Some(1), None, "chars_match"@, after)
}

/// Matches an e-mail address: one or more characters of a name, an at sign,
/// and one or more characters of a domain. All the characters of a domain
/// that follow are consumed.
pub fn email<'a, C: Matchable<'a>>(c: C) -> (r: C)
    ensures
        exists|named: C, at: C| #[trigger] addressed(&c, &named, &at, &r),
{
    let named = c.chars_match(1.., is_name_char);
    let at = named.text("@");
    let r = at.chars_match(1.., is_domain_char);
    proof {
        let some: RangeFrom<i32> = 1..;
        lemma_matched_counted(
            &c,
            some.lower(),
            some.upper(),
            is_name_char,
            name_chars(),
            "chars_match"@,
            &named,
        );
        lemma_matched_counted(
            &at,
            some.lower(),
            some.upper(),
            is_domain_char,
            domain_chars(),
            "chars_match"@,
            &r,
        );
        assert(addressed(&c, &named, &at, &r));
    }
    r
}

} // verus!
