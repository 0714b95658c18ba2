//! Classes of characters, and the run of a class at the head of a text.

use crate::text::{scan, scanned};
use vstd::prelude::*;

verus! {

/// Whether `c` is white space, as `char::is_whitespace` of the standard
/// library answers.
pub uninterp spec fn whitespace(c: char) -> bool;

/// Whether `c` is a letter, as `char::is_alphabetic` of the standard library
/// answers.
pub uninterp spec fn alphabetic(c: char) -> bool;

/// Whether `c` is a letter or a number, as `char::is_alphanumeric` of the
/// standard library answers.
pub uninterp spec fn alphanumeric(c: char) -> bool;

/// `char::is_whitespace` of the standard library: whether `c` is white space. The
/// answer depends on the character alone.
#[verifier::external_body]
pub(crate) fn is_whitespace(c: char) -> (b: bool)
    ensures
        b == whitespace(c),
{
    c.is_whitespace()
}

/// `char::is_alphabetic` of the standard library: whether `c` is a letter. The
/// answer depends on the character alone.
#[verifier::external_body]
pub(crate) fn is_alphabetic(c: char) -> (b: bool)
    ensures
        b == alphabetic(c),
{
    c.is_alphabetic()
}

/// `char::is_alphanumeric` of the standard library: whether `c` is a letter or a number. The
/// answer depends on the character alone.
#[verifier::external_body]
pub(crate) fn is_alphanumeric(c: char) -> (b: bool)
    ensures
        b == alphanumeric(c),
{
    c.is_alphanumeric()
}

/// One of the ten ASCII digits.
pub open spec fn digit(c: char) -> bool {
    '0' <= c <= '9'
}

/// White space that does not end a line.
pub open spec fn horizontal_space(c: char) -> bool {
    whitespace(c) && c != '\n' && c != '\r'
}

/// A character of a word: a letter, a number or a hyphen.
pub open spec fn word_char(c: char) -> bool {
    alphanumeric(c) || digit(c) || c == '-'
}

/// Whether `c` is one of the ten ASCII digits.
pub fn is_digit(c: char) -> (b: bool)
    ensures
        b == digit(c),
{
    '0' <= c && c <= '9'
}

/// Whether `c` is white space that does not end a line.
pub fn is_horizontal_space(c: char) -> (b: bool)
    ensures
        b == horizontal_space(c),
{
    is_whitespace(c) && c != '\n' && c != '\r'
}

/// Whether `c` is a letter, a number or a hyphen.
pub fn is_word_char(c: char) -> (b: bool)
    ensures
        b == word_char(c),
{
    is_alphanumeric(c) || is_digit(c) || c == '-'
}

/// Whether `c` is one of `chars`.
pub fn is_one_of(chars: &[char], c: char) -> (b: bool)
    ensures
        b == chars@.contains(c),
{
    let mut i: usize = 0;
    while i < chars.len()
        invariant
            i <= chars.len(),
            forall|j: int| 0 <= j < i ==> chars@[j] != c,
        decreases chars.len() - i,
    {
        if chars[i] == c {
            return true;
        }
        i = i + 1;
    }
    false
}

/// The class of the characters in `chars`.
pub open spec fn one_of(chars: Seq<char>) -> spec_fn(char) -> bool {
    |c: char| chars.contains(c)
}

/// The class of the characters that are not in `chars`.
pub open spec fn none_of(chars: Seq<char>) -> spec_fn(char) -> bool {
    |c: char| !chars.contains(c)
}

/// The class of all characters.
pub open spec fn any_char() -> spec_fn(char) -> bool {
    |c: char| true
}

/// The class of the ASCII digits.
pub open spec fn digits() -> spec_fn(char) -> bool {
    |c: char| digit(c)
}

/// The class of the letters.
pub open spec fn letters() -> spec_fn(char) -> bool {
    |c: char| alphabetic(c)
}

/// The class of the letters and numbers.
pub open spec fn letters_and_numbers() -> spec_fn(char) -> bool {
    |c: char| alphanumeric(c)
}

/// The class of white space.
pub open spec fn spaces() -> spec_fn(char) -> bool {
    |c: char| whitespace(c)
}

/// The class of everything but white space.
pub open spec fn non_spaces() -> spec_fn(char) -> bool {
    |c: char| !whitespace(c)
}

/// The class of the white space that does not end a line.
pub open spec fn horizontal_spaces() -> spec_fn(char) -> bool {
    |c: char| horizontal_space(c)
}

/// The class of the characters of a word.
pub open spec fn word_chars() -> spec_fn(char) -> bool {
    |c: char| word_char(c)
}

/// `s` without the run of `member` at its head.
pub open spec fn skip_run(s: Seq<char>, member: spec_fn(char) -> bool) -> Option<Seq<char>> {
    Some(s.skip(run_length(s, member) as int))
}

/// The first `k` characters of `s` are members, and the one after them, if
/// there is one, is not.
pub open spec fn is_run(s: Seq<char>, k: nat, member: spec_fn(char) -> bool) -> bool {
    &&& k <= s.len()
    &&& forall|i: int| 0 <= i < k ==> member(#[trigger] s[i])
    &&& (k == s.len() || !member(s[k as int]))
}

/// The number of members at the head of `s`, up to the first character that is
/// none, or up to the end of `s`.
pub open spec fn run_length(s: Seq<char>, member: spec_fn(char) -> bool) -> nat
    decreases s.len(),
{
    if s.len() == 0 || !member(s[0]) {
        0
    } else {
        1 + run_length(s.drop_first(), member)
    }
}

/// The length of the run is the one number that marks a run.
pub proof fn lemma_run_length(s: Seq<char>, k: nat, member: spec_fn(char) -> bool)
    requires
        is_run(s, k, member),
    ensures
        run_length(s, member) == k,
    decreases s.len(),
{
    if s.len() > 0 && member(s[0]) {
        lemma_run_length(s.drop_first(), (k - 1) as nat, member);
    }
}

/// The run at the head of a text is a run.
pub proof fn lemma_run_length_is_run(s: Seq<char>, member: spec_fn(char) -> bool)
    ensures
        is_run(s, run_length(s, member), member),
    decreases s.len(),
{
    if s.len() > 0 && member(s[0]) {
        let tail = s.drop_first();
        lemma_run_length_is_run(tail, member);
        let k = run_length(tail, member);
        assert forall|i: int| 0 <= i < k + 1 implies member(#[trigger] s[i]) by {
            if i > 0 {
                assert(s[i] == tail[i - 1]);
            }
        }
    }
}

/// `stop` answers `true` exactly on the characters that are no members.
pub open spec fn stops_outside<F: FnMut(char) -> bool>(
    stop: F,
    member: spec_fn(char) -> bool,
) -> bool {
    forall|c: char, b: bool| call_ensures(stop, (c,), b) ==> b == !member(c)
}

/// A scan that stops outside a class passes over the run of that class, as
/// far as its limit lets it.
pub proof fn lemma_scanned_run<F: FnMut(char) -> bool>(
    s: Seq<char>,
    k: nat,
    limit: Option<nat>,
    stop: F,
    member: spec_fn(char) -> bool,
)
    requires
        scanned(s, k, limit, stop),
        stops_outside(stop, member),
    ensures
        limit is None ==> k == run_length(s, member),
        limit is Some ==> k == if run_length(s, member) < limit.unwrap() {
            run_length(s, member)
        } else {
            limit.unwrap()
        },
{
    lemma_run_length_is_run(s, member);
}

/// `s` without the white space at its head.
pub fn skip_spaces<'a>(s: &'a str) -> (rest: &'a str)
    ensures
        Some(rest@) == skip_run(s@, spaces()),
        rest@.is_suffix_of(s@),
{
    let stop = |c: char| -> (b: bool)
        ensures
            b == !whitespace(c),
        {
            !is_whitespace(c)
        };
    let (k, rest) = scan(s, None, stop);
    proof {
        lemma_scanned_run(s@, k as nat, None, stop, spaces());
    }
    rest
}

} // verus!
