//! What each matching step does to the text that remains: a function from
//! the remaining text to the text after the step, or to nothing where the
//! step does not match. Each comes with the code that computes it on a slice.

use crate::text::{pop_char, strip_prefix};
use vstd::prelude::*;
use vstd::std_specs::iter::IteratorSpec;

verus! {

/// The view of an optional slice.
pub open spec fn opt_view(o: Option<&str>) -> Option<Seq<char>> {
    match o {
        Some(s) => Some(s@),
        None => None,
    }
}

/// `word` taken off the head of `s`, where `s` starts with it.
pub open spec fn text_move(s: Seq<char>, word: Seq<char>) -> Option<Seq<char>> {
    if word.is_prefix_of(s) {
        Some(s.skip(word.len() as int))
    } else {
        None
    }
}

/// The character `ch` taken off the head of `s`, where `s` starts with it.
pub open spec fn char_move(s: Seq<char>, ch: char) -> Option<Seq<char>> {
    if s.len() > 0 && s[0] == ch {
        Some(s.skip(1))
    } else {
        None
    }
}

/// `word` taken off the head of `s` where `s` starts with it, and `s` as it is
/// where it does not.
pub open spec fn maybe_move(s: Seq<char>, word: Seq<char>) -> Option<Seq<char>> {
    if word.is_prefix_of(s) {
        Some(s.skip(word.len() as int))
    } else {
        Some(s)
    }
}

/// The first of `words`, in their order, that `s` starts with, taken off its
/// head.
pub open spec fn text_alt_move(s: Seq<char>, words: Seq<Seq<char>>) -> Option<Seq<char>>
    decreases words.len(),
{
    if words.len() == 0 {
        None
    } else if words[0].is_prefix_of(s) {
        Some(s.skip(words[0].len() as int))
    } else {
        text_alt_move(s, words.drop_first())
    }
}

/// The empty text stays; anything else does not match.
pub open spec fn end_of_stream_move(s: Seq<char>) -> Option<Seq<char>> {
    if s.len() == 0 {
        Some(s)
    } else {
        None
    }
}

/// The empty text stays; a line terminator, `\r\n` or `\n`, is taken off the
/// head; anything else does not match.
pub open spec fn end_of_line_move(s: Seq<char>) -> Option<Seq<char>> {
    if s.len() == 0 {
        Some(s)
    } else if s.len() >= 2 && s[0] == '\r' && s[1] == '\n' {
        Some(s.skip(2))
    } else if s[0] == '\n' {
        Some(s.skip(1))
    } else {
        None
    }
}

/// `needle` stands in `s` at index `i`.
pub open spec fn occurs_at(s: Seq<char>, needle: Seq<char>, i: int) -> bool {
    0 <= i <= s.len() && needle.is_prefix_of(s.skip(i))
}

/// `needle` stands in `s` at index `i` and nowhere before.
pub open spec fn first_occurrence(s: Seq<char>, needle: Seq<char>, i: int) -> bool {
    occurs_at(s, needle, i) && forall|j: int| 0 <= j < i ==> !occurs_at(s, needle, j)
}

/// The index at which `needle` first stands in `s`, where it stands in it at all.
pub open spec fn first_index(s: Seq<char>, needle: Seq<char>) -> Option<int> {
    if exists|i: int| first_occurrence(s, needle, i) {
        Some(choose|i: int| first_occurrence(s, needle, i))
    } else {
        None
    }
}

/// A first occurrence is the first occurrence.
pub proof fn lemma_first_index(s: Seq<char>, needle: Seq<char>, i: int)
    requires
        first_occurrence(s, needle, i),
    ensures
        first_index(s, needle) == Some(i),
{
}

/// Without an occurrence there is no first one.
pub proof fn lemma_no_index(s: Seq<char>, needle: Seq<char>)
    requires
        forall|i: int| !occurs_at(s, needle, i),
    ensures
        first_index(s, needle) is None,
{
}

/// `s` from the first occurrence of `needle` on.
pub open spec fn find_move(s: Seq<char>, needle: Seq<char>) -> Option<Seq<char>> {
    match first_index(s, needle) {
        Some(i) => Some(s.skip(i)),
        None => None,
    }
}

/// `s` from behind the first occurrence of `needle` on.
pub open spec fn scan_text_move(s: Seq<char>, needle: Seq<char>) -> Option<Seq<char>> {
    match first_index(s, needle) {
        Some(i) => Some(s.skip(i + needle.len())),
        None => None,
    }
}

/// `s` from behind its first newline on, or the empty text where it has none.
pub open spec fn scan_eol_move(s: Seq<char>) -> Option<Seq<char>> {
    match first_index(s, seq!['\n']) {
        Some(i) => Some(s.skip(i + 1)),
        None => Some(Seq::empty()),
    }
}

/// `s` without `word` at its head, or `None` where it does not start with `word`.
pub fn strip_text<'a>(s: &'a str, word: &str) -> (r: Option<&'a str>)
    ensures
        opt_view(r) == text_move(s@, word@),
        r is Some ==> r.unwrap()@.is_suffix_of(s@),
{
    strip_prefix(s, word)
}

/// `s` without `ch` at its head, or `None` where it does not start with `ch`.
pub fn strip_char<'a>(s: &'a str, ch: char) -> (r: Option<&'a str>)
    ensures
        opt_view(r) == char_move(s@, ch),
        r is Some ==> r.unwrap()@.is_suffix_of(s@),
{
    match pop_char(s) {
        Some((c, rest)) => if c == ch {
            Some(rest)
        } else {
            None
        },
        None => None,
    }
}

/// `s` without `word` at its head where it starts with `word`, else `s`.
pub fn strip_maybe<'a>(s: &'a str, word: &str) -> (r: Option<&'a str>)
    ensures
        opt_view(r) == maybe_move(s@, word@),
        r is Some ==> r.unwrap()@.is_suffix_of(s@),
{
    match strip_prefix(s, word) {
        Some(rest) => Some(rest),
        None => Some(s),
    }
}

/// The views of a list of words.
pub open spec fn words_view(words: Seq<&str>) -> Seq<Seq<char>> {
    words.map_values(|w: &str| w@)
}

/// `s` without the first of `words` that it starts with.
pub fn strip_alt<'a>(s: &'a str, words: &[&str]) -> (r: Option<&'a str>)
    ensures
        opt_view(r) == text_alt_move(s@, words_view(words@)),
        r is Some ==> r.unwrap()@.is_suffix_of(s@),
{
    let ghost all = words_view(words@);
    let mut i: usize = 0;
    assert(all.skip(0) =~= all);
    while i < words.len()
        invariant
            i <= words.len(),
            all == words_view(words@),
            text_alt_move(s@, all) == text_alt_move(s@, all.skip(i as int)),
        decreases words.len() - i,
    {
        let ghost tail = all.skip(i as int);
        assert(tail.drop_first() =~= all.skip(i + 1));
        match strip_prefix(s, words[i]) {
            Some(rest) => {
                return Some(rest);
            },
            None => {},
        }
        i = i + 1;
    }
    None
}

/// `s` where it is empty.
pub fn at_end<'a>(s: &'a str) -> (r: Option<&'a str>)
    ensures
        opt_view(r) == end_of_stream_move(s@),
        r is Some ==> r.unwrap()@.is_suffix_of(s@),
{
    if s.is_empty() {
        Some(s)
    } else {
        None
    }
}

/// `s` where it is empty, or without the line terminator at its head.
pub fn strip_eol<'a>(s: &'a str) -> (r: Option<&'a str>)
    ensures
        opt_view(r) == end_of_line_move(s@),
        r is Some ==> r.unwrap()@.is_suffix_of(s@),
{
    proof {
        reveal_strlit("\r\n");
        reveal_strlit("\n");
    }
    if s.is_empty() {
        return Some(s);
    }
    let ghost crlf = "\r\n"@;
    let ghost lf = "\n"@;
    proof {
        if crlf.is_prefix_of(s@) {
            assert(s@.subrange(0, 2)[1] == '\n');
        }
        if lf.is_prefix_of(s@) {
            assert(s@.subrange(0, 1)[0] == '\n');
        }
    }
    match strip_prefix(s, "\r\n") {
        Some(rest) => Some(rest),
        None => strip_prefix(s, "\n"),
    }
}

/// `s` from the first occurrence of `needle` on, with the index of that
/// occurrence in characters.
pub fn seek<'a>(s: &'a str, needle: &str) -> (r: Option<&'a str>)
    ensures
        opt_view(r) == find_move(s@, needle@),
        r is Some ==> r.unwrap()@.is_suffix_of(s@),
{
    let mut it = s.chars();
    let mut rest: &'a str = s;
    let ghost mut k: int = 0;
    loop
        invariant
            0 <= k <= s@.len(),
            rest@ == s@.skip(k),
            it.remaining() == rest@,
            forall|j: int| 0 <= j < k ==> !occurs_at(s@, needle@, j),
        decreases s@.len() - k,
    {
        if strip_prefix(rest, needle).is_some() {
            proof {
                lemma_first_index(s@, needle@, k);
            }
            return Some(rest);
        }
        match it.next() {
            None => {
                proof {
                    lemma_no_index(s@, needle@);
                }
                return None;
            },
            Some(_c) => {
                rest = it.as_str();
                proof {
                    k = k + 1;
                }
            },
        }
    }
}

/// `s` from behind the first occurrence of `needle` on.
pub fn seek_past<'a>(s: &'a str, needle: &str) -> (r: Option<&'a str>)
    ensures
        opt_view(r) == scan_text_move(s@, needle@),
        r is Some ==> r.unwrap()@.is_suffix_of(s@),
{
    match seek(s, needle) {
        Some(at) => {
            let after = strip_prefix(at, needle);
            after
        },
        None => None,
    }
}

/// `s` from behind its first newline on, or the empty text.
pub fn seek_past_eol<'a>(s: &'a str) -> (r: Option<&'a str>)
    ensures
        opt_view(r) == scan_eol_move(s@),
        r is Some ==> r.unwrap()@.is_suffix_of(s@),
{
    proof {
        reveal_strlit("\n");
        reveal_strlit("");
        assert("\n"@ =~= seq!['\n']);
    }
    match seek_past(s, "\n") {
        Some(rest) => Some(rest),
        None => Some(""),
    }
}

} // verus!
