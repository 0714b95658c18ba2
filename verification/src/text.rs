//! Borrowed string slices seen as sequences of characters: the few operations
//! on `&str` that the scanning engine is built from.

use core::str::Chars;
use vstd::prelude::*;
use vstd::std_specs::iter::IteratorSpec;
use vstd::string::StringSliceAdditionalSpecFns;
use vstd::utf8::*;

verus! {

/// `Chars::as_str` of the standard library: the part of the string that the
/// iterator has not yet walked over, as a slice of the string it walks.
pub assume_specification<'a>[ Chars::<'a>::as_str ](chars: &Chars<'a>) -> (rest: &'a str)
    ensures
        rest@ == chars.remaining(),
;

/// `str::strip_prefix` of the standard library, with a string as the pattern:
/// `Some` of what follows `word` where `s` starts with `word`, `None` where it
/// does not.
#[verifier::external_body]
pub(crate) fn strip_prefix<'a>(s: &'a str, word: &str) -> (rest: Option<&'a str>)
    ensures
        rest is Some <==> word@.is_prefix_of(s@),
        rest is Some ==> rest.unwrap()@ == s@.skip(word@.len() as int),
{
    s.strip_prefix(word)
}

/// `String::from` of the standard library, for one character: the string that
/// holds this character and nothing else.
#[verifier::external_body]
pub(crate) fn char_text(c: char) -> (text: String)
    ensures
        text@ == seq![c],
{
    String::from(c)
}

/// Whether `a` and `b` are the same text.
pub fn same_text(a: &str, b: &str) -> (same: bool)
    ensures
        same == (a@ == b@),
{
    match strip_prefix(a, b) {
        Some(rest) => {
            assert(rest@.len() == 0 ==> a@ =~= b@);
            rest.is_empty()
        },
        None => {
            false
        },
    }
}

/// The encoding of a concatenation is the concatenation of the encodings, and
/// the seam between the two is a character boundary.
proof fn lemma_encode_concat(a: Seq<char>, b: Seq<char>)
    ensures
        encode_utf8(a + b) == encode_utf8(a) + encode_utf8(b),
        is_char_boundary(encode_utf8(a + b), encode_utf8(a).len() as int),
    decreases a.len(),
{
    let whole = encode_utf8(a + b);
    encode_utf8_valid_utf8(a + b);
    if a.len() > 0 {
        let tail = a.drop_first();
        assert((a + b).drop_first() =~= tail + b);
        lemma_encode_concat(tail, b);
        encode_utf8_first_scalar(a + b);
        assert(pop_first_scalar(whole) =~= encode_utf8(tail + b));
    }
}

/// An encoding has at least one byte for each character.
proof fn lemma_encode_len(chars: Seq<char>)
    ensures
        chars.len() <= encode_utf8(chars).len(),
    decreases chars.len(),
{
    if chars.len() > 0 {
        lemma_encode_len(chars.drop_first());
    }
}

/// The number of bytes of `s`, which bounds its number of characters.
pub fn byte_len(s: &str) -> (n: usize)
    ensures
        n == s.spec_bytes().len(),
        s@.len() <= n,
{
    proof {
        lemma_encode_len(s@);
    }
    s.as_bytes().len()
}

/// The text between two positions of one buffer: `start` without its tail `end`.
pub fn span<'a>(start: &'a str, end: &'a str) -> (text: &'a str)
    requires
        end@.is_suffix_of(start@),
    ensures
        text@ == start@.take(start@.len() - end@.len()),
        text@ + end@ == start@,
{
    let ghost cut = start@.len() - end@.len();
    proof {
        let head = start@.take(cut);
        assert(start@ =~= head + end@);
        lemma_encode_concat(head, end@);
    }
    let n: usize = start.as_bytes().len() - end.as_bytes().len();
    let (text, _tail) = start.split_at(n);
    proof {
        let head = start@.take(cut);
        assert(start.spec_bytes().subrange(0, n as int) =~= encode_utf8(head));
        encode_utf8_decode_utf8(head);
        encode_utf8_decode_utf8(text@);
    }
    text
}

/// The first character of `s` and what follows it, or `None` for the empty string.
pub fn pop_char<'a>(s: &'a str) -> (r: Option<(char, &'a str)>)
    ensures
        s@.len() == 0 ==> r is None,
        s@.len() > 0 ==> r is Some && r.unwrap().0 == s@[0] && r.unwrap().1@ == s@.skip(1),
{
    let mut it = s.chars();
    match it.next() {
        Some(c) => {
            let rest = it.as_str();
            Some((c, rest))
        },
        None => None,
    }
}

/// A scan over the head of `s` that passed over `k` characters and then ended:
/// `stop` let each of the `k` pass, and the scan ended at the end of `s`, at
/// the `limit`, or at a character on which `stop` answered `true`.
pub open spec fn scanned<F: FnMut(char) -> bool>(
    s: Seq<char>,
    k: nat,
    limit: Option<nat>,
    stop: F,
) -> bool {
    &&& k <= s.len()
    &&& limit is Some ==> k <= limit.unwrap()
    &&& forall|i: int| 0 <= i < k ==> call_ensures(stop, (#[trigger] s[i],), false)
    &&& (k == s.len() || limit == Some(k) || call_ensures(stop, (s[k as int],), true))
}

/// A limit as a mathematical number.
pub open spec fn limit_of(limit: Option<usize>) -> Option<nat> {
    match limit {
        Some(l) => Some(l as nat),
        None => None,
    }
}

/// Walks over the head of `s` until `stop` answers `true`, the `limit` is
/// reached or `s` ends, and returns how many characters it passed over and
/// what follows them.
pub fn scan<'a, F: FnMut(char) -> bool>(s: &'a str, limit: Option<usize>, stop: F) -> (r: (
    usize,
    &'a str,
))
    requires
        forall|c: char| call_requires(stop, (c,)),
    ensures
        scanned(s@, r.0 as nat, limit_of(limit), stop),
        r.1@ == s@.skip(r.0 as int),
{
    let mut it = s.chars();
    let mut rest: &'a str = s;
    let mut k: usize = 0;
    let mut ask = stop;
    let bytes: usize = byte_len(s);
    loop
        invariant
            ask == stop,
            s@.len() <= bytes,
            forall|c: char| call_requires(stop, (c,)),
            k <= s@.len(),
            limit is Some ==> k <= limit.unwrap(),
            rest@ == s@.skip(k as int),
            it.remaining() == rest@,
            forall|i: int| 0 <= i < k ==> call_ensures(stop, (#[trigger] s@[i],), false),
        decreases s@.len() - k,
    {
        if limit == Some(k) {
            return (k, rest);
        }
        match it.next() {
            None => {
                return (k, rest);
            },
            Some(c) => {
                if ask(c) {
                    return (k, rest);
                }
                rest = it.as_str();
                k = k + 1;
            },
        }
    }
}

} // verus!
