//! The matching steps. Each takes the state of a chain and gives the next
//! one: it moves on where it matches, halts where it does not, and leaves a
//! chain that has halted as it is.

use core::ops::RangeFrom;
use crate::chain::{
    apply, collected, consumes, counted, find, lemma_found_counted, lemma_found_matched,
    lemma_listed, lemma_listed_to, lemma_selected_by, listed, listed_to, matched, most_times,
    one_more, repeated, rest_of, selected_by, stays_in_input, stepped, ChainState, SelectState,
};
use crate::classes::{
    alphabetic, alphanumeric, any_char, digit, digits, horizontal_space, horizontal_spaces,
    is_alphabetic, is_alphanumeric, is_digit, is_horizontal_space, is_one_of, is_whitespace,
    is_word_char, letters, letters_and_numbers, non_spaces, none_of, one_of, skip_run, spaces,
    whitespace, word_char, word_chars,
};
use crate::convert::FromText;
use crate::count::CountRange;
use crate::error::{failure, no_match, ParsingError};
use crate::moves::{
    at_end, char_move, end_of_line_move, end_of_stream_move, find_move, maybe_move, opt_view,
    scan_eol_move, scan_text_move, seek, seek_past, seek_past_eol, strip_alt, strip_char, strip_eol,
    strip_maybe, strip_text, text_alt_move, text_move, words_view,
};
use crate::text::char_text;
use vstd::pervasive::unreached;
use vstd::prelude::*;

verus! {

/// The matching steps, for every state of a chain.
///
/// Every step leaves a chain that has halted exactly as it is, so that a long
/// chain coasts to its end after the first failure.
pub trait Matchable<'a>: ChainState<'a> {
    /// Whether the chain has halted, so that every step passes it by.
    fn is_skip(&self) -> (r: bool)
        ensures
            r == (self.remaining() is None),
    {
        self.str().is_err()
    }

    /// Names the chain for diagnostics. Matching is not affected.
    fn debug_context(self, span_name: &'static str) -> (r: Self)
        ensures
            r == self,
    {
        self
    }

    /// The step that always matches and consumes nothing.
    fn noop(self) -> (r: Self)
        ensures
            stepped(&self, Some(rest_of(&self)), "noop"@, ""@, &r),
    {
        let step = |s: &'a str| -> (o: Option<&'a str>)
            ensures
                opt_view(o) == Some(s@),
                o is Some ==> o.unwrap()@.is_suffix_of(s@),
            {
                Some(s)
            };
        apply(self, step, "noop", "")
    }

    /// Matches the character `ch` where the chain stands and moves behind it.
    fn char(self, ch: char) -> (r: Self)
        ensures
            stepped(&self, char_move(rest_of(&self), ch), "char"@, seq![ch], &r),
    {
        let step = |s: &'a str| -> (o: Option<&'a str>)
            ensures
                opt_view(o) == char_move(s@, ch),
                o is Some ==> o.unwrap()@.is_suffix_of(s@),
            {
                strip_char(s, ch)
            };
        let args = char_text(ch);
        apply(self, step, "char", args.as_str())
    }

    /// Tries `words` in their order and moves behind the first that stands
    /// where the chain stands. An empty word always matches, and so makes the
    /// step optional. The failure names the first word.
    fn text_alt(self, words: &[&str]) -> (r: Self)
        ensures
            stepped(
                &self,
                text_alt_move(rest_of(&self), words_view(words@)),
                "text_alt"@,
                if words@.len() > 0 {
                    words@[0]@
                } else {
                    "no words"@
                },
                &r,
            ),
    {
        let step = |s: &'a str| -> (o: Option<&'a str>)
            ensures
                opt_view(o) == text_alt_move(s@, words_view(words@)),
                o is Some ==> o.unwrap()@.is_suffix_of(s@),
            {
                strip_alt(s, words)
            };
        let args: &str = if words.len() > 0 {
            words[0]
        } else {
            "no words"
        };
        apply(self, step, "text_alt", args)
    }

    /// Matches `word` where the chain stands and moves behind it.
    /// The empty word always matches.
    fn text(self, word: &str) -> (r: Self)
        ensures
            stepped(&self, text_move(rest_of(&self), word@), "text"@, word@, &r),
    {
        let step = |s: &'a str| -> (o: Option<&'a str>)
            ensures
                opt_view(o) == text_move(s@, word@),
                o is Some ==> o.unwrap()@.is_suffix_of(s@),
            {
                strip_text(s, word)
            };
        apply(self, step, "text", word)
    }

    /// Moves behind `word` where the chain stands at it, and matches without
    /// moving where it does not.
    fn maybe(self, word: &str) -> (r: Self)
        ensures
            stepped(&self, maybe_move(rest_of(&self), word@), "maybe"@, word@, &r),
    {
        let step = |s: &'a str| -> (o: Option<&'a str>)
            ensures
                opt_view(o) == maybe_move(s@, word@),
                o is Some ==> o.unwrap()@.is_suffix_of(s@),
            {
                strip_maybe(s, word)
            };
        apply(self, step, "maybe", word)
    }

    /// Matches where nothing remains, and only there.
    fn end_of_stream(self) -> (r: Self)
        ensures
            stepped(&self, end_of_stream_move(rest_of(&self)), "eos"@, ""@, &r),
    {
        let step = |s: &'a str| -> (o: Option<&'a str>)
            ensures
                opt_view(o) == end_of_stream_move(s@),
                o is Some ==> o.unwrap()@.is_suffix_of(s@),
            {
                at_end(s)
            };
        apply(self, step, "eos", "")
    }

    /// Matches where nothing remains, and at a line terminator, `\n` or
    /// `\r\n`, which it consumes.
    fn end_of_line(self) -> (r: Self)
        ensures
            stepped(&self, end_of_line_move(rest_of(&self)), "eol"@, ""@, &r),
    {
        let step = |s: &'a str| -> (o: Option<&'a str>)
            ensures
                opt_view(o) == end_of_line_move(s@),
                o is Some ==> o.unwrap()@.is_suffix_of(s@),
            {
                strip_eol(s)
            };
        apply(self, step, "eol", "")
    }

    /// Moves to the first occurrence of `needle`, without consuming it;
    /// halts where there is none.
    fn find(self, needle: &str) -> (r: Self)
        ensures
            stepped(&self, find_move(rest_of(&self), needle@), "find"@, needle@, &r),
    {
        let step = |s: &'a str| -> (o: Option<&'a str>)
            ensures
                opt_view(o) == find_move(s@, needle@),
                o is Some ==> o.unwrap()@.is_suffix_of(s@),
            {
                seek(s, needle)
            };
        apply(self, step, "find", needle)
    }

    /// Moves behind the first occurrence of `needle`; halts where there is
    /// none.
    fn scan_text(self, needle: &str) -> (r: Self)
        ensures
            stepped(&self, scan_text_move(rest_of(&self), needle@), "scan"@, needle@, &r),
    {
        let step = |s: &'a str| -> (o: Option<&'a str>)
            ensures
                opt_view(o) == scan_text_move(s@, needle@),
                o is Some ==> o.unwrap()@.is_suffix_of(s@),
            {
                seek_past(s, needle)
            };
        apply(self, step, "scan", needle)
    }

    /// Moves behind the next newline, or to the end of the input where no
    /// newline is left.
    fn scan_eol(self) -> (r: Self)
        ensures
            stepped(&self, scan_eol_move(rest_of(&self)), "scan_eol"@, ""@, &r),
    {
        let step = |s: &'a str| -> (o: Option<&'a str>)
            ensures
                opt_view(o) == scan_eol_move(s@),
                o is Some ==> o.unwrap()@.is_suffix_of(s@),
            {
                seek_past_eol(s)
            };
        apply(self, step, "scan_eol", "")
    }

    /// Matches characters of `chars`, as many as `range` asks for.
    ///
    /// With `k` such characters where the chain stands, the step halts the
    /// chain where `k` is below the least count, and else consumes `k` of them,
    /// or as many as the highest count allows where `k` is more.
    fn chars_in<R: CountRange>(self, range: R, chars: &[char]) -> (r: Self)
        ensures
            counted(&self, one_of(chars@), range.lower(), range.upper(), "chars_in"@, &r),
    {
        let ghost before = self;
        let stop = |c: char| -> (b: bool)
            ensures
                b == (!chars@.contains(c)),
            {
                !is_one_of(chars, c)
            };
        let r = find(self, &range, stop, "chars_in");
        proof {
            lemma_found_counted(
                &before,
                range.lower(),
                range.upper(),
                stop,
                one_of(chars@),
                "chars_in"@,
                &r,
            );
        }
        r
    }

    /// Matches characters that are not in `chars`, as many as `range` asks for.
    ///
    /// With `k` such characters where the chain stands, the step halts the
    /// chain where `k` is below the least count, and else consumes `k` of them,
    /// or as many as the highest count allows where `k` is more.
    fn chars_not_in<R: CountRange>(self, range: R, chars: &[char]) -> (r: Self)
        ensures
            counted(&self, none_of(chars@), range.lower(), range.upper(), "chars_not_in"@, &r),
    {
        let ghost before = self;
        let stop = |c: char| -> (b: bool)
            ensures
                b == (chars@.contains(c)),
            {
                is_one_of(chars, c)
            };
        let r = find(self, &range, stop, "chars_not_in");
        proof {
            lemma_found_counted(
                &before,
                range.lower(),
                range.upper(),
                stop,
                none_of(chars@),
                "chars_not_in"@,
                &r,
            );
        }
        r
    }

    /// Matches any characters, as many as `range` asks for.
    ///
    /// With `k` such characters where the chain stands, the step halts the
    /// chain where `k` is below the least count, and else consumes `k` of them,
    /// or as many as the highest count allows where `k` is more.
    fn chars_any<R: CountRange>(self, range: R) -> (r: Self)
        ensures
            counted(&self, any_char(), range.lower(), range.upper(), "chars_any"@, &r),
    {
        let ghost before = self;
        let stop = |c: char| -> (b: bool)
            ensures
                b == (false),
            {
                false
            };
        let r = find(self, &range, stop, "chars_any");
        proof {
            lemma_found_counted(
                &before,
                range.lower(),
                range.upper(),
                stop,
                any_char(),
                "chars_any"@,
                &r,
            );
        }
        r
    }

    /// Matches ASCII digits, as many as `range` asks for.
    ///
    /// With `k` such characters where the chain stands, the step halts the
    /// chain where `k` is below the least count, and else consumes `k` of them,
    /// or as many as the highest count allows where `k` is more.
    fn digits<R: CountRange>(self, range: R) -> (r: Self)
        ensures
            counted(&self, digits(), range.lower(), range.upper(), "digits"@, &r),
    {
        let ghost before = self;
        let stop = |c: char| -> (b: bool)
            ensures
                b == (!digit(c)),
            {
                !is_digit(c)
            };
        let r = find(self, &range, stop, "digits");
        proof {
            lemma_found_counted(
                &before,
                range.lower(),
                range.upper(),
                stop,
                digits(),
                "digits"@,
                &r,
            );
        }
        r
    }

    /// Matches letters, as many as `range` asks for.
    ///
    /// With `k` such characters where the chain stands, the step halts the
    /// chain where `k` is below the least count, and else consumes `k` of them,
    /// or as many as the highest count allows where `k` is more.
    fn alphabetics<R: CountRange>(self, range: R) -> (r: Self)
        ensures
            counted(&self, letters(), range.lower(), range.upper(), "alphabetics"@, &r),
    {
        let ghost before = self;
        let stop = |c: char| -> (b: bool)
            ensures
                b == (!alphabetic(c)),
            {
                !is_alphabetic(c)
            };
        let r = find(self, &range, stop, "alphabetics");
        proof {
            lemma_found_counted(
                &before,
                range.lower(),
                range.upper(),
                stop,
                letters(),
                "alphabetics"@,
                &r,
            );
        }
        r
    }

    /// Matches letters and numbers, as many as `range` asks for.
    ///
    /// With `k` such characters where the chain stands, the step halts the
    /// chain where `k` is below the least count, and else consumes `k` of them,
    /// or as many as the highest count allows where `k` is more.
    fn alphanumerics<R: CountRange>(self, range: R) -> (r: Self)
        ensures
            counted(
                &self,
                letters_and_numbers(),
                range.lower(),
                range.upper(),
                "alphanumerics"@,
                &r,
            ),
    {
        let ghost before = self;
        let stop = |c: char| -> (b: bool)
            ensures
                b == (!alphanumeric(c)),
            {
                !is_alphanumeric(c)
            };
        let r = find(self, &range, stop, "alphanumerics");
        proof {
            lemma_found_counted(
                &before,
                range.lower(),
                range.upper(),
                stop,
                letters_and_numbers(),
                "alphanumerics"@,
                &r,
            );
        }
        r
    }

    /// Moves behind the white space where the chain stands, if there is any.
    /// The step always matches.
    fn ws(self) -> (r: Self)
        ensures
            stepped(&self, skip_run(rest_of(&self), spaces()), "ws"@, ""@, &r),
    {
        let ghost before = self;
        let stop = |c: char| -> (b: bool)
            ensures
                b == (!whitespace(c)),
            {
                !is_whitespace(c)
            };
        let all: RangeFrom<i32> = 0..;
        let r = find(self, &all, stop, "ws");
        proof {
            lemma_found_counted(
                &before,
                all.lower(),
                all.upper(),
                stop,
                spaces(),
                "ws"@,
                &r,
            );
        }
        r
    }

    /// Moves to the next white space, or to the end of the input.
    /// The step always matches.
    fn non_ws(self) -> (r: Self)
        ensures
            stepped(&self, skip_run(rest_of(&self), non_spaces()), "non_ws"@, ""@, &r),
    {
        let ghost before = self;
        let stop = |c: char| -> (b: bool)
            ensures
                b == (whitespace(c)),
            {
                is_whitespace(c)
            };
        let all: RangeFrom<i32> = 0..;
        let r = find(self, &all, stop, "non_ws");
        proof {
            lemma_found_counted(
                &before,
                all.lower(),
                all.upper(),
                stop,
                non_spaces(),
                "non_ws"@,
                &r,
            );
        }
        r
    }

    /// Moves behind the white space where the chain stands that does not end
    /// a line, if there is any.
    /// The step always matches.
    fn hws(self) -> (r: Self)
        ensures
            stepped(&self, skip_run(rest_of(&self), horizontal_spaces()), "hws"@, ""@, &r),
    {
        let ghost before = self;
        let stop = |c: char| -> (b: bool)
            ensures
                b == (!horizontal_space(c)),
            {
                !is_horizontal_space(c)
            };
        let all: RangeFrom<i32> = 0..;
        let r = find(self, &all, stop, "hws");
        proof {
            lemma_found_counted(
                &before,
                all.lower(),
                all.upper(),
                stop,
                horizontal_spaces(),
                "hws"@,
                &r,
            );
        }
        r
    }

    /// Moves behind the letters, numbers and hyphens where the chain stands.
    /// The step always matches.
    fn word(self) -> (r: Self)
        ensures
            stepped(&self, skip_run(rest_of(&self), word_chars()), "word"@, ""@, &r),
    {
        let ghost before = self;
        let stop = |c: char| -> (b: bool)
            ensures
                b == (!word_char(c)),
            {
                !is_word_char(c)
            };
        let all: RangeFrom<i32> = 0..;
        let r = find(self, &all, stop, "word");
        proof {
            lemma_found_counted(
                &before,
                all.lower(),
                all.upper(),
                stop,
                word_chars(),
                "word"@,
                &r,
            );
        }
        r
    }

    /// Matches the characters that `pred` accepts, as many as `range` asks
    /// for.
    fn chars_match<R: CountRange, F: Fn(char) -> bool>(self, range: R, pred: F) -> (r: Self)
        requires
            forall|c: char| call_requires(pred, (c,)),
        ensures
            matched(&self, range.lower(), range.upper(), pred, "chars_match"@, &r),
    {
        let ghost before = self;
        let accept = &pred;
        let stop = |c: char| -> (b: bool)
            ensures
                call_ensures(*accept, (c,), !b),
            {
                !accept(c)
            };
        let r = find(self, &range, stop, "chars_match");
        proof {
            lemma_found_matched(
                &before,
                range.lower(),
                range.upper(),
                stop,
                pred,
                "chars_match"@,
                &r,
            );
        }
        r
    }

    /// Applies `lexer` again and again, each time to a copy of the chain as
    /// the last successful application left it, until an application halts
    /// the chain or the highest count of `range` is reached. The outcome is
    /// the chain after the last application that did not halt it, never the
    /// halted one. The least count of `range` is not enforced: fewer
    /// repetitions, and none at all, are a match.
    fn repeat<P: FnMut(Self) -> Self, R: CountRange>(self, range: R, lexer: P) -> (r: Self) where
        Self: Clone,

        requires
            forall|c: Self| call_requires(lexer, (c,)),
        ensures
            exists|trail: Seq<Self>| #[trigger]
                repeated(&self, lexer, most_times(range.upper()), trail, &r),
    {
        let (_start, end) = range.start_end();
        let most: i64 = match end {
            Some(n) => if n < 0 {
                0
            } else if n > i32::MAX as i64 {
                i32::MAX as i64
            } else {
                n
            },
            None => i32::MAX as i64,
        };
        let mut step = lexer;
        let mut cur = self;
        let ghost mut trail: Seq<Self> = seq![self];
        let mut i: i64 = 0;
        while i < most
            invariant
                step == lexer,
                forall|c: Self| call_requires(lexer, (c,)),
                0 <= i <= most,
                most == most_times(range.upper()),
                trail.len() == i + 1,
                trail[0] == self,
                trail.last() == cur,
                forall|j: int|
                    0 <= j < trail.len() - 1 ==> one_more(trail[j], lexer, #[trigger] trail[j + 1])
                        && trail[j + 1].remaining() is Some,
            decreases most - i,
        {
            let copy = cur.clone();
            let c = step(copy);
            if c.is_skip() {
                assert(repeated(&self, lexer, most_times(range.upper()), trail, &cur));
                return cur;
            }
            proof {
                trail = trail.push(c);
            }
            cur = c;
            i = i + 1;
        }
        assert(repeated(&self, lexer, most_times(range.upper()), trail, &cur));
        cur
    }

    /// Parses a list: runs `parser` again and again, each time from where the
    /// item before ended, and gathers the items. The first `NoMatch` ends the
    /// list, and the chain then stands where that last attempt began. Any
    /// other failure of `parser` halts the chain with that failure, and no
    /// list is returned. After each item `parser` must have consumed
    /// something, or the list would never end.
    fn parse_struct_vec<P: FnMut(&'a str) -> Result<(&'a str, T), ParsingError>, T>(
        self,
        parser: P,
    ) -> (r: (Self, Option<Vec<T>>))
        requires
            forall|s: &'a str| call_requires(parser, (s,)),
            consumes(parser),
        ensures
            listed(
                &self,
                parser,
                &r.0,
                match r.1 {
                    Some(v) => Some(v@),
                    None => None,
                },
            ),
    {
        let mut vec: Vec<T> = Vec::new();
        let mut at: &'a str = match self.str() {
            Ok(s) => s,
            Err(_) => {
                return (self, None);
            },
        };
        let mut run = parser;
        let ghost start = at@;
        let ghost mut stops: Seq<&'a str> = seq![at];
        loop
            invariant
                run == parser,
                forall|s: &'a str| call_requires(parser, (s,)),
                consumes(parser),
                self.remaining() == Some(start),
                stops.len() == vec@.len() + 1,
                stops[0]@ == start,
                stops.last() == at,
                at@.is_suffix_of(start),
                forall|i: int|
                    0 <= i < vec@.len() ==> call_ensures(
                        parser,
                        (#[trigger] stops[i],),
                        Ok((stops[i + 1], vec@[i])),
                    ),
            decreases at@.len(),
        {
            match run(at) {
                Ok((s, t)) => {
                    proof {
                        let longer = stops.push(s);
                        stops = longer;
                    }
                    vec.push(t);
                    at = s;
                },
                Err(e) => {
                    let ghost got = vec@;
                    let ghost failed = e;
                    match e {
                        ParsingError::NoMatch { .. } => {
                            let moved = self.set_str(at);
                            proof {
                                lemma_listed(&self, parser, &moved, Some(got), stops, got, failed);
                            }
                            return (moved, Some(vec));
                        },
                        fatal => {
                            let stopped = self.set_error(fatal);
                            proof {
                                lemma_listed(&self, parser, &stopped, None, stops, got, failed);
                            }
                            return (stopped, None);
                        },
                    }
                },
            }
        }
    }

    /// Parses a list as [`Matchable::parse_struct_vec`] does and appends the
    /// items to `vec`. The first `NoMatch` ends the list. Any other failure
    /// of `parser` is handed on, and the items that were parsed before it stay
    /// in `vec`. A chain that has halted gives the error that halted it.
    fn parse_struct_vec_to<P: FnMut(&'a str) -> Result<(&'a str, T), ParsingError>, T>(
        self,
        parser: P,
        vec: &mut Vec<T>,
    ) -> (r: Result<Self, ParsingError>)
        requires
            forall|s: &'a str| call_requires(parser, (s,)),
            consumes(parser),
        ensures
            listed_to(&self, parser, old(vec)@, final(vec)@, &r),
    {
        if self.is_skip() {
            return match self.validate() {
                Err(e) => Err(e),
                Ok(_) => unreached(),
            };
        }
        let mut at: &'a str = match self.str() {
            Ok(s) => s,
            Err(e) => {
                return Err(e);
            },
        };
        let mut run = parser;
        let ghost start = at@;
        let ghost mut stops: Seq<&'a str> = seq![at];
        let ghost mut items: Seq<T> = Seq::empty();
        loop
            invariant
                run == parser,
                forall|s: &'a str| call_requires(parser, (s,)),
                consumes(parser),
                self.remaining() == Some(start),
                stops.len() == items.len() + 1,
                stops[0]@ == start,
                stops.last() == at,
                at@.is_suffix_of(start),
                vec@ == old(vec)@ + items,
                forall|i: int|
                    0 <= i < items.len() ==> call_ensures(
                        parser,
                        (#[trigger] stops[i],),
                        Ok((stops[i + 1], items[i])),
                    ),
            decreases at@.len(),
        {
            match run(at) {
                Ok((s, t)) => {
                    proof {
                        let longer = stops.push(s);
                        let more = items.push(t);
                        stops = longer;
                        items = more;
                    }
                    vec.push(t);
                    at = s;
                },
                Err(e) => {
                    let ghost failed = e;
                    match e {
                        ParsingError::NoMatch { .. } => {
                            let r = Ok(self.set_str(at));
                            proof {
                                lemma_listed_to(
                                    &self,
                                    parser,
                                    old(vec)@,
                                    vec@,
                                    &r,
                                    stops,
                                    items,
                                    failed,
                                );
                            }
                            return r;
                        },
                        fatal => {
                            let r = Err(fatal);
                            proof {
                                lemma_listed_to(
                                    &self,
                                    parser,
                                    old(vec)@,
                                    vec@,
                                    &r,
                                    stops,
                                    items,
                                    failed,
                                );
                            }
                            return r;
                        },
                    }
                },
            }
        }
    }

    /// Runs `parser` on the text that remains. Where it succeeds the chain
    /// moves to where `parser` ended and carries the value; where it fails the
    /// chain halts with the failure of `parser`. A chain that has halted stays
    /// as it is, without a value.
    fn parse_with<P: FnMut(&'a str) -> Result<(&'a str, T), ParsingError>, T>(
        self,
        parser: P,
    ) -> (r: (Self, Option<T>))
        requires
            forall|s: &'a str| call_requires(parser, (s,)),
            stays_in_input(parser),
        ensures
            match self.remaining() {
                None => r.0 == self && r.1 is None,
                Some(start) => exists|s: &'a str, out: Result<(&'a str, T), ParsingError>|
                    s@ == start && #[trigger] call_ensures(parser, (s,), out) && match out {
                        Ok((to, t)) => self.advanced(to@, &r.0) && r.0.remaining() == Some(to@)
                            && r.1 == Some(t),
                        Err(e) => self.halted(e@, &r.0) && r.0.remaining() is None && r.1 is None,
                    },
            },
    {
        let mut run = parser;
        match self.str() {
            Ok(s) => {
                let out = run(s);
                match out {
                    Ok((to, t)) => (self.set_str(to), Some(t)),
                    Err(e) => (self.set_error(e), None),
                }
            },
            Err(_) => (self, None),
        }
    }

    /// Runs `parser` on the text that remains, and forgives its failure:
    /// where it succeeds the chain moves to where `parser` ended and carries
    /// the value; where it fails the chain stays as it is, without a value.
    /// So does a chain that has halted. [`Matchable::parse_with`] is the
    /// better choice: it halts the chain on a failure.
    fn parse_with_str<P: FnMut(&'a str) -> Result<(&'a str, T), ParsingError>, T>(
        self,
        parser: P,
    ) -> (r: (Self, Option<T>))
        requires
            forall|s: &'a str| call_requires(parser, (s,)),
            stays_in_input(parser),
        ensures
            match self.remaining() {
                None => r.0 == self && r.1 is None,
                Some(start) => exists|s: &'a str, out: Result<(&'a str, T), ParsingError>|
                    s@ == start && #[trigger] call_ensures(parser, (s,), out) && match out {
                        Ok((to, t)) => self.advanced(to@, &r.0) && r.0.remaining() == Some(to@)
                            && r.1 == Some(t),
                        Err(_) => r.0 == self && r.1 is None,
                    },
            },
    {
        let mut run = parser;
        match self.str() {
            Ok(s) => {
                let out = run(s);
                match out {
                    Ok((to, t)) => (self.set_str(to), Some(t)),
                    Err(_) => (self, None),
                }
            },
            Err(_) => (self, None),
        }
    }

    /// Runs `parser` on the text that remains, as an option: where it
    /// succeeds the chain moves to where `parser` ended and carries the value;
    /// where it fails the chain stays where it is and carries the fact that
    /// there is none. A chain that has halted stays as it is and carries
    /// nothing.
    fn parse_opt_with<P: FnMut(&'a str) -> Result<(&'a str, T), ParsingError>, T>(
        self,
        parser: P,
    ) -> (r: (Self, Option<Option<T>>))
        requires
            forall|s: &'a str| call_requires(parser, (s,)),
            stays_in_input(parser),
        ensures
            match self.remaining() {
                None => r.0 == self && r.1 is None,
                Some(start) => exists|s: &'a str, out: Result<(&'a str, T), ParsingError>|
                    s@ == start && #[trigger] call_ensures(parser, (s,), out) && match out {
                        Ok((to, t)) => self.advanced(to@, &r.0) && r.0.remaining() == Some(to@)
                            && r.1 == Some(Some(t)),
                        Err(_) => r.0 == self && r.1 == Some(None::<T>),
                    },
            },
    {
        let mut run = parser;
        match self.str() {
            Ok(s) => {
                let out = run(s);
                match out {
                    Ok((to, t)) => (self.set_str(to), Some(Some(t))),
                    Err(_) => (self, Some(None)),
                }
            },
            Err(_) => (self, None),
        }
    }
}

impl<'a> Matchable<'a> for Option<&'a str> {

}

/// What a chain that has not halted gives for the selected text `text`, as a
/// value of the type `T`: the chain as it is with the value that `text`
/// denotes, or the chain halted with the `NoMatch` that names `action`,
/// without a value.
pub open spec fn converted<'a, C: ChainState<'a>, T: FromText>(
    before: &C,
    text: Seq<char>,
    action: Seq<char>,
    after: &C,
    value: Option<T>,
) -> bool {
    if T::accepts(text) {
        *after == *before && value is Some && T::value_of(text, value.unwrap())
    } else {
        before.halted(no_match(action, ""@), after) && after.remaining() is None && value is None
    }
}

/// The steps that turn the selection into a value, for every state of a chain
/// that has a selection.
pub trait Selectable<'a>: SelectState<'a> + Matchable<'a> {
    /// Converts the selected text to a value of the type `T`. Where the text
    /// does not denote one, the chain halts with the `NoMatch` named
    /// `FromStr`. A chain that has halted stays as it is, without a value.
    fn parse_selection<T: FromText>(self) -> (r: (Self, Option<T>))
        ensures
            match self.remaining() {
                None => r.0 == self && r.1 is None,
                Some(_) => converted(&self, self.selected(), "FromStr"@, &r.0, r.1),
            },
    {
        match self.get_selection() {
            Ok(text) => match T::from_text(text) {
                Some(t) => (self, Some(t)),
                None => (self.set_error(failure("FromStr", "")), None),
            },
            Err(_) => (self, None),
        }
    }

    /// Converts the selected text to a value of the type `T`, as an option:
    /// where the text does not denote one, the chain goes on and carries the
    /// fact that there is none. A chain that has halted stays as it is and
    /// carries nothing.
    fn parse_opt_selection<T: FromText>(self) -> (r: (Self, Option<Option<T>>))
        ensures
            r.0 == self,
            match self.remaining() {
                None => r.1 is None,
                Some(_) => r.1 is Some && (r.1.unwrap() is Some <==> T::accepts(self.selected()))
                    && (r.1.unwrap() is Some ==> T::value_of(
                    self.selected(),
                    r.1.unwrap().unwrap(),
                )),
            },
    {
        match self.get_selection() {
            Ok(text) => match T::from_text(text) {
                Some(t) => (self, Some(Some(t))),
                None => (self, Some(None)),
            },
            Err(_) => (self, None),
        }
    }

    /// The selected text as it stands in the input. A chain that has halted
    /// stays as it is, without a text.
    fn parse_selection_as_str(self) -> (r: (Self, Option<&'a str>))
        ensures
            r.0 == self,
            match self.remaining() {
                None => r.1 is None,
                Some(_) => opt_view(r.1) == Some(self.selected()),
            },
    {
        match self.get_selection() {
            Ok(text) => (self, Some(text)),
            Err(_) => (self, None),
        }
    }

    /// Converts the selected text to a value of the type `T` and appends it
    /// to `vec`. Where the text does not denote one, the chain halts with a
    /// `NoMatch` without a name and `vec` stays as it is. So it does on a
    /// chain that has halted, which stays as it is.
    fn append_last<T: FromText>(self, vec: &mut Vec<T>) -> (r: Self)
        ensures
            match self.remaining() {
                None => r == self && final(vec)@ == old(vec)@,
                Some(_) => exists|value: Option<T>|
                    #[trigger] converted(&self, self.selected(), ""@, &r, value) && final(vec)@
                        == match value {
                        Some(t) => old(vec)@.push(t),
                        None => old(vec)@,
                    },
            },
    {
        match self.get_selection() {
            Ok(text) => match T::from_text(text) {
                Some(t) => {
                    assert(converted(&self, self.selected(), ""@, &self, Some(t)));
                    vec.push(t);
                    self
                },
                None => {
                    let r = self.set_error(failure("", ""));
                    assert(converted(&self, self.selected(), ""@, &r, None::<T>));
                    r
                },
            },
            Err(_) => self,
        }
    }

    /// Selects what the sub-chain `parser` consumes: sets a mark, runs
    /// `parser` from there, and closes the selection where `parser` ends.
    /// Where `parser` halts the chain, the chain halts with the `NoMatch`
    /// named `select_with`. A chain that has halted stays as it is.
    fn select<P: FnMut(Self) -> Self>(self, parser: P) -> (r: Self)
        requires
            forall|c: Self| call_requires(parser, (c,)),
        ensures
            selected_by(&self, parser, &r),
    {
        let mut run = parser;
        if self.is_skip() {
            return self;
        }
        let marked = self.selection_start();
        let ghost start = marked;
        let t = run(marked);
        let ghost left = t;
        match t.str() {
            Ok(tt) => {
                let settled = t.set_str(tt);
                let r = settled.selection_end();
                proof {
                    assert(left.advanced(tt@, &settled) && settled.remaining() == Some(tt@)
                        && settled.closed(&r) && r.remaining() == Some(tt@));
                    lemma_selected_by(&self, parser, &r, start, left);
                }
                r
            },
            Err(_) => {
                let r = t.set_error(failure("select_with", ""));
                proof {
                    lemma_selected_by(&self, parser, &r, start, left);
                }
                r
            },
        }
    }
}

/// Taking the value out of a chain into a variable.
pub trait Bind<T> {
    /// What is left when the value is taken out.
    type Output;

    /// `out` is what is left of this state when its value is stored in a
    /// variable that held `held` and then holds `holds`.
    spec fn bound(self, held: T, holds: T, out: Self::Output) -> bool;

    /// Stores the value that the chain carries in `t`, and hands on the chain
    /// without it. Where the chain carries no value, `t` stays as it is.
    fn bind(self, t: &mut T) -> (r: Self::Output)
        ensures
            self.bound(*old(t), *final(t), r),
    ;
}

impl<'a, C: Matchable<'a>, T> Bind<T> for (C, Option<T>) {
    type Output = C;

    open spec fn bound(self, held: T, holds: T, out: Self::Output) -> bool {
        out == self.0 && holds == match self.1 {
            Some(t) => t,
            None => held,
        }
    }

    fn bind(self, target: &mut T) -> (r: Self::Output) {
        let (c, opt_t) = self;
        if let Some(t) = opt_t {
            *target = t;
        }
        c
    }
}

} // verus!
