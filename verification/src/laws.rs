//! What holds of the matching steps, whatever the input.

use crate::chain::{
    collected, counted, listed, matched, rest_of, select_closed, selected_by, stepped, ChainState,
    SelectState,
};
use crate::classes::{is_run, lemma_run_length};
use crate::count::least;
use crate::cursor::{Cursor, CursorView};
use crate::error::{no_match, ParsingError};
use crate::moves::{end_of_line_move, end_of_stream_move, text_move};
use crate::selection::SelectionView;
use vstd::prelude::*;

verus! {

/// On a text that starts with `word`, `text(word)` matches and leaves what
/// follows `word`: the text before the step is `word` and then the text after
/// it.
pub proof fn law_text_consumes_prefix<'a, C: ChainState<'a>>(before: &C, word: Seq<char>, after: &C)
    requires
        before.remaining() is Some,
        word.is_prefix_of(rest_of(before)),
        stepped(before, text_move(rest_of(before), word), "text"@, word, after),
    ensures
        after.remaining() is Some,
        word + rest_of(after) == rest_of(before),
        rest_of(after) == rest_of(before).skip(word.len() as int),
{
}

/// On a text that does not start with `word`, `text(word)` halts the chain
/// with the `NoMatch` that names the step and the word, and nothing remains.
pub proof fn law_text_halts<'a, C: ChainState<'a>>(before: &C, word: Seq<char>, after: &C)
    requires
        before.remaining() is Some,
        !word.is_prefix_of(rest_of(before)),
        stepped(before, text_move(rest_of(before), word), "text"@, word, after),
    ensures
        after.remaining() is None,
        before.halted(no_match("text"@, word), after),
{
}

/// A chain that has halted coasts: whatever step is taken on it, and
/// whatever that step would look for, the chain stays exactly as it is.
pub proof fn law_halted_chain_coasts<'a, C: ChainState<'a>>(
    before: &C,
    to: Option<Seq<char>>,
    action: Seq<char>,
    args: Seq<char>,
    after: &C,
)
    requires
        before.remaining() is None,
        stepped(before, to, action, args, after),
    ensures
        *after == *before,
{
}

/// A chain that has halted coasts through the quantified steps too.
pub proof fn law_halted_chain_coasts_counted<'a, C: ChainState<'a>>(
    before: &C,
    member: spec_fn(char) -> bool,
    lower: Option<int>,
    upper: Option<int>,
    action: Seq<char>,
    after: &C,
)
    requires
        before.remaining() is None,
        counted(before, member, lower, upper, action, after),
    ensures
        *after == *before,
{
}

/// A chain that has halted coasts through a quantified step with a predicate
/// of the caller's.
pub proof fn law_halted_chain_coasts_matched<'a, C: ChainState<'a>, F: Fn(char) -> bool>(
    before: &C,
    lower: Option<int>,
    upper: Option<int>,
    pred: F,
    action: Seq<char>,
    after: &C,
)
    requires
        before.remaining() is None,
        matched(before, lower, upper, pred, action, after),
    ensures
        *after == *before,
{
}

/// A chain that has halted coasts through selecting: the sub-chain is not
/// run.
pub proof fn law_halted_chain_coasts_selecting<'a, C: SelectState<'a>, P: FnMut(C) -> C>(
    before: &C,
    parser: P,
    after: &C,
)
    requires
        before.remaining() is None,
        selected_by(before, parser, after),
    ensures
        *after == *before,
{
}

/// A chain that has halted coasts through the parsing of a list, and gives
/// no list.
pub proof fn law_halted_chain_coasts_listing<'a, C: ChainState<'a>, T, P: FnMut(&'a str) -> Result<
    (&'a str, T),
    ParsingError,
>>(before: &C, parser: P, after: &C, list: Option<Seq<T>>)
    requires
        before.remaining() is None,
        listed(before, parser, after, list),
    ensures
        *after == *before,
        list is None,
{
}

/// The quantifier: on a run of `k` members that a character outside the
/// class, or the end of the text, follows, a quantified step with the least
/// count `m` and the highest count `n` matches if and only if `k` is at least
/// `m`, and then consumes `k` characters, or `n` where `k` is more. This is
/// stated for the ranges whose upper bound is not below zero: with such a
/// bound the step never matches.
pub proof fn law_quantifier<'a, C: ChainState<'a>>(
    before: &C,
    member: spec_fn(char) -> bool,
    k: nat,
    lower: Option<int>,
    upper: Option<int>,
    action: Seq<char>,
    after: &C,
)
    requires
        before.remaining() is Some,
        is_run(rest_of(before), k, member),
        upper is Some ==> upper.unwrap() >= 0,
        counted(before, member, lower, upper, action, after),
    ensures
        after.remaining() is Some <==> k >= least(lower),
        k >= least(lower) ==> after.remaining() == Some(
            rest_of(before).skip(
                if upper is Some && upper.unwrap() < k {
                    upper.unwrap()
                } else {
                    k as int
                },
            ),
        ),
        k < least(lower) ==> before.halted(no_match(action, "too few"@), after),
{
    lemma_run_length(rest_of(before), k, member);
}

/// `end_of_stream` matches exactly where nothing remains, and consumes
/// nothing.
pub proof fn law_end_of_stream(s: Seq<char>)
    ensures
        end_of_stream_move(s) is Some <==> s.len() == 0,
        end_of_stream_move(s) is Some ==> end_of_stream_move(s) == Some(s),
{
}

/// `end_of_line` matches where nothing remains, and where the text starts
/// with a line terminator, of which it consumes exactly one: `\r\n` where the
/// text starts with it, else `\n`. Nowhere else does it match.
pub proof fn law_end_of_line(s: Seq<char>)
    ensures
        s.len() == 0 ==> end_of_line_move(s) == Some(s),
        seq!['\n'].is_prefix_of(s) ==> end_of_line_move(s) == Some(s.skip(1)),
        seq!['\r', '\n'].is_prefix_of(s) ==> end_of_line_move(s) == Some(s.skip(2)),
        end_of_line_move(s) is Some ==> s.len() == 0 || seq!['\n'] + end_of_line_move(s).unwrap()
            == s || seq!['\r', '\n'] + end_of_line_move(s).unwrap() == s,
{
    let lf = seq!['\n'];
    if lf.is_prefix_of(s) {
        assert(lf[0] == '\n');
    }
}

/// Selecting round trip: a sub-chain that starts at the mark `c.marked()`,
/// keeps the mark and ends live at the cursor `left` has consumed the text
/// between the mark and where it ends. Once the selection is closed there,
/// the selected text is exactly that text: followed by what remains, it is
/// what remained at the mark. It is derived from the mark and the end alone,
/// so it stays the same wherever the chain moves afterwards.
pub proof fn law_select_round_trip(c: CursorView, left: CursorView, later: Seq<char>)
    requires
        c.wf(),
        c.cur is Some,
        left.wf(),
        left.cur is Some,
        left.selection == c.marked().selection,
        later.is_suffix_of(left.cur.unwrap()),
    ensures
        ({
            let to = left.cur.unwrap();
            let closed = left.moved(to).closed();
            &&& closed.wf()
            &&& closed.selection == SelectionView::Start(c.cur.unwrap(), Some(to))
            &&& closed.selected() + to == c.cur.unwrap()
            &&& closed.moved(later).selected() == closed.selected()
            &&& closed.moved(later).wf()
        }),
{
    let to = left.cur.unwrap();
}

/// Selecting round trip, for the run of a sub-chain: where every run of
/// `parser` keeps the mark that it was started with and ends live, selecting
/// with it from a live cursor selects exactly what `parser` consumed: the
/// selected text, followed by what remains, is what remained before.
pub proof fn law_select_selects_what_was_consumed<'a, P: FnMut(Cursor<'a>) -> Cursor<'a>>(
    before: Cursor<'a>,
    parser: P,
    after: Cursor<'a>,
)
    requires
        before@.wf(),
        before@.cur is Some,
        selected_by(&before, parser, &after),
        forall|marked: Cursor<'a>, left: Cursor<'a>| #[trigger]
            call_ensures(parser, (marked,), left) ==> left@.wf() && left@.cur is Some
                && left@.selection == marked@.selection,
    ensures
        after@.cur is Some,
        after@.selected() + after@.cur.unwrap() == before@.cur.unwrap(),
        after@.wf(),
{
    let (marked, left) = choose|marked: Cursor<'a>, left: Cursor<'a>| #[trigger]
        call_ensures(parser, (marked,), left) && before.opened(&marked) && marked.remaining()
            == before.remaining() && select_closed(&left, &after);
    law_select_round_trip(before@, left@, left@.cur.unwrap());
}

/// A list ends where the last attempt began: where the parsing of a list from
/// a live chain gives the list `items`, the parser gave these items one after
/// the other, then failed with `NoMatch`, and the chain stands at the
/// position at which that failing attempt began, not behind it.
pub proof fn law_list_ends_where_the_last_attempt_began<'a, C: ChainState<'a>, T, P: FnMut(
    &'a str,
) -> Result<(&'a str, T), ParsingError>>(before: &C, parser: P, after: &C, items: Seq<T>)
    requires
        before.remaining() is Some,
        listed(before, parser, after, Some(items)),
    ensures
        exists|stops: Seq<&'a str>, end: ParsingError| #[trigger]
            collected(rest_of(before), parser, stops, items, end) && end is NoMatch
                && after.remaining() == Some(stops.last()@),
{
    let start = before.remaining().unwrap();
    let (stops, got, end) = choose|stops: Seq<&'a str>, got: Seq<T>, end: ParsingError| #[trigger]
        collected(start, parser, stops, got, end) && if end is NoMatch {
            &&& before.advanced(stops.last()@, after)
            &&& after.remaining() == Some(stops.last()@)
            &&& Some(items) == Some(got)
        } else {
            &&& before.halted(end@, after)
            &&& after.remaining() is None
            &&& Some(items) is None
        };
    assert(collected(rest_of(before), parser, stops, items, end));
}

} // verus!
