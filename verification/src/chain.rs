//! The state that a chain of matching steps hands from one step to the next,
//! and the two shapes that every step has.

use crate::classes::{lemma_run_length_is_run, lemma_scanned_run, run_length, stops_outside};
use crate::count::{horizon, lemma_horizon, quantified, CountRange};
use crate::error::{failure, no_match, ErrorView, ParsingError};
use crate::moves::opt_view;
use crate::text::{scan, scanned};
use vstd::prelude::*;

verus! {

/// A state of a match chain: the text that remains, or the fact that the
/// chain has halted, and whatever else the implementor carries along.
pub trait ChainState<'a>: Sized {
    /// What [`ChainState::validate`] hands out for a chain that has not halted.
    type DeTuple;

    /// The text that is not yet consumed, or `None` once the chain has halted.
    spec fn remaining(&self) -> Option<Seq<char>>;

    /// `after` is this state moved to the position `to`, with all that it
    /// carries.
    spec fn advanced(&self, to: Seq<char>, after: &Self) -> bool;

    /// `after` is this state halted with `error`, with all that it carries.
    spec fn halted(&self, error: ErrorView, after: &Self) -> bool;

    /// `r` is what validating this state gives.
    spec fn validated(&self, r: &Result<Self::DeTuple, ParsingError>) -> bool;

    /// The text that remains, or a `NoMatch` for a chain that has halted.
    fn str(&self) -> (r: Result<&'a str, ParsingError>)
        ensures
            match self.remaining() {
                Some(s) => r is Ok && r.unwrap()@ == s,
                None => r is Err && r.unwrap_err()@ == no_match("str on erroring cursor"@, ""@),
            },
    ;

    /// Moves to the position `s`, which lies at or behind the present one.
    fn set_str(self, s: &'a str) -> (r: Self)
        requires
            self.remaining() is Some,
            s@.is_suffix_of(self.remaining().unwrap()),
        ensures
            self.advanced(s@, &r),
            r.remaining() == Some(s@),
    ;

    /// Halts the chain with `e`.
    fn set_error(self, e: ParsingError) -> (r: Self)
        ensures
            self.halted(e@, &r),
            r.remaining() is None,
    ;

    /// Ends the chain: the error of a chain that has halted, else what the
    /// chain has gathered.
    fn validate(self) -> (r: Result<Self::DeTuple, ParsingError>)
        ensures
            self.validated(&r),
            self.remaining() is None ==> r is Err,
    ;
}

/// A state of a match chain that also marks a part of the input: the
/// selection, which a later step turns into a value.
pub trait SelectState<'a>: ChainState<'a> {
    /// The text that is selected, for a chain that has not halted.
    spec fn selected(&self) -> Seq<char>;

    /// `after` is this state with a mark set at the present position.
    spec fn opened(&self, after: &Self) -> bool;

    /// `after` is this state with the selection closed at the present position.
    spec fn closed(&self, after: &Self) -> bool;

    /// `r` is what asking this state for its selection gives.
    spec fn selection_got(&self, r: &Result<&'a str, ParsingError>) -> bool;

    /// The selected text, or the error of a chain that has halted.
    fn get_selection(&self) -> (r: Result<&'a str, ParsingError>)
        ensures
            self.selection_got(&r),
            match self.remaining() {
                Some(_) => r is Ok && r.unwrap()@ == self.selected(),
                None => r is Err,
            },
    ;

    /// Closes the selection at the present position: it then runs from its
    /// start to here, and stays so while the chain moves on. A chain that has
    /// halted stays as it is.
    fn selection_end(self) -> (r: Self)
        ensures
            self.closed(&r),
            r.remaining() == self.remaining(),
            self.remaining() is None ==> r == self,
    ;

    /// Sets a mark at the present position: the selection then runs from here
    /// to wherever the chain stands. A chain that has halted stays as it is.
    fn selection_start(self) -> (r: Self)
        ensures
            self.opened(&r),
            r.remaining() == self.remaining(),
            self.remaining() is None ==> r == self,
    ;
}

/// The text that remains in `c`, and the empty text for a chain that has halted.
pub open spec fn rest_of<'a, C: ChainState<'a>>(c: &C) -> Seq<char> {
    match c.remaining() {
        Some(s) => s,
        None => Seq::empty(),
    }
}

/// `after` is `before` moved to `to` or, where `to` is `None`, halted with the
/// `NoMatch` that names `action` and `args`.
pub open spec fn settled<'a, C: ChainState<'a>>(
    before: &C,
    to: Option<Seq<char>>,
    action: Seq<char>,
    args: Seq<char>,
    after: &C,
) -> bool {
    match to {
        Some(t) => before.advanced(t, after) && after.remaining() == Some(t),
        None => before.halted(no_match(action, args), after) && after.remaining() is None,
    }
}

/// The outcome of one step on the chain `before`: a chain that had halted
/// stays as it was, and any other is settled by where the step leads.
pub open spec fn stepped<'a, C: ChainState<'a>>(
    before: &C,
    to: Option<Seq<char>>,
    action: Seq<char>,
    args: Seq<char>,
    after: &C,
) -> bool {
    match before.remaining() {
        None => *after == *before,
        Some(_) => settled(before, to, action, args, after),
    }
}

/// The outcome of [`apply`] on the chain `before`: the step that `f` may take
/// from the text that remains.
pub open spec fn applied<'a, C: ChainState<'a>, F: FnOnce(&'a str) -> Option<&'a str>>(
    before: &C,
    f: F,
    action: Seq<char>,
    args: Seq<char>,
    after: &C,
) -> bool {
    match before.remaining() {
        None => *after == *before,
        Some(t) => exists|s: &'a str, o: Option<&'a str>|
            s@ == t && #[trigger] call_ensures(f, (s,), o) && settled(
                before,
                opt_view(o),
                action,
                args,
                after,
            ),
    }
}

/// One step of a chain: on a chain that has halted nothing; else `f` is run
/// on the text that remains, and the chain moves to what `f` returns or, where
/// that is `None`, halts with the `NoMatch` that names `action` and `args`.
pub fn apply<'a, C: ChainState<'a>, F: FnOnce(&'a str) -> Option<&'a str>>(
    cur: C,
    f: F,
    action: &'static str,
    args: &str,
) -> (r: C)
    requires
        forall|s: &'a str| cur.remaining() == Some(s@) ==> call_requires(f, (s,)),
        forall|s: &'a str, o: Option<&'a str>|
            cur.remaining() == Some(s@) && call_ensures(f, (s,), o) && o is Some
                ==> o.unwrap()@.is_suffix_of(s@),
    ensures
        applied(&cur, f, action@, args@, &r),
{
    match cur.str() {
        Ok(s) => match f(s) {
            Some(t) => cur.set_str(t),
            None => cur.set_error(failure(action, args)),
        },
        Err(_) => cur,
    }
}

/// `after` is `before` as the quantifier settles it for a run of `k`
/// characters at the head of the remaining text `s`.
pub open spec fn counted_to<'a, C: ChainState<'a>>(
    before: &C,
    s: Seq<char>,
    k: nat,
    lower: Option<int>,
    upper: Option<int>,
    action: Seq<char>,
    after: &C,
) -> bool {
    match quantified(s, k, lower, upper) {
        Ok(t) => settled(before, Some(t), action, Seq::empty(), after),
        Err(args) => settled(before, None, action, args, after),
    }
}

/// The outcome of a quantified step on the chain `before`, for the class of
/// characters `member`: a chain that had halted stays as it was, and any other
/// is settled by the run of members at the head of its remaining text.
pub open spec fn counted<'a, C: ChainState<'a>>(
    before: &C,
    member: spec_fn(char) -> bool,
    lower: Option<int>,
    upper: Option<int>,
    action: Seq<char>,
    after: &C,
) -> bool {
    match before.remaining() {
        None => *after == *before,
        Some(s) => counted_to(before, s, run_length(s, member), lower, upper, action, after),
    }
}

/// The outcome of [`find`] on the chain `before`: it is settled by some scan
/// of the remaining text that `stop` allows.
pub open spec fn found<'a, C: ChainState<'a>, F: FnMut(char) -> bool>(
    before: &C,
    lower: Option<int>,
    upper: Option<int>,
    stop: F,
    action: Seq<char>,
    after: &C,
) -> bool {
    match before.remaining() {
        None => *after == *before,
        Some(s) => if upper is Some && upper.unwrap() < 0 {
            settled(before, None, action, Seq::empty(), after)
        } else {
            exists|k: nat| #[trigger]
                scanned(s, k, horizon(lower, upper), stop) && counted_to(
                    before,
                    s,
                    k,
                    lower,
                    upper,
                    action,
                    after,
                )
        },
    }
}

/// A scan over the head of `s` that took `k` characters and then ended:
/// `pred` accepted each of the `k`, and the scan ended at the end of `s`, at
/// the `limit`, or at a character that `pred` refused.
pub open spec fn passed<F: Fn(char) -> bool>(
    s: Seq<char>,
    k: nat,
    limit: Option<nat>,
    pred: F,
) -> bool {
    &&& k <= s.len()
    &&& limit is Some ==> k <= limit.unwrap()
    &&& forall|i: int| 0 <= i < k ==> call_ensures(pred, (#[trigger] s[i],), true)
    &&& (k == s.len() || limit == Some(k) || call_ensures(pred, (s[k as int],), false))
}

/// The outcome of a quantified step on the chain `before` for the characters
/// that `pred` accepts: it is settled by some scan of the remaining text that
/// `pred` allows.
pub open spec fn matched<'a, C: ChainState<'a>, F: Fn(char) -> bool>(
    before: &C,
    lower: Option<int>,
    upper: Option<int>,
    pred: F,
    action: Seq<char>,
    after: &C,
) -> bool {
    match before.remaining() {
        None => *after == *before,
        Some(s) => if upper is Some && upper.unwrap() < 0 {
            settled(before, None, action, Seq::empty(), after)
        } else {
            exists|k: nat| #[trigger]
                passed(s, k, horizon(lower, upper), pred) && counted_to(
                    before,
                    s,
                    k,
                    lower,
                    upper,
                    action,
                    after,
                )
        },
    }
}

/// Where `stop` answers the opposite of `pred`, [`find`] settles the chain by
/// a scan that `pred` allows.
pub proof fn lemma_found_matched<
    'a,
    C: ChainState<'a>,
    F: FnMut(char) -> bool,
    G: Fn(char) -> bool,
>(
    before: &C,
    lower: Option<int>,
    upper: Option<int>,
    stop: F,
    pred: G,
    action: Seq<char>,
    after: &C,
)
    requires
        found(before, lower, upper, stop, action, after),
        forall|c: char, b: bool| call_ensures(stop, (c,), b) ==> call_ensures(pred, (c,), !b),
    ensures
        matched(before, lower, upper, pred, action, after),
{
    if before.remaining() is Some && !(upper is Some && upper.unwrap() < 0) {
        let s = before.remaining().unwrap();
        let k = choose|k: nat| #[trigger]
            scanned(s, k, horizon(lower, upper), stop) && counted_to(
                before,
                s,
                k,
                lower,
                upper,
                action,
                after,
            );
        assert(passed(s, k, horizon(lower, upper), pred));
    }
}

/// Where `pred` accepts exactly the characters of a class, a quantified step
/// with `pred` settles the chain by the run of that class.
pub proof fn lemma_matched_counted<'a, C: ChainState<'a>, F: Fn(char) -> bool>(
    before: &C,
    lower: Option<int>,
    upper: Option<int>,
    pred: F,
    member: spec_fn(char) -> bool,
    action: Seq<char>,
    after: &C,
)
    requires
        matched(before, lower, upper, pred, action, after),
        forall|c: char, b: bool| call_ensures(pred, (c,), b) ==> b == member(c),
    ensures
        counted(before, member, lower, upper, action, after),
{
    reveal_strlit("");
    assert(""@ =~= Seq::<char>::empty());
    if before.remaining() is Some && !(upper is Some && upper.unwrap() < 0) {
        let s = before.remaining().unwrap();
        let limit = horizon(lower, upper);
        let k = choose|k: nat| #[trigger]
            passed(s, k, limit, pred) && counted_to(before, s, k, lower, upper, action, after);
        let run = run_length(s, member);
        lemma_run_length_is_run(s, member);
        if limit is Some {
            lemma_horizon(s, run, lower, upper);
        }
    }
}

/// Where `stop` answers `true` exactly outside a class, [`find`] settles the
/// chain by the run of that class.
pub proof fn lemma_found_counted<'a, C: ChainState<'a>, F: FnMut(char) -> bool>(
    before: &C,
    lower: Option<int>,
    upper: Option<int>,
    stop: F,
    member: spec_fn(char) -> bool,
    action: Seq<char>,
    after: &C,
)
    requires
        found(before, lower, upper, stop, action, after),
        stops_outside(stop, member),
    ensures
        counted(before, member, lower, upper, action, after),
{
    reveal_strlit("");
    assert(""@ =~= Seq::<char>::empty());
    if before.remaining() is Some && !(upper is Some && upper.unwrap() < 0) {
        let s = before.remaining().unwrap();
        let k = choose|k: nat| #[trigger]
            scanned(s, k, horizon(lower, upper), stop) && counted_to(
                before,
                s,
                k,
                lower,
                upper,
                action,
                after,
            );
        lemma_scanned_run(s, k, horizon(lower, upper), stop, member);
        if horizon(lower, upper) is Some {
            lemma_horizon(s, run_length(s, member), lower, upper);
        }
    }
}

/// The quantified step: matches between the least and the highest count of
/// `range` of the characters before the first on which `stop` answers `true`.
///
/// On a chain that has halted it does nothing. With an upper bound below zero
/// it halts the chain. It halts the chain, too, where fewer characters than
/// the least count come before the first at which `stop` answers `true`.
/// Otherwise it moves the chain behind them, but never further than the upper
/// bound allows.
pub fn find<'a, R: CountRange, C: ChainState<'a>, F: FnMut(char) -> bool>(
    cur: C,
    rb: &R,
    stop: F,
    action: &'static str,
) -> (r: C)
    requires
        forall|c: char| call_requires(stop, (c,)),
    ensures
        found(&cur, rb.lower(), rb.upper(), stop, action@, &r),
{
    let s = match cur.str() {
        Ok(s) => s,
        Err(_) => {
            return cur;
        },
    };
    let (start, end) = rb.start_end();
    let ghost lower = rb.lower();
    let ghost upper = rb.upper();
    proof {
        reveal_strlit("");
        reveal_strlit("too few");
        assert(""@ =~= Seq::<char>::empty());
    }
    let top: Option<u64> = match end {
        Some(n) => {
            if n < 0 {
                return cur.set_error(failure(action, ""));
            }
            Some(n as u64)
        },
        None => None,
    };
    let min: u64 = match start {
        Some(m) => if m > 0 {
            m as u64
        } else {
            0
        },
        None => 0,
    };
    let limit: Option<usize> = match top {
        Some(n) => {
            let far: u64 = if n > min {
                n
            } else {
                min
            };
            if far > usize::MAX as u64 {
                None
            } else {
                Some(far as usize)
            }
        },
        None => None,
    };
    // No scan has to look beyond the larger of the two bounds.
    let (k, rest) = scan(s, limit, stop);
    assert(scanned(s@, k as nat, horizon(lower, upper), stop));
    if (k as u64) < min {
        let r = cur.set_error(failure(action, "too few"));
        r
    } else {
        match top {
            Some(n) if n < k as u64 => {
                // The run is long enough, and longer than may be consumed.
                let never = |_c: char| -> (b: bool)
                    ensures
                        !b,
                    {
                        false
                    };
                let (_n, at) = scan(s, Some(n as usize), never);
                let r = cur.set_str(at);
                r
            },
            _ => {
                let r = cur.set_str(rest);
                r
            },
        }
    }
}

/// How often [`repeat`](crate::text_parser::Matchable::repeat) tries its step
/// at most: as often as the upper bound of the range says, and never more
/// often than the largest 32-bit count.
pub open spec fn most_times(upper: Option<int>) -> nat {
    match upper {
        Some(n) => if n < 0 {
            0
        } else if n > i32::MAX {
            i32::MAX as nat
        } else {
            n as nat
        },
        None => i32::MAX as nat,
    }
}

/// `next` is what one application of `step` to a copy of `state` may give.
pub open spec fn one_more<C: Clone, P: FnMut(C) -> C>(state: C, step: P, next: C) -> bool {
    exists|copy: C| cloned(state, copy) && #[trigger] call_ensures(step, (copy,), next)
}

/// The outcome of repeating `step` from the chain `before`, at most `most`
/// times.
///
/// `trail` holds the chain before the first application and after each
/// application that left it live. The outcome is the last of them: the
/// application after it halted the chain, or the count was used up.
pub open spec fn repeated<'a, C: ChainState<'a> + Clone, P: FnMut(C) -> C>(
    before: &C,
    step: P,
    most: nat,
    trail: Seq<C>,
    after: &C,
) -> bool {
    &&& 1 <= trail.len() <= most + 1
    &&& trail[0] == *before
    &&& trail.last() == *after
    &&& forall|i: int|
        0 <= i < trail.len() - 1 ==> one_more(trail[i], step, #[trigger] trail[i + 1])
            && trail[i + 1].remaining() is Some
    &&& (trail.len() == most + 1 || exists|failed: C|
        one_more(*after, step, failed) && #[trigger] failed.remaining() is None)
}

/// `t` is a position behind `s` in the same input.
pub open spec fn proper_suffix(t: Seq<char>, s: Seq<char>) -> bool {
    t.is_suffix_of(s) && t.len() < s.len()
}

/// Where `parser` succeeds it ends at or behind the position at which it
/// started, in the same input.
pub open spec fn stays_in_input<'a, T, P: FnMut(&'a str) -> Result<(&'a str, T), ParsingError>>(
    parser: P,
) -> bool {
    forall|s: &'a str, out: Result<(&'a str, T), ParsingError>| #[trigger]
        call_ensures(parser, (s,), out) && out is Ok ==> out.unwrap().0@.is_suffix_of(s@)
}

/// Where `parser` succeeds it has consumed something: it ends behind the
/// position at which it started, in the same input.
pub open spec fn consumes<'a, T, P: FnMut(&'a str) -> Result<(&'a str, T), ParsingError>>(
    parser: P,
) -> bool {
    forall|s: &'a str, out: Result<(&'a str, T), ParsingError>| #[trigger]
        call_ensures(parser, (s,), out) && out is Ok ==> proper_suffix(out.unwrap().0@, s@)
}

/// A run of `parser` over a list: started at the text `start`, it gave
/// `items` one after the other, each time going on from the position at which
/// the item before had ended, and then failed with `end` at the last of the
/// positions `stops`.
pub open spec fn collected<'a, T, P: FnMut(&'a str) -> Result<(&'a str, T), ParsingError>>(
    start: Seq<char>,
    parser: P,
    stops: Seq<&'a str>,
    items: Seq<T>,
    end: ParsingError,
) -> bool {
    &&& stops.len() == items.len() + 1
    &&& stops[0]@ == start
    &&& forall|i: int|
        0 <= i < items.len() ==> call_ensures(
            parser,
            (#[trigger] stops[i],),
            Ok((stops[i + 1], items[i])),
        )
    &&& call_ensures(parser, (stops.last(),), Err(end))
}

/// The outcome of parsing a list from the chain `before`.
///
/// A chain that had halted stays as it was and gives no list. Else `parser`
/// is run until it fails. Where it fails with `NoMatch` the list has ended:
/// the outcome is every item up to there, and the chain at the position at
/// which the failing attempt began. Any other failure halts the chain with
/// that failure, and there is no list.
pub open spec fn listed<'a, C: ChainState<'a>, T, P: FnMut(&'a str) -> Result<
    (&'a str, T),
    ParsingError,
>>(before: &C, parser: P, after: &C, list: Option<Seq<T>>) -> bool {
    match before.remaining() {
        None => *after == *before && list is None,
        Some(start) => exists|stops: Seq<&'a str>, items: Seq<T>, end: ParsingError| #[trigger]
            collected(start, parser, stops, items, end) && if end is NoMatch {
                &&& before.advanced(stops.last()@, after)
                &&& after.remaining() == Some(stops.last()@)
                &&& list == Some(items)
            } else {
                &&& before.halted(end@, after)
                &&& after.remaining() is None
                &&& list is None
            },
    }
}

/// The outcome of parsing a list from the chain `before` into a vector that
/// held `held` and then holds `holds`.
///
/// A chain that had halted gives the error that validating it gives, and the
/// vector is as it was. Else `parser` is run until it
/// fails, and each item is appended. Where it fails with `NoMatch` the list
/// has ended, and the outcome is the chain at the position at which the
/// failing attempt began. Any other failure is the outcome.
pub open spec fn listed_to<'a, C: ChainState<'a>, T, P: FnMut(&'a str) -> Result<
    (&'a str, T),
    ParsingError,
>>(before: &C, parser: P, held: Seq<T>, holds: Seq<T>, outcome: &Result<C, ParsingError>) -> bool {
    match before.remaining() {
        None => *outcome is Err && before.validated(
            &Err::<C::DeTuple, ParsingError>(outcome->Err_0),
        ) && holds == held,
        Some(start) => exists|stops: Seq<&'a str>, items: Seq<T>, end: ParsingError| #[trigger]
            collected(start, parser, stops, items, end) && holds == held + items
                && if end is NoMatch {
                &&& *outcome is Ok
                &&& before.advanced(stops.last()@, &outcome->Ok_0)
                &&& outcome->Ok_0.remaining() == Some(stops.last()@)
            } else {
                *outcome is Err && outcome->Err_0 == end
            },
    }
}

/// A run of the parser that ended the list, or that failed otherwise, is an
/// outcome of parsing a list into a vector.
pub proof fn lemma_listed_to<'a, C: ChainState<'a>, T, P: FnMut(&'a str) -> Result<
    (&'a str, T),
    ParsingError,
>>(
    before: &C,
    parser: P,
    held: Seq<T>,
    holds: Seq<T>,
    outcome: &Result<C, ParsingError>,
    stops: Seq<&'a str>,
    items: Seq<T>,
    end: ParsingError,
)
    requires
        before.remaining() is Some,
        collected(before.remaining().unwrap(), parser, stops, items, end),
        holds == held + items,
        end is NoMatch ==> *outcome is Ok && before.advanced(stops.last()@, &outcome->Ok_0)
            && outcome->Ok_0.remaining() == Some(stops.last()@),
        !(end is NoMatch) ==> *outcome is Err && outcome->Err_0 == end,
    ensures
        listed_to(before, parser, held, holds, outcome),
{
}

/// A run of the parser that ended the list, or that failed otherwise, is an
/// outcome of parsing a list.
pub proof fn lemma_listed<'a, C: ChainState<'a>, T, P: FnMut(&'a str) -> Result<
    (&'a str, T),
    ParsingError,
>>(
    before: &C,
    parser: P,
    after: &C,
    list: Option<Seq<T>>,
    stops: Seq<&'a str>,
    items: Seq<T>,
    end: ParsingError,
)
    requires
        before.remaining() is Some,
        collected(before.remaining().unwrap(), parser, stops, items, end),
        end is NoMatch ==> before.advanced(stops.last()@, after) && after.remaining() == Some(
            stops.last()@,
        ) && list == Some(items),
        !(end is NoMatch) ==> before.halted(end@, after) && after.remaining() is None
            && list is None,
    ensures
        listed(before, parser, after, list),
{
}

/// The outcome of selecting with the sub-chain `parser` from the chain
/// `before`.
///
/// A chain that had halted stays as it was. Else `parser` was run on the
/// chain `marked`, which is `before` with a mark set where it stands, and left
/// the chain `left`. Where `left` is live, the outcome is `left` with the
/// selection closed where it stands; where `left` has halted, the outcome has
/// halted with the `NoMatch` of this step.
pub open spec fn selected_by<'a, C: SelectState<'a>, P: FnMut(C) -> C>(
    before: &C,
    parser: P,
    after: &C,
) -> bool {
    match before.remaining() {
        None => *after == *before,
        Some(_) => exists|marked: C, left: C| #[trigger]
            call_ensures(parser, (marked,), left) && before.opened(&marked) && marked.remaining()
                == before.remaining() && select_closed(&left, after),
    }
}

/// `after` is what selecting makes of the chain `left` that the sub-chain has
/// left: `left` settled where it stands, with the selection closed there, or
/// a chain halted with the `NoMatch` of selecting.
pub open spec fn select_closed<'a, C: SelectState<'a>>(left: &C, after: &C) -> bool {
    match left.remaining() {
        Some(to) => exists|settled: C| #[trigger]
            left.advanced(to, &settled) && settled.remaining() == Some(to) && settled.closed(after)
                && after.remaining() == Some(to),
        None => left.halted(no_match("select_with"@, ""@), after) && after.remaining() is None,
    }
}

/// A run of the sub-chain on the marked chain, closed, is an outcome of
/// selecting.
pub proof fn lemma_selected_by<'a, C: SelectState<'a>, P: FnMut(C) -> C>(
    before: &C,
    parser: P,
    after: &C,
    marked: C,
    left: C,
)
    requires
        before.remaining() is Some,
        call_ensures(parser, (marked,), left),
        before.opened(&marked),
        marked.remaining() == before.remaining(),
        select_closed(&left, after),
    ensures
        selected_by(before, parser, after),
{
}

impl<'a> ChainState<'a> for Option<&'a str> {
    type DeTuple = Self;

    open spec fn remaining(&self) -> Option<Seq<char>> {
        opt_view(*self)
    }

    open spec fn advanced(&self, to: Seq<char>, after: &Self) -> bool {
        opt_view(*after) == Some(to)
    }

    open spec fn halted(&self, error: ErrorView, after: &Self) -> bool {
        *after is None
    }

    open spec fn validated(&self, r: &Result<Self::DeTuple, ParsingError>) -> bool {
        match *self {
            Some(s) => *r is Ok && r.unwrap() == Some(s),
            None => *r is Err && r.unwrap_err()@ == no_match("str on erroring cursor"@, ""@),
        }
    }

    fn str(&self) -> (r: Result<&'a str, ParsingError>) {
        match *self {
            Some(s) => Ok(s),
            None => Err(failure("str on erroring cursor", "")),
        }
    }

    fn set_str(self, s: &'a str) -> (r: Self) {
        Some(s)
    }

    fn set_error(self, _e: ParsingError) -> (r: Self) {
        None
    }

    fn validate(self) -> (r: Result<Self::DeTuple, ParsingError>) {
        match self.str() {
            Ok(_s) => Ok(self),
            Err(e) => Err(e),
        }
    }
}

} // verus!
