//! How many times a step may match: the ranges of the standard library, read
//! as an inclusive least and an inclusive most.

use core::ops::{Range, RangeFrom, RangeFull, RangeInclusive, RangeTo, RangeToInclusive};
use vstd::prelude::*;

verus! {

/// A range that is open at its end, with its public field.
#[verifier::external_type_specification]
#[verifier::reject_recursive_types(Idx)]
pub struct ExRangeFrom<Idx>(RangeFrom<Idx>);

/// A range that is open at its start, with its public field.
#[verifier::external_type_specification]
#[verifier::reject_recursive_types(Idx)]
pub struct ExRangeTo<Idx>(RangeTo<Idx>);

/// A range that is open at its start and includes its end, with its public field.
#[verifier::external_type_specification]
#[verifier::reject_recursive_types(Idx)]
pub struct ExRangeToInclusive<Idx>(RangeToInclusive<Idx>);

/// The range without bounds.
#[verifier::external_type_specification]
pub struct ExRangeFull(RangeFull);

/// `RangeInclusive::start` of the standard library: the lower bound that the
/// range was made with.
pub assume_specification<Idx>[ RangeInclusive::<Idx>::start ](r: &RangeInclusive<Idx>) -> (b: &Idx)
    ensures
        *b == r@.start,
;

/// `RangeInclusive::end` of the standard library: the upper bound that the
/// range was made with.
pub assume_specification<Idx>[ RangeInclusive::<Idx>::end ](r: &RangeInclusive<Idx>) -> (b: &Idx)
    ensures
        *b == r@.end,
;

/// A quantifier: the least and the most number of repetitions, both inclusive,
/// either of them possibly absent.
pub trait CountRange {
    /// The least count, where the range has a lower bound.
    spec fn lower(&self) -> Option<int>;

    /// The highest count, where the range has an upper bound.
    spec fn upper(&self) -> Option<int>;

    /// Both bounds as numbers.
    fn start_end(&self) -> (r: (Option<i64>, Option<i64>))
        ensures
            bound_view(r.0) == self.lower(),
            bound_view(r.1) == self.upper(),
    ;
}

/// A bound as a mathematical integer.
pub open spec fn bound_view(b: Option<i64>) -> Option<int> {
    match b {
        Some(i) => Some(i as int),
        None => None,
    }
}

impl CountRange for Range<i32> {
    open spec fn lower(&self) -> Option<int> {
        Some(self.start as int)
    }

    open spec fn upper(&self) -> Option<int> {
        Some(self.end - 1)
    }

    fn start_end(&self) -> (r: (Option<i64>, Option<i64>)) {
        let end: i64 = self.end as i64;
        (Some(self.start as i64), Some(end - 1))
    }
}

impl CountRange for RangeInclusive<i32> {
    open spec fn lower(&self) -> Option<int> {
        Some(self@.start as int)
    }

    open spec fn upper(&self) -> Option<int> {
        Some(self@.end as int)
    }

    fn start_end(&self) -> (r: (Option<i64>, Option<i64>)) {
        (Some(*self.start() as i64), Some(*self.end() as i64))
    }
}

impl CountRange for RangeFrom<i32> {
    open spec fn lower(&self) -> Option<int> {
        Some(self.start as int)
    }

    open spec fn upper(&self) -> Option<int> {
        None
    }

    fn start_end(&self) -> (r: (Option<i64>, Option<i64>)) {
        (Some(self.start as i64), None)
    }
}

impl CountRange for RangeTo<i32> {
    open spec fn lower(&self) -> Option<int> {
        None
    }

    open spec fn upper(&self) -> Option<int> {
        Some(self.end - 1)
    }

    fn start_end(&self) -> (r: (Option<i64>, Option<i64>)) {
        let end: i64 = self.end as i64;
        (None, Some(end - 1))
    }
}

impl CountRange for RangeToInclusive<i32> {
    open spec fn lower(&self) -> Option<int> {
        None
    }

    open spec fn upper(&self) -> Option<int> {
        Some(self.end as int)
    }

    fn start_end(&self) -> (r: (Option<i64>, Option<i64>)) {
        (None, Some(self.end as i64))
    }
}

impl CountRange for RangeFull {
    open spec fn lower(&self) -> Option<int> {
        None
    }

    open spec fn upper(&self) -> Option<int> {
        None
    }

    fn start_end(&self) -> (r: (Option<i64>, Option<i64>)) {
        (None, None)
    }
}

/// The least count of a quantifier: its lower bound, and none below zero.
pub open spec fn least(lower: Option<int>) -> nat {
    match lower {
        Some(m) => if m > 0 { m as nat } else { 0 },
        None => 0,
    }
}

/// What a quantifier makes of a run of `k` matching characters at the head of
/// `s`.
///
/// With an upper bound below zero nothing can match. A run shorter than the
/// least count is too short. Otherwise the run is consumed, but never more than
/// the upper bound allows: what is left of a longer run stays for the next
/// step. `Err` holds the words that the failure carries.
pub open spec fn quantified(s: Seq<char>, k: nat, lower: Option<int>, upper: Option<int>) -> Result<
    Seq<char>,
    Seq<char>,
> {
    if upper is Some && upper.unwrap() < 0 {
        Err(""@)
    } else if k < least(lower) {
        Err("too few"@)
    } else if upper is Some && upper.unwrap() < k {
        Ok(s.skip(upper.unwrap()))
    } else {
        Ok(s.skip(k as int))
    }
}

/// How far a scan has to look to settle a quantifier: no further than the
/// larger of its two bounds, and to the end of the run where it has no upper
/// bound.
pub open spec fn horizon(lower: Option<int>, upper: Option<int>) -> Option<nat> {
    match upper {
        Some(n) => Some(if n > least(lower) { n as nat } else { least(lower) }),
        None => None,
    }
}

/// A scan that stopped at the horizon settles the quantifier as the whole run
/// would: only the part of the run up to the horizon counts.
pub proof fn lemma_horizon(s: Seq<char>, k: nat, lower: Option<int>, upper: Option<int>)
    requires
        horizon(lower, upper) is Some,
    ensures
        quantified(s, k, lower, upper) == quantified(
            s,
            if k < horizon(lower, upper).unwrap() { k } else { horizon(lower, upper).unwrap() },
            lower,
            upper,
        ),
{
}

} // verus!
