//! From selected text to a value: the conversion that a type offers to be
//! usable as the target of a selection.

use crate::text::pop_char;
use vstd::prelude::*;

verus! {

/// What a text denotes for a type that does not say so itself: some value or
/// none, and the same whenever the text is the same.
pub open spec fn unstated<T>(s: Seq<char>) -> Option<T> {
    arbitrary::<spec_fn(Seq<char>) -> Option<T>>()(s)
}

/// A type whose values can be written as text.
///
/// `accepts` says which texts denote a value, and `value_of` which value a
/// text denotes. The conversion succeeds on exactly the texts that are
/// accepted, and gives the value that the text denotes. A type that states
/// neither is known to convert the same text to the same value, and no more.
pub trait FromText: Sized {
    /// Whether `s` denotes a value of this type.
    open spec fn accepts(s: Seq<char>) -> bool {
        unstated::<Self>(s) is Some
    }

    /// Whether `v` is the value that `s` denotes.
    open spec fn value_of(s: Seq<char>, v: Self) -> bool {
        unstated::<Self>(s) == Some(v)
    }

    /// The value that `s` denotes, where it denotes one.
    fn from_text(s: &str) -> (r: Option<Self>)
        ensures
            r is Some <==> Self::accepts(s@),
            r is Some ==> Self::value_of(s@, r.unwrap()),
    ;
}

/// The value of the character `c` as a digit in the base `radix`: the decimal
/// digits count from zero, the letters, capital or small, from ten.
pub open spec fn digit_value(c: char, radix: nat) -> Option<nat> {
    let v: int = if '0' <= c <= '9' {
        c as int - '0' as int
    } else if 'a' <= c <= 'z' {
        c as int - 'a' as int + 10
    } else if 'A' <= c <= 'Z' {
        c as int - 'A' as int + 10
    } else {
        36
    };
    if v < radix {
        Some(v as nat)
    } else {
        None
    }
}

/// Every character of `s` is a digit in the base `radix`.
pub open spec fn all_digits(s: Seq<char>, radix: nat) -> bool {
    forall|i: int| 0 <= i < s.len() ==> (#[trigger] digit_value(s[i], radix)) is Some
}

/// The number that the digits `s` write in the base `radix`.
pub open spec fn number(s: Seq<char>, radix: nat) -> nat
    decreases s.len(),
{
    if s.len() == 0 {
        0
    } else {
        number(s.drop_last(), radix) * radix + digit_value(s.last(), radix).unwrap()
    }
}

/// What `s` denotes as a number without a sign in the base `radix`: one or
/// more digits, with or without a `+` before them.
pub open spec fn unsigned_number(s: Seq<char>, radix: nat) -> Option<nat> {
    let digits = if s.len() > 0 && s[0] == '+' {
        s.skip(1)
    } else {
        s
    };
    if digits.len() > 0 && all_digits(digits, radix) {
        Some(number(digits, radix))
    } else {
        None
    }
}

/// What `s` denotes as a number with a sign in the base `radix`: one or more
/// digits, with or without a `+` or a `-` before them.
pub open spec fn signed_number(s: Seq<char>, radix: nat) -> Option<int> {
    if s.len() > 0 && s[0] == '-' {
        let digits = s.skip(1);
        if digits.len() > 0 && all_digits(digits, radix) {
            Some(-(number(digits, radix) as int))
        } else {
            None
        }
    } else {
        match unsigned_number(s, radix) {
            Some(n) => Some(n as int),
            None => None,
        }
    }
}

/// A longer number is no smaller than the number that its first digits write.
pub proof fn lemma_number_grows(s: Seq<char>, k: int, radix: nat)
    requires
        0 <= k <= s.len(),
        radix >= 1,
    ensures
        number(s.take(k), radix) <= number(s, radix),
    decreases s.len() - k,
{
    if k == s.len() {
        assert(s.take(k) =~= s);
    } else {
        lemma_number_grows(s, k + 1, radix);
        let longer = s.take(k + 1);
        assert(longer.drop_last() =~= s.take(k));
        assert(number(longer, radix) == number(s.take(k), radix) * radix + digit_value(
            longer.last(),
            radix,
        ).unwrap());
        assert(number(s.take(k), radix) <= number(s.take(k), radix) * radix) by (nonlinear_arith)
            requires
                radix >= 1,
        ;
    }
}

/// The value of `c` as a digit in the base `radix`, where it is one.
pub fn to_digit(c: char, radix: u32) -> (r: Option<u32>)
    requires
        2 <= radix <= 36,
    ensures
        r is Some <==> digit_value(c, radix as nat) is Some,
        r is Some ==> r.unwrap() == digit_value(c, radix as nat).unwrap(),
        r is Some ==> r.unwrap() < radix,
{
    let v: u32 = if '0' <= c && c <= '9' {
        c as u32 - '0' as u32
    } else if 'a' <= c && c <= 'z' {
        c as u32 - 'a' as u32 + 10
    } else if 'A' <= c && c <= 'Z' {
        c as u32 - 'A' as u32 + 10
    } else {
        36
    };
    if v < radix {
        Some(v)
    } else {
        None
    }
}

/// The number that `s` writes in the base `radix`, where `s` is one or more
/// digits and the number is at most `max`.
pub fn parse_digits(s: &str, radix: u32, max: u64) -> (r: Option<u64>)
    requires
        2 <= radix <= 36,
    ensures
        r is Some <==> s@.len() > 0 && all_digits(s@, radix as nat) && number(s@, radix as nat)
            <= max,
        r is Some ==> r.unwrap() == number(s@, radix as nat),
{
    if s.is_empty() {
        return None;
    }
    let ghost base = radix as nat;
    let mut rest: &str = s;
    let mut acc: u64 = 0;
    let ghost mut k: int = 0;
    loop
        invariant
            2 <= radix <= 36,
            base == radix as nat,
            s@.len() > 0,
            0 <= k <= s@.len(),
            rest@ == s@.skip(k),
            all_digits(s@.take(k), base),
            acc == number(s@.take(k), base),
            acc <= max,
        decreases s@.len() - k,
    {
        match pop_char(rest) {
            None => {
                assert(s@.take(k) =~= s@);
                return Some(acc);
            },
            Some((c, tail)) => {
                let d: u64 = match to_digit(c, radix) {
                    Some(d) => d as u64,
                    None => {
                        return None;
                    },
                };
                let ghost longer = s@.take(k + 1);
                proof {
                    assert(longer.drop_last() =~= s@.take(k));
                    lemma_number_grows(s@, k + 1, base);
                }
                if max < d {
                    proof {
                        assert(acc as nat * base + d > max) by (nonlinear_arith)
                            requires
                                max < d,
                        ;
                    }
                    return None;
                }
                let room: u64 = (max - d) / (radix as u64);
                if acc > room {
                    proof {
                        assert(acc as nat * base + d > max) by (nonlinear_arith)
                            requires
                                acc > room,
                                room == (max - d) as int / (base as int),
                                max >= d,
                                base >= 2,
                        ;
                    }
                    return None;
                }
                proof {
                    assert(acc as nat * base + d <= max) by (nonlinear_arith)
                        requires
                            acc <= room,
                            room == (max - d) as int / (base as int),
                            max >= d,
                            base >= 2,
                    ;
                }
                acc = acc * (radix as u64) + d;
                rest = tail;
                proof {
                    k = k + 1;
                }
            },
        }
    }
}

/// The number without a sign that `s` writes in the base `radix`, where it
/// writes one that is at most `max`.
pub fn parse_unsigned(s: &str, radix: u32, max: u64) -> (r: Option<u64>)
    requires
        2 <= radix <= 36,
    ensures
        r is Some <==> unsigned_number(s@, radix as nat) is Some && unsigned_number(
            s@,
            radix as nat,
        ).unwrap() <= max,
        r is Some ==> r.unwrap() == unsigned_number(s@, radix as nat).unwrap(),
{
    match pop_char(s) {
        Some((c, tail)) => if c == '+' {
            parse_digits(tail, radix, max)
        } else {
            parse_digits(s, radix, max)
        },
        None => None,
    }
}

/// The number with a sign that `s` writes in the base `radix`, where it
/// writes one from `-(most + 1)` to `most`.
pub fn parse_signed(s: &str, radix: u32, most: i64) -> (r: Option<i64>)
    requires
        2 <= radix <= 36,
        0 <= most,
    ensures
        r is Some <==> signed_number(s@, radix as nat) is Some && -(most + 1) <= signed_number(
            s@,
            radix as nat,
        ).unwrap() <= most,
        r is Some ==> r.unwrap() == signed_number(s@, radix as nat).unwrap(),
{
    match pop_char(s) {
        Some((c, tail)) => if c == '-' {
            match parse_digits(tail, radix, most as u64 + 1) {
                Some(n) => if n == most as u64 + 1 {
                    Some(-most - 1)
                } else {
                    Some(-(n as i64))
                },
                None => None,
            }
        } else {
            match parse_unsigned(s, radix, most as u64) {
                Some(n) => Some(n as i64),
                None => None,
            }
        },
        None => None,
    }
}

impl FromText for u32 {
    open spec fn accepts(s: Seq<char>) -> bool {
        unsigned_number(s, 10) is Some && unsigned_number(s, 10).unwrap() <= u32::MAX
    }

    open spec fn value_of(s: Seq<char>, v: Self) -> bool {
        unsigned_number(s, 10) == Some(v as nat)
    }

    fn from_text(s: &str) -> (r: Option<Self>) {
        match parse_unsigned(s, 10, u32::MAX as u64) {
            Some(n) => Some(n as u32),
            None => None,
        }
    }
}

impl FromText for u64 {
    open spec fn accepts(s: Seq<char>) -> bool {
        unsigned_number(s, 10) is Some && unsigned_number(s, 10).unwrap() <= u64::MAX
    }

    open spec fn value_of(s: Seq<char>, v: Self) -> bool {
        unsigned_number(s, 10) == Some(v as nat)
    }

    fn from_text(s: &str) -> (r: Option<Self>) {
        parse_unsigned(s, 10, u64::MAX)
    }
}

impl FromText for i32 {
    open spec fn accepts(s: Seq<char>) -> bool {
        signed_number(s, 10) is Some && i32::MIN <= signed_number(s, 10).unwrap() <= i32::MAX
    }

    open spec fn value_of(s: Seq<char>, v: Self) -> bool {
        signed_number(s, 10) == Some(v as int)
    }

    fn from_text(s: &str) -> (r: Option<Self>) {
        match parse_signed(s, 10, i32::MAX as i64) {
            Some(n) => Some(n as i32),
            None => None,
        }
    }
}

impl FromText for i64 {
    open spec fn accepts(s: Seq<char>) -> bool {
        signed_number(s, 10) is Some && i64::MIN <= signed_number(s, 10).unwrap() <= i64::MAX
    }

    open spec fn value_of(s: Seq<char>, v: Self) -> bool {
        signed_number(s, 10) == Some(v as int)
    }

    fn from_text(s: &str) -> (r: Option<Self>) {
        parse_signed(s, 10, i64::MAX)
    }
}

impl FromText for char {
    open spec fn accepts(s: Seq<char>) -> bool {
        s.len() == 1
    }

    open spec fn value_of(s: Seq<char>, v: Self) -> bool {
        s.len() == 1 && s[0] == v
    }

    fn from_text(s: &str) -> (r: Option<Self>) {
        match pop_char(s) {
            Some((c, tail)) => if tail.is_empty() {
                Some(c)
            } else {
                None
            },
            None => None,
        }
    }
}

impl FromText for String {
    open spec fn accepts(s: Seq<char>) -> bool {
        true
    }

    open spec fn value_of(s: Seq<char>, v: Self) -> bool {
        v@ == s
    }

    fn from_text(s: &str) -> (r: Option<Self>) {
        Some(s.to_owned())
    }
}

} // verus!
