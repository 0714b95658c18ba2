//! Parsers as values: anything that takes a position and returns the next
//! position with what it has read.

use crate::chain::ChainState;
use crate::cursor::Cursor;
use crate::error::ParsingError;
use vstd::pervasive::unreached;
use vstd::prelude::*;

verus! {

/// Something that reads a `T` at a position of the kind `C`.
pub trait Parser<'c, C, T> {
    /// How the parser fails.
    type Error;

    /// Whether the parser may be run at `s`.
    spec fn ready(&self, s: C) -> bool;

    /// Whether `r` is what the parser may give at `s`.
    spec fn parsed(&self, s: C, r: Result<(C, T), Self::Error>) -> bool;

    /// Reads at `s`: the next position and what was read, or the failure.
    fn parse(&mut self, s: C) -> (r: Result<(C, T), Self::Error>)
        requires
            old(self).ready(s),
        ensures
            old(self).parsed(s, r),
    ;
}

/// Every function from a position to the next position and a value is a
/// parser.
impl<'c, C, T, F> Parser<'c, C, T> for F where F: FnMut(C) -> Result<(C, T), ParsingError> {
    type Error = ParsingError;

    open spec fn ready(&self, s: C) -> bool {
        call_requires(*self, (s,))
    }

    open spec fn parsed(&self, s: C, r: Result<(C, T), Self::Error>) -> bool {
        call_ensures(*self, (s,), r)
    }

    fn parse(&mut self, s: C) -> (r: Result<(C, T), ParsingError>) {
        (*self)(s)
    }
}

/// A function on text, as a parser on cursors: it is run on the text that
/// remains, and the cursor that it returns is a new one at the text that the
/// function has left. On a cursor that has halted it fails with the error
/// that halted the cursor.
pub struct StrFunc<F>(pub F);

impl<'c, T, F> Parser<'c, Cursor<'c>, T> for StrFunc<F> where
    F: FnMut(&'c str) -> Result<(&'c str, T), ParsingError>,
 {
    type Error = ParsingError;

    open spec fn ready(&self, c: Cursor<'c>) -> bool {
        forall|s: &'c str| call_requires(self.0, (s,))
    }

    open spec fn parsed(&self, c: Cursor<'c>, r: Result<(Cursor<'c>, T), Self::Error>) -> bool {
        str_func_parsed(self.0, c, r)
    }

    fn parse(&mut self, c: Cursor<'c>) -> (r: Result<(Cursor<'c>, T), ParsingError>) {
        let s = match c.str() {
            Ok(s) => s,
            Err(_) => {
                return match c.validate() {
                    Err(e) => Err(e),
                    Ok(_) => unreached(),
                };
            },
        };
        match (self.0)(s) {
            Ok((rest, t)) => Ok((Cursor::from(rest), t)),
            Err(e) => Err(e),
        }
    }
}

/// A method on text with the value that it is called on, as a parser on
/// cursors.
pub struct StrMethod<'c, X, F>(pub &'c X, pub F);

impl<'c, T, X, F> Parser<'c, Cursor<'c>, T> for StrMethod<'c, X, F> where
    F: FnMut(&'c X, &'c str) -> Result<(&'c str, T), ParsingError>,
 {
    type Error = ParsingError;

    open spec fn ready(&self, c: Cursor<'c>) -> bool {
        forall|s: &'c str| call_requires(self.1, (self.0, s))
    }

    open spec fn parsed(&self, c: Cursor<'c>, r: Result<(Cursor<'c>, T), Self::Error>) -> bool {
        match c.remaining() {
            None => r is Err && Some(r->Err_0@) == c@.err,
            Some(text) => exists|s: &'c str, out: Result<(&'c str, T), ParsingError>|
                s@ == text && #[trigger] call_ensures(self.1, (self.0, s), out) && match out {
                    Ok((rest, t)) => r is Ok && r->Ok_0.0@ == crate::cursor::CursorView::fresh(
                        rest@,
                    ) && r->Ok_0.1 == t,
                    Err(e) => r == Err::<(Cursor<'c>, T), ParsingError>(e),
                },
        }
    }

    fn parse(&mut self, c: Cursor<'c>) -> (r: Result<(Cursor<'c>, T), ParsingError>) {
        let s = match c.str() {
            Ok(s) => s,
            Err(_) => {
                return match c.validate() {
                    Err(e) => Err(e),
                    Ok(_) => unreached(),
                };
            },
        };
        match (self.1)(self.0, s) {
            Ok((rest, t)) => Ok((Cursor::from(rest), t)),
            Err(e) => Err(e),
        }
    }
}

/// What a function on text gives as a parser on cursors, at the cursor `c`.
pub open spec fn str_func_parsed<'c, T, F: FnMut(&'c str) -> Result<(&'c str, T), ParsingError>>(
    f: F,
    c: Cursor<'c>,
    r: Result<(Cursor<'c>, T), ParsingError>,
) -> bool {
    match c.remaining() {
        None => r is Err && Some(r->Err_0@) == c@.err,
        Some(text) => exists|s: &'c str, out: Result<(&'c str, T), ParsingError>|
            s@ == text && #[trigger] call_ensures(f, (s,), out) && match out {
                Ok((rest, t)) => r is Ok && r->Ok_0.0@ == crate::cursor::CursorView::fresh(rest@)
                    && r->Ok_0.1 == t,
                Err(e) => r == Err::<(Cursor<'c>, T), ParsingError>(e),
            },
    }
}

} // verus!
