//! Chains that carry values: a cursor paired with the value of a conversion,
//! once, twice or three times over. Every step works on the cursor inside and
//! carries the values along; validating hands them out in the order in which
//! the chain gathered them.

use crate::chain::{ChainState, SelectState};
use crate::cursor::Cursor;
use crate::error::{failure, no_match, ErrorView, ParsingError};
use crate::text_parser::{Matchable, Selectable};
use vstd::prelude::*;

verus! {

impl<'a, T> ChainState<'a> for (Cursor<'a>, Option<T>) {
    type DeTuple = (&'a str, T);

    open spec fn remaining(&self) -> Option<Seq<char>> {
        self.0.remaining()
    }

    open spec fn advanced(&self, to: Seq<char>, after: &Self) -> bool {
        self.0.advanced(to, &after.0) && after.1 == self.1
    }

    open spec fn halted(&self, error: ErrorView, after: &Self) -> bool {
        self.0.halted(error, &after.0) && after.1 == self.1
    }

    open spec fn validated(&self, r: &Result<Self::DeTuple, ParsingError>) -> bool {
        exists|inner: Result<&'a str, ParsingError>| #[trigger]
            self.0.validated(&inner) && match inner {
                Ok(c) => match self.1 {
                    Some(t) => *r == Ok::<Self::DeTuple, ParsingError>((c, t)),
                    None => *r is Err && r->Err_0@ == no_match("validate"@, ""@),
                },
                Err(e) => *r == Err::<Self::DeTuple, ParsingError>(e),
            }
    }

    fn str(&self) -> (r: Result<&'a str, ParsingError>) {
        self.0.str()
    }

    fn set_str(self, s: &'a str) -> (r: Self) {
        (self.0.set_str(s), self.1)
    }

    fn set_error(self, e: ParsingError) -> (r: Self) {
        (self.0.set_error(e), self.1)
    }

    fn validate(self) -> (r: Result<Self::DeTuple, ParsingError>) {
        match self.0.validate() {
            Ok(c) => match self.1 {
                Some(t) => Ok((c, t)),
                None => Err(failure("validate", "")),
            },
            Err(e) => Err(e),
        }
    }
}

impl<'a, T> SelectState<'a> for (Cursor<'a>, Option<T>) {
    open spec fn selected(&self) -> Seq<char> {
        self.0.selected()
    }

    open spec fn opened(&self, after: &Self) -> bool {
        self.0.opened(&after.0) && after.1 == self.1
    }

    open spec fn closed(&self, after: &Self) -> bool {
        self.0.closed(&after.0) && after.1 == self.1
    }

    open spec fn selection_got(&self, r: &Result<&'a str, ParsingError>) -> bool {
        self.0.selection_got(r)
    }

    fn get_selection(&self) -> (r: Result<&'a str, ParsingError>) {
        self.0.get_selection()
    }

    fn selection_start(self) -> (r: Self) {
        (self.0.selection_start(), self.1)
    }

    fn selection_end(self) -> (r: Self) {
        (self.0.selection_end(), self.1)
    }
}

impl<'a, T> Matchable<'a> for (Cursor<'a>, Option<T>) {

}

impl<'a, T> Selectable<'a> for (Cursor<'a>, Option<T>) {

}

impl<'a, T1, T2> ChainState<'a> for ((Cursor<'a>, Option<T1>), Option<T2>) {
    type DeTuple = (&'a str, T1, T2);

    open spec fn remaining(&self) -> Option<Seq<char>> {
        self.0.remaining()
    }

    open spec fn advanced(&self, to: Seq<char>, after: &Self) -> bool {
        self.0.advanced(to, &after.0) && after.1 == self.1
    }

    open spec fn halted(&self, error: ErrorView, after: &Self) -> bool {
        self.0.halted(error, &after.0) && after.1 == self.1
    }

    open spec fn validated(&self, r: &Result<Self::DeTuple, ParsingError>) -> bool {
        exists|inner: Result<(&'a str, T1), ParsingError>| #[trigger]
            self.0.validated(&inner) && match inner {
                Ok(found) => match self.1 {
                    Some(t) => *r == Ok::<Self::DeTuple, ParsingError>((found.0, found.1, t)),
                    None => *r is Err && r->Err_0@ == no_match("validate"@, ""@),
                },
                Err(e) => *r == Err::<Self::DeTuple, ParsingError>(e),
            }
    }

    fn str(&self) -> (r: Result<&'a str, ParsingError>) {
        self.0.str()
    }

    fn set_str(self, s: &'a str) -> (r: Self) {
        (self.0.set_str(s), self.1)
    }

    fn set_error(self, e: ParsingError) -> (r: Self) {
        (self.0.set_error(e), self.1)
    }

    fn validate(self) -> (r: Result<Self::DeTuple, ParsingError>) {
        match self.0.validate() {
            Ok(found) => match self.1 {
                Some(t) => Ok((found.0, found.1, t)),
                None => Err(failure("validate", "")),
            },
            Err(e) => Err(e),
        }
    }
}

impl<'a, T1, T2> SelectState<'a> for ((Cursor<'a>, Option<T1>), Option<T2>) {
    open spec fn selected(&self) -> Seq<char> {
        self.0.selected()
    }

    open spec fn opened(&self, after: &Self) -> bool {
        self.0.opened(&after.0) && after.1 == self.1
    }

    open spec fn closed(&self, after: &Self) -> bool {
        self.0.closed(&after.0) && after.1 == self.1
    }

    open spec fn selection_got(&self, r: &Result<&'a str, ParsingError>) -> bool {
        self.0.selection_got(r)
    }

    fn get_selection(&self) -> (r: Result<&'a str, ParsingError>) {
        self.0.get_selection()
    }

    fn selection_start(self) -> (r: Self) {
        (self.0.selection_start(), self.1)
    }

    fn selection_end(self) -> (r: Self) {
        (self.0.selection_end(), self.1)
    }
}

impl<'a, T1, T2> Matchable<'a> for ((Cursor<'a>, Option<T1>), Option<T2>) {

}

impl<'a, T1, T2> Selectable<'a> for ((Cursor<'a>, Option<T1>), Option<T2>) {

}

impl<'a, T1, T2, T3> ChainState<'a> for (((Cursor<'a>, Option<T1>), Option<T2>), Option<T3>) {
    type DeTuple = (&'a str, T1, T2, T3);

    open spec fn remaining(&self) -> Option<Seq<char>> {
        self.0.remaining()
    }

    open spec fn advanced(&self, to: Seq<char>, after: &Self) -> bool {
        self.0.advanced(to, &after.0) && after.1 == self.1
    }

    open spec fn halted(&self, error: ErrorView, after: &Self) -> bool {
        self.0.halted(error, &after.0) && after.1 == self.1
    }

    open spec fn validated(&self, r: &Result<Self::DeTuple, ParsingError>) -> bool {
        exists|inner: Result<(&'a str, T1, T2), ParsingError>| #[trigger]
            self.0.validated(&inner) && match inner {
                Ok(found) => match self.1 {
                    Some(t) => *r == Ok::<Self::DeTuple, ParsingError>(
                        (found.0, found.1, found.2, t),
                    ),
                    None => *r is Err && r->Err_0@ == no_match("validate"@, ""@),
                },
                Err(e) => *r == Err::<Self::DeTuple, ParsingError>(e),
            }
    }

    fn str(&self) -> (r: Result<&'a str, ParsingError>) {
        self.0.str()
    }

    fn set_str(self, s: &'a str) -> (r: Self) {
        (self.0.set_str(s), self.1)
    }

    fn set_error(self, e: ParsingError) -> (r: Self) {
        (self.0.set_error(e), self.1)
    }

    fn validate(self) -> (r: Result<Self::DeTuple, ParsingError>) {
        match self.0.validate() {
            Ok(found) => match self.1 {
                Some(t) => Ok((found.0, found.1, found.2, t)),
                None => Err(failure("validate", "")),
            },
            Err(e) => Err(e),
        }
    }
}

impl<'a, T1, T2, T3> SelectState<'a> for (((Cursor<'a>, Option<T1>), Option<T2>), Option<T3>) {
    open spec fn selected(&self) -> Seq<char> {
        self.0.selected()
    }

    open spec fn opened(&self, after: &Self) -> bool {
        self.0.opened(&after.0) && after.1 == self.1
    }

    open spec fn closed(&self, after: &Self) -> bool {
        self.0.closed(&after.0) && after.1 == self.1
    }

    open spec fn selection_got(&self, r: &Result<&'a str, ParsingError>) -> bool {
        self.0.selection_got(r)
    }

    fn get_selection(&self) -> (r: Result<&'a str, ParsingError>) {
        self.0.get_selection()
    }

    fn selection_start(self) -> (r: Self) {
        (self.0.selection_start(), self.1)
    }

    fn selection_end(self) -> (r: Self) {
        (self.0.selection_end(), self.1)
    }
}

impl<'a, T1, T2, T3> Matchable<'a> for (((Cursor<'a>, Option<T1>), Option<T2>), Option<T3>) {

}

impl<'a, T1, T2, T3> Selectable<'a> for (((Cursor<'a>, Option<T1>), Option<T2>), Option<T3>) {

}

} // verus!
