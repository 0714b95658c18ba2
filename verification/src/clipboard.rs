//! A clipboard: the text that remains in a chain, held for one conversion.

use core::marker::PhantomData;
use crate::chain::ChainState;
use crate::convert::FromText;
use crate::error::{failure, no_match, ParsingError};
use vstd::prelude::*;

verus! {

/// A chain whose remaining text is about to be stored somewhere.
pub struct Clipboard<'a, C> {
    c: C,
    phantom: PhantomData<&'a ()>,
}

impl<'a, C: ChainState<'a>> Clipboard<'a, C> {
    /// The chain that the clipboard holds.
    pub closed spec fn chain(self) -> C {
        self.c
    }

    /// The clipboard of the chain `c`.
    pub fn new(c: C) -> (r: Self)
        ensures
            r.chain() == c,
    {
        Self { c, phantom: PhantomData }
    }

    /// The text that would be stored, or the error of a chain that has halted.
    fn selected(&self) -> (r: Result<&'a str, ParsingError>)
        ensures
            match self.chain().remaining() {
                Some(s) => r is Ok && r.unwrap()@ == s,
                None => r is Err,
            },
    {
        self.c.str()
    }

    /// Reads the remaining text as a number and returns it, provided the
    /// chain then validates. `held` is the chain that [`Clipboard::put_i32`]
    /// leaves.
    pub fn as_i32(self) -> (r: Result<i32, ParsingError>)
        ensures
            exists|held: C, v: Result<C::DeTuple, ParsingError>, n: i32|
                #![trigger put(self.chain(), 0, held, n), held.validated(&v)]
                put(self.chain(), 0, held, n) && held.validated(&v) && match v {
                    Ok(_) => r == Ok::<i32, ParsingError>(n),
                    Err(e) => r == Err::<i32, ParsingError>(e),
                },
    {
        let mut dest: i32 = 0;
        let held = self.put_i32(&mut dest);
        let v = held.validate();
        match v {
            Ok(_) => Ok(dest),
            Err(e) => Err(e),
        }
    }

    /// Reads the remaining text as a number into `dest` and hands the chain
    /// back. Where the text is no number the chain halts with the `NoMatch`
    /// named `parse i32`, and `dest` stays as it is; so it does on a chain
    /// that has halted, which stays as it is.
    pub fn put_i32(self, dest: &mut i32) -> (r: C)
        ensures
            put(self.chain(), *old(dest), r, *final(dest)),
    {
        match self.selected() {
            Ok(s) => match i32::from_text(s) {
                Some(t) => {
                    *dest = t;
                    self.c
                },
                None => self.c.set_error(failure("parse i32", s)),
            },
            Err(_) => self.c,
        }
    }

    /// Stores the remaining text in `dest` and hands the chain back. On a
    /// chain that has halted `dest` stays as it is.
    pub fn put_str(self, dest: &mut &'a str) -> (r: C)
        ensures
            r == self.chain(),
            match self.chain().remaining() {
                Some(s) => final(dest)@ == s,
                None => *final(dest) == *old(dest),
            },
    {
        match self.selected() {
            Ok(s) => {
                *dest = s;
            },
            Err(_) => {},
        }
        self.c
    }
}

/// `after` and `holds` are what reading the remaining text of `before` as a
/// number leaves, where the number went to a variable that held `held`.
pub open spec fn put<'a, C: ChainState<'a>>(before: C, held: i32, after: C, holds: i32) -> bool {
    match before.remaining() {
        None => after == before && holds == held,
        Some(s) => if <i32 as FromText>::accepts(s) {
            after == before && <i32 as FromText>::value_of(s, holds)
        } else {
            before.halted(no_match("parse i32"@, s), &after) && after.remaining() is None && holds
                == held
        },
    }
}

} // verus!
