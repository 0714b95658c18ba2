//! Parsers that are put together before they are run: each link of a chain is
//! a parser of its own, and the chain runs them one after the other.

use core::marker::PhantomData;
use crate::classes::{skip_run, skip_spaces, spaces};
use crate::convert::FromText;
use crate::error::{failure, no_match, ParsingError};
use crate::moves::{find_move, seek};
use vstd::prelude::*;
use vstd::string::StringExecFns;

verus! {

/// A parser that is run on an input and gives an output or fails.
pub trait Parser<'a>: Sized {
    /// What the parser is run on.
    type Input;

    /// What the parser gives.
    type Output;

    /// How the parser fails.
    type Error;

    /// Whether the parser may be run on `inp`.
    spec fn ready(&self, inp: Self::Input) -> bool;

    /// Whether `out` is what the parser may give on `inp`.
    spec fn validates(&self, inp: Self::Input, out: Result<Self::Output, Self::Error>) -> bool;

    /// The word by which the parser is shown.
    spec fn kind(&self) -> Seq<char>;

    /// A line that shows the parser, behind `indent`.
    fn name(&self, indent: &str) -> (line: String)
        ensures
            line@ == indent@ + self.kind(),
    ;

    /// Runs the parser on `inp`.
    fn validate(&mut self, inp: Self::Input) -> (r: Result<Self::Output, Self::Error>)
        requires
            old(self).ready(inp),
        ensures
            old(self).validates(inp, r),
    ;

}

/// Putting parsers together.
pub trait Chaining<'a>: Parser<'a> {
    /// This parser and then `tail`, as one parser.
    fn chain_parser<T, B: Parser<'a, Output = T>>(self, tail: B) -> (chain: Chain<
        'a,
        Self,
        B,
    >) where
        B: Parser<'a, Input = Self::Input, Error = Self::Error>,

        ensures
            chain.head == self,
            chain.tail == tail,
    {
        Chain { head: self, tail, pdlt: PhantomData }
    }
}

impl<'a, P: Parser<'a>> Chaining<'a> for P {

}

/// A parser on text that fails with a [`ParsingError`].
pub trait StrParser<'a, O>: Parser<'a, Input = &'a str, Output = O, Error = ParsingError> {
    /// This parser, and then any white space skipped.
    fn ws(self) -> (chain: Chain<'a, Self, Lexer>)
        ensures
            chain.head == self,
    {
        self.chain_parser(Lexer)
    }

    /// Names the parser for diagnostics. Parsing is not affected.
    fn debug_context(self, span_name: &'static str) -> (r: Self)
        ensures
            r == self,
    {
        self
    }

    /// The parser that converts the whole of its input to a `T`. It takes
    /// the place of this parser.
    fn parse_selection<T: FromText>(self) -> ParseSelection<'a, T> {
        ParseSelection { pd: PhantomData }
    }

    /// This parser, and then a move to the first occurrence of `needle`.
    fn find(self, needle: &'a str) -> (r: Find<'a, Self>)
        ensures
            r.needle == needle,
            r.chain.head == self,
    {
        Find { needle, chain: Chain { head: self, tail: SP, pdlt: PhantomData } }
    }
}

/// The parser that skips the white space at the head of the text.
pub struct Lexer;

impl<'a> Parser<'a> for Lexer {
    type Input = &'a str;

    type Output = &'a str;

    type Error = ParsingError;

    open spec fn ready(&self, inp: Self::Input) -> bool {
        true
    }

    open spec fn validates(
        &self,
        inp: Self::Input,
        out: Result<Self::Output, Self::Error>,
    ) -> bool {
        out is Ok && Some(out.unwrap()@) == skip_run(inp@, spaces())
    }

    open spec fn kind(&self) -> Seq<char> {
        "Lex ws"@
    }

    fn name(&self, indent: &str) -> (line: String) {
        String::from_str(indent).concat("Lex ws")
    }

    fn validate(&mut self, inp: Self::Input) -> (r: Result<Self::Output, Self::Error>) {
        Ok(skip_spaces(inp))
    }
}

impl<'a> StrParser<'a, &'a str> for Lexer {

}

/// The parser that converts the whole of its input to a `T`, and gives the
/// input back with the value.
pub struct ParseSelection<'a, T> {
    pd: PhantomData<&'a T>,
}

impl<'a, T: FromText> Parser<'a> for ParseSelection<'a, T> {
    type Input = &'a str;

    type Output = (&'a str, T);

    type Error = ParsingError;

    open spec fn ready(&self, inp: Self::Input) -> bool {
        true
    }

    open spec fn validates(
        &self,
        inp: Self::Input,
        out: Result<Self::Output, Self::Error>,
    ) -> bool {
        if T::accepts(inp@) {
            out is Ok && out.unwrap().0 == inp && T::value_of(inp@, out.unwrap().1)
        } else {
            out is Err && out->Err_0@ == no_match("FromStr"@, ""@)
        }
    }

    open spec fn kind(&self) -> Seq<char> {
        "parse selection"@
    }

    fn name(&self, indent: &str) -> (line: String) {
        String::from_str(indent).concat("parse selection")
    }

    fn validate(&mut self, inp: Self::Input) -> (r: Result<Self::Output, Self::Error>) {
        match T::from_text(inp) {
            Some(t) => Ok((inp, t)),
            None => Err(failure("FromStr", "")),
        }
    }
}

/// A parser, and then a move to the first occurrence of a word.
pub struct Find<'a, P> {
    pub needle: &'a str,
    pub chain: Chain<'a, P, SP>,
}

impl<'a, P> Parser<'a> for Find<'a, P> where
    P: Parser<'a, Input = &'a str, Output = &'a str, Error = ParsingError>,
 {
    type Input = &'a str;

    type Output = &'a str;

    type Error = ParsingError;

    open spec fn ready(&self, inp: Self::Input) -> bool {
        self.chain.ready(inp)
    }

    open spec fn validates(
        &self,
        inp: Self::Input,
        out: Result<Self::Output, Self::Error>,
    ) -> bool {
        exists|one: Result<&'a str, ParsingError>| #[trigger]
            self.chain.validates(inp, one) && match one {
                Ok(s) => match find_move(s@, self.needle@) {
                    Some(at) => out is Ok && out.unwrap()@ == at,
                    None => out is Err && out->Err_0@ == no_match(""@, ""@),
                },
                Err(e) => out == Err::<&'a str, ParsingError>(e),
            }
    }

    open spec fn kind(&self) -> Seq<char> {
        "find"@
    }

    fn name(&self, indent: &str) -> (line: String) {
        String::from_str(indent).concat("find")
    }

    fn validate(&mut self, inp: Self::Input) -> (r: Result<Self::Output, Self::Error>) {
        let one = <Chain<'a, P, SP> as Parser<'a>>::validate(&mut self.chain, inp);
        match one {
            Ok(s) => match seek(s, self.needle) {
                Some(at) => Ok(at),
                None => Err(failure("", "")),
            },
            Err(e) => Err(e),
        }
    }
}

/// Two parsers as one: the head, and then the tail on what the head has
/// left.
pub struct Chain<'a, A, B> {
    pub head: A,
    pub tail: B,
    pub pdlt: PhantomData<&'a ()>,
}

/// How the outputs of two parsers in a chain become the output of the chain,
/// and which part of the output of the head the tail is run on.
pub trait ConcatTuple<O1, I2>: Sized {
    /// The output of the chain.
    type Output;

    /// What the pair of the two outputs becomes.
    spec fn joined(pair: Self) -> Self::Output;

    /// The part of `o1` that the tail is run on.
    spec fn handed_on(o1: O1) -> I2;

    /// The output of the chain for this pair of outputs.
    fn concat(self) -> (r: Self::Output)
        ensures
            r == Self::joined(self),
    ;

    /// The input of the tail for the output `o1` of the head.
    fn input2_from(o1: O1) -> (r: I2)
        ensures
            r == Self::handed_on(o1),
    ;
}

impl<S> ConcatTuple<S, S> for (S, S) {
    type Output = S;

    open spec fn joined(pair: Self) -> Self::Output {
        pair.1
    }

    open spec fn handed_on(o1: S) -> S {
        o1
    }

    fn concat(self) -> (r: Self::Output) {
        let (_s0, s1) = self;
        s1
    }

    fn input2_from(o1: S) -> (r: S) {
        o1
    }
}

impl<S, T> ConcatTuple<(S, T), S> for ((S, T), S) {
    type Output = (S, T);

    open spec fn joined(pair: Self) -> Self::Output {
        (pair.1, (pair.0).1)
    }

    open spec fn handed_on(o1: (S, T)) -> S {
        o1.0
    }

    fn concat(self) -> (r: Self::Output) {
        let ((_s0, t), s2) = self;
        (s2, t)
    }

    fn input2_from(o1: (S, T)) -> (r: S) {
        let (s0, _t) = o1;
        s0
    }
}

impl<S, T0, T1> ConcatTuple<(S, T0, T1), S> for ((S, T0, T1), S) {
    type Output = (S, T0, T1);

    open spec fn joined(pair: Self) -> Self::Output {
        (pair.1, (pair.0).1, (pair.0).2)
    }

    open spec fn handed_on(o1: (S, T0, T1)) -> S {
        o1.0
    }

    fn concat(self) -> (r: Self::Output) {
        let ((_s0, t0, t1), s2) = self;
        (s2, t0, t1)
    }

    fn input2_from(o1: (S, T0, T1)) -> (r: S) {
        let (s0, _t0, _t1) = o1;
        s0
    }
}

impl<S, S0, T0> ConcatTuple<(S, S0), S> for ((S, S0), (S, T0)) {
    type Output = (S, S0, T0);

    open spec fn joined(pair: Self) -> Self::Output {
        ((pair.1).0, (pair.0).1, (pair.1).1)
    }

    open spec fn handed_on(o1: (S, S0)) -> S {
        o1.0
    }

    fn concat(self) -> (r: Self::Output) {
        let ((_s0, s0), (t, t0)) = self;
        (t, s0, t0)
    }

    fn input2_from(o1: (S, S0)) -> (r: S) {
        let (s0, _s0) = o1;
        s0
    }
}

/// What a chain of `head` and `tail` may give on `inp`: the failure of the
/// head; or, the tail run on the part of a copy of the head's
/// output that is handed on, its failure, or both outputs joined.
pub open spec fn chained<'a, A, B>(
    head: A,
    tail: B,
    inp: A::Input,
    out: Result<
        <(A::Output, B::Output) as ConcatTuple<A::Output, B::Input>>::Output,
        A::Error,
    >,
) -> bool where
    A: Parser<'a>,
    A::Output: Clone,
    B: Parser<'a, Input = A::Input, Error = A::Error>,
    (A::Output, B::Output): ConcatTuple<A::Output, B::Input>,
 {
    exists|one: Result<A::Output, A::Error>| #[trigger]
        head.validates(inp, one) && match one {
            Err(e) => out is Err && out->Err_0 == e,
            Ok(o1) => exists|copy: A::Output, two: Result<B::Output, A::Error>|
                cloned(o1, copy) && #[trigger] tail.validates(
                    <(A::Output, B::Output) as ConcatTuple<A::Output, B::Input>>::handed_on(
                        copy,
                    ),
                    two,
                ) && match two {
                    Err(e) => out is Err && out->Err_0 == e,
                    Ok(o2) => out is Ok && out->Ok_0 == <(
                        A::Output,
                        B::Output,
                    ) as ConcatTuple<A::Output, B::Input>>::joined((o1, o2)),
                },
        }
}

impl<'a, A, B> Parser<'a> for Chain<'a, A, B> where
    A: Parser<'a>,
    A::Output: Clone,
    B: Parser<'a, Input = A::Input, Error = A::Error>,
    (A::Output, B::Output): ConcatTuple<A::Output, B::Input>,
 {
    type Input = A::Input;

    type Error = A::Error;

    type Output = <(A::Output, B::Output) as ConcatTuple<A::Output, B::Input>>::Output;

    open spec fn ready(&self, inp: Self::Input) -> bool {
        self.head.ready(inp) && forall|s: B::Input| self.tail.ready(s)
    }

    open spec fn validates(
        &self,
        inp: Self::Input,
        out: Result<Self::Output, Self::Error>,
    ) -> bool {
        chained(self.head, self.tail, inp, out)
    }

    open spec fn kind(&self) -> Seq<char> {
        "chain\n"@ + self.head.kind() + "\n"@ + self.tail.kind()
    }

    fn name(&self, indent: &str) -> (line: String) {
        let one = self.head.name("");
        let two = self.tail.name("");
        let line = String::from_str(indent).concat("chain\n").concat(one.as_str()).concat(
            "\n",
        ).concat(two.as_str());
        proof {
            assert(""@ + self.head.kind() =~= self.head.kind()) by {
                reveal_strlit("");
            }
            assert(""@ + self.tail.kind() =~= self.tail.kind()) by {
                reveal_strlit("");
            }
        }
        line
    }

    fn validate(&mut self, inp: Self::Input) -> (r: Result<Self::Output, Self::Error>) {
        let one = <A as Parser<'a>>::validate(&mut self.head, inp);
        let o1 = match one {
            Ok(o1) => o1,
            Err(e) => {
                return Err(e);
            },
        };
        let copy = o1.clone();
        let s = <(A::Output, B::Output) as ConcatTuple<A::Output, B::Input>>::input2_from(
            copy,
        );
        let two = <B as Parser<'a>>::validate(&mut self.tail, s);
        match two {
            Ok(o2) => Ok(
                <(A::Output, B::Output) as ConcatTuple<A::Output, B::Input>>::concat((o1, o2)),
            ),
            Err(e) => Err(e),
        }
    }
}

impl<'a, A, B, O> StrParser<'a, O> for Chain<'a, A, B> where
    Chain<'a, A, B>: Parser<'a, Input = &'a str, Output = O, Error = ParsingError>,
    A: StrParser<'a, O>,
    B: StrParser<'a, &'a str>,
 {

}

/// A function that only moves on in the text, as a link of a chain.
#[derive(Debug, PartialEq)]
pub struct Lex<T>(pub T);

/// A function that reads a value of the type `T`, as a link of a chain.
pub struct Par<F, T>(pub F, pub PhantomData<T>);

impl<F, T> Par<F, T> {
    /// The function `f` as a link of a chain.
    pub fn new(f: F) -> (par: Self)
        ensures
            par.0 == f,
    {
        Par(f, PhantomData)
    }
}

/// Every function from a text to the text behind what it has consumed is a
/// parser.
impl<'a, F2> Parser<'a> for F2 where F2: FnMut(&'a str) -> Result<&'a str, ParsingError> {
    type Error = ParsingError;

    type Input = &'a str;

    type Output = &'a str;

    open spec fn ready(&self, inp: Self::Input) -> bool {
        call_requires(*self, (inp,))
    }

    open spec fn validates(
        &self,
        inp: Self::Input,
        out: Result<Self::Output, Self::Error>,
    ) -> bool {
        call_ensures(*self, (inp,), out)
    }

    open spec fn kind(&self) -> Seq<char> {
        "Lex"@
    }

    fn name(&self, indent: &str) -> (line: String) {
        String::from_str(indent).concat("Lex")
    }

    fn validate(&mut self, s: &'a str) -> (r: Result<&'a str, ParsingError>) {
        (*self)(s)
    }
}

impl<'a, F2, T> Parser<'a> for Par<F2, T> where
    F2: FnMut(&'a str) -> Result<(&'a str, T), ParsingError>,
 {
    type Error = ParsingError;

    type Input = &'a str;

    type Output = (&'a str, T);

    open spec fn ready(&self, inp: Self::Input) -> bool {
        call_requires(self.0, (inp,))
    }

    open spec fn validates(
        &self,
        inp: Self::Input,
        out: Result<Self::Output, Self::Error>,
    ) -> bool {
        call_ensures(self.0, (inp,), out)
    }

    open spec fn kind(&self) -> Seq<char> {
        "Par"@
    }

    fn name(&self, indent: &str) -> (line: String) {
        String::from_str(indent).concat("Par")
    }

    fn validate(&mut self, s: &'a str) -> (r: Result<(&'a str, T), ParsingError>) {
        (self.0)(s)
    }
}

/// The parser that does nothing: the start of a chain.
pub struct SP;

impl SP {
    /// The parser `p`, as it is.
    pub fn make_parser<'a, T, E, P: Parser<'a, Output = T, Input = &'a str, Error = E>>(
        &self,
        p: P,
    ) -> (r: P)
        ensures
            r == p,
    {
        p
    }
}

impl<'a> StrParser<'a, &'a str> for SP {

}

impl<'a> Parser<'a> for SP {
    type Input = &'a str;

    type Error = ParsingError;

    type Output = &'a str;

    open spec fn ready(&self, inp: Self::Input) -> bool {
        true
    }

    open spec fn validates(
        &self,
        inp: Self::Input,
        out: Result<Self::Output, Self::Error>,
    ) -> bool {
        out == Ok::<&'a str, ParsingError>(inp)
    }

    open spec fn kind(&self) -> Seq<char> {
        "SP"@
    }

    fn name(&self, indent: &str) -> (line: String) {
        String::from_str(indent).concat("SP")
    }

    fn validate(&mut self, inp: Self::Input) -> (r: Result<Self::Input, Self::Error>) {
        Ok(inp)
    }
}

/// Nested pairs as one flat tuple.
pub trait DeTuple: Sized {
    /// The flat tuple.
    type Output;

    /// The flat tuple of `nested`.
    spec fn flat(nested: Self) -> Self::Output;

    /// The same values, side by side.
    fn detuple(self) -> (r: Self::Output)
        ensures
            r == Self::flat(self),
    ;
}

impl<A, B, C> DeTuple for (A, (B, C, ())) {
    type Output = (A, B, C);

    open spec fn flat(nested: Self) -> Self::Output {
        (nested.0, (nested.1).0, (nested.1).1)
    }

    fn detuple(self) -> (r: Self::Output) {
        (self.0, (self.1).0, (self.1).1)
    }
}

impl<A, B, C, D> DeTuple for (A, (B, (C, D, ()))) {
    type Output = (A, B, C, D);

    open spec fn flat(nested: Self) -> Self::Output {
        (nested.0, (nested.1).0, ((nested.1).1).0, ((nested.1).1).1)
    }

    fn detuple(self) -> (r: Self::Output) {
        (self.0, (self.1).0, ((self.1).1).0, ((self.1).1).1)
    }
}

} // verus!
