//! The two ways in which a step of a match chain can fail.

use core::num::ParseIntError;
use core::str::ParseBoolError;
use vstd::prelude::*;
use vstd::std_specs::convert::FromSpecImpl;
use vstd::string::StringExecFns;

verus! {

/// The integer-parsing error of the standard library, carried through unread.
#[verifier::external_type_specification]
#[verifier::external_body]
pub struct ExParseIntError(ParseIntError);

/// The boolean-parsing error of the standard library, carried through unread.
#[verifier::external_type_specification]
#[verifier::external_body]
pub struct ExParseBoolError(ParseBoolError);

/// Whether a failure may be answered by trying something else.
pub trait Recoverable {
    spec fn recoverable(&self) -> bool;

    fn is_recoverable(&self) -> (r: bool)
        ensures
            r == self.recoverable(),
    ;
}

/// Why a chain of matches stopped.
///
/// `NoMatch` is the ordinary outcome of a step that did not find what it
/// looked for: it names the step and the argument it was given, and callers
/// answer it by trying an alternative or by ending a list. `Fatal` is never
/// answered that way: it is handed on unchanged, with the cause where one is
/// known.
#[derive(Debug)]
pub enum ParsingError {
    Fatal(Option<String>),
    NoMatch { action: &'static str, args: String },
}

/// What a [`ParsingError`] says, as plain sequences of characters.
pub enum ErrorView {
    Fatal(Option<Seq<char>>),
    NoMatch { action: Seq<char>, args: Seq<char> },
}

impl View for ParsingError {
    type V = ErrorView;

    open spec fn view(&self) -> ErrorView {
        match self {
            ParsingError::Fatal(Some(cause)) => ErrorView::Fatal(Some(cause@)),
            ParsingError::Fatal(None) => ErrorView::Fatal(None),
            ParsingError::NoMatch { action, args } => ErrorView::NoMatch {
                action: action@,
                args: args@,
            },
        }
    }
}

/// The view of the `NoMatch` that names `action` and `args`.
pub open spec fn no_match(action: Seq<char>, args: Seq<char>) -> ErrorView {
    ErrorView::NoMatch { action, args }
}

impl Recoverable for ParsingError {
    open spec fn recoverable(&self) -> bool {
        self is NoMatch
    }

    fn is_recoverable(&self) -> (r: bool) {
        match self {
            ParsingError::NoMatch { .. } => true,
            ParsingError::Fatal(_) => false,
        }
    }
}

impl Default for ParsingError {
    fn default() -> (r: Self)
        ensures
            r@ == no_match(Seq::empty(), Seq::empty()),
    {
        proof {
            reveal_strlit("");
            assert(""@ =~= Seq::<char>::empty());
        }
        ParsingError::NoMatch { action: "", args: String::new() }
    }
}

impl Clone for ParsingError {
    fn clone(&self) -> (r: Self)
        ensures
            r@ == self@,
    {
        match self {
            ParsingError::Fatal(Some(cause)) => ParsingError::Fatal(Some(cause.clone())),
            ParsingError::Fatal(None) => ParsingError::Fatal(None),
            ParsingError::NoMatch { action, args } => ParsingError::NoMatch {
                action: *action,
                args: args.clone(),
            },
        }
    }
}

/// The `NoMatch` of the step `action` that was given `args`.
pub fn failure(action: &'static str, args: &str) -> (e: ParsingError)
    ensures
        e@ == no_match(action@, args@),
{
    ParsingError::NoMatch { action, args: args.to_owned() }
}

impl ParsingError {
    /// The failure in one line of text.
    pub fn message(&self) -> (text: String)
        ensures
            text@ == message_of(self@),
    {
        match self {
            ParsingError::Fatal(Some(cause)) => String::from_str("Fatal:").concat(cause.as_str()),
            ParsingError::Fatal(None) => String::from_str("Fatal:"),
            ParsingError::NoMatch { action, args } => String::from_str(
                "FailedMatch: (action='",
            ).concat(action).concat("' args='").concat(args.as_str()).concat("')"),
        }
    }
}

/// The line of text that [`ParsingError::message`] gives for a failure.
pub open spec fn message_of(e: ErrorView) -> Seq<char> {
    match e {
        ErrorView::Fatal(Some(cause)) => "Fatal:"@ + cause,
        ErrorView::Fatal(None) => "Fatal:"@,
        ErrorView::NoMatch { action, args } => "FailedMatch: (action='"@ + action + "' args='"@
            + args + "')"@,
    }
}

/// A number that did not parse is an ordinary failure to match.
impl From<ParseIntError> for ParsingError {
    fn from(_value: ParseIntError) -> (r: Self)
        ensures
            r@ == no_match("parse int error"@, ""@),
    {
        failure("parse int error", "")
    }
}

impl FromSpecImpl<ParseIntError> for ParsingError {
    open spec fn obeys_from_spec() -> bool {
        false
    }

    open spec fn from_spec(_value: ParseIntError) -> Self {
        ParsingError::Fatal(None)
    }
}

/// A truth value that did not parse is an ordinary failure to match.
impl From<ParseBoolError> for ParsingError {
    fn from(_value: ParseBoolError) -> (r: Self)
        ensures
            r@ == no_match("parse bool error"@, ""@),
    {
        failure("parse bool error", "")
    }
}

impl FromSpecImpl<ParseBoolError> for ParsingError {
    open spec fn obeys_from_spec() -> bool {
        false
    }

    open spec fn from_spec(_value: ParseBoolError) -> Self {
        ParsingError::Fatal(None)
    }
}

} // verus!
