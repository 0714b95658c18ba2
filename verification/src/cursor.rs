//! The cursor: a position in the input, the selection, and the error that
//! halted the chain, if one did.

use crate::chain::{ChainState, SelectState};
use crate::error::{failure, no_match, ErrorView, ParsingError};
use crate::selection::{lemma_move_keeps_order, lemma_suffix_trans, Selection, SelectionView};
use crate::text::{same_text, span};
use crate::text_parser::{Matchable, Selectable};
use vstd::prelude::*;
use vstd::std_specs::cmp::PartialEqSpecImpl;
use vstd::std_specs::convert::{FromSpecImpl, TryFromSpecImpl};

verus! {

/// What a [`Cursor`] holds, with each position as the sequence of characters
/// from there on.
pub struct CursorView {
    pub selection: SelectionView,
    pub cur: Option<Seq<char>>,
    pub err: Option<ErrorView>,
    pub context: Seq<char>,
}

impl CursorView {
    /// A cursor either stands at a position or holds an error, never both
    /// and never neither; its selection is in order, and the position lies at
    /// or behind the point that the selection has reached.
    pub open spec fn wf(self) -> bool {
        &&& (self.cur is Some) != (self.err is Some)
        &&& self.selection.wf()
        &&& self.cur is Some ==> self.cur.unwrap().is_suffix_of(self.selection.anchor())
    }

    /// The cursor moved to the position `to`.
    pub open spec fn moved(self, to: Seq<char>) -> CursorView {
        CursorView {
            selection: self.selection.move_cursor(to),
            cur: Some(to),
            err: self.err,
            context: self.context,
        }
    }

    /// The cursor halted with `error`.
    pub open spec fn halt(self, error: ErrorView) -> CursorView {
        CursorView { selection: self.selection, cur: None, err: Some(error), context: self.context }
    }

    /// The cursor with a mark set where it stands; a halted one unchanged.
    pub open spec fn marked(self) -> CursorView {
        match self.cur {
            Some(cur) => CursorView {
                selection: SelectionView::Start(cur, None),
                cur: self.cur,
                err: self.err,
                context: self.context,
            },
            None => self,
        }
    }

    /// The cursor with its selection closed where it stands; a halted one
    /// unchanged.
    pub open spec fn closed(self) -> CursorView {
        match self.cur {
            Some(cur) => CursorView {
                selection: SelectionView::Start(self.selection.start(), Some(cur)),
                cur: self.cur,
                err: self.err,
                context: self.context,
            },
            None => self,
        }
    }

    /// The selected text: the input between the start and the end of the
    /// selection.
    pub open spec fn selected(self) -> Seq<char> {
        match self.cur {
            Some(cur) => {
                let (s, e) = self.selection.selection(cur);
                s.take(s.len() - e.len())
            },
            None => Seq::empty(),
        }
    }

    /// The cursor that is made for the input `s`.
    pub open spec fn fresh(s: Seq<char>) -> CursorView {
        CursorView {
            selection: SelectionView::Defaulted(s),
            cur: Some(s),
            err: None,
            context: Seq::empty(),
        }
    }
}

/// The state that is threaded through a chain of matching steps: where in the
/// input the chain stands, which part of the input is selected, and the error
/// that halted the chain, if one did.
#[derive(Debug)]
pub struct Cursor<'a> {
    pub(crate) selection: Selection<'a>,
    pub(crate) cur: Option<&'a str>,
    pub(crate) err: Option<ParsingError>,
    pub(crate) context: &'static str,
}

impl<'a> View for Cursor<'a> {
    type V = CursorView;

    closed spec fn view(&self) -> CursorView {
        CursorView {
            selection: self.selection@,
            cur: match self.cur {
                Some(s) => Some(s@),
                None => None,
            },
            err: match self.err {
                Some(e) => Some(e@),
                None => None,
            },
            context: self.context@,
        }
    }
}

impl<'a> Cursor<'a> {
    #[verifier::type_invariant]
    closed spec fn inv(self) -> bool {
        self@.wf()
    }

    /// The cursor at the start of the input `s`, with nothing marked.
    pub fn new(s: &'a str) -> (c: Self)
        ensures
            c@ == CursorView::fresh(s@),
    {
        proof {
            reveal_strlit("");
            assert(""@ =~= Seq::<char>::empty());
        }
        Cursor { selection: Selection::Defaulted(s), cur: Some(s), err: None, context: "" }
    }

    /// Every cursor is well formed. A call of this function makes that known
    /// to a proof; it does nothing else.
    pub fn well_formed(&self)
        ensures
            self@.wf(),
    {
        proof {
            use_type_invariant(self);
        }
    }

    /// The same cursor under the name `label`, which diagnostics may show.
    /// Matching does not depend on it.
    pub fn labelled(self, label: &'static str) -> (c: Self)
        ensures
            c@ == (CursorView { context: label@, ..self@ }),
    {
        proof {
            use_type_invariant(&self);
        }
        Cursor { selection: self.selection, cur: self.cur, err: self.err, context: label }
    }

    /// The name that was given to the cursor.
    pub fn context(&self) -> (label: &'static str)
        ensures
            label@ == self@.context,
    {
        self.context
    }

    /// The selection as it stands.
    pub fn selection(&self) -> (s: Selection<'a>)
        ensures
            s@ == self@.selection,
    {
        self.selection
    }
}

impl<'a> Clone for Cursor<'a> {
    fn clone(&self) -> (r: Self)
        ensures
            r@ == self@,
    {
        proof {
            use_type_invariant(self);
        }
        Cursor {
            selection: self.selection,
            cur: self.cur,
            err: match &self.err {
                Some(e) => Some(e.clone()),
                None => None,
            },
            context: self.context,
        }
    }
}

impl<'a> From<&'a str> for Cursor<'a> {
    fn from(s: &'a str) -> (c: Self)
        ensures
            c@ == CursorView::fresh(s@),
    {
        Cursor::new(s)
    }
}

impl<'a> FromSpecImpl<&'a str> for Cursor<'a> {
    open spec fn obeys_from_spec() -> bool {
        false
    }

    open spec fn from_spec(s: &'a str) -> Self {
        arbitrary()
    }
}

/// Whether two optional texts are the same.
fn same_option(a: Option<&str>, b: Option<&str>) -> (same: bool)
    ensures
        same == (crate::moves::opt_view(a) == crate::moves::opt_view(b)),
{
    match (a, b) {
        (Some(x), Some(y)) => same_text(x, y),
        (None, None) => true,
        _ => false,
    }
}

/// Whether two selections are the same: of one shape, with the same text at
/// each position.
fn same_selection(a: &Selection, b: &Selection) -> (same: bool)
    ensures
        same == (a@ == b@),
{
    match (a, b) {
        (Selection::Defaulted(s), Selection::Defaulted(t)) => same_text(s, t),
        (Selection::Start(s, e), Selection::Start(t, f)) => same_text(s, t) && same_option(
            *e,
            *f,
        ),
        (Selection::Last(s, e), Selection::Last(t, f)) => same_text(s, t) && same_text(e, f),
        _ => false,
    }
}

/// Two cursors are equal where neither has halted and both stand at the same
/// text, with the same selection, under the same name.
impl<'a> PartialEq for Cursor<'a> {
    fn eq(&self, other: &Self) -> (r: bool) {
        same_selection(&self.selection, &other.selection) && same_option(self.cur, other.cur)
            && same_text(self.context, other.context) && match (&self.err, &other.err) {
            (None, None) => true,
            _ => false,
        }
    }
}

impl<'a> PartialEqSpecImpl for Cursor<'a> {
    open spec fn obeys_eq_spec() -> bool {
        true
    }

    open spec fn eq_spec(&self, other: &Self) -> bool {
        self@ == other@ && self@.err is None
    }
}

/// The text that remains in a cursor, or a `NoMatch` where it has halted.
impl<'a> TryFrom<Cursor<'a>> for &'a str {
    type Error = ParsingError;

    fn try_from(value: Cursor<'a>) -> (r: Result<Self, Self::Error>)
        ensures
            match value@.cur {
                Some(s) => r is Ok && r.unwrap()@ == s,
                None => r is Err && r.unwrap_err()@ == no_match("str on erroring cursor"@, ""@),
            },
    {
        value.str()
    }
}

impl<'a> TryFromSpecImpl<Cursor<'a>> for &'a str {
    open spec fn obeys_try_from_spec() -> bool {
        false
    }

    open spec fn try_from_spec(v: Cursor<'a>) -> Result<Self, Self::Error> {
        arbitrary()
    }
}

impl<'a> ChainState<'a> for Cursor<'a> {
    type DeTuple = &'a str;

    open spec fn remaining(&self) -> Option<Seq<char>> {
        self@.cur
    }

    open spec fn advanced(&self, to: Seq<char>, after: &Self) -> bool {
        after@ == self@.moved(to)
    }

    open spec fn halted(&self, error: ErrorView, after: &Self) -> bool {
        after@ == self@.halt(error)
    }

    open spec fn validated(&self, r: &Result<Self::DeTuple, ParsingError>) -> bool {
        match self@.err {
            Some(e) => *r is Err && r.unwrap_err()@ == e,
            None => *r is Ok && Some(r.unwrap()@) == self@.cur,
        }
    }

    fn str(&self) -> (r: Result<&'a str, ParsingError>) {
        match self.cur {
            Some(s) => Ok(s),
            None => Err(failure("str on erroring cursor", "")),
        }
    }

    fn set_str(self, s: &'a str) -> (r: Self) {
        proof {
            use_type_invariant(&self);
            lemma_move_keeps_order(self@.selection, self@.cur.unwrap(), s@);
        }
        Cursor {
            selection: self.selection.move_cursor(s),
            cur: Some(s),
            err: self.err,
            context: self.context,
        }
    }

    fn set_error(self, e: ParsingError) -> (r: Self) {
        proof {
            use_type_invariant(&self);
        }
        Cursor { selection: self.selection, cur: None, err: Some(e), context: self.context }
    }

    fn validate(self) -> (r: Result<Self::DeTuple, ParsingError>) {
        proof {
            use_type_invariant(&self);
        }
        match self.err {
            None => match self.cur {
                Some(s) => Ok(s),
                None => Err(failure("str on erroring cursor", "")),
            },
            Some(e) => Err(e),
        }
    }
}

impl<'a> SelectState<'a> for Cursor<'a> {
    open spec fn selected(&self) -> Seq<char> {
        self@.selected()
    }

    open spec fn opened(&self, after: &Self) -> bool {
        after@ == self@.marked()
    }

    open spec fn closed(&self, after: &Self) -> bool {
        after@ == self@.closed()
    }

    open spec fn selection_got(&self, r: &Result<&'a str, ParsingError>) -> bool {
        match self@.err {
            Some(e) => *r is Err && r.unwrap_err()@ == e,
            None => *r is Ok && r.unwrap()@ == self@.selected(),
        }
    }

    fn get_selection(&self) -> (r: Result<&'a str, ParsingError>) {
        proof {
            use_type_invariant(self);
        }
        match self.cur {
            Some(cur) => {
                let (s, e) = self.selection.selection(cur);
                proof {
                    lemma_suffix_trans(cur@, self@.selection.anchor(), self@.selection.start());
                }
                Ok(span(s, e))
            },
            None => match &self.err {
                Some(e) => Err(e.clone()),
                None => Err(failure("str on erroring cursor", "")),
            },
        }
    }

    fn selection_start(self) -> (r: Self) {
        proof {
            use_type_invariant(&self);
        }
        match self.cur {
            Some(cur) => Cursor {
                selection: Selection::Start(cur, None),
                cur: self.cur,
                err: self.err,
                context: self.context,
            },
            None => self,
        }
    }

    fn selection_end(self) -> (r: Self) {
        proof {
            use_type_invariant(&self);
        }
        match self.cur {
            Some(cur) => {
                proof {
                    lemma_suffix_trans(cur@, self@.selection.anchor(), self@.selection.start());
                }
                Cursor {
                    selection: Selection::Start(self.selection.start(), self.cur),
                    cur: self.cur,
                    err: self.err,
                    context: self.context,
                }
            },
            None => self,
        }
    }
}

impl<'a> Matchable<'a> for Cursor<'a> {

}

impl<'a> Selectable<'a> for Cursor<'a> {

}

} // verus!
