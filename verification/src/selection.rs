//! The marked part of the input: where it starts and, once known, where it ends.

use crate::util::{formatted, formatter_str};
use vstd::prelude::*;
use vstd::string::StringExecFns;

verus! {

/// Which part of the input is marked for extraction.
///
/// Every position is the text from that position to the end of the input, so
/// a later position is a suffix of an earlier one.
#[derive(Debug, Clone, Copy, PartialEq)]
pub enum Selection<'a> {
    /// Nothing was marked: the selection runs from this position to wherever
    /// the cursor stands.
    Defaulted(&'a str),
    /// A mark was set at the first position; the second is the end, once the
    /// selection has been closed. Moving the cursor leaves it as it is.
    Start(&'a str, Option<&'a str>),
    /// The text that the last step consumed, from the first position to the
    /// second.
    Last(&'a str, &'a str),
}

/// A [`Selection`] with each position as the sequence of characters from there on.
pub enum SelectionView {
    Defaulted(Seq<char>),
    Start(Seq<char>, Option<Seq<char>>),
    Last(Seq<char>, Seq<char>),
}

impl SelectionView {
    /// Where the selection starts.
    pub open spec fn start(self) -> Seq<char> {
        match self {
            SelectionView::Defaulted(s) => s,
            SelectionView::Start(s, _) => s,
            SelectionView::Last(s, _) => s,
        }
    }

    /// The selection after the cursor has moved to `to`.
    pub open spec fn move_cursor(self, to: Seq<char>) -> SelectionView {
        match self {
            SelectionView::Defaulted(s) => SelectionView::Last(s, to),
            SelectionView::Start(s, e) => SelectionView::Start(s, e),
            SelectionView::Last(_s, e) => SelectionView::Last(e, to),
        }
    }

    /// Start and end of the selection for a cursor that stands at `cur`.
    pub open spec fn selection(self, cur: Seq<char>) -> (Seq<char>, Seq<char>) {
        match self {
            SelectionView::Defaulted(s) => (s, cur),
            SelectionView::Start(s, None) => (s, cur),
            SelectionView::Start(s, Some(e)) => (s, e),
            SelectionView::Last(s, e) => (s, e),
        }
    }

    /// The position that the cursor has reached or passed.
    pub open spec fn anchor(self) -> Seq<char> {
        match self {
            SelectionView::Defaulted(s) => s,
            SelectionView::Start(s, None) => s,
            SelectionView::Start(_s, Some(e)) => e,
            SelectionView::Last(_s, e) => e,
        }
    }

    /// A stored end lies at or behind the start, in the same input.
    pub open spec fn wf(self) -> bool {
        match self {
            SelectionView::Defaulted(_s) => true,
            SelectionView::Start(_s, None) => true,
            SelectionView::Start(s, Some(e)) => e.is_suffix_of(s),
            SelectionView::Last(s, e) => e.is_suffix_of(s),
        }
    }
}

impl<'a> View for Selection<'a> {
    type V = SelectionView;

    open spec fn view(&self) -> SelectionView {
        match self {
            Selection::Defaulted(s) => SelectionView::Defaulted(s@),
            Selection::Start(s, Some(e)) => SelectionView::Start(s@, Some(e@)),
            Selection::Start(s, None) => SelectionView::Start(s@, None),
            Selection::Last(s, e) => SelectionView::Last(s@, e@),
        }
    }
}

impl<'a> Selection<'a> {
    /// Where the selection starts.
    pub fn start(&self) -> (s: &'a str)
        ensures
            s@ == self@.start(),
    {
        match self {
            Selection::Defaulted(s) => s,
            Selection::Start(s, _) => s,
            Selection::Last(s, _) => s,
        }
    }

    /// The selection after the cursor has moved to `to`: an open or closed
    /// mark stays, anything else becomes the text between the last position
    /// and `to`.
    pub fn move_cursor(self, to: &'a str) -> (r: Self)
        ensures
            r@ == self@.move_cursor(to@),
    {
        match self {
            Selection::Defaulted(s) => Selection::Last(s, to),
            Selection::Start(s, e) => Selection::Start(s, e),
            Selection::Last(_s, e) => Selection::Last(e, to),
        }
    }

    /// Start and end of the selection for a cursor that stands at `cur`.
    pub fn selection(&self, cur: &'a str) -> (r: (&'a str, &'a str))
        ensures
            (r.0@, r.1@) == self@.selection(cur@),
    {
        match self {
            Selection::Defaulted(s) => (s, cur),
            Selection::Start(s, opt_e) => match opt_e {
                Some(e) => (s, e),
                None => (s, cur),
            },
            Selection::Last(s, e) => (s, e),
        }
    }
}

/// The selection in a line of diagnostics, as [`Selection::describe`] gives it.
pub open spec fn described(sel: SelectionView) -> Seq<char> {
    match sel {
        SelectionView::Defaulted(s) => "Defaulted("@ + formatted(s) + ")"@,
        SelectionView::Start(s, Some(e)) => "Start('"@ + formatted(s) + "', '"@ + formatted(e)
            + "')"@,
        SelectionView::Start(s, None) => "Start('"@ + formatted(s) + "', '"@ + formatted(
            Seq::empty(),
        ) + "')"@,
        SelectionView::Last(s, e) => "Last('"@ + formatted(s) + "','"@ + formatted(e) + "')"@,
    }
}

impl<'a> Selection<'a> {
    /// The selection in a line of diagnostics: its shape, and the text at
    /// each of its positions as [`formatter_str`] shows it.
    pub fn describe(&self) -> (line: String)
        ensures
            line@ == described(self@),
    {
        proof {
            reveal_strlit("");
        }
        match self {
            Selection::Defaulted(s) => String::from_str("Defaulted(").concat(
                formatter_str(s).as_str(),
            ).concat(")"),
            Selection::Start(s, opt_e) => {
                let end: &str = match opt_e {
                    Some(e) => e,
                    None => "",
                };
                String::from_str("Start('").concat(formatter_str(s).as_str()).concat(
                    "', '",
                ).concat(formatter_str(end).as_str()).concat("')")
            },
            Selection::Last(s, e) => String::from_str("Last('").concat(
                formatter_str(s).as_str(),
            ).concat("','").concat(formatter_str(e).as_str()).concat("')"),
        }
    }
}

/// Being a suffix carries over: a suffix of a suffix is a suffix.
pub proof fn lemma_suffix_trans(a: Seq<char>, b: Seq<char>, c: Seq<char>)
    requires
        a.is_suffix_of(b),
        b.is_suffix_of(c),
    ensures
        a.is_suffix_of(c),
{
}

/// Moving to a position at or behind the present one keeps a selection in order.
pub proof fn lemma_move_keeps_order(sel: SelectionView, cur: Seq<char>, to: Seq<char>)
    requires
        sel.wf(),
        cur.is_suffix_of(sel.anchor()),
        to.is_suffix_of(cur),
    ensures
        sel.move_cursor(to).wf(),
        to.is_suffix_of(sel.move_cursor(to).anchor()),
{
    lemma_suffix_trans(to, cur, sel.anchor());
}

} // verus!
