//! An enumeration that is read by name.

use core::str::FromStr;
use crate::chain::{ChainState, SelectState};
use crate::convert::FromText;
use crate::cursor::Cursor;
use crate::error::{failure, no_match, ParsingError};
use crate::moves::{text_alt_move, words_view};
use crate::text::same_text;
use crate::text_parser::{Matchable, Selectable};
use vstd::prelude::*;

verus! {

/// A colour with a name.
#[derive(PartialEq, Eq, Debug, Clone, Copy, Structural)]
pub enum Color {
    Red,
    Blue,
    Green,
}

/// The colour that `s` names.
pub open spec fn color_of(s: Seq<char>) -> Option<Color> {
    if s == "Red"@ {
        Some(Color::Red)
    } else if s == "Blue"@ {
        Some(Color::Blue)
    } else if s == "Green"@ {
        Some(Color::Green)
    } else {
        None
    }
}

impl Color {
    /// The colour that `s` names: the whole of `s` must be the name. Any
    /// other text is no match.
    pub fn parse(s: &str) -> (r: Result<Color, ParsingError>)
        ensures
            r is Ok <==> color_of(s@) is Some,
            r is Ok ==> Some(r.unwrap()) == color_of(s@),
            r is Err ==> r.unwrap_err()@ == no_match("matching color"@, ""@),
    {
        if same_text(s, "Red") {
            Ok(Color::Red)
        } else if same_text(s, "Blue") {
            Ok(Color::Blue)
        } else if same_text(s, "Green") {
            Ok(Color::Green)
        } else {
            Err(failure("matching color", ""))
        }
    }
}

impl FromText for Color {
    open spec fn accepts(s: Seq<char>) -> bool {
        color_of(s) is Some
    }

    open spec fn value_of(s: Seq<char>, v: Self) -> bool {
        color_of(s) == Some(v)
    }

    fn from_text(s: &str) -> (r: Option<Self>) {
        match Color::parse(s) {
            Ok(color) => Some(color),
            Err(_) => None,
        }
    }
}

impl FromStr for Color {
    type Err = ParsingError;

    fn from_str(s: &str) -> (r: Result<Self, Self::Err>)
        ensures
            r is Ok <==> color_of(s@) is Some,
            r is Ok ==> Some(r.unwrap()) == color_of(s@),
    {
        Color::parse(s)
    }
}

/// The colour whose name stands at the head of `s`, and the length of that
/// name.
pub open spec fn color_at(s: Seq<char>) -> Option<(Color, nat)> {
    if "Red"@.is_prefix_of(s) {
        Some((Color::Red, 3))
    } else if "Blue"@.is_prefix_of(s) {
        Some((Color::Blue, 4))
    } else if "Green"@.is_prefix_of(s) {
        Some((Color::Green, 5))
    } else {
        None
    }
}

/// Reads the name of a colour at the head of `s`, and returns the colour with
/// what follows the name. Any other text is no match.
pub fn parse_enum(s: &str) -> (r: Result<(&str, Color), ParsingError>)
    ensures
        r is Ok <==> color_at(s@) is Some,
        r is Ok ==> r.unwrap().1 == color_at(s@).unwrap().0 && r.unwrap().0@ == s@.skip(
            color_at(s@).unwrap().1 as int,
        ),
        r is Err ==> r.unwrap_err()@ == no_match("text_alt"@, "Red"@),
{
    let names: [&str; 3] = ["Red", "Blue", "Green"];
    let c0 = Cursor::from(s);
    let c1 = c0.text_alt(names.as_slice());
    let v1 = c1.parse_selection::<Color>();
    proof {
        reveal_strlit("Red");
        reveal_strlit("Blue");
        reveal_strlit("Green");
        reveal_with_fuel(text_alt_move, 4);
    }
    v1.validate()
}

} // verus!
