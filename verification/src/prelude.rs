//! What a parser that is built from the matching steps needs in scope.

pub use crate::chain::{ChainState, SelectState};
pub use crate::convert::FromText;
pub use crate::count::CountRange;
pub use crate::cursor::Cursor;
pub use crate::error::{ParsingError, Recoverable};
pub use crate::selection::Selection;
pub use crate::text_parser::{Bind, Matchable, Selectable};

pub mod lazy;
