//! What a parser that is put together before it is run needs in scope.

pub use crate::combo::{Chaining, Par, Parser, SP, StrParser};
