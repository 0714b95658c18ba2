//! A text-scanning engine: small matching steps that walk a borrowed view of
//! an input string, one after the other in a chain.
//!
//! A chain carries a [`cursor::Cursor`]: the text that remains, the part of
//! the input that is selected, and, once a step has not matched, the error
//! that halted the chain. Every step takes the chain and gives the next one.
//! A step on a chain that has halted does nothing, so a chain is written
//! without a test after each step, and asked once at its end, by
//! `validate`, for what it has gathered or why it stopped.
//!
//! The steps are in [`text_parser`], the state that they hand on in
//! [`chain`], and what holds of them, whatever the input, in [`laws`].

pub mod chain;
pub mod classes;
pub mod clipboard;
pub mod combo;
pub mod contrib;
pub mod convert;
pub mod cookbook;
pub mod count;
pub mod cursor;
pub mod error;
pub mod laws;
pub mod moves;
pub mod parser;
pub mod prelude;
pub mod selection;
pub mod text;
pub mod text_parser;
pub mod tuples;
pub mod util;
