//! Matchers for particular kinds of text, built from the matching steps.

pub mod parsers;
