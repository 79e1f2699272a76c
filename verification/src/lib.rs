//! Tokenizer for spreadsheet-style number-format strings.
//!
//! A format string such as `+"xyz"!@@"abc"` is cut into an ordered sequence
//! of [`FormatItem`] tokens. Every executable function carries a contract
//! over `Seq<char>`, stated through the spec functions of [`grammar`].

pub mod grammar;
pub mod item;
pub mod laws;
pub mod leaves;
pub mod matchers;

pub use item::{FailureKind, FormatItem, ParseError, Token};
pub use matchers::{exclamation, formats, next_item, quoted, single, standard};
