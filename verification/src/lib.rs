//! A lexer for a Haskell-like surface syntax.
//!
//! The crate recognizes lexical tokens from raw character input and produces
//! a stream of typed tokens with precise source-position spans.  Its parts:
//!
//! - [`ascii`]: the guard that admits only ASCII characters;
//! - [`token`]: the token kinds and the per-line span model;
//! - [`dfa`] and [`pda`]: the state-machine interfaces recognizers implement;
//! - [`lexeme`]: the interface every recognizer offers to the driver, and
//!   the error taxonomy;
//! - [`mlcomment`]: a pushdown recognizer for balanced nested block comments;
//! - [`regex`]: the lexeme framework with anchored matching and
//!   exclusion-list filtering;
//! - [`reused`]: the character classes, the scanning helpers, and the
//!   class-tag lexemes;
//! - [`qident`], [`reserved`], [`literals`]: the concrete lexeme definitions
//!   of the grammar;
//! - [`driver`]: the loop that turns a whole buffer into a token stream.

pub mod ascii;
pub mod dfa;
pub mod driver;
pub mod lexeme;
pub mod literals;
pub mod mlcomment;
pub mod pda;
pub mod qident;
pub mod regex;
pub mod reserved;
pub mod reused;
pub mod token;
