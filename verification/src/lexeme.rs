//! The interface every recognizer offers to the driver, and the error
//! taxonomy its failures fall into.

use vstd::prelude::*;
use crate::dfa;
use crate::regex;
use crate::reused;
use crate::token::{Token, TokenType};

verus! {

/// Why a recognizer produced no token.
///
/// Pattern- and automaton-level failures are local to one recognition
/// attempt: the driver simply tries the next recognizer.  Only a non-ASCII
/// character is fatal to the whole pass.
#[derive(Clone, Copy, Debug, PartialEq, Eq, Structural)]
pub enum Error {
    /// A pattern-backed recognizer failed; the payload says how.
    Regex(regex::Error),
    /// An automaton-backed recognizer failed; the payload says how.
    Automata(dfa::DFALexemeErr),
    /// The matched text is one of the lexeme's excluded words, so this
    /// recognizer does not apply and a later one may claim the text.
    FoundConflictingLexeme,
    /// No recognizer-independent match; kept for callers that do not care
    /// which backend failed.
    NotRecognized,
    /// A match exists but not at the probe point; kept for callers that do
    /// not care which backend failed.
    FoundDistant,
    /// A character outside the ASCII range was met.  This is a fatal input
    /// error for the whole lexing pass, not a recoverable failure.
    NonAsciiFound,
}

/// The abstract outcome of a recognition attempt: a token kind with its
/// span entries, or the error.
pub type SpecOutcome = Result<(TokenType, Seq<u16>), Error>;

/// The executable result `r` realizes the abstract outcome `m`.
pub open spec fn outcome_matches(r: Result<Token, Error>, m: SpecOutcome) -> bool {
    match (r, m) {
        (Ok(t), Ok((tt, sp))) => t.token_type == tt && t.span@ == sp,
        (Err(e), Err(f)) => e == f,
        _ => false,
    }
}

/// What all recognizers implement.
///
/// `spec_recognize` is the recognizer's exact mathematical model, and
/// `recognize` is its executable form, probing the very start of `input`.
pub trait Lexeme {
    /// The exact outcome of probing `s` at its start.
    spec fn spec_recognize(s: Seq<char>) -> SpecOutcome;

    /// Probes the start of `input` and returns the token found there or the
    /// reason none was.
    fn recognize(input: &str) -> (r: Result<Token, Error>)
        requires
            reused::lines_fit(input@),
        ensures
            outcome_matches(r, Self::spec_recognize(input@)),
    ;
}

} // verus!
