//! Pushdown extension of the automaton contract.

use vstd::prelude::*;
use crate::dfa;

verus! {

/// A pushdown automaton: a [`dfa::DFA`] extended with auxiliary storage for
/// nested constructs.  The only construct needing one in this grammar is the
/// nested block comment, whose storage is a plain depth counter.
pub trait PDA: dfa::DFA {
    /// The auxiliary storage alongside the control state.
    type Stack;
}

} // verus!
