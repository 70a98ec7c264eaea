//! The generic state-machine contract recognizers implement.

use vstd::prelude::*;

verus! {

/// A deterministic finite automaton driven one input at a time.
///
/// `advance` is a total step: every pair of a reachable configuration and an
/// input maps to a defined next configuration, including an absorbing
/// failure state and an absorbing final state.  The whole automaton value is
/// the configuration, so `spec_step` pins `advance` down exactly.
pub trait DFA: Sized {
    /// The recognizer-defined enumeration of control states.
    type State;

    /// What the automaton consumes; in this crate always a validated ASCII
    /// character.
    type Input;

    /// When the automaton may take a step (a machine-width bound on any
    /// auxiliary counter; control states never restrict stepping).
    spec fn spec_can_advance(&self, input: Self::Input) -> bool;

    /// The configuration after consuming `input`.
    spec fn spec_step(self, input: Self::Input) -> Self;

    /// The automaton has accepted.
    spec fn spec_in_final(&self) -> bool;

    /// The automaton has rejected.
    spec fn spec_in_fail(&self) -> bool;

    /// Consumes one input.
    fn advance(&mut self, input: Self::Input)
        requires
            old(self).spec_can_advance(input),
        ensures
            *final(self) == old(self).spec_step(input),
    ;

    /// Whether the automaton has accepted.
    fn in_final_state(&self) -> (r: bool)
        ensures
            r == self.spec_in_final(),
    ;

    /// Whether the automaton has rejected.
    fn in_fail_state(&self) -> (r: bool)
        ensures
            r == self.spec_in_fail(),
    ;
}

/// How an automaton-backed recognizer can fail to produce a token.
#[derive(Clone, Copy, Debug, PartialEq, Eq, Structural)]
pub enum DFALexemeErr {
    /// The automaton rejected, or the input ran out before it accepted; the
    /// two are deliberately not distinguished.
    NoMatch,
}

} // verus!
