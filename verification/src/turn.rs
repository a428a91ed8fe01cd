//! The five-phase turn cycle.

use vstd::prelude::*;

verus! {

/// One phase of a turn.  The phases form a single fixed cycle with no
/// branches and no terminal state.
#[derive(Clone, Copy, Debug, PartialEq, Eq, Structural, Hash)]
pub enum TurnPhase {
    Card,
    Order,
    Move,
    Battle,
    Draw,
}

/// The phase that follows `p` in the cycle.
pub open spec fn next_phase_spec(p: TurnPhase) -> TurnPhase {
    match p {
        TurnPhase::Card => TurnPhase::Order,
        TurnPhase::Order => TurnPhase::Move,
        TurnPhase::Move => TurnPhase::Battle,
        TurnPhase::Battle => TurnPhase::Draw,
        TurnPhase::Draw => TurnPhase::Card,
    }
}

impl TurnPhase {
    /// Advance to the next phase of the cycle.
    pub fn advance(&mut self)
        ensures
            *final(self) == next_phase_spec(*old(self)),
    {
        *self = match *self {
            TurnPhase::Card => TurnPhase::Order,
            TurnPhase::Order => TurnPhase::Move,
            TurnPhase::Move => TurnPhase::Battle,
            TurnPhase::Battle => TurnPhase::Draw,
            TurnPhase::Draw => TurnPhase::Card,
        };
    }
}

impl Default for TurnPhase {
    /// A turn starts at the card phase.
    fn default() -> (p: TurnPhase)
        ensures
            p is Card,
    {
        TurnPhase::Card
    }
}

/// Advancing five times returns to the starting phase: the cycle is
/// total and has period five.
pub proof fn lemma_phase_cycle(p: TurnPhase)
    ensures
        next_phase_spec(next_phase_spec(next_phase_spec(next_phase_spec(next_phase_spec(p))))) == p,
{
}

} // verus!
