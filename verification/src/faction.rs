//! The two factions of the game.

use vstd::prelude::*;

verus! {

/// One of the two sides.
#[derive(Clone, Copy, Debug, PartialEq, Eq, Structural, Hash)]
pub enum Faction {
    Allies,
    Axis,
}

impl Faction {
    /// A one-letter tag for the faction, for textual display.
    pub fn label(&self) -> (s: &'static str)
        ensures
            *self is Allies ==> s@ == "A"@,
            *self is Axis ==> s@ == "X"@,
    {
        match *self {
            Faction::Allies => "A",
            Faction::Axis => "X",
        }
    }
}

} // verus!
