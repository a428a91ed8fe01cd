//! Terrain kinds and their movement, sight and protection rules.

use vstd::prelude::*;
use crate::feature::Features;
use crate::unit::UnitType;

verus! {

/// The terrain of a single board cell.
#[derive(Clone, Copy, Debug, PartialEq, Eq, Structural, Hash)]
pub enum Terrain {
    Plain,
    Forest,
    River,
    Town,
}

/// Whether terrain `t` with features `f` refuses entry: a river blocks
/// movement unless bridged; no other terrain blocks by itself.
pub open spec fn blocks_movement_spec(t: Terrain, f: Features) -> bool {
    t is River && !f.bridge
}

/// Whether terrain `t` blocks line of sight: forest and town do, plain
/// and river do not.  Features never alter sight.
pub open spec fn blocks_sight_spec(t: Terrain) -> bool {
    t is Forest || t is Town
}

/// Whether terrain `t` ends a move: a unit may stop on forest or town
/// but not continue past it.
pub open spec fn stops_movement_spec(t: Terrain) -> bool {
    t is Forest || t is Town
}

/// Dice-count protection that terrain `t` grants against an attack on a
/// defender of the given type.
pub open spec fn terrain_protection_spec(t: Terrain, against: UnitType) -> int {
    if t is Forest || t is Town {
        match against {
            UnitType::Infantry => 1,
            UnitType::Armor => 2,
            UnitType::Artillery => 0,
        }
    } else {
        0
    }
}

impl Terrain {
    /// Whether this terrain, with the cell's features, refuses entry.
    pub fn blocks_movement(&self, features: Features) -> (b: bool)
        ensures
            b == blocks_movement_spec(*self, features),
    {
        match *self {
            Terrain::Forest | Terrain::Plain | Terrain::Town => false,
            Terrain::River => !features.contains(&crate::feature::Feature::Bridge),
        }
    }

    /// Whether this terrain blocks line of sight.  The feature set is
    /// accepted for interface symmetry but has no effect on sight.
    pub fn blocks_sight(&self, _features: Features) -> (b: bool)
        ensures
            b == blocks_sight_spec(*self),
    {
        match *self {
            Terrain::Plain | Terrain::River => false,
            Terrain::Forest | Terrain::Town => true,
        }
    }

    /// Whether this terrain ends a move.
    pub fn stops_movement(&self) -> (b: bool)
        ensures
            b == stops_movement_spec(*self),
    {
        match *self {
            Terrain::Plain | Terrain::River => false,
            Terrain::Forest | Terrain::Town => true,
        }
    }

    /// Protection this terrain grants a defender of the given type.
    pub fn protection(&self, against: UnitType) -> (p: u8)
        ensures
            p == terrain_protection_spec(*self, against),
    {
        match *self {
            Terrain::Plain | Terrain::River => 0,
            Terrain::Town | Terrain::Forest => match against {
                UnitType::Infantry => 1,
                UnitType::Armor => 2,
                UnitType::Artillery => 0,
            },
        }
    }
}

impl Default for Terrain {
    /// The default terrain is open plain.
    fn default() -> (t: Terrain)
        ensures
            t is Plain,
    {
        Terrain::Plain
    }
}

} // verus!
