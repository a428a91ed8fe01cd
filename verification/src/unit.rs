//! Unit types, their fixed combat statistics, and the units themselves.

use vstd::prelude::*;
use crate::dice::Dice;
use crate::faction::Faction;

verus! {

/// The closed set of unit types.
#[derive(Clone, Copy, Debug, PartialEq, Eq, Structural, Hash)]
pub enum UnitType {
    Infantry,
    Armor,
    Artillery,
}

/// Movement points of a unit type.
pub open spec fn movement_spec(t: UnitType) -> int {
    match t {
        UnitType::Armor => 3,
        UnitType::Artillery => 1,
        UnitType::Infantry => 2,
    }
}

/// How far a unit type may move and still fire the same turn.
pub open spec fn movement_threshold_spec(t: UnitType) -> int {
    match t {
        UnitType::Armor => 3,
        UnitType::Artillery => 0,
        UnitType::Infantry => 1,
    }
}

/// Weapon range of a unit type.
pub open spec fn range_spec(t: UnitType) -> int {
    match t {
        UnitType::Armor => 3,
        UnitType::Artillery => 6,
        UnitType::Infantry => 3,
    }
}

/// The per-distance-bracket dice-effectiveness table of a unit type,
/// indexed by cube distance minus one.
pub open spec fn range_effectiveness_spec(t: UnitType) -> Seq<u8> {
    match t {
        UnitType::Armor => seq![3u8, 3u8, 3u8],
        UnitType::Artillery => seq![3u8, 3u8, 2u8, 2u8, 1u8, 1u8],
        UnitType::Infantry => seq![3u8, 2u8, 1u8],
    }
}

/// Maximum health of a unit type.
pub open spec fn health_spec(t: UnitType) -> int {
    match t {
        UnitType::Armor => 3,
        UnitType::Artillery => 2,
        UnitType::Infantry => 4,
    }
}

/// Whether a dice face causes a casualty against a defender of the given
/// type: grenades always hit, armor and infantry faces hit matching
/// defenders, flags and stars never hit.
pub open spec fn takes_casualty_spec(t: UnitType, result: Dice) -> bool {
    match result {
        Dice::Grenade => true,
        Dice::Armor => t is Armor,
        Dice::Infantry => t is Infantry,
        Dice::Flag => false,
        Dice::Star => false,
    }
}

impl UnitType {
    /// Movement points of this unit type.
    pub fn movement(&self) -> (m: u8)
        ensures
            m == movement_spec(*self),
    {
        match *self {
            UnitType::Armor => 3,
            UnitType::Artillery => 1,
            UnitType::Infantry => 2,
        }
    }

    /// How far this unit type may move and still fire the same turn.
    pub fn movement_threshold(&self) -> (m: u8)
        ensures
            m == movement_threshold_spec(*self),
    {
        match *self {
            UnitType::Armor => 3,
            UnitType::Artillery => 0,
            UnitType::Infantry => 1,
        }
    }

    /// Weapon range of this unit type.
    pub fn range(&self) -> (r: u8)
        ensures
            r == range_spec(*self),
    {
        match *self {
            UnitType::Armor | UnitType::Infantry => 3,
            UnitType::Artillery => 6,
        }
    }

    /// The per-distance-bracket dice-effectiveness table, indexed by cube
    /// distance minus one.
    pub fn range_effectiveness(&self) -> (t: Vec<u8>)
        ensures
            t@ == range_effectiveness_spec(*self),
            t@.len() == range_spec(*self),
    {
        let v: Vec<u8> = match *self {
            UnitType::Armor => vec![3, 3, 3],
            UnitType::Artillery => vec![3, 3, 2, 2, 1, 1],
            UnitType::Infantry => vec![3, 2, 1],
        };
        proof {
            assert(v@ =~= range_effectiveness_spec(*self));
        }
        v
    }

    /// Maximum health of this unit type.
    pub fn health(&self) -> (h: u8)
        ensures
            h == health_spec(*self),
    {
        match *self {
            UnitType::Armor => 3,
            UnitType::Artillery => 2,
            UnitType::Infantry => 4,
        }
    }

    /// Whether a dice face causes a casualty against this unit type.
    pub fn takes_causality(&self, result: Dice) -> (b: bool)
        ensures
            b == takes_casualty_spec(*self, result),
    {
        match result {
            Dice::Armor => matches!(*self, UnitType::Armor),
            Dice::Infantry => matches!(*self, UnitType::Infantry),
            Dice::Grenade => true,
            _ => false,
        }
    }
}

/// A unit on the board.
#[derive(Clone, Copy, Debug, PartialEq, Eq, Structural)]
pub struct Unit {
    pub unit_type: UnitType,
    pub current_health: u8,
    pub faction: Faction,
    pub moved: u8,
    pub destroy: bool,
}

impl Unit {
    /// A fresh unit of the given type and faction, at full health.
    pub fn new(unit_type: UnitType, faction: Faction) -> (u: Unit)
        ensures
            u.unit_type == unit_type,
            u.faction == faction,
            u.current_health == health_spec(unit_type),
            u.moved == 0,
            !u.destroy,
    {
        Unit { unit_type, current_health: unit_type.health(), faction, moved: 0, destroy: false }
    }
}

} // verus!
