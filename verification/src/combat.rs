//! Combat resolution: dice assignment against a defended cell, and the
//! application of a drawn dice sequence to a defending unit.

use vstd::prelude::*;
use crate::dice::Dice;
use crate::feature::{Features, features_protection_spec};
use crate::terrain::{Terrain, terrain_protection_spec};
use crate::unit::{Unit, UnitType, range_effectiveness_spec, takes_casualty_spec};

verus! {

/// The number of casualty-causing faces in the sequence, against a
/// defender of type `t`.
pub open spec fn casualties_spec(t: UnitType, faces: Seq<Dice>) -> int
    decreases faces.len(),
{
    if faces.len() == 0 {
        0
    } else {
        casualties_spec(t, faces.drop_last()) + if takes_casualty_spec(t, faces.last()) {
            1int
        } else {
            0int
        }
    }
}

/// Casualty counts are between zero and the number of faces.
pub proof fn lemma_casualties_bounds(t: UnitType, faces: Seq<Dice>)
    ensures
        0 <= casualties_spec(t, faces) <= faces.len(),
    decreases faces.len(),
{
    if faces.len() > 0 {
        lemma_casualties_bounds(t, faces.drop_last());
    }
}

/// The unit after taking the drawn faces: health drops by one per
/// casualty, floored at zero, and the unit is marked for destruction
/// when its health reaches zero.
pub open spec fn resolved_unit_spec(u: Unit, faces: Seq<Dice>) -> Unit {
    let c = casualties_spec(u.unit_type, faces);
    let health = if c >= u.current_health {
        0int
    } else {
        u.current_health - c
    };
    Unit {
        current_health: health as u8,
        destroy: u.destroy || (u.current_health > 0 && c >= u.current_health),
        ..u
    }
}

/// Apply a drawn dice sequence to the defending unit: each
/// casualty-causing face lowers its health by one, never below zero,
/// and reaching zero marks the unit for deferred destruction.
pub fn resolve_combat(unit: &mut Unit, faces: &Vec<Dice>)
    ensures
        *final(unit) == resolved_unit_spec(*old(unit), faces@),
{
    let mut i: usize = 0;
    proof {
        assert(faces@.take(0) =~= Seq::<Dice>::empty());
    }
    while i < faces.len()
        invariant
            i <= faces@.len(),
            *unit == resolved_unit_spec(*old(unit), faces@.take(i as int)),
        decreases faces@.len() - i,
    {
        let f = faces[i];
        proof {
            lemma_casualties_bounds(old(unit).unit_type, faces@.take(i as int));
            assert(faces@.take(i + 1).drop_last() =~= faces@.take(i as int));
            assert(faces@.take(i + 1).last() == faces@[i as int]);
        }
        if unit.unit_type.takes_causality(f) {
            if unit.current_health > 0 {
                unit.current_health = unit.current_health - 1;
                if unit.current_health == 0 {
                    unit.destroy = true;
                }
            }
        }
        i = i + 1;
    }
    proof {
        assert(faces@.take(faces@.len() as int) =~= faces@);
    }
}

/// The dice count an attack is worth: the attacker's effectiveness at
/// the given cube distance (the table indexed by distance minus one,
/// floored at the first bracket; zero beyond the table), reduced by the
/// larger applicable protection — the smaller of the two reduced values,
/// each floored at zero.
pub open spec fn attack_dice_spec(
    attacker: UnitType,
    defender: UnitType,
    terrain: Terrain,
    features: Features,
    distance: int,
) -> int {
    let table = range_effectiveness_spec(attacker);
    let idx = if distance <= 1 {
        0int
    } else {
        distance - 1
    };
    if idx >= table.len() {
        0
    } else {
        let max = table[idx] as int;
        let a = max - terrain_protection_spec(terrain, defender);
        let b = max - features_protection_spec(features);
        let a0 = if a < 0 {
            0int
        } else {
            a
        };
        let b0 = if b < 0 {
            0int
        } else {
            b
        };
        if a0 <= b0 {
            a0
        } else {
            b0
        }
    }
}

/// The dice count is never more than the table's largest entry.
pub proof fn lemma_attack_dice_bounds(
    attacker: UnitType,
    defender: UnitType,
    terrain: Terrain,
    features: Features,
    distance: int,
)
    ensures
        0 <= attack_dice_spec(attacker, defender, terrain, features, distance) <= 3,
{
}

/// The dice count an attacker of the given type may roll against a
/// defender of the given type on a cell with the given terrain and
/// features, at the given cube distance.
pub fn attack_dice(
    attacker: UnitType,
    defender: UnitType,
    terrain: Terrain,
    features: Features,
    distance: usize,
) -> (n: u8)
    ensures
        n == attack_dice_spec(attacker, defender, terrain, features, distance as int),
{
    let table = attacker.range_effectiveness();
    let idx: usize = if distance <= 1 {
        0
    } else {
        distance - 1
    };
    if idx >= table.len() {
        return 0;
    }
    let max = table[idx];
    let tp = terrain.protection(defender);
    let fp = features.protection();
    let a: u8 = if max > tp {
        max - tp
    } else {
        0
    };
    let b: u8 = if max > fp {
        max - fp
    } else {
        0
    };
    if a <= b {
        a
    } else {
        b
    }
}

} // verus!
