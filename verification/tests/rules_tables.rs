//! The fixed rule tables: terrain, features, unit statistics, dice
//! faces, combat arithmetic, turn phases and player selection.

use openm44::combat::{attack_dice, resolve_combat};
use openm44::dice::{face_of, roll_faces, Dice};
use openm44::faction::Faction;
use openm44::feature::{Feature, Features};
use openm44::hex::Hex;
use openm44::player::Player;
use openm44::terrain::Terrain;
use openm44::turn::TurnPhase;
use openm44::unit::{Unit, UnitType};

fn no_features() -> Features {
    Features::none()
}

fn with_bridge() -> Features {
    let mut f = Features::none();
    f.insert(&Feature::Bridge);
    f
}

#[test]
fn river_blocks_movement_unless_bridged() {
    assert!(Terrain::River.blocks_movement(no_features()));
    assert!(!Terrain::River.blocks_movement(with_bridge()));
    assert!(!Terrain::Plain.blocks_movement(no_features()));
    assert!(!Terrain::Forest.blocks_movement(no_features()));
    assert!(!Terrain::Town.blocks_movement(no_features()));
}

#[test]
fn forest_and_town_block_sight() {
    assert!(Terrain::Forest.blocks_sight(no_features()));
    assert!(Terrain::Town.blocks_sight(no_features()));
    assert!(!Terrain::Plain.blocks_sight(no_features()));
    assert!(!Terrain::River.blocks_sight(no_features()));
}

#[test]
fn forest_and_town_stop_movement() {
    assert!(Terrain::Forest.stops_movement());
    assert!(Terrain::Town.stops_movement());
    assert!(!Terrain::Plain.stops_movement());
    assert!(!Terrain::River.stops_movement());
}

#[test]
fn terrain_protection_table() {
    for t in [Terrain::Town, Terrain::Forest] {
        assert_eq!(t.protection(UnitType::Infantry), 1);
        assert_eq!(t.protection(UnitType::Armor), 2);
        assert_eq!(t.protection(UnitType::Artillery), 0);
    }
    for t in [Terrain::Plain, Terrain::River] {
        for u in [UnitType::Infantry, UnitType::Armor, UnitType::Artillery] {
            assert_eq!(t.protection(u), 0);
        }
    }
}

#[test]
fn feature_protection_table() {
    assert_eq!(Feature::Bridge.protection(), 0);
    assert_eq!(Feature::Sandbags.protection(), 1);
    assert_eq!(Feature::BarbedWire.protection(), 0);
    let mut f = Features::none();
    assert_eq!(f.protection(), 0);
    f.insert(&Feature::Sandbags);
    f.insert(&Feature::Bridge);
    assert_eq!(f.protection(), 1);
}

#[test]
fn features_contains_insert_remove() {
    let mut f = Features::none();
    assert!(!f.contains(&Feature::Sandbags));
    f.insert(&Feature::Sandbags);
    assert!(f.contains(&Feature::Sandbags));
    assert!(!f.contains(&Feature::Bridge));
    f.remove(&Feature::Sandbags);
    assert!(!f.contains(&Feature::Sandbags));
}

#[test]
fn barbed_wire_stops_infantry_only() {
    let mut f = Features::none();
    f.insert(&Feature::BarbedWire);
    assert!(f.stops_movement(UnitType::Infantry));
    assert!(!f.stops_movement(UnitType::Armor));
    assert!(!f.stops_movement(UnitType::Artillery));
    assert!(!Features::none().stops_movement(UnitType::Infantry));
}

#[test]
fn unit_stat_tables() {
    assert_eq!(UnitType::Infantry.movement(), 2);
    assert_eq!(UnitType::Armor.movement(), 3);
    assert_eq!(UnitType::Artillery.movement(), 1);

    assert_eq!(UnitType::Infantry.movement_threshold(), 1);
    assert_eq!(UnitType::Armor.movement_threshold(), 3);
    assert_eq!(UnitType::Artillery.movement_threshold(), 0);

    assert_eq!(UnitType::Infantry.range(), 3);
    assert_eq!(UnitType::Armor.range(), 3);
    assert_eq!(UnitType::Artillery.range(), 6);

    assert_eq!(UnitType::Infantry.range_effectiveness(), vec![3, 2, 1]);
    assert_eq!(UnitType::Armor.range_effectiveness(), vec![3, 3, 3]);
    assert_eq!(
        UnitType::Artillery.range_effectiveness(),
        vec![3, 3, 2, 2, 1, 1]
    );

    assert_eq!(UnitType::Infantry.health(), 4);
    assert_eq!(UnitType::Armor.health(), 3);
    assert_eq!(UnitType::Artillery.health(), 2);
}

#[test]
fn casualty_rules() {
    for u in [UnitType::Infantry, UnitType::Armor, UnitType::Artillery] {
        assert!(u.takes_causality(Dice::Grenade));
        assert!(!u.takes_causality(Dice::Flag));
        assert!(!u.takes_causality(Dice::Star));
    }
    assert!(UnitType::Infantry.takes_causality(Dice::Infantry));
    assert!(!UnitType::Infantry.takes_causality(Dice::Armor));
    assert!(UnitType::Armor.takes_causality(Dice::Armor));
    assert!(!UnitType::Armor.takes_causality(Dice::Infantry));
    assert!(!UnitType::Artillery.takes_causality(Dice::Armor));
    assert!(!UnitType::Artillery.takes_causality(Dice::Infantry));
}

#[test]
fn fresh_unit_has_full_health() {
    let u = Unit::new(UnitType::Infantry, Faction::Allies);
    assert_eq!(u.current_health, 4);
    assert_eq!(u.moved, 0);
    assert!(!u.destroy);
    let v = Unit::new(UnitType::Artillery, Faction::Axis);
    assert_eq!(v.current_health, 2);
}

#[test]
fn die_faces() {
    assert_eq!(face_of(0), Dice::Star);
    assert_eq!(face_of(1), Dice::Flag);
    assert_eq!(face_of(2), Dice::Grenade);
    assert_eq!(face_of(3), Dice::Armor);
    assert_eq!(face_of(4), Dice::Infantry);
    assert_eq!(face_of(5), Dice::Infantry);
}

#[test]
fn roll_faces_draws_the_requested_count() {
    let faces = roll_faces(4);
    assert_eq!(faces.len(), 4);
    let none = roll_faces(0);
    assert!(none.is_empty());
}

#[test]
fn fixed_sequence_combat_against_infantry() {
    let mut u = Unit::new(UnitType::Infantry, Faction::Axis);
    let faces = vec![Dice::Grenade, Dice::Star, Dice::Armor, Dice::Infantry];
    resolve_combat(&mut u, &faces);
    assert_eq!(u.current_health, UnitType::Infantry.health() - 2);
    assert!(!u.destroy);
}

#[test]
fn combat_marks_destruction_at_zero_health() {
    let mut u = Unit::new(UnitType::Artillery, Faction::Allies);
    let faces = vec![Dice::Grenade, Dice::Grenade, Dice::Grenade];
    resolve_combat(&mut u, &faces);
    assert_eq!(u.current_health, 0);
    assert!(u.destroy);
}

#[test]
fn attack_dice_values() {
    // Artillery at maximum range against infantry in the open: one die.
    assert_eq!(
        attack_dice(
            UnitType::Artillery,
            UnitType::Infantry,
            Terrain::Plain,
            Features::none(),
            6
        ),
        1
    );
    // The same shot against a town: terrain protection absorbs it.
    assert_eq!(
        attack_dice(
            UnitType::Artillery,
            UnitType::Infantry,
            Terrain::Town,
            Features::none(),
            6
        ),
        0
    );
    // Armor against armor in a forest at distance two.
    assert_eq!(
        attack_dice(
            UnitType::Armor,
            UnitType::Armor,
            Terrain::Forest,
            Features::none(),
            2
        ),
        1
    );
    // Sandbags reduce by one, whoever defends.
    let mut sandbags = Features::none();
    sandbags.insert(&Feature::Sandbags);
    assert_eq!(
        attack_dice(
            UnitType::Infantry,
            UnitType::Infantry,
            Terrain::Plain,
            sandbags,
            1
        ),
        2
    );
    // Beyond the table no dice are assigned.
    assert_eq!(
        attack_dice(
            UnitType::Infantry,
            UnitType::Infantry,
            Terrain::Plain,
            Features::none(),
            9
        ),
        0
    );
    // Distance zero and one share the first bracket.
    assert_eq!(
        attack_dice(
            UnitType::Infantry,
            UnitType::Infantry,
            Terrain::Plain,
            Features::none(),
            0
        ),
        3
    );
}

#[test]
fn turn_phases_cycle() {
    let mut p = TurnPhase::default();
    assert!(matches!(p, TurnPhase::Card));
    p.advance();
    assert!(matches!(p, TurnPhase::Order));
    p.advance();
    assert!(matches!(p, TurnPhase::Move));
    p.advance();
    assert!(matches!(p, TurnPhase::Battle));
    p.advance();
    assert!(matches!(p, TurnPhase::Draw));
    p.advance();
    assert!(matches!(p, TurnPhase::Card));
}

#[test]
fn player_selection() {
    let mut p = Player::default();
    assert_eq!(p.selected(), None);
    let h = Hex::new(1, 0, -1);
    assert_eq!(p.select(h), None);
    assert_eq!(p.selected(), Some(h));
    let g = Hex::new(0, 1, -1);
    assert_eq!(p.select(g), Some(h));
    assert_eq!(p.deselect(), Some(g));
    assert_eq!(p.selected(), None);
}

#[test]
fn faction_labels() {
    assert_eq!(Faction::Allies.label(), "A");
    assert_eq!(Faction::Axis.label(), "X");
}
