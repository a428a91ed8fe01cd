//! The board, the reachability engine, the pair mutation primitive and
//! the view reset.

use openm44::action::PairAction;
use openm44::board::{Board, CellData};
use openm44::card::{Card, CardBuilder, Deck, Section, Units};
use openm44::dice::Dice;
use openm44::faction::Faction;
use openm44::feature::{Feature, Features};
use openm44::hex::Hex;
use openm44::terrain::Terrain;
use openm44::tile::Tile;
use openm44::unit::{Unit, UnitType};

fn plain_tile() -> Tile {
    Tile::new()
}

fn tile_with(terrain: Terrain, features: Features, unit: Option<Unit>) -> Tile {
    let mut t = Tile::new();
    t.terrain = terrain;
    t.features = features;
    t.unit = unit;
    t
}

/// All cells of the generated parallelogram shape.
fn all_cells(b: &Board) -> Vec<Hex> {
    let mut cells = Vec::new();
    for r in 0..25i16 {
        for q in -25..50i16 {
            let s = -q - r;
            if (-128..=127).contains(&s) {
                let h = Hex::new(q as i8, r as i8, s as i8);
                if b.contains(h) {
                    cells.push(h);
                }
            }
        }
    }
    cells
}

#[test]
fn new_board_shape() {
    let b = Board::new(13, 9);
    assert!(b.contains(Hex::new(0, 0, 0)));
    assert!(b.contains(Hex::new(12, 0, -12)));
    assert!(!b.contains(Hex::new(13, 0, -13)));
    assert!(b.contains(Hex::new(-4, 8, -4)));
    assert!(!b.contains(Hex::new(0, 9, -9)));
    assert!(!b.contains(Hex::new(-1, 0, 1)));
    assert_eq!(all_cells(&b).len(), 13 * 9);
    let t = b.get(Hex::new(3, 2, -5)).unwrap();
    assert!(matches!(t.terrain, Terrain::Plain));
    assert!(t.unit.is_none());
    assert_eq!(b.get(Hex::new(-1, 0, 1)), None);
}

#[test]
fn from_data_applies_overrides_last_wins() {
    let h = Hex::new(2, 1, -3);
    let off_board = Hex::new(-10, 0, 10);
    let data = vec![
        CellData { hex: h, tile: tile_with(Terrain::Forest, Features::none(), None) },
        CellData { hex: off_board, tile: tile_with(Terrain::Town, Features::none(), None) },
        CellData { hex: h, tile: tile_with(Terrain::River, Features::none(), None) },
    ];
    let b = Board::from_data(8, 5, &data);
    assert!(matches!(b.get(h).unwrap().terrain, Terrain::River));
    assert!(matches!(
        b.get(Hex::new(0, 0, 0)).unwrap().terrain,
        Terrain::Plain
    ));
}

#[test]
fn move_range_zero_points_is_just_the_source() {
    let b = Board::new(9, 9);
    let src = Hex::new(4, 4, -8);
    let range = b.move_range(UnitType::Infantry, 0, src);
    assert_eq!(range, vec![src]);
}

#[test]
fn move_range_excludes_unbridged_river() {
    // A vertical river strip between the source and the far side.
    let mut data = Vec::new();
    for r in 0..5i8 {
        let q = 2 - r / 2;
        data.push(CellData {
            hex: Hex::new(q, r, -q - r),
            tile: tile_with(Terrain::River, Features::none(), None),
        });
    }
    let b = Board::from_data(5, 5, &data);
    let src = Hex::new(0, 2, -2);
    let range = b.move_range(UnitType::Armor, 3, src);
    for h in &range {
        let t = b.get(*h).unwrap();
        assert!(
            !matches!(t.terrain, Terrain::River),
            "river cell {:?} in movement range",
            h
        );
    }
    // The strip is impassable, so nothing beyond it is reachable.
    for h in &range {
        assert!(h.q() as i16 + (h.r() as i16) / 2 < 3);
    }
}

#[test]
fn move_range_crosses_bridged_river() {
    let mut bridged = Features::none();
    bridged.insert(&Feature::Bridge);
    let river = Hex::new(1, 0, -1);
    let data = vec![CellData {
        hex: river,
        tile: tile_with(Terrain::River, bridged, None),
    }];
    let b = Board::from_data(4, 1, &data);
    let range = b.move_range(UnitType::Infantry, 2, Hex::new(0, 0, 0));
    assert!(range.contains(&river));
    assert!(range.contains(&Hex::new(2, 0, -2)));
}

#[test]
fn town_is_reached_but_not_crossed() {
    // One row: plain, town, plain, plain.
    let town = Hex::new(1, 0, -1);
    let data = vec![CellData {
        hex: town,
        tile: tile_with(Terrain::Town, Features::none(), None),
    }];
    let b = Board::from_data(4, 1, &data);
    let range = b.move_range(UnitType::Infantry, 2, Hex::new(0, 0, 0));
    assert!(range.contains(&town));
    assert!(
        !range.contains(&Hex::new(2, 0, -2)),
        "cell beyond the town was reached through it"
    );
    assert!(!range.contains(&Hex::new(3, 0, -3)));
}

#[test]
fn barbed_wire_stops_infantry_not_armor() {
    let wired = Hex::new(1, 0, -1);
    let mut wire = Features::none();
    wire.insert(&Feature::BarbedWire);
    let data = vec![CellData {
        hex: wired,
        tile: tile_with(Terrain::Plain, wire, None),
    }];
    let b = Board::from_data(4, 1, &data);
    let src = Hex::new(0, 0, 0);
    let infantry = b.move_range(UnitType::Infantry, 2, src);
    assert!(infantry.contains(&wired));
    assert!(!infantry.contains(&Hex::new(2, 0, -2)));
    let armor = b.move_range(UnitType::Armor, 2, src);
    assert!(armor.contains(&Hex::new(2, 0, -2)));
}

#[test]
fn occupied_cells_block_movement() {
    let blocker = Hex::new(1, 0, -1);
    let data = vec![CellData {
        hex: blocker,
        tile: tile_with(
            Terrain::Plain,
            Features::none(),
            Some(Unit::new(UnitType::Infantry, Faction::Axis)),
        ),
    }];
    let b = Board::from_data(3, 1, &data);
    let range = b.move_range(UnitType::Infantry, 2, Hex::new(0, 0, 0));
    assert!(!range.contains(&blocker));
    assert!(!range.contains(&Hex::new(2, 0, -2)));
}

#[test]
fn fire_range_on_open_board_is_the_distance_ball() {
    let b = Board::new(15, 15);
    let src = Hex::new(4, 7, -11);
    let range = b.fire_range(6, src);
    for h in all_cells(&b) {
        let within = src.distance(h) <= 6;
        assert_eq!(
            range.contains(&h),
            within,
            "cell {:?} at distance {}",
            h,
            src.distance(h)
        );
    }
}

#[test]
fn forest_blocks_sight_propagation() {
    // One row: plain, forest, plain.  The forest is seen; what lies
    // behind it is not.
    let forest = Hex::new(1, 0, -1);
    let data = vec![CellData {
        hex: forest,
        tile: tile_with(Terrain::Forest, Features::none(), None),
    }];
    let b = Board::from_data(3, 1, &data);
    let range = b.fire_range(3, Hex::new(0, 0, 0));
    assert!(range.contains(&forest));
    assert!(!range.contains(&Hex::new(2, 0, -2)));
}

#[test]
fn fire_targets_are_the_occupied_visible_cells() {
    let enemy_near = Hex::new(2, 0, -2);
    let enemy_far = Hex::new(7, 0, -7);
    let data = vec![
        CellData {
            hex: enemy_near,
            tile: tile_with(
                Terrain::Plain,
                Features::none(),
                Some(Unit::new(UnitType::Armor, Faction::Axis)),
            ),
        },
        CellData {
            hex: enemy_far,
            tile: tile_with(
                Terrain::Plain,
                Features::none(),
                Some(Unit::new(UnitType::Infantry, Faction::Axis)),
            ),
        },
    ];
    let b = Board::from_data(8, 1, &data);
    let shooter = Unit::new(UnitType::Infantry, Faction::Allies);
    let targets = b.fire_targets(&shooter, Hex::new(0, 0, 0));
    assert_eq!(targets, vec![enemy_near]);
}

#[test]
fn assign_dice_records_a_pending_attack() {
    let target = Hex::new(1, 0, -1);
    let data = vec![CellData {
        hex: target,
        tile: tile_with(
            Terrain::Plain,
            Features::none(),
            Some(Unit::new(UnitType::Infantry, Faction::Axis)),
        ),
    }];
    let mut b = Board::from_data(3, 1, &data);
    let attacker = Unit::new(UnitType::Infantry, Faction::Allies);
    b.assign_dice(attacker, Hex::new(0, 0, 0), target);
    assert_eq!(b.get(target).unwrap().dice_label, Some(3));
}

#[test]
fn assign_dice_refuses_friendly_targets() {
    let target = Hex::new(1, 0, -1);
    let data = vec![CellData {
        hex: target,
        tile: tile_with(
            Terrain::Plain,
            Features::none(),
            Some(Unit::new(UnitType::Infantry, Faction::Allies)),
        ),
    }];
    let mut b = Board::from_data(3, 1, &data);
    let attacker = Unit::new(UnitType::Infantry, Faction::Allies);
    b.assign_dice(attacker, Hex::new(0, 0, 0), target);
    assert_eq!(b.get(target).unwrap().dice_label, None);
}

#[test]
fn apply_pair_moves_both_cells_together() {
    let src = Hex::new(0, 0, 0);
    let dest = Hex::new(2, 0, -2);
    let mover = Unit::new(UnitType::Armor, Faction::Allies);
    let mut sandbags = Features::none();
    sandbags.insert(&Feature::Sandbags);
    let data = vec![CellData {
        hex: src,
        tile: tile_with(Terrain::Plain, sandbags, Some(mover)),
    }];
    let mut b = Board::from_data(4, 2, &data);
    let before_other = b.get(Hex::new(1, 1, -2)).unwrap();
    b.apply_pair(src, dest, &PairAction::Move);
    let src_after = b.get(src).unwrap();
    let dest_after = b.get(dest).unwrap();
    assert!(src_after.unit.is_none());
    assert!(!src_after.features.contains(&Feature::Sandbags));
    assert_eq!(dest_after.unit, Some(mover));
    assert_eq!(b.get(Hex::new(1, 1, -2)).unwrap(), before_other);
}

#[test]
fn apply_pair_move_to_occupied_cell_is_a_no_op() {
    let src = Hex::new(0, 0, 0);
    let dest = Hex::new(1, 0, -1);
    let data = vec![
        CellData {
            hex: src,
            tile: tile_with(
                Terrain::Plain,
                Features::none(),
                Some(Unit::new(UnitType::Infantry, Faction::Allies)),
            ),
        },
        CellData {
            hex: dest,
            tile: tile_with(
                Terrain::Plain,
                Features::none(),
                Some(Unit::new(UnitType::Armor, Faction::Axis)),
            ),
        },
    ];
    let mut b = Board::from_data(3, 1, &data);
    let src_before = b.get(src).unwrap();
    let dest_before = b.get(dest).unwrap();
    b.apply_pair(src, dest, &PairAction::Move);
    assert_eq!(b.get(src).unwrap(), src_before);
    assert_eq!(b.get(dest).unwrap(), dest_before);
}

#[test]
fn apply_pair_attack_uses_the_assigned_dice() {
    let src = Hex::new(0, 0, 0);
    let dest = Hex::new(1, 0, -1);
    let attacker = Unit::new(UnitType::Infantry, Faction::Allies);
    let data = vec![
        CellData {
            hex: src,
            tile: tile_with(Terrain::Plain, Features::none(), Some(attacker)),
        },
        CellData {
            hex: dest,
            tile: tile_with(
                Terrain::Plain,
                Features::none(),
                Some(Unit::new(UnitType::Infantry, Faction::Axis)),
            ),
        },
    ];
    let mut b = Board::from_data(3, 1, &data);
    b.assign_dice(attacker, src, dest);
    assert_eq!(b.get(dest).unwrap().dice_label, Some(3));
    let faces = vec![Dice::Grenade, Dice::Star, Dice::Infantry];
    b.apply_pair(src, dest, &PairAction::Attack(faces));
    let defender = b.get(dest).unwrap().unit.unwrap();
    assert_eq!(defender.current_health, 2);
    assert!(!defender.destroy);
    assert_eq!(b.get(src).unwrap().unit, Some(attacker));
}

#[test]
fn apply_pair_attack_without_assignment_is_a_no_op() {
    let dest = Hex::new(1, 0, -1);
    let data = vec![CellData {
        hex: dest,
        tile: tile_with(
            Terrain::Plain,
            Features::none(),
            Some(Unit::new(UnitType::Infantry, Faction::Axis)),
        ),
    }];
    let mut b = Board::from_data(3, 1, &data);
    let before = b.get(dest).unwrap();
    b.apply_pair(
        Hex::new(0, 0, 0),
        dest,
        &PairAction::Attack(vec![Dice::Grenade]),
    );
    assert_eq!(b.get(dest).unwrap(), before);
}

#[test]
fn apply_pair_rejects_off_board_and_identical_cells() {
    let src = Hex::new(0, 0, 0);
    let data = vec![CellData {
        hex: src,
        tile: tile_with(
            Terrain::Plain,
            Features::none(),
            Some(Unit::new(UnitType::Infantry, Faction::Allies)),
        ),
    }];
    let mut b = Board::from_data(3, 1, &data);
    let before = b.get(src).unwrap();
    b.apply_pair(src, Hex::new(-5, 0, 5), &PairAction::Move);
    assert_eq!(b.get(src).unwrap(), before);
    b.apply_pair(src, src, &PairAction::Move);
    assert_eq!(b.get(src).unwrap(), before);
}

#[test]
fn reset_view_clears_annotations_and_sweeps_destroyed_units() {
    let kept = Hex::new(0, 0, 0);
    let swept = Hex::new(1, 0, -1);
    let labelled = Hex::new(2, 0, -2);
    let mut survivor = Unit::new(UnitType::Infantry, Faction::Allies);
    survivor.current_health = 1;
    let mut casualty = Unit::new(UnitType::Armor, Faction::Axis);
    casualty.current_health = 0;
    casualty.destroy = true;
    let mut sandbags = Features::none();
    sandbags.insert(&Feature::Sandbags);
    let mut labelled_tile = plain_tile();
    labelled_tile.selected = true;
    labelled_tile.distance_label = Some(2);
    labelled_tile.dice_label = Some(3);
    let data = vec![
        CellData {
            hex: kept,
            tile: tile_with(Terrain::Plain, Features::none(), Some(survivor)),
        },
        CellData {
            hex: swept,
            tile: tile_with(Terrain::Plain, sandbags, Some(casualty)),
        },
        CellData { hex: labelled, tile: labelled_tile },
    ];
    let mut b = Board::from_data(4, 1, &data);
    b.set_selected(kept, true);
    b.set_distance_label(kept, 1);
    b.reset_view();
    let kept_after = b.get(kept).unwrap();
    assert_eq!(kept_after.unit, Some(survivor));
    assert!(!kept_after.selected);
    assert_eq!(kept_after.distance_label, None);
    let swept_after = b.get(swept).unwrap();
    assert!(swept_after.unit.is_none());
    assert!(!swept_after.features.contains(&Feature::Sandbags));
    let labelled_after = b.get(labelled).unwrap();
    assert!(!labelled_after.selected);
    assert_eq!(labelled_after.distance_label, None);
    assert_eq!(labelled_after.dice_label, None);
}

#[test]
fn deck_shuffle_keeps_the_same_cards() {
    let builder = CardBuilder {
        section: Section::Left,
        units: Units::Limited(2),
        amount: 3,
    };
    let left = Card::new(&builder);
    let recon = Card::Recon(Section::Centre);
    let cards = vec![left, recon, left, Card::Recon(Section::Right)];
    let mut deck = Deck { name: String::from("demo"), cards: cards.clone() };
    deck.shuffle();
    assert_eq!(deck.cards.len(), cards.len());
    for c in &cards {
        let before = cards.iter().filter(|x| *x == c).count();
        let after = deck.cards.iter().filter(|x| *x == c).count();
        assert_eq!(before, after);
    }
    assert_eq!(deck.name, "demo");
}

#[test]
fn card_new_builds_a_normal_card() {
    let builder = CardBuilder {
        section: Section::Centre,
        units: Units::UnitType(UnitType::Armor),
        amount: 1,
    };
    assert_eq!(
        Card::new(&builder),
        Card::Normal { section: Section::Centre, units: Units::UnitType(UnitType::Armor) }
    );
}
