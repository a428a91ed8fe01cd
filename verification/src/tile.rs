//! A single board cell: terrain, features, an optional occupant, and the
//! transient annotations written for the display layer.

use vstd::prelude::*;
use crate::feature::Features;
use crate::terrain::Terrain;
use crate::unit::Unit;

verus! {

/// One cell of the board.
///
/// `selected`, `distance_label` and `dice_label` are pure output state
/// for an external renderer: the reachability engine writes them and
/// `reset_view` clears them; they carry no rules logic.
#[derive(Clone, Copy, Debug, PartialEq, Eq, Structural)]
pub struct Tile {
    pub terrain: Terrain,
    pub features: Features,
    pub unit: Option<Unit>,
    pub selected: bool,
    pub distance_label: Option<u8>,
    pub dice_label: Option<u8>,
}

/// The empty plain tile: no features, no occupant, no annotations.
pub open spec fn empty_tile_spec() -> Tile {
    Tile {
        terrain: Terrain::Plain,
        features: Features { bridge: false, sandbags: false, barbed_wire: false },
        unit: None,
        selected: false,
        distance_label: None,
        dice_label: None,
    }
}

impl Tile {
    /// An empty plain tile.
    pub fn new() -> (t: Tile)
        ensures
            t == empty_tile_spec(),
    {
        Tile {
            terrain: Terrain::Plain,
            features: Features::none(),
            unit: None,
            selected: false,
            distance_label: None,
            dice_label: None,
        }
    }
}

impl Default for Tile {
    /// An empty plain tile.
    fn default() -> (t: Tile)
        ensures
            t == empty_tile_spec(),
    {
        Tile::new()
    }
}

} // verus!
