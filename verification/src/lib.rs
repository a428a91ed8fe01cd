//! Rules engine for a two-faction tactical wargame on a hexagonal grid.
//!
//! The crate tracks a board of hexagonal cells, computes where a unit may
//! move and what it may fire at, resolves combat with dice, and advances a
//! fixed turn-phase cycle.  Rendering, input handling and file loading are
//! left to the surrounding application; the engine works on plain values.

pub mod action;
pub mod board;
pub mod card;
pub mod combat;
pub mod dice;
pub mod faction;
pub mod feature;
pub mod hex;
pub mod offset;
pub mod player;
pub mod search;
pub mod terrain;
pub mod tile;
pub mod turn;
pub mod unit;

use vstd::prelude::*;

verus! {

} // verus!
