//! A player's transient selection state.

use vstd::prelude::*;
use crate::hex::Hex;

verus! {

/// A player: holds at most one selected cell.
#[derive(Clone, Copy, Debug, PartialEq, Eq, Structural)]
pub struct Player {
    pub selected_hex: Option<Hex>,
}

impl Player {
    /// The currently selected cell, if any.
    pub fn selected(&self) -> (h: Option<Hex>)
        ensures
            h == self.selected_hex,
    {
        self.selected_hex
    }

    /// Select a cell, returning the previous selection.
    pub fn select(&mut self, hex: Hex) -> (prev: Option<Hex>)
        ensures
            final(self).selected_hex == Some(hex),
            prev == old(self).selected_hex,
    {
        let prev = self.selected_hex;
        self.selected_hex = Some(hex);
        prev
    }

    /// Clear the selection, returning the previous selection.
    pub fn deselect(&mut self) -> (prev: Option<Hex>)
        ensures
            final(self).selected_hex is None,
            prev == old(self).selected_hex,
    {
        let prev = self.selected_hex;
        self.selected_hex = None;
        prev
    }
}

impl Default for Player {
    /// A player starts with nothing selected.
    fn default() -> (p: Player)
        ensures
            p.selected_hex is None,
    {
        Player { selected_hex: None }
    }
}

} // verus!
