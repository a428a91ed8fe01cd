//! Offset coordinates: the column/row addressing used when laying out
//! the board, convertible to and from cube coordinates.

use vstd::prelude::*;
use crate::hex::Hex;

verus! {

/// A column/row coordinate pair.
#[derive(Clone, Copy, Debug, PartialEq, Eq, Structural)]
pub struct OffsetCoord {
    pub col: i8,
    pub row: i8,
}

impl OffsetCoord {
    /// Convert a cube coordinate to its offset column and row.
    pub fn from_hex(hex: Hex) -> (o: OffsetCoord)
        requires
            hex.wf(),
            -127 <= hex.s,
        ensures
            o.col == hex.q + hex.r,
            o.row == hex.r,
    {
        OffsetCoord { col: -hex.s, row: hex.r }
    }

    /// Convert the offset coordinate back to a cube coordinate.
    pub fn to_hex(self) -> (h: Hex)
        requires
            -128 <= self.col - self.row <= 127,
            -127 <= self.col,
        ensures
            h.q == self.col - self.row,
            h.r == self.row,
            h.wf(),
    {
        let q: i8 = ((self.col as i16) - (self.row as i16)) as i8;
        Hex { q, r: self.row, s: -self.col }
    }
}

/// Converting a cube coordinate to offset form and back gives the same
/// coordinate.
pub proof fn lemma_offset_round_trip(hex: Hex, o: OffsetCoord)
    requires
        hex.wf(),
        o.col == hex.q + hex.r,
        o.row == hex.r,
    ensures
        o.col - o.row == hex.q,
{
}

} // verus!
