//! The board: a dense hexagonal play area mapping cube coordinates to
//! tiles, generated once as an offset-row parallelogram.

use vstd::prelude::*;
use crate::hex::Hex;
use crate::tile::{Tile, empty_tile_spec};

verus! {

/// The board: `height` rows of `width` tiles.  Row `r` covers the cube
/// coordinates with second component `r` and first component from
/// `-(r / 2)` (inclusive) to `width - r / 2` (exclusive); cells outside
/// this shape do not exist.
#[derive(Clone, Debug)]
pub struct Board {
    pub width: i8,
    pub height: i8,
    pub cells: Vec<Tile>,
}

/// One cell setup instruction for building a board from parsed data.
#[derive(Clone, Copy, Debug)]
pub struct CellData {
    pub hex: Hex,
    pub tile: Tile,
}

/// Whether the coordinate lies on the parallelogram shape of a board of
/// the given dimensions.
pub open spec fn present_in(width: int, height: int, h: Hex) -> bool {
    &&& h.wf()
    &&& 0 <= h.r < height
    &&& -((h.r as int) / 2) <= h.q < width - ((h.r as int) / 2)
}

impl Board {
    /// Structural invariant: moderate dimensions and one stored tile per
    /// cell of the generated shape.
    pub open spec fn wf(self) -> bool {
        &&& 1 <= self.width <= 25
        &&& 1 <= self.height <= 25
        &&& self.cells@.len() == self.width * self.height
    }

    /// Whether the coordinate lies on the generated board shape.
    pub open spec fn present(self, h: Hex) -> bool {
        present_in(self.width as int, self.height as int, h)
    }

    /// The flat storage index of a present coordinate.
    pub open spec fn index_spec(self, h: Hex) -> int {
        h.r * self.width + h.q + (h.r as int) / 2
    }

    /// The tile stored at a present coordinate.
    pub open spec fn at(self, h: Hex) -> Tile {
        self.cells@[self.index_spec(h)]
    }

    /// Two boards have the same shape and the same tile at every cell.
    pub open spec fn same_board(self, other: Board) -> bool {
        &&& other.width == self.width
        &&& other.height == self.height
        &&& forall|h: Hex| self.present(h) ==> other.at(h) == self.at(h)
    }
}

/// A present coordinate's storage index lies within the grid.
pub proof fn lemma_index_in_range(b: Board, h: Hex)
    requires
        b.wf(),
        b.present(h),
    ensures
        0 <= b.index_spec(h) < b.cells@.len(),
{
    let row = h.r as int;
    let col = h.q + row / 2;
    assert(0 <= col < b.width);
    assert(0 <= row * b.width + col < b.width * b.height) by (nonlinear_arith)
        requires
            0 <= row < b.height,
            0 <= col < b.width,
    ;
}

/// Distinct present coordinates have distinct storage indices.
pub proof fn lemma_index_injective(b: Board, h: Hex, g: Hex)
    requires
        b.wf(),
        b.present(h),
        b.present(g),
        h != g,
    ensures
        b.index_spec(h) != b.index_spec(g),
{
    let rowh = h.r as int;
    let colh = h.q + rowh / 2;
    let rowg = g.r as int;
    let colg = g.q + rowg / 2;
    if rowh == rowg {
        assert(colh != colg);
    } else {
        assert(rowh * b.width + colh != rowg * b.width + colg) by (nonlinear_arith)
            requires
                0 <= colh < b.width,
                0 <= colg < b.width,
                rowh != rowg,
        ;
    }
}

/// Every present coordinate's components are small on a well-formed
/// board.
pub proof fn lemma_present_bounds(b: Board, h: Hex)
    requires
        b.wf(),
        b.present(h),
    ensures
        -12 <= h.q <= 25,
        0 <= h.r <= 24,
        -49 <= h.s <= 12,
{
}

impl Board {
    /// Whether the coordinate lies on the board.
    pub fn contains(&self, h: Hex) -> (b: bool)
        requires
            self.wf(),
        ensures
            b == self.present(h),
    {
        let sum: i16 = h.q as i16 + h.r as i16 + h.s as i16;
        if sum != 0 {
            return false;
        }
        if h.r < 0 || h.r >= self.height {
            return false;
        }
        let half: i16 = ((h.r as u8 as u16) / 2) as i16;
        let q: i16 = h.q as i16;
        -half <= q && q < (self.width as i16) - half
    }

    /// The flat storage index of a present coordinate.
    fn index_of(&self, h: Hex) -> (i: usize)
        requires
            self.wf(),
            self.present(h),
        ensures
            i == self.index_spec(h),
            i < self.cells@.len(),
    {
        proof {
            lemma_index_in_range(*self, h);
        }
        let half: i16 = ((h.r as u8 as u16) / 2) as i16;
        let row: i16 = h.r as i16;
        let col: i16 = h.q as i16 + half;
        proof {
            assert(0 <= row * self.width <= 600) by (nonlinear_arith)
                requires
                    0 <= row <= 24,
                    1 <= self.width <= 25,
            ;
        }
        (row as usize) * (self.width as usize) + (col as usize)
    }

    /// The tile at a coordinate, or nothing for a coordinate off the
    /// board.
    pub fn get(&self, h: Hex) -> (t: Option<Tile>)
        requires
            self.wf(),
        ensures
            self.present(h) ==> t == Some(self.at(h)),
            !self.present(h) ==> t is None,
    {
        if self.contains(h) {
            let i = self.index_of(h);
            Some(self.cells[i])
        } else {
            None
        }
    }

    /// Replace the tile at a present coordinate; every other cell is
    /// unchanged.
    pub fn set_tile(&mut self, h: Hex, t: Tile)
        requires
            old(self).wf(),
            old(self).present(h),
        ensures
            final(self).wf(),
            final(self).width == old(self).width,
            final(self).height == old(self).height,
            final(self).at(h) == t,
            forall|g: Hex|
                old(self).present(g) && g != h ==> final(self).at(g) == old(self).at(g),
    {
        proof {
            lemma_index_in_range(*self, h);
        }
        let i = self.index_of(h);
        self.cells.set(i, t);
        proof {
            assert forall|g: Hex| old(self).present(g) && g != h implies self.at(g) == old(
                self,
            ).at(g) by {
                lemma_index_injective(*old(self), g, h);
                lemma_index_in_range(*old(self), g);
            }
        }
    }

    /// Generate an empty board of the given dimensions: every cell of
    /// the parallelogram shape holds an empty plain tile.
    pub fn new(width: i8, height: i8) -> (b: Board)
        requires
            1 <= width <= 25,
            1 <= height <= 25,
        ensures
            b.wf(),
            b.width == width,
            b.height == height,
            forall|h: Hex| b.present(h) ==> b.at(h) == empty_tile_spec(),
    {
        proof {
            assert(1 <= width * height <= 625) by (nonlinear_arith)
                requires
                    1 <= width <= 25,
                    1 <= height <= 25,
            ;
        }
        let total: usize = (width as usize) * (height as usize);
        let mut cells: Vec<Tile> = Vec::new();
        let mut i: usize = 0;
        while i < total
            invariant
                i <= total,
                cells@.len() == i,
                forall|j: int| 0 <= j < i ==> cells@[j] == empty_tile_spec(),
            decreases total - i,
        {
            cells.push(Tile::new());
            i = i + 1;
        }
        let b = Board { width, height, cells };
        proof {
            assert(b.wf());
            assert forall|h: Hex| b.present(h) implies b.at(h) == empty_tile_spec() by {
                lemma_index_in_range(b, h);
            }
        }
        b
    }

    /// Build a board from parsed per-cell setup data: start from the
    /// empty board and apply each instruction in order, the last
    /// instruction for a cell winning; instructions naming cells off the
    /// board are ignored.
    pub fn from_data(width: i8, height: i8, data: &Vec<CellData>) -> (b: Board)
        requires
            1 <= width <= 25,
            1 <= height <= 25,
        ensures
            b.wf(),
            b.width == width,
            b.height == height,
            forall|h: Hex|
                b.present(h) ==> b.at(h) == board_setup_spec(
                    width as int,
                    height as int,
                    data@,
                    h,
                ),
    {
        let mut b = Board::new(width, height);
        let mut i: usize = 0;
        while i < data.len()
            invariant
                b.wf(),
                b.width == width,
                b.height == height,
                i <= data@.len(),
                forall|h: Hex|
                    b.present(h) ==> b.at(h) == board_setup_spec(
                        width as int,
                        height as int,
                        data@.take(i as int),
                        h,
                    ),
            decreases data@.len() - i,
        {
            let cd = data[i];
            proof {
                assert(data@.take(i + 1).drop_last() =~= data@.take(i as int));
                assert(data@.take(i + 1).last() == data@[i as int]);
            }
            if b.contains(cd.hex) {
                b.set_tile(cd.hex, cd.tile);
            }
            i = i + 1;
        }
        proof {
            assert(data@.take(data@.len() as int) =~= data@);
        }
        b
    }
}

/// The tile that cell `h` holds after applying the setup instructions in
/// order to an empty board: the last instruction naming `h`, or the
/// empty tile if none does.
pub open spec fn board_setup_spec(width: int, height: int, data: Seq<CellData>, h: Hex) -> Tile
    decreases data.len(),
{
    if data.len() == 0 {
        empty_tile_spec()
    } else if present_in(width, height, data.last().hex) && data.last().hex == h {
        data.last().tile
    } else {
        board_setup_spec(width, height, data.drop_last(), h)
    }
}

} // verus!
