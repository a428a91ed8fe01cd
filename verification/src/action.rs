//! The board's mutating entry points: the atomic two-cell move/attack
//! primitive, dice-label assignment, the renderer annotations, and the
//! view reset with its deferred unit removal.

use vstd::prelude::*;
use crate::board::Board;
use crate::board::lemma_index_in_range;
use crate::combat::{attack_dice, attack_dice_spec, lemma_attack_dice_bounds, resolve_combat,
    resolved_unit_spec};
use crate::dice::Dice;
use crate::feature::Features;
use crate::hex::{Hex, dist_spec};
use crate::tile::Tile;
use crate::unit::Unit;

verus! {

/// The transform applied to a pair of cells: relocate the unit from the
/// source to the destination, or attack the destination's occupant with
/// an already drawn dice sequence.
#[derive(Debug)]
pub enum PairAction {
    Move,
    Attack(Vec<Dice>),
}

/// Whether a move between the two tiles is allowed: the source is
/// occupied and the destination is free.
pub open spec fn move_allowed_spec(st: Tile, dt: Tile) -> bool {
    st.unit is Some && dt.unit is None
}

/// The source tile after its unit leaves: the occupant is gone and any
/// sandbags, a fortification tied to the occupant, go with it.
pub open spec fn moved_src_tile_spec(st: Tile) -> Tile {
    Tile { unit: None, features: Features { sandbags: false, ..st.features }, ..st }
}

/// The destination tile after the move: it takes the source's unit.
pub open spec fn moved_dest_tile_spec(st: Tile, dt: Tile) -> Tile {
    Tile { unit: st.unit, ..dt }
}

/// Whether an attack on the tile with the drawn faces is allowed: the
/// tile is occupied, an assigned dice count is recorded on it, and
/// exactly that many faces were drawn.
pub open spec fn attack_allowed_spec(dt: Tile, faces: Seq<Dice>) -> bool {
    &&& dt.unit is Some
    &&& dt.dice_label is Some
    &&& faces.len() == dt.dice_label.unwrap()
}

/// The attacked tile after combat: its occupant has taken the drawn
/// faces.
pub open spec fn attacked_dest_tile_spec(dt: Tile, faces: Seq<Dice>) -> Tile {
    Tile { unit: Some(resolved_unit_spec(dt.unit.unwrap(), faces)), ..dt }
}

/// The full meaning of one `apply_pair` call: a stale or invalid request
/// leaves the board unchanged; an allowed move updates both cells of the
/// pair together; an allowed attack updates the destination; every other
/// cell keeps its tile.
pub open spec fn pair_step_spec(
    pre: Board,
    post: Board,
    src: Hex,
    dest: Hex,
    action: PairAction,
) -> bool {
    if !pre.present(src) || !pre.present(dest) || src == dest {
        pre.same_board(post)
    } else {
        match action {
            PairAction::Move => {
                if move_allowed_spec(pre.at(src), pre.at(dest)) {
                    &&& post.at(src) == moved_src_tile_spec(pre.at(src))
                    &&& post.at(dest) == moved_dest_tile_spec(pre.at(src), pre.at(dest))
                    &&& forall|h: Hex|
                        pre.present(h) && h != src && h != dest ==> post.at(h) == pre.at(h)
                } else {
                    pre.same_board(post)
                }
            },
            PairAction::Attack(faces) => {
                if attack_allowed_spec(pre.at(dest), faces@) {
                    &&& post.at(dest) == attacked_dest_tile_spec(pre.at(dest), faces@)
                    &&& forall|h: Hex| pre.present(h) && h != dest ==> post.at(h) == pre.at(h)
                } else {
                    pre.same_board(post)
                }
            },
        }
    }
}

impl Board {
    /// The sole state-mutating entry point for move and attack actions:
    /// extract the two named cells, apply the transform, and commit both
    /// results in one step.  A request naming an absent cell, the same
    /// cell twice, or a transform whose conditions fail is a silent
    /// no-op: the board is observably unchanged.
    ///
    /// The postcondition is the atomicity guarantee: the board ends in
    /// exactly the pre-state or the fully committed post-state, never
    /// with only one cell of the pair updated.
    pub fn apply_pair(&mut self, src: Hex, dest: Hex, action: &PairAction)
        requires
            old(self).wf(),
        ensures
            final(self).wf(),
            final(self).width == old(self).width,
            final(self).height == old(self).height,
            pair_step_spec(*old(self), *final(self), src, dest, *action),
    {
        if !self.contains(src) || !self.contains(dest) {
            return ;
        }
        if src == dest {
            return ;
        }
        match action {
            PairAction::Move => {
                let st = self.get(src).unwrap();
                let dt = self.get(dest).unwrap();
                if st.unit.is_some() && dt.unit.is_none() {
                    let mut new_st = st;
                    new_st.unit = None;
                    new_st.features.sandbags = false;
                    let mut new_dt = dt;
                    new_dt.unit = st.unit;
                    self.set_tile(src, new_st);
                    self.set_tile(dest, new_dt);
                }
            },
            PairAction::Attack(faces) => {
                let dt = self.get(dest).unwrap();
                if let Some(defender) = dt.unit {
                    if let Some(n) = dt.dice_label {
                        if faces.len() == n as usize {
                            let mut u = defender;
                            resolve_combat(&mut u, faces);
                            let mut new_dt = dt;
                            new_dt.unit = Some(u);
                            self.set_tile(dest, new_dt);
                        }
                    }
                }
            },
        }
    }

    /// Record the dice count of a pending attack on the target cell: if
    /// the target is occupied by an opposing unit and the attack is
    /// worth at least one die at this distance, the count is written to
    /// the target's dice label; otherwise no attack is possible and the
    /// board is unchanged.
    pub fn assign_dice(&mut self, attacker: Unit, attacker_pos: Hex, target: Hex)
        requires
            old(self).wf(),
            old(self).present(target),
        ensures
            final(self).wf(),
            final(self).width == old(self).width,
            final(self).height == old(self).height,
            ({
                let dt = old(self).at(target);
                let n = attack_dice_spec(
                    attacker.unit_type,
                    dt.unit.unwrap().unit_type,
                    dt.terrain,
                    dt.features,
                    dist_spec(attacker_pos, target),
                );
                if dt.unit matches Some(defender) && defender.faction != attacker.faction && n > 0 {
                    &&& final(self).at(target) == (Tile { dice_label: Some(n as u8), ..dt })
                    &&& forall|h: Hex|
                        old(self).present(h) && h != target ==> final(self).at(h) == old(self).at(h)
                } else {
                    old(self).same_board(*final(self))
                }
            }),
    {
        let dt = self.get(target).unwrap();
        if let Some(defender) = dt.unit {
            if defender.faction != attacker.faction {
                let d = attacker_pos.distance(target);
                let n = attack_dice(
                    attacker.unit_type,
                    defender.unit_type,
                    dt.terrain,
                    dt.features,
                    d,
                );
                proof {
                    lemma_attack_dice_bounds(
                        attacker.unit_type,
                        defender.unit_type,
                        dt.terrain,
                        dt.features,
                        d as int,
                    );
                }
                if n > 0 {
                    let mut new_dt = dt;
                    new_dt.dice_label = Some(n);
                    self.set_tile(target, new_dt);
                }
            }
        }
    }

    /// Mark or clear the selection flag of a present cell.
    pub fn set_selected(&mut self, h: Hex, selected: bool)
        requires
            old(self).wf(),
            old(self).present(h),
        ensures
            final(self).wf(),
            final(self).width == old(self).width,
            final(self).height == old(self).height,
            final(self).at(h) == (Tile { selected, ..old(self).at(h) }),
            forall|g: Hex| old(self).present(g) && g != h ==> final(self).at(g) == old(self).at(g),
    {
        let t = self.get(h).unwrap();
        let mut new_t = t;
        new_t.selected = selected;
        self.set_tile(h, new_t);
    }

    /// Write the movement-distance label of a present cell for the
    /// external renderer.
    pub fn set_distance_label(&mut self, h: Hex, distance: u8)
        requires
            old(self).wf(),
            old(self).present(h),
        ensures
            final(self).wf(),
            final(self).width == old(self).width,
            final(self).height == old(self).height,
            final(self).at(h) == (Tile { distance_label: Some(distance), ..old(self).at(h) }),
            forall|g: Hex| old(self).present(g) && g != h ==> final(self).at(g) == old(self).at(g),
    {
        let t = self.get(h).unwrap();
        let mut new_t = t;
        new_t.distance_label = Some(distance);
        self.set_tile(h, new_t);
    }
}

/// A tile after a view reset: the selection flag and both labels are
/// cleared, and a unit marked for destruction is removed together with
/// any sandbags on its cell.
pub open spec fn reset_tile_spec(t: Tile) -> Tile {
    let cleared = Tile { selected: false, distance_label: None, dice_label: None, ..t };
    if t.unit matches Some(u) && u.destroy {
        Tile { unit: None, features: Features { sandbags: false, ..t.features }, ..cleared }
    } else {
        cleared
    }
}

/// A tile after a view reset.
fn reset_tile(t: Tile) -> (r: Tile)
    ensures
        r == reset_tile_spec(t),
{
    let mut r = t;
    r.selected = false;
    r.distance_label = None;
    r.dice_label = None;
    if let Some(u) = t.unit {
        if u.destroy {
            r.unit = None;
            r.features.sandbags = false;
        }
    }
    r
}

impl Board {
    /// Clear every transient annotation on the board and perform the
    /// deferred removal of units whose destroy flag is set, stripping
    /// any sandbags from their former cells.
    pub fn reset_view(&mut self)
        requires
            old(self).wf(),
        ensures
            final(self).wf(),
            final(self).width == old(self).width,
            final(self).height == old(self).height,
            forall|h: Hex|
                old(self).present(h) ==> final(self).at(h) == reset_tile_spec(old(self).at(h)),
    {
        let n = self.cells.len();
        let mut i: usize = 0;
        while i < n
            invariant
                n == self.cells@.len(),
                self.cells@.len() == old(self).cells@.len(),
                self.width == old(self).width,
                self.height == old(self).height,
                i <= n,
                forall|j: int| 0 <= j < i ==> self.cells@[j] == reset_tile_spec(old(self).cells@[j]),
                forall|j: int| i <= j < n ==> self.cells@[j] == old(self).cells@[j],
            decreases n - i,
        {
            let t = self.cells[i];
            self.cells.set(i, reset_tile(t));
            i = i + 1;
        }
        proof {
            assert forall|h: Hex| old(self).present(h) implies self.at(h) == reset_tile_spec(
                old(self).at(h),
            ) by {
                lemma_index_in_range(*old(self), h);
            }
        }
    }
}


/// The atomicity of `apply_pair`, read off its postcondition: cells
/// outside the pair never change, and the board as a whole is either
/// the untouched pre-state or the fully committed post-state of the
/// transform — never a hybrid with only one cell of a move updated.
pub proof fn lemma_apply_pair_atomic(
    pre: Board,
    post: Board,
    src: Hex,
    dest: Hex,
    action: PairAction,
)
    requires
        pair_step_spec(pre, post, src, dest, action),
    ensures
        forall|h: Hex| pre.present(h) && h != src && h != dest ==> post.at(h) == pre.at(h),
        ({
            ||| forall|h: Hex| pre.present(h) ==> post.at(h) == pre.at(h)
                ||| {
                &&& pre.present(src)
                &&& pre.present(dest)
                &&& src != dest
                &&& action is Move
                &&& move_allowed_spec(pre.at(src), pre.at(dest))
                &&& post.at(src) == moved_src_tile_spec(pre.at(src))
                &&& post.at(dest) == moved_dest_tile_spec(pre.at(src), pre.at(dest))
            }
            ||| {
                &&& pre.present(src)
                &&& pre.present(dest)
                &&& src != dest
                &&& action matches PairAction::Attack(faces)
                &&& attack_allowed_spec(pre.at(dest), faces@)
                &&& post.at(src) == pre.at(src)
                &&& post.at(dest) == attacked_dest_tile_spec(pre.at(dest), faces@)
            }
        }),
{
}

} // verus!
