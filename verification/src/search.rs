//! The reachability engine: breadth-first flood fills over the board,
//! bounded by a step budget, with movement or line-of-sight rules
//! deciding which cells may be entered and which may be expanded from.

use vstd::prelude::*;
use crate::board::Board;
use crate::feature::features_stop_spec;
use crate::board::lemma_present_bounds;
use crate::hex::{Hex, adjacent, neighbour_spec, lemma_adjacent_iff_neighbour, dist_spec,
    lemma_adjacent_distance, lemma_distance_triangle, lemma_distance_nonneg,
    lemma_distance_zero_eq, lemma_distance_step};
use crate::terrain::{blocks_movement_spec, blocks_sight_spec, stops_movement_spec};
use crate::unit::{Unit, UnitType, range_spec};

verus! {

/// Which rule set a flood fill applies: movement of a unit of the given
/// type, or line of sight.
#[derive(Clone, Copy, Debug, PartialEq, Eq, Structural)]
pub enum SearchMode {
    Movement(UnitType),
    Sight,
}

impl Board {
    /// Whether the search may step into cell `h`.  A movement search
    /// enters only present, terrain-passable, unoccupied cells; a sight
    /// search sees every present cell.
    pub open spec fn can_enter(self, mode: SearchMode, h: Hex) -> bool {
        match mode {
            SearchMode::Movement(_) => {
                &&& self.present(h)
                &&& !blocks_movement_spec(self.at(h).terrain, self.at(h).features)
                &&& self.at(h).unit is None
            },
            SearchMode::Sight => self.present(h),
        }
    }

    /// Whether the search may expand onward from cell `h`: terrain that
    /// stops movement (or wire against infantry) ends a movement search
    /// there; terrain that blocks sight ends a sight search there.
    pub open spec fn can_continue(self, mode: SearchMode, h: Hex) -> bool {
        match mode {
            SearchMode::Movement(ut) => {
                &&& !stops_movement_spec(self.at(h).terrain)
                &&& !features_stop_spec(self.at(h).features, ut)
            },
            SearchMode::Sight => !blocks_sight_spec(self.at(h).terrain),
        }
    }

    /// The cells the fill is allowed to expand from after `k` steps:
    /// the source at step zero, and afterwards the newly reached cells
    /// that do not end the search.
    pub open spec fn fill_fringe(self, mode: SearchMode, src: Hex, k: nat) -> Set<Hex>
        decreases k, 0nat,
    {
        if k == 0 {
            set![src]
        } else {
            self.fill_new(mode, src, (k - 1) as nat).filter(|h: Hex| self.can_continue(mode, h))
        }
    }

    /// The cells reached within `k` steps: the source, plus at each step
    /// every enterable unvisited neighbour of the previous fringe.
    pub open spec fn fill_visited(self, mode: SearchMode, src: Hex, k: nat) -> Set<Hex>
        decreases k, 1nat,
    {
        if k == 0 {
            set![src]
        } else {
            self.fill_visited(mode, src, (k - 1) as nat).union(
                self.fill_new(mode, src, (k - 1) as nat),
            )
        }
    }

    /// The cells first reached one step after depth `kprev`: enterable,
    /// not yet visited, and adjacent to a fringe cell of depth `kprev`.
    pub open spec fn fill_new(self, mode: SearchMode, src: Hex, kprev: nat) -> Set<Hex>
        decreases kprev, 2nat,
    {
        Set::new(
            |h: Hex|
                self.can_enter(mode, h) && !self.fill_visited(mode, src, kprev).contains(h)
                    && exists|g: Hex|
                    #[trigger] self.fill_fringe(mode, src, kprev).contains(g) && adjacent(g, h),
        )
    }
}

/// Every cell reached by a fill from a present source is itself present,
/// and any cell other than the source satisfied the entry rule when it
/// was reached.
pub proof fn lemma_fill_visited_enterable(b: Board, mode: SearchMode, src: Hex, k: nat, h: Hex)
    requires
        b.present(src),
        b.fill_visited(mode, src, k).contains(h),
    ensures
        b.present(h),
        h != src ==> b.can_enter(mode, h),
    decreases k,
{
    if k == 0 {
    } else {
        if b.fill_visited(mode, src, (k - 1) as nat).contains(h) {
            lemma_fill_visited_enterable(b, mode, src, (k - 1) as nat, h);
        } else {
            assert(b.fill_new(mode, src, (k - 1) as nat).contains(h));
            assert(b.can_enter(mode, h));
        }
    }
}

/// Every fringe cell of a fill is a visited cell.
pub proof fn lemma_fill_fringe_sub_visited(b: Board, mode: SearchMode, src: Hex, k: nat)
    ensures
        forall|h: Hex|
            b.fill_fringe(mode, src, k).contains(h) ==> #[trigger] b.fill_visited(
                mode,
                src,
                k,
            ).contains(h),
{
}

/// The visited set grows monotonically with the step budget.
pub proof fn lemma_fill_visited_monotonic(b: Board, mode: SearchMode, src: Hex, j: nat, k: nat)
    requires
        j <= k,
    ensures
        forall|h: Hex|
            b.fill_visited(mode, src, j).contains(h) ==> #[trigger] b.fill_visited(
                mode,
                src,
                k,
            ).contains(h),
    decreases k,
{
    if j < k {
        lemma_fill_visited_monotonic(b, mode, src, j, (k - 1) as nat);
        assert forall|h: Hex| b.fill_visited(mode, src, j).contains(h) implies #[trigger] b
            .fill_visited(mode, src, k).contains(h) by {
            assert(b.fill_visited(mode, src, (k - 1) as nat).contains(h));
        }
    }
}

/// Whether `h` is in the sequence.
fn contains_hex(v: &Vec<Hex>, h: Hex) -> (b: bool)
    ensures
        b == v@.contains(h),
{
    let mut j: usize = 0;
    while j < v.len()
        invariant
            j <= v@.len(),
            forall|i: int| 0 <= i < j ==> v@[i] != h,
        decreases v@.len() - j,
    {
        if v[j] == h {
            return true;
        }
        j = j + 1;
    }
    false
}

impl Board {
    /// Whether the search may step into cell `h`.
    fn check_enter(&self, mode: SearchMode, h: Hex) -> (b: bool)
        requires
            self.wf(),
        ensures
            b == self.can_enter(mode, h),
    {
        match self.get(h) {
            None => false,
            Some(t) => match mode {
                SearchMode::Movement(_) => !t.terrain.blocks_movement(t.features)
                    && t.unit.is_none(),
                SearchMode::Sight => true,
            },
        }
    }

    /// Whether the search may expand onward from the present cell `h`.
    fn check_continue(&self, mode: SearchMode, h: Hex) -> (b: bool)
        requires
            self.wf(),
            self.present(h),
        ensures
            b == self.can_continue(mode, h),
    {
        let t = self.get(h).unwrap();
        match mode {
            SearchMode::Movement(ut) => !t.terrain.stops_movement() && !t.features.stops_movement(
                ut,
            ),
            SearchMode::Sight => !t.terrain.blocks_sight(t.features),
        }
    }

    /// Visit the six neighbours of `g`: add each enterable one that is
    /// not yet visited, and queue it for further expansion if the search
    /// may continue past it.
    fn expand_from(&self, mode: SearchMode, g: Hex, visited: &mut Vec<Hex>, next: &mut Vec<Hex>)
        requires
            self.wf(),
            self.present(g),
            old(visited)@.no_duplicates(),
            old(next)@.no_duplicates(),
            forall|h: Hex| old(next)@.contains(h) ==> old(visited)@.contains(h),
            forall|h: Hex| old(visited)@.contains(h) ==> self.present(h),
        ensures
            final(visited)@.no_duplicates(),
            final(next)@.no_duplicates(),
            forall|h: Hex|
                #[trigger] final(visited)@.contains(h) <==> (old(visited)@.contains(h) || (
                adjacent(g, h) && self.can_enter(mode, h))),
            forall|h: Hex|
                #[trigger] final(next)@.contains(h) <==> (old(next)@.contains(h) || (adjacent(g, h)
                    && self.can_enter(mode, h) && !old(visited)@.contains(h) && self.can_continue(
                    mode,
                    h,
                ))),
            forall|h: Hex| #[trigger] final(visited)@.contains(h) ==> self.present(h),
            forall|h: Hex| #[trigger] final(next)@.contains(h) ==> final(visited)@.contains(h),
    {
        proof {
            lemma_present_bounds(*self, g);
        }
        let mut d: usize = 0;
        while d < 6
            invariant
                self.wf(),
                self.present(g),
                -127 <= g.q <= 126,
                -127 <= g.r <= 126,
                -127 <= g.s <= 126,
                d <= 6,
                visited@.no_duplicates(),
                next@.no_duplicates(),
                forall|h: Hex| next@.contains(h) ==> visited@.contains(h),
                forall|h: Hex| visited@.contains(h) ==> self.present(h),
                forall|h: Hex|
                    visited@.contains(h) <==> (old(visited)@.contains(h) || exists|dd: int|
                        0 <= dd < d && h == #[trigger] neighbour_spec(g, dd) && self.can_enter(
                            mode,
                            h,
                        )),
                forall|h: Hex|
                    next@.contains(h) <==> (old(next)@.contains(h) || exists|dd: int|
                        0 <= dd < d && h == #[trigger] neighbour_spec(g, dd) && self.can_enter(
                            mode,
                            h,
                        ) && !old(visited)@.contains(h) && self.can_continue(mode, h)),
            decreases 6 - d,
        {
            let ghost pre_visited = visited@;
            let ghost pre_next = next@;
            let h = g.neighbour(d);
            let enter = self.check_enter(mode, h);
            if enter && !contains_hex(visited, h) {
                visited.push(h);
                if self.check_continue(mode, h) {
                    next.push(h);
                }
                proof {
                    assert(visited@.drop_last() =~= pre_visited);
                    assert forall|x: Hex| visited@.contains(x) implies pre_visited.contains(x) || x
                        == h by {
                        let i = choose|i: int| 0 <= i < visited@.len() && visited@[i] == x;
                        if i < visited@.len() - 1 {
                            assert(pre_visited[i] == x);
                        }
                    }
                    assert(forall|x: Hex|
                        pre_visited.contains(x) ==> #[trigger] visited@.contains(x));
                    assert(visited@[visited@.len() - 1] == h);
                    assert(visited@.contains(h));
                    if next@.len() > pre_next.len() {
                        assert(next@.drop_last() =~= pre_next);
                        assert forall|x: Hex| next@.contains(x) implies pre_next.contains(x) || x
                            == h by {
                            let i = choose|i: int| 0 <= i < next@.len() && next@[i] == x;
                            if i < next@.len() - 1 {
                                assert(pre_next[i] == x);
                            }
                        }
                        assert(forall|x: Hex| pre_next.contains(x) ==> #[trigger] next@.contains(x));
                        assert(next@[next@.len() - 1] == h);
                        assert(next@.contains(h));
                    }
                }
            }
            d = d + 1;
            proof {
                assert forall|x: Hex| visited@.contains(x) implies (old(visited)@.contains(x)
                    || exists|dd: int|
                    0 <= dd < d && x == #[trigger] neighbour_spec(g, dd) && self.can_enter(
                        mode,
                        x,
                    )) by {
                    if !old(visited)@.contains(x) {
                        if pre_visited.contains(x) {
                            let dd = choose|dd: int|
                                0 <= dd < d - 1 && x == #[trigger] neighbour_spec(g, dd)
                                    && self.can_enter(mode, x);
                            assert(0 <= dd < d && x == neighbour_spec(g, dd));
                        } else {
                            assert(x == h && x == neighbour_spec(g, d - 1));
                        }
                    }
                }
                assert forall|x: Hex| (old(visited)@.contains(x) || exists|dd: int|
                    0 <= dd < d && x == #[trigger] neighbour_spec(g, dd) && self.can_enter(
                        mode,
                        x,
                    )) implies visited@.contains(x) by {
                    if !old(visited)@.contains(x) {
                        let dd = choose|dd: int|
                            0 <= dd < d && x == #[trigger] neighbour_spec(g, dd) && self.can_enter(
                                mode,
                                x,
                            );
                        if dd < d - 1 {
                            assert(pre_visited.contains(x));
                        } else {
                            assert(x == h);
                            assert(visited@.contains(x));
                        }
                    }
                }
                assert forall|x: Hex| next@.contains(x) implies (old(next)@.contains(x) || exists|
                    dd: int,
                |
                    0 <= dd < d && x == #[trigger] neighbour_spec(g, dd) && self.can_enter(mode, x)
                        && !old(visited)@.contains(x) && self.can_continue(mode, x)) by {
                    if !old(next)@.contains(x) {
                        if pre_next.contains(x) {
                            let dd = choose|dd: int|
                                0 <= dd < d - 1 && x == #[trigger] neighbour_spec(g, dd)
                                    && self.can_enter(mode, x) && !old(visited)@.contains(x)
                                    && self.can_continue(mode, x);
                            assert(0 <= dd < d && x == neighbour_spec(g, dd));
                        } else {
                            assert(x == h && x == neighbour_spec(g, d - 1));
                        }
                    }
                }
                assert forall|x: Hex| (old(next)@.contains(x) || exists|dd: int|
                    0 <= dd < d && x == #[trigger] neighbour_spec(g, dd) && self.can_enter(mode, x)
                        && !old(visited)@.contains(x) && self.can_continue(mode, x)) implies next@
                    .contains(x) by {
                    if !old(next)@.contains(x) {
                        let dd = choose|dd: int|
                            0 <= dd < d && x == #[trigger] neighbour_spec(g, dd) && self.can_enter(
                                mode,
                                x,
                            ) && !old(visited)@.contains(x) && self.can_continue(mode, x);
                        if dd < d - 1 {
                            assert(pre_next.contains(x));
                        } else {
                            assert(x == h);
                            if pre_visited.contains(x) {
                                let de = choose|de: int|
                                    0 <= de < d - 1 && x == #[trigger] neighbour_spec(g, de)
                                        && self.can_enter(mode, x);
                                assert(neighbour_spec(g, de) == neighbour_spec(g, d - 1));
                                assert(false);
                            }
                        }
                    }
                }
            }
        }
        proof {
            lemma_adjacent_iff_neighbour_all(g);
        }
    }
}

/// For an in-range coordinate, adjacency coincides with being one of the
/// six direction steps, stated for every neighbour at once.
proof fn lemma_adjacent_iff_neighbour_all(g: Hex)
    requires
        -127 <= g.q <= 126,
        -127 <= g.r <= 126,
        -127 <= g.s <= 126,
    ensures
        forall|h: Hex|
            #[trigger] adjacent(g, h) <==> exists|d: int| 0 <= d < 6 && h == neighbour_spec(g, d),
{
    assert forall|h: Hex| #[trigger] adjacent(g, h) implies exists|d: int|
        0 <= d < 6 && h == neighbour_spec(g, d) by {
        lemma_adjacent_iff_neighbour(g, h);
    }
    assert forall|h: Hex| (exists|d: int| 0 <= d < 6 && h == neighbour_spec(g, d)) implies adjacent(
        g,
        h,
    ) by {
        lemma_adjacent_iff_neighbour(g, h);
    }
}


impl Board {
    /// Breadth-first flood fill from `src`, bounded by `limit` steps:
    /// returns, without duplicates, exactly the cells the search visits
    /// within the budget.
    pub fn flood_fill(&self, mode: SearchMode, src: Hex, limit: u8) -> (r: Vec<Hex>)
        requires
            self.wf(),
            self.present(src),
        ensures
            forall|h: Hex|
                #[trigger] r@.contains(h) <==> self.fill_visited(mode, src, limit as nat).contains(
                    h,
                ),
            r@.no_duplicates(),
    {
        let mut visited: Vec<Hex> = Vec::new();
        visited.push(src);
        let mut fringe: Vec<Hex> = Vec::new();
        fringe.push(src);
        proof {
            assert(visited@[0] == src);
            assert(fringe@[0] == src);
            assert(forall|h: Hex| #[trigger] visited@.contains(h) ==> h == src);
            assert(forall|h: Hex| #[trigger] fringe@.contains(h) ==> h == src);
            assert(visited@.contains(src));
            assert(fringe@.contains(src));
        }
        let mut k: u8 = 0;
        while k < limit
            invariant
                self.wf(),
                self.present(src),
                k <= limit,
                forall|h: Hex|
                    #[trigger] visited@.contains(h) <==> self.fill_visited(
                        mode,
                        src,
                        k as nat,
                    ).contains(h),
                forall|h: Hex|
                    #[trigger] fringe@.contains(h) <==> self.fill_fringe(
                        mode,
                        src,
                        k as nat,
                    ).contains(h),
                visited@.no_duplicates(),
                fringe@.no_duplicates(),
                forall|h: Hex| #[trigger] visited@.contains(h) ==> self.present(h),
            decreases limit - k,
        {
            let ghost prev_visited = self.fill_visited(mode, src, k as nat);
            let ghost new_set = self.fill_new(mode, src, k as nat);
            let mut next: Vec<Hex> = Vec::new();
            let mut j: usize = 0;
            while j < fringe.len()
                invariant
                    self.wf(),
                    self.present(src),
                    j <= fringe@.len(),
                    prev_visited == self.fill_visited(mode, src, k as nat),
                    new_set == self.fill_new(mode, src, k as nat),
                    forall|h: Hex|
                        #[trigger] fringe@.contains(h) <==> self.fill_fringe(
                            mode,
                            src,
                            k as nat,
                        ).contains(h),
                    fringe@.no_duplicates(),
                    visited@.no_duplicates(),
                    next@.no_duplicates(),
                    forall|h: Hex| prev_visited.contains(h) ==> #[trigger] visited@.contains(h),
                    forall|h: Hex|
                        #[trigger] visited@.contains(h) ==> prev_visited.contains(h)
                            || new_set.contains(h),
                    forall|h: Hex, jj: int|
                        #![trigger adjacent(fringe@[jj], h), visited@.contains(h)]
                        0 <= jj < j && adjacent(fringe@[jj], h) && self.can_enter(mode, h)
                            ==> visited@.contains(h),
                    forall|h: Hex|
                        #[trigger] next@.contains(h) <==> (visited@.contains(h)
                            && !prev_visited.contains(h) && self.can_continue(mode, h)),
                    forall|h: Hex| #[trigger] visited@.contains(h) ==> self.present(h),
                decreases fringe@.len() - j,
            {
                let g = fringe[j];
                let ghost mid_visited = visited@;
                let ghost mid_next = next@;
                proof {
                    assert(fringe@.contains(g));
                    assert(self.fill_fringe(mode, src, k as nat).contains(g));
                    lemma_fill_fringe_sub_visited(*self, mode, src, k as nat);
                    assert(self.fill_visited(mode, src, k as nat).contains(g));
                    assert(visited@.contains(g));
                }
                self.expand_from(mode, g, &mut visited, &mut next);
                proof {
                    assert forall|h: Hex| #[trigger] visited@.contains(h) implies prev_visited
                        .contains(h) || new_set.contains(h) by {
                        assert(mid_visited.contains(h) || (adjacent(g, h) && self.can_enter(
                            mode,
                            h,
                        )));
                        if !mid_visited.contains(h) && !prev_visited.contains(h) {
                            assert(self.fill_fringe(mode, src, k as nat).contains(g) && adjacent(
                                g,
                                h,
                            ));
                            assert(new_set.contains(h));
                        }
                    }
                    assert forall|h: Hex| #[trigger] next@.contains(h) implies (visited@.contains(
                        h,
                    ) && !prev_visited.contains(h) && self.can_continue(mode, h)) by {
                        assert(mid_next.contains(h) || (adjacent(g, h) && self.can_enter(mode, h)
                            && !mid_visited.contains(h) && self.can_continue(mode, h)));
                        assert(visited@.contains(h));
                        if mid_next.contains(h) {
                            assert(!prev_visited.contains(h) && self.can_continue(mode, h));
                        } else {
                            assert(!mid_visited.contains(h));
                            assert(!prev_visited.contains(h));
                        }
                    }
                    assert forall|h: Hex|
                        (visited@.contains(h) && !prev_visited.contains(h) && self.can_continue(
                            mode,
                            h,
                        )) implies #[trigger] next@.contains(h) by {
                        assert(mid_visited.contains(h) || (adjacent(g, h) && self.can_enter(
                            mode,
                            h,
                        )));
                        if mid_visited.contains(h) {
                            assert(mid_next.contains(h));
                            assert(next@.contains(h));
                        } else {
                            assert(adjacent(g, h) && self.can_enter(mode, h) && !mid_visited
                                .contains(h) && self.can_continue(mode, h));
                            assert(next@.contains(h));
                        }
                    }
                }
                j = j + 1;
                proof {
                    assert forall|h: Hex, jj: int|
                        #![trigger adjacent(fringe@[jj], h), visited@.contains(h)]
                        0 <= jj < j && adjacent(fringe@[jj], h) && self.can_enter(
                            mode,
                            h,
                        ) implies visited@.contains(h) by {
                        if jj < j - 1 {
                            assert(mid_visited.contains(h));
                            assert(visited@.contains(h));
                        } else {
                            assert(fringe@[jj] == g);
                        }
                    }
                }
            }
            proof {
                assert forall|h: Hex| self.fill_visited(mode, src, (k + 1) as nat).contains(
                    h,
                ) implies visited@.contains(h) by {
                    assert(((k + 1) as nat - 1) as nat == k as nat);
                    if prev_visited.contains(h) {
                    } else {
                        assert(new_set.contains(h));
                        let g0 = choose|g0: Hex|
                            #[trigger] self.fill_fringe(mode, src, k as nat).contains(g0)
                                && adjacent(g0, h);
                        assert(fringe@.contains(g0));
                        let jj = choose|jj: int|
                            0 <= jj < fringe@.len() && #[trigger] fringe@[jj] == g0;
                        assert(adjacent(fringe@[jj], h) && self.can_enter(mode, h));
                    }
                }
                assert forall|h: Hex| visited@.contains(h) implies self.fill_visited(
                    mode,
                    src,
                    (k + 1) as nat,
                ).contains(h) by {
                    assert(((k + 1) as nat - 1) as nat == k as nat);
                }
                assert forall|h: Hex| #[trigger] next@.contains(h) implies self.fill_fringe(
                    mode,
                    src,
                    (k + 1) as nat,
                ).contains(h) by {
                    assert(((k + 1) as nat - 1) as nat == k as nat);
                    assert(visited@.contains(h) && !prev_visited.contains(h));
                    assert(new_set.contains(h) && self.can_continue(mode, h));
                }
                assert forall|h: Hex| self.fill_fringe(mode, src, (k + 1) as nat).contains(
                    h,
                ) implies next@.contains(h) by {
                    assert(((k + 1) as nat - 1) as nat == k as nat);
                    assert(new_set.contains(h) && self.can_continue(mode, h));
                    assert(visited@.contains(h));
                    assert(!prev_visited.contains(h));
                }
            }
            fringe = next;
            k = k + 1;
        }
        visited
    }

    /// The set of cells a unit of the given type may reach from `src`
    /// with the given movement points: a flood fill that enters only
    /// passable unoccupied cells and does not expand past stopping
    /// terrain or wire.
    pub fn move_range(&self, unit_type: UnitType, movement_points: u8, src: Hex) -> (r: Vec<Hex>)
        requires
            self.wf(),
            self.present(src),
        ensures
            forall|h: Hex|
                #[trigger] r@.contains(h) <==> self.fill_visited(
                    SearchMode::Movement(unit_type),
                    src,
                    movement_points as nat,
                ).contains(h),
            r@.no_duplicates(),
    {
        self.flood_fill(SearchMode::Movement(unit_type), src, movement_points)
    }

    /// The set of cells within sight range `range` of `src`: a flood
    /// fill that sees every present cell but does not expand past
    /// sight-blocking terrain.
    pub fn fire_range(&self, range: u8, src: Hex) -> (r: Vec<Hex>)
        requires
            self.wf(),
            self.present(src),
        ensures
            forall|h: Hex|
                #[trigger] r@.contains(h) <==> self.fill_visited(
                    SearchMode::Sight,
                    src,
                    range as nat,
                ).contains(h),
            r@.no_duplicates(),
    {
        self.flood_fill(SearchMode::Sight, src, range)
    }

    /// The cells the unit may fire at from `src`: the occupied cells of
    /// its sight range.  Filtering by opposing faction and computing the
    /// dice is the caller's concern.
    pub fn fire_targets(&self, unit: &Unit, src: Hex) -> (r: Vec<Hex>)
        requires
            self.wf(),
            self.present(src),
        ensures
            forall|h: Hex|
                #[trigger] r@.contains(h) <==> (self.fill_visited(
                    SearchMode::Sight,
                    src,
                    range_spec(unit.unit_type) as nat,
                ).contains(h) && self.at(h).unit is Some),
            r@.no_duplicates(),
    {
        let range = unit.unit_type.range();
        let cells = self.fire_range(range, src);
        let mut r: Vec<Hex> = Vec::new();
        let mut i: usize = 0;
        while i < cells.len()
            invariant
                self.wf(),
                self.present(src),
                i <= cells@.len(),
                cells@.no_duplicates(),
                r@.no_duplicates(),
                forall|h: Hex|
                    #[trigger] cells@.contains(h) <==> self.fill_visited(
                        SearchMode::Sight,
                        src,
                        range_spec(unit.unit_type) as nat,
                    ).contains(h),
                forall|h: Hex|
                    #[trigger] r@.contains(h) <==> (cells@.take(i as int).contains(h)
                        && self.present(h) && self.at(h).unit is Some),
            decreases cells@.len() - i,
        {
            let h = cells[i];
            let ghost pre_r = r@;
            let occupied = match self.get(h) {
                Some(t) => t.unit.is_some(),
                None => false,
            };
            if occupied {
                proof {
                    assert(cells@.contains(h));
                    if pre_r.contains(h) {
                        assert(cells@.take(i as int).contains(h));
                        let jj = choose|jj: int|
                            0 <= jj < i && #[trigger] cells@.take(i as int)[jj] == h;
                        assert(cells@[jj] == h && cells@[i as int] == h);
                        assert(false);
                    }
                }
                r.push(h);
            }
            i = i + 1;
            proof {
                assert(cells@.take(i as int).drop_last() =~= cells@.take(i - 1));
                assert(cells@.take(i as int).last() == cells@[i - 1]);
                assert forall|h2: Hex| #[trigger] r@.contains(h2) implies (cells@.take(
                    i as int,
                ).contains(h2) && self.present(h2) && self.at(h2).unit is Some) by {
                    if pre_r.contains(h2) {
                        assert(cells@.take(i - 1).contains(h2));
                        let jj = choose|jj: int|
                            0 <= jj < i - 1 && #[trigger] cells@.take(i - 1)[jj] == h2;
                        assert(cells@.take(i as int)[jj] == h2);
                    } else {
                        assert(r@.len() == pre_r.len() + 1);
                        let jx = choose|jx: int| 0 <= jx < r@.len() && #[trigger] r@[jx] == h2;
                        if jx < r@.len() - 1 {
                            assert(pre_r[jx] == h2);
                            assert(false);
                        }
                        assert(h2 == cells@[i - 1]);
                        assert(cells@.take(i as int)[i - 1] == h2);
                    }
                }
                assert forall|h2: Hex|
                    (cells@.take(i as int).contains(h2) && self.present(h2) && self.at(h2).unit
                        is Some) implies #[trigger] r@.contains(h2) by {
                    let jj = choose|jj: int|
                        0 <= jj < i && #[trigger] cells@.take(i as int)[jj] == h2;
                    if jj < i - 1 {
                        assert(cells@.take(i - 1)[jj] == h2);
                        assert(cells@.take(i - 1).contains(h2));
                        assert(pre_r.contains(h2));
                        if r@.len() == pre_r.len() + 1 {
                            assert(r@.drop_last() =~= pre_r);
                            let jx = choose|jx: int|
                                0 <= jx < pre_r.len() && #[trigger] pre_r[jx] == h2;
                            assert(r@[jx] == h2);
                        }
                    } else {
                        assert(h2 == cells@[i - 1]);
                        assert(r@[r@.len() - 1] == h2);
                    }
                }
            }
        }
        proof {
            assert(cells@.take(cells@.len() as int) =~= cells@);
            assert forall|h: Hex| #[trigger] r@.contains(h) implies (self.fill_visited(
                SearchMode::Sight,
                src,
                range_spec(unit.unit_type) as nat,
            ).contains(h) && self.at(h).unit is Some) by {
                assert(cells@.contains(h));
            }
            assert forall|h: Hex|
                (self.fill_visited(SearchMode::Sight, src, range_spec(unit.unit_type) as nat)
                    .contains(h) && self.at(h).unit is Some) implies #[trigger] r@.contains(h) by {
                lemma_fill_visited_enterable(
                    *self,
                    SearchMode::Sight,
                    src,
                    range_spec(unit.unit_type) as nat,
                    h,
                );
                assert(cells@.contains(h));
            }
        }
        r
    }
}


/// A fill with a step budget of zero visits exactly the source cell.
pub proof fn lemma_fill_zero(b: Board, mode: SearchMode, src: Hex)
    ensures
        forall|h: Hex| b.fill_visited(mode, src, 0).contains(h) <==> h == src,
{
    assert forall|h: Hex| b.fill_visited(mode, src, 0).contains(h) <==> h == src by {
        assert(b.fill_visited(mode, src, 0) == set![src]);
    }
}

/// A river cell without a bridge is never part of a movement range,
/// other than as the source itself: entry into it is blocked, so no
/// fill ever visits it.
pub proof fn lemma_river_not_entered(b: Board, ut: UnitType, src: Hex, k: nat, h: Hex)
    requires
        b.present(src),
        b.fill_visited(SearchMode::Movement(ut), src, k).contains(h),
        h != src,
    ensures
        !(b.at(h).terrain is River && !b.at(h).features.bridge),
        b.at(h).unit is None,
    decreases k,
{
    lemma_fill_visited_enterable(b, SearchMode::Movement(ut), src, k, h);
}

/// A cell that stops movement is never expanded from: at every depth
/// past the source, the fringe holds only cells the search may continue
/// through, so nothing beyond a stopping cell is reached through it.
pub proof fn lemma_stopping_cell_not_expanded(
    b: Board,
    mode: SearchMode,
    src: Hex,
    k: nat,
    h: Hex,
)
    requires
        k >= 1,
        b.fill_fringe(mode, src, k).contains(h),
    ensures
        b.can_continue(mode, h),
{
}


/// On an unobstructed stretch of board, a sight fill reaches exactly the
/// distance ball: if every coordinate within `k` of the source lies on
/// the board and no present cell blocks sight, the cells visited within
/// `k` steps are exactly those at cube distance at most `k`.
pub proof fn lemma_fire_fill_is_ball(b: Board, src: Hex, k: nat)
    requires
        b.wf(),
        b.present(src),
        forall|h: Hex| h.wf() && dist_spec(src, h) <= k ==> #[trigger] b.present(h),
        forall|h: Hex| #[trigger] b.present(h) ==> !crate::terrain::blocks_sight_spec(
            b.at(h).terrain,
        ),
    ensures
        forall|h: Hex|
            #[trigger] b.fill_visited(SearchMode::Sight, src, k).contains(h) <==> (h.wf()
                && dist_spec(src, h) <= k),
    decreases k,
{
    let mode = SearchMode::Sight;
    if k == 0 {
        assert forall|h: Hex| #[trigger] b.fill_visited(mode, src, 0).contains(h) <==> (h.wf()
            && dist_spec(src, h) <= 0) by {
            if b.fill_visited(mode, src, 0).contains(h) {
                assert(h == src);
                lemma_distance_nonneg(src, h);
            }
            if h.wf() && dist_spec(src, h) <= 0 {
                lemma_distance_nonneg(src, h);
                lemma_distance_zero_eq(src, h);
                assert(b.fill_visited(mode, src, 0).contains(src));
            }
        }
    } else {
        let kp = (k - 1) as nat;
        lemma_fire_fill_is_ball(b, src, kp);
        assert forall|h: Hex| #[trigger] b.fill_visited(mode, src, k).contains(h) implies (h.wf()
            && dist_spec(src, h) <= k) by {
            if b.fill_visited(mode, src, kp).contains(h) {
            } else {
                assert(b.fill_new(mode, src, kp).contains(h));
                assert(b.present(h));
                let g = choose|g: Hex|
                    #[trigger] b.fill_fringe(mode, src, kp).contains(g) && adjacent(g, h);
                lemma_fill_fringe_sub_visited(b, mode, src, kp);
                assert(b.fill_visited(mode, src, kp).contains(g));
                assert(g.wf() && dist_spec(src, g) <= kp);
                lemma_adjacent_distance(g, h);
                lemma_distance_triangle(src, h, g);
                assert(dist_spec(g, h) == dist_spec(h, g));
            }
        }
        assert forall|h: Hex| (h.wf() && dist_spec(src, h) <= k) implies #[trigger] b.fill_visited(
            mode,
            src,
            k,
        ).contains(h) by {
            if dist_spec(src, h) <= kp {
                assert(b.fill_visited(mode, src, kp).contains(h));
            } else {
                assert(dist_spec(src, h) == k);
                assert(b.present(h));
                crate::board::lemma_present_bounds(b, h);
                lemma_distance_step(src, h);
                let g = choose|g: Hex|
                    #[trigger] adjacent(g, h) && g.wf() && dist_spec(src, g) == dist_spec(src, h)
                        - 1;
                assert(dist_spec(src, g) == kp);
                assert(b.present(g));
                assert(b.fill_visited(mode, src, kp).contains(g));
                assert(b.fill_fringe(mode, src, kp).contains(g)) by {
                    if kp == 0 {
                        lemma_distance_nonneg(src, g);
                        lemma_distance_zero_eq(src, g);
                        assert(b.fill_fringe(mode, src, 0) == set![src]);
                    } else {
                        let kpp = (kp - 1) as nat;
                        lemma_fire_fill_is_ball(b, src, kpp);
                        assert(!b.fill_visited(mode, src, kpp).contains(g));
                        assert(b.fill_new(mode, src, kpp).contains(g));
                        assert(!crate::terrain::blocks_sight_spec(b.at(g).terrain));
                        assert(b.can_continue(mode, g));
                        assert(b.fill_fringe(mode, src, kp) == b.fill_new(mode, src, kpp).filter(
                            |x: Hex| b.can_continue(mode, x),
                        ));
                    }
                }
                if !b.fill_visited(mode, src, kp).contains(h) {
                    assert(b.can_enter(mode, h));
                    assert(b.fill_new(mode, src, kp).contains(h));
                }
            }
        }
    }
}

} // verus!
