//! Cube coordinates for a hexagonal grid.
//!
//! A hex position is three signed integers `(q, r, s)` with the invariant
//! `q + r + s == 0`.  Distance is half the sum of the componentwise
//! absolute differences, and each cell has six unit-direction neighbours.

use vstd::prelude::*;

verus! {

use vstd::arithmetic::div_mod::{lemma_fundamental_div_mod, lemma_mod_division_less_than_divisor,
    lemma_div_pos_is_pos, lemma_div_multiples_vanish_fancy, lemma_basic_div,
    lemma_mod_sub_multiples_vanish};

/// A cube coordinate on the hex grid.
#[derive(Clone, Copy, Debug, PartialEq, Eq, Structural, Hash)]
pub struct Hex {
    pub q: i8,
    pub r: i8,
    pub s: i8,
}

/// Absolute value of a mathematical integer.
pub open spec fn iabs(x: int) -> int {
    if x < 0 {
        -x
    } else {
        x
    }
}

/// Cube distance between two coordinates: half the sum of the
/// componentwise absolute differences.
pub open spec fn dist_spec(a: Hex, b: Hex) -> int {
    (iabs(a.q - b.q) + iabs(a.r - b.r) + iabs(a.s - b.s)) / 2
}

/// The unit vector of one of the six hex directions.
pub open spec fn direction_spec(d: int) -> Hex {
    if d == 0 {
        Hex { q: 1i8, r: 0i8, s: -1i8 }
    } else if d == 1 {
        Hex { q: 1i8, r: -1i8, s: 0i8 }
    } else if d == 2 {
        Hex { q: 0i8, r: -1i8, s: 1i8 }
    } else if d == 3 {
        Hex { q: -1i8, r: 0i8, s: 1i8 }
    } else if d == 4 {
        Hex { q: -1i8, r: 1i8, s: 0i8 }
    } else {
        Hex { q: 0i8, r: 1i8, s: -1i8 }
    }
}

/// The coordinate one step from `g` in direction `d`, for coordinates
/// far enough from the edge of the representable range that the step
/// does not wrap.
pub open spec fn neighbour_spec(g: Hex, d: int) -> Hex {
    Hex {
        q: (g.q + direction_spec(d).q) as i8,
        r: (g.r + direction_spec(d).r) as i8,
        s: (g.s + direction_spec(d).s) as i8,
    }
}

/// Whether `b` is one of the six direct neighbours of `a`.
pub open spec fn adjacent(a: Hex, b: Hex) -> bool {
    exists|d: int|
        0 <= d < 6 && b.q == a.q + direction_spec(d).q && b.r == a.r + direction_spec(d).r && b.s
            == a.s + direction_spec(d).s
}

impl Hex {
    /// The cube-coordinate invariant: the three components sum to zero.
    pub open spec fn wf(self) -> bool {
        self.q + self.r + self.s == 0
    }

    /// Construct a coordinate from all three components.
    ///
    /// Components not summing to zero are a caller bug, ruled out up front.
    pub fn new(q: i8, r: i8, s: i8) -> (h: Hex)
        requires
            q + r + s == 0,
        ensures
            h == (Hex { q, r, s }),
            h.wf(),
    {
        Hex { q, r, s }
    }

    /// Construct a coordinate from the first two components, deriving the
    /// third so the invariant holds.
    pub fn new_coord(q: i8, r: i8) -> (h: Hex)
        requires
            -128 <= -(q + r) <= 127,
        ensures
            h.q == q && h.r == r && h.s == -(q + r),
            h.wf(),
    {
        Hex { q, r, s: (-(q as i16 + r as i16)) as i8 }
    }

    /// The first cube component.
    pub fn q(&self) -> (v: i8)
        ensures
            v == self.q,
    {
        self.q
    }

    /// The second cube component.
    pub fn r(&self) -> (v: i8)
        ensures
            v == self.r,
    {
        self.r
    }

    /// The third cube component.
    pub fn s(&self) -> (v: i8)
        ensures
            v == self.s,
    {
        self.s
    }

    /// Distance from the origin: half the sum of the components'
    /// absolute values.
    pub fn len(self) -> (n: usize)
        ensures
            n == dist_spec(self, Hex { q: 0, r: 0, s: 0 }),
    {
        let aq: i32 = if self.q < 0 {
            -(self.q as i32)
        } else {
            self.q as i32
        };
        let ar: i32 = if self.r < 0 {
            -(self.r as i32)
        } else {
            self.r as i32
        };
        let as_: i32 = if self.s < 0 {
            -(self.s as i32)
        } else {
            self.s as i32
        };
        ((aq + ar + as_) as usize) / 2
    }

    /// Cube distance to another coordinate.
    pub fn distance(self, rhs: Self) -> (n: usize)
        ensures
            n == dist_spec(self, rhs),
    {
        let dq: i32 = self.q as i32 - rhs.q as i32;
        let dr: i32 = self.r as i32 - rhs.r as i32;
        let ds: i32 = self.s as i32 - rhs.s as i32;
        let aq: i32 = if dq < 0 {
            -dq
        } else {
            dq
        };
        let ar: i32 = if dr < 0 {
            -dr
        } else {
            dr
        };
        let as_: i32 = if ds < 0 {
            -ds
        } else {
            ds
        };
        ((aq + ar + as_) as usize) / 2
    }

    /// The unit vector of a direction index in `0..6`.
    ///
    /// An index outside that range is a caller bug, ruled out up front.
    pub fn direction(direction: usize) -> (h: Hex)
        requires
            direction < 6,
        ensures
            h == direction_spec(direction as int),
            h.wf(),
    {
        if direction == 0 {
            Hex { q: 1, r: 0, s: -1 }
        } else if direction == 1 {
            Hex { q: 1, r: -1, s: 0 }
        } else if direction == 2 {
            Hex { q: 0, r: -1, s: 1 }
        } else if direction == 3 {
            Hex { q: -1, r: 0, s: 1 }
        } else if direction == 4 {
            Hex { q: -1, r: 1, s: 0 }
        } else {
            Hex { q: 0, r: 1, s: -1 }
        }
    }

    /// The neighbouring coordinate one step away in the given direction.
    pub fn neighbour(self, direction: usize) -> (h: Hex)
        requires
            direction < 6,
            -127 <= self.q <= 126,
            -127 <= self.r <= 126,
            -127 <= self.s <= 126,
        ensures
            h.q == self.q + direction_spec(direction as int).q,
            h.r == self.r + direction_spec(direction as int).r,
            h.s == self.s + direction_spec(direction as int).s,
            h == neighbour_spec(self, direction as int),
            adjacent(self, h),
            self.wf() ==> h.wf(),
    {
        let d = Self::direction(direction);
        let h = Hex { q: self.q + d.q, r: self.r + d.r, s: self.s + d.s };
        proof {
            assert(0 <= direction < 6 && h.q == self.q + direction_spec(direction as int).q && h.r
                == self.r + direction_spec(direction as int).r && h.s == self.s + direction_spec(
                direction as int,
            ).s);
        }
        h
    }
}

/// For a coordinate away from the edge of the representable range, the
/// neighbours are exactly the six direction steps.
pub proof fn lemma_adjacent_iff_neighbour(g: Hex, h: Hex)
    requires
        -127 <= g.q <= 126,
        -127 <= g.r <= 126,
        -127 <= g.s <= 126,
    ensures
        adjacent(g, h) <==> exists|d: int| 0 <= d < 6 && h == neighbour_spec(g, d),
{
    if adjacent(g, h) {
        let d = choose|d: int|
            0 <= d < 6 && h.q == g.q + direction_spec(d).q && h.r == g.r + direction_spec(d).r
                && h.s == g.s + direction_spec(d).s;
        assert(h == neighbour_spec(g, d));
    }
    if exists|d: int| 0 <= d < 6 && h == neighbour_spec(g, d) {
        let d = choose|d: int| 0 <= d < 6 && h == neighbour_spec(g, d);
        assert(h.q == g.q + direction_spec(d).q && h.r == g.r + direction_spec(d).r && h.s == g.s
            + direction_spec(d).s);
    }
}

/// Distance is symmetric: `distance(a, b) == distance(b, a)`.
pub proof fn lemma_distance_symmetric(a: Hex, b: Hex)
    ensures
        dist_spec(a, b) == dist_spec(b, a),
{
}

/// Distance from a coordinate to itself is zero.
pub proof fn lemma_distance_self(a: Hex)
    ensures
        dist_spec(a, a) == 0,
{
}

/// For components that sum to zero, the sum of absolute differences is even.
proof fn lemma_abs_sum_even(x: int, y: int, z: int)
    requires
        x + y + z == 0,
    ensures
        (iabs(x) + iabs(y) + iabs(z)) % 2 == 0,
{
    assert((iabs(x) + iabs(y) + iabs(z)) % 2 == 0) by {
        if x < 0 {
            if y < 0 {
                assert(iabs(x) + iabs(y) + iabs(z) == 2 * z);
            } else if z < 0 {
                assert(iabs(x) + iabs(y) + iabs(z) == 2 * y);
            } else {
                assert(iabs(x) + iabs(y) + iabs(z) == -2 * x);
            }
        } else {
            if y >= 0 {
                assert(iabs(x) + iabs(y) + iabs(z) == -2 * z);
            } else if z >= 0 {
                assert(iabs(x) + iabs(y) + iabs(z) == -2 * y);
            } else {
                assert(iabs(x) + iabs(y) + iabs(z) == 2 * x);
            }
        }
    }
}

/// The triangle inequality for cube distance:
/// `distance(a, b) <= distance(a, c) + distance(c, b)`.
pub proof fn lemma_distance_triangle(a: Hex, b: Hex, c: Hex)
    requires
        a.wf(),
        b.wf(),
        c.wf(),
    ensures
        dist_spec(a, b) <= dist_spec(a, c) + dist_spec(c, b),
{
    let sab = iabs(a.q - b.q) + iabs(a.r - b.r) + iabs(a.s - b.s);
    let sac = iabs(a.q - c.q) + iabs(a.r - c.r) + iabs(a.s - c.s);
    let scb = iabs(c.q - b.q) + iabs(c.r - b.r) + iabs(c.s - b.s);
    assert(sab <= sac + scb);
    lemma_abs_sum_even(a.q - b.q, a.r - b.r, a.s - b.s);
    lemma_abs_sum_even(a.q - c.q, a.r - c.r, a.s - c.s);
    lemma_abs_sum_even(c.q - b.q, c.r - b.r, c.s - b.s);
    assert(sab / 2 <= sac / 2 + scb / 2) by {
        assert(sab == 2 * (sab / 2));
        assert(sac == 2 * (sac / 2));
        assert(scb == 2 * (scb / 2));
    }
}

/// Adjacent coordinates are exactly those at distance one.
pub proof fn lemma_adjacent_distance(a: Hex, b: Hex)
    requires
        a.wf(),
        b.wf(),
    ensures
        adjacent(a, b) <==> dist_spec(a, b) == 1,
{
    if adjacent(a, b) {
    } else {
        if dist_spec(a, b) == 1 {
            let dq = a.q - b.q;
            let dr = a.r - b.r;
            let ds = a.s - b.s;
            assert(iabs(dq) + iabs(dr) + iabs(ds) == 2) by {
                lemma_abs_sum_even(dq, dr, ds);
            }
            if dq == 1 && dr == 0 {
                assert(b.q == a.q + direction_spec(3).q && b.r == a.r + direction_spec(3).r && b.s
                    == a.s + direction_spec(3).s);
            } else if dq == 1 && dr == -1 {
                assert(b.q == a.q + direction_spec(4).q && b.r == a.r + direction_spec(4).r && b.s
                    == a.s + direction_spec(4).s);
            } else if dq == 0 && dr == 1 {
                assert(b.q == a.q + direction_spec(2).q && b.r == a.r + direction_spec(2).r && b.s
                    == a.s + direction_spec(2).s);
            } else if dq == 0 && dr == -1 {
                assert(b.q == a.q + direction_spec(5).q && b.r == a.r + direction_spec(5).r && b.s
                    == a.s + direction_spec(5).s);
            } else if dq == -1 && dr == 0 {
                assert(b.q == a.q + direction_spec(0).q && b.r == a.r + direction_spec(0).r && b.s
                    == a.s + direction_spec(0).s);
            } else {
                assert(dq == -1 && dr == 1);
                assert(b.q == a.q + direction_spec(1).q && b.r == a.r + direction_spec(1).r && b.s
                    == a.s + direction_spec(1).s);
            }
        }
    }
}


/// The nearest integer to the fraction `n / d`, halves rounded away
/// from zero.
pub open spec fn nearest(n: int, d: int) -> int
    recommends
        d >= 1,
{
    if n >= 0 {
        (2 * n + d) / (2 * d)
    } else {
        -((2 * (-n) + d) / (2 * d))
    }
}

/// Numerator of the first component of the interpolation between `a` and
/// `b` at parameter `num / den`.
pub open spec fn lerp_qn(a: Hex, b: Hex, num: int, den: int) -> int {
    a.q * (den - num) + b.q * num
}

/// Numerator of the second component of the interpolation.
pub open spec fn lerp_rn(a: Hex, b: Hex, num: int, den: int) -> int {
    a.r * (den - num) + b.r * num
}

/// Numerator of the third component of the interpolation.
pub open spec fn lerp_sn(a: Hex, b: Hex, num: int, den: int) -> int {
    a.s * (den - num) + b.s * num
}

/// Rounding of the fractional coordinate `(qn/den, rn/den, sn/den)` to
/// integer cube components: each axis is rounded to the nearest integer,
/// then the axis with the largest rounding error is recomputed from the
/// other two so the components again sum to zero.
pub open spec fn round_calc(qn: int, rn: int, sn: int, den: int) -> (int, int, int)
    recommends
        den >= 1,
{
    let nq = nearest(qn, den);
    let nr = nearest(rn, den);
    let ns = nearest(sn, den);
    let eq = iabs(nq * den - qn);
    let er = iabs(nr * den - rn);
    let es = iabs(ns * den - sn);
    if eq > er && eq > es {
        (-nr - ns, nr, ns)
    } else if er > es {
        (nq, -nq - ns, ns)
    } else {
        (nq, nr, -nq - nr)
    }
}

/// A fractional cube coordinate: three exact rational components
/// `qn/den`, `rn/den`, `sn/den` over a common positive denominator.
#[derive(Clone, Copy, Debug, PartialEq, Eq, Structural)]
pub struct FractionalHex {
    pub qn: i64,
    pub rn: i64,
    pub sn: i64,
    pub den: i64,
}

impl FractionalHex {
    /// Bounds under which the rounding arithmetic stays exact: a positive,
    /// moderate denominator, and components no farther from zero than any
    /// interpolation of grid coordinates can be.
    pub open spec fn wf(self) -> bool {
        &&& 1 <= self.den <= 0x10000
        &&& iabs(self.qn as int) <= 128 * self.den
        &&& iabs(self.rn as int) <= 128 * self.den
        &&& iabs(self.sn as int) <= 128 * self.den
    }

    /// Construct a fractional coordinate from numerators over a common
    /// denominator.
    pub fn new(qn: i64, rn: i64, sn: i64, den: i64) -> (f: FractionalHex)
        requires
            1 <= den <= 0x10000,
            iabs(qn as int) <= 128 * den,
            iabs(rn as int) <= 128 * den,
            iabs(sn as int) <= 128 * den,
        ensures
            f == (FractionalHex { qn, rn, sn, den }),
            f.wf(),
    {
        FractionalHex { qn, rn, sn, den }
    }
}

/// The rounded value of `n / d` is within half a unit of the fraction:
/// `2 * |nearest(n, d) * d - n| <= d`.  The rounding also never crosses
/// zero.
proof fn lemma_nearest_err(n: int, d: int)
    requires
        d >= 1,
    ensures
        2 * iabs(nearest(n, d) * d - n) <= d,
        n >= 0 ==> nearest(n, d) >= 0,
        n <= 0 ==> nearest(n, d) <= 0,
{
    if n >= 0 {
        let m = (2 * n + d) / (2 * d);
        let rem = (2 * n + d) % (2 * d);
        lemma_fundamental_div_mod(2 * n + d, 2 * d);
        lemma_mod_division_less_than_divisor(2 * n + d, 2 * d);
        lemma_div_pos_is_pos(2 * n + d, 2 * d);
        if n == 0 {
            lemma_basic_div(d, 2 * d);
        }
        assert(2 * n + d == 2 * d * m + rem);
        assert(2 * (m * d - n) == d - rem) by (nonlinear_arith)
            requires
                2 * n + d == 2 * d * m + rem,
        ;
        assert(2 * iabs(nearest(n, d) * d - n) <= d);
    } else {
        let p = -n;
        let m = (2 * p + d) / (2 * d);
        let rem = (2 * p + d) % (2 * d);
        lemma_fundamental_div_mod(2 * p + d, 2 * d);
        lemma_mod_division_less_than_divisor(2 * p + d, 2 * d);
        lemma_div_pos_is_pos(2 * p + d, 2 * d);
        assert(2 * p + d == 2 * d * m + rem);
        assert(2 * ((-m) * d - n) == -(d - rem)) by (nonlinear_arith)
            requires
                2 * p + d == 2 * d * m + rem,
                p == -n,
        ;
        assert(nearest(n, d) == -m);
        assert(2 * iabs(nearest(n, d) * d - n) <= d);
    }
}

/// If `|n| <= k * d` then the rounded value of `n / d` is at most `k`
/// from zero.
proof fn lemma_nearest_bound(n: int, d: int, k: int)
    requires
        d >= 1,
        0 <= k,
        iabs(n) <= k * d,
    ensures
        iabs(nearest(n, d)) <= k,
{
    lemma_nearest_err(n, d);
    let m = nearest(n, d);
    assert(iabs(m) <= k) by (nonlinear_arith)
        requires
            d >= 1,
            0 <= k,
            iabs(n) <= k * d,
            2 * iabs(m * d - n) <= d,
            n >= 0 ==> m >= 0,
            n <= 0 ==> m <= 0,
    ;
}

/// Rounding an exact multiple of the denominator recovers the integer.
proof fn lemma_nearest_exact(k: int, d: int)
    requires
        d >= 1,
    ensures
        nearest(k * d, d) == k,
{
    if k >= 0 {
        assert(k * d >= 0) by (nonlinear_arith)
            requires
                k >= 0,
                d >= 1,
        ;
        lemma_div_multiples_vanish_fancy(k, d, 2 * d);
        assert(2 * (k * d) + d == (2 * d) * k + d) by (nonlinear_arith);
        assert((2 * (k * d) + d) / (2 * d) == k);
    } else {
        assert(k * d < 0) by (nonlinear_arith)
            requires
                k < 0,
                d >= 1,
        ;
        lemma_div_multiples_vanish_fancy(-k, d, 2 * d);
        assert(2 * (-(k * d)) + d == (2 * d) * (-k) + d) by (nonlinear_arith);
        assert((2 * (-(k * d)) + d) / (2 * d) == -k);
    }
}

/// Rounding a fractional coordinate whose components are exact multiples
/// of the denominator gives back those integer components.
pub proof fn lemma_round_calc_exact(qn: int, rn: int, sn: int, den: int, h: Hex)
    requires
        den >= 1,
        h.wf(),
        qn == h.q * den,
        rn == h.r * den,
        sn == h.s * den,
    ensures
        round_calc(qn, rn, sn, den) == (h.q as int, h.r as int, h.s as int),
{
    lemma_nearest_exact(h.q as int, den);
    lemma_nearest_exact(h.r as int, den);
    lemma_nearest_exact(h.s as int, den);
    assert(iabs(nearest(qn, den) * den - qn) == 0);
    assert(iabs(nearest(rn, den) * den - rn) == 0);
    assert(iabs(nearest(sn, den) * den - sn) == 0);
}

/// If the three numerators sum to zero and stay within `k` denominators
/// of zero, every component of the rounding is within `k + 1` of zero.
pub proof fn lemma_round_calc_in_range(qn: int, rn: int, sn: int, den: int, k: int)
    requires
        den >= 1,
        0 <= k,
        qn + rn + sn == 0,
        iabs(qn) <= k * den,
        iabs(rn) <= k * den,
        iabs(sn) <= k * den,
    ensures
        -(k + 1) <= round_calc(qn, rn, sn, den).0 <= k + 1,
        -(k + 1) <= round_calc(qn, rn, sn, den).1 <= k + 1,
        -(k + 1) <= round_calc(qn, rn, sn, den).2 <= k + 1,
{
    let nq = nearest(qn, den);
    let nr = nearest(rn, den);
    let ns = nearest(sn, den);
    lemma_nearest_bound(qn, den, k);
    lemma_nearest_bound(rn, den, k);
    lemma_nearest_bound(sn, den, k);
    lemma_nearest_err(qn, den);
    lemma_nearest_err(rn, den);
    lemma_nearest_err(sn, den);
    assert(iabs(-nr - ns) <= k + 1) by (nonlinear_arith)
        requires
            den >= 1,
            0 <= k,
            qn + rn + sn == 0,
            iabs(qn) <= k * den,
            2 * iabs(nr * den - rn) <= den,
            2 * iabs(ns * den - sn) <= den,
    ;
    assert(iabs(-nq - ns) <= k + 1) by (nonlinear_arith)
        requires
            den >= 1,
            0 <= k,
            qn + rn + sn == 0,
            iabs(rn) <= k * den,
            2 * iabs(nq * den - qn) <= den,
            2 * iabs(ns * den - sn) <= den,
    ;
    assert(iabs(-nq - nr) <= k + 1) by (nonlinear_arith)
        requires
            den >= 1,
            0 <= k,
            qn + rn + sn == 0,
            iabs(sn) <= k * den,
            2 * iabs(nq * den - qn) <= den,
            2 * iabs(nr * den - rn) <= den,
    ;
}

impl FractionalHex {
    /// Round the fractional coordinate back to the nearest valid integer
    /// coordinate, recomputing the axis with the largest rounding error so
    /// the cube invariant holds.
    pub fn round(self) -> (h: Hex)
        requires
            self.wf(),
            -128 <= round_calc(self.qn as int, self.rn as int, self.sn as int, self.den as int).0 <= 127,
            -128 <= round_calc(self.qn as int, self.rn as int, self.sn as int, self.den as int).1 <= 127,
            -128 <= round_calc(self.qn as int, self.rn as int, self.sn as int, self.den as int).2 <= 127,
        ensures
            h.q == round_calc(self.qn as int, self.rn as int, self.sn as int, self.den as int).0,
            h.r == round_calc(self.qn as int, self.rn as int, self.sn as int, self.den as int).1,
            h.s == round_calc(self.qn as int, self.rn as int, self.sn as int, self.den as int).2,
    {
        let nq = nearest_exec(self.qn, self.den);
        let nr = nearest_exec(self.rn, self.den);
        let ns = nearest_exec(self.sn, self.den);
        proof {
            assert(iabs(nq * self.den) <= 128 * self.den && iabs(nr * self.den) <= 128 * self.den
                && iabs(ns * self.den) <= 128 * self.den) by (nonlinear_arith)
                requires
                    iabs(nq as int) <= 128,
                    iabs(nr as int) <= 128,
                    iabs(ns as int) <= 128,
                    1 <= self.den <= 0x10000,
            ;
        }
        let eq: i64 = abs_i64(nq * self.den - self.qn);
        let er: i64 = abs_i64(nr * self.den - self.rn);
        let es: i64 = abs_i64(ns * self.den - self.sn);
        if eq > er && eq > es {
            Hex { q: (-nr - ns) as i8, r: nr as i8, s: ns as i8 }
        } else if er > es {
            Hex { q: nq as i8, r: (-nq - ns) as i8, s: ns as i8 }
        } else {
            Hex { q: nq as i8, r: nr as i8, s: (-nq - nr) as i8 }
        }
    }
}

/// Absolute value on a machine integer well inside the representable range.
fn abs_i64(x: i64) -> (r: i64)
    requires
        -0x4000_0000_0000_0000 <= x <= 0x4000_0000_0000_0000,
    ensures
        r == iabs(x as int),
{
    if x < 0 {
        -x
    } else {
        x
    }
}

/// Nearest integer to `n / d`, halves rounded away from zero.
fn nearest_exec(n: i64, d: i64) -> (r: i64)
    requires
        1 <= d <= 0x10000,
        iabs(n as int) <= 128 * d,
    ensures
        r == nearest(n as int, d as int),
        iabs(r as int) <= 128,
{
    proof {
        lemma_nearest_bound(n as int, d as int, 128);
    }
    if n >= 0 {
        let nu = n as u64;
        let du = d as u64;
        (((2 * nu + du) / (2 * du)) as i64)
    } else {
        let nu = (-n) as u64;
        let du = d as u64;
        -(((2 * nu + du) / (2 * du)) as i64)
    }
}


/// A linear combination `a * (den - num) + b * num` of values within `k`
/// of zero stays within `k * den` of zero.
proof fn lemma_lerp_term_bound(a: int, b: int, num: int, den: int, k: int)
    requires
        0 <= k,
        iabs(a) <= k,
        iabs(b) <= k,
        0 <= num <= den,
    ensures
        iabs(a * (den - num) + b * num) <= k * den,
{
    assert(iabs(a * (den - num) + b * num) <= k * den) by (nonlinear_arith)
        requires
            0 <= k,
            iabs(a) <= k,
            iabs(b) <= k,
            0 <= num <= den,
    ;
}

impl Hex {
    /// Interpolate between two coordinates at the exact rational parameter
    /// `num / den`, producing a fractional coordinate over denominator
    /// `den`.
    pub fn lerp(self, rhs: Self, num: u16, den: u16) -> (f: FractionalHex)
        requires
            1 <= den,
            num <= den,
        ensures
            f.den == den,
            f.qn == lerp_qn(self, rhs, num as int, den as int),
            f.rn == lerp_rn(self, rhs, num as int, den as int),
            f.sn == lerp_sn(self, rhs, num as int, den as int),
            f.wf(),
            self.wf() && rhs.wf() ==> f.qn + f.rn + f.sn == 0,
    {
        proof {
            lemma_lerp_term_bound(self.q as int, rhs.q as int, num as int, den as int, 128);
            lemma_lerp_term_bound(self.r as int, rhs.r as int, num as int, den as int, 128);
            lemma_lerp_term_bound(self.s as int, rhs.s as int, num as int, den as int, 128);
            assert(self.wf() && rhs.wf() ==> lerp_qn(self, rhs, num as int, den as int) + lerp_rn(
                self,
                rhs,
                num as int,
                den as int,
            ) + lerp_sn(self, rhs, num as int, den as int) == 0) by (nonlinear_arith);
            assert(forall|a: int, m: int|
                -128 <= a <= 127 && 0 <= m <= 0x10000 ==> -0x1000000 <= #[trigger] (a * m)
                    <= 0x1000000) by (nonlinear_arith);
            assert(-128 <= self.q <= 127 && 0 <= den - num <= 0x10000);
        }
        let n: i64 = num as i64;
        let d: i64 = den as i64;
        let qn: i64 = (self.q as i64) * (d - n) + (rhs.q as i64) * n;
        let rn: i64 = (self.r as i64) * (d - n) + (rhs.r as i64) * n;
        let sn: i64 = (self.s as i64) * (d - n) + (rhs.s as i64) * n;
        FractionalHex { qn, rn, sn, den: d }
    }
}

/// Coordinates for which a rasterized line is guaranteed to stay within
/// the representable range.
pub open spec fn in_draw_range(h: Hex) -> bool {
    &&& -126 <= h.q <= 126
    &&& -126 <= h.r <= 126
    &&& -126 <= h.s <= 126
}

/// The interpolation denominator used when rasterizing a line: the cube
/// distance, or one for coincident endpoints.
pub open spec fn line_den(a: Hex, b: Hex) -> int {
    if dist_spec(a, b) >= 1 {
        dist_spec(a, b)
    } else {
        1
    }
}

/// The `i`-th cell of the rasterized line from `a` to `b`: the rounding
/// of the interpolation at parameter `i / distance`.
pub open spec fn line_point(a: Hex, b: Hex, i: int) -> (int, int, int) {
    let den = line_den(a, b);
    round_calc(lerp_qn(a, b, i, den), lerp_rn(a, b, i, den), lerp_sn(a, b, i, den), den)
}

/// Coordinates at distance zero are equal.
pub proof fn lemma_distance_zero_eq(a: Hex, b: Hex)
    requires
        a.wf(),
        b.wf(),
        dist_spec(a, b) == 0,
    ensures
        a == b,
{
    lemma_abs_sum_even(a.q - b.q, a.r - b.r, a.s - b.s);
    let sum = iabs(a.q - b.q) + iabs(a.r - b.r) + iabs(a.s - b.s);
    assert(sum == 2 * (sum / 2) + sum % 2);
    assert(sum == 0);
}

/// Rounding the interpolation at parameter zero gives the first endpoint;
/// at parameter one (`den / den`), the second.
pub proof fn lemma_round_lerp_endpoints(a: Hex, b: Hex, den: int)
    requires
        a.wf(),
        b.wf(),
        den >= 1,
    ensures
        round_calc(lerp_qn(a, b, 0, den), lerp_rn(a, b, 0, den), lerp_sn(a, b, 0, den), den) == (
        a.q as int,
        a.r as int,
        a.s as int,
        ),
        round_calc(
            lerp_qn(a, b, den, den),
            lerp_rn(a, b, den, den),
            lerp_sn(a, b, den, den),
            den,
        ) == (b.q as int, b.r as int, b.s as int),
{
    assert(lerp_qn(a, b, 0, den) == a.q * den && lerp_rn(a, b, 0, den) == a.r * den && lerp_sn(
        a,
        b,
        0,
        den,
    ) == a.s * den) by (nonlinear_arith);
    assert(lerp_qn(a, b, den, den) == b.q * den && lerp_rn(a, b, den, den) == b.r * den && lerp_sn(
        a,
        b,
        den,
        den,
    ) == b.s * den) by (nonlinear_arith);
    lemma_round_calc_exact(a.q * den, a.r * den, a.s * den, den, a);
    lemma_round_calc_exact(b.q * den, b.r * den, b.s * den, den, b);
}

impl Hex {
    /// Rasterize the straight line from `self` to `rhs` into the sequence
    /// of cells it passes through: one sample for each step of the cube
    /// distance, each rounded to the nearest valid coordinate.
    pub fn linedraw(self, rhs: Self) -> (line: Vec<Hex>)
        requires
            self.wf(),
            rhs.wf(),
            in_draw_range(self),
            in_draw_range(rhs),
        ensures
            line@.len() == dist_spec(self, rhs) + 1,
            forall|i: int|
                0 <= i <= dist_spec(self, rhs) ==> {
                    &&& (#[trigger] line@[i]).q == line_point(self, rhs, i).0
                    &&& line@[i].r == line_point(self, rhs, i).1
                    &&& line@[i].s == line_point(self, rhs, i).2
                    &&& line@[i].wf()
                },
            line@[0] == self,
            line@[dist_spec(self, rhs) as int] == rhs,
    {
        let d: usize = self.distance(rhs);
        let den: u16 = if d == 0 {
            1
        } else {
            d as u16
        };
        let mut line: Vec<Hex> = Vec::new();
        let mut i: usize = 0;
        while i <= d
            invariant
                self.wf(),
                rhs.wf(),
                in_draw_range(self),
                in_draw_range(rhs),
                d == dist_spec(self, rhs),
                d <= 380,
                den == line_den(self, rhs),
                i <= d + 1,
                line@.len() == i,
                forall|j: int|
                    0 <= j < i ==> {
                        &&& (#[trigger] line@[j]).q == line_point(self, rhs, j).0
                        &&& line@[j].r == line_point(self, rhs, j).1
                        &&& line@[j].s == line_point(self, rhs, j).2
                        &&& line@[j].wf()
                    },
            decreases d + 1 - i,
        {
            let f = self.lerp(rhs, i as u16, den);
            proof {
                lemma_lerp_term_bound(self.q as int, rhs.q as int, i as int, den as int, 126);
                lemma_lerp_term_bound(self.r as int, rhs.r as int, i as int, den as int, 126);
                lemma_lerp_term_bound(self.s as int, rhs.s as int, i as int, den as int, 126);
                lemma_round_calc_in_range(
                    f.qn as int,
                    f.rn as int,
                    f.sn as int,
                    f.den as int,
                    126,
                );
            }
            let h = f.round();
            line.push(h);
            i = i + 1;
        }
        proof {
            lemma_round_lerp_endpoints(self, rhs, den as int);
            if d == 0 {
                lemma_distance_zero_eq(self, rhs);
            }
            assert(line@[0].q == line_point(self, rhs, 0).0);
            assert(line@[d as int].q == line_point(self, rhs, d as int).0);
        }
        line
    }
}


/// Cube distance is never negative.
pub proof fn lemma_distance_nonneg(a: Hex, b: Hex)
    ensures
        dist_spec(a, b) >= 0,
{
    let sum = iabs(a.q - b.q) + iabs(a.r - b.r) + iabs(a.s - b.s);
    if sum > 0 {
        lemma_div_pos_is_pos(sum, 2);
    }
}

/// Halving an even value commutes with subtracting two.
proof fn lemma_even_half_minus_one(sum: int)
    requires
        sum >= 2,
        sum % 2 == 0,
    ensures
        (sum - 2) / 2 == sum / 2 - 1,
{
    lemma_fundamental_div_mod(sum, 2);
    lemma_fundamental_div_mod(sum - 2, 2);
    lemma_mod_sub_multiples_vanish(sum, 2);
    assert((sum - 2) % 2 == 0);
}

/// Every coordinate at positive distance from `src` has a neighbour one
/// step closer to `src`: stepping along an axis pair with opposite signs
/// of the difference shortens the distance by exactly one.
pub proof fn lemma_distance_step(src: Hex, h: Hex)
    requires
        src.wf(),
        h.wf(),
        dist_spec(src, h) >= 1,
        -127 <= h.q <= 126,
        -127 <= h.r <= 126,
        -127 <= h.s <= 126,
    ensures
        exists|g: Hex|
            #[trigger] adjacent(g, h) && g.wf() && dist_spec(src, g) == dist_spec(src, h) - 1,
{
    let dq = h.q - src.q;
    let dr = h.r - src.r;
    let ds = h.s - src.s;
    let sum = iabs(dq) + iabs(dr) + iabs(ds);
    lemma_abs_sum_even(dq, dr, ds);
    assert(sum >= 2) by {
        lemma_fundamental_div_mod(sum, 2);
    }
    lemma_even_half_minus_one(sum);
    if dq > 0 && dr < 0 {
        let g = Hex { q: (h.q - 1) as i8, r: (h.r + 1) as i8, s: h.s };
        assert(adjacent(g, h)) by {
            assert(h.q == g.q + direction_spec(1).q && h.r == g.r + direction_spec(1).r && h.s
                == g.s + direction_spec(1).s);
        }
        assert(dist_spec(src, g) == dist_spec(src, h) - 1);
    } else if dq > 0 {
        assert(ds < 0);
        let g = Hex { q: (h.q - 1) as i8, r: h.r, s: (h.s + 1) as i8 };
        assert(adjacent(g, h)) by {
            assert(h.q == g.q + direction_spec(0).q && h.r == g.r + direction_spec(0).r && h.s
                == g.s + direction_spec(0).s);
        }
        assert(dist_spec(src, g) == dist_spec(src, h) - 1);
    } else if dq < 0 && dr > 0 {
        let g = Hex { q: (h.q + 1) as i8, r: (h.r - 1) as i8, s: h.s };
        assert(adjacent(g, h)) by {
            assert(h.q == g.q + direction_spec(4).q && h.r == g.r + direction_spec(4).r && h.s
                == g.s + direction_spec(4).s);
        }
        assert(dist_spec(src, g) == dist_spec(src, h) - 1);
    } else if dq < 0 {
        assert(ds > 0);
        let g = Hex { q: (h.q + 1) as i8, r: h.r, s: (h.s - 1) as i8 };
        assert(adjacent(g, h)) by {
            assert(h.q == g.q + direction_spec(3).q && h.r == g.r + direction_spec(3).r && h.s
                == g.s + direction_spec(3).s);
        }
        assert(dist_spec(src, g) == dist_spec(src, h) - 1);
    } else if dr > 0 {
        assert(ds < 0);
        let g = Hex { q: h.q, r: (h.r - 1) as i8, s: (h.s + 1) as i8 };
        assert(adjacent(g, h)) by {
            assert(h.q == g.q + direction_spec(5).q && h.r == g.r + direction_spec(5).r && h.s
                == g.s + direction_spec(5).s);
        }
        assert(dist_spec(src, g) == dist_spec(src, h) - 1);
    } else {
        assert(dr < 0 && ds > 0);
        let g = Hex { q: h.q, r: (h.r + 1) as i8, s: (h.s - 1) as i8 };
        assert(adjacent(g, h)) by {
            assert(h.q == g.q + direction_spec(2).q && h.r == g.r + direction_spec(2).r && h.s
                == g.s + direction_spec(2).s);
        }
        assert(dist_spec(src, g) == dist_spec(src, h) - 1);
    }
}

} // verus!
