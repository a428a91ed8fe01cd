//! Geometry of the cube coordinate system: distance, neighbours,
//! interpolation and line rasterization.

use openm44::hex::Hex;
use openm44::offset::OffsetCoord;

#[test]
fn distance_is_symmetric() {
    let a = Hex::new(2, -1, -1);
    let b = Hex::new(-3, 1, 2);
    assert_eq!(a.distance(b), b.distance(a));
    let c = Hex::new(0, 5, -5);
    assert_eq!(a.distance(c), c.distance(a));
}

#[test]
fn distance_to_self_is_zero() {
    let a = Hex::new(7, -4, -3);
    assert_eq!(a.distance(a), 0);
    let o = Hex::new(0, 0, 0);
    assert_eq!(o.distance(o), 0);
}

#[test]
fn distance_triangle_inequality() {
    let hexes = [
        Hex::new(0, 0, 0),
        Hex::new(3, -1, -2),
        Hex::new(-2, -2, 4),
        Hex::new(5, -5, 0),
        Hex::new(-1, 4, -3),
    ];
    for &a in &hexes {
        for &b in &hexes {
            for &c in &hexes {
                assert!(a.distance(b) <= a.distance(c) + c.distance(b));
            }
        }
    }
}

#[test]
fn distance_concrete_values() {
    let o = Hex::new(0, 0, 0);
    assert_eq!(o.distance(Hex::new(1, 0, -1)), 1);
    assert_eq!(o.distance(Hex::new(3, -3, 0)), 3);
    assert_eq!(o.distance(Hex::new(2, 2, -4)), 4);
    assert_eq!(o.len(), 0);
    assert_eq!(Hex::new(2, 2, -4).len(), 4);
}

#[test]
fn new_coord_derives_third_component() {
    let h = Hex::new_coord(3, -1);
    assert_eq!(h.q(), 3);
    assert_eq!(h.r(), -1);
    assert_eq!(h.s(), -2);
}

#[test]
fn direction_table() {
    assert_eq!(Hex::direction(0), Hex::new(1, 0, -1));
    assert_eq!(Hex::direction(1), Hex::new(1, -1, 0));
    assert_eq!(Hex::direction(2), Hex::new(0, -1, 1));
    assert_eq!(Hex::direction(3), Hex::new(-1, 0, 1));
    assert_eq!(Hex::direction(4), Hex::new(-1, 1, 0));
    assert_eq!(Hex::direction(5), Hex::new(0, 1, -1));
}

#[test]
fn neighbours_are_at_distance_one() {
    let h = Hex::new(2, -3, 1);
    for d in 0..6 {
        let n = h.neighbour(d);
        assert_eq!(h.distance(n), 1);
        assert_eq!(n.q() as i16 + n.r() as i16 + n.s() as i16, 0);
    }
}

#[test]
fn lerp_round_recovers_endpoints() {
    let a = Hex::new(2, -1, -1);
    let b = Hex::new(-3, 1, 2);
    let d = a.distance(b) as u16;
    assert_eq!(a.lerp(b, 0, d).round(), a);
    assert_eq!(a.lerp(b, d, d).round(), b);
    let o = Hex::new(0, 0, 0);
    assert_eq!(o.lerp(o, 0, 1).round(), o);
    assert_eq!(o.lerp(o, 1, 1).round(), o);
}

#[test]
fn lerp_midpoint_rounds_to_a_valid_cell() {
    let a = Hex::new(0, 0, 0);
    let b = Hex::new(4, -2, -2);
    let mid = a.lerp(b, 1, 2).round();
    assert_eq!(mid.q() as i16 + mid.r() as i16 + mid.s() as i16, 0);
    assert_eq!(mid, Hex::new(2, -1, -1));
}

#[test]
fn linedraw_endpoints_and_length() {
    let a = Hex::new(0, 0, 0);
    let b = Hex::new(3, -2, -1);
    let line = a.linedraw(b);
    assert_eq!(line.len(), a.distance(b) + 1);
    assert_eq!(line[0], a);
    assert_eq!(line[line.len() - 1], b);
    for w in line.windows(2) {
        assert_eq!(w[0].distance(w[1]), 1);
    }
}

#[test]
fn linedraw_straight_row() {
    let a = Hex::new(0, 0, 0);
    let b = Hex::new(3, 0, -3);
    let line = a.linedraw(b);
    assert_eq!(
        line,
        vec![
            Hex::new(0, 0, 0),
            Hex::new(1, 0, -1),
            Hex::new(2, 0, -2),
            Hex::new(3, 0, -3),
        ]
    );
}

#[test]
fn linedraw_single_cell() {
    let a = Hex::new(1, -1, 0);
    let line = a.linedraw(a);
    assert_eq!(line, vec![a]);
}

#[test]
fn offset_round_trip() {
    for &(q, r) in &[(0i8, 0i8), (3, 2), (-2, 5), (4, -3)] {
        let h = Hex::new_coord(q, r);
        let o = OffsetCoord::from_hex(h);
        assert_eq!(o.row, h.r());
        let back = o.to_hex();
        assert_eq!(back, h);
    }
}
