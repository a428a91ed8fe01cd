//! Combat dice: the five face kinds and the uniform draw.
//!
//! A die has six sides carrying five face kinds; the infantry face
//! appears twice, so a uniform draw over side indices `0..6` gives
//! infantry double the probability of each other face.

use vstd::prelude::*;

verus! {

/// One face of a combat die.
#[derive(Clone, Copy, Debug, PartialEq, Eq, Structural, Hash)]
pub enum Dice {
    Infantry,
    Armor,
    Grenade,
    Flag,
    Star,
}

/// The face printed on side `n` of the die: one each of star, flag,
/// grenade and armor, and infantry on the remaining two sides.
pub open spec fn face_of_spec(n: int) -> Dice {
    if n == 0 {
        Dice::Star
    } else if n == 1 {
        Dice::Flag
    } else if n == 2 {
        Dice::Grenade
    } else if n == 3 {
        Dice::Armor
    } else {
        Dice::Infantry
    }
}

/// The face printed on side `n` of the die.
pub fn face_of(n: u32) -> (d: Dice)
    requires
        n < 6,
    ensures
        d == face_of_spec(n as int),
{
    if n == 0 {
        Dice::Star
    } else if n == 1 {
        Dice::Flag
    } else if n == 2 {
        Dice::Grenade
    } else if n == 3 {
        Dice::Armor
    } else {
        Dice::Infantry
    }
}

/// Relies on rand::random_range over `0..bound`: a uniformly drawn value
/// of the non-empty range, so strictly below the bound.
#[verifier::external_body]
pub(crate) fn random_below(bound: usize) -> (r: usize)
    requires
        bound >= 1,
    ensures
        r < bound,
{
    rand::random_range(0..bound)
}

/// Draw one die face uniformly over the six sides.
pub fn roll_face() -> (d: Dice) {
    let n = random_below(6);
    face_of(n as u32)
}

/// Draw `n` die faces, each uniformly over the six sides.
pub fn roll_faces(n: usize) -> (faces: Vec<Dice>)
    ensures
        faces@.len() == n,
{
    let mut faces: Vec<Dice> = Vec::new();
    let mut i: usize = 0;
    while i < n
        invariant
            i <= n,
            faces@.len() == i,
        decreases n - i,
    {
        faces.push(roll_face());
        i = i + 1;
    }
    faces
}

} // verus!
