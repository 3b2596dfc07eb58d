//! The orbitals on offer: their quantum numbers, their names and the shape
//! that each pair of quantum numbers selects.

use vstd::prelude::*;
use crate::single::Sign;

verus! {

/// The shape of a hydrogen-like orbital, as far as the density needs it.
#[derive(Clone, Copy, Debug, PartialEq, Eq, Structural)]
pub enum Shape {
    /// 1s: a sphere.
    OneS,
    /// 2s: a sphere with one radial node.
    TwoS,
    /// 2p: two lobes along the local polar axis.
    TwoP,
    /// 3s: a sphere with two radial nodes.
    ThreeS,
    /// 3p: two lobes with one radial node.
    ThreeP,
    /// 3d with magnetic number zero: two lobes and a ring.
    ThreeDAxial,
    /// 3d with any other magnetic number: four lobes.
    ThreeDLobed,
}

/// A full turn, in thousandths of a degree.
pub const FULL_TURN: i32 = 360_000;

/// The angle in `[0, FULL_TURN)` that points the same way as `angle`. Angles
/// are counted in thousandths of a degree.
pub open spec fn wrapped(angle: int) -> int {
    angle % (FULL_TURN as int)
}

/// The quantum numbers (principal, azimuthal) that can be chosen, in the order
/// in which they are offered. The first stands for "no orbital".
pub open spec fn allowed() -> Seq<(u8, u8)> {
    seq![(0u8, 0u8), (1u8, 0u8), (2u8, 0u8), (2u8, 1u8), (3u8, 0u8), (3u8, 1u8), (3u8, 2u8)]
}

/// The name of the orbital with quantum numbers `quantum`; empty for a pair
/// that is not on offer.
pub open spec fn name_of(quantum: (u8, u8)) -> Seq<char> {
    if quantum == (0u8, 0u8) {
        "[-]"@
    } else if quantum == (1u8, 0u8) {
        "1s"@
    } else if quantum == (2u8, 0u8) {
        "2s"@
    } else if quantum == (2u8, 1u8) {
        "2p"@
    } else if quantum == (3u8, 0u8) {
        "3s"@
    } else if quantum == (3u8, 1u8) {
        "3p"@
    } else if quantum == (3u8, 2u8) {
        "3d"@
    } else {
        ""@
    }
}

/// The shape that `quantum` and `magnetic` select; `None` for every pair that
/// contributes nothing to the density. The magnetic number matters for the d
/// orbitals only.
pub open spec fn shape_of(quantum: (u8, u8), magnetic: i8) -> Option<Shape> {
    if quantum == (1u8, 0u8) {
        Some(Shape::OneS)
    } else if quantum == (2u8, 0u8) {
        Some(Shape::TwoS)
    } else if quantum == (2u8, 1u8) {
        Some(Shape::TwoP)
    } else if quantum == (3u8, 0u8) {
        Some(Shape::ThreeS)
    } else if quantum == (3u8, 1u8) {
        Some(Shape::ThreeP)
    } else if quantum == (3u8, 2u8) {
        if magnetic == 0 {
            Some(Shape::ThreeDAxial)
        } else {
            Some(Shape::ThreeDLobed)
        }
    } else {
        None
    }
}

/// The quantum numbers on offer, in the order in which they are offered.
pub fn allowed_orbitals() -> (list: Vec<(u8, u8)>)
    ensures
        list@ == allowed(),
{
    let mut list: Vec<(u8, u8)> = Vec::with_capacity(7);
    list.push((0, 0));
    list.push((1, 0));
    list.push((2, 0));
    list.push((2, 1));
    list.push((3, 0));
    list.push((3, 1));
    list.push((3, 2));
    list
}

/// The name under which the orbital with quantum numbers `quantum` is
/// offered, or the empty string if it is not on offer.
pub fn orbital_to_name(quantum: (u8, u8)) -> (name: &'static str)
    ensures
        name@ == name_of(quantum),
        name@.len() > 0 <==> allowed().contains(quantum),
{
    proof {
        reveal_strlit("[-]");
        reveal_strlit("1s");
        reveal_strlit("2s");
        reveal_strlit("2p");
        reveal_strlit("3s");
        reveal_strlit("3p");
        reveal_strlit("3d");
        reveal_strlit("");
        lemma_allowed(quantum);
    }
    let (n, l) = quantum;
    if n == 0 && l == 0 {
        "[-]"
    } else if n == 1 && l == 0 {
        "1s"
    } else if n == 2 && l == 0 {
        "2s"
    } else if n == 2 && l == 1 {
        "2p"
    } else if n == 3 && l == 0 {
        "3s"
    } else if n == 3 && l == 1 {
        "3p"
    } else if n == 3 && l == 2 {
        "3d"
    } else {
        ""
    }
}

/// The shape that `quantum` and `magnetic` select, if any.
pub fn shape(quantum: (u8, u8), magnetic: i8) -> (s: Option<Shape>)
    ensures
        s == shape_of(quantum, magnetic),
{
    let (n, l) = quantum;
    if n == 1 && l == 0 {
        Some(Shape::OneS)
    } else if n == 2 && l == 0 {
        Some(Shape::TwoS)
    } else if n == 2 && l == 1 {
        Some(Shape::TwoP)
    } else if n == 3 && l == 0 {
        Some(Shape::ThreeS)
    } else if n == 3 && l == 1 {
        Some(Shape::ThreeP)
    } else if n == 3 && l == 2 {
        if magnetic == 0 {
            Some(Shape::ThreeDAxial)
        } else {
            Some(Shape::ThreeDLobed)
        }
    } else {
        None
    }
}

/// The sign that the phase flag gives the wavefunction: positive for `true`.
pub fn phase_sign(phase: bool) -> (s: Sign)
    ensures
        s == (if phase { Sign::Positive } else { Sign::Negative }),
{
    if phase {
        Sign::Positive
    } else {
        Sign::Negative
    }
}

/// Brings an Euler angle, in thousandths of a degree, into `[0, FULL_TURN)`.
pub fn wrap_angle(angle: i32) -> (turned: i32)
    ensures
        turned == wrapped(angle as int),
        0 <= turned < FULL_TURN,
{
    let rest = angle % FULL_TURN;
    if rest < 0 {
        rest + FULL_TURN
    } else {
        rest
    }
}

/// Wrapping an angle that has been wrapped changes nothing.
pub proof fn law_wrap_idempotent(angle: int)
    ensures
        0 <= wrapped(angle) < FULL_TURN,
        wrapped(wrapped(angle)) == wrapped(angle),
        0 <= angle < FULL_TURN ==> wrapped(angle) == angle,
{
}

/// Membership in `allowed()`, spelled out.
pub proof fn lemma_allowed(quantum: (u8, u8))
    ensures
        allowed().contains(quantum) <==> (quantum == (0u8, 0u8) || quantum == (1u8, 0u8)
            || quantum == (2u8, 0u8) || quantum == (2u8, 1u8) || quantum == (3u8, 0u8)
            || quantum == (3u8, 1u8) || quantum == (3u8, 2u8)),
{
    let list = allowed();
    assert(list[0] == (0u8, 0u8));
    assert(list[1] == (1u8, 0u8));
    assert(list[2] == (2u8, 0u8));
    assert(list[3] == (2u8, 1u8));
    assert(list[4] == (3u8, 0u8));
    assert(list[5] == (3u8, 1u8));
    assert(list[6] == (3u8, 2u8));
}

} // verus!
