//! Where the viewer stands, reduced to what the scan order depends on.
//!
//! The scanner walks the lattice along a major axis and two minor axes. Which
//! world axis plays which part, and in which direction each is walked, follows
//! from where the viewer stands relative to the point looked at.

use vstd::prelude::*;
use crate::single::{abs, less, lt, magnitude, sign, signum, Sign};

verus! {

/// The world axis that the major scan axis runs along.
#[derive(Clone, Copy, Debug, PartialEq, Eq, Structural)]
pub enum Sweep {
    /// The viewer is further from the target along x than along z.
    AlongX,
    /// The viewer is further from the target along z than along x.
    AlongZ,
    /// Neither distance is the larger one.
    Neither,
}

/// What the scan order takes from the viewer: the sweep axis, and on which
/// side of the target the viewer stands along each world axis.
#[derive(Clone, Copy, Debug, PartialEq, Eq, Structural)]
pub struct Vantage {
    pub sweep: Sweep,
    pub x: Sign,
    pub y: Sign,
    pub z: Sign,
}

/// `index` walked in the direction `side`: kept, negated, or collapsed to zero.
pub open spec fn turned(side: Sign, index: int) -> int {
    match side {
        Sign::Positive => index,
        Sign::Negative => -index,
        Sign::Zero => 0,
    }
}

impl Vantage {
    /// The vantage of a viewer who stands at offset `(dx, dy, dz)` from the
    /// target, each a single-precision bit pattern.
    pub open spec fn facing(dx: u32, dy: u32, dz: u32) -> Vantage {
        Vantage {
            sweep: if less(magnitude(dz), magnitude(dx)) {
                Sweep::AlongX
            } else if less(magnitude(dx), magnitude(dz)) {
                Sweep::AlongZ
            } else {
                Sweep::Neither
            },
            x: signum(dx),
            y: signum(dy),
            z: signum(dz),
        }
    }

    /// The world lattice point that scan position `(a, b, c)` stands for,
    /// `a` being the major index. The major axis runs along the sweep axis and
    /// starts on the viewer's side, so that a rising major index leads away
    /// from the viewer. The second minor axis is always the vertical one.
    pub open spec fn place(self, a: int, b: int, c: int) -> (int, int, int) {
        let y = turned(self.y, c);
        match self.sweep {
            Sweep::AlongX => (-turned(self.x, a), y, -turned(self.z, b)),
            Sweep::AlongZ => (b, y, -turned(self.z, a)),
            Sweep::Neither => (0, y, 0),
        }
    }

    /// `place` on machine integers.
    pub open spec fn point(self, a: i16, b: i16, c: i16) -> (i16, i16, i16) {
        let p = self.place(a as int, b as int, c as int);
        (p.0 as i16, p.1 as i16, p.2 as i16)
    }

    /// Reads the vantage off the viewer's offset from the target.
    pub fn new(dx: u32, dy: u32, dz: u32) -> (vantage: Vantage)
        ensures
            vantage == Vantage::facing(dx, dy, dz),
    {
        let across = abs(dx);
        let along = abs(dz);
        let sweep = if lt(along, across) {
            Sweep::AlongX
        } else if lt(across, along) {
            Sweep::AlongZ
        } else {
            Sweep::Neither
        };
        Vantage { sweep, x: sign(dx), y: sign(dy), z: sign(dz) }
    }

    /// The world lattice point that scan position `(a, b, c)` stands for.
    pub fn remap(&self, a: i16, b: i16, c: i16) -> (p: (i16, i16, i16))
        requires
            a > i16::MIN,
            b > i16::MIN,
            c > i16::MIN,
        ensures
            p == self.point(a, b, c),
            (p.0 as int, p.1 as int, p.2 as int) == self.place(a as int, b as int, c as int),
    {
        let y = turn(self.y, c);
        match self.sweep {
            Sweep::AlongX => (-turn(self.x, a), y, -turn(self.z, b)),
            Sweep::AlongZ => (b, y, -turn(self.z, a)),
            Sweep::Neither => (0, y, 0),
        }
    }
}

/// `index` walked in the direction `side`.
pub fn turn(side: Sign, index: i16) -> (t: i16)
    requires
        index > i16::MIN,
    ensures
        t == turned(side, index as int),
        t > i16::MIN,
{
    match side {
        Sign::Positive => index,
        Sign::Negative => -index,
        Sign::Zero => 0,
    }
}

/// Along the sweep axis, each step of the major index is one lattice step
/// away from the side on which the viewer stands.
pub proof fn lemma_sweep_leads_away(vantage: Vantage, a: int, b: int, c: int)
    ensures
        vantage.sweep == Sweep::AlongX ==> vantage.place(a + 1, b, c).0 - vantage.place(a, b, c).0
            == -vantage.x.value(),
        vantage.sweep == Sweep::AlongZ ==> vantage.place(a + 1, b, c).2 - vantage.place(a, b, c).2
            == -vantage.z.value(),
        vantage.place(a + 1, b, c).1 == vantage.place(a, b, c).1,
{
}

/// A scan position inside a cube around the origin stands for a world point
/// inside the same cube.
pub proof fn lemma_place_stays_inside(vantage: Vantage, a: int, b: int, c: int, limit: int)
    requires
        -limit <= a <= limit,
        -limit <= b <= limit,
        -limit <= c <= limit,
    ensures
        -limit <= vantage.place(a, b, c).0 <= limit,
        -limit <= vantage.place(a, b, c).1 <= limit,
        -limit <= vantage.place(a, b, c).2 <= limit,
{
}

} // verus!
