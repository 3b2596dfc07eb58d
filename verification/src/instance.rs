//! Quad faces: what the scanner hands to the renderer for each drawn voxel.
//!
//! Every number here is an integer. Positions are counted in half voxel
//! widths, and colour channels are carried as single-precision bit patterns,
//! so that a face is plain data that compares bit for bit.

use vstd::prelude::*;
use crate::single::{negated, neg, Sign};
use crate::voxel::valid_resolution;

verus! {

/// Bit pattern of the green channel that every face shares (seven tenths).
pub const GREEN: u32 = 0x3F33_3333;

/// A world axis; for a face, the axis its normal points along.
#[derive(Clone, Copy, Debug, PartialEq, Eq, Structural)]
pub enum Axis {
    X,
    Y,
    Z,
}

/// One quad face of a voxel.
#[derive(Clone, Copy, Debug, PartialEq, Eq)]
pub struct Instance {
    /// Centre of the face in half voxel widths, measured from the corner of
    /// the voxel at the lattice origin. Along each axis the world coordinate is
    /// `position / (2 * resolution) - 1/2`.
    pub position: (i32, i32, i32),
    /// Lattice points per world unit that `position` is counted in.
    pub resolution: i16,
    /// The axis along which the face's normal points.
    pub rotation: Axis,
    /// Red, green, blue and alpha, each a single-precision bit pattern.
    pub color: (u32, u32, u32, u32),
}

/// The colour of a face: red carries the lobe's sign `s`, blue its negation,
/// green is fixed, and alpha is the density `a`.
pub open spec fn tint(s: u32, a: u32) -> (u32, u32, u32, u32) {
    (s, GREEN, negated(s), a)
}

/// Half-width coordinate of a voxel's centre along one axis.
pub open spec fn centre(index: int) -> int {
    2 * index + 1
}

/// The face of voxel `(x, y, z)` whose normal points along `axis`, pushed half
/// a voxel width toward `toward` along that axis.
pub open spec fn face(
    resolution: i16,
    x: i16,
    y: i16,
    z: i16,
    a: u32,
    s: u32,
    axis: Axis,
    toward: Sign,
) -> Instance {
    Instance {
        position: match axis {
            Axis::X => (
                (centre(x as int) + toward.value()) as i32,
                centre(y as int) as i32,
                centre(z as int) as i32,
            ),
            Axis::Y => (
                centre(x as int) as i32,
                (centre(y as int) + toward.value()) as i32,
                centre(z as int) as i32,
            ),
            Axis::Z => (
                centre(x as int) as i32,
                centre(y as int) as i32,
                (centre(z as int) + toward.value()) as i32,
            ),
        },
        resolution,
        rotation: axis,
        color: tint(s, a),
    }
}

/// The faces of one axis: none when the axis is ignored, else one.
pub open spec fn axis_faces(
    resolution: i16,
    x: i16,
    y: i16,
    z: i16,
    a: u32,
    s: u32,
    axis: Axis,
    toward: Sign,
    ignored: bool,
) -> Seq<Instance> {
    if ignored {
        Seq::empty()
    } else {
        seq![face(resolution, x, y, z, a, s, axis, toward)]
    }
}

/// The faces of voxel `(x, y, z)`: for each axis that is not ignored one
/// face, in the order x, y, z.
pub open spec fn faces(
    resolution: i16,
    x: i16,
    y: i16,
    z: i16,
    a: u32,
    s: u32,
    bias: (Sign, Sign, Sign),
    ignore: (bool, bool, bool),
) -> Seq<Instance> {
    axis_faces(resolution, x, y, z, a, s, Axis::X, bias.0, ignore.0)
        + axis_faces(resolution, x, y, z, a, s, Axis::Y, bias.1, ignore.1)
        + axis_faces(resolution, x, y, z, a, s, Axis::Z, bias.2, ignore.2)
}

/// Number of axes that are not ignored.
pub open spec fn shown(ignore: (bool, bool, bool)) -> nat {
    ((if ignore.0 { 0nat } else { 1nat }) + (if ignore.1 { 0nat } else { 1nat })
        + (if ignore.2 { 0nat } else { 1nat })) as nat
}

fn make_face(
    resolution: i16,
    x: i16,
    y: i16,
    z: i16,
    a: u32,
    s: u32,
    axis: Axis,
    toward: Sign,
) -> (f: Instance)
    ensures
        f == face(resolution, x, y, z, a, s, axis, toward),
{
    let cx: i32 = 2 * (x as i32) + 1;
    let cy: i32 = 2 * (y as i32) + 1;
    let cz: i32 = 2 * (z as i32) + 1;
    let push: i32 = toward.number() as i32;
    let position = match axis {
        Axis::X => (cx + push, cy, cz),
        Axis::Y => (cx, cy + push, cz),
        Axis::Z => (cx, cy, cz + push),
    };
    Instance {
        position,
        resolution,
        rotation: axis,
        color: (s, GREEN, neg(s), a),
    }
}

/// Builds the faces of the voxel at lattice point `(x, y, z)` that look
/// toward the viewer: for each axis whose `ignore` flag is clear, one face
/// with its normal along that axis, offset by half a voxel width to the side
/// `bias` names, with alpha `a` and the colours of sign `s`.
pub fn instantiate(
    resolution: i16,
    x: i16,
    y: i16,
    z: i16,
    a: u32,
    s: u32,
    bias: (Sign, Sign, Sign),
    ignore: (bool, bool, bool),
) -> (voxels: Vec<Instance>)
    requires
        valid_resolution(resolution as int),
    ensures
        voxels@ == faces(resolution, x, y, z, a, s, bias, ignore),
        voxels.len() == shown(ignore),
        voxels.len() <= 3,
        !ignore.0 && !ignore.1 && !ignore.2 ==> voxels.len() == 3,
{
    let mut voxels: Vec<Instance> = Vec::with_capacity(3);
    if !ignore.0 {
        voxels.push(make_face(resolution, x, y, z, a, s, Axis::X, bias.0));
    }
    if !ignore.1 {
        voxels.push(make_face(resolution, x, y, z, a, s, Axis::Y, bias.1));
    }
    if !ignore.2 {
        voxels.push(make_face(resolution, x, y, z, a, s, Axis::Z, bias.2));
    }
    voxels
}

} // verus!
