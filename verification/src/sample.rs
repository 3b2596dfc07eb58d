//! Readings of the density field, and what the scanner makes of one.

use vstd::prelude::*;
use crate::instance::{faces, instantiate, shown, Instance};
use crate::single::{
    abs, at_most, is_number, le, less, lt, magnitude, number, sign, signum, Sign, HALF, MINUS_ONE,
    ONE, SIGN_BIT,
};
use crate::voxel::valid_resolution;

verus! {

/// What is known of one lattice point once the field has been evaluated
/// there. Every number is a single-precision bit pattern.
#[derive(Clone, Copy, Debug, PartialEq, Eq)]
pub struct Sample {
    /// Probability density at the point.
    pub density: u32,
    /// Sign of the summed amplitude at the point.
    pub sign: u32,
    /// The viewer's position minus the point's, along x, y and z, in voxel
    /// widths.
    pub offset: (u32, u32, u32),
}

/// Magnitude of the summed amplitude at or below which the density counts as
/// nothing, as the bit pattern of one hundredth. Hand-tuned; it removes the
/// haze far from every nucleus.
pub const CUTOFF: u32 = 0x3C23_D70A;

/// The density that is reported where the summed amplitude is `amplitude`
/// and its square, scaled, is `density`: nothing at or below the cutoff.
pub open spec fn settled(amplitude: u32, density: u32) -> u32 {
    if at_most(magnitude(amplitude), CUTOFF) {
        0
    } else {
        density
    }
}

/// The sign of the summed amplitude as a colour: one for a positive lobe,
/// minus one for a negative lobe, zero where the amplitude is zero or not a
/// number.
pub open spec fn lobe(amplitude: u32) -> u32 {
    if !is_number(amplitude) || magnitude(amplitude) == 0 {
        0
    } else if amplitude >= SIGN_BIT {
        MINUS_ONE
    } else {
        ONE
    }
}

/// A density as an alpha value: a number is capped at one, anything else
/// counts as zero.
pub open spec fn clamped(density: u32) -> u32 {
    if at_most(density, ONE) {
        density
    } else if less(ONE, density) {
        ONE
    } else {
        0
    }
}

/// Whether a point of this density is drawn: its alpha exceeds the threshold.
pub open spec fn accepted(density: u32, threshold: u32) -> bool {
    less(threshold, clamped(density))
}

/// The side of the voxel that looks at the viewer, along an axis on which
/// the viewer stands at `offset` from the voxel.
pub open spec fn toward(offset: u32) -> Sign {
    signum(offset)
}

/// Whether the viewer stands within half a voxel width of the voxel along
/// an axis; the face of that axis would cut through the viewer.
pub open spec fn too_close(offset: u32) -> bool {
    less(magnitude(offset), HALF)
}

/// The sides of the voxel that look at the viewer.
pub open spec fn bias_of(offset: (u32, u32, u32)) -> (Sign, Sign, Sign) {
    (toward(offset.0), toward(offset.1), toward(offset.2))
}

/// The axes whose face is left out.
pub open spec fn ignore_of(offset: (u32, u32, u32)) -> (bool, bool, bool) {
    (too_close(offset.0), too_close(offset.1), too_close(offset.2))
}

/// The faces that the lattice point `point` contributes: none unless its
/// density is accepted, else those that look at the viewer.
pub open spec fn voxel_faces(
    resolution: i16,
    point: (i16, i16, i16),
    sample: Sample,
    threshold: u32,
) -> Seq<Instance> {
    if accepted(sample.density, threshold) {
        faces(
            resolution,
            point.0,
            point.1,
            point.2,
            clamped(sample.density),
            sample.sign,
            bias_of(sample.offset),
            ignore_of(sample.offset),
        )
    } else {
        Seq::empty()
    }
}

/// Makes the reading of a lattice point out of the summed amplitude there,
/// its scaled square, and the viewer's offset: the density is cut off where
/// the amplitude is faint, and the sign is that of the amplitude.
pub fn settle(amplitude: u32, density: u32, offset: (u32, u32, u32)) -> (sample: Sample)
    ensures
        sample.density == settled(amplitude, density),
        sample.sign == lobe(amplitude),
        sample.offset == offset,
{
    let faint = le(abs(amplitude), CUTOFF);
    let sign = if !number(amplitude) || abs(amplitude) == 0 {
        0
    } else if amplitude >= SIGN_BIT {
        MINUS_ONE
    } else {
        ONE
    };
    Sample { density: if faint { 0 } else { density }, sign, offset }
}

/// Caps a density at one; what is not a number becomes zero.
pub fn clamp(density: u32) -> (alpha: u32)
    ensures
        alpha == clamped(density),
        at_most(alpha, ONE),
{
    if le(density, ONE) {
        density
    } else if lt(ONE, density) {
        ONE
    } else {
        0
    }
}

/// Whether a point of this density is drawn.
pub fn accepts(density: u32, threshold: u32) -> (drawn: bool)
    ensures
        drawn == accepted(density, threshold),
{
    lt(threshold, clamp(density))
}

/// The side of the voxel that looks at the viewer, for each axis.
pub fn bias(offset: (u32, u32, u32)) -> (sides: (Sign, Sign, Sign))
    ensures
        sides == bias_of(offset),
{
    (sign(offset.0), sign(offset.1), sign(offset.2))
}

/// For each axis, whether its face is left out.
pub fn ignore(offset: (u32, u32, u32)) -> (flags: (bool, bool, bool))
    ensures
        flags == ignore_of(offset),
{
    (lt(abs(offset.0), HALF), lt(abs(offset.1), HALF), lt(abs(offset.2), HALF))
}

/// The faces that one lattice point contributes, given its reading.
pub fn emit(resolution: i16, point: (i16, i16, i16), sample: &Sample, threshold: u32) -> (quads:
    Vec<Instance>)
    requires
        valid_resolution(resolution as int),
    ensures
        quads@ == voxel_faces(resolution, point, *sample, threshold),
        quads.len() == (if accepted(sample.density, threshold) {
            shown(ignore_of(sample.offset))
        } else {
            0
        }),
        quads.len() <= 3,
{
    if accepts(sample.density, threshold) {
        instantiate(
            resolution,
            point.0,
            point.1,
            point.2,
            clamp(sample.density),
            sample.sign,
            bias(sample.offset),
            ignore(sample.offset),
        )
    } else {
        Vec::new()
    }
}

/// Raising the threshold never lets in a density that the lower threshold
/// kept out.
pub proof fn lemma_threshold_monotone(density: u32, low: u32, high: u32)
    requires
        at_most(low, high),
    ensures
        accepted(density, high) ==> accepted(density, low),
{
}

} // verus!
