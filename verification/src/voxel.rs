//! The sampled volume: its extent, the lattice laid over it, and the density
//! threshold above which a lattice point is drawn.

use vstd::prelude::*;

verus! {

/// Half-width of the sampled volume, in world units.
pub const LENGTH: i16 = 7;

/// Density above which a voxel is drawn, as the bit pattern of the
/// single-precision value 3e-4. Hand-tuned.
pub const THRESHOLD: u32 = 0x399D_4952;

/// Fewest lattice points per world unit.
pub const MIN_RESOLUTION: i16 = 2;

/// Most lattice points per world unit.
pub const MAX_RESOLUTION: i16 = 11;

/// A resolution the scanner works with.
pub open spec fn valid_resolution(resolution: int) -> bool {
    MIN_RESOLUTION <= resolution <= MAX_RESOLUTION
}

/// The largest lattice index along every axis; the smallest is its negative.
pub open spec fn bound(resolution: int) -> int {
    (LENGTH + 1) * resolution
}

/// Number of lattice indices along one axis.
pub open spec fn side(resolution: int) -> int {
    2 * bound(resolution) + 1
}

/// A lattice index that lies inside the volume.
pub open spec fn in_range(resolution: int, index: int) -> bool {
    -bound(resolution) <= index <= bound(resolution)
}

/// A lattice point all of whose coordinates lie inside the volume.
pub open spec fn in_volume(resolution: int, point: (i16, i16, i16)) -> bool {
    &&& in_range(resolution, point.0 as int)
    &&& in_range(resolution, point.1 as int)
    &&& in_range(resolution, point.2 as int)
}

/// Whether `resolution` is one the scanner works with.
pub fn is_valid_resolution(resolution: i16) -> (ok: bool)
    ensures
        ok == valid_resolution(resolution as int),
{
    MIN_RESOLUTION <= resolution && resolution <= MAX_RESOLUTION
}

/// The resolution nearest to `requested` that the scanner works with.
pub fn clamp_resolution(requested: i32) -> (resolution: i16)
    ensures
        valid_resolution(resolution as int),
        valid_resolution(requested as int) ==> resolution == requested,
        requested < MIN_RESOLUTION ==> resolution == MIN_RESOLUTION,
        requested > MAX_RESOLUTION ==> resolution == MAX_RESOLUTION,
{
    if requested > MAX_RESOLUTION as i32 {
        MAX_RESOLUTION
    } else if requested < MIN_RESOLUTION as i32 {
        MIN_RESOLUTION
    } else {
        requested as i16
    }
}

/// The largest lattice index at `resolution`.
pub fn lattice_bound(resolution: i16) -> (b: i16)
    requires
        valid_resolution(resolution as int),
    ensures
        b == bound(resolution as int),
        16 <= b <= 88,
{
    let per_unit: i16 = LENGTH + 1;
    assert(per_unit * resolution == 8 * resolution) by (nonlinear_arith)
        requires
            per_unit == 8,
    ;
    per_unit * resolution
}

} // verus!
