//! What holds of a whole pass, however it is cut into steps.
//!
//! A field is a density that gives one reading at each lattice point. When the
//! probe handed to the scanner follows such a field, the faces of a stretch of
//! slices are a function of the field, the vantage, the resolution and the
//! threshold alone: neither the clock nor the number of steps has a say.

use vstd::prelude::*;
use crate::adjacency::{ascending, Position};
use crate::function::{
    advanced, emitted, probed, run_probed, run_quads, slice_quads, solid_among, world,
    LatticeCursor,
};
use crate::instance::Instance;
use crate::lattice::{
    in_slice, lemma_slice_covers, lemma_walk_covers, lemma_walk_len, lemma_walk_split, slice, walk,
};
use crate::sample::{lemma_threshold_monotone, Sample};
use crate::single::at_most;
use crate::vantage::{lemma_place_stays_inside, Vantage};
use crate::voxel::{bound, in_range, in_volume, side, valid_resolution};

verus! {

/// A density field: one reading for each world lattice point.
pub type Field = spec_fn((i16, i16, i16)) -> Sample;

/// The readings of `field` at `positions`, seen from `vantage`.
pub open spec fn answers(field: Field, vantage: Vantage, positions: Seq<Position>) -> Seq<Sample> {
    Seq::new(positions.len(), |i: int| field(world(vantage, positions[i])))
}

/// Whatever `probe` answers at a point of the volume is what `field` holds
/// there.
pub open spec fn follows<P: Fn(i16, i16, i16) -> Sample>(
    probe: P,
    field: Field,
    resolution: int,
) -> bool {
    forall|x: i16, y: i16, z: i16, s: Sample|
        in_volume(resolution, (x, y, z)) && #[trigger] call_ensures(probe, (x, y, z), s) ==> s
            == field((x, y, z))
}

/// The faces of the slices from `from` up to but excluding `to`, slice after
/// slice, when the readings are those of `field`.
pub open spec fn slab(
    vantage: Vantage,
    resolution: i16,
    threshold: u32,
    field: Field,
    from: int,
    to: int,
) -> Seq<Instance>
    decreases to - from,
{
    if to <= from {
        Seq::empty()
    } else {
        slab(vantage, resolution, threshold, field, from, to - 1) + slice_quads(
            vantage,
            resolution,
            to - 1,
            answers(field, vantage, slice(resolution as int, to - 1)),
            threshold,
        )
    }
}

/// Cursor values in the order in which a pass goes through them.
pub open spec fn in_order(cuts: Seq<int>) -> bool {
    &&& cuts.len() >= 1
    &&& forall|j: int, k: int| 0 <= j <= k < cuts.len() ==> cuts[j] <= cuts[k]
}

/// The positions that the first `n` steps visit, one after another, when
/// step `k` takes the cursor from `cuts[k]` to `cuts[k + 1]`.
pub open spec fn visited(resolution: int, cuts: Seq<int>, n: int) -> Seq<Position>
    decreases n,
{
    if n <= 0 {
        Seq::empty()
    } else {
        visited(resolution, cuts, n - 1) + walk(resolution, cuts[n - 1], cuts[n])
    }
}

/// Two stretches that meet give the faces of the stretch they make up.
pub proof fn lemma_slab_split(
    vantage: Vantage,
    resolution: i16,
    threshold: u32,
    field: Field,
    from: int,
    mid: int,
    to: int,
)
    requires
        from <= mid <= to,
    ensures
        slab(vantage, resolution, threshold, field, from, mid) + slab(
            vantage,
            resolution,
            threshold,
            field,
            mid,
            to,
        ) == slab(vantage, resolution, threshold, field, from, to),
    decreases to - mid,
{
    let head = slab(vantage, resolution, threshold, field, from, mid);
    if to > mid {
        lemma_slab_split(vantage, resolution, threshold, field, from, mid, to - 1);
        let last = slice_quads(
            vantage,
            resolution,
            to - 1,
            answers(field, vantage, slice(resolution as int, to - 1)),
            threshold,
        );
        let middle = slab(vantage, resolution, threshold, field, mid, to - 1);
        assert(head + (middle + last) =~= (head + middle) + last);
    } else {
        assert(head + slab(vantage, resolution, threshold, field, mid, to) =~= head);
    }
}

/// However a stretch of slices is cut into steps, the steps visit the
/// positions of the stretch, in the order of one uninterrupted walk.
pub proof fn lemma_visited(resolution: int, cuts: Seq<int>, n: int)
    requires
        in_order(cuts),
        0 <= n < cuts.len(),
    ensures
        visited(resolution, cuts, n) == walk(resolution, cuts[0], cuts[n]),
    decreases n,
{
    if n > 0 {
        lemma_visited(resolution, cuts, n - 1);
        lemma_walk_split(resolution, cuts[0], cuts[n - 1], cuts[n]);
    } else {
        assert(visited(resolution, cuts, n) =~= walk(resolution, cuts[0], cuts[n]));
    }
}

/// Coverage without overlap: the steps of a full pass, however many they
/// are, visit every position of the volume exactly once. The positions come
/// in ascending order, so none comes twice; every major index from the lower
/// bound to the upper is among them, and no other.
pub proof fn law_pass_covers(resolution: int, cuts: Seq<int>)
    requires
        valid_resolution(resolution),
        in_order(cuts),
        cuts[0] == -bound(resolution),
        cuts.last() == bound(resolution) + 1,
    ensures
        ascending(visited(resolution, cuts, cuts.len() - 1)),
        visited(resolution, cuts, cuts.len() - 1).len() == side(resolution) * (side(resolution)
            * side(resolution)),
        forall|p: Position| #[trigger]
            visited(resolution, cuts, cuts.len() - 1).contains(p) <==> (in_range(
                resolution,
                p.0 as int,
            ) && in_range(resolution, p.1 as int) && in_range(resolution, p.2 as int)),
{
    let m = bound(resolution);
    lemma_visited(resolution, cuts, cuts.len() - 1);
    lemma_walk_covers(resolution, -m, m + 1);
    lemma_walk_len(resolution, -m, m + 1);
}

/// What a probe that follows a field answers along a slice is what the
/// field holds there.
pub proof fn lemma_answers<P: Fn(i16, i16, i16) -> Sample>(
    probe: P,
    field: Field,
    vantage: Vantage,
    resolution: i16,
    a: int,
    readings: Seq<Sample>,
)
    requires
        valid_resolution(resolution as int),
        in_range(resolution as int, a),
        follows(probe, field, resolution as int),
        probed(probe, vantage, slice(resolution as int, a), readings),
    ensures
        readings == answers(field, vantage, slice(resolution as int, a)),
{
    let positions = slice(resolution as int, a);
    let m = bound(resolution as int);
    lemma_slice_covers(resolution as int, a);
    assert forall|i: int| 0 <= i < positions.len() implies readings[i] == field(
        world(vantage, positions[i]),
    ) by {
        let p = positions[i];
        assert(positions.contains(p));
        assert(in_slice(resolution as int, a, p));
        lemma_place_stays_inside(vantage, p.0 as int, p.1 as int, p.2 as int, m);
        let w = world(vantage, p);
        assert(in_volume(resolution as int, (w.0, w.1, w.2)));
        assert(call_ensures(probe, (w.0, w.1, w.2), readings[i]));
    }
    assert(readings =~= answers(field, vantage, positions));
}

/// The faces of a step whose probe follows a field are those of the field,
/// for the slices that the step went over.
pub proof fn lemma_step_follows_field<P: Fn(i16, i16, i16) -> Sample>(
    probe: P,
    field: Field,
    vantage: Vantage,
    resolution: i16,
    threshold: u32,
    from: int,
    after: LatticeCursor,
    quads: Seq<Instance>,
)
    requires
        valid_resolution(resolution as int),
        -bound(resolution as int) <= from,
        follows(probe, field, resolution as int),
        advanced(probe, vantage, resolution, threshold, from, after, quads),
    ensures
        quads == slab(vantage, resolution, threshold, field, from, after.next()),
{
    let readings = choose|readings: Seq<Seq<Sample>>|
        {
            &&& readings.len() == after.next() - from
            &&& #[trigger] run_probed(probe, vantage, resolution, from, readings)
            &&& quads == run_quads(
                vantage,
                resolution,
                from,
                readings,
                threshold,
                readings.len() as int,
            )
        };
    lemma_run_follows_field(
        probe,
        field,
        vantage,
        resolution,
        threshold,
        from,
        readings,
        readings.len() as int,
    );
}

/// The faces of the first `n` slices of a run whose probe follows a field are
/// those of the field.
proof fn lemma_run_follows_field<P: Fn(i16, i16, i16) -> Sample>(
    probe: P,
    field: Field,
    vantage: Vantage,
    resolution: i16,
    threshold: u32,
    from: int,
    readings: Seq<Seq<Sample>>,
    n: int,
)
    requires
        valid_resolution(resolution as int),
        -bound(resolution as int) <= from,
        from + readings.len() <= bound(resolution as int) + 1,
        0 <= n <= readings.len(),
        follows(probe, field, resolution as int),
        run_probed(probe, vantage, resolution, from, readings),
    ensures
        run_quads(vantage, resolution, from, readings, threshold, n) == slab(
            vantage,
            resolution,
            threshold,
            field,
            from,
            from + n,
        ),
    decreases n,
{
    if n > 0 {
        lemma_run_follows_field(probe, field, vantage, resolution, threshold, from, readings, n - 1);
        assert(probed(probe, vantage, slice(resolution as int, from + (n - 1)), readings[n - 1]));
        lemma_answers(probe, field, vantage, resolution, from + n - 1, readings[n - 1]);
    }
}

/// What the first `n` steps hand back, laid end to end.
pub open spec fn joined(quads: Seq<Seq<Instance>>, n: int) -> Seq<Instance>
    decreases n,
{
    if n <= 0 {
        Seq::empty()
    } else {
        joined(quads, n - 1) + quads[n - 1]
    }
}

/// `afters` and `quads` are what a run of steps leaves behind and hands back,
/// one entry for each step, when the first step takes up at slice `from`
/// and every later one where the step before it left the cursor.
pub open spec fn stepwise<P: Fn(i16, i16, i16) -> Sample>(
    probe: P,
    vantage: Vantage,
    resolution: i16,
    threshold: u32,
    from: int,
    afters: Seq<LatticeCursor>,
    quads: Seq<Seq<Instance>>,
) -> bool {
    &&& quads.len() == afters.len()
    &&& forall|k: int|
        0 <= k < afters.len() ==> advanced(
            probe,
            vantage,
            resolution,
            threshold,
            if k == 0 {
                from
            } else {
                afters[k - 1].next()
            },
            #[trigger] afters[k],
            quads[k],
        )
}

/// The cursor values that a run of steps goes through: where the first step
/// took up, then where each step left the cursor.
pub open spec fn cuts_of(from: int, afters: Seq<LatticeCursor>) -> Seq<int> {
    Seq::new(
        afters.len() + 1,
        |k: int|
            if k == 0 {
                from
            } else {
                afters[k - 1].next()
            },
    )
}

/// The cursor never goes back: the values that a run of steps goes through
/// are in order, so `law_pass_covers` speaks of every run that starts at the
/// lower bound and ends with a complete cursor.
pub proof fn lemma_steps_in_order<P: Fn(i16, i16, i16) -> Sample>(
    probe: P,
    vantage: Vantage,
    resolution: i16,
    threshold: u32,
    from: int,
    afters: Seq<LatticeCursor>,
    quads: Seq<Seq<Instance>>,
)
    requires
        stepwise(probe, vantage, resolution, threshold, from, afters, quads),
    ensures
        in_order(cuts_of(from, afters)),
        cuts_of(from, afters)[0] == from,
        afters.len() > 0 ==> cuts_of(from, afters).last() == afters.last().next(),
{
    let cuts = cuts_of(from, afters);
    assert forall|j: int, k: int| 0 <= j <= k < cuts.len() implies cuts[j] <= cuts[k] by {
        lemma_steps_rise(probe, vantage, resolution, threshold, from, afters, quads, j, k);
    }
}

/// Between any two steps of a run the cursor has not gone back.
proof fn lemma_steps_rise<P: Fn(i16, i16, i16) -> Sample>(
    probe: P,
    vantage: Vantage,
    resolution: i16,
    threshold: u32,
    from: int,
    afters: Seq<LatticeCursor>,
    quads: Seq<Seq<Instance>>,
    j: int,
    k: int,
)
    requires
        stepwise(probe, vantage, resolution, threshold, from, afters, quads),
        0 <= j <= k <= afters.len(),
    ensures
        cuts_of(from, afters)[j] <= cuts_of(from, afters)[k],
    decreases k - j,
{
    if j < k {
        lemma_steps_rise(probe, vantage, resolution, threshold, from, afters, quads, j, k - 1);
        assert(advanced(
            probe,
            vantage,
            resolution,
            threshold,
            cuts_of(from, afters)[k - 1],
            afters[k - 1],
            quads[k - 1],
        ));
    }
}

/// Budget invariance: whatever the steps of a run were, as long as the probe
/// follows one field, their faces laid end to end are the faces of the
/// stretch from where the first step took up to where the last left the
/// cursor. For a run that starts at the lower bound and ends with a complete
/// cursor these are the faces of the whole volume.
pub proof fn law_steps_make_the_pass<P: Fn(i16, i16, i16) -> Sample>(
    probe: P,
    field: Field,
    vantage: Vantage,
    resolution: i16,
    threshold: u32,
    from: int,
    afters: Seq<LatticeCursor>,
    quads: Seq<Seq<Instance>>,
    n: int,
)
    requires
        valid_resolution(resolution as int),
        -bound(resolution as int) <= from,
        follows(probe, field, resolution as int),
        stepwise(probe, vantage, resolution, threshold, from, afters, quads),
        0 <= n <= afters.len(),
    ensures
        n == 0 ==> joined(quads, n) == Seq::<Instance>::empty(),
        n > 0 ==> from <= afters[n - 1].next() && joined(quads, n) == slab(
            vantage,
            resolution,
            threshold,
            field,
            from,
            afters[n - 1].next(),
        ),
    decreases n,
{
    if n == 1 {
        lemma_step_follows_field(
            probe,
            field,
            vantage,
            resolution,
            threshold,
            from,
            afters[0],
            quads[0],
        );
        assert(joined(quads, 0) + quads[0] =~= quads[0]);
    } else if n > 1 {
        law_steps_make_the_pass(
            probe,
            field,
            vantage,
            resolution,
            threshold,
            from,
            afters,
            quads,
            n - 1,
        );
        let mid = afters[n - 2].next();
        lemma_step_follows_field(
            probe,
            field,
            vantage,
            resolution,
            threshold,
            mid,
            afters[n - 1],
            quads[n - 1],
        );
        lemma_slab_split(vantage, resolution, threshold, field, from, mid, afters[n - 1].next());
    }
}

/// Determinism: two full passes over the same field, from the same vantage,
/// at the same resolution and threshold, give the same faces in the same
/// order, whatever steps each was cut into and whichever probe read the
/// field.
pub proof fn law_passes_agree<P: Fn(i16, i16, i16) -> Sample, Q: Fn(i16, i16, i16) -> Sample>(
    probe: P,
    other_probe: Q,
    field: Field,
    vantage: Vantage,
    resolution: i16,
    threshold: u32,
    afters: Seq<LatticeCursor>,
    quads: Seq<Seq<Instance>>,
    other_afters: Seq<LatticeCursor>,
    other_quads: Seq<Seq<Instance>>,
)
    requires
        valid_resolution(resolution as int),
        follows(probe, field, resolution as int),
        follows(other_probe, field, resolution as int),
        stepwise(
            probe,
            vantage,
            resolution,
            threshold,
            -bound(resolution as int),
            afters,
            quads,
        ),
        stepwise(
            other_probe,
            vantage,
            resolution,
            threshold,
            -bound(resolution as int),
            other_afters,
            other_quads,
        ),
        afters.len() > 0,
        other_afters.len() > 0,
        afters.last().complete(resolution as int),
        other_afters.last().complete(resolution as int),
    ensures
        joined(quads, quads.len() as int) == joined(other_quads, other_quads.len() as int),
        joined(quads, quads.len() as int) == slab(
            vantage,
            resolution,
            threshold,
            field,
            -bound(resolution as int),
            bound(resolution as int) + 1,
        ),
{
    law_steps_make_the_pass(
        probe,
        field,
        vantage,
        resolution,
        threshold,
        -bound(resolution as int),
        afters,
        quads,
        afters.len() as int,
    );
    law_steps_make_the_pass(
        other_probe,
        field,
        vantage,
        resolution,
        threshold,
        -bound(resolution as int),
        other_afters,
        other_quads,
        other_afters.len() as int,
    );
}

/// Threshold monotonicity: of the same readings, a higher threshold accepts
/// no more positions than a lower one.
pub proof fn law_threshold_monotone(
    positions: Seq<Position>,
    readings: Seq<Sample>,
    low: u32,
    high: u32,
    n: int,
)
    requires
        at_most(low, high),
    ensures
        solid_among(positions, readings, high, n).len() <= solid_among(
            positions,
            readings,
            low,
            n,
        ).len(),
    decreases n,
{
    if n > 0 {
        law_threshold_monotone(positions, readings, low, high, n - 1);
        lemma_threshold_monotone(readings[n - 1].density, low, high);
    }
}

/// A position that is not accepted contributes no face, so a higher
/// threshold never adds faces either.
pub proof fn law_threshold_faces(
    vantage: Vantage,
    resolution: i16,
    positions: Seq<Position>,
    readings: Seq<Sample>,
    low: u32,
    high: u32,
    n: int,
)
    requires
        at_most(low, high),
    ensures
        emitted(vantage, resolution, positions, readings, high, n).len() <= emitted(
            vantage,
            resolution,
            positions,
            readings,
            low,
            n,
        ).len(),
    decreases n,
{
    if n > 0 {
        law_threshold_faces(vantage, resolution, positions, readings, low, high, n - 1);
        lemma_threshold_monotone(readings[n - 1].density, low, high);
    }
}

} // verus!
