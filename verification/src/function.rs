//! The incremental lattice scanner.
//!
//! A pass over the volume visits the slices in ascending order of their major
//! index. It rarely fits into one frame, so it is cut into steps: a step scans
//! whole slices until the time allowed for it has run out, and leaves in the
//! cursor where the next step has to take up.

use vstd::prelude::*;
use crate::adjacency::{column_before, Adjacency, Position};
use crate::clock;
use crate::instance::Instance;
use crate::lattice::{row, rows, slice};
use crate::sample::{accepted, accepts, emit, voxel_faces, Sample};
use crate::vantage::{lemma_place_stays_inside, Vantage};
use crate::voxel::{bound, in_range, in_volume, lattice_bound, valid_resolution, THRESHOLD};

verus! {

/// Time that one step may take before it stops at the next slice boundary,
/// in nanoseconds. Hand-tuned.
pub const STEP_BUDGET: u64 = 14_000_000;

/// Where a pass stands: the next slice to scan, and the adjacency records of
/// the slice scanned last.
pub struct LatticeCursor {
    next_major_index: i16,
    adjacency: Adjacency,
}

impl LatticeCursor {
    /// The major index of the next slice to scan.
    pub closed spec fn next(&self) -> int {
        self.next_major_index as int
    }

    /// The adjacency records.
    pub closed spec fn records(&self) -> Adjacency {
        self.adjacency
    }

    /// The cursor points into the volume or just past it, and its records
    /// are well formed.
    pub open spec fn wf(&self, resolution: int) -> bool {
        &&& -bound(resolution) <= self.next() <= bound(resolution) + 1
        &&& self.records().wf()
    }

    /// Every slice of the pass has been scanned.
    pub open spec fn complete(&self, resolution: int) -> bool {
        self.next() == bound(resolution) + 1
    }

    /// No slice of the pass has been scanned.
    pub open spec fn fresh(&self, resolution: int) -> bool {
        self.next() == -bound(resolution)
    }

    /// A cursor at the start of a pass.
    pub fn new(resolution: i16) -> (cursor: LatticeCursor)
        requires
            valid_resolution(resolution as int),
        ensures
            cursor.wf(resolution as int),
            cursor.fresh(resolution as int),
            cursor.records().solid().len() == 0,
    {
        LatticeCursor { next_major_index: -lattice_bound(resolution), adjacency: Adjacency::new() }
    }

    /// The major index of the next slice to scan.
    pub fn next_major_index(&self) -> (index: i16)
        ensures
            index == self.next(),
    {
        self.next_major_index
    }

    /// The adjacency records of the slice scanned last.
    pub fn adjacency(&self) -> (records: &Adjacency)
        ensures
            *records == self.records(),
    {
        &self.adjacency
    }

    /// Whether every slice of the pass has been scanned.
    pub fn is_complete(&self, resolution: i16) -> (done: bool)
        requires
            valid_resolution(resolution as int),
        ensures
            done == self.complete(resolution as int),
    {
        self.next_major_index == lattice_bound(resolution) + 1
    }

    /// Whether no slice of the pass has been scanned.
    pub fn is_fresh(&self, resolution: i16) -> (untouched: bool)
        requires
            valid_resolution(resolution as int),
        ensures
            untouched == self.fresh(resolution as int),
    {
        self.next_major_index == -lattice_bound(resolution)
    }

    /// Takes the cursor back to the start of a pass and clears the records.
    pub fn reset(&mut self, resolution: i16)
        requires
            valid_resolution(resolution as int),
        ensures
            final(self).wf(resolution as int),
            final(self).fresh(resolution as int),
            final(self).records().solid().len() == 0,
    {
        self.next_major_index = -lattice_bound(resolution);
        self.adjacency.clear();
    }
}

/// The world lattice point that `vantage` puts at scan position `p`.
pub open spec fn world(vantage: Vantage, p: Position) -> (i16, i16, i16) {
    vantage.point(p.0, p.1, p.2)
}

/// `readings` holds, for each of `positions` in turn, an answer that `probe`
/// may give at the world point of that position.
pub open spec fn probed<P: Fn(i16, i16, i16) -> Sample>(
    probe: P,
    vantage: Vantage,
    positions: Seq<Position>,
    readings: Seq<Sample>,
) -> bool {
    &&& readings.len() == positions.len()
    &&& forall|i: int|
        0 <= i < positions.len() ==> call_ensures(
            probe,
            world(vantage, positions[i]),
            #[trigger] readings[i],
        )
}

/// The faces of the first `n` of `positions`, in order, given their readings.
pub open spec fn emitted(
    vantage: Vantage,
    resolution: i16,
    positions: Seq<Position>,
    readings: Seq<Sample>,
    threshold: u32,
    n: int,
) -> Seq<Instance>
    decreases n,
{
    if n <= 0 {
        Seq::empty()
    } else {
        emitted(vantage, resolution, positions, readings, threshold, n - 1) + voxel_faces(
            resolution,
            world(vantage, positions[n - 1]),
            readings[n - 1],
            threshold,
        )
    }
}

/// Those of the first `n` of `positions` whose reading is accepted, in order.
pub open spec fn solid_among(
    positions: Seq<Position>,
    readings: Seq<Sample>,
    threshold: u32,
    n: int,
) -> Seq<Position>
    decreases n,
{
    if n <= 0 {
        Seq::empty()
    } else if accepted(readings[n - 1].density, threshold) {
        solid_among(positions, readings, threshold, n - 1).push(positions[n - 1])
    } else {
        solid_among(positions, readings, threshold, n - 1)
    }
}

/// The faces of slice `a`, given the readings of its positions.
pub open spec fn slice_quads(
    vantage: Vantage,
    resolution: i16,
    a: int,
    readings: Seq<Sample>,
    threshold: u32,
) -> Seq<Instance> {
    emitted(
        vantage,
        resolution,
        slice(resolution as int, a),
        readings,
        threshold,
        slice(resolution as int, a).len() as int,
    )
}

/// The accepted positions of slice `a`, given the readings of its positions.
pub open spec fn slice_solid(resolution: i16, a: int, readings: Seq<Sample>, threshold: u32) -> Seq<
    Position,
> {
    solid_among(
        slice(resolution as int, a),
        readings,
        threshold,
        slice(resolution as int, a).len() as int,
    )
}

/// The faces of the `n` slices from `from` on, slice after slice, given the
/// readings of each.
pub open spec fn run_quads(
    vantage: Vantage,
    resolution: i16,
    from: int,
    readings: Seq<Seq<Sample>>,
    threshold: u32,
    n: int,
) -> Seq<Instance>
    decreases n,
{
    if n <= 0 {
        Seq::empty()
    } else {
        run_quads(vantage, resolution, from, readings, threshold, n - 1) + slice_quads(
            vantage,
            resolution,
            from + n - 1,
            readings[n - 1],
            threshold,
        )
    }
}

/// `readings` holds, for each slice from `from` on, answers that `probe` may
/// give at the positions of that slice.
pub open spec fn run_probed<P: Fn(i16, i16, i16) -> Sample>(
    probe: P,
    vantage: Vantage,
    resolution: i16,
    from: int,
    readings: Seq<Seq<Sample>>,
) -> bool {
    forall|k: int|
        0 <= k < readings.len() ==> probed(
            probe,
            vantage,
            slice(resolution as int, from + k),
            #[trigger] readings[k],
        )
}

/// The faces and the accepted positions of the first `n` positions depend on
/// the first `n` positions and readings only.
pub proof fn lemma_prefix(
    vantage: Vantage,
    resolution: i16,
    threshold: u32,
    these: Seq<Position>,
    here: Seq<Sample>,
    those: Seq<Position>,
    there: Seq<Sample>,
    n: int,
)
    requires
        forall|i: int| 0 <= i < n ==> these[i] == those[i] && here[i] == there[i],
    ensures
        emitted(vantage, resolution, these, here, threshold, n) == emitted(
            vantage,
            resolution,
            those,
            there,
            threshold,
            n,
        ),
        solid_among(these, here, threshold, n) == solid_among(those, there, threshold, n),
    decreases n,
{
    if n > 0 {
        lemma_prefix(vantage, resolution, threshold, these, here, those, there, n - 1);
    }
}

/// Scans slice `a`: asks `probe` at every position of the slice, gathers
/// the faces and records the accepted positions.
fn scan_slice<P: Fn(i16, i16, i16) -> Sample>(
    records: &mut Adjacency,
    vantage: Vantage,
    resolution: i16,
    threshold: u32,
    a: i16,
    probe: &P,
) -> (out: (Vec<Instance>, Ghost<Seq<Sample>>))
    requires
        valid_resolution(resolution as int),
        in_range(resolution as int, a as int),
        forall|x: i16, y: i16, z: i16|
            in_volume(resolution as int, (x, y, z)) ==> #[trigger] call_requires(*probe, (x, y, z)),
    ensures
        probed(*probe, vantage, slice(resolution as int, a as int), out.1@),
        out.0@ == slice_quads(vantage, resolution, a as int, out.1@, threshold),
        final(records).wf(),
        final(records).solid() == slice_solid(resolution, a as int, out.1@, threshold),
{
    let limit = lattice_bound(resolution);
    records.clear();
    let mut quads: Vec<Instance> = Vec::new();
    let ghost mut positions = Seq::<Position>::empty();
    let ghost mut readings = Seq::<Sample>::empty();
    let mut b: i16 = -limit;
    while b <= limit
        invariant
            valid_resolution(resolution as int),
            limit == bound(resolution as int),
            in_range(resolution as int, a as int),
            -limit <= b <= limit + 1,
            forall|x: i16, y: i16, z: i16|
                in_volume(resolution as int, (x, y, z)) ==> #[trigger] call_requires(*probe, (x, y, z)),
            positions == rows(resolution as int, a as int, b as int),
            probed(*probe, vantage, positions, readings),
            quads@ == emitted(
                vantage,
                resolution,
                positions,
                readings,
                threshold,
                positions.len() as int,
            ),
            records.wf(),
            records.solid() == solid_among(positions, readings, threshold, positions.len() as int),
            forall|i: int|
                0 <= i < records.solid().len() ==> {
                    let p = #[trigger] records.solid()[i];
                    p.0 == a && column_before((p.1, p.2), (b, (-limit) as i16))
                },
        decreases limit + 1 - b,
    {
        let ghost row_start = positions;
        let mut c: i16 = -limit;
        while c <= limit
            invariant
                valid_resolution(resolution as int),
                limit == bound(resolution as int),
                in_range(resolution as int, a as int),
                -limit <= b <= limit,
                -limit <= c <= limit + 1,
                forall|x: i16, y: i16, z: i16|
                    in_volume(resolution as int, (x, y, z)) ==> #[trigger] call_requires(*probe, (x, y, z)),
                row_start == rows(resolution as int, a as int, b as int),
                positions == row_start + row(resolution as int, a as int, b as int, c as int),
                probed(*probe, vantage, positions, readings),
                quads@ == emitted(
                    vantage,
                    resolution,
                    positions,
                    readings,
                    threshold,
                    positions.len() as int,
                ),
                records.wf(),
                records.solid() == solid_among(
                    positions,
                    readings,
                    threshold,
                    positions.len() as int,
                ),
                forall|i: int|
                    0 <= i < records.solid().len() ==> {
                        let p = #[trigger] records.solid()[i];
                        p.0 == a && column_before((p.1, p.2), (b, c))
                    },
            decreases limit + 1 - c,
        {
            let p = vantage.remap(a, b, c);
            proof {
                lemma_place_stays_inside(vantage, a as int, b as int, c as int, limit as int);
                assert(in_volume(resolution as int, (p.0, p.1, p.2)));
                assert(call_requires(*probe, (p.0, p.1, p.2)));
            }
            let s = (*probe)(p.0, p.1, p.2);
            let ghost n = positions.len() as int;
            let ghost earlier = positions;
            let ghost answers = readings;
            proof {
                positions = positions.push((a, b, c));
                readings = readings.push(s);
                lemma_prefix(vantage, resolution, threshold, earlier, answers, positions, readings, n);
                assert(positions =~= row_start + row(
                    resolution as int,
                    a as int,
                    b as int,
                    c as int + 1,
                ));
                assert(world(vantage, positions[n]) == p);
            }
            if accepts(s.density, threshold) {
                assert(records.columns().len() == records.solid().len());
                records.record(a, b, c);
            }
            let mut faces = emit(resolution, p, &s, threshold);
            quads.append(&mut faces);
            c = c + 1;
        }
        proof {
            assert(positions == rows(resolution as int, a as int, b as int + 1));
        }
        b = b + 1;
    }
    (quads, Ghost(readings))
}

/// What a step that takes up at slice `from` leaves behind: the cursor
/// `after` has moved on over whole slices, at least one unless the pass was
/// complete; `quads` are the faces of those slices in the order of the scan,
/// for some answers that `probe` may give; and if a slice was scanned, the
/// records hold the accepted positions of the last one.
pub open spec fn advanced<P: Fn(i16, i16, i16) -> Sample>(
    probe: P,
    vantage: Vantage,
    resolution: i16,
    threshold: u32,
    from: int,
    after: LatticeCursor,
    quads: Seq<Instance>,
) -> bool {
    &&& after.wf(resolution as int)
    &&& from <= after.next()
    &&& from <= bound(resolution as int) ==> from < after.next()
    &&& exists|readings: Seq<Seq<Sample>>|
        #![trigger run_probed(probe, vantage, resolution, from, readings)]
        {
            &&& readings.len() == after.next() - from
            &&& run_probed(probe, vantage, resolution, from, readings)
            &&& quads == run_quads(
                vantage,
                resolution,
                from,
                readings,
                threshold,
                readings.len() as int,
            )
            &&& readings.len() > 0 ==> after.records().solid() == slice_solid(
                resolution,
                after.next() - 1,
                readings.last(),
                threshold,
            )
        }
}

/// One step of a pass: scans the slices from the cursor on, one whole slice
/// after another, and stops past the last slice of the volume, or at the
/// first slice boundary at which `budget_spent` answers yes. Returns the
/// faces of the slices it scanned, in the order of the scan, and leaves the
/// cursor at the first slice it did not scan.
///
/// `probe` evaluates the field at a world lattice point; it is asked once
/// for every position of every slice scanned, in scan order. `budget_spent`
/// is asked after each slice but the last of the volume.
pub fn scan<P: Fn(i16, i16, i16) -> Sample, C: Fn() -> bool>(
    cursor: &mut LatticeCursor,
    vantage: Vantage,
    resolution: i16,
    threshold: u32,
    probe: P,
    budget_spent: C,
) -> (quads: Vec<Instance>)
    requires
        valid_resolution(resolution as int),
        old(cursor).wf(resolution as int),
        forall|x: i16, y: i16, z: i16|
            in_volume(resolution as int, (x, y, z)) ==> #[trigger] call_requires(probe, (x, y, z)),
        call_requires(budget_spent, ()),
    ensures
        advanced(probe, vantage, resolution, threshold, old(cursor).next(), *final(cursor), quads@),
        old(cursor).complete(resolution as int) ==> final(cursor).records() == old(
            cursor,
        ).records(),
        !final(cursor).complete(resolution as int) ==> call_ensures(budget_spent, (), true),
        final(cursor).next() > old(cursor).next() + 1 ==> call_ensures(budget_spent, (), false),
{
    let limit = lattice_bound(resolution);
    let ghost from = cursor.next();
    let ghost mut readings = Seq::<Seq<Sample>>::empty();
    let mut quads: Vec<Instance> = Vec::new();
    let mut stop = false;
    while !stop && cursor.next_major_index <= limit
        invariant
            valid_resolution(resolution as int),
            limit == bound(resolution as int),
            forall|x: i16, y: i16, z: i16|
                in_volume(resolution as int, (x, y, z)) ==> #[trigger] call_requires(probe, (x, y, z)),
            call_requires(budget_spent, ()),
            cursor.wf(resolution as int),
            from == old(cursor).next(),
            from <= cursor.next(),
            readings.len() == cursor.next() - from,
            run_probed(probe, vantage, resolution, from, readings),
            quads@ == run_quads(vantage, resolution, from, readings, threshold, readings.len() as int),
            readings.len() > 0 ==> cursor.records().solid() == slice_solid(
                resolution,
                cursor.next() - 1,
                readings.last(),
                threshold,
            ),
            readings.len() == 0 ==> cursor.records() == old(cursor).records(),
            stop ==> call_ensures(budget_spent, (), true) && from < cursor.next() <= limit,
            !stop && from < cursor.next() <= limit ==> call_ensures(budget_spent, (), false),
            cursor.next() > from + 1 ==> call_ensures(budget_spent, (), false),
        decreases limit + 1 - cursor.next() + (if stop { 0int } else { 1int }),
    {
        let a = cursor.next_major_index;
        let out = scan_slice(&mut cursor.adjacency, vantage, resolution, threshold, a, &probe);
        let mut faces = out.0;
        quads.append(&mut faces);
        cursor.next_major_index = a + 1;
        proof {
            let earlier = readings;
            readings = readings.push(out.1@);
            lemma_run_prefix(vantage, resolution, from, threshold, earlier, readings, earlier.len() as int);
            assert forall|k: int| 0 <= k < readings.len() implies probed(
                probe,
                vantage,
                slice(resolution as int, from + k),
                #[trigger] readings[k],
            ) by {
                if k < earlier.len() {
                    assert(readings[k] == earlier[k]);
                }
            }
        }
        if a < limit {
            stop = budget_spent();
        }
    }
    proof {
        assert(run_probed(probe, vantage, resolution, from, readings));
    }
    quads
}

/// One step of a pass against the wall clock: scans the slices from the
/// cursor on with the threshold `THRESHOLD`, and stops at the first slice
/// boundary at which `time_budget` nanoseconds have gone by since the call,
/// or past the last slice of the volume.
pub fn orbital<P: Fn(i16, i16, i16) -> Sample>(
    resolution: i16,
    cursor: &mut LatticeCursor,
    vantage: Vantage,
    probe: P,
    time_budget: u64,
) -> (quads: Vec<Instance>)
    requires
        valid_resolution(resolution as int),
        old(cursor).wf(resolution as int),
        forall|x: i16, y: i16, z: i16|
            in_volume(resolution as int, (x, y, z)) ==> #[trigger] call_requires(probe, (x, y, z)),
    ensures
        advanced(probe, vantage, resolution, THRESHOLD, old(cursor).next(), *final(cursor), quads@),
        old(cursor).complete(resolution as int) ==> final(cursor).records() == old(
            cursor,
        ).records(),
{
    let start = clock::start();
    let late = || -> (spent: bool) { clock::elapsed_nanos(&start) >= time_budget as u128 };
    scan(cursor, vantage, resolution, THRESHOLD, probe, late)
}

/// The faces of the first `n` slices depend on the readings of those slices
/// only.
pub proof fn lemma_run_prefix(
    vantage: Vantage,
    resolution: i16,
    from: int,
    threshold: u32,
    here: Seq<Seq<Sample>>,
    there: Seq<Seq<Sample>>,
    n: int,
)
    requires
        forall|k: int| 0 <= k < n ==> here[k] == there[k],
    ensures
        run_quads(vantage, resolution, from, here, threshold, n) == run_quads(
            vantage,
            resolution,
            from,
            there,
            threshold,
            n,
        ),
    decreases n,
{
    if n > 0 {
        lemma_run_prefix(vantage, resolution, from, threshold, here, there, n - 1);
    }
}

} // verus!
