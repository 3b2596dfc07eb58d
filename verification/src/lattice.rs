//! The order in which the scanner visits the lattice.
//!
//! A slice is the set of scan positions that share a major index. Within a
//! slice the first minor index ascends slowly and the second quickly, each over
//! the whole range of the volume. A walk is a run of consecutive slices.

use vstd::prelude::*;
use crate::adjacency::{ascending, before, Position};
use crate::voxel::{bound, in_range, side, valid_resolution};

verus! {

/// The positions of row `b` of slice `a` whose second minor index is below
/// `c_end`, in ascending order.
pub open spec fn row(resolution: int, a: int, b: int, c_end: int) -> Seq<Position>
    decreases c_end + bound(resolution),
{
    if c_end <= -bound(resolution) {
        Seq::empty()
    } else {
        row(resolution, a, b, c_end - 1).push((a as i16, b as i16, (c_end - 1) as i16))
    }
}

/// The positions of slice `a` whose first minor index is below `b_end`, row
/// after row.
pub open spec fn rows(resolution: int, a: int, b_end: int) -> Seq<Position>
    decreases b_end + bound(resolution),
{
    if b_end <= -bound(resolution) {
        Seq::empty()
    } else {
        rows(resolution, a, b_end - 1) + row(resolution, a, b_end - 1, bound(resolution) + 1)
    }
}

/// The positions of slice `a`, in the order in which they are visited.
pub open spec fn slice(resolution: int, a: int) -> Seq<Position> {
    rows(resolution, a, bound(resolution) + 1)
}

/// The positions of the slices `from`, `from + 1`, ... up to but excluding
/// `to`, in the order in which they are visited.
pub open spec fn walk(resolution: int, from: int, to: int) -> Seq<Position>
    decreases to - from,
{
    if to <= from {
        Seq::empty()
    } else {
        walk(resolution, from, to - 1) + slice(resolution, to - 1)
    }
}

/// A position that belongs to slice `a` of the volume.
pub open spec fn in_slice(resolution: int, a: int, p: Position) -> bool {
    p.0 == a && in_range(resolution, p.1 as int) && in_range(resolution, p.2 as int)
}

/// What a row holds: its length, and at each place the position with that
/// second minor index.
pub proof fn lemma_row(resolution: int, a: int, b: int, c_end: int)
    requires
        valid_resolution(resolution),
        in_range(resolution, a),
        in_range(resolution, b),
        -bound(resolution) <= c_end <= bound(resolution) + 1,
    ensures
        row(resolution, a, b, c_end).len() == c_end + bound(resolution),
        forall|i: int|
            0 <= i < c_end + bound(resolution) ==> #[trigger] row(resolution, a, b, c_end)[i] == (
                a as i16,
                b as i16,
                (i - bound(resolution)) as i16,
            ),
    decreases c_end + bound(resolution),
{
    if c_end > -bound(resolution) {
        lemma_row(resolution, a, b, c_end - 1);
    }
}

/// What the first rows of a slice hold: `side` positions for each row, and
/// at each place the position whose minor indices are the place's quotient
/// and remainder by `side`.
pub proof fn lemma_rows(resolution: int, a: int, b_end: int)
    requires
        valid_resolution(resolution),
        in_range(resolution, a),
        -bound(resolution) <= b_end <= bound(resolution) + 1,
    ensures
        rows(resolution, a, b_end).len() == (b_end + bound(resolution)) * side(resolution),
        forall|j: int, k: int|
            0 <= j < b_end + bound(resolution) && 0 <= k < side(resolution) ==> #[trigger] rows(
                resolution,
                a,
                b_end,
            )[j * side(resolution) + k] == (
                a as i16,
                (j - bound(resolution)) as i16,
                (k - bound(resolution)) as i16,
            ),
    decreases b_end + bound(resolution),
{
    let n = side(resolution);
    let m = bound(resolution);
    if b_end > -m {
        lemma_rows(resolution, a, b_end - 1);
        lemma_row(resolution, a, b_end - 1, m + 1);
        let head = rows(resolution, a, b_end - 1);
        let tail = row(resolution, a, b_end - 1, m + 1);
        assert((b_end - 1 + m) * n + n == (b_end + m) * n) by (nonlinear_arith);
        assert forall|j: int, k: int| 0 <= j < b_end + m && 0 <= k < n implies #[trigger] rows(
            resolution,
            a,
            b_end,
        )[j * n + k] == (a as i16, (j - m) as i16, (k - m) as i16) by {
            if j < b_end - 1 + m {
                assert(j * n + k < (b_end - 1 + m) * n) by (nonlinear_arith)
                    requires
                        0 <= j < b_end - 1 + m,
                        0 <= k < n,
                ;
                assert(0 <= j * n + k) by (nonlinear_arith)
                    requires
                        0 <= j,
                        0 <= k,
                        0 < n,
                ;
                assert(head[j * n + k] == (a as i16, (j - m) as i16, (k - m) as i16));
            } else {
                assert(j == b_end - 1 + m);
                assert(j * n + k - head.len() == k);
                assert(tail[k] == (a as i16, (b_end - 1) as i16, (k - m) as i16));
            }
        }
    } else {
        assert((b_end + m) * n == 0) by (nonlinear_arith)
            requires
                b_end + m == 0,
        ;
    }
}

/// A slice holds `side * side` positions.
pub proof fn lemma_slice_len(resolution: int, a: int)
    requires
        valid_resolution(resolution),
        in_range(resolution, a),
    ensures
        slice(resolution, a).len() == side(resolution) * side(resolution),
{
    lemma_rows(resolution, a, bound(resolution) + 1);
}

/// A slice holds exactly the positions of the volume with its major index,
/// each once, in ascending order.
pub proof fn lemma_slice_covers(resolution: int, a: int)
    requires
        valid_resolution(resolution),
        in_range(resolution, a),
    ensures
        ascending(slice(resolution, a)),
        forall|p: Position| #[trigger]
            slice(resolution, a).contains(p) <==> in_slice(resolution, a, p),
{
    let n = side(resolution);
    let m = bound(resolution);
    let s = slice(resolution, a);
    lemma_rows(resolution, a, m + 1);
    assert(s.len() == n * n);
    assert forall|i: int| 0 <= i < s.len() implies #[trigger] s[i] == (
        a as i16,
        (i / n - m) as i16,
        (i % n - m) as i16,
    ) && 0 <= i / n < n && 0 <= i % n < n by {
        let j = i / n;
        let k = i % n;
        assert(i == j * n + k && 0 <= k < n && 0 <= j < n) by (nonlinear_arith)
            requires
                0 <= i < n * n,
                0 < n,
                j == i / n,
                k == i % n,
        ;
        assert(s[j * n + k] == (a as i16, (j - m) as i16, (k - m) as i16));
    }
    assert forall|i: int, j: int| 0 <= i < j < s.len() implies before(
        #[trigger] s[i],
        #[trigger] s[j],
    ) by {
        assert(i / n < j / n || (i / n == j / n && i % n < j % n)) by (nonlinear_arith)
            requires
                0 <= i < j,
                0 < n,
        ;
    }
    assert forall|p: Position| s.contains(p) <==> in_slice(resolution, a, p) by {
        if s.contains(p) {
            let i = choose|i: int| 0 <= i < s.len() && s[i] == p;
            assert(s[i] == (a as i16, (i / n - m) as i16, (i % n - m) as i16));
        }
        if in_slice(resolution, a, p) {
            let j = p.1 + m;
            let k = p.2 + m;
            assert(rows(resolution, a, m + 1)[j * n + k] == (
                a as i16,
                (j - m) as i16,
                (k - m) as i16,
            ));
            assert(0 <= j * n + k < n * n) by (nonlinear_arith)
                requires
                    0 <= j < n,
                    0 <= k < n,
            ;
            assert(s[j * n + k] == p);
        }
    }
}

/// A walk holds `side * side` positions for each of its slices.
pub proof fn lemma_walk_len(resolution: int, from: int, to: int)
    requires
        valid_resolution(resolution),
        -bound(resolution) <= from <= to <= bound(resolution) + 1,
    ensures
        walk(resolution, from, to).len() == (to - from) * (side(resolution) * side(resolution)),
    decreases to - from,
{
    let q = side(resolution) * side(resolution);
    if to > from {
        lemma_walk_len(resolution, from, to - 1);
        lemma_slice_len(resolution, to - 1);
        assert((to - 1 - from) * q + q == (to - from) * q) by (nonlinear_arith);
    } else {
        assert((to - from) * q == 0) by (nonlinear_arith)
            requires
                to - from == 0,
        ;
    }
}

/// Two walks that meet make one walk: however a stretch of slices is cut
/// into consecutive runs, the same positions are visited in the same order.
pub proof fn lemma_walk_split(resolution: int, from: int, mid: int, to: int)
    requires
        from <= mid <= to,
    ensures
        walk(resolution, from, mid) + walk(resolution, mid, to) == walk(resolution, from, to),
    decreases to - mid,
{
    if to > mid {
        lemma_walk_split(resolution, from, mid, to - 1);
        assert(walk(resolution, from, mid) + (walk(resolution, mid, to - 1) + slice(
            resolution,
            to - 1,
        )) =~= (walk(resolution, from, mid) + walk(resolution, mid, to - 1)) + slice(
            resolution,
            to - 1,
        ));
    } else {
        assert(walk(resolution, from, mid) + walk(resolution, mid, to) =~= walk(
            resolution,
            from,
            to,
        ));
    }
}

/// A walk visits exactly the positions of the volume whose major index lies
/// in its stretch: none is left out, and none comes twice, for the positions
/// come in ascending order.
pub proof fn lemma_walk_covers(resolution: int, from: int, to: int)
    requires
        valid_resolution(resolution),
        -bound(resolution) <= from <= to <= bound(resolution) + 1,
    ensures
        ascending(walk(resolution, from, to)),
        forall|p: Position| #[trigger]
            walk(resolution, from, to).contains(p) <==> (from <= p.0 < to && in_slice(
                resolution,
                p.0 as int,
                p,
            )),
    decreases to - from,
{
    let w = walk(resolution, from, to);
    if to > from {
        let head = walk(resolution, from, to - 1);
        let tail = slice(resolution, to - 1);
        lemma_walk_covers(resolution, from, to - 1);
        lemma_slice_covers(resolution, to - 1);
        assert forall|p: Position| w.contains(p) <==> (from <= p.0 < to && in_slice(
            resolution,
            p.0 as int,
            p,
        )) by {
            if w.contains(p) {
                let i = choose|i: int| 0 <= i < w.len() && w[i] == p;
                if i < head.len() {
                    assert(head[i] == p);
                    assert(head.contains(p));
                } else {
                    assert(tail[i - head.len()] == p);
                    assert(tail.contains(p));
                }
            }
            if from <= p.0 < to && in_slice(resolution, p.0 as int, p) {
                if p.0 < to - 1 {
                    assert(head.contains(p));
                    let i = choose|i: int| 0 <= i < head.len() && head[i] == p;
                    assert(w[i] == p);
                } else {
                    assert(tail.contains(p));
                    let i = choose|i: int| 0 <= i < tail.len() && tail[i] == p;
                    assert(w[head.len() + i] == p);
                }
            }
        }
        assert forall|i: int, j: int| 0 <= i < j < w.len() implies before(
            #[trigger] w[i],
            #[trigger] w[j],
        ) by {
            if j < head.len() {
                assert(before(head[i], head[j]));
            } else if i >= head.len() {
                assert(before(tail[i - head.len()], tail[j - head.len()]));
            } else {
                assert(head.contains(head[i]));
                assert(tail.contains(tail[j - head.len()]));
            }
        }
    }
}

} // verus!
