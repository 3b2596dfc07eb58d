//! Adjacency records: the lattice positions accepted so far in the slice that
//! is being scanned.
//!
//! Two ordered collections are kept side by side, one of full scan positions
//! (major, first minor, second minor) and one of the same positions without the
//! major index. The scanner visits a slice in ascending order, so both stay
//! sorted by appending, and "is this position solid?" is a binary search.

use vstd::prelude::*;

verus! {

/// A scan position: the major index, then the two minor indices.
pub type Position = (i16, i16, i16);

/// A scan position without its major index.
pub type Column = (i16, i16);

/// `p` comes before `q` in scan order.
pub open spec fn before(p: Position, q: Position) -> bool {
    p.0 < q.0 || (p.0 == q.0 && (p.1 < q.1 || (p.1 == q.1 && p.2 < q.2)))
}

/// `p` comes before `q` in scan order within a slice.
pub open spec fn column_before(p: Column, q: Column) -> bool {
    p.0 < q.0 || (p.0 == q.0 && p.1 < q.1)
}

/// Every entry comes before all later ones.
pub open spec fn ascending(s: Seq<Position>) -> bool {
    forall|i: int, j: int| 0 <= i < j < s.len() ==> before(#[trigger] s[i], #[trigger] s[j])
}

/// Every entry comes before all later ones.
pub open spec fn columns_ascending(s: Seq<Column>) -> bool {
    forall|i: int, j: int|
        0 <= i < j < s.len() ==> column_before(#[trigger] s[i], #[trigger] s[j])
}

/// The positions of `s` without their major index.
pub open spec fn columns_of(s: Seq<Position>) -> Seq<Column> {
    Seq::new(s.len(), |i: int| (s[i].1, s[i].2))
}

/// The accepted positions of the slice being scanned.
pub struct Adjacency {
    solid: Vec<Position>,
    columns: Vec<Column>,
}

fn precedes(p: Position, q: Position) -> (r: bool)
    ensures
        r == before(p, q),
{
    p.0 < q.0 || (p.0 == q.0 && (p.1 < q.1 || (p.1 == q.1 && p.2 < q.2)))
}

fn column_precedes(p: Column, q: Column) -> (r: bool)
    ensures
        r == column_before(p, q),
{
    p.0 < q.0 || (p.0 == q.0 && p.1 < q.1)
}

impl Adjacency {
    /// The recorded positions, in the order in which they were recorded.
    pub closed spec fn solid(&self) -> Seq<Position> {
        self.solid@
    }

    /// The recorded positions without their major index.
    pub closed spec fn columns(&self) -> Seq<Column> {
        self.columns@
    }

    /// Both collections are sorted without repeats, and the second is the
    /// first with the major index dropped.
    pub open spec fn wf(&self) -> bool {
        &&& ascending(self.solid())
        &&& columns_ascending(self.columns())
        &&& self.columns() == columns_of(self.solid())
    }

    /// Whether `(a, b, c)` may be recorded next: it comes after everything
    /// recorded, with and without the major index.
    pub open spec fn admits(&self, a: i16, b: i16, c: i16) -> bool {
        self.solid().len() > 0 ==> {
            &&& before(self.solid().last(), (a, b, c))
            &&& column_before(self.columns().last(), (b, c))
        }
    }

    /// Records with nothing in them.
    pub fn new() -> (records: Adjacency)
        ensures
            records.wf(),
            records.solid() == Seq::<Position>::empty(),
    {
        let records = Adjacency { solid: Vec::new(), columns: Vec::new() };
        assert(records.columns() =~= columns_of(records.solid()));
        records
    }

    /// Forgets every position.
    pub fn clear(&mut self)
        ensures
            final(self).wf(),
            final(self).solid() == Seq::<Position>::empty(),
    {
        self.solid.clear();
        self.columns.clear();
        assert(self.columns() =~= columns_of(self.solid()));
    }

    /// Number of recorded positions.
    pub fn len(&self) -> (n: usize)
        ensures
            n == self.solid().len(),
    {
        self.solid.len()
    }

    /// Records `(a, b, c)` as accepted.
    pub fn record(&mut self, a: i16, b: i16, c: i16)
        requires
            old(self).wf(),
            old(self).admits(a, b, c),
        ensures
            final(self).wf(),
            final(self).solid() == old(self).solid().push((a, b, c)),
    {
        let ghost before_solid = self.solid@;
        let ghost before_columns = self.columns@;
        self.solid.push((a, b, c));
        self.columns.push((b, c));
        proof {
            let s = self.solid@;
            let k = self.columns@;
            assert forall|i: int, j: int| 0 <= i < j < s.len() implies before(
                #[trigger] s[i],
                #[trigger] s[j],
            ) by {
                if j < before_solid.len() {
                    assert(before(before_solid[i], before_solid[j]));
                } else if i < before_solid.len() - 1 {
                    assert(before(before_solid[i], before_solid.last()));
                }
            }
            assert forall|i: int, j: int| 0 <= i < j < k.len() implies column_before(
                #[trigger] k[i],
                #[trigger] k[j],
            ) by {
                if j < before_columns.len() {
                    assert(column_before(before_columns[i], before_columns[j]));
                } else if i < before_columns.len() - 1 {
                    assert(column_before(before_columns[i], before_columns.last()));
                }
            }
            assert(k =~= columns_of(s));
        }
    }

    /// Whether `(a, b, c)` has been recorded.
    pub fn is_solid(&self, a: i16, b: i16, c: i16) -> (found: bool)
        requires
            self.wf(),
        ensures
            found == self.solid().contains((a, b, c)),
    {
        let key: Position = (a, b, c);
        let mut low: usize = 0;
        let mut high: usize = self.solid.len();
        while low < high
            invariant
                low <= high <= self.solid@.len(),
                ascending(self.solid@),
                key == (a, b, c),
                forall|i: int| 0 <= i < low ==> before(#[trigger] self.solid@[i], key),
                forall|i: int| high <= i < self.solid@.len() ==> before(key, #[trigger] self.solid@[i]),
            decreases high - low,
        {
            let middle = low + (high - low) / 2;
            let p = self.solid[middle];
            if precedes(p, key) {
                assert forall|i: int| 0 <= i < middle + 1 implies before(
                    #[trigger] self.solid@[i],
                    key,
                ) by {
                    if i < middle {
                        assert(before(self.solid@[i], self.solid@[middle as int]));
                    }
                }
                low = middle + 1;
            } else if precedes(key, p) {
                assert forall|i: int| middle <= i < self.solid@.len() implies before(
                    key,
                    #[trigger] self.solid@[i],
                ) by {
                    if middle < i {
                        assert(before(self.solid@[middle as int], self.solid@[i]));
                    }
                }
                high = middle;
            } else {
                assert(self.solid@[middle as int] == key);
                return true;
            }
        }
        assert forall|i: int| 0 <= i < self.solid@.len() implies self.solid@[i] != key by {
            if i < low {
                assert(before(self.solid@[i], key));
            } else {
                assert(before(key, self.solid@[i]));
            }
        }
        false
    }

    /// Whether a position with minor indices `(b, c)` has been recorded.
    pub fn has_column(&self, b: i16, c: i16) -> (found: bool)
        requires
            self.wf(),
        ensures
            found == self.columns().contains((b, c)),
            found == exists|a: i16| self.solid().contains((a, b, c)),
    {
        let key: Column = (b, c);
        let mut low: usize = 0;
        let mut high: usize = self.columns.len();
        let mut found = false;
        while low < high
            invariant_except_break
                !found,
                forall|i: int| 0 <= i < low ==> column_before(#[trigger] self.columns@[i], key),
                forall|i: int|
                    high <= i < self.columns@.len() ==> column_before(
                        key,
                        #[trigger] self.columns@[i],
                    ),
            invariant
                low <= high <= self.columns@.len(),
                columns_ascending(self.columns@),
                key == (b, c),
            ensures
                found ==> self.columns@.contains(key),
                !found ==> forall|i: int| 0 <= i < self.columns@.len() ==> self.columns@[i] != key,
            decreases high - low,
        {
            let middle = low + (high - low) / 2;
            let p = self.columns[middle];
            if column_precedes(p, key) {
                assert forall|i: int| 0 <= i < middle + 1 implies column_before(
                    #[trigger] self.columns@[i],
                    key,
                ) by {
                    if i < middle {
                        assert(column_before(self.columns@[i], self.columns@[middle as int]));
                    }
                }
                low = middle + 1;
            } else if column_precedes(key, p) {
                assert forall|i: int| middle <= i < self.columns@.len() implies column_before(
                    key,
                    #[trigger] self.columns@[i],
                ) by {
                    if middle < i {
                        assert(column_before(self.columns@[middle as int], self.columns@[i]));
                    }
                }
                high = middle;
            } else {
                assert(self.columns@[middle as int] == key);
                found = true;
                break ;
            }
        }
        proof {
            lemma_columns_contain(self.solid@, b, c);
        }
        found
    }
}

/// A column is among `columns_of(s)` exactly when some position of `s` has it.
pub proof fn lemma_columns_contain(s: Seq<Position>, b: i16, c: i16)
    ensures
        columns_of(s).contains((b, c)) <==> exists|a: i16| s.contains((a, b, c)),
{
    let k = columns_of(s);
    if k.contains((b, c)) {
        let i = choose|i: int| 0 <= i < k.len() && k[i] == (b, c);
        assert(s[i] == (s[i].0, b, c));
        assert(s.contains((s[i].0, b, c)));
    }
    if exists|a: i16| s.contains((a, b, c)) {
        let a = choose|a: i16| s.contains((a, b, c));
        let i = choose|i: int| 0 <= i < s.len() && s[i] == (a, b, c);
        assert(k[i] == (b, c));
    }
}

} // verus!
