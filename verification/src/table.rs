//! Lookup tables: the rows that a lookup query may match.

use crate::field::Scalar;
use vstd::prelude::*;

verus! {

/// Whether the first three columns of `row` are `a`, `b` and `c`.
pub open spec fn matches(row: [Scalar; 4], a: Scalar, b: Scalar, c: Scalar) -> bool {
    row[0] == a && row[1] == b && row[2] == c
}

/// The fourth column of the first row whose first three columns are `a`,
/// `b` and `c`.
pub open spec fn lookup_in(rows: Seq<[Scalar; 4]>, a: Scalar, b: Scalar, c: Scalar) -> Option<
    Scalar,
>
    decreases rows.len(),
{
    if rows.len() == 0 {
        None
    } else if matches(rows[0], a, b, c) {
        Some(rows[0][3])
    } else {
        lookup_in(rows.subrange(1, rows.len() as int), a, b, c)
    }
}

/// Whether the first three columns of a row determine the fourth: no two
/// rows agree on the three and differ in the fourth.
pub open spec fn deterministic(rows: Seq<[Scalar; 4]>) -> bool {
    forall|i: int, j: int|
        0 <= i < rows.len() && 0 <= j < rows.len() && matches(
            #[trigger] rows[i],
            (#[trigger] rows[j])[0],
            rows[j][1],
            rows[j][2],
        ) ==> rows[i][3] == rows[j][3]
}

/// The two rows that the padding rows of every circuit query:
/// `(6, 7, -20, 1)` and `(-20, 6, 7, 0)`.
pub open spec fn dummy_rows() -> Seq<[Scalar; 4]> {
    seq![
        [Scalar::of_int(6), Scalar::of_int(7), Scalar::of_int(-20), Scalar::of_int(1)],
        [Scalar::of_int(-20), Scalar::of_int(6), Scalar::of_int(7), Scalar::of_int(0)],
    ]
}

/// A lookup finds nothing exactly when no row matches, and what it finds
/// is the fourth column of a matching row before which no row matches.
pub proof fn lemma_lookup_in(rows: Seq<[Scalar; 4]>, a: Scalar, b: Scalar, c: Scalar)
    ensures
        lookup_in(rows, a, b, c) is None <==> forall|i: int|
            0 <= i < rows.len() ==> !matches(#[trigger] rows[i], a, b, c),
        lookup_in(rows, a, b, c) is Some ==> exists|i: int|
            0 <= i < rows.len() && matches(#[trigger] rows[i], a, b, c) && lookup_in(rows, a, b, c)
                == Some(rows[i][3]) && forall|k: int|
                0 <= k < i ==> !matches(#[trigger] rows[k], a, b, c),
    decreases rows.len(),
{
    if rows.len() == 0 {
    } else if matches(rows[0], a, b, c) {
        assert(matches(rows[0], a, b, c) && lookup_in(rows, a, b, c) == Some(rows[0][3]));
    } else {
        let rest = rows.subrange(1, rows.len() as int);
        lemma_lookup_in(rest, a, b, c);
        assert forall|i: int| 0 <= i < rest.len() implies #[trigger] rest[i] == rows[i + 1] by {}
        if lookup_in(rest, a, b, c) is None {
            assert forall|i: int| 0 <= i < rows.len() implies !matches(
                #[trigger] rows[i],
                a,
                b,
                c,
            ) by {
                if i > 0 {
                    assert(rest[i - 1] == rows[i]);
                }
            }
        } else {
            let i = choose|i: int|
                0 <= i < rest.len() && matches(#[trigger] rest[i], a, b, c) && lookup_in(
                    rest,
                    a,
                    b,
                    c,
                ) == Some(rest[i][3]) && forall|k: int|
                    0 <= k < i ==> !matches(#[trigger] rest[k], a, b, c);
            assert(matches(rows[i + 1], a, b, c));
            assert forall|k: int| 0 <= k < i + 1 implies !matches(#[trigger] rows[k], a, b, c) by {
                if k > 0 {
                    assert(rest[k - 1] == rows[k]);
                }
            }
        }
    }
}

/// In a table whose rows determine their fourth column, looking up the
/// first three columns of a row gives the fourth column of that row.
pub proof fn lemma_lookup_round_trip(
    rows: Seq<[Scalar; 4]>,
    i: int,
    a: Scalar,
    b: Scalar,
    c: Scalar,
    d: Scalar,
)
    requires
        deterministic(rows),
        0 <= i < rows.len(),
        rows[i][0] == a,
        rows[i][1] == b,
        rows[i][2] == c,
        rows[i][3] == d,
    ensures
        lookup_in(rows, a, b, c) == Some(d),
{
    lemma_lookup_in(rows, a, b, c);
    assert(matches(rows[i], a, b, c));
    let k = choose|k: int|
        0 <= k < rows.len() && matches(#[trigger] rows[k], a, b, c) && lookup_in(rows, a, b, c)
            == Some(rows[k][3]);
    assert(matches(rows[k], rows[i][0], rows[i][1], rows[i][2]));
}

/// A lookup table of four columns: three that a query gives and one that
/// the table answers with.
#[derive(Debug)]
pub struct PlookupTable4Arity(pub Vec<[Scalar; 4]>);

impl View for PlookupTable4Arity {
    type V = Seq<[Scalar; 4]>;

    open spec fn view(&self) -> Seq<[Scalar; 4]> {
        self.0@
    }
}

impl PlookupTable4Arity {
    /// A table without rows.
    pub fn new() -> (r: PlookupTable4Arity)
        ensures
            r@ == Seq::<[Scalar; 4]>::empty(),
    {
        PlookupTable4Arity(Vec::new())
    }

    /// The number of rows.
    pub fn len(&self) -> (r: usize)
        ensures
            r == self@.len(),
    {
        self.0.len()
    }

    /// Appends a row.
    pub fn insert(&mut self, a: Scalar, b: Scalar, c: Scalar, d: Scalar)
        ensures
            final(self)@ == old(self)@.push([a, b, c, d]),
    {
        self.0.push([a, b, c, d]);
    }

    /// Appends the rows that the padding rows of every circuit query, so
    /// that those rows always find a match.
    pub fn add_dummy_rows(&mut self)
        ensures
            final(self)@ == old(self)@ + dummy_rows(),
    {
        let six = Scalar::from_u64(6);
        let seven = Scalar::from_u64(7);
        let min_twenty = Scalar::from_u64(20).neg();
        self.0.push([six, seven, min_twenty, Scalar::from_u64(1)]);
        self.0.push([min_twenty, six, seven, Scalar::from_u64(0)]);
        proof {
            assert(self@ =~= old(self)@ + dummy_rows());
        }
    }

    /// Whether the table holds `row`.
    pub fn contains(&self, row: &[Scalar; 4]) -> (r: bool)
        ensures
            r == self@.contains(*row),
    {
        let mut i: usize = 0;
        while i < self.0.len()
            invariant
                i <= self@.len(),
                forall|k: int| 0 <= k < i ==> self@[k] != *row,
            decreases self@.len() - i,
        {
            let candidate = &self.0[i];
            if candidate[0] == row[0] && candidate[1] == row[1] && candidate[2] == row[2]
                && candidate[3] == row[3] {
                proof {
                    assert(self@[i as int] =~= *row);
                }
                return true;
            }
            proof {
                assert(self@[i as int] != *row);
            }
            i += 1;
        }
        false
    }

    /// The fourth column of the first row whose first three columns are
    /// `a`, `b` and `c`; `None` if no row matches.
    pub fn lookup(&self, a: Scalar, b: Scalar, c: Scalar) -> (r: Option<Scalar>)
        ensures
            r == lookup_in(self@, a, b, c),
            r is None <==> forall|i: int|
                0 <= i < self@.len() ==> !matches(#[trigger] self@[i], a, b, c),
    {
        let mut i: usize = 0;
        proof {
            assert(self@.subrange(0, self@.len() as int) =~= self@);
        }
        while i < self.0.len()
            invariant
                i <= self@.len(),
                lookup_in(self@, a, b, c) == lookup_in(
                    self@.subrange(i as int, self@.len() as int),
                    a,
                    b,
                    c,
                ),
            decreases self@.len() - i,
        {
            let row = &self.0[i];
            let ghost rest = self@.subrange(i as int, self@.len() as int);
            proof {
                assert(rest[0] == self@[i as int]);
                assert(rest.subrange(1, rest.len() as int) =~= self@.subrange(
                    i as int + 1,
                    self@.len() as int,
                ));
            }
            if row[0] == a && row[1] == b && row[2] == c {
                proof {
                    lemma_lookup_in(self@, a, b, c);
                }
                return Some(row[3]);
            }
            i += 1;
        }
        proof {
            lemma_lookup_in(self@, a, b, c);
        }
        None
    }
}

} // verus!
