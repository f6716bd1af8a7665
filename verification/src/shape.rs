//! The mathematical model of a matrix: a sequence of rows, each a sequence of
//! cells.

use vstd::prelude::*;

verus! {

/// The cells of a matrix held as a vector of rows.
pub open spec fn grid<T>(m: Seq<Vec<T>>) -> Seq<Seq<T>> {
    Seq::new(m.len(), |i: int| m[i]@)
}

/// The number of columns: the length of the first row, and zero where there
/// is no row.
pub open spec fn width<T>(m: Seq<Seq<T>>) -> nat {
    if m.len() == 0 {
        0
    } else {
        m[0].len()
    }
}

/// Every row is as long as the first.
pub open spec fn rectangular<T>(m: Seq<Seq<T>>) -> bool {
    forall|i: int| 0 <= i < m.len() ==> (#[trigger] m[i]).len() == width(m)
}

/// `m` has `rows` rows of `cols` cells each.
pub open spec fn has_shape<T>(m: Seq<Seq<T>>, rows: nat, cols: nat) -> bool {
    &&& m.len() == rows
    &&& forall|i: int| 0 <= i < m.len() ==> (#[trigger] m[i]).len() == cols
}

/// `a` and `b` have as many rows, and as many columns.
pub open spec fn same_shape<T>(a: Seq<Seq<T>>, b: Seq<Seq<T>>) -> bool {
    a.len() == b.len() && width(a) == width(b)
}

/// `a` has the rows of `b`, each as long as its counterpart.
pub open spec fn congruent<T>(a: Seq<Seq<T>>, b: Seq<Seq<T>>) -> bool {
    &&& a.len() == b.len()
    &&& forall|i: int| 0 <= i < a.len() ==> (#[trigger] a[i]).len() == b[i].len()
}

/// A matrix that holds data: it is rectangular, and where it has a row, the
/// row has a cell.
pub open spec fn well_formed<T>(m: Seq<Seq<T>>) -> bool {
    rectangular(m) && (m.len() > 0 ==> width(m) > 0)
}

/// Column `j` of `m`, read from the first row down.
pub open spec fn column<T>(m: Seq<Seq<T>>, j: int) -> Seq<T> {
    Seq::new(m.len(), |i: int| m[i][j])
}

/// The matrix whose cell `(j, i)` is cell `(i, j)` of `m`. A matrix without
/// rows, or with rows without cells, has the empty matrix as its transpose.
pub open spec fn transposed<T>(m: Seq<Seq<T>>) -> Seq<Seq<T>> {
    if m.len() == 0 || m[0].len() == 0 {
        Seq::empty()
    } else {
        Seq::new(m[0].len(), |j: int| column(m, j))
    }
}

/// The matrix of one column that holds `v` from the top down; empty where
/// `v` is.
pub open spec fn column_vector<T>(v: Seq<T>) -> Seq<Seq<T>> {
    Seq::new(v.len(), |i: int| seq![v[i]])
}

/// Transposing twice gives the matrix back, for every matrix that holds
/// data.
pub proof fn lemma_transpose_involution<T>(m: Seq<Seq<T>>)
    requires
        well_formed(m),
    ensures
        transposed(transposed(m)) == m,
{
    let back = transposed(transposed(m));
    if m.len() > 0 {
        assert(m[0].len() == width(m));
        assert forall|i: int| 0 <= i < m.len() implies #[trigger] back[i] == m[i] by {
            assert(back[i] =~= m[i]);
        }
    }
    assert(back =~= m);
}

/// The transpose of a rectangular matrix with rows and columns has one row
/// for each column and one column for each row.
pub proof fn lemma_transposed_shape<T>(m: Seq<Seq<T>>)
    requires
        rectangular(m),
    ensures
        rectangular(transposed(m)),
        m.len() > 0 && width(m) > 0 ==> has_shape(transposed(m), width(m), m.len()),
        m.len() == 0 || width(m) == 0 ==> transposed(m).len() == 0,
{
}

/// The transpose of a single row is the column that holds the same cells.
pub proof fn lemma_transposed_row<T>(v: Seq<T>)
    ensures
        transposed(seq![v]) == column_vector(v),
{
    let m = seq![v];
    assert(m[0] == v);
    assert forall|j: int| 0 <= j < v.len() implies #[trigger] transposed(m)[j] == column_vector(
        v,
    )[j] by {
        assert(column(m, j) =~= seq![v[j]]);
    }
    assert(transposed(m) =~= column_vector(v));
}

} // verus!
