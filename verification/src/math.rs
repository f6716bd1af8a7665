//! The dense matrix kernel.
//!
//! A matrix is a vector of rows. Every operation builds a new matrix and
//! leaves its operands as they were. What an operation returns is stated
//! cell by cell, as the relation that `crate::scalar` gives between the
//! operand cells and the result cell.

use vstd::prelude::*;
use crate::error::MatrixError;
use crate::scalar::{
    is_difference, is_draw, is_exp, is_negation, is_one, is_product, is_quotient, is_sigmoid,
    is_sigmoid_slope, is_sign, is_sum, is_zero, sigmoid_slope, Scalar,
};
use crate::shape::{
    column, congruent, grid, has_shape, lemma_transposed_shape, rectangular, same_shape,
    transposed, width,
};

verus! {

/// `s` holds, cell by cell, a sum of the cells of `a` and `b`.
pub open spec fn is_matrix_sum<T: Scalar>(a: Seq<Seq<T>>, b: Seq<Seq<T>>, s: Seq<Seq<T>>) -> bool {
    &&& congruent(s, a)
    &&& forall|i: int, j: int|
        0 <= i < s.len() && 0 <= j < s[i].len() ==> is_sum(a[i][j], b[i][j], #[trigger] s[i][j])
}

/// `d` holds, cell by cell, a difference of the cells of `a` and `b`.
pub open spec fn is_matrix_difference<T: Scalar>(
    a: Seq<Seq<T>>,
    b: Seq<Seq<T>>,
    d: Seq<Seq<T>>,
) -> bool {
    &&& congruent(d, a)
    &&& forall|i: int, j: int|
        0 <= i < d.len() && 0 <= j < d[i].len() ==> is_difference(
            a[i][j],
            b[i][j],
            #[trigger] d[i][j],
        )
}

/// `p` holds, cell by cell, a product of the cells of `a` and `b`.
pub open spec fn is_cellwise_product<T: Scalar>(
    a: Seq<Seq<T>>,
    b: Seq<Seq<T>>,
    p: Seq<Seq<T>>,
) -> bool {
    &&& congruent(p, a)
    &&& forall|i: int, j: int|
        0 <= i < p.len() && 0 <= j < p[i].len() ==> is_product(
            a[i][j],
            b[i][j],
            #[trigger] p[i][j],
        )
}

/// `s` holds, cell by cell, a product of the cell of `m` and `k`.
pub open spec fn is_scaled<T: Scalar>(m: Seq<Seq<T>>, k: T, s: Seq<Seq<T>>) -> bool {
    &&& congruent(s, m)
    &&& forall|i: int, j: int|
        0 <= i < s.len() && 0 <= j < s[i].len() ==> is_product(m[i][j], k, #[trigger] s[i][j])
}

/// `s` holds, cell by cell, a value of the logistic function at the cell of
/// `m`.
pub open spec fn is_matrix_sigmoid<T: Scalar>(m: Seq<Seq<T>>, s: Seq<Seq<T>>) -> bool {
    &&& congruent(s, m)
    &&& forall|i: int, j: int|
        0 <= i < s.len() && 0 <= j < s[i].len() ==> is_sigmoid(m[i][j], #[trigger] s[i][j])
}

/// `s` holds, cell by cell, `o * (1 - o)` for the cell `o` of `m`.
pub open spec fn is_matrix_sigmoid_slope<T: Scalar>(m: Seq<Seq<T>>, s: Seq<Seq<T>>) -> bool {
    &&& congruent(s, m)
    &&& forall|i: int, j: int|
        0 <= i < s.len() && 0 <= j < s[i].len() ==> is_sigmoid_slope(m[i][j], #[trigger] s[i][j])
}

/// `acc` is what the accumulation `0 + row[0] * col[0] + ... ` may hold after
/// its first `k` terms, each product added to the sum so far, in order.
pub open spec fn is_partial_dot<T: Scalar>(row: Seq<T>, col: Seq<T>, k: nat, acc: T) -> bool
    decreases k,
{
    if k == 0 {
        is_zero(acc)
    } else {
        exists|prev: T, term: T|
            is_partial_dot(row, col, (k - 1) as nat, prev) && is_product(
                row[k - 1],
                col[k - 1],
                term,
            ) && #[trigger] is_sum(prev, term, acc)
    }
}

/// One more term extends an accumulation by one step.
pub proof fn lemma_partial_dot_step<T: Scalar>(
    row: Seq<T>,
    col: Seq<T>,
    k: nat,
    prev: T,
    term: T,
    acc: T,
)
    requires
        k < row.len(),
        k < col.len(),
        is_partial_dot(row, col, k, prev),
        is_product(row[k as int], col[k as int], term),
        is_sum(prev, term, acc),
    ensures
        is_partial_dot(row, col, k + 1, acc),
{
    assert((k + 1 - 1) as nat == k);
}

/// `acc` is a value of the inner product of `row` and `col`.
pub open spec fn is_dot<T: Scalar>(row: Seq<T>, col: Seq<T>, acc: T) -> bool {
    row.len() == col.len() && is_partial_dot(row, col, row.len(), acc)
}

/// The product of `a` and `b` is defined: one of them has no rows, or `a`
/// has as many columns as `b` has rows.
pub open spec fn multipliable<T>(a: Seq<Seq<T>>, b: Seq<Seq<T>>) -> bool {
    a.len() == 0 || b.len() == 0 || width(a) == b.len()
}

/// `p` is a matrix product of `a` and `b`: empty where either has no rows,
/// and else the matrix whose cell `(i, j)` is an inner product of row `i` of
/// `a` and column `j` of `b`.
pub open spec fn is_matrix_product<T: Scalar>(
    a: Seq<Seq<T>>,
    b: Seq<Seq<T>>,
    p: Seq<Seq<T>>,
) -> bool {
    if a.len() == 0 || b.len() == 0 {
        p.len() == 0
    } else {
        &&& has_shape(p, a.len(), width(b))
        &&& forall|i: int, j: int|
            0 <= i < p.len() && 0 <= j < p[i].len() ==> is_dot(
                a[i],
                column(b, j),
                #[trigger] p[i][j],
            )
    }
}

/// Whether every row of `matrix` is as long as the first: what the other
/// operations ask of their operands.
pub fn is_rectangular<T>(matrix: &Vec<Vec<T>>) -> (b: bool)
    ensures
        b == rectangular(grid(matrix@)),
{
    if matrix.len() == 0 {
        return true;
    }
    let cols: usize = matrix[0].len();
    let mut i: usize = 1;
    while i < matrix.len()
        invariant
            matrix.len() > 0,
            cols == matrix[0].len(),
            1 <= i <= matrix.len(),
            forall|r: int| 0 <= r < i ==> (#[trigger] grid(matrix@)[r]).len() == cols,
        decreases matrix.len() - i,
    {
        if matrix[i].len() != cols {
            assert(grid(matrix@)[i as int].len() != width(grid(matrix@)));
            return false;
        }
        i += 1;
    }
    true
}

/// The transpose of `matrix`.
pub fn traspose_matrix<T: Copy>(matrix: &Vec<Vec<T>>) -> (t: Vec<Vec<T>>)
    requires
        rectangular(grid(matrix@)),
    ensures
        grid(t@) == transposed(grid(matrix@)),
        rectangular(grid(t@)),
{
    proof {
        lemma_transposed_shape(grid(matrix@));
    }
    if matrix.len() == 0 || matrix[0].len() == 0 {
        let t: Vec<Vec<T>> = Vec::new();
        assert(grid(t@) =~= transposed(grid(matrix@)));
        return t;
    }
    let rows: usize = matrix.len();
    let cols: usize = matrix[0].len();
    let mut t: Vec<Vec<T>> = Vec::with_capacity(cols);
    let mut j: usize = 0;
    while j < cols
        invariant
            rectangular(grid(matrix@)),
            rows == matrix.len(),
            rows > 0,
            cols == matrix[0].len(),
            j <= cols,
            t.len() == j,
            forall|c: int| 0 <= c < j ==> (#[trigger] t[c])@ == column(grid(matrix@), c),
        decreases cols - j,
    {
        let mut line: Vec<T> = Vec::with_capacity(rows);
        let mut i: usize = 0;
        while i < rows
            invariant
                rectangular(grid(matrix@)),
                rows == matrix.len(),
                rows > 0,
                cols == matrix[0].len(),
                j < cols,
                i <= rows,
                line.len() == i,
                forall|r: int| 0 <= r < i ==> #[trigger] line[r] == matrix[r][j as int],
            decreases rows - i,
        {
            assert(grid(matrix@)[i as int].len() == cols);
            line.push(matrix[i][j]);
            i += 1;
        }
        assert(line@ =~= column(grid(matrix@), j as int));
        t.push(line);
        j += 1;
    }
    assert(grid(t@) =~= transposed(grid(matrix@)));
    t
}

/// The matrix product of `matrix_a` and `matrix_b`.
///
/// Each cell starts from zero and takes the products of a row of `matrix_a`
/// with a column of `matrix_b` one after the other. Where either operand has
/// no rows the product is empty, whatever the other holds.
pub fn dot_product<T: Scalar>(matrix_a: &Vec<Vec<T>>, matrix_b: &Vec<Vec<T>>) -> (r: Result<
    Vec<Vec<T>>,
    MatrixError,
>)
    requires
        rectangular(grid(matrix_a@)),
        rectangular(grid(matrix_b@)),
    ensures
        match r {
            Ok(p) => multipliable(grid(matrix_a@), grid(matrix_b@)) && is_matrix_product(
                grid(matrix_a@),
                grid(matrix_b@),
                grid(p@),
            ),
            Err(e) => e == MatrixError::DimensionMismatch && !multipliable(
                grid(matrix_a@),
                grid(matrix_b@),
            ),
        },
{
    let rows_a: usize = matrix_a.len();
    if rows_a == 0 {
        return Ok(Vec::new());
    }
    let cols_a: usize = matrix_a[0].len();
    let rows_b: usize = matrix_b.len();
    if rows_b == 0 {
        return Ok(Vec::new());
    }
    let cols_b: usize = matrix_b[0].len();
    if cols_a != rows_b {
        return Err(MatrixError::DimensionMismatch);
    }
    let ghost a = grid(matrix_a@);
    let ghost b = grid(matrix_b@);
    let mut result: Vec<Vec<T>> = Vec::with_capacity(rows_a);
    let mut i: usize = 0;
    while i < rows_a
        invariant
            a == grid(matrix_a@),
            b == grid(matrix_b@),
            rectangular(a),
            rectangular(b),
            rows_a == matrix_a.len(),
            rows_b == matrix_b.len(),
            cols_a == width(a),
            cols_b == width(b),
            cols_a == rows_b,
            rows_b > 0,
            i <= rows_a,
            result.len() == i,
            forall|r: int| 0 <= r < i ==> (#[trigger] result[r]).len() == cols_b,
            forall|r: int, c: int|
                0 <= r < i && 0 <= c < cols_b ==> is_dot(a[r], column(b, c), #[trigger] result[r][c]),
        decreases rows_a - i,
    {
        let mut line: Vec<T> = Vec::with_capacity(cols_b);
        let mut j: usize = 0;
        while j < cols_b
            invariant
                a == grid(matrix_a@),
                b == grid(matrix_b@),
                rectangular(a),
                rectangular(b),
                rows_a == matrix_a.len(),
                rows_b == matrix_b.len(),
                cols_a == width(a),
                cols_b == width(b),
                cols_a == rows_b,
                rows_b > 0,
                i < rows_a,
                j <= cols_b,
                line.len() == j,
                forall|c: int| 0 <= c < j ==> is_dot(a[i as int], column(b, c), #[trigger] line[c]),
            decreases cols_b - j,
        {
            let ghost row = a[i as int];
            let ghost col = column(b, j as int);
            assert(row.len() == cols_a);
            let mut sum: T = T::zero();
            let mut k: usize = 0;
            while k < cols_a
                invariant
                    a == grid(matrix_a@),
                    b == grid(matrix_b@),
                    rectangular(a),
                    rectangular(b),
                    rows_a == matrix_a.len(),
                    rows_b == matrix_b.len(),
                    cols_a == width(a),
                    cols_b == width(b),
                    cols_a == rows_b,
                    i < rows_a,
                    j < cols_b,
                    row == a[i as int],
                    col == column(b, j as int),
                    row.len() == cols_a,
                    k <= cols_a,
                    is_partial_dot(row, col, k as nat, sum),
                decreases cols_a - k,
            {
                assert(b[k as int].len() == cols_b);
                let term: T = matrix_a[i][k].times(matrix_b[k][j]);
                let next: T = sum.plus(term);
                proof {
                    lemma_partial_dot_step(row, col, k as nat, sum, term, next);
                }
                sum = next;
                k += 1;
            }
            line.push(sum);
            j += 1;
        }
        result.push(line);
        i += 1;
    }
    Ok(result)
}

/// Whether two matrices have the same shape, judged by their row counts and
/// their first rows.
fn shapes_agree<T>(a: &Vec<Vec<T>>, b: &Vec<Vec<T>>) -> (same: bool)
    ensures
        same == same_shape(grid(a@), grid(b@)),
{
    if a.len() != b.len() {
        false
    } else if a.len() == 0 {
        true
    } else {
        a[0].len() == b[0].len()
    }
}

/// The matrix whose cells are what `f` gives for the matching cells of `a`
/// and `b`, row by row and left to right.
fn zip_cells<T: Copy, F: Fn(T, T) -> T>(a: &Vec<Vec<T>>, b: &Vec<Vec<T>>, f: F) -> (r: Result<
    Vec<Vec<T>>,
    MatrixError,
>)
    requires
        rectangular(grid(a@)),
        rectangular(grid(b@)),
        forall|x: T, y: T| call_requires(f, (x, y)),
    ensures
        match r {
            Ok(m) => {
                &&& same_shape(grid(a@), grid(b@))
                &&& congruent(grid(m@), grid(a@))
                &&& forall|i: int, j: int|
                    0 <= i < m.len() && 0 <= j < m[i].len() ==> call_ensures(
                        f,
                        (a[i][j], b[i][j]),
                        #[trigger] grid(m@)[i][j],
                    )
            },
            Err(e) => e == MatrixError::DimensionMismatch && !same_shape(grid(a@), grid(b@)),
        },
{
    if !shapes_agree(a, b) {
        return Err(MatrixError::DimensionMismatch);
    }
    let rows: usize = a.len();
    let mut result: Vec<Vec<T>> = Vec::with_capacity(rows);
    let mut i: usize = 0;
    while i < rows
        invariant
            rectangular(grid(a@)),
            rectangular(grid(b@)),
            same_shape(grid(a@), grid(b@)),
            forall|x: T, y: T| call_requires(f, (x, y)),
            rows == a.len(),
            i <= rows,
            result.len() == i,
            forall|r: int| 0 <= r < i ==> (#[trigger] result[r]).len() == a[r].len(),
            forall|r: int, c: int|
                0 <= r < i && 0 <= c < result[r].len() ==> call_ensures(
                    f,
                    (a[r][c], b[r][c]),
                    #[trigger] result[r][c],
                ),
        decreases rows - i,
    {
        let cols: usize = a[i].len();
        assert(grid(a@)[i as int].len() == width(grid(a@)));
        assert(grid(b@)[i as int].len() == width(grid(b@)));
        let mut line: Vec<T> = Vec::with_capacity(cols);
        let mut j: usize = 0;
        while j < cols
            invariant
                forall|x: T, y: T| call_requires(f, (x, y)),
                i < a.len(),
                i < b.len(),
                cols == a[i as int].len(),
                cols == b[i as int].len(),
                j <= cols,
                line.len() == j,
                forall|c: int|
                    0 <= c < j ==> call_ensures(
                        f,
                        (a[i as int][c], b[i as int][c]),
                        #[trigger] line[c],
                    ),
            decreases cols - j,
        {
            line.push(f(a[i][j], b[i][j]));
            j += 1;
        }
        result.push(line);
        i += 1;
    }
    Ok(result)
}

/// The matrix whose cells are what `f` gives for the cells of `m`, row by
/// row and left to right.
fn map_cells<T: Copy, F: Fn(T) -> T>(m: &Vec<Vec<T>>, f: F) -> (r: Vec<Vec<T>>)
    requires
        forall|x: T| call_requires(f, (x,)),
    ensures
        congruent(grid(r@), grid(m@)),
        forall|i: int, j: int|
            0 <= i < r.len() && 0 <= j < r[i].len() ==> call_ensures(
                f,
                (m[i][j],),
                #[trigger] grid(r@)[i][j],
            ),
{
    let rows: usize = m.len();
    let mut result: Vec<Vec<T>> = Vec::with_capacity(rows);
    let mut i: usize = 0;
    while i < rows
        invariant
            forall|x: T| call_requires(f, (x,)),
            rows == m.len(),
            i <= rows,
            result.len() == i,
            forall|r: int| 0 <= r < i ==> (#[trigger] result[r]).len() == m[r].len(),
            forall|r: int, c: int|
                0 <= r < i && 0 <= c < result[r].len() ==> call_ensures(
                    f,
                    (m[r][c],),
                    #[trigger] result[r][c],
                ),
        decreases rows - i,
    {
        let cols: usize = m[i].len();
        let mut line: Vec<T> = Vec::with_capacity(cols);
        let mut j: usize = 0;
        while j < cols
            invariant
                forall|x: T| call_requires(f, (x,)),
                i < m.len(),
                cols == m[i as int].len(),
                j <= cols,
                line.len() == j,
                forall|c: int| 0 <= c < j ==> call_ensures(f, (m[i as int][c],), #[trigger] line[c]),
            decreases cols - j,
        {
            line.push(f(m[i][j]));
            j += 1;
        }
        result.push(line);
        i += 1;
    }
    result
}

/// The logistic function `1 / (1 + e^-x)`.
pub fn sigmoid<T: Scalar>(x: T) -> (r: T)
    ensures
        is_sigmoid(x, r),
{
    let one = T::one();
    let n = x.negated();
    let e = n.exp();
    let d = one.plus(e);
    let r = one.over(d);
    assert(is_one(one) && is_negation(x, n) && is_exp(n, e) && is_sum(one, e, d) && is_quotient(
        one,
        d,
        r,
    ));
    r
}

/// `a - b`, cell by cell.
pub fn matrix_subtract<T: Scalar>(a: &Vec<Vec<T>>, b: &Vec<Vec<T>>) -> (r: Result<
    Vec<Vec<T>>,
    MatrixError,
>)
    requires
        rectangular(grid(a@)),
        rectangular(grid(b@)),
    ensures
        match r {
            Ok(d) => same_shape(grid(a@), grid(b@)) && is_matrix_difference(
                grid(a@),
                grid(b@),
                grid(d@),
            ),
            Err(e) => e == MatrixError::DimensionMismatch && !same_shape(grid(a@), grid(b@)),
        },
{
    let cell = |x: T, y: T| -> (z: T)
        ensures
            is_difference(x, y, z),
    {
        x.minus(y)
    };
    zip_cells(a, b, cell)
}

/// `a + b`, cell by cell.
pub fn matrix_add<T: Scalar>(a: &Vec<Vec<T>>, b: &Vec<Vec<T>>) -> (r: Result<
    Vec<Vec<T>>,
    MatrixError,
>)
    requires
        rectangular(grid(a@)),
        rectangular(grid(b@)),
    ensures
        match r {
            Ok(s) => same_shape(grid(a@), grid(b@)) && is_matrix_sum(grid(a@), grid(b@), grid(s@)),
            Err(e) => e == MatrixError::DimensionMismatch && !same_shape(grid(a@), grid(b@)),
        },
{
    let cell = |x: T, y: T| -> (z: T)
        ensures
            is_sum(x, y, z),
    {
        x.plus(y)
    };
    zip_cells(a, b, cell)
}

/// The slope of the logistic function at each cell, where `matrix` holds the
/// function's outputs: `o * (1 - o)` for each cell `o`.
pub fn sigmoid_derivative<T: Scalar>(matrix: &Vec<Vec<T>>) -> (r: Vec<Vec<T>>)
    ensures
        is_matrix_sigmoid_slope(grid(matrix@), grid(r@)),
{
    let cell = |o: T| -> (z: T)
        ensures
            is_sigmoid_slope(o, z),
    {
        sigmoid_slope(o)
    };
    map_cells(matrix, cell)
}

/// `a * b`, cell by cell.
pub fn matrix_elementwise_mul<T: Scalar>(a: &Vec<Vec<T>>, b: &Vec<Vec<T>>) -> (r: Result<
    Vec<Vec<T>>,
    MatrixError,
>)
    requires
        rectangular(grid(a@)),
        rectangular(grid(b@)),
    ensures
        match r {
            Ok(p) => same_shape(grid(a@), grid(b@)) && is_cellwise_product(
                grid(a@),
                grid(b@),
                grid(p@),
            ),
            Err(e) => e == MatrixError::DimensionMismatch && !same_shape(grid(a@), grid(b@)),
        },
{
    let cell = |x: T, y: T| -> (z: T)
        ensures
            is_product(x, y, z),
    {
        x.times(y)
    };
    zip_cells(a, b, cell)
}

/// Every cell of `matrix` times `scalar`.
pub fn matrix_scale<T: Scalar>(matrix: &Vec<Vec<T>>, scalar: T) -> (r: Vec<Vec<T>>)
    ensures
        is_scaled(grid(matrix@), scalar, grid(r@)),
{
    let cell = |x: T| -> (z: T)
        ensures
            is_product(x, scalar, z),
    {
        x.times(scalar)
    };
    map_cells(matrix, cell)
}

/// The logistic function applied to every cell of `matrix`.
pub fn sigmoid_matrix<T: Scalar>(matrix: &Vec<Vec<T>>) -> (r: Vec<Vec<T>>)
    ensures
        is_matrix_sigmoid(grid(matrix@), grid(r@)),
{
    let cell = |x: T| -> (z: T)
        ensures
            is_sigmoid(x, z),
    {
        sigmoid(x)
    };
    map_cells(matrix, cell)
}

/// `m` has `rows` rows of `cols` cells, each a draw from the normal
/// distribution with the given mean and standard deviation.
pub open spec fn is_normal_matrix<T: Scalar>(
    mean: T,
    dev: T,
    rows: nat,
    cols: nat,
    m: Seq<Seq<T>>,
) -> bool {
    &&& has_shape(m, rows, cols)
    &&& forall|i: int, j: int|
        0 <= i < m.len() && 0 <= j < m[i].len() ==> is_draw(mean, dev, Some(#[trigger] m[i][j]))
}

/// A matrix of `size.0` rows and `size.1` columns whose cells are drawn one
/// by one, row by row, from the normal distribution with mean `mean` and
/// standard deviation `dev`.
///
/// A deviation below zero is refused before anything is drawn, and so is a
/// pair of parameters for which a draw gives nothing. A deviation of zero is
/// passed on like any other.
pub fn random_normal_matrix<T: Scalar>(mean: T, dev: T, size: (usize, usize)) -> (r: Result<
    Vec<Vec<T>>,
    MatrixError,
>)
    ensures
        match r {
            Ok(m) => is_sign(dev, false) && is_normal_matrix(
                mean,
                dev,
                size.0 as nat,
                size.1 as nat,
                grid(m@),
            ),
            Err(e) => e == MatrixError::InvalidDistributionParameters && (is_sign(dev, true) || (
            size.0 > 0 && size.1 > 0 && is_draw(mean, dev, None))),
        },
{
    if dev.is_negative() {
        return Err(MatrixError::InvalidDistributionParameters);
    }
    let mut matrix: Vec<Vec<T>> = Vec::with_capacity(size.0);
    let mut i: usize = 0;
    while i < size.0
        invariant
            i <= size.0,
            matrix.len() == i,
            forall|r: int| 0 <= r < i ==> (#[trigger] matrix[r]).len() == size.1,
            forall|r: int, c: int|
                0 <= r < i && 0 <= c < size.1 ==> is_draw(mean, dev, Some(#[trigger] matrix[r][c])),
        decreases size.0 - i,
    {
        let mut row: Vec<T> = Vec::with_capacity(size.1);
        let mut j: usize = 0;
        while j < size.1
            invariant
                i < size.0,
                j <= size.1,
                row.len() == j,
                forall|c: int| 0 <= c < j ==> is_draw(mean, dev, Some(#[trigger] row[c])),
            decreases size.1 - j,
        {
            match T::normal_sample(mean, dev) {
                Some(x) => row.push(x),
                None => {
                    return Err(MatrixError::InvalidDistributionParameters);
                },
            }
            j += 1;
        }
        matrix.push(row);
        i += 1;
    }
    Ok(matrix)
}

} // verus!
