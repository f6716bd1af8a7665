use rand_distr::{Distribution, Normal};
use rustybrain::{
    dot_product, inverse_root, is_rectangular, matrix_add, matrix_elementwise_mul, matrix_scale,
    matrix_subtract, random_normal_matrix, sigmoid, sigmoid_derivative, sigmoid_matrix,
    sigmoid_slope, traspose_matrix, MatrixError, Scalar,
};

/// Double-precision numbers as the kernel's scalars.
#[derive(Clone, Copy, Debug, PartialEq)]
struct Real(f64);

impl Scalar for Real {
    fn zero() -> Self {
        Real(0.0)
    }

    fn one() -> Self {
        Real(1.0)
    }

    fn from_count(n: usize) -> Self {
        Real(n as f64)
    }

    fn plus(self, rhs: Self) -> Self {
        Real(self.0 + rhs.0)
    }

    fn minus(self, rhs: Self) -> Self {
        Real(self.0 - rhs.0)
    }

    fn times(self, rhs: Self) -> Self {
        Real(self.0 * rhs.0)
    }

    fn over(self, rhs: Self) -> Self {
        Real(self.0 / rhs.0)
    }

    fn negated(self) -> Self {
        Real(-self.0)
    }

    fn exp(self) -> Self {
        Real(self.0.exp())
    }

    fn sqrt(self) -> Self {
        Real(self.0.sqrt())
    }

    fn is_negative(self) -> bool {
        self.0 < 0.0
    }

    fn normal_sample(mean: Self, std_dev: Self) -> Option<Self> {
        let normal = Normal::new(mean.0, std_dev.0).ok()?;
        Some(Real(normal.sample(&mut rand::rng())))
    }
}

fn reals(rows: Vec<Vec<f64>>) -> Vec<Vec<Real>> {
    rows.into_iter().map(|row| row.into_iter().map(Real).collect()).collect()
}

fn floats(rows: Vec<Vec<Real>>) -> Vec<Vec<f64>> {
    rows.into_iter().map(|row| row.into_iter().map(|x| x.0).collect()).collect()
}

#[test]
fn test_sigmoid() {
    let input = 0.4;
    let expected = 0.598687660112452;
    let actual = sigmoid(Real(input)).0;
    assert_eq!(expected, actual, "Expected result from sigmoid of 0.4 is 0.598687660112452");
}

#[test]
fn test_transpose_matrix() {
    let input = vec![vec![1.0, 2.0, 3.0], vec![4.0, 5.0, 6.0]];
    let expected = vec![vec![1.0, 4.0], vec![2.0, 5.0], vec![3.0, 6.0]];
    let actual = traspose_matrix(&input);
    assert_eq!(expected, actual);
}

#[test]
fn test_dot_product() {
    let a = vec![vec![1.14062627, 0.10998959, 0.1515219]];
    let b = vec![vec![1.0], vec![2.0], vec![3.0]];
    let expected = vec![vec![1.8151711499999998]];
    let actual = floats(dot_product(&reals(a), &reals(b)).unwrap());
    assert_eq!(expected, actual);
}

#[test]
fn test_matrix_subtract() {
    let a = vec![vec![5.0, 7.0], vec![3.0, 2.0]];
    let b = vec![vec![2.0, 4.0], vec![1.0, 5.0]];
    let expected = vec![vec![3.0, 3.0], vec![2.0, -3.0]];
    let actual = floats(matrix_subtract(&reals(a), &reals(b)).unwrap());
    assert_eq!(expected, actual);
}

#[test]
fn test_sigmoid_derivative() {
    let input = vec![vec![0.5, 0.8], vec![0.2, 0.0]];
    let expected = vec![vec![0.25, 0.16], vec![0.16, 0.0]];
    let actual = floats(sigmoid_derivative(&reals(input)));
    assert_eq!(actual.len(), expected.len());
    for (row_a, row_e) in actual.iter().zip(expected.iter()) {
        assert_eq!(row_a.len(), row_e.len());
        for (a, e) in row_a.iter().zip(row_e.iter()) {
            assert!((a - e).abs() < 1e-8, "Expected {}, got {}", e, a);
        }
    }
}

#[test]
fn test_matrix_elementwise_mul() {
    let a = vec![vec![1.0, 2.0], vec![3.0, 4.0]];
    let b = vec![vec![2.0, 0.5], vec![1.5, 2.0]];
    let expected = vec![vec![2.0, 1.0], vec![4.5, 8.0]];
    let actual = floats(matrix_elementwise_mul(&reals(a), &reals(b)).unwrap());
    assert_eq!(expected, actual);
}

#[test]
fn test_matrix_scale() {
    let matrix = vec![vec![1.0, -2.0], vec![0.5, 4.0]];
    let scalar = 3.0;
    let expected = vec![vec![3.0, -6.0], vec![1.5, 12.0]];
    let actual = floats(matrix_scale(&reals(matrix), Real(scalar)));
    assert_eq!(expected, actual);
}

#[test]
fn sigmoid_of_zero_is_one_half() {
    assert_eq!(sigmoid(Real(0.0)), Real(0.5));
}

#[test]
fn sigmoid_stays_between_zero_and_one() {
    for x in [-30.0, -4.0, -0.4, 0.0, 0.4, 4.0, 30.0] {
        let y = sigmoid(Real(x)).0;
        assert!(0.0 < y && y < 1.0, "sigmoid({}) = {}", x, y);
    }
}

#[test]
fn sigmoid_grows_with_its_argument() {
    let points = [-8.0, -2.0, -0.5, 0.0, 0.5, 2.0, 8.0];
    for pair in points.windows(2) {
        assert!(sigmoid(Real(pair[0])).0 < sigmoid(Real(pair[1])).0);
    }
}

#[test]
fn sigmoid_mirrors_about_zero() {
    for x in [0.1, 0.4, 1.0, 3.0] {
        let left = sigmoid(Real(-x)).0;
        let right = 1.0 - sigmoid(Real(x)).0;
        assert!((left - right).abs() < 1e-15, "{} against {}", left, right);
    }
    assert!((sigmoid(Real(-0.4)).0 - 0.401312339887548).abs() < 1e-15);
}

#[test]
fn sigmoid_slope_is_output_times_its_complement() {
    assert_eq!(sigmoid_slope(Real(0.5)), Real(0.25));
    assert_eq!(sigmoid_slope(Real(0.0)), Real(0.0));
    assert_eq!(sigmoid_slope(Real(1.0)), Real(0.0));
    assert_eq!(sigmoid_slope(Real(0.25)), Real(0.1875));
}

#[test]
fn inverse_root_of_a_node_count() {
    assert_eq!(inverse_root::<Real>(4), Real(0.5));
    assert_eq!(inverse_root::<Real>(1), Real(1.0));
    assert_eq!(inverse_root::<Real>(200), Real(0.07071067811865475));
    assert_eq!(inverse_root::<Real>(10), Real(0.31622776601683794));
}

#[test]
fn sigmoid_matrix_applies_to_every_cell() {
    let actual = floats(sigmoid_matrix(&reals(vec![vec![0.0, 0.4], vec![0.4, 0.0]])));
    let expected = vec![vec![0.5, 0.598687660112452], vec![0.598687660112452, 0.5]];
    assert_eq!(expected, actual);
    assert!(sigmoid_matrix::<Real>(&vec![]).is_empty());
}

#[test]
fn transpose_twice_gives_the_matrix_back() {
    let matrices = vec![
        vec![vec![1.0, 2.0, 3.0], vec![4.0, 5.0, 6.0]],
        vec![vec![7.5]],
        vec![vec![1.0], vec![2.0], vec![3.0]],
        vec![vec![1.0, 2.0, 3.0, 4.0]],
        vec![],
    ];
    for m in matrices {
        assert_eq!(traspose_matrix(&traspose_matrix(&m)), m);
    }
}

#[test]
fn transpose_of_a_row_is_a_column() {
    assert_eq!(traspose_matrix(&vec![vec![1, 2, 3]]), vec![vec![1], vec![2], vec![3]]);
}

#[test]
fn transpose_without_cells_is_empty() {
    let no_rows: Vec<Vec<f64>> = vec![];
    assert!(traspose_matrix(&no_rows).is_empty());
    let no_columns: Vec<Vec<f64>> = vec![vec![], vec![]];
    assert!(traspose_matrix(&no_columns).is_empty());
}

#[test]
fn dot_product_of_square_matrices() {
    let a = reals(vec![vec![1.0, 2.0], vec![3.0, 4.0]]);
    let b = reals(vec![vec![5.0, 6.0], vec![7.0, 8.0]]);
    let expected = vec![vec![19.0, 22.0], vec![43.0, 50.0]];
    assert_eq!(floats(dot_product(&a, &b).unwrap()), expected);
}

#[test]
fn dot_product_has_rows_of_the_left_and_columns_of_the_right() {
    let a = reals(vec![vec![1.0, 0.0], vec![0.0, 1.0], vec![1.0, 1.0]]);
    let b = reals(vec![vec![1.0, 2.0, 3.0, 4.0], vec![5.0, 6.0, 7.0, 8.0]]);
    let expected = vec![
        vec![1.0, 2.0, 3.0, 4.0],
        vec![5.0, 6.0, 7.0, 8.0],
        vec![6.0, 8.0, 10.0, 12.0],
    ];
    assert_eq!(floats(dot_product(&a, &b).unwrap()), expected);
}

#[test]
fn dot_product_refuses_mismatched_inner_dimensions() {
    let shapes = [((1, 2), (1, 1)), ((2, 3), (2, 3)), ((3, 1), (2, 2)), ((1, 1), (4, 1))];
    for ((rows_a, cols_a), (rows_b, cols_b)) in shapes {
        let a = vec![vec![Real(1.0); cols_a]; rows_a];
        let b = vec![vec![Real(1.0); cols_b]; rows_b];
        assert_eq!(dot_product(&a, &b), Err(MatrixError::DimensionMismatch));
    }
}

#[test]
fn dot_product_without_rows_is_empty() {
    let empty: Vec<Vec<Real>> = vec![];
    let some = reals(vec![vec![1.0, 2.0], vec![3.0, 4.0], vec![5.0, 6.0]]);
    assert_eq!(dot_product(&empty, &some), Ok(vec![]));
    assert_eq!(dot_product(&some, &empty), Ok(vec![]));
    assert_eq!(dot_product(&empty, &empty), Ok(vec![]));
}

#[test]
fn matrix_add_adds_cell_by_cell() {
    let a = reals(vec![vec![1.0, 2.0], vec![3.0, 4.0]]);
    let b = reals(vec![vec![0.5, 0.25], vec![-3.0, 1.0]]);
    let expected = vec![vec![1.5, 2.25], vec![0.0, 5.0]];
    assert_eq!(floats(matrix_add(&a, &b).unwrap()), expected);
}

#[test]
fn cellwise_operations_refuse_different_shapes() {
    let a = reals(vec![vec![1.0, 2.0], vec![3.0, 4.0]]);
    let fewer_rows = reals(vec![vec![1.0, 2.0]]);
    let fewer_columns = reals(vec![vec![1.0], vec![2.0]]);
    let empty: Vec<Vec<Real>> = vec![];
    for b in [&fewer_rows, &fewer_columns, &empty] {
        assert_eq!(matrix_add(&a, b), Err(MatrixError::DimensionMismatch));
        assert_eq!(matrix_subtract(&a, b), Err(MatrixError::DimensionMismatch));
        assert_eq!(matrix_elementwise_mul(&a, b), Err(MatrixError::DimensionMismatch));
        assert_eq!(matrix_add(b, &a), Err(MatrixError::DimensionMismatch));
    }
}

#[test]
fn cellwise_operations_on_empty_matrices_are_empty() {
    let empty: Vec<Vec<Real>> = vec![];
    assert_eq!(matrix_add(&empty, &empty), Ok(vec![]));
    assert_eq!(matrix_subtract(&empty, &empty), Ok(vec![]));
    assert_eq!(matrix_elementwise_mul(&empty, &empty), Ok(vec![]));
    assert!(matrix_scale(&empty, Real(2.0)).is_empty());
    assert!(sigmoid_derivative(&empty).is_empty());
}

#[test]
fn rectangular_matrices_are_told_from_ragged_ones() {
    assert!(is_rectangular::<f64>(&vec![]));
    assert!(is_rectangular(&vec![vec![1.0, 2.0], vec![3.0, 4.0]]));
    assert!(is_rectangular::<f64>(&vec![vec![], vec![]]));
    assert!(!is_rectangular(&vec![vec![1.0, 2.0], vec![3.0]]));
    assert!(!is_rectangular(&vec![vec![1.0], vec![2.0], vec![3.0, 4.0]]));
}

#[test]
fn random_normal_matrix_has_the_asked_shape() {
    let m = random_normal_matrix(Real(0.0), Real(1.0), (3, 5)).unwrap();
    assert_eq!(m.len(), 3);
    assert!(m.iter().all(|row| row.len() == 5));
    assert!(m.iter().flatten().all(|x| x.0.is_finite()));
    let no_rows = random_normal_matrix(Real(0.0), Real(1.0), (0, 5)).unwrap();
    assert!(no_rows.is_empty());
    let no_columns = random_normal_matrix(Real(0.0), Real(1.0), (2, 0)).unwrap();
    assert_eq!(no_columns, vec![vec![], vec![]]);
}

#[test]
fn random_normal_matrix_spreads_about_the_mean() {
    let m = random_normal_matrix(Real(2.0), Real(0.5), (100, 100)).unwrap();
    let cells: Vec<f64> = m.iter().flatten().map(|x| x.0).collect();
    let n = cells.len() as f64;
    let mean = cells.iter().sum::<f64>() / n;
    let variance = cells.iter().map(|x| (x - mean) * (x - mean)).sum::<f64>() / n;
    assert!((mean - 2.0).abs() < 0.05, "mean {}", mean);
    assert!((variance.sqrt() - 0.5).abs() < 0.05, "deviation {}", variance.sqrt());
    assert!(cells.iter().any(|x| *x != cells[0]));
}

#[test]
fn random_normal_matrix_with_no_deviation_holds_the_mean() {
    let m = random_normal_matrix(Real(1.25), Real(0.0), (2, 3)).unwrap();
    assert_eq!(floats(m), vec![vec![1.25; 3]; 2]);
}

#[test]
fn random_normal_matrix_refuses_a_negative_deviation() {
    assert_eq!(
        random_normal_matrix(Real(0.0), Real(-1.0), (2, 2)),
        Err(MatrixError::InvalidDistributionParameters)
    );
    assert_eq!(
        random_normal_matrix(Real(0.0), Real(-0.001), (0, 0)),
        Err(MatrixError::InvalidDistributionParameters)
    );
}

#[test]
fn random_normal_matrix_refuses_what_is_no_distribution() {
    assert_eq!(
        random_normal_matrix(Real(0.0), Real(f64::INFINITY), (2, 2)),
        Err(MatrixError::InvalidDistributionParameters)
    );
    assert_eq!(
        random_normal_matrix(Real(0.0), Real(f64::NAN), (1, 1)),
        Err(MatrixError::InvalidDistributionParameters)
    );
}
