use linalg::linalg::decompositions::{eigen_qr, householder_matrix, qr};
use linalg::linalg::dmat::DMat;
use linalg::linalg::dvec::DVec;
use linalg::traits::operations::{MatMul, Norm, Transpose};
use linalg::traits::scalar::Scalar;
use linalg::traits::structure::Indexable;

#[derive(Clone, Copy, Debug, PartialEq)]
struct F(f64);

// The spec items of `Scalar` compile to ordinary methods; each one means the
// same `f64` operation as its executable counterpart.
impl Scalar for F {
    fn spec_zero() -> F {
        F(0.0)
    }
    fn spec_one() -> F {
        F(1.0)
    }
    fn spec_add(self, rhs: F) -> F {
        F(self.0 + rhs.0)
    }
    fn spec_sub(self, rhs: F) -> F {
        F(self.0 - rhs.0)
    }
    fn spec_mul(self, rhs: F) -> F {
        F(self.0 * rhs.0)
    }
    fn spec_div(self, rhs: F) -> F {
        F(self.0 / rhs.0)
    }
    fn spec_neg(self) -> F {
        F(-self.0)
    }
    fn spec_abs(self) -> F {
        F(self.0.abs())
    }
    fn spec_sqrt(self) -> F {
        F(self.0.sqrt())
    }
    fn spec_ge(self, rhs: F) -> bool {
        self.0 >= rhs.0
    }
    fn spec_is_zero(self) -> bool {
        self.0 == 0.0
    }
    fn zero() -> F {
        F(0.0)
    }
    fn one() -> F {
        F(1.0)
    }
    fn add(self, rhs: F) -> F {
        F(self.0 + rhs.0)
    }
    fn sub(self, rhs: F) -> F {
        F(self.0 - rhs.0)
    }
    fn mul(self, rhs: F) -> F {
        F(self.0 * rhs.0)
    }
    fn div(self, rhs: F) -> F {
        F(self.0 / rhs.0)
    }
    fn neg(self) -> F {
        F(-self.0)
    }
    fn abs(self) -> F {
        F(self.0.abs())
    }
    fn sqrt(self) -> F {
        F(self.0.sqrt())
    }
    fn ge(self, rhs: F) -> bool {
        self.0 >= rhs.0
    }
    fn is_zero(self) -> bool {
        self.0 == 0.0
    }
}

fn mat(rows: usize, cols: usize, entries: &[f64]) -> DMat<F> {
    DMat::from_row_vec(rows, cols, entries.iter().map(|x| F(*x)).collect())
}

fn get(m: &DMat<F>, i: usize, j: usize) -> f64 {
    m.at((i, j)).unwrap().0
}

fn shape(m: &DMat<F>) -> (usize, usize) {
    m.shape()
}

fn assert_close(a: &DMat<F>, b: &DMat<F>, tol: f64) {
    assert_eq!(shape(a), shape(b));
    let (rows, cols) = shape(a);
    for i in 0..rows {
        for j in 0..cols {
            assert!((get(a, i, j) - get(b, i, j)).abs() <= tol, "entry ({}, {}): {} vs {}", i, j, get(a, i, j), get(b, i, j));
        }
    }
}

fn identity(n: usize) -> DMat<F> {
    let mut v = vec![0.0; n * n];
    for i in 0..n {
        v[i * n + i] = 1.0;
    }
    mat(n, n, &v)
}

fn check_qr(m: &DMat<F>) {
    let (rows, cols) = shape(m);
    let (q, r) = qr(m);
    assert_eq!(shape(&q), (rows, rows));
    assert_eq!(shape(&r), (rows, cols));
    assert_close(&q.transpose_cpy().mat_mul(&q), &identity(rows), 1e-9);
    for i in 0..rows {
        for j in 0..cols {
            if i > j {
                assert!(get(&r, i, j).abs() < 1e-9);
            }
        }
    }
    assert_close(&q.mat_mul(&r), m, 1e-9);
}

#[test]
fn qr_is_orthogonal_triangular_and_reconstructs() {
    check_qr(&mat(3, 3, &[12.0, -51.0, 4.0, 6.0, 167.0, -68.0, -4.0, 24.0, -41.0]));
    check_qr(&mat(4, 3, &[1.0, 2.0, 3.0, -4.0, 5.0, 6.0, 7.0, -8.0, 9.0, 1.5, 0.5, -2.5]));
    check_qr(&mat(2, 2, &[0.0, 1.0, 1.0, 0.0]));
    check_qr(&mat(3, 1, &[3.0, 0.0, 4.0]));
    check_qr(&mat(3, 2, &[0.0, 1.0, 0.0, 2.0, 0.0, 3.0]));
}

#[test]
fn qr_of_identity_is_identity_up_to_sign() {
    let (q, r) = qr(&identity(3));
    for i in 0..3 {
        for j in 0..3 {
            let expected = if i == j { 1.0 } else { 0.0 };
            assert!((get(&q, i, j).abs() - expected).abs() < 1e-12);
            assert!((get(&r, i, j).abs() - expected).abs() < 1e-12);
        }
    }
    // the sign convention flips every reflected column
    assert_eq!(get(&r, 0, 0), -1.0);
    assert_eq!(get(&r, 2, 2), 1.0);
    assert_close(&q.mat_mul(&r), &identity(3), 1e-12);
}

#[test]
fn householder_reflects_onto_first_axis() {
    // the reflector that qr builds for x = (3, 4, 0): u = (x - alpha e1) / |x - alpha e1|
    let x: [f64; 3] = [3.0, 4.0, 0.0];
    let alpha: f64 = -5.0;
    let w = [x[0] - alpha, x[1], x[2]];
    let n = (w[0] * w[0] + w[1] * w[1] + w[2] * w[2]).sqrt();
    let u = DVec::from_vec(w.iter().map(|c| F(c / n)).collect());
    let h: DMat<F> = householder_matrix(3, 0, u);
    let hx = h.mat_mul(&mat(3, 1, &x));
    assert!((get(&hx, 0, 0) - alpha).abs() < 1e-12);
    assert!(get(&hx, 1, 0).abs() < 1e-12);
    assert!(get(&hx, 2, 0).abs() < 1e-12);
}

#[test]
fn householder_is_identity_outside_its_block() {
    let u = DVec::from_vec(vec![F(0.6), F(0.8)]);
    let h: DMat<F> = householder_matrix(4, 1, u);
    let expected = mat(
        4,
        4,
        &[
            1.0, 0.0, 0.0, 0.0,
            0.0, 1.0 - 0.72, -0.96, 0.0,
            0.0, -0.96, 1.0 - 1.28, 0.0,
            0.0, 0.0, 0.0, 1.0,
        ],
    );
    assert_close(&h, &expected, 1e-12);
}

#[test]
fn eigen_qr_converges_on_symmetric_three_by_three() {
    let m = mat(3, 3, &[4.0, 1.0, 0.0, 1.0, 3.0, 0.5, 0.0, 0.5, 1.0]);
    let (vecs, vals) = eigen_qr(&m, &F(1e-9), 200);
    let mut d: Vec<f64> = vals.to_vec().iter().map(|x| x.0).collect();
    d.sort_by(|a, b| a.partial_cmp(b).unwrap());
    // trace and determinant are preserved
    assert!((d.iter().sum::<f64>() - 8.0).abs() < 1e-9);
    assert!((d[0] * d[1] * d[2] - 10.0).abs() < 1e-9);
    assert!((d[1] - 2.5).abs() < 1e-9);
    // each column is an eigenvector for the eigenvalue on the diagonal
    let mv = m.mat_mul(&vecs);
    let e = vals.to_vec();
    for j in 0..3 {
        for i in 0..3 {
            assert!((get(&mv, i, j) - e[j].0 * get(&vecs, i, j)).abs() < 1e-7);
        }
    }
}

#[test]
fn eigen_qr_returns_estimate_when_rounds_run_out() {
    let m = mat(2, 2, &[2.0, 1.0, 1.0, 2.0]);
    let (vecs, vals) = eigen_qr(&m, &F(1e-12), 1);
    let (q, r) = qr(&m);
    let once = r.mat_mul(&q);
    assert_close(&vecs, &q, 1e-15);
    assert!((vals.to_vec()[0].0 - get(&once, 0, 0)).abs() < 1e-15);
    assert!((vals.to_vec()[1].0 - get(&once, 1, 1)).abs() < 1e-15);
}

#[test]
fn eigen_qr_with_zero_rounds_returns_input_diagonal() {
    let m = mat(2, 2, &[2.0, 1.0, 1.0, 7.0]);
    let (vecs, vals) = eigen_qr(&m, &F(1e-12), 0);
    assert_close(&vecs, &identity(2), 0.0);
    assert_eq!(vals.to_vec(), vec![F(2.0), F(7.0)]);
}

#[test]
fn eigen_qr_stops_at_once_on_diagonal_input() {
    let m = mat(3, 3, &[5.0, 0.0, 0.0, 0.0, -2.0, 0.0, 0.0, 0.0, 9.0]);
    let (vecs, vals) = eigen_qr(&m, &F(1e-6), 100);
    assert_close(&vecs, &identity(3), 0.0);
    assert_eq!(vals.to_vec(), vec![F(5.0), F(-2.0), F(9.0)]);
}

#[test]
fn qr_of_r_factor_only_flips_signs() {
    let m = mat(3, 3, &[12.0, -51.0, 4.0, 6.0, 167.0, -68.0, -4.0, 24.0, -41.0]);
    let (_, r) = qr(&m);
    let (q2, r2) = qr(&r);
    for i in 0..3 {
        for j in 0..3 {
            assert!((get(&r2, i, j).abs() - get(&r, i, j).abs()).abs() < 1e-9);
            let expected = if i == j { 1.0 } else { 0.0 };
            assert!((get(&q2, i, j).abs() - expected).abs() < 1e-9);
        }
    }
    assert_close(&q2.mat_mul(&r2), &r, 1e-9);
}

#[test]
fn qr_textbook_example() {
    let m = mat(3, 3, &[12.0, -51.0, 4.0, 6.0, 167.0, -68.0, -4.0, 24.0, -41.0]);
    let (q, r) = qr(&m);
    assert!((get(&r, 0, 0) - -14.0).abs() < 1e-9);
    assert!((get(&r, 1, 1) - -175.0).abs() < 1e-9);
    assert!((get(&r, 2, 2).abs() - 35.0).abs() < 1e-9);
    assert!((get(&r, 0, 1) - -21.0).abs() < 1e-9);
    assert!((get(&r, 0, 2) - 14.0).abs() < 1e-9);
    assert!((get(&r, 1, 2) - 70.0).abs() < 1e-9);
    assert_close(&q.mat_mul(&r), &m, 1e-9);
}

#[test]
fn eigen_qr_two_by_two_symmetric() {
    let m = mat(2, 2, &[2.0, 1.0, 1.0, 2.0]);
    let (vecs, vals) = eigen_qr(&m, &F(1e-6), 50);
    let d = vals.to_vec();
    assert!((d[0].0 - 3.0).abs() < 1e-6);
    assert!((d[1].0 - 1.0).abs() < 1e-6);
    // converged: reached the tolerance before the rounds ran out
    let (_, again) = eigen_qr(&m, &F(1e-6), 49);
    assert_eq!(again.to_vec(), d);
    let s = std::f64::consts::FRAC_1_SQRT_2;
    assert!((get(&vecs, 0, 0).abs() - s).abs() < 1e-6);
    assert!((get(&vecs, 1, 1).abs() - s).abs() < 1e-6);
}

#[test]
fn one_by_one_is_a_no_op() {
    let m = mat(1, 1, &[5.0]);
    let (q, r) = qr(&m);
    assert_eq!(get(&q, 0, 0), 1.0);
    assert_eq!(get(&r, 0, 0), 5.0);
    let (vecs, vals) = eigen_qr(&m, &F(1e-6), 10);
    assert_eq!(get(&vecs, 0, 0), 1.0);
    assert_eq!(vals.to_vec(), vec![F(5.0)]);
}

#[test]
fn normalize_reports_previous_norm() {
    let mut v = DVec::from_vec(vec![F(3.0), F(0.0), F(-4.0)]);
    assert_eq!(v.norm(), F(5.0));
    assert_eq!(v.normalize(), F(5.0));
    assert_eq!(v.to_vec(), vec![F(0.6), F(0.0), F(-0.8)]);
    let mut z = DVec::from_vec(vec![F(0.0), F(0.0)]);
    assert!(z.normalize().is_zero());
}

#[test]
fn empty_matrix_passes_through() {
    let m = mat(0, 0, &[]);
    let (q, r) = qr(&m);
    assert_eq!(shape(&q), (0, 0));
    assert_eq!(shape(&r), (0, 0));
    let (vecs, vals) = eigen_qr(&m, &F(1e-6), 5);
    assert_eq!(shape(&vecs), (0, 0));
    assert_eq!(vals.to_vec(), Vec::<F>::new());
}

#[test]
fn qr_of_zero_column_skips_the_reflection() {
    let m = mat(3, 1, &[0.0, 0.0, 0.0]);
    let (q, r) = qr(&m);
    assert_close(&q, &identity(3), 0.0);
    assert_close(&r, &m, 0.0);
}
