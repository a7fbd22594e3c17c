//! Mathematical model of vectors and matrices: a vector is a `Seq<N>`, a matrix
//! a `Seq<Seq<N>>` of rows, and every operation is written over the scalar's
//! spec operations, in the order in which it is carried out.
use vstd::prelude::*;
use crate::traits::scalar::Scalar;

verus! {

/// The `n x n` identity matrix.
pub open spec fn identity<N: Scalar>(n: nat) -> Seq<Seq<N>> {
    Seq::new(n, |i: int| Seq::new(n, |j: int| if i == j { N::spec_one() } else { N::spec_zero() }))
}

/// `a[0] * b[0] + ... + a[n - 1] * b[n - 1]`, summed from the left starting at zero.
pub open spec fn dot<N: Scalar>(a: Seq<N>, b: Seq<N>, n: nat) -> N
    decreases n,
{
    if n == 0 {
        N::spec_zero()
    } else {
        dot(a, b, (n - 1) as nat).spec_add(a[n - 1].spec_mul(b[n - 1]))
    }
}

/// Column `j` of `a`.
pub open spec fn column<N>(a: Seq<Seq<N>>, j: int) -> Seq<N> {
    Seq::new(a.len(), |i: int| a[i][j])
}

/// The product of `a` (with `inner` columns) and `b` (with `cols` columns).
pub open spec fn mat_mul<N: Scalar>(a: Seq<Seq<N>>, b: Seq<Seq<N>>, inner: nat, cols: nat) -> Seq<
    Seq<N>,
> {
    Seq::new(a.len(), |i: int| Seq::new(cols, |j: int| dot(a[i], column(b, j), inner)))
}

/// The transpose of the `rows x cols` matrix `a`.
pub open spec fn transpose<N>(a: Seq<Seq<N>>, cols: nat) -> Seq<Seq<N>> {
    Seq::new(cols, |j: int| column(a, j))
}

/// The Euclidean norm: the square root of the sum of squares.
pub open spec fn norm<N: Scalar>(v: Seq<N>) -> N {
    dot(v, v, v.len()).spec_sqrt()
}

/// Every entry of `v` divided by `d`.
pub open spec fn scaled_down<N: Scalar>(v: Seq<N>, d: N) -> Seq<N> {
    v.map_values(|x: N| x.spec_div(d))
}

/// The diagonal of `a`, of length `min(rows, cols)`.
pub open spec fn diagonal<N>(a: Seq<Seq<N>>, len: nat) -> Seq<N> {
    Seq::new(len, |i: int| a[i][i])
}

/// Rows `start .. end` of column `j` of `a`.
pub open spec fn column_slice<N>(a: Seq<Seq<N>>, j: int, start: int, end: int) -> Seq<N> {
    Seq::new((end - start) as nat, |k: int| a[start + k][j])
}

/// Columns `start .. end` of row `i` of `a`.
pub open spec fn row_slice<N>(a: Seq<Seq<N>>, i: int, start: int, end: int) -> Seq<N> {
    a[i].subrange(start, end)
}

} // verus!
