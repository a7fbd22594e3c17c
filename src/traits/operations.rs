//! Operations on vectors and matrices that the decompositions use.
use vstd::prelude::*;
use crate::traits::scalar::Scalar;
use crate::traits::model::{mat_mul, norm, scaled_down, transpose};
use crate::traits::structure::{mat_of, vec_of, Dims, Indexable};

verus! {

/// Copying a value together with all of its entries.
pub trait Duplicate<I: Dims, R>: Indexable<I, R> {
    /// Returns a copy of `self`.
    fn duplicate(&self) -> (r: Self)
        ensures
            r.spec_shape() == self.spec_shape(),
            forall|i: I|
                #![trigger r.spec_at(i)]
                self.spec_shape().spec_contains(i) ==> r.spec_at(i) == self.spec_at(i),
    ;
}

/// Transposition of a matrix.
pub trait Transpose<N>: Indexable<(usize, usize), N> {
    /// Returns the transpose of `self`.
    fn transpose_cpy(&self) -> (r: Self)
        ensures
            r.spec_shape() == (self.spec_shape().1, self.spec_shape().0),
            mat_of(&r) == transpose(mat_of(self), self.spec_shape().1 as nat),
    ;
}

/// Matrix product.
pub trait MatMul<N: Scalar>: Indexable<(usize, usize), N> {
    /// Returns `self * rhs`.
    fn mat_mul(&self, rhs: &Self) -> (r: Self)
        requires
            self.spec_shape().1 == rhs.spec_shape().0,
            self.spec_shape().0 as int * rhs.spec_shape().1 as int <= usize::MAX,
        ensures
            r.spec_shape() == (self.spec_shape().0, rhs.spec_shape().1),
            mat_of(&r) == mat_mul(
                mat_of(self),
                mat_of(rhs),
                self.spec_shape().1 as nat,
                rhs.spec_shape().1 as nat,
            ),
    ;
}

/// The Euclidean norm of a vector.
pub trait Norm<N: Scalar>: Indexable<usize, N> {
    /// The norm of `self`.
    fn norm(&self) -> (r: N)
        ensures
            r == norm(vec_of(self)),
    ;

    /// Divides `self` by its norm; returns the norm it had before.
    fn normalize(&mut self) -> (r: N)
        ensures
            r == norm(vec_of(old(self))),
            final(self).spec_shape() == old(self).spec_shape(),
            vec_of(final(self)) == scaled_down(vec_of(old(self)), r),
    ;
}

/// `a` and `b`, both `rows x cols`, are equal up to `eps`: no entry of one
/// differs from the same entry of the other by `eps` or more in absolute value.
pub open spec fn approx_equal<N: Scalar>(
    a: Seq<Seq<N>>,
    b: Seq<Seq<N>>,
    rows: nat,
    cols: nat,
    eps: N,
) -> bool {
    forall|i: int, j: int|
        0 <= i < rows && 0 <= j < cols ==> !(#[trigger] a[i][j]).spec_sub(b[i][j]).spec_abs().spec_ge(
            eps,
        )
}

/// Approximate equality of matrices against a tolerance.
pub trait ApproxEq<N: Scalar>: Indexable<(usize, usize), N> {
    /// Tells whether `self` and `other` have one shape and equal entries up to `eps`.
    fn approx_eq_eps(&self, other: &Self, eps: &N) -> (r: bool)
        ensures
            r == (self.spec_shape() == other.spec_shape() && approx_equal(
                mat_of(self),
                mat_of(other),
                self.spec_shape().0 as nat,
                self.spec_shape().1 as nat,
                *eps,
            )),
    ;
}

/// Vectors of floating-point-like entries: indexable and with a norm.
pub trait FloatVec<N: Scalar>: Indexable<usize, N> + Norm<N> {

}

} // verus!
