//! Traits giving structural information on linear algebra objects.
use vstd::prelude::*;
use crate::traits::scalar::Scalar;
use crate::traits::model::{column, column_slice, diagonal, identity, row_slice};

verus! {

/// An index type: a shape, and a test of whether an index lies inside it.
pub trait Dims: Sized {
    spec fn spec_contains(self, i: Self) -> bool;
}

impl Dims for usize {
    open spec fn spec_contains(self, i: usize) -> bool {
        i < self
    }
}

impl Dims for (usize, usize) {
    open spec fn spec_contains(self, i: (usize, usize)) -> bool {
        i.0 < self.0 && i.1 < self.1
    }
}

/// Objects which can be created from an object of type `T`.
pub trait Cast<T>: Sized {
    /// Converts an element of type `T` to an element of type `Self`.
    fn from(t: T) -> Self;
}

/// Indexed read and write access with a fixed shape.
///
/// `at` and `set` are the checked accessors: they report an index outside the
/// shape. `at_unchecked` and `set_unchecked` ask the caller to keep inside it.
pub trait Indexable<I: Dims, R>: Sized {
    /// The shape of the indexable range.
    spec fn spec_shape(&self) -> I;

    /// The element at `i`, for `i` inside the shape.
    spec fn spec_at(&self, i: I) -> R;

    /// Reads the `i`-th element of `self`, if it exists.
    fn at(&self, i: I) -> (r: Option<R>)
        ensures
            r == if self.spec_shape().spec_contains(i) {
                Some(self.spec_at(i))
            } else {
                None::<R>
            },
    ;

    /// Writes to the `i`-th element of `self`, if it exists; tells whether it did.
    fn set(&mut self, i: I, val: R) -> (r: bool)
        ensures
            r == old(self).spec_shape().spec_contains(i),
            final(self).spec_shape() == old(self).spec_shape(),
            r ==> final(self).spec_at(i) == val,
            forall|j: I|
                #![trigger final(self).spec_at(j)]
                final(self).spec_shape().spec_contains(j) && (j != i || !r) ==> final(self).spec_at(j) == old(self).spec_at(j),
    ;

    /// Swaps the `i`-th element of `self` with its `j`-th element.
    fn swap(&mut self, i: I, j: I)
        requires
            old(self).spec_shape().spec_contains(i),
            old(self).spec_shape().spec_contains(j),
        ensures
            final(self).spec_shape() == old(self).spec_shape(),
            final(self).spec_at(i) == old(self).spec_at(j),
            final(self).spec_at(j) == old(self).spec_at(i),
            forall|k: I|
                #![trigger final(self).spec_at(k)]
                final(self).spec_shape().spec_contains(k) && k != i && k != j ==> final(self).spec_at(k) == old(self).spec_at(k),
    ;

    /// Returns the shape of the indexable range.
    fn shape(&self) -> (r: I)
        ensures
            r == self.spec_shape(),
    ;

    /// Reads the `i`-th element of `self`; `i` must be inside the shape.
    fn at_unchecked(&self, i: I) -> (r: R)
        requires
            self.spec_shape().spec_contains(i),
        ensures
            r == self.spec_at(i),
    ;

    /// Writes to the `i`-th element of `self`; `i` must be inside the shape.
    fn set_unchecked(&mut self, i: I, val: R)
        requires
            old(self).spec_shape().spec_contains(i),
        ensures
            final(self).spec_shape() == old(self).spec_shape(),
            final(self).spec_at(i) == val,
            forall|j: I|
                #![trigger final(self).spec_at(j)]
                final(self).spec_shape().spec_contains(j) && j != i ==> final(self).spec_at(j)
                    == old(self).spec_at(j),
    ;
}

/// The number of rows of a matrix.
pub open spec fn nrows_of<N, M: Indexable<(usize, usize), N>>(m: &M) -> nat {
    m.spec_shape().0 as nat
}

/// The number of columns of a matrix.
pub open spec fn ncols_of<N, M: Indexable<(usize, usize), N>>(m: &M) -> nat {
    m.spec_shape().1 as nat
}

/// A matrix as its sequence of rows.
pub open spec fn mat_of<N, M: Indexable<(usize, usize), N>>(m: &M) -> Seq<Seq<N>> {
    Seq::new(
        m.spec_shape().0 as nat,
        |i: int| Seq::new(m.spec_shape().1 as nat, |j: int| m.spec_at((i as usize, j as usize))),
    )
}

/// A vector as the sequence of its entries.
pub open spec fn vec_of<N, V: Indexable<usize, N>>(v: &V) -> Seq<N> {
    Seq::new(v.spec_shape() as nat, |i: int| v.spec_at(i as usize))
}

/// Construction of the identity matrix.
pub trait Eye<N: Scalar>: Indexable<(usize, usize), N> {
    /// Returns the identity matrix of dimension `dim`.
    fn new_identity(dim: usize) -> (r: Self)
        requires
            dim as int * dim as int <= usize::MAX,
        ensures
            r.spec_shape() == (dim, dim),
            mat_of(&r) == identity::<N>(dim as nat),
    ;
}

/// Access to the rows of a matrix.
pub trait Row<R: Indexable<usize, N>, N>: Indexable<(usize, usize), N> {
    /// The number of rows of `self`.
    fn nrows(&self) -> (r: usize)
        ensures
            r == self.spec_shape().0,
    ;

    /// Reads the `i`-th row of `self`.
    fn row(&self, i: usize) -> (r: R)
        requires
            i < self.spec_shape().0,
        ensures
            vec_of(&r) == mat_of(self)[i as int],
    ;

    /// Writes the `i`-th row of `self`.
    fn set_row(&mut self, i: usize, r: R)
        requires
            i < old(self).spec_shape().0,
            r.spec_shape() == old(self).spec_shape().1,
        ensures
            final(self).spec_shape() == old(self).spec_shape(),
            mat_of(final(self)) == mat_of(old(self)).update(i as int, vec_of(&r)),
    ;
}

/// Access to the columns of a matrix.
pub trait Col<C: Indexable<usize, N>, N>: Indexable<(usize, usize), N> {
    /// The number of columns of `self`.
    fn ncols(&self) -> (r: usize)
        ensures
            r == self.spec_shape().1,
    ;

    /// Reads the `i`-th column of `self`.
    fn col(&self, i: usize) -> (r: C)
        requires
            i < self.spec_shape().1,
        ensures
            vec_of(&r) == column(mat_of(self), i as int),
    ;

    /// Writes the `i`-th column of `self`.
    fn set_col(&mut self, i: usize, c: C)
        requires
            i < old(self).spec_shape().1,
            c.spec_shape() == old(self).spec_shape().0,
        ensures
            final(self).spec_shape() == old(self).spec_shape(),
            forall|r: int, k: int|
                0 <= r < nrows_of(final(self)) && 0 <= k < ncols_of(final(self)) ==> #[trigger] mat_of(final(self))[r][k] == if k == i {
                    vec_of(&c)[r]
                } else {
                    mat_of(old(self))[r][k]
                },
    ;
}

/// Matrices that have rows and columns.
pub trait Mat<R: Indexable<usize, N>, C: Indexable<usize, N>, N>: Row<R, N> + Col<C, N> {

}

/// Access to part of a column of a matrix.
pub trait ColSlice<C: Indexable<usize, N>, N>: Indexable<(usize, usize), N> {
    /// Returns rows `row_start .. row_end` of column `col_id`.
    fn col_slice(&self, col_id: usize, row_start: usize, row_end: usize) -> (r: C)
        requires
            col_id < self.spec_shape().1,
            row_start <= row_end <= self.spec_shape().0,
        ensures
            vec_of(&r) == column_slice(mat_of(self), col_id as int, row_start as int, row_end as int),
    ;
}

/// Access to part of a row of a matrix.
pub trait RowSlice<R: Indexable<usize, N>, N>: Indexable<(usize, usize), N> {
    /// Returns columns `col_start .. col_end` of row `row_id`.
    fn row_slice(&self, row_id: usize, col_start: usize, col_end: usize) -> (r: R)
        requires
            row_id < self.spec_shape().0,
            col_start <= col_end <= self.spec_shape().1,
        ensures
            vec_of(&r) == row_slice(mat_of(self), row_id as int, col_start as int, col_end as int),
    ;
}

/// Objects with a spatial dimension.
pub trait Dim {
    /// The dimension of the object.
    fn dim(&self) -> usize;
}

/// The diagonal of a matrix.
pub trait Diag<V: Indexable<usize, N>, N: Scalar>: Indexable<(usize, usize), N> {
    /// Creates a new square matrix with the given diagonal, zero elsewhere.
    fn from_diag(diag: &V) -> (r: Self)
        requires
            diag.spec_shape() as int * diag.spec_shape() as int <= usize::MAX,
        ensures
            r.spec_shape() == (diag.spec_shape(), diag.spec_shape()),
            forall|i: int, j: int|
                0 <= i < diag.spec_shape() && 0 <= j < diag.spec_shape() ==> #[trigger] mat_of(&r)[i][j] == if i == j {
                    vec_of(diag)[i]
                } else {
                    N::spec_zero()
                },
    ;

    /// Sets the diagonal of this matrix.
    fn set_diag(&mut self, diag: &V)
        requires
            diag.spec_shape() == if old(self).spec_shape().0 <= old(self).spec_shape().1 {
                old(self).spec_shape().0
            } else {
                old(self).spec_shape().1
            },
        ensures
            final(self).spec_shape() == old(self).spec_shape(),
            forall|i: int, j: int|
                0 <= i < nrows_of(final(self)) && 0 <= j < ncols_of(final(self)) ==> #[trigger] mat_of(final(self))[i][j] == if i == j {
                    vec_of(diag)[i]
                } else {
                    mat_of(old(self))[i][j]
                },
    ;

    /// The diagonal of this matrix.
    fn diag(&self) -> (r: V)
        ensures
            vec_of(&r) == diagonal(
                mat_of(self),
                if self.spec_shape().0 <= self.spec_shape().1 {
                    self.spec_shape().0 as nat
                } else {
                    self.spec_shape().1 as nat
                },
            ),
    ;
}

/// Objects which can be walked through like a slice.
pub trait Iterable<N>: Indexable<usize, N> {
    /// The entries, in order.
    fn iter(&self) -> (r: &[N])
        ensures
            r@ == vec_of(self),
    ;
}

} // verus!
