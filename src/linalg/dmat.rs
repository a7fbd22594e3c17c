//! A dense matrix of dynamic shape, stored row by row.
use vstd::prelude::*;
use crate::traits::scalar::Scalar;
use crate::linalg::dvec::DVec;
use crate::traits::model::{column, column_slice, diagonal, dot, identity, mat_mul, row_slice, transpose};
use crate::traits::structure::{
    mat_of, ncols_of, nrows_of, vec_of, Col, ColSlice, Diag, Dims, Eye, Indexable, Mat, Row, RowSlice,
};
use crate::traits::operations::{approx_equal, ApproxEq, Duplicate, MatMul, Transpose};

verus! {

/// A matrix whose entries are kept row by row in one `Vec`.
///
/// The shape reads `(0, 0)` for a value whose storage does not hold
/// `nrows * ncols` entries; the constructors never make one.
pub struct DMat<N> {
    nrows: usize,
    ncols: usize,
    data: Vec<N>,
}

/// Entry `(i, j)` of a `rows x cols` row-major layout lies inside the storage.
proof fn lemma_index(i: int, j: int, rows: int, cols: int)
    requires
        0 <= i < rows,
        0 <= j < cols,
    ensures
        0 <= i * cols + j < rows * cols,
{
    assert(0 <= i * cols) by (nonlinear_arith)
        requires
            0 <= i,
            0 <= cols,
    ;
    assert(i * cols + j < rows * cols) by (nonlinear_arith)
        requires
            0 <= i < rows,
            0 <= j < cols,
    ;
}

/// Distinct entries of a row-major layout have distinct places.
proof fn lemma_index_distinct(i: int, j: int, i2: int, j2: int, cols: int)
    requires
        0 <= i,
        0 <= i2,
        0 <= j < cols,
        0 <= j2 < cols,
        i != i2 || j != j2,
    ensures
        i * cols + j != i2 * cols + j2,
{
    if i == i2 {
    } else if i < i2 {
        assert(i * cols + cols <= i2 * cols) by (nonlinear_arith)
            requires
                i < i2,
                0 <= cols,
        ;
    } else {
        assert(i2 * cols + cols <= i * cols) by (nonlinear_arith)
            requires
                i2 < i,
                0 <= cols,
        ;
    }
}

impl<N: Scalar> DMat<N> {
    /// The storage holds one entry per place of the shape.
    pub closed spec fn well_formed(&self) -> bool {
        self.data@.len() == self.nrows as int * self.ncols as int
    }

    /// The shape, with the bound that its area fits in a `usize`.
    fn dims(&self) -> (r: (usize, usize))
        ensures
            r == self.spec_shape(),
            r.0 as int * r.1 as int <= usize::MAX,
    {
        let len = self.data.len();
        match self.nrows.checked_mul(self.ncols) {
            Some(area) => {
                if area == len {
                    (self.nrows, self.ncols)
                } else {
                    (0, 0)
                }
            },
            None => (0, 0),
        }
    }

    /// The `nrows x ncols` matrix of zeros.
    pub fn new_zeros(nrows: usize, ncols: usize) -> (r: Self)
        requires
            nrows as int * ncols as int <= usize::MAX,
        ensures
            r.spec_shape() == (nrows, ncols),
            forall|i: int, j: int|
                0 <= i < nrows && 0 <= j < ncols ==> #[trigger] r.spec_at((i as usize, j as usize))
                    == N::spec_zero(),
    {
        let area = nrows * ncols;
        let mut data: Vec<N> = Vec::new();
        while data.len() < area
            invariant
                data@.len() <= area,
                forall|k: int| 0 <= k < data@.len() ==> data@[k] == N::spec_zero(),
            decreases area - data@.len(),
        {
            data.push(N::zero());
        }
        let r = DMat { nrows, ncols, data };
        assert forall|i: int, j: int| 0 <= i < nrows && 0 <= j < ncols implies #[trigger] r.spec_at(
            (i as usize, j as usize),
        ) == N::spec_zero() by {
            lemma_index(i, j, nrows as int, ncols as int);
        }
        r
    }

    /// The `nrows x ncols` matrix whose entries, row after row, are `data`.
    pub fn from_row_vec(nrows: usize, ncols: usize, data: Vec<N>) -> (r: Self)
        requires
            data@.len() == nrows as int * ncols as int,
        ensures
            r.spec_shape() == (nrows, ncols),
            forall|i: int, j: int|
                0 <= i < nrows && 0 <= j < ncols ==> #[trigger] r.spec_at((i as usize, j as usize))
                    == data@[i * ncols + j],
    {
        DMat { nrows, ncols, data }
    }
}

impl<N: Scalar> Indexable<(usize, usize), N> for DMat<N> {
    closed spec fn spec_shape(&self) -> (usize, usize) {
        if self.well_formed() {
            (self.nrows, self.ncols)
        } else {
            (0, 0)
        }
    }

    closed spec fn spec_at(&self, i: (usize, usize)) -> N {
        self.data@[i.0 as int * self.ncols as int + i.1 as int]
    }

    fn at(&self, i: (usize, usize)) -> (r: Option<N>) {
        let (rows, cols) = self.dims();
        if i.0 < rows && i.1 < cols {
            Some(self.at_unchecked(i))
        } else {
            None
        }
    }

    fn set(&mut self, i: (usize, usize), val: N) -> (r: bool) {
        let (rows, cols) = self.dims();
        if i.0 < rows && i.1 < cols {
            self.set_unchecked(i, val);
            true
        } else {
            false
        }
    }

    fn swap(&mut self, i: (usize, usize), j: (usize, usize)) {
        let a = self.at_unchecked(i);
        let b = self.at_unchecked(j);
        self.set_unchecked(i, b);
        self.set_unchecked(j, a);
    }

    fn shape(&self) -> (r: (usize, usize)) {
        self.dims()
    }

    fn at_unchecked(&self, i: (usize, usize)) -> (r: N) {
        let len = self.data.len();
        proof {
            lemma_index(i.0 as int, i.1 as int, self.nrows as int, self.ncols as int);
            assert(i.0 * self.ncols + i.1 < len);
        }
        self.data[i.0 * self.ncols + i.1]
    }

    fn set_unchecked(&mut self, i: (usize, usize), val: N) {
        let len = self.data.len();
        proof {
            lemma_index(i.0 as int, i.1 as int, self.nrows as int, self.ncols as int);
            assert(i.0 * self.ncols + i.1 < len);
        }
        let ghost before = *self;
        let k = i.0 * self.ncols + i.1;
        self.data.set(k, val);
        assert forall|j: (usize, usize)|
            #![trigger self.spec_at(j)]
            self.spec_shape().spec_contains(j) && j != i implies self.spec_at(j) == before.spec_at(
            j,
        ) by {
            lemma_index(j.0 as int, j.1 as int, self.nrows as int, self.ncols as int);
            lemma_index_distinct(
                i.0 as int,
                i.1 as int,
                j.0 as int,
                j.1 as int,
                self.ncols as int,
            );
        }
    }
}


impl<N: Scalar> Eye<N> for DMat<N> {
    fn new_identity(dim: usize) -> (r: Self) {
        let mut out = DMat::new_zeros(dim, dim);
        let mut i: usize = 0;
        while i < dim
            invariant
                i <= dim,
                out.spec_shape() == (dim, dim),
                forall|a: int, b: int|
                    0 <= a < dim && 0 <= b < dim ==> #[trigger] out.spec_at((a as usize, b as usize))
                        == if a == b && a < i {
                        N::spec_one()
                    } else {
                        N::spec_zero()
                    },
            decreases dim - i,
        {
            out.set_unchecked((i, i), N::one());
            i = i + 1;
        }
        assert(mat_of(&out) =~~= identity::<N>(dim as nat));
        out
    }
}

impl<N: Scalar> Duplicate<(usize, usize), N> for DMat<N> {
    fn duplicate(&self) -> (r: Self) {
        let (rows, cols) = self.dims();
        let mut out = DMat::new_zeros(rows, cols);
        let mut i: usize = 0;
        while i < rows
            invariant
                i <= rows,
                (rows, cols) == self.spec_shape(),
                out.spec_shape() == (rows, cols),
                forall|a: int, b: int|
                    0 <= a < rows && 0 <= b < cols ==> #[trigger] out.spec_at((a as usize, b as usize))
                        == if a < i {
                        self.spec_at((a as usize, b as usize))
                    } else {
                        N::spec_zero()
                    },
            decreases rows - i,
        {
            let mut j: usize = 0;
            while j < cols
                invariant
                    i < rows,
                    j <= cols,
                    (rows, cols) == self.spec_shape(),
                    out.spec_shape() == (rows, cols),
                    forall|a: int, b: int|
                        0 <= a < rows && 0 <= b < cols ==> #[trigger] out.spec_at(
                            (a as usize, b as usize),
                        ) == if a < i || (a == i && b < j) {
                            self.spec_at((a as usize, b as usize))
                        } else {
                            N::spec_zero()
                        },
                decreases cols - j,
            {
                let x = self.at_unchecked((i, j));
                out.set_unchecked((i, j), x);
                j = j + 1;
            }
            i = i + 1;
        }
        assert forall|k: (usize, usize)|
            #![trigger out.spec_at(k)]
            self.spec_shape().spec_contains(k) implies out.spec_at(k) == self.spec_at(k) by {
            assert(out.spec_at((k.0 as int as usize, k.1 as int as usize)) == self.spec_at(
                (k.0 as int as usize, k.1 as int as usize),
            ));
        }
        out
    }
}

impl<N: Scalar> Transpose<N> for DMat<N> {
    fn transpose_cpy(&self) -> (r: Self) {
        let (rows, cols) = self.dims();
        assert(cols as int * rows as int == rows as int * cols as int) by (nonlinear_arith);
        let mut out = DMat::new_zeros(cols, rows);
        let mut i: usize = 0;
        while i < rows
            invariant
                i <= rows,
                (rows, cols) == self.spec_shape(),
                out.spec_shape() == (cols, rows),
                forall|a: int, b: int|
                    0 <= a < cols && 0 <= b < rows ==> #[trigger] out.spec_at((a as usize, b as usize))
                        == if b < i {
                        self.spec_at((b as usize, a as usize))
                    } else {
                        N::spec_zero()
                    },
            decreases rows - i,
        {
            let mut j: usize = 0;
            while j < cols
                invariant
                    i < rows,
                    j <= cols,
                    (rows, cols) == self.spec_shape(),
                    out.spec_shape() == (cols, rows),
                    forall|a: int, b: int|
                        0 <= a < cols && 0 <= b < rows ==> #[trigger] out.spec_at(
                            (a as usize, b as usize),
                        ) == if b < i || (b == i && a < j) {
                            self.spec_at((b as usize, a as usize))
                        } else {
                            N::spec_zero()
                        },
                decreases cols - j,
            {
                let x = self.at_unchecked((i, j));
                out.set_unchecked((j, i), x);
                j = j + 1;
            }
            i = i + 1;
        }
        assert(mat_of(&out) =~~= transpose(mat_of(self), cols as nat));
        out
    }
}

impl<N: Scalar> MatMul<N> for DMat<N> {
    fn mat_mul(&self, rhs: &Self) -> (r: Self) {
        let (rows, inner) = self.dims();
        let (_, cols) = rhs.dims();
        let ghost a = mat_of(self);
        let ghost b = mat_of(rhs);
        let mut out = DMat::new_zeros(rows, cols);
        let mut i: usize = 0;
        while i < rows
            invariant
                i <= rows,
                (rows, inner) == self.spec_shape(),
                (inner, cols) == rhs.spec_shape(),
                a == mat_of(self),
                b == mat_of(rhs),
                out.spec_shape() == (rows, cols),
                forall|x: int, y: int|
                    0 <= x < rows && 0 <= y < cols ==> #[trigger] out.spec_at((x as usize, y as usize))
                        == if x < i {
                        dot(a[x], column(b, y), inner as nat)
                    } else {
                        N::spec_zero()
                    },
            decreases rows - i,
        {
            let mut j: usize = 0;
            while j < cols
                invariant
                    i < rows,
                    j <= cols,
                    (rows, inner) == self.spec_shape(),
                    (inner, cols) == rhs.spec_shape(),
                    a == mat_of(self),
                    b == mat_of(rhs),
                    out.spec_shape() == (rows, cols),
                    forall|x: int, y: int|
                        0 <= x < rows && 0 <= y < cols ==> #[trigger] out.spec_at(
                            (x as usize, y as usize),
                        ) == if x < i || (x == i && y < j) {
                            dot(a[x], column(b, y), inner as nat)
                        } else {
                            N::spec_zero()
                        },
                decreases cols - j,
            {
                let mut acc = N::zero();
                let mut k: usize = 0;
                while k < inner
                    invariant
                        i < rows,
                        j < cols,
                        k <= inner,
                        (rows, inner) == self.spec_shape(),
                        (inner, cols) == rhs.spec_shape(),
                        a == mat_of(self),
                        b == mat_of(rhs),
                        acc == dot(a[i as int], column(b, j as int), k as nat),
                    decreases inner - k,
                {
                    let x = self.at_unchecked((i, k));
                    let y = rhs.at_unchecked((k, j));
                    assert(a[i as int][k as int] == x);
                    assert(column(b, j as int)[k as int] == y);
                    acc = acc.add(x.mul(y));
                    k = k + 1;
                }
                out.set_unchecked((i, j), acc);
                j = j + 1;
            }
            i = i + 1;
        }
        assert(mat_of(&out) =~~= mat_mul(a, b, inner as nat, cols as nat));
        out
    }
}


impl<N: Scalar> DMat<N> {
    /// Rows `start .. end` of column `j`.
    fn column_part(&self, j: usize, start: usize, end: usize) -> (r: DVec<N>)
        requires
            j < self.spec_shape().1,
            start <= end <= self.spec_shape().0,
        ensures
            vec_of(&r) == column_slice(mat_of(self), j as int, start as int, end as int),
    {
        let mut out: Vec<N> = Vec::new();
        let mut i: usize = start;
        while i < end
            invariant
                start <= i <= end,
                end <= self.spec_shape().0,
                j < self.spec_shape().1,
                out@ == column_slice(mat_of(self), j as int, start as int, i as int),
            decreases end - i,
        {
            let x = self.at_unchecked((i, j));
            out.push(x);
            i = i + 1;
            assert(out@ =~= column_slice(mat_of(self), j as int, start as int, i as int));
        }
        DVec::from_vec(out)
    }

    /// Columns `start .. end` of row `i`.
    fn row_part(&self, i: usize, start: usize, end: usize) -> (r: DVec<N>)
        requires
            i < self.spec_shape().0,
            start <= end <= self.spec_shape().1,
        ensures
            vec_of(&r) == row_slice(mat_of(self), i as int, start as int, end as int),
    {
        let mut out: Vec<N> = Vec::new();
        let mut j: usize = start;
        while j < end
            invariant
                start <= j <= end,
                end <= self.spec_shape().1,
                i < self.spec_shape().0,
                out@ == row_slice(mat_of(self), i as int, start as int, j as int),
            decreases end - j,
        {
            let x = self.at_unchecked((i, j));
            out.push(x);
            j = j + 1;
            assert(out@ =~= row_slice(mat_of(self), i as int, start as int, j as int));
        }
        DVec::from_vec(out)
    }
}

impl<N: Scalar> ColSlice<DVec<N>, N> for DMat<N> {
    fn col_slice(&self, col_id: usize, row_start: usize, row_end: usize) -> (r: DVec<N>) {
        self.column_part(col_id, row_start, row_end)
    }
}

impl<N: Scalar> RowSlice<DVec<N>, N> for DMat<N> {
    fn row_slice(&self, row_id: usize, col_start: usize, col_end: usize) -> (r: DVec<N>) {
        self.row_part(row_id, col_start, col_end)
    }
}

impl<N: Scalar> Row<DVec<N>, N> for DMat<N> {
    fn nrows(&self) -> (r: usize) {
        self.dims().0
    }

    fn row(&self, i: usize) -> (r: DVec<N>) {
        let cols = self.dims().1;
        let r = self.row_part(i, 0, cols);
        assert(vec_of(&r) =~= mat_of(self)[i as int]);
        r
    }

    fn set_row(&mut self, i: usize, r: DVec<N>) {
        let cols = self.dims().1;
        let ghost before = mat_of(&*self);
        let mut j: usize = 0;
        while j < cols
            invariant
                j <= cols,
                i < self.spec_shape().0,
                cols == self.spec_shape().1,
                r.spec_shape() == cols,
                self.spec_shape() == old(self).spec_shape(),
                before == mat_of(old(self)),
                forall|a: int, b: int|
                    0 <= a < nrows_of(self) && 0 <= b < cols ==> #[trigger] self.spec_at(
                        (a as usize, b as usize),
                    ) == if a == i && b < j {
                        vec_of(&r)[b]
                    } else {
                        before[a][b]
                    },
            decreases cols - j,
        {
            let x = r.at_unchecked(j);
            self.set_unchecked((i, j), x);
            j = j + 1;
        }
        assert(mat_of(&*self) =~~= before.update(i as int, vec_of(&r)));
    }
}

impl<N: Scalar> Col<DVec<N>, N> for DMat<N> {
    fn ncols(&self) -> (r: usize) {
        self.dims().1
    }

    fn col(&self, i: usize) -> (r: DVec<N>) {
        let rows = self.dims().0;
        let r = self.column_part(i, 0, rows);
        assert(vec_of(&r) =~= column(mat_of(self), i as int));
        r
    }

    fn set_col(&mut self, i: usize, c: DVec<N>) {
        let rows = self.dims().0;
        let ghost before = mat_of(&*self);
        let mut k: usize = 0;
        while k < rows
            invariant
                k <= rows,
                i < self.spec_shape().1,
                rows == self.spec_shape().0,
                c.spec_shape() == rows,
                self.spec_shape() == old(self).spec_shape(),
                before == mat_of(old(self)),
                forall|a: int, b: int|
                    0 <= a < rows && 0 <= b < ncols_of(self) ==> #[trigger] self.spec_at(
                        (a as usize, b as usize),
                    ) == if b == i && a < k {
                        vec_of(&c)[a]
                    } else {
                        before[a][b]
                    },
            decreases rows - k,
        {
            let x = c.at_unchecked(k);
            self.set_unchecked((k, i), x);
            k = k + 1;
        }
    }
}

impl<N: Scalar> Mat<DVec<N>, DVec<N>, N> for DMat<N> {

}

impl<N: Scalar> Diag<DVec<N>, N> for DMat<N> {
    fn from_diag(diag: &DVec<N>) -> (r: Self) {
        let n = diag.shape();
        let mut out = DMat::new_zeros(n, n);
        let mut i: usize = 0;
        while i < n
            invariant
                i <= n,
                n == diag.spec_shape(),
                out.spec_shape() == (n, n),
                forall|a: int, b: int|
                    0 <= a < n && 0 <= b < n ==> #[trigger] out.spec_at((a as usize, b as usize))
                        == if a == b && a < i {
                        vec_of(diag)[a]
                    } else {
                        N::spec_zero()
                    },
            decreases n - i,
        {
            let x = diag.at_unchecked(i);
            out.set_unchecked((i, i), x);
            i = i + 1;
        }
        out
    }

    fn set_diag(&mut self, diag: &DVec<N>) {
        let n = diag.shape();
        let ghost before = mat_of(&*self);
        let mut i: usize = 0;
        while i < n
            invariant
                i <= n,
                n == diag.spec_shape(),
                n <= self.spec_shape().0,
                n <= self.spec_shape().1,
                n == self.spec_shape().0 || n == self.spec_shape().1,
                self.spec_shape() == old(self).spec_shape(),
                before == mat_of(old(self)),
                forall|a: int, b: int|
                    0 <= a < nrows_of(self) && 0 <= b < ncols_of(self) ==> #[trigger] self.spec_at(
                        (a as usize, b as usize),
                    ) == if a == b && a < i {
                        vec_of(diag)[a]
                    } else {
                        before[a][b]
                    },
            decreases n - i,
        {
            let x = diag.at_unchecked(i);
            self.set_unchecked((i, i), x);
            i = i + 1;
        }
    }

    fn diag(&self) -> (r: DVec<N>) {
        let (rows, cols) = self.dims();
        let n = if rows <= cols {
            rows
        } else {
            cols
        };
        let mut out: Vec<N> = Vec::new();
        let mut i: usize = 0;
        while i < n
            invariant
                i <= n,
                n <= rows,
                n <= cols,
                (rows, cols) == self.spec_shape(),
                out@ == diagonal(mat_of(self), i as nat),
            decreases n - i,
        {
            let x = self.at_unchecked((i, i));
            out.push(x);
            i = i + 1;
            assert(out@ =~= diagonal(mat_of(self), i as nat));
        }
        DVec::from_vec(out)
    }
}


impl<N: Scalar> ApproxEq<N> for DMat<N> {
    fn approx_eq_eps(&self, other: &Self, eps: &N) -> (r: bool) {
        let (rows, cols) = self.dims();
        let (other_rows, other_cols) = other.dims();
        if rows != other_rows || cols != other_cols {
            return false;
        }
        let ghost a = mat_of(self);
        let ghost b = mat_of(other);
        let mut i: usize = 0;
        while i < rows
            invariant
                i <= rows,
                (rows, cols) == self.spec_shape(),
                (rows, cols) == other.spec_shape(),
                a == mat_of(self),
                b == mat_of(other),
                forall|x: int, y: int|
                    0 <= x < i && 0 <= y < cols ==> !(#[trigger] a[x][y]).spec_sub(
                        b[x][y],
                    ).spec_abs().spec_ge(*eps),
            decreases rows - i,
        {
            let mut j: usize = 0;
            while j < cols
                invariant
                    i < rows,
                    j <= cols,
                    (rows, cols) == self.spec_shape(),
                    (rows, cols) == other.spec_shape(),
                    a == mat_of(self),
                    b == mat_of(other),
                    forall|x: int, y: int|
                        0 <= x < i && 0 <= y < cols ==> !(#[trigger] a[x][y]).spec_sub(
                            b[x][y],
                        ).spec_abs().spec_ge(*eps),
                    forall|y: int|
                        0 <= y < j ==> !(#[trigger] a[i as int][y]).spec_sub(
                            b[i as int][y],
                        ).spec_abs().spec_ge(*eps),
                decreases cols - j,
            {
                let x = self.at_unchecked((i, j));
                let y = other.at_unchecked((i, j));
                assert(a[i as int][j as int] == x && b[i as int][j as int] == y);
                if x.sub(y).abs().ge(*eps) {
                    return false;
                }
                j = j + 1;
            }
            i = i + 1;
        }
        true
    }
}

} // verus!
