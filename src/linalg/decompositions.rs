//! Householder QR decomposition and QR-iteration eigen decomposition.
use vstd::prelude::*;
use crate::traits::scalar::Scalar;
use crate::traits::model::{column_slice, diagonal, identity, mat_mul, norm, scaled_down, transpose};
use crate::traits::structure::{mat_of, vec_of, ColSlice, Diag, Eye, Indexable};
use crate::traits::operations::{Duplicate, MatMul, Norm, Transpose};

verus! {

/// Entry `(i, j)` of the `dim x dim` reflection through the hyperplane orthogonal
/// to `v`, embedded at rows and columns `start .. start + v.len()`:
/// the identity outside that block and `I - 2 v v^T` inside it.
pub open spec fn householder_entry<N: Scalar>(start: nat, v: Seq<N>, i: int, j: int) -> N {
    let id = if i == j {
        N::spec_one()
    } else {
        N::spec_zero()
    };
    if start <= i < start + v.len() && start <= j < start + v.len() {
        let vv = v[i - start].spec_mul(v[j - start]);
        id.spec_sub(vv).spec_sub(vv)
    } else {
        id
    }
}

/// The `dim x dim` Householder matrix of `v` embedded at `start`.
pub open spec fn householder<N: Scalar>(dim: nat, start: nat, v: Seq<N>) -> Seq<Seq<N>> {
    Seq::new(dim, |i: int| Seq::new(dim, |j: int| householder_entry(start, v, i, j)))
}

/// Get the Householder matrix corresponding to a reflection through the
/// hyperplane orthogonal to `vec`, acting on the subspace of dimensions
/// `start .. start + vec.len()` of a space of dimension `dim`.
pub fn householder_matrix<N: Scalar, M: Eye<N>, V: Indexable<usize, N>>(
    dim: usize,
    start: usize,
    vec: V,
) -> (r: M)
    requires
        dim >= start + vec.spec_shape(),
        dim as int * dim as int <= usize::MAX,
    ensures
        r.spec_shape() == (dim, dim),
        mat_of(&r) == householder(dim as nat, start as nat, vec_of(&vec)),
{
    let mut qk: M = M::new_identity(dim);
    let subdim = vec.shape();
    let stop = subdim + start;
    let ghost v = vec_of(&vec);
    let ghost id = identity::<N>(dim as nat);
    assert forall|a: int, b: int| 0 <= a < dim && 0 <= b < dim implies qk.spec_at(
        (a as usize, b as usize),
    ) == id[a][b] by {
        assert(mat_of(&qk)[a][b] == id[a][b]);
    }
    let mut j: usize = start;
    while j < stop
        invariant
            start <= j <= stop,
            stop == start + v.len(),
            stop <= dim,
            v == vec_of(&vec),
            id == identity::<N>(dim as nat),
            qk.spec_shape() == (dim, dim),
            forall|a: int, b: int|
                #![trigger qk.spec_at((a as usize, b as usize))]
                0 <= a < dim && 0 <= b < dim ==> qk.spec_at((a as usize, b as usize)) == if start
                    <= a < stop && start <= b < j {
                    householder_entry(start as nat, v, a, b)
                } else {
                    id[a][b]
                },
        decreases stop - j,
    {
        let mut i: usize = start;
        while i < stop
            invariant
                start <= i <= stop,
                start <= j < stop,
                stop == start + v.len(),
                stop <= dim,
                v == vec_of(&vec),
                id == identity::<N>(dim as nat),
                qk.spec_shape() == (dim, dim),
                forall|a: int, b: int|
                    #![trigger qk.spec_at((a as usize, b as usize))]
                    0 <= a < dim && 0 <= b < dim ==> qk.spec_at((a as usize, b as usize)) == if start
                        <= a < stop && start <= b < stop && (b < j || (b == j && a < i)) {
                        householder_entry(start as nat, v, a, b)
                    } else {
                        id[a][b]
                    },
            decreases stop - i,
        {
            let vv = vec.at_unchecked(i - start).mul(vec.at_unchecked(j - start));
            let qkij = qk.at_unchecked((i, j));
            qk.set_unchecked((i, j), qkij.sub(vv).sub(vv));
            proof {
                assert(qk.spec_at((i as int as usize, j as int as usize)) == householder_entry(
                    start as nat,
                    v,
                    i as int,
                    j as int,
                ));
            }
            i = i + 1;
        }
        j = j + 1;
    }
    assert(mat_of(&qk) =~~= householder(dim as nat, start as nat, v));
    qk
}


/// The vector that defines the reflection of step `k`: rows `k ..` of column `k`
/// of `r`, with `alpha` subtracted from its first entry, where `alpha` is minus
/// the norm when that entry is nonnegative and the norm otherwise.
pub open spec fn reflector_source<N: Scalar>(r: Seq<Seq<N>>, k: nat, rows: nat) -> Seq<N> {
    let v = column_slice(r, k as int, k as int, rows as int);
    let alpha = if v[0].spec_ge(N::spec_zero()) {
        norm(v).spec_neg()
    } else {
        norm(v)
    };
    v.update(0, v[0].spec_sub(alpha))
}

/// Step `k` of the QR decomposition of a `rows x cols` matrix, from `(q, r)`.
/// Where the reflector's source vector has norm zero the step changes nothing;
/// otherwise `r` becomes `H r` and `q` becomes `q H^T`, with `H` the Householder
/// matrix of the normalized source vector embedded at `k`.
pub open spec fn qr_step<N: Scalar>(
    q: Seq<Seq<N>>,
    r: Seq<Seq<N>>,
    k: nat,
    rows: nat,
    cols: nat,
) -> (Seq<Seq<N>>, Seq<Seq<N>>) {
    let w = reflector_source(r, k, rows);
    let n = norm(w);
    if n.spec_is_zero() {
        (q, r)
    } else {
        let h = householder(rows, k, scaled_down(w, n));
        (mat_mul(q, transpose(h, rows), rows, rows), mat_mul(h, r, rows, cols))
    }
}

/// `(q, r)` after the first `k` steps on `m`, starting from `(I, m)`.
pub open spec fn qr_steps<N: Scalar>(m: Seq<Seq<N>>, rows: nat, cols: nat, k: nat) -> (
    Seq<Seq<N>>,
    Seq<Seq<N>>,
)
    decreases k,
{
    if k == 0 {
        (identity(rows), m)
    } else {
        let s = qr_steps(m, rows, cols, (k - 1) as nat);
        qr_step(s.0, s.1, (k - 1) as nat, rows, cols)
    }
}

/// The number of steps of the decomposition: `min(rows - 1, cols)`.
pub open spec fn qr_iterations(rows: nat, cols: nat) -> nat {
    if rows == 0 {
        0
    } else if rows - 1 <= cols {
        (rows - 1) as nat
    } else {
        cols
    }
}

/// The QR decomposition `(q, r)` of the `rows x cols` matrix `m`.
pub open spec fn qr_model<N: Scalar>(m: Seq<Seq<N>>, rows: nat, cols: nat) -> (
    Seq<Seq<N>>,
    Seq<Seq<N>>,
) {
    qr_steps(m, rows, cols, qr_iterations(rows, cols))
}

/// QR decomposition using Householder reflections.
///
/// Returns `(q, r)`: `q` is `rows x rows`, `r` is `rows x cols`. The matrix must
/// have at least as many rows as columns.
pub fn qr<
    N: Scalar,
    V: Indexable<usize, N> + Norm<N>,
    M: Eye<N> + ColSlice<V, N> + Transpose<N> + MatMul<N> + Duplicate<(usize, usize), N>,
>(m: &M) -> (res: (M, M))
    requires
        m.spec_shape().0 >= m.spec_shape().1,
        m.spec_shape().0 as int * m.spec_shape().0 as int <= usize::MAX,
    ensures
        res.0.spec_shape() == (m.spec_shape().0, m.spec_shape().0),
        res.1.spec_shape() == m.spec_shape(),
        mat_of(&res.0) == qr_model(mat_of(m), m.spec_shape().0 as nat, m.spec_shape().1 as nat).0,
        mat_of(&res.1) == qr_model(mat_of(m), m.spec_shape().0 as nat, m.spec_shape().1 as nat).1,
{
    let (rows, cols) = m.shape();
    let mut q: M = M::new_identity(rows);
    let mut r = m.duplicate();
    assert(mat_of(&r) =~~= mat_of(m));
    let iterations: usize = if rows == 0 {
        0
    } else if rows - 1 <= cols {
        rows - 1
    } else {
        cols
    };
    let ghost mm = mat_of(m);
    assert(rows as int * cols as int <= rows as int * rows as int) by (nonlinear_arith)
        requires
            cols <= rows,
    ;
    let mut ite: usize = 0;
    while ite < iterations
        invariant
            ite <= iterations,
            iterations == qr_iterations(rows as nat, cols as nat),
            rows as int * cols as int <= usize::MAX,
            rows as int * rows as int <= usize::MAX,
            mm == mat_of(m),
            q.spec_shape() == (rows, rows),
            r.spec_shape() == (rows, cols),
            mat_of(&q) == qr_steps(mm, rows as nat, cols as nat, ite as nat).0,
            mat_of(&r) == qr_steps(mm, rows as nat, cols as nat, ite as nat).1,
        decreases iterations - ite,
    {
        let ghost r0 = mat_of(&r);
        let mut v = r.col_slice(ite, ite, rows);
        assert(vec_of(&v).len() == rows - ite);
        let v0 = v.at_unchecked(0);
        proof {
            assert(vec_of(&v)[0] == v0);
        }
        let nv = v.norm();
        let alpha = if v0.ge(N::zero()) {
            nv.neg()
        } else {
            nv
        };
        v.set_unchecked(0, v0.sub(alpha));
        assert(vec_of(&v) =~= reflector_source(r0, ite as nat, rows as nat));
        let n = v.normalize();
        if !n.is_zero() {
            let qk: M = householder_matrix(rows, ite, v);
            r = qk.mat_mul(&r);
            q = q.mat_mul(&qk.transpose_cpy());
        }
        ite = ite + 1;
    }
    (q, r)
}


/// Every entry of the `n x n` matrix `a` off its diagonal is smaller than `eps`
/// in absolute value (is not `>= eps`).
pub open spec fn off_diagonal_below<N: Scalar>(a: Seq<Seq<N>>, n: nat, eps: N) -> bool {
    forall|i: int, j: int|
        0 <= i < n && 0 <= j < n && i != j ==> !(#[trigger] a[i][j]).spec_abs().spec_ge(eps)
}

/// `(eigenvectors, eigenvalues)` after `k` rounds of the QR iteration on the
/// `n x n` matrix `m`, starting from `(I, m)`. A round changes nothing once the
/// off-diagonal entries are below `eps`; otherwise, with `(q, r)` the QR
/// decomposition of the current matrix, it becomes `r q` and the eigenvectors
/// are multiplied by `q`.
pub open spec fn eigen_steps<N: Scalar>(m: Seq<Seq<N>>, n: nat, eps: N, k: nat) -> (
    Seq<Seq<N>>,
    Seq<Seq<N>>,
)
    decreases k,
{
    if k == 0 {
        (identity(n), m)
    } else {
        let s = eigen_steps(m, n, eps, (k - 1) as nat);
        if off_diagonal_below(s.1, n, eps) {
            s
        } else {
            let f = qr_model(s.1, n, n);
            (mat_mul(s.0, f.0, n, n), mat_mul(f.1, f.0, n, n))
        }
    }
}

/// Once the off-diagonal entries are below `eps`, further rounds change nothing.
pub proof fn lemma_eigen_steps_settle<N: Scalar>(
    m: Seq<Seq<N>>,
    n: nat,
    eps: N,
    k1: nat,
    k2: nat,
)
    requires
        k1 <= k2,
        off_diagonal_below(eigen_steps(m, n, eps, k1).1, n, eps),
    ensures
        eigen_steps(m, n, eps, k2) == eigen_steps(m, n, eps, k1),
    decreases k2,
{
    if k2 > k1 {
        lemma_eigen_steps_settle(m, n, eps, k1, (k2 - 1) as nat);
    }
}

/// Tells whether every off-diagonal entry of the square matrix `m` is below
/// `eps` in absolute value. Columns are scanned in order, and the scan stops at
/// the first entry that is not.
pub fn off_diagonal_converged<N: Scalar, M: Indexable<(usize, usize), N>>(m: &M, eps: N) -> (r:
    bool)
    requires
        m.spec_shape().0 == m.spec_shape().1,
    ensures
        r == off_diagonal_below(mat_of(m), m.spec_shape().0 as nat, eps),
{
    let (rows, cols) = m.shape();
    let ghost a = mat_of(m);
    let mut j: usize = 0;
    while j < cols
        invariant
            j <= cols,
            rows == cols,
            (rows, cols) == m.spec_shape(),
            a == mat_of(m),
            forall|i: int, c: int|
                0 <= i < rows && 0 <= c < j && i != c ==> !(#[trigger] a[i][c]).spec_abs().spec_ge(
                    eps,
                ),
        decreases cols - j,
    {
        let mut i: usize = 0;
        while i < rows
            invariant
                i <= rows,
                j < cols,
                rows == cols,
                (rows, cols) == m.spec_shape(),
                a == mat_of(m),
                forall|x: int, c: int|
                    0 <= x < rows && 0 <= c < j && x != c ==> !(#[trigger] a[x][c]).spec_abs().spec_ge(
                        eps,
                    ),
                forall|x: int| 0 <= x < i && x != j ==> !(#[trigger] a[x][j as int]).spec_abs().spec_ge(eps),
            decreases rows - i,
        {
            if i != j {
                let e = m.at_unchecked((i, j));
                assert(a[i as int][j as int] == e);
                if e.abs().ge(eps) {
                    return false;
                }
            }
            i = i + 1;
        }
        j = j + 1;
    }
    true
}

/// Eigen decomposition of a square matrix by the QR algorithm.
///
/// Runs at most `niter` rounds of plain (unshifted) QR iteration and stops early
/// once every off-diagonal entry is below `eps` in absolute value. Returns the
/// accumulated eigenvectors, one per column, and the diagonal of the final
/// matrix as the eigenvalues. Running out of rounds is not an error: the
/// current estimate is returned.
pub fn eigen_qr<
    N: Scalar,
    V: Indexable<usize, N> + Norm<N>,
    V2: Indexable<usize, N>,
    M: Eye<N> + ColSlice<V, N> + Transpose<N> + MatMul<N> + Duplicate<(usize, usize), N> + Diag<
        V2,
        N,
    >,
>(m: &M, eps: &N, niter: usize) -> (res: (M, V2))
    requires
        m.spec_shape().0 == m.spec_shape().1,
        m.spec_shape().0 as int * m.spec_shape().0 as int <= usize::MAX,
    ensures
        res.0.spec_shape() == m.spec_shape(),
        mat_of(&res.0) == eigen_steps(mat_of(m), m.spec_shape().0 as nat, *eps, niter as nat).0,
        vec_of(&res.1) == diagonal(
            eigen_steps(mat_of(m), m.spec_shape().0 as nat, *eps, niter as nat).1,
            m.spec_shape().0 as nat,
        ),
{
    let (rows, cols) = m.shape();
    let ghost mm = mat_of(m);
    let ghost n = rows as nat;
    let mut eigenvectors: M = M::new_identity(rows);
    let mut eigenvalues = m.duplicate();
    assert(mat_of(&eigenvalues) =~~= mm);
    let mut iter: usize = 0;
    let mut converged = false;
    while iter < niter && !converged
        invariant
            iter <= niter,
            rows == cols,
            n == rows,
            rows as int * rows as int <= usize::MAX,
            mm == mat_of(m),
            eigenvectors.spec_shape() == (rows, rows),
            eigenvalues.spec_shape() == (rows, rows),
            mat_of(&eigenvectors) == eigen_steps(mm, n, *eps, iter as nat).0,
            mat_of(&eigenvalues) == eigen_steps(mm, n, *eps, iter as nat).1,
            converged ==> off_diagonal_below(mat_of(&eigenvalues), n, *eps),
        decreases niter - iter + (if converged { 0int } else { 1int }),
    {
        if off_diagonal_converged(&eigenvalues, *eps) {
            converged = true;
        } else {
            let (q, r) = qr(&eigenvalues);
            eigenvalues = r.mat_mul(&q);
            eigenvectors = eigenvectors.mat_mul(&q);
            iter = iter + 1;
        }
    }
    proof {
        if converged {
            lemma_eigen_steps_settle(mm, n, *eps, iter as nat, niter as nat);
        }
    }
    (eigenvectors, eigenvalues.diag())
}


/// A matrix whose off-diagonal entries are already below `eps` is returned as
/// it is, with the identity as eigenvectors, however many rounds are allowed.
pub proof fn lemma_converged_input_is_fixed<N: Scalar>(
    m: Seq<Seq<N>>,
    n: nat,
    eps: N,
    niter: nat,
)
    requires
        off_diagonal_below(m, n, eps),
    ensures
        eigen_steps(m, n, eps, niter) == (identity::<N>(n), m),
{
    lemma_eigen_steps_settle(m, n, eps, 0, niter);
}

/// A `1 x 1` matrix passes through both algorithms unchanged: its QR
/// decomposition is `([1], m)`, and the QR iteration returns at once with the
/// identity as eigenvectors and `m` itself, whatever the tolerance and the
/// number of rounds.
pub proof fn lemma_one_by_one_is_fixed<N: Scalar>(m: Seq<Seq<N>>, eps: N, niter: nat)
    requires
        m.len() == 1,
        m[0].len() == 1,
    ensures
        qr_model(m, 1, 1) == (identity::<N>(1), m),
        eigen_steps(m, 1, eps, niter) == (identity::<N>(1), m),
    decreases niter,
{
    if niter > 0 {
        lemma_one_by_one_is_fixed(m, eps, (niter - 1) as nat);
    }
}

} // verus!
