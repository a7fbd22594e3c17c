//! A dense vector of dynamic length.
use vstd::prelude::*;
use crate::traits::scalar::Scalar;
use crate::traits::model::{dot, norm, scaled_down};
use crate::traits::structure::{vec_of, Cast, Dim, Dims, Indexable, Iterable};
use crate::traits::operations::{Duplicate, FloatVec, Norm};

verus! {

/// A vector whose entries are kept in a `Vec`.
pub struct DVec<N> {
    data: Vec<N>,
}

impl<N: Scalar> DVec<N> {
    /// A vector holding `data`.
    pub fn from_vec(data: Vec<N>) -> (r: Self)
        ensures
            vec_of(&r) == data@,
    {
        let n = data.len();
        let r = DVec { data };
        assert(vec_of(&r).len() == n);
        assert(vec_of(&r) =~= data@);
        r
    }

    /// The vector of `len` zeros.
    pub fn new_zeros(len: usize) -> (r: Self)
        ensures
            vec_of(&r) == Seq::new(len as nat, |i: int| N::spec_zero()),
    {
        let mut data: Vec<N> = Vec::new();
        while data.len() < len
            invariant
                data@.len() <= len,
                forall|k: int| 0 <= k < data@.len() ==> data@[k] == N::spec_zero(),
            decreases len - data@.len(),
        {
            data.push(N::zero());
        }
        let r = DVec { data };
        assert(vec_of(&r) =~= Seq::new(len as nat, |i: int| N::spec_zero()));
        r
    }

    /// The number of entries.
    pub fn len(&self) -> (r: usize)
        ensures
            r == vec_of(self).len(),
    {
        self.data.len()
    }

    /// The entries, as a new `Vec`.
    pub fn to_vec(&self) -> (r: Vec<N>)
        ensures
            r@ == vec_of(self),
    {
        let mut out: Vec<N> = Vec::new();
        let mut i: usize = 0;
        while i < self.data.len()
            invariant
                i <= self.data@.len(),
                out@ == self.data@.subrange(0, i as int),
            decreases self.data@.len() - i,
        {
            out.push(self.data[i]);
            i = i + 1;
            assert(out@ =~= self.data@.subrange(0, i as int));
        }
        assert(out@ =~= vec_of(self));
        out
    }
}

impl<N: Scalar> Indexable<usize, N> for DVec<N> {
    closed spec fn spec_shape(&self) -> usize {
        self.data@.len() as usize
    }

    closed spec fn spec_at(&self, i: usize) -> N {
        self.data@[i as int]
    }

    fn at(&self, i: usize) -> (r: Option<N>) {
        if i < self.data.len() {
            Some(self.data[i])
        } else {
            None
        }
    }

    fn set(&mut self, i: usize, val: N) -> (r: bool) {
        if i < self.data.len() {
            self.data.set(i, val);
            true
        } else {
            false
        }
    }

    fn swap(&mut self, i: usize, j: usize) {
        let a = self.data[i];
        let b = self.data[j];
        self.data.set(i, b);
        self.data.set(j, a);
    }

    fn shape(&self) -> (r: usize) {
        self.data.len()
    }

    fn at_unchecked(&self, i: usize) -> (r: N) {
        self.data[i]
    }

    fn set_unchecked(&mut self, i: usize, val: N) {
        self.data.set(i, val);
    }
}

impl<N: Scalar> Duplicate<usize, N> for DVec<N> {
    fn duplicate(&self) -> (r: Self) {
        let out = self.to_vec();
        let r = DVec { data: out };
        assert forall|i: usize| self.spec_shape().spec_contains(i) implies r.spec_at(i) == self.spec_at(i) by {
            assert(vec_of(self)[i as int] == self.spec_at(i));
        }
        r
    }
}

impl<N: Scalar> Norm<N> for DVec<N> {
    fn norm(&self) -> (r: N) {
        let len = self.data.len();
        let ghost v = vec_of(self);
        assert(v.len() == len);
        assert(v =~= self.data@);
        let mut acc = N::zero();
        let mut i: usize = 0;
        while i < self.data.len()
            invariant
                i <= self.data@.len(),
                v == self.data@,
                acc == dot(v, v, i as nat),
            decreases self.data@.len() - i,
        {
            let x = self.data[i];
            acc = acc.add(x.mul(x));
            i = i + 1;
        }
        acc.sqrt()
    }

    fn normalize(&mut self) -> (r: N) {
        let n = self.norm();
        let len = self.data.len();
        let ghost v0 = vec_of(&*self);
        assert(v0.len() == len);
        assert(v0 =~= self.data@);
        let mut i: usize = 0;
        while i < self.data.len()
            invariant
                i <= self.data@.len(),
                self.data@.len() == v0.len(),
                forall|k: int| 0 <= k < i ==> self.data@[k] == v0[k].spec_div(n),
                forall|k: int| i <= k < v0.len() ==> self.data@[k] == v0[k],
            decreases self.data@.len() - i,
        {
            let x = self.data[i];
            self.data.set(i, x.div(n));
            i = i + 1;
        }
        assert(vec_of(&*self) =~= scaled_down(v0, n));
        n
    }
}

impl<N: Scalar> FloatVec<N> for DVec<N> {

}

impl<N: Scalar> Iterable<N> for DVec<N> {
    fn iter(&self) -> (r: &[N]) {
        let len = self.data.len();
        assert(vec_of(self).len() == len);
        assert(self.data@ =~= vec_of(self));
        self.data.as_slice()
    }
}

impl<N: Scalar> Dim for DVec<N> {
    fn dim(&self) -> usize {
        self.data.len()
    }
}

impl<N: Scalar> Cast<Vec<N>> for DVec<N> {
    fn from(t: Vec<N>) -> Self {
        DVec { data: t }
    }
}

} // verus!
