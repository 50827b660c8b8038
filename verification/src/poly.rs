//! Vector and scalar polynomial helpers: power vectors, sums of powers,
//! inner products, degree-1 vector polynomials and the degree-2 scalar
//! polynomial their inner product yields.
//!
//! Contracts are stated over the field model of `field`: `scalar_val`
//! reads a scalar as an integer below ℓ, and `f_add`, `f_mul`, `f_pow`
//! are the corresponding reduced operations.

use vstd::prelude::*;

use crate::field::{
    f_add, f_mul, f_pow, f_sum_of_powers, scalar_add, scalar_mul, scalar_one, scalar_val,
    scalar_wf, scalar_zero,
};
use curve25519_dalek::scalar::Scalar;

verus! {

/// Every scalar of the sequence is in canonical reduced form.
pub open spec fn all_wf(s: Seq<Scalar>) -> bool {
    forall|i: int| 0 <= i < s.len() ==> scalar_wf(s[i])
}

/// The integers a sequence of scalars encodes.
pub open spec fn vals(s: Seq<Scalar>) -> Seq<int> {
    s.map(|i: int, x: Scalar| scalar_val(x))
}

/// The reduced inner product of the first `k` entries of two integer
/// sequences.
pub open spec fn f_ip(a: Seq<int>, b: Seq<int>, k: nat) -> int
    decreases k,
{
    if k == 0 {
        0
    } else {
        f_add(f_ip(a, b, (k - 1) as nat), f_mul(a[k - 1], b[k - 1]))
    }
}

/// The vector 1, x, x², …, x^(n−1).
pub fn exp_vec(x: &Scalar, n: usize) -> (r: Vec<Scalar>)
    requires
        scalar_wf(*x),
    ensures
        r@.len() == n,
        all_wf(r@),
        forall|i: int| 0 <= i < n ==> scalar_val(r@[i]) == f_pow(scalar_val(*x), i as nat),
{
    let mut r: Vec<Scalar> = Vec::new();
    let mut cur = scalar_one();
    let mut i: usize = 0;
    while i < n
        invariant
            scalar_wf(*x),
            scalar_wf(cur),
            r@.len() == i,
            0 <= i <= n,
            scalar_val(cur) == f_pow(scalar_val(*x), i as nat),
            all_wf(r@),
            forall|j: int| 0 <= j < i ==> scalar_val(r@[j]) == f_pow(scalar_val(*x), j as nat),
        decreases n - i,
    {
        r.push(cur);
        cur = scalar_mul(&cur, x);
        i += 1;
    }
    r
}

/// The sum 1 + x + x² + … + x^(n−1).
pub fn sum_of_powers(x: &Scalar, n: usize) -> (r: Scalar)
    requires
        scalar_wf(*x),
    ensures
        scalar_wf(r),
        scalar_val(r) == f_sum_of_powers(scalar_val(*x), n as nat),
{
    let mut acc = scalar_zero();
    let mut cur = scalar_one();
    let mut i: usize = 0;
    while i < n
        invariant
            scalar_wf(*x),
            scalar_wf(acc),
            scalar_wf(cur),
            0 <= i <= n,
            scalar_val(cur) == f_pow(scalar_val(*x), i as nat),
            scalar_val(acc) == f_sum_of_powers(scalar_val(*x), i as nat),
        decreases n - i,
    {
        acc = scalar_add(&acc, &cur);
        cur = scalar_mul(&cur, x);
        i += 1;
    }
    acc
}

/// The reduced inner product ⟨a, b⟩ of two equal-length scalar vectors.
pub fn inner_product(a: &Vec<Scalar>, b: &Vec<Scalar>) -> (r: Scalar)
    requires
        a@.len() == b@.len(),
        all_wf(a@),
        all_wf(b@),
    ensures
        scalar_wf(r),
        scalar_val(r) == f_ip(vals(a@), vals(b@), a@.len() as nat),
{
    let mut acc = scalar_zero();
    let mut i: usize = 0;
    while i < a.len()
        invariant
            a@.len() == b@.len(),
            all_wf(a@),
            all_wf(b@),
            scalar_wf(acc),
            0 <= i <= a@.len(),
            scalar_val(acc) == f_ip(vals(a@), vals(b@), i as nat),
        decreases a@.len() - i,
    {
        let t = scalar_mul(&a[i], &b[i]);
        acc = scalar_add(&acc, &t);
        i += 1;
    }
    acc
}

/// A degree-1 vector polynomial `c0 + c1·X` with coefficients in 𝔽ⁿ.
pub struct VecPoly1 {
    pub c0: Vec<Scalar>,
    pub c1: Vec<Scalar>,
}

/// A degree-2 scalar polynomial `t0 + t1·X + t2·X²`.
pub struct Poly2 {
    pub t0: Scalar,
    pub t1: Scalar,
    pub t2: Scalar,
}

impl VecPoly1 {
    pub open spec fn wf(&self) -> bool {
        self.c0@.len() == self.c1@.len() && all_wf(self.c0@) && all_wf(self.c1@)
    }

    pub open spec fn len(&self) -> nat {
        self.c0@.len() as nat
    }

    /// Evaluate at `x`: the vector `c0 + c1·x`.
    pub fn eval(&self, x: &Scalar) -> (r: Vec<Scalar>)
        requires
            self.wf(),
            scalar_wf(*x),
        ensures
            r@.len() == self.len(),
            all_wf(r@),
            forall|i: int|
                0 <= i < r@.len() ==> scalar_val(r@[i]) == f_add(
                    scalar_val(self.c0@[i]),
                    f_mul(scalar_val(self.c1@[i]), scalar_val(*x)),
                ),
    {
        let mut r: Vec<Scalar> = Vec::new();
        let mut i: usize = 0;
        while i < self.c0.len()
            invariant
                self.wf(),
                scalar_wf(*x),
                r@.len() == i,
                0 <= i <= self.c0@.len(),
                all_wf(r@),
                forall|j: int|
                    0 <= j < i ==> scalar_val(r@[j]) == f_add(
                        scalar_val(self.c0@[j]),
                        f_mul(scalar_val(self.c1@[j]), scalar_val(*x)),
                    ),
            decreases self.c0@.len() - i,
        {
            let t = scalar_mul(&self.c1[i], x);
            r.push(scalar_add(&self.c0[i], &t));
            i += 1;
        }
        r
    }

    /// The inner product of two degree-1 vector polynomials, a degree-2
    /// scalar polynomial: (⟨l0,r0⟩, ⟨l0,r1⟩+⟨l1,r0⟩, ⟨l1,r1⟩).
    pub fn inner_product(&self, other: &VecPoly1) -> (r: Poly2)
        requires
            self.wf(),
            other.wf(),
            self.len() == other.len(),
        ensures
            r.wf(),
            scalar_val(r.t0) == f_ip(vals(self.c0@), vals(other.c0@), self.len()),
            scalar_val(r.t1) == f_add(
                f_ip(vals(self.c0@), vals(other.c1@), self.len()),
                f_ip(vals(self.c1@), vals(other.c0@), self.len()),
            ),
            scalar_val(r.t2) == f_ip(vals(self.c1@), vals(other.c1@), self.len()),
    {
        let t0 = inner_product(&self.c0, &other.c0);
        let a = inner_product(&self.c0, &other.c1);
        let b = inner_product(&self.c1, &other.c0);
        let t1 = scalar_add(&a, &b);
        let t2 = inner_product(&self.c1, &other.c1);
        Poly2 { t0, t1, t2 }
    }
}

impl Poly2 {
    pub open spec fn wf(&self) -> bool {
        scalar_wf(self.t0) && scalar_wf(self.t1) && scalar_wf(self.t2)
    }

    /// Evaluate at `x`: `t0 + x·(t1 + x·t2)`.
    pub fn eval(&self, x: &Scalar) -> (r: Scalar)
        requires
            self.wf(),
            scalar_wf(*x),
        ensures
            scalar_wf(r),
            scalar_val(r) == f_add(
                scalar_val(self.t0),
                f_mul(
                    scalar_val(*x),
                    f_add(scalar_val(self.t1), f_mul(scalar_val(*x), scalar_val(self.t2))),
                ),
            ),
    {
        let inner = scalar_add(&self.t1, &scalar_mul(x, &self.t2));
        scalar_add(&self.t0, &scalar_mul(x, &inner))
    }
}

} // verus!
