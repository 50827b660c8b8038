//! The recursive inner-product argument: a log-n proof that two secret
//! vectors have a declared inner product against tweaked bases.
//!
//! Each halving round commits to two cross terms L, R, absorbs them into
//! the transcript, draws a challenge u, and folds the vectors and bases;
//! the proof is the round commitments plus the two final scalars.

use vstd::prelude::*;

use crate::bytes::{all_zero, le_bytes_to_nat};
use crate::errors::ProofError;
use crate::field::{
    group_order, scalar_add, scalar_bytes, scalar_from_canonical_bytes, scalar_invert, scalar_mul,
    scalar_to_bytes, scalar_wf,
};
use crate::group::{multiscalar_mul, point_add, point_compress, point_scalar_mul};
use crate::poly::{all_wf, inner_product};
use crate::transcript::{challenge_scalar, ipp_domain_sep, validate_and_append_point, append_point};
use curve25519_dalek::ristretto::RistrettoPoint;
use curve25519_dalek::scalar::Scalar;
use merlin::Transcript;
use vstd::arithmetic::power2::pow2;

verus! {

/// `n` is a power of two.
pub open spec fn is_pow2(n: nat) -> bool
    decreases n,
{
    if n == 0 {
        false
    } else if n == 1 {
        true
    } else {
        n % 2 == 0 && is_pow2((n / 2) as nat)
    }
}

/// The base-2 logarithm, rounded down.
pub open spec fn lg2(n: nat) -> nat
    decreases n,
{
    if n <= 1 {
        0
    } else {
        1 + lg2((n / 2) as nat)
    }
}

pub proof fn lemma_lg2_lt(n: nat, k: nat)
    requires
        k >= 1,
        n < pow2(k),
    ensures
        lg2(n) < k,
    decreases n,
{
    vstd::arithmetic::power2::lemma2_to64();
    if n > 1 {
        vstd::arithmetic::power2::lemma_pow2_unfold(k);
        assert(k >= 2) by {
            if k == 1 {
                assert(pow2(1) == 2);
            }
        }
        lemma_lg2_lt((n / 2) as nat, (k - 1) as nat)
    }
}

/// The serialized round commitments: L_0, R_0, …, L_{k−1}, R_{k−1}.
pub open spec fn rounds_bytes(ls: Seq<Vec<u8>>, rs: Seq<Vec<u8>>, k: nat) -> Seq<u8>
    decreases k,
{
    if k == 0 {
        Seq::empty()
    } else {
        rounds_bytes(ls, rs, (k - 1) as nat) + ls[k - 1]@ + rs[k - 1]@
    }
}

/// No round commitment carries the all-zero (identity) encoding.
pub open spec fn rounds_valid(ls: Seq<Vec<u8>>, rs: Seq<Vec<u8>>) -> bool {
    &&& forall|j: int| 0 <= j < ls.len() ==> !all_zero(ls[j]@)
    &&& forall|j: int| 0 <= j < rs.len() ==> !all_zero(rs[j]@)
}

/// A proof of the inner-product relation: one (L, R) pair of compressed
/// points per halving round, and the two fully folded scalars.
pub struct InnerProductProof {
    pub L_vec: Vec<Vec<u8>>,
    pub R_vec: Vec<Vec<u8>>,
    pub a: Scalar,
    pub b: Scalar,
}

impl InnerProductProof {
    pub open spec fn wf(&self) -> bool {
        &&& self.L_vec@.len() == self.R_vec@.len()
        &&& self.L_vec@.len() < 32
        &&& forall|j: int| 0 <= j < self.L_vec@.len() ==> self.L_vec@[j]@.len() == 32
        &&& forall|j: int| 0 <= j < self.R_vec@.len() ==> self.R_vec@[j]@.len() == 32
        &&& scalar_wf(self.a)
        &&& scalar_wf(self.b)
    }

    /// The canonical byte layout: the interleaved round commitments
    /// followed by the encodings of `a` and `b`.
    pub open spec fn spec_bytes(&self) -> Seq<u8> {
        rounds_bytes(self.L_vec@, self.R_vec@, self.L_vec@.len() as nat) + scalar_bytes(self.a)
            + scalar_bytes(self.b)
    }

    /// Check the structural invariant at run time.
    pub fn check_well_formed(&self) -> (r: bool)
        ensures
            r == self.wf(),
    {
        if self.L_vec.len() != self.R_vec.len() || self.L_vec.len() >= 32 {
            return false;
        }
        let mut j: usize = 0;
        while j < self.L_vec.len()
            invariant
                self.L_vec@.len() == self.R_vec@.len(),
                0 <= j <= self.L_vec@.len(),
                forall|i: int| 0 <= i < j ==> self.L_vec@[i]@.len() == 32,
                forall|i: int| 0 <= i < j ==> self.R_vec@[i]@.len() == 32,
            decreases self.L_vec@.len() - j,
        {
            if self.L_vec[j].len() != 32 || self.R_vec[j].len() != 32 {
                return false;
            }
            j += 1;
        }
        crate::field::scalar_is_canonical(&self.a) && crate::field::scalar_is_canonical(&self.b)
    }

    /// The number of bytes of the serialized proof.
    pub fn serialized_size(&self) -> (r: usize)
        requires
            self.wf(),
        ensures
            r == (2 * self.L_vec@.len() + 2) * 32,
    {
        (2 * self.L_vec.len() + 2) * 32
    }
}

pub proof fn lemma_rounds_bytes_len(ls: Seq<Vec<u8>>, rs: Seq<Vec<u8>>, k: nat)
    requires
        k <= ls.len(),
        k <= rs.len(),
        forall|j: int| 0 <= j < ls.len() ==> ls[j]@.len() == 32,
        forall|j: int| 0 <= j < rs.len() ==> rs[j]@.len() == 32,
    ensures
        rounds_bytes(ls, rs, k).len() == 64 * k,
    decreases k,
{
    if k > 0 {
        lemma_rounds_bytes_len(ls, rs, (k - 1) as nat);
    }
}

pub proof fn lemma_rounds_bytes_prefix(
    ls1: Seq<Vec<u8>>,
    rs1: Seq<Vec<u8>>,
    ls2: Seq<Vec<u8>>,
    rs2: Seq<Vec<u8>>,
    k: nat,
)
    requires
        k <= ls1.len(),
        k <= rs1.len(),
        k <= ls2.len(),
        k <= rs2.len(),
        forall|j: int| 0 <= j < k ==> ls1[j] == ls2[j],
        forall|j: int| 0 <= j < k ==> rs1[j] == rs2[j],
    ensures
        rounds_bytes(ls1, rs1, k) == rounds_bytes(ls2, rs2, k),
    decreases k,
{
    if k > 0 {
        lemma_rounds_bytes_prefix(ls1, rs1, ls2, rs2, (k - 1) as nat);
    }
}

/// Serialization shape law: a well-formed inner-product proof's byte
/// encoding always satisfies `parse_ok`, so serialization round-trips.
pub proof fn lemma_ipp_bytes_parse(p: InnerProductProof)
    requires
        p.wf(),
    ensures
        InnerProductProof::parse_ok(p.spec_bytes()),
        p.spec_bytes().len() == (2 * p.L_vec@.len() + 2) * 32,
{
    let k = p.L_vec@.len() as nat;
    let s = p.spec_bytes();
    lemma_rounds_bytes_len(p.L_vec@, p.R_vec@, k);
    assert(s.len() == 64 * k + 64);
    assert((64 * k + 64) % 32 == 0) by (nonlinear_arith);
    assert((s.len() - 64) % 64 == 0 && (s.len() - 64) / 64 == k) by (nonlinear_arith)
        requires
            s.len() == 64 * k + 64,
    ;
    assert(s.subrange(s.len() - 64, s.len() - 32) =~= scalar_bytes(p.a));
    assert(s.subrange(s.len() - 32, s.len() as int) =~= scalar_bytes(p.b));
}

/// Copy the first `k` entries of a scalar vector.
pub(crate) fn head_scalars(v: &Vec<Scalar>, k: usize) -> (r: Vec<Scalar>)
    requires
        k <= v@.len(),
    ensures
        r@ == v@.subrange(0, k as int),
{
    let mut r: Vec<Scalar> = Vec::new();
    let mut i: usize = 0;
    while i < k
        invariant
            k <= v@.len(),
            0 <= i <= k,
            r@.len() == i,
            forall|j: int| 0 <= j < i ==> r@[j] == v@[j],
        decreases k - i,
    {
        r.push(v[i]);
        i += 1;
    }
    proof {
        assert(r@ =~= v@.subrange(0, k as int));
    }
    r
}

/// Copy the entries of a scalar vector from `k` on.
pub(crate) fn tail_scalars(v: &Vec<Scalar>, k: usize) -> (r: Vec<Scalar>)
    requires
        k <= v@.len(),
    ensures
        r@ == v@.subrange(k as int, v@.len() as int),
{
    let mut r: Vec<Scalar> = Vec::new();
    let mut i: usize = k;
    while i < v.len()
        invariant
            k <= i <= v@.len(),
            r@.len() == i - k,
            forall|j: int| 0 <= j < i - k ==> r@[j] == v@[k + j],
        decreases v@.len() - i,
    {
        r.push(v[i]);
        i += 1;
    }
    proof {
        assert(r@ =~= v@.subrange(k as int, v@.len() as int));
    }
    r
}

/// Copy the first `k` entries of a point vector.
pub(crate) fn head_points(v: &Vec<RistrettoPoint>, k: usize) -> (r: Vec<RistrettoPoint>)
    requires
        k <= v@.len(),
    ensures
        r@ == v@.subrange(0, k as int),
{
    let mut r: Vec<RistrettoPoint> = Vec::new();
    let mut i: usize = 0;
    while i < k
        invariant
            k <= v@.len(),
            0 <= i <= k,
            r@.len() == i,
            forall|j: int| 0 <= j < i ==> r@[j] == v@[j],
        decreases k - i,
    {
        r.push(v[i]);
        i += 1;
    }
    proof {
        assert(r@ =~= v@.subrange(0, k as int));
    }
    r
}

/// Copy the entries of a point vector from `k` on.
pub(crate) fn tail_points(v: &Vec<RistrettoPoint>, k: usize) -> (r: Vec<RistrettoPoint>)
    requires
        k <= v@.len(),
    ensures
        r@ == v@.subrange(k as int, v@.len() as int),
{
    let mut r: Vec<RistrettoPoint> = Vec::new();
    let mut i: usize = k;
    while i < v.len()
        invariant
            k <= i <= v@.len(),
            r@.len() == i - k,
            forall|j: int| 0 <= j < i - k ==> r@[j] == v@[k + j],
        decreases v@.len() - i,
    {
        r.push(v[i]);
        i += 1;
    }
    proof {
        assert(r@ =~= v@.subrange(k as int, v@.len() as int));
    }
    r
}

/// Append a copy of every scalar of `src` to `dst`.
pub(crate) fn push_all_scalars(dst: &mut Vec<Scalar>, src: &Vec<Scalar>)
    ensures
        final(dst)@ == old(dst)@ + src@,
{
    let mut i: usize = 0;
    while i < src.len()
        invariant
            0 <= i <= src@.len(),
            dst@ == old(dst)@ + src@.subrange(0, i as int),
        decreases src@.len() - i,
    {
        proof {
            assert(old(dst)@ + src@.subrange(0, i as int + 1) =~= (old(dst)@ + src@.subrange(
                0,
                i as int,
            )).push(src@[i as int]));
        }
        dst.push(src[i]);
        i += 1;
    }
    proof {
        assert(src@.subrange(0, src@.len() as int) =~= src@);
    }
}

/// Append a copy of every point of `src` to `dst`.
pub(crate) fn push_all_points(dst: &mut Vec<RistrettoPoint>, src: &Vec<RistrettoPoint>)
    ensures
        final(dst)@ == old(dst)@ + src@,
{
    let mut i: usize = 0;
    while i < src.len()
        invariant
            0 <= i <= src@.len(),
            dst@ == old(dst)@ + src@.subrange(0, i as int),
        decreases src@.len() - i,
    {
        proof {
            assert(old(dst)@ + src@.subrange(0, i as int + 1) =~= (old(dst)@ + src@.subrange(
                0,
                i as int,
            )).push(src@[i as int]));
        }
        dst.push(src[i]);
        i += 1;
    }
    proof {
        assert(src@.subrange(0, src@.len() as int) =~= src@);
    }
}

/// Append a copy of every byte of `src` to `dst`.
pub(crate) fn push_all_bytes(dst: &mut Vec<u8>, src: &[u8])
    ensures
        final(dst)@ == old(dst)@ + src@,
{
    let mut i: usize = 0;
    while i < src.len()
        invariant
            0 <= i <= src@.len(),
            dst@ == old(dst)@ + src@.subrange(0, i as int),
        decreases src@.len() - i,
    {
        proof {
            assert(old(dst)@ + src@.subrange(0, i as int + 1) =~= (old(dst)@ + src@.subrange(
                0,
                i as int,
            )).push(src@[i as int]));
        }
        dst.push(src[i]);
        i += 1;
    }
    proof {
        assert(src@.subrange(0, src@.len() as int) =~= src@);
    }
}

/// Copy 32 bytes of `s` starting at `off`.
pub(crate) fn read32(s: &[u8], off: usize) -> (r: Vec<u8>)
    requires
        off + 32 <= s@.len(),
    ensures
        r@ == s@.subrange(off as int, off as int + 32),
{
    let slen: usize = s.len();
    let mut r: Vec<u8> = Vec::new();
    let mut i: usize = 0;
    while i < 32
        invariant
            slen == s@.len(),
            off + 32 <= slen,
            0 <= i <= 32,
            r@.len() == i,
            forall|j: int| 0 <= j < i ==> r@[j] == s@[off + j],
        decreases 32 - i,
    {
        r.push(s[off + i]);
        i += 1;
    }
    proof {
        assert(r@ =~= s@.subrange(off as int, off as int + 32));
    }
    r
}

impl InnerProductProof {
    /// Create an inner-product proof.
    ///
    /// The `G_factors` and `H_factors` are folded into the bases first:
    /// the relation is proved over G'_i = G_factors[i]·G_i and
    /// H'_i = H_factors[i]·H_i.
    pub fn create(
        transcript: &mut Transcript,
        Q: &RistrettoPoint,
        G_factors: &Vec<Scalar>,
        H_factors: &Vec<Scalar>,
        G_vec: Vec<RistrettoPoint>,
        H_vec: Vec<RistrettoPoint>,
        l_vec: Vec<Scalar>,
        r_vec: Vec<Scalar>,
    ) -> (r: InnerProductProof)
        requires
            l_vec@.len() == r_vec@.len(),
            G_vec@.len() == l_vec@.len(),
            H_vec@.len() == l_vec@.len(),
            G_factors@.len() == l_vec@.len(),
            H_factors@.len() == l_vec@.len(),
            is_pow2(l_vec@.len() as nat),
            l_vec@.len() < 0x1_0000_0000,
            all_wf(l_vec@),
            all_wf(r_vec@),
            all_wf(G_factors@),
            all_wf(H_factors@),
        ensures
            r.wf(),
            r.L_vec@.len() == lg2(l_vec@.len() as nat),
    {
        let mut n = l_vec.len();
        let ghost n0 = l_vec@.len() as nat;
        ipp_domain_sep(transcript, n as u64);

        // Fold the factors into the bases.
        let mut gp: Vec<RistrettoPoint> = Vec::new();
        let mut hp: Vec<RistrettoPoint> = Vec::new();
        let mut i: usize = 0;
        while i < n
            invariant
                n == l_vec@.len(),
                G_vec@.len() == n,
                H_vec@.len() == n,
                G_factors@.len() == n,
                H_factors@.len() == n,
                all_wf(G_factors@),
                all_wf(H_factors@),
                gp@.len() == i,
                hp@.len() == i,
                0 <= i <= n,
            decreases n - i,
        {
            gp.push(point_scalar_mul(&G_factors[i], &G_vec[i]));
            hp.push(point_scalar_mul(&H_factors[i], &H_vec[i]));
            i += 1;
        }

        let mut l = l_vec;
        let mut r = r_vec;
        let mut Lb: Vec<Vec<u8>> = Vec::new();
        let mut Rb: Vec<Vec<u8>> = Vec::new();

        proof {
            vstd::arithmetic::power2::lemma2_to64();
            lemma_lg2_lt(n0, 32);
        }

        while n > 1
            invariant
                l@.len() == n,
                r@.len() == n,
                gp@.len() == n,
                hp@.len() == n,
                is_pow2(n as nat),
                all_wf(l@),
                all_wf(r@),
                Lb@.len() == Rb@.len(),
                Lb@.len() + lg2(n as nat) == lg2(n0),
                lg2(n0) < 32,
                forall|j: int| 0 <= j < Lb@.len() ==> Lb@[j]@.len() == 32,
                forall|j: int| 0 <= j < Rb@.len() ==> Rb@[j]@.len() == 32,
            decreases n,
        {
            let n2 = n / 2;
            let l_lo = head_scalars(&l, n2);
            let l_hi = tail_scalars(&l, n2);
            let r_lo = head_scalars(&r, n2);
            let r_hi = tail_scalars(&r, n2);
            let gp_lo = head_points(&gp, n2);
            let gp_hi = tail_points(&gp, n2);
            let hp_lo = head_points(&hp, n2);
            let hp_hi = tail_points(&hp, n2);

            let c_l = inner_product(&l_lo, &r_hi);
            let c_r = inner_product(&l_hi, &r_lo);

            // L = <l_lo, gp_hi> + <r_hi, hp_lo> + c_l * Q
            let mut ls: Vec<Scalar> = Vec::new();
            push_all_scalars(&mut ls, &l_lo);
            push_all_scalars(&mut ls, &r_hi);
            ls.push(c_l);
            let mut lp: Vec<RistrettoPoint> = Vec::new();
            push_all_points(&mut lp, &gp_hi);
            push_all_points(&mut lp, &hp_lo);
            lp.push(*Q);
            let L = multiscalar_mul(&ls, &lp);

            // R = <l_hi, gp_lo> + <r_lo, hp_hi> + c_r * Q
            let mut rs: Vec<Scalar> = Vec::new();
            push_all_scalars(&mut rs, &l_hi);
            push_all_scalars(&mut rs, &r_lo);
            rs.push(c_r);
            let mut rp: Vec<RistrettoPoint> = Vec::new();
            push_all_points(&mut rp, &gp_lo);
            push_all_points(&mut rp, &hp_hi);
            rp.push(*Q);
            let R = multiscalar_mul(&rs, &rp);

            let l_bytes = point_compress(&L);
            let r_bytes = point_compress(&R);
            append_point(transcript, "L", l_bytes.as_slice());
            append_point(transcript, "R", r_bytes.as_slice());
            Lb.push(l_bytes);
            Rb.push(r_bytes);

            let u = challenge_scalar(transcript, "u");
            let u_inv = scalar_invert(&u);

            let mut l_new: Vec<Scalar> = Vec::new();
            let mut r_new: Vec<Scalar> = Vec::new();
            let mut gp_new: Vec<RistrettoPoint> = Vec::new();
            let mut hp_new: Vec<RistrettoPoint> = Vec::new();
            let mut i: usize = 0;
            while i < n2
                invariant
                    l_lo@.len() == n2,
                    l_hi@.len() == n2,
                    r_lo@.len() == n2,
                    r_hi@.len() == n2,
                    gp_lo@.len() == n2,
                    gp_hi@.len() == n2,
                    hp_lo@.len() == n2,
                    hp_hi@.len() == n2,
                    all_wf(l_lo@),
                    all_wf(l_hi@),
                    all_wf(r_lo@),
                    all_wf(r_hi@),
                    scalar_wf(u),
                    scalar_wf(u_inv),
                    l_new@.len() == i,
                    r_new@.len() == i,
                    gp_new@.len() == i,
                    hp_new@.len() == i,
                    0 <= i <= n2,
                    all_wf(l_new@),
                    all_wf(r_new@),
                decreases n2 - i,
            {
                let a1 = scalar_mul(&l_lo[i], &u);
                let a2 = scalar_mul(&l_hi[i], &u_inv);
                l_new.push(scalar_add(&a1, &a2));
                let b1 = scalar_mul(&r_lo[i], &u_inv);
                let b2 = scalar_mul(&r_hi[i], &u);
                r_new.push(scalar_add(&b1, &b2));
                let g1 = point_scalar_mul(&u_inv, &gp_lo[i]);
                let g2 = point_scalar_mul(&u, &gp_hi[i]);
                gp_new.push(point_add(&g1, &g2));
                let h1 = point_scalar_mul(&u, &hp_lo[i]);
                let h2 = point_scalar_mul(&u_inv, &hp_hi[i]);
                hp_new.push(point_add(&h1, &h2));
                i += 1;
            }

            l = l_new;
            r = r_new;
            gp = gp_new;
            hp = hp_new;
            n = n2;
        }

        InnerProductProof { L_vec: Lb, R_vec: Rb, a: l[0], b: r[0] }
    }

    /// Replay the halving challenges and produce the verification
    /// scalars: the squared challenges, their inverses, and the vector
    /// `s` of signed challenge products.
    ///
    /// Succeeds exactly when `n` matches the round count of the proof and
    /// no round commitment is the identity encoding.
    pub fn verification_scalars(&self, n: usize, transcript: &mut Transcript) -> (r: Result<
        (Vec<Scalar>, Vec<Scalar>, Vec<Scalar>),
        ProofError,
    >)
        requires
            self.wf(),
        ensures
            r is Ok <==> (n == pow2(self.L_vec@.len() as nat) && rounds_valid(
                self.L_vec@,
                self.R_vec@,
            )),
            r is Err ==> r->Err_0 == ProofError::VerificationError,
            r is Ok ==> ({
                &&& r->Ok_0.0@.len() == self.L_vec@.len()
                &&& r->Ok_0.1@.len() == self.L_vec@.len()
                &&& r->Ok_0.2@.len() == n
                &&& all_wf(r->Ok_0.0@)
                &&& all_wf(r->Ok_0.1@)
                &&& all_wf(r->Ok_0.2@)
            }),
    {
        let lg_n = self.L_vec.len();

        // 2^lg_n, safe because lg_n < 32.
        proof {
            vstd::arithmetic::power2::lemma2_to64();
        }
        let mut m: usize = 1;
        let mut j: usize = 0;
        while j < lg_n
            invariant
                lg_n < 32,
                0 <= j <= lg_n,
                m == pow2(j as nat),
                m <= pow2(31),
            decreases lg_n - j,
        {
            proof {
                vstd::arithmetic::power2::lemma2_to64();
                vstd::arithmetic::power2::lemma_pow2_unfold(j as nat + 1);
                vstd::arithmetic::power2::lemma_pow2_pos(j as nat);
                if j as nat + 1 < 31 {
                    vstd::arithmetic::power2::lemma_pow2_strictly_increases(j as nat + 1, 31);
                }
            }
            m = m * 2;
            j += 1;
        }
        if n != m {
            return Err(ProofError::VerificationError);
        }
        ipp_domain_sep(transcript, n as u64);

        let mut challenges: Vec<Scalar> = Vec::new();
        let mut j: usize = 0;
        while j < lg_n
            invariant
                self.wf(),
                lg_n == self.L_vec@.len(),
                0 <= j <= lg_n,
                challenges@.len() == j,
                all_wf(challenges@),
                forall|i: int| 0 <= i < j ==> !all_zero(self.L_vec@[i]@),
                forall|i: int| 0 <= i < j ==> !all_zero(self.R_vec@[i]@),
            decreases lg_n - j,
        {
            match validate_and_append_point(transcript, "L", self.L_vec[j].as_slice()) {
                Ok(()) => (),
                Err(_) => {
                    return Err(ProofError::VerificationError);
                },
            }
            match validate_and_append_point(transcript, "R", self.R_vec[j].as_slice()) {
                Ok(()) => (),
                Err(_) => {
                    return Err(ProofError::VerificationError);
                },
            }
            challenges.push(challenge_scalar(transcript, "u"));
            j += 1;
        }

        let mut u_sq: Vec<Scalar> = Vec::new();
        let mut u_inv: Vec<Scalar> = Vec::new();
        let mut u_inv_sq: Vec<Scalar> = Vec::new();
        let mut j: usize = 0;
        while j < lg_n
            invariant
                challenges@.len() == lg_n,
                all_wf(challenges@),
                0 <= j <= lg_n,
                u_sq@.len() == j,
                u_inv@.len() == j,
                u_inv_sq@.len() == j,
                all_wf(u_sq@),
                all_wf(u_inv@),
                all_wf(u_inv_sq@),
            decreases lg_n - j,
        {
            let u = challenges[j];
            let ui = scalar_invert(&u);
            u_sq.push(scalar_mul(&u, &u));
            u_inv_sq.push(scalar_mul(&ui, &ui));
            u_inv.push(ui);
            j += 1;
        }

        // s_i = prod_j u_j^{±1}, the sign given by bit j of i (MSB first).
        let mut s: Vec<Scalar> = Vec::new();
        let mut i: usize = 0;
        while i < n
            invariant
                challenges@.len() == lg_n,
                u_inv@.len() == lg_n,
                all_wf(challenges@),
                all_wf(u_inv@),
                lg_n < 32,
                0 <= i <= n,
                s@.len() == i,
                all_wf(s@),
            decreases n - i,
        {
            let mut cur = crate::field::scalar_one();
            let mut j: usize = 0;
            while j < lg_n
                invariant
                    challenges@.len() == lg_n,
                    u_inv@.len() == lg_n,
                    all_wf(challenges@),
                    all_wf(u_inv@),
                    lg_n < 32,
                    0 <= j <= lg_n,
                    scalar_wf(cur),
                decreases lg_n - j,
            {
                let bit = (i >> ((lg_n - 1 - j) as u32)) & 1;
                if bit == 1 {
                    cur = scalar_mul(&cur, &challenges[j]);
                } else {
                    cur = scalar_mul(&cur, &u_inv[j]);
                }
                j += 1;
            }
            s.push(cur);
            i += 1;
        }

        Ok((u_sq, u_inv_sq, s))
    }

    /// Serialize: L_0, R_0, …, then `a`, then `b`, 32 bytes each.
    pub fn to_bytes(&self) -> (r: Vec<u8>)
        requires
            self.wf(),
        ensures
            r@ == self.spec_bytes(),
            r@.len() == (2 * self.L_vec@.len() + 2) * 32,
    {
        let mut buf: Vec<u8> = Vec::new();
        let mut j: usize = 0;
        while j < self.L_vec.len()
            invariant
                self.wf(),
                0 <= j <= self.L_vec@.len(),
                buf@ == rounds_bytes(self.L_vec@, self.R_vec@, j as nat),
            decreases self.L_vec@.len() - j,
        {
            push_all_bytes(&mut buf, self.L_vec[j].as_slice());
            push_all_bytes(&mut buf, self.R_vec[j].as_slice());
            j += 1;
        }
        proof {
            lemma_rounds_bytes_len(self.L_vec@, self.R_vec@, self.L_vec@.len() as nat);
        }
        let a_bytes = scalar_to_bytes(&self.a);
        push_all_bytes(&mut buf, a_bytes.as_slice());
        let b_bytes = scalar_to_bytes(&self.b);
        push_all_bytes(&mut buf, b_bytes.as_slice());
        proof {
            assert(buf@ =~= self.spec_bytes());
        }
        buf
    }

    /// The tail of a serialized proof parses exactly when it consists of
    /// an even number of 32-byte round commitments (fewer than 64) and
    /// two canonical scalars.
    pub open spec fn parse_ok(s: Seq<u8>) -> bool {
        &&& s.len() % 32 == 0
        &&& s.len() >= 64
        &&& (s.len() - 64) % 64 == 0
        &&& (s.len() - 64) / 64 < 32
        &&& le_bytes_to_nat(s.subrange(s.len() - 64, s.len() - 32)) < group_order()
        &&& le_bytes_to_nat(s.subrange(s.len() - 32, s.len() as int)) < group_order()
    }

    /// Parse a serialized inner-product proof.
    pub fn from_bytes(slice: &[u8]) -> (r: Result<InnerProductProof, ProofError>)
        ensures
            r is Ok <==> Self::parse_ok(slice@),
            r is Err ==> r->Err_0 == ProofError::FormatError,
            r is Ok ==> ({
                &&& r->Ok_0.wf()
                &&& r->Ok_0.spec_bytes() == slice@
                &&& r->Ok_0.L_vec@.len() == (slice@.len() - 64) / 64
            }),
    {
        let b = slice.len();
        if b % 32 != 0 {
            return Err(ProofError::FormatError);
        }
        let num_elements = b / 32;
        if num_elements < 2 {
            return Err(ProofError::FormatError);
        }
        if (num_elements - 2) % 2 != 0 {
            return Err(ProofError::FormatError);
        }
        let lg_n = (num_elements - 2) / 2;
        if lg_n >= 32 {
            return Err(ProofError::FormatError);
        }

        let mut ls: Vec<Vec<u8>> = Vec::new();
        let mut rs: Vec<Vec<u8>> = Vec::new();
        let mut j: usize = 0;
        while j < lg_n
            invariant
                slice@.len() == b,
                b % 32 == 0,
                num_elements == b / 32,
                lg_n == (num_elements - 2) / 2,
                (num_elements - 2) % 2 == 0,
                num_elements >= 2,
                lg_n < 32,
                0 <= j <= lg_n,
                ls@.len() == j,
                rs@.len() == j,
                forall|i: int| 0 <= i < j ==> ls@[i]@.len() == 32,
                forall|i: int| 0 <= i < j ==> rs@[i]@.len() == 32,
                rounds_bytes(ls@, rs@, j as nat) =~= slice@.subrange(0, 64 * j),
            decreases lg_n - j,
        {
            let ghost old_ls = ls@;
            let ghost old_rs = rs@;
            let lb = read32(slice, 64 * j);
            let rb = read32(slice, 64 * j + 32);
            ls.push(lb);
            rs.push(rb);
            proof {
                lemma_rounds_bytes_prefix(ls@, rs@, old_ls, old_rs, j as nat);
                assert(rounds_bytes(ls@, rs@, j as nat + 1) =~= slice@.subrange(
                    0,
                    64 * (j as int + 1),
                ));
            }
            j += 1;
        }

        let a_vec = read32(slice, b - 64);
        let a = match scalar_from_canonical_bytes(a_vec.as_slice()) {
            Some(a) => a,
            None => {
                return Err(ProofError::FormatError);
            },
        };
        let b_vec = read32(slice, b - 32);
        let bb = match scalar_from_canonical_bytes(b_vec.as_slice()) {
            Some(x) => x,
            None => {
                return Err(ProofError::FormatError);
            },
        };

        let r = InnerProductProof { L_vec: ls, R_vec: rs, a, b: bb };
        proof {
            lemma_rounds_bytes_len(ls@, rs@, lg_n as nat);
            assert(r.spec_bytes() =~= slice@);
        }
        Ok(r)
    }
}

} // verus!
