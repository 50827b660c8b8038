//! The k-hot proof: a Bulletproofs-style argument that a committed binary
//! vector has a fixed Hamming weight (one, in this single-hot build).
//!
//! The prover commits to the bit vector and to blinding vectors, reduces
//! the k-hot statement to an inner-product statement through the
//! Fiat–Shamir challenges y, z, x, w, and delegates to the recursive
//! inner-product argument.  The verifier replays the challenges and
//! batches every constraint into one multiscalar multiplication that must
//! vanish.

use vstd::prelude::*;

use crate::bytes::{all_zero, le_bytes_to_nat};
use crate::errors::ProofError;
use crate::field::{
    f_add, f_mul, f_pow, f_sub, f_sum_of_powers, group_order, new_rng, scalar_add, scalar_bytes,
    scalar_from_canonical_bytes, scalar_from_u64, scalar_invert, scalar_mul, scalar_neg,
    scalar_one, scalar_random, scalar_sub, scalar_to_bytes, scalar_val, scalar_wf, scalar_zero,
};
use crate::generators::{BulletproofGens, PedersenGens};
use crate::group::{
    multiscalar_mul, point_add, point_compress, point_decompress, point_is_identity, point_neg,
    point_scalar_mul, point_select,
};
use crate::inner_product::{
    is_pow2, lg2, push_all_bytes, push_all_points, push_all_scalars, read32, rounds_valid,
    InnerProductProof,
};
use crate::poly::{all_wf, exp_vec, sum_of_powers, Poly2, VecPoly1};
use crate::transcript::{
    append_point, append_scalar, challenge_scalar, domain_sep, validate_and_append_point,
};
use curve25519_dalek::ristretto::RistrettoPoint;
use curve25519_dalek::scalar::Scalar;
use merlin::Transcript;
use vstd::arithmetic::power2::pow2;

verus! {

/// Every byte of the secret vector is a bit.
pub open spec fn binary_vec(s: Seq<u8>) -> bool {
    forall|i: int| 0 <= i < s.len() ==> (s[i] == 0 || s[i] == 1)
}

/// δ(n, y, z) = (z − z²)·(1 + y + … + y^(n−1)) − z³·n, in the field.
pub open spec fn delta_spec(n: nat, y: int, z: int) -> int {
    f_sub(
        f_mul(f_sub(z, f_mul(z, z)), f_sum_of_powers(y, n)),
        f_mul(f_mul(f_mul(z, z), z), n as int),
    )
}

/// Compute δ(n, y, z).
pub fn delta(n: usize, y: &Scalar, z: &Scalar) -> (r: Scalar)
    requires
        scalar_wf(*y),
        scalar_wf(*z),
    ensures
        scalar_wf(r),
        scalar_val(r) == delta_spec(n as nat, scalar_val(*y), scalar_val(*z)),
{
    let z2 = scalar_mul(z, z);
    let z3 = scalar_mul(&z2, z);
    let sum_y = sum_of_powers(y, n);
    let zd = scalar_sub(z, &z2);
    let t1 = scalar_mul(&zd, &sum_y);
    let nn = scalar_from_u64(n as u64);
    let t2 = scalar_mul(&z3, &nn);
    scalar_sub(&t1, &t2)
}

/// A proof that the vector committed in A is binary with Hamming weight
/// one.  Points are stored in compressed 32-byte form.
pub struct KHotProof {
    /// Commitment to the bits of the vector.
    pub A: Vec<u8>,
    /// Commitment to the blinding factors.
    pub S: Vec<u8>,
    /// Commitment to the t₁ coefficient of t(x).
    pub T_1: Vec<u8>,
    /// Commitment to the t₂ coefficient of t(x).
    pub T_2: Vec<u8>,
    /// Evaluation of t(x) at the challenge point.
    pub t_x: Scalar,
    /// Blinding factor for the synthetic commitment to t(x).
    pub t_x_blinding: Scalar,
    /// Blinding factor for the synthetic commitment to the inner-product
    /// arguments.
    pub e_blinding: Scalar,
    /// The recursive inner-product argument.
    pub ipp_proof: InnerProductProof,
}

impl KHotProof {
    pub open spec fn wf(&self) -> bool {
        &&& self.A@.len() == 32
        &&& self.S@.len() == 32
        &&& self.T_1@.len() == 32
        &&& self.T_2@.len() == 32
        &&& scalar_wf(self.t_x)
        &&& scalar_wf(self.t_x_blinding)
        &&& scalar_wf(self.e_blinding)
        &&& self.ipp_proof.wf()
    }

    /// The canonical byte layout: A, S, T₁, T₂, t_x, t̃_x, ẽ, then the
    /// inner-product proof.
    pub open spec fn spec_bytes(&self) -> Seq<u8> {
        self.A@ + self.S@ + self.T_1@ + self.T_2@ + scalar_bytes(self.t_x) + scalar_bytes(
            self.t_x_blinding,
        ) + scalar_bytes(self.e_blinding) + self.ipp_proof.spec_bytes()
    }

    /// A byte string parses exactly when it is a multiple of 32 bytes, at
    /// least seven blocks long, its three scalars are canonical, and its
    /// tail is a well-shaped inner-product proof.
    pub open spec fn parse_ok(s: Seq<u8>) -> bool {
        &&& s.len() % 32 == 0
        &&& s.len() >= 224
        &&& le_bytes_to_nat(s.subrange(128, 160)) < group_order()
        &&& le_bytes_to_nat(s.subrange(160, 192)) < group_order()
        &&& le_bytes_to_nat(s.subrange(192, 224)) < group_order()
        &&& InnerProductProof::parse_ok(s.subrange(224, s.len() as int))
    }

    /// Check the structural invariant at run time (the prover and the
    /// parser establish it; foreign callers can re-check it).
    pub fn check_well_formed(&self) -> (r: bool)
        ensures
            r == self.wf(),
    {
        self.A.len() == 32 && self.S.len() == 32 && self.T_1.len() == 32 && self.T_2.len() == 32
            && crate::field::scalar_is_canonical(&self.t_x) && crate::field::scalar_is_canonical(
            &self.t_x_blinding,
        ) && crate::field::scalar_is_canonical(&self.e_blinding)
            && self.ipp_proof.check_well_formed()
    }

    /// Create a k-hot proof for the given binary vector, whose length
    /// must be a power of two (the halving protocol stops exactly there).
    ///
    /// Fails exactly when the vector is longer than the generator tables.
    /// On that failure the transcript is untouched.
    pub fn prove(
        bp_gens: &BulletproofGens,
        pc_gens: &PedersenGens,
        transcript: &mut Transcript,
        secret_vec: Vec<u8>,
    ) -> (r: Result<KHotProof, ProofError>)
        requires
            bp_gens.wf(),
            binary_vec(secret_vec@),
            is_pow2(secret_vec@.len() as nat),
            secret_vec@.len() < 0x1_0000_0000,
        ensures
            r is Ok <==> secret_vec@.len() <= bp_gens.gens_capacity,
            r is Err ==> r->Err_0 == ProofError::InvalidGeneratorsLength,
            secret_vec@.len() > bp_gens.gens_capacity ==> *final(transcript) == *old(transcript),
            r is Ok ==> ({
                &&& r->Ok_0.wf()
                &&& r->Ok_0.ipp_proof.L_vec@.len() == lg2(secret_vec@.len() as nat)
            }),
    {
        let n = secret_vec.len();
        if bp_gens.gens_capacity < n {
            return Err(ProofError::InvalidGeneratorsLength);
        }
        domain_sep(transcript, n as u64);

        let mut rng = new_rng();
        let a_blinding = scalar_random(&mut rng);

        let g = bp_gens.g_slice(n);
        let h = bp_gens.h_slice(n);

        // A = <a_L, G> + <a_R, H> + a_blinding * B_blinding, built with a
        // constant-time select: bit 1 contributes G_i, bit 0 contributes
        // -H_i.
        let mut A = point_scalar_mul(&a_blinding, &pc_gens.B_blinding);
        let mut i: usize = 0;
        while i < n
            invariant
                n == secret_vec@.len(),
                binary_vec(secret_vec@),
                g@.len() == n,
                h@.len() == n,
                0 <= i <= n,
            decreases n - i,
        {
            let neg_h = point_neg(&h[i]);
            let sel = point_select(&neg_h, &g[i], secret_vec[i]);
            A = point_add(&A, &sel);
            i += 1;
        }

        let s_blinding = scalar_random(&mut rng);
        let mut s_L: Vec<Scalar> = Vec::new();
        let mut s_R: Vec<Scalar> = Vec::new();
        let mut i: usize = 0;
        while i < n
            invariant
                s_L@.len() == i,
                s_R@.len() == i,
                0 <= i <= n,
                all_wf(s_L@),
                all_wf(s_R@),
            decreases n - i,
        {
            s_L.push(scalar_random(&mut rng));
            s_R.push(scalar_random(&mut rng));
            i += 1;
        }

        // S = <s_L, G> + <s_R, H> + s_blinding * B_blinding.
        let mut s_scalars: Vec<Scalar> = Vec::new();
        s_scalars.push(s_blinding);
        push_all_scalars(&mut s_scalars, &s_L);
        push_all_scalars(&mut s_scalars, &s_R);
        let mut s_points: Vec<RistrettoPoint> = Vec::new();
        s_points.push(pc_gens.B_blinding);
        push_all_points(&mut s_points, &g);
        push_all_points(&mut s_points, &h);
        let S = multiscalar_mul(&s_scalars, &s_points);

        let A_bytes = point_compress(&A);
        let S_bytes = point_compress(&S);
        append_point(transcript, "A", A_bytes.as_slice());
        append_point(transcript, "S", S_bytes.as_slice());

        let y = challenge_scalar(transcript, "y");
        let z = challenge_scalar(transcript, "z");

        // l(X)_i = (a_L_i − z) + s_L_i · X
        // r(X)_i = y^i·(a_R_i + z) + z² + y^i·s_R_i · X
        let one = scalar_one();
        let zz = scalar_mul(&z, &z);
        let mut exp_y = scalar_one();
        let mut l0: Vec<Scalar> = Vec::new();
        let mut l1: Vec<Scalar> = Vec::new();
        let mut r0: Vec<Scalar> = Vec::new();
        let mut r1: Vec<Scalar> = Vec::new();
        let mut i: usize = 0;
        while i < n
            invariant
                n == secret_vec@.len(),
                binary_vec(secret_vec@),
                s_L@.len() == n,
                s_R@.len() == n,
                all_wf(s_L@),
                all_wf(s_R@),
                scalar_wf(one),
                scalar_wf(y),
                scalar_wf(z),
                scalar_wf(zz),
                scalar_wf(exp_y),
                l0@.len() == i,
                l1@.len() == i,
                r0@.len() == i,
                r1@.len() == i,
                0 <= i <= n,
                all_wf(l0@),
                all_wf(l1@),
                all_wf(r0@),
                all_wf(r1@),
            decreases n - i,
        {
            let a_L = scalar_from_u64(secret_vec[i] as u64);
            let a_R = scalar_sub(&a_L, &one);
            l0.push(scalar_sub(&a_L, &z));
            l1.push(s_L[i]);
            let ar_z = scalar_add(&a_R, &z);
            let y_ar_z = scalar_mul(&exp_y, &ar_z);
            r0.push(scalar_add(&y_ar_z, &zz));
            r1.push(scalar_mul(&exp_y, &s_R[i]));
            exp_y = scalar_mul(&exp_y, &y);
            i += 1;
        }
        let l_poly = VecPoly1 { c0: l0, c1: l1 };
        let r_poly = VecPoly1 { c0: r0, c1: r1 };

        let t_poly = l_poly.inner_product(&r_poly);

        let t_1_blinding = scalar_random(&mut rng);
        let t_2_blinding = scalar_random(&mut rng);
        let T_1 = pc_gens.commit(&t_poly.t1, &t_1_blinding);
        let T_2 = pc_gens.commit(&t_poly.t2, &t_2_blinding);

        let T_1_bytes = point_compress(&T_1);
        let T_2_bytes = point_compress(&T_2);
        append_point(transcript, "T_1", T_1_bytes.as_slice());
        append_point(transcript, "T_2", T_2_bytes.as_slice());
        let x = challenge_scalar(transcript, "x");

        let t_blinding_poly = Poly2 { t0: scalar_zero(), t1: t_1_blinding, t2: t_2_blinding };

        let t_x = t_poly.eval(&x);
        let t_x_blinding = t_blinding_poly.eval(&x);
        let sx = scalar_mul(&s_blinding, &x);
        let e_blinding = scalar_add(&a_blinding, &sx);

        append_scalar(transcript, "t_x", &t_x);
        append_scalar(transcript, "t_x_blinding", &t_x_blinding);
        append_scalar(transcript, "e_blinding", &e_blinding);

        // Challenge scalar combining the statements for the inner-product
        // argument.
        let w = challenge_scalar(transcript, "w");
        let Q = point_scalar_mul(&w, &pc_gens.B);

        let mut G_factors: Vec<Scalar> = Vec::new();
        let mut i: usize = 0;
        while i < n
            invariant
                G_factors@.len() == i,
                0 <= i <= n,
                all_wf(G_factors@),
            decreases n - i,
        {
            G_factors.push(scalar_one());
            i += 1;
        }
        let y_inv = scalar_invert(&y);
        let H_factors = exp_vec(&y_inv, n);

        let l_vec = l_poly.eval(&x);
        let r_vec = r_poly.eval(&x);

        let ipp_proof = InnerProductProof::create(
            transcript,
            &Q,
            &G_factors,
            &H_factors,
            g,
            h,
            l_vec,
            r_vec,
        );

        Ok(
            KHotProof {
                A: A_bytes,
                S: S_bytes,
                T_1: T_1_bytes,
                T_2: T_2_bytes,
                t_x,
                t_x_blinding,
                e_blinding,
                ipp_proof,
            },
        )
    }

    /// Verify a k-hot proof against a vector length `n`.
    ///
    /// Fails with `InvalidGeneratorsLength` exactly when `n` exceeds the
    /// generator capacity, leaving the transcript untouched; every other
    /// rejection is `VerificationError`.  In particular any of A, S, T₁,
    /// T₂ carrying the identity encoding is rejected, and success
    /// requires `n` to match the round count of the inner-product proof.
    pub fn verify(
        &self,
        bp_gens: &BulletproofGens,
        pc_gens: &PedersenGens,
        transcript: &mut Transcript,
        n: usize,
    ) -> (r: Result<(), ProofError>)
        requires
            self.wf(),
            bp_gens.wf(),
        ensures
            n > bp_gens.gens_capacity ==> (r is Err && r->Err_0
                == ProofError::InvalidGeneratorsLength && *final(transcript) == *old(transcript)),
            n <= bp_gens.gens_capacity ==> (r is Err ==> r->Err_0 == ProofError::VerificationError),
            n <= bp_gens.gens_capacity && (all_zero(self.A@) || all_zero(self.S@) || all_zero(
                self.T_1@,
            ) || all_zero(self.T_2@)) ==> r is Err,
            r is Ok ==> ({
                &&& n == pow2(self.ipp_proof.L_vec@.len() as nat)
                &&& rounds_valid(self.ipp_proof.L_vec@, self.ipp_proof.R_vec@)
                &&& !all_zero(self.A@)
                &&& !all_zero(self.S@)
                &&& !all_zero(self.T_1@)
                &&& !all_zero(self.T_2@)
            }),
    {
        // The public Hamming weight: this build proves a single-hot
        // vector.
        let k = scalar_one();

        if bp_gens.gens_capacity < n {
            return Err(ProofError::InvalidGeneratorsLength);
        }
        domain_sep(transcript, n as u64);

        match validate_and_append_point(transcript, "A", self.A.as_slice()) {
            Ok(()) => (),
            Err(_) => {
                return Err(ProofError::VerificationError);
            },
        }
        match validate_and_append_point(transcript, "S", self.S.as_slice()) {
            Ok(()) => (),
            Err(_) => {
                return Err(ProofError::VerificationError);
            },
        }

        let y = challenge_scalar(transcript, "y");
        let z = challenge_scalar(transcript, "z");
        let zz = scalar_mul(&z, &z);
        let minus_z = scalar_neg(&z);

        match validate_and_append_point(transcript, "T_1", self.T_1.as_slice()) {
            Ok(()) => (),
            Err(_) => {
                return Err(ProofError::VerificationError);
            },
        }
        match validate_and_append_point(transcript, "T_2", self.T_2.as_slice()) {
            Ok(()) => (),
            Err(_) => {
                return Err(ProofError::VerificationError);
            },
        }

        let x = challenge_scalar(transcript, "x");

        append_scalar(transcript, "t_x", &self.t_x);
        append_scalar(transcript, "t_x_blinding", &self.t_x_blinding);
        append_scalar(transcript, "e_blinding", &self.e_blinding);

        let w = challenge_scalar(transcript, "w");

        // Verifier-private batching scalar; never absorbed.
        let mut rng = new_rng();
        let c = scalar_random(&mut rng);

        let vs = self.ipp_proof.verification_scalars(n, transcript);
        let (x_sq, x_inv_sq, s) = match vs {
            Ok(t) => t,
            Err(_) => {
                return Err(ProofError::VerificationError);
            },
        };
        let a = self.ipp_proof.a;
        let b = self.ipp_proof.b;

        // g_i = −z − a·s_i
        let mut g_s: Vec<Scalar> = Vec::new();
        let mut i: usize = 0;
        while i < n
            invariant
                s@.len() == n,
                all_wf(s@),
                scalar_wf(a),
                scalar_wf(minus_z),
                g_s@.len() == i,
                0 <= i <= n,
                all_wf(g_s@),
            decreases n - i,
        {
            let t = scalar_mul(&a, &s[i]);
            g_s.push(scalar_sub(&minus_z, &t));
            i += 1;
        }

        // h_i = z + y^{−i}·(z²·1 − b·s_{n−1−i}); the single-party z-block
        // vector collapses to all ones.
        let y_inv = scalar_invert(&y);
        let y_inv_pows = exp_vec(&y_inv, n);
        let mut h_s: Vec<Scalar> = Vec::new();
        let mut i: usize = 0;
        while i < n
            invariant
                s@.len() == n,
                y_inv_pows@.len() == n,
                all_wf(s@),
                all_wf(y_inv_pows@),
                scalar_wf(b),
                scalar_wf(z),
                scalar_wf(zz),
                h_s@.len() == i,
                0 <= i <= n,
                all_wf(h_s@),
            decreases n - i,
        {
            let s_inv_i = s[n - 1 - i];
            let bs = scalar_mul(&b, &s_inv_i);
            let inner = scalar_sub(&zz, &bs);
            let scaled = scalar_mul(&y_inv_pows[i], &inner);
            h_s.push(scalar_add(&z, &scaled));
            i += 1;
        }

        let d = delta(n, &y, &z);
        let ab = scalar_mul(&a, &b);
        let t_sub = scalar_sub(&self.t_x, &ab);
        let w_term = scalar_mul(&w, &t_sub);
        let kzz = scalar_mul(&k, &zz);
        let d_kzz = scalar_add(&d, &kzz);
        let c_inner = scalar_sub(&d_kzz, &self.t_x);
        let c_term = scalar_mul(&c, &c_inner);
        let basepoint_scalar = scalar_add(&w_term, &c_term);

        let neg_e = scalar_neg(&self.e_blinding);
        let ctb = scalar_mul(&c, &self.t_x_blinding);
        let blinding_scalar = scalar_sub(&neg_e, &ctb);

        let A_pt = match point_decompress(self.A.as_slice()) {
            Some(p) => p,
            None => {
                return Err(ProofError::VerificationError);
            },
        };
        let S_pt = match point_decompress(self.S.as_slice()) {
            Some(p) => p,
            None => {
                return Err(ProofError::VerificationError);
            },
        };
        let T_1_pt = match point_decompress(self.T_1.as_slice()) {
            Some(p) => p,
            None => {
                return Err(ProofError::VerificationError);
            },
        };
        let T_2_pt = match point_decompress(self.T_2.as_slice()) {
            Some(p) => p,
            None => {
                return Err(ProofError::VerificationError);
            },
        };

        let rounds = self.ipp_proof.L_vec.len();
        let mut L_pts: Vec<RistrettoPoint> = Vec::new();
        let mut R_pts: Vec<RistrettoPoint> = Vec::new();
        let mut j: usize = 0;
        while j < rounds
            invariant
                self.wf(),
                n <= bp_gens.gens_capacity,
                rounds == self.ipp_proof.L_vec@.len(),
                L_pts@.len() == j,
                R_pts@.len() == j,
                0 <= j <= rounds,
            decreases rounds - j,
        {
            let lp = match point_decompress(self.ipp_proof.L_vec[j].as_slice()) {
                Some(p) => p,
                None => {
                    return Err(ProofError::VerificationError);
                },
            };
            let rp = match point_decompress(self.ipp_proof.R_vec[j].as_slice()) {
                Some(p) => p,
                None => {
                    return Err(ProofError::VerificationError);
                },
            };
            L_pts.push(lp);
            R_pts.push(rp);
            j += 1;
        }

        let g_pts = bp_gens.g_slice(n);
        let h_pts = bp_gens.h_slice(n);

        // One multiscalar multiplication bundling every constraint; the
        // proof is accepted exactly when it vanishes.
        let xx = scalar_mul(&x, &x);
        let cx = scalar_mul(&c, &x);
        let cxx = scalar_mul(&c, &xx);
        let mut sc: Vec<Scalar> = Vec::new();
        sc.push(scalar_one());
        sc.push(x);
        sc.push(cx);
        sc.push(cxx);
        push_all_scalars(&mut sc, &x_sq);
        push_all_scalars(&mut sc, &x_inv_sq);
        sc.push(blinding_scalar);
        sc.push(basepoint_scalar);
        push_all_scalars(&mut sc, &g_s);
        push_all_scalars(&mut sc, &h_s);

        let mut pts: Vec<RistrettoPoint> = Vec::new();
        pts.push(A_pt);
        pts.push(S_pt);
        pts.push(T_1_pt);
        pts.push(T_2_pt);
        push_all_points(&mut pts, &L_pts);
        push_all_points(&mut pts, &R_pts);
        pts.push(pc_gens.B_blinding);
        pts.push(pc_gens.B);
        push_all_points(&mut pts, &g_pts);
        push_all_points(&mut pts, &h_pts);

        let mega_check = multiscalar_mul(&sc, &pts);

        if point_is_identity(&mega_check) {
            Ok(())
        } else {
            Err(ProofError::VerificationError)
        }
    }

    /// Serialize the proof: A, S, T₁, T₂, t_x, t̃_x, ẽ, then the
    /// inner-product proof, 32 bytes per element.
    pub fn to_bytes(&self) -> (r: Vec<u8>)
        requires
            self.wf(),
        ensures
            r@ == self.spec_bytes(),
            r@.len() == 224 + (2 * self.ipp_proof.L_vec@.len() + 2) * 32,
    {
        let mut buf: Vec<u8> = Vec::new();
        push_all_bytes(&mut buf, self.A.as_slice());
        push_all_bytes(&mut buf, self.S.as_slice());
        push_all_bytes(&mut buf, self.T_1.as_slice());
        push_all_bytes(&mut buf, self.T_2.as_slice());
        let tx = scalar_to_bytes(&self.t_x);
        push_all_bytes(&mut buf, tx.as_slice());
        let txb = scalar_to_bytes(&self.t_x_blinding);
        push_all_bytes(&mut buf, txb.as_slice());
        let eb = scalar_to_bytes(&self.e_blinding);
        push_all_bytes(&mut buf, eb.as_slice());
        let tail = self.ipp_proof.to_bytes();
        push_all_bytes(&mut buf, tail.as_slice());
        proof {
            assert(buf@ =~= self.spec_bytes());
        }
        buf
    }

    /// Parse a serialized proof; accepts exactly the byte strings of
    /// `parse_ok`, and the parsed proof re-serializes to the same bytes.
    pub fn from_bytes(slice: &[u8]) -> (r: Result<KHotProof, ProofError>)
        ensures
            r is Ok <==> Self::parse_ok(slice@),
            r is Err ==> r->Err_0 == ProofError::FormatError,
            r is Ok ==> ({
                &&& r->Ok_0.wf()
                &&& r->Ok_0.spec_bytes() == slice@
            }),
    {
        let b = slice.len();
        if b % 32 != 0 {
            return Err(ProofError::FormatError);
        }
        if b < 224 {
            return Err(ProofError::FormatError);
        }

        let a_bytes = read32(slice, 0);
        let s_bytes = read32(slice, 32);
        let t1_bytes = read32(slice, 64);
        let t2_bytes = read32(slice, 96);

        let tx_bytes = read32(slice, 128);
        let t_x = match scalar_from_canonical_bytes(tx_bytes.as_slice()) {
            Some(s) => s,
            None => {
                return Err(ProofError::FormatError);
            },
        };
        let txb_bytes = read32(slice, 160);
        let t_x_blinding = match scalar_from_canonical_bytes(txb_bytes.as_slice()) {
            Some(s) => s,
            None => {
                return Err(ProofError::FormatError);
            },
        };
        let eb_bytes = read32(slice, 192);
        let e_blinding = match scalar_from_canonical_bytes(eb_bytes.as_slice()) {
            Some(s) => s,
            None => {
                return Err(ProofError::FormatError);
            },
        };

        let tail = vstd::slice::slice_subrange(slice, 224, b);
        let ipp_proof = match InnerProductProof::from_bytes(tail) {
            Ok(p) => p,
            Err(_) => {
                return Err(ProofError::FormatError);
            },
        };

        let r = KHotProof {
            A: a_bytes,
            S: s_bytes,
            T_1: t1_bytes,
            T_2: t2_bytes,
            t_x,
            t_x_blinding,
            e_blinding,
            ipp_proof,
        };
        proof {
            assert(r.spec_bytes() =~= slice@);
        }
        Ok(r)
    }
}

/// The per-index accumulation Σ_{i<n} ((z − z²)·yⁱ − z³), in the field:
/// the independent way of computing δ.
pub open spec fn delta_terms(n: nat, y: int, z: int) -> int
    decreases n,
{
    if n == 0 {
        0
    } else {
        f_add(
            delta_terms((n - 1) as nat, y, z),
            f_sub(
                f_mul(f_sub(z, f_mul(z, z)), f_pow(y, (n - 1) as nat)),
                f_mul(f_mul(z, z), z),
            ),
        )
    }
}

/// The plain-integer sum 1 + y + … + y^(n−1), without reduction.
pub open spec fn sum_pows_int(y: int, n: nat) -> int
    decreases n,
{
    if n == 0 {
        0
    } else {
        sum_pows_int(y, (n - 1) as nat) + vstd::arithmetic::power::pow(y, (n - 1) as nat)
    }
}

/// δ over the plain integers, before reduction.
pub open spec fn delta_int(n: nat, y: int, z: int) -> int {
    (z - z * z) * sum_pows_int(y, n) - z * z * z * (n as int)
}

proof fn lemma_mod_small_int(x: int, m: int)
    requires
        0 <= x < m,
    ensures
        x % m == x,
{
    vstd::arithmetic::div_mod::lemma_small_mod(x as nat, m as nat);
}

proof fn lemma_f_pow_int(y: int, e: nat)
    requires
        0 <= y < group_order(),
    ensures
        f_pow(y, e) == vstd::arithmetic::power::pow(y, e) % group_order(),
    decreases e,
{
    reveal(vstd::arithmetic::power::pow);
    let m = group_order();
    if e == 0 {
        lemma_mod_small_int(1, m);
    } else {
        let p = vstd::arithmetic::power::pow(y, (e - 1) as nat);
        lemma_f_pow_int(y, (e - 1) as nat);
        vstd::arithmetic::div_mod::lemma_mul_mod_noop_left(p, y, m);
        assert(vstd::arithmetic::power::pow(y, e) == p * y) by {
            assert(vstd::arithmetic::power::pow(y, e) == y * p);
        }
    }
}

proof fn lemma_f_sum_int(y: int, n: nat)
    requires
        0 <= y < group_order(),
    ensures
        f_sum_of_powers(y, n) == sum_pows_int(y, n) % group_order(),
    decreases n,
{
    let m = group_order();
    if n == 0 {
        lemma_mod_small_int(0, m);
    } else {
        lemma_f_sum_int(y, (n - 1) as nat);
        lemma_f_pow_int(y, (n - 1) as nat);
        vstd::arithmetic::div_mod::lemma_add_mod_noop(
            sum_pows_int(y, (n - 1) as nat),
            vstd::arithmetic::power::pow(y, (n - 1) as nat),
            m,
        );
    }
}

proof fn lemma_delta_spec_int(n: nat, y: int, z: int)
    requires
        0 <= y < group_order(),
        0 <= z < group_order(),
    ensures
        delta_spec(n, y, z) == delta_int(n, y, z) % group_order(),
{
    let m = group_order();
    let s_int = sum_pows_int(y, n);
    lemma_f_sum_int(y, n);
    // f_sub(z, f_mul(z, z)) == (z − z²) % m
    lemma_mod_small_int(z, m);
    vstd::arithmetic::div_mod::lemma_sub_mod_noop_right(z, z * z, m);
    assert(f_sub(z, f_mul(z, z)) == (z - z * z) % m);
    // the first product reduces to ((z − z²)·Σ) % m
    vstd::arithmetic::div_mod::lemma_mul_mod_noop(z - z * z, s_int, m);
    assert(f_mul(f_sub(z, f_mul(z, z)), f_sum_of_powers(y, n)) == ((z - z * z) * s_int) % m);
    // the cube and its multiple reduce likewise
    vstd::arithmetic::div_mod::lemma_mul_mod_noop_left(z * z, z, m);
    assert(f_mul(f_mul(z, z), z) == (z * z * z) % m);
    vstd::arithmetic::div_mod::lemma_mul_mod_noop_left(z * z * z, n as int, m);
    assert(f_mul(f_mul(f_mul(z, z), z), n as int) == (z * z * z * (n as int)) % m);
    vstd::arithmetic::div_mod::lemma_sub_mod_noop(
        (z - z * z) * s_int,
        z * z * z * (n as int),
        m,
    );
}

proof fn lemma_delta_terms_int(n: nat, y: int, z: int)
    requires
        0 <= y < group_order(),
        0 <= z < group_order(),
    ensures
        delta_terms(n, y, z) == delta_int(n, y, z) % group_order(),
    decreases n,
{
    let m = group_order();
    if n == 0 {
        lemma_mod_small_int(0, m);
    } else {
        let n1 = (n - 1) as nat;
        let p = vstd::arithmetic::power::pow(y, n1);
        lemma_delta_terms_int(n1, y, z);
        lemma_f_pow_int(y, n1);
        lemma_mod_small_int(z, m);
        vstd::arithmetic::div_mod::lemma_sub_mod_noop_right(z, z * z, m);
        assert(f_sub(z, f_mul(z, z)) == (z - z * z) % m);
        vstd::arithmetic::div_mod::lemma_mul_mod_noop(z - z * z, p, m);
        assert(f_mul(f_sub(z, f_mul(z, z)), f_pow(y, n1)) == ((z - z * z) * p) % m);
        vstd::arithmetic::div_mod::lemma_mul_mod_noop_left(z * z, z, m);
        assert(f_mul(f_mul(z, z), z) == (z * z * z) % m);
        vstd::arithmetic::div_mod::lemma_sub_mod_noop((z - z * z) * p, z * z * z, m);
        vstd::arithmetic::div_mod::lemma_add_mod_noop(
            delta_int(n1, y, z),
            (z - z * z) * p - z * z * z,
            m,
        );
        assert(delta_int(n1, y, z) + ((z - z * z) * p - z * z * z) == delta_int(n, y, z)) by {
            assert(sum_pows_int(y, n) == sum_pows_int(y, n1) + p);
            assert((z - z * z) * (sum_pows_int(y, n1) + p) == (z - z * z) * sum_pows_int(y, n1) + (
            z - z * z) * p) by (nonlinear_arith);
            assert(z * z * z * (n as int) == z * z * z * (n1 as int) + z * z * z) by (
            nonlinear_arith)
                requires
                    n as int == n1 as int + 1,
            ;
        }
    }
}

/// The δ law: δ(n, y, z) computed in closed form equals the independent
/// accumulation Σ_{i=0}^{n−1} ((z − z²)·yⁱ − z³), for every y, z in the
/// field and every n.
pub proof fn lemma_delta_accumulation(n: nat, y: int, z: int)
    requires
        0 <= y < group_order(),
        0 <= z < group_order(),
    ensures
        delta_spec(n, y, z) == delta_terms(n, y, z),
{
    lemma_delta_spec_int(n, y, z);
    lemma_delta_terms_int(n, y, z);
}

/// Serialization round trip: a well-formed proof's byte encoding always
/// parses back (`from_bytes` accepts it and, by its contract, returns a
/// proof with the same encoding), and its length is
/// 7·32 + (2·rounds + 2)·32.
pub proof fn lemma_serialization_round_trip(p: KHotProof)
    requires
        p.wf(),
    ensures
        KHotProof::parse_ok(p.spec_bytes()),
        p.spec_bytes().len() == 224 + (2 * p.ipp_proof.L_vec@.len() + 2) * 32,
{
    let s = p.spec_bytes();
    crate::inner_product::lemma_ipp_bytes_parse(p.ipp_proof);
    assert(s.len() == 224 + p.ipp_proof.spec_bytes().len());
    assert(s.subrange(128, 160) =~= scalar_bytes(p.t_x));
    assert(s.subrange(160, 192) =~= scalar_bytes(p.t_x_blinding));
    assert(s.subrange(192, 224) =~= scalar_bytes(p.e_blinding));
    assert(s.subrange(224, s.len() as int) =~= p.ipp_proof.spec_bytes());
    assert(s.len() % 32 == 0) by (nonlinear_arith)
        requires
            s.len() == 224 + (2 * p.ipp_proof.L_vec@.len() + 2) * 32,
    ;
}

} // verus!
