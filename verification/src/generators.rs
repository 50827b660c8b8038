//! Generator tables shared between prover and verifier.
//!
//! `PedersenGens` is the pair (B, B_blinding); `BulletproofGens` supplies
//! two length-n sequences of independent basepoints, derived
//! deterministically from fixed labels so that both parties see the same
//! tables.  This table serves a single party (m = 1).

use vstd::prelude::*;

use crate::field::scalar_wf;
use crate::group::{multiscalar_mul, point_from_uniform_bytes, ristretto_basepoint};
use crate::transcript::{transcript_challenge_bytes64, transcript_new};
use curve25519_dalek::ristretto::RistrettoPoint;
use curve25519_dalek::scalar::Scalar;

verus! {

/// The pair of basepoints of a Pedersen commitment.
pub struct PedersenGens {
    pub B: RistrettoPoint,
    pub B_blinding: RistrettoPoint,
}

impl PedersenGens {
    /// The Ristretto basepoint together with a second basepoint derived
    /// deterministically from a fixed label.
    pub fn default() -> PedersenGens {
        let B = ristretto_basepoint();
        let mut t = transcript_new("k-hot-pedersen-gens");
        let wide = transcript_challenge_bytes64(&mut t, "B_blinding");
        let B_blinding = point_from_uniform_bytes(wide.as_slice());
        PedersenGens { B, B_blinding }
    }

    /// The commitment `value·B + blinding·B_blinding`.
    pub(crate) fn commit(&self, value: &Scalar, blinding: &Scalar) -> RistrettoPoint
        requires
            scalar_wf(*value),
            scalar_wf(*blinding),
    {
        let scalars: Vec<Scalar> = vec![*value, *blinding];
        let points: Vec<RistrettoPoint> = vec![self.B, self.B_blinding];
        multiscalar_mul(&scalars, &points)
    }
}

/// Two deterministic length-`gens_capacity` tables of basepoints.
pub struct BulletproofGens {
    /// The number of generators available in each table.
    pub gens_capacity: usize,
    /// Kept for interface parity with multi-party aggregation; this
    /// library always serves a single party.
    pub party_capacity: usize,
    pub g_vec: Vec<RistrettoPoint>,
    pub h_vec: Vec<RistrettoPoint>,
}

impl BulletproofGens {
    pub open spec fn wf(&self) -> bool {
        self.g_vec@.len() == self.gens_capacity && self.h_vec@.len() == self.gens_capacity
    }

    /// Build both tables, each point squeezed from a labelled sponge.
    pub fn new(gens_capacity: usize, party_capacity: usize) -> (r: BulletproofGens)
        ensures
            r.wf(),
            r.gens_capacity == gens_capacity,
            r.party_capacity == party_capacity,
    {
        let mut g_vec: Vec<RistrettoPoint> = Vec::new();
        let mut h_vec: Vec<RistrettoPoint> = Vec::new();
        let mut tg = transcript_new("k-hot-generators-G");
        let mut th = transcript_new("k-hot-generators-H");
        let mut i: usize = 0;
        while i < gens_capacity
            invariant
                g_vec@.len() == i,
                h_vec@.len() == i,
                0 <= i <= gens_capacity,
            decreases gens_capacity - i,
        {
            let gw = transcript_challenge_bytes64(&mut tg, "gen");
            g_vec.push(point_from_uniform_bytes(gw.as_slice()));
            let hw = transcript_challenge_bytes64(&mut th, "gen");
            h_vec.push(point_from_uniform_bytes(hw.as_slice()));
            i += 1;
        }
        BulletproofGens { gens_capacity, party_capacity, g_vec, h_vec }
    }

    /// The first `n` G-generators.
    pub fn g_slice(&self, n: usize) -> (r: Vec<RistrettoPoint>)
        requires
            self.wf(),
            n <= self.gens_capacity,
        ensures
            r@.len() == n,
    {
        let mut r: Vec<RistrettoPoint> = Vec::new();
        let mut i: usize = 0;
        while i < n
            invariant
                self.wf(),
                n <= self.gens_capacity,
                r@.len() == i,
                0 <= i <= n,
            decreases n - i,
        {
            r.push(self.g_vec[i]);
            i += 1;
        }
        r
    }

    /// The first `n` H-generators.
    pub fn h_slice(&self, n: usize) -> (r: Vec<RistrettoPoint>)
        requires
            self.wf(),
            n <= self.gens_capacity,
        ensures
            r@.len() == n,
    {
        let mut r: Vec<RistrettoPoint> = Vec::new();
        let mut i: usize = 0;
        while i < n
            invariant
                self.wf(),
                n <= self.gens_capacity,
                r@.len() == i,
                0 <= i <= n,
            decreases n - i,
        {
            r.push(self.h_vec[i]);
            i += 1;
        }
        r
    }
}

} // verus!
