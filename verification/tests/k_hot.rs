use curve25519_dalek::scalar::Scalar;
use k_hot::generators::{BulletproofGens, PedersenGens};
use k_hot::k_hot_proof::{delta, KHotProof};

fn proof_bytes_for(n: usize, bp_gens: &BulletproofGens, pc_gens: &PedersenGens) -> Vec<u8> {
    let mut secret_vec = vec![0u8; n];
    secret_vec[n - 1] = 1;
    let mut transcript = merlin::Transcript::new(b"KHotProofTest");
    let proof = KHotProof::prove(bp_gens, pc_gens, &mut transcript, secret_vec).unwrap();
    proof.to_bytes()
}

fn create_and_verify_helper(n: usize) {
    let pc_gens = PedersenGens::default();
    let bp_gens = BulletproofGens::new(n, 1);

    let proof_bytes = proof_bytes_for(n, &bp_gens, &pc_gens);

    let proof = KHotProof::from_bytes(&proof_bytes).unwrap();
    let mut transcript = merlin::Transcript::new(b"KHotProofTest");
    assert!(proof.verify(&bp_gens, &pc_gens, &mut transcript, n).is_ok());
}

#[test]
fn test_delta() {
    let mut rng = rand::thread_rng();
    let y = Scalar::random(&mut rng);
    let z = Scalar::random(&mut rng);
    // Choose n = 256 to ensure we overflow the group order during
    // the computation, to check that that's done correctly
    let n = 256;
    let z2 = z * z;
    let z3 = z2 * z;
    let mut power_g = Scalar::zero();
    let mut exp_y = Scalar::one();
    for _ in 0..n {
        power_g += (z - z2) * exp_y - z3;
        exp_y = exp_y * y;
    }
    assert_eq!(power_g, delta(n, &y, &z));
}

#[test]
fn test_n_1() {
    create_and_verify_helper(1);
}

#[test]
fn test_n_2() {
    create_and_verify_helper(2);
}

#[test]
fn test_n_4() {
    create_and_verify_helper(4);
}

#[test]
fn test_n_32() {
    create_and_verify_helper(32);
}

#[test]
fn test_n_64() {
    create_and_verify_helper(64);
}

#[test]
fn test_n_1024() {
    create_and_verify_helper(1024);
}

#[test]
fn test_n_524288() {
    create_and_verify_helper(1024);
}
