use k_hot::errors::ProofError;
use k_hot::generators::{BulletproofGens, PedersenGens};
use k_hot::k_hot_proof::KHotProof;

fn proof_bytes_for(n: usize, bp_gens: &BulletproofGens, pc_gens: &PedersenGens) -> Vec<u8> {
    let mut secret_vec = vec![0u8; n];
    secret_vec[n - 1] = 1;
    let mut transcript = merlin::Transcript::new(b"KHotProofTest");
    let proof = KHotProof::prove(bp_gens, pc_gens, &mut transcript, secret_vec).unwrap();
    proof.to_bytes()
}

fn verify_bytes(bytes: &[u8], n: usize, bp_gens: &BulletproofGens, pc_gens: &PedersenGens) -> bool {
    match KHotProof::from_bytes(bytes) {
        Ok(proof) => {
            let mut transcript = merlin::Transcript::new(b"KHotProofTest");
            proof.verify(bp_gens, pc_gens, &mut transcript, n).is_ok()
        },
        Err(_) => false,
    }
}

#[test]
fn test_serialized_size_n_1() {
    let pc_gens = PedersenGens::default();
    let bp_gens = BulletproofGens::new(1, 1);
    let bytes = proof_bytes_for(1, &bp_gens, &pc_gens);
    assert_eq!(bytes.len(), 7 * 32 + 2 * 32);
}

#[test]
fn test_serialized_size_n_2() {
    let pc_gens = PedersenGens::default();
    let bp_gens = BulletproofGens::new(2, 1);
    let bytes = proof_bytes_for(2, &bp_gens, &pc_gens);
    assert_eq!(bytes.len(), 7 * 32 + 4 * 32);
}

#[test]
fn test_serialized_size_n_1024() {
    let pc_gens = PedersenGens::default();
    let bp_gens = BulletproofGens::new(1024, 1);
    let bytes = proof_bytes_for(1024, &bp_gens, &pc_gens);
    assert_eq!(bytes.len(), 7 * 32 + (2 * 10 + 2) * 32);
}

#[test]
fn test_serialization_round_trip() {
    let pc_gens = PedersenGens::default();
    let bp_gens = BulletproofGens::new(4, 1);
    let bytes = proof_bytes_for(4, &bp_gens, &pc_gens);
    assert_eq!(bytes.len(), 7 * 32 + (2 * 2 + 2) * 32);
    let parsed = KHotProof::from_bytes(&bytes).unwrap();
    assert_eq!(parsed.to_bytes(), bytes);
}

#[test]
fn test_reverify_fresh_transcript() {
    let pc_gens = PedersenGens::default();
    let bp_gens = BulletproofGens::new(32, 1);
    let bytes = proof_bytes_for(32, &bp_gens, &pc_gens);
    assert!(verify_bytes(&bytes, 32, &bp_gens, &pc_gens));
    // A second run on a fresh transcript with the same bytes accepts too.
    assert!(verify_bytes(&bytes, 32, &bp_gens, &pc_gens));
}

#[test]
fn test_wrong_label_rejected() {
    let pc_gens = PedersenGens::default();
    let bp_gens = BulletproofGens::new(32, 1);
    let bytes = proof_bytes_for(32, &bp_gens, &pc_gens);
    let proof = KHotProof::from_bytes(&bytes).unwrap();
    let mut transcript = merlin::Transcript::new(b"WrongLabel");
    assert!(proof.verify(&bp_gens, &pc_gens, &mut transcript, 32).is_err());
}

#[test]
fn test_tamper_any_byte_rejected() {
    let pc_gens = PedersenGens::default();
    let bp_gens = BulletproofGens::new(1, 1);
    let bytes = proof_bytes_for(1, &bp_gens, &pc_gens);
    assert!(verify_bytes(&bytes, 1, &bp_gens, &pc_gens));
    for i in 0..bytes.len() {
        let mut tampered = bytes.clone();
        tampered[i] ^= 1;
        assert!(
            !verify_bytes(&tampered, 1, &bp_gens, &pc_gens),
            "tampering byte {} was not rejected",
            i
        );
    }
}

#[test]
fn test_flip_first_byte_rejected() {
    let pc_gens = PedersenGens::default();
    let bp_gens = BulletproofGens::new(4, 1);
    let bytes = proof_bytes_for(4, &bp_gens, &pc_gens);
    assert!(verify_bytes(&bytes, 4, &bp_gens, &pc_gens));
    let mut tampered = bytes.clone();
    tampered[0] ^= 1;
    assert!(!verify_bytes(&tampered, 4, &bp_gens, &pc_gens));
}

#[test]
fn test_identity_points_rejected() {
    let pc_gens = PedersenGens::default();
    let bp_gens = BulletproofGens::new(2, 1);
    let bytes = proof_bytes_for(2, &bp_gens, &pc_gens);
    // Zero out A, S, T_1, T_2 in turn: the all-zero encoding is the
    // compressed identity, and must be rejected before the final check.
    for block in 0..4 {
        let mut doctored = bytes.clone();
        for b in doctored.iter_mut().skip(block * 32).take(32) {
            *b = 0;
        }
        let proof = KHotProof::from_bytes(&doctored).unwrap();
        let mut transcript = merlin::Transcript::new(b"KHotProofTest");
        let res = proof.verify(&bp_gens, &pc_gens, &mut transcript, 2);
        assert_eq!(res, Err(ProofError::VerificationError));
    }
}

#[test]
fn test_generator_shortage_prove() {
    let pc_gens = PedersenGens::default();
    let bp_gens = BulletproofGens::new(1, 1);
    let mut transcript = merlin::Transcript::new(b"KHotProofTest");
    let res = KHotProof::prove(&bp_gens, &pc_gens, &mut transcript, vec![0, 1]);
    assert!(matches!(res, Err(ProofError::InvalidGeneratorsLength)));
}

#[test]
fn test_generator_shortage_verify() {
    let pc_gens = PedersenGens::default();
    let bp_gens = BulletproofGens::new(1, 1);
    let bytes = proof_bytes_for(1, &bp_gens, &pc_gens);
    let proof = KHotProof::from_bytes(&bytes).unwrap();
    let mut transcript = merlin::Transcript::new(b"KHotProofTest");
    let res = proof.verify(&bp_gens, &pc_gens, &mut transcript, 2);
    assert_eq!(res, Err(ProofError::InvalidGeneratorsLength));
}

#[test]
fn test_format_error_bad_length() {
    assert!(matches!(
        KHotProof::from_bytes(&vec![0u8; 100]),
        Err(ProofError::FormatError)
    ));
    assert!(matches!(
        KHotProof::from_bytes(&vec![0u8; 6 * 32]),
        Err(ProofError::FormatError)
    ));
    // Seven blocks leave no room for the inner-product tail.
    assert!(matches!(
        KHotProof::from_bytes(&vec![0u8; 7 * 32]),
        Err(ProofError::FormatError)
    ));
}

#[test]
fn test_format_error_noncanonical_scalar() {
    let pc_gens = PedersenGens::default();
    let bp_gens = BulletproofGens::new(1, 1);
    let mut bytes = proof_bytes_for(1, &bp_gens, &pc_gens);
    // Overwrite t_x with an encoding far above the group order.
    for b in bytes.iter_mut().skip(128).take(32) {
        *b = 0xff;
    }
    assert!(matches!(
        KHotProof::from_bytes(&bytes),
        Err(ProofError::FormatError)
    ));
}

#[test]
fn test_completeness_100_trials() {
    let pc_gens = PedersenGens::default();
    let bp_gens = BulletproofGens::new(1, 1);
    let mut accepted = 0;
    for _ in 0..100 {
        let bytes = proof_bytes_for(1, &bp_gens, &pc_gens);
        if verify_bytes(&bytes, 1, &bp_gens, &pc_gens) {
            accepted += 1;
        }
    }
    assert_eq!(accepted, 100);
}
