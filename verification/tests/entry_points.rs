use zkp_prover::{generate_zkp, verify_zkp, ProveError, Randomness};

fn nonce() -> Vec<u8> {
    (100u8..116).collect()
}

fn randomness() -> Randomness {
    Randomness::new(nonce())
}

/// The header, the nonce, the seven words of the circuit `x * x = y`, and
/// the public input as one word.
fn expected_proof(nonce: &[u8], public: u8) -> Vec<u8> {
    let mut proof = b"ZKPROOF__".to_vec();
    proof.extend_from_slice(nonce);
    for word in [1u64, 1, 1, 1, 1, 1, 0, public as u64] {
        proof.extend_from_slice(&word.to_le_bytes());
    }
    proof
}

#[test]
fn square_of_five_is_proved_and_verified_at_the_entry_points() {
    let proof = generate_zkp(&[5], &[25], randomness()).unwrap();
    assert!(verify_zkp(&proof, &[25]));
    assert!(!verify_zkp(&proof, &[26]));
}

#[test]
fn generated_proof_is_header_nonce_circuit_and_public_input() {
    let proof = generate_zkp(&[5], &[25], randomness()).unwrap();
    assert_eq!(proof, expected_proof(&nonce(), 25));
    assert_eq!(proof.len(), 9 + 16 + 8 * 8);
    assert_eq!(&proof[..9], b"ZKPROOF__");
}

#[test]
fn private_input_that_is_no_root_gets_no_proof() {
    assert_eq!(
        generate_zkp(&[6], &[25], randomness()),
        Err(ProveError::WitnessDoesNotSatisfyCircuit)
    );
    assert_eq!(
        generate_zkp(&[5], &[26], randomness()),
        Err(ProveError::WitnessDoesNotSatisfyCircuit)
    );
}

#[test]
fn inputs_of_another_length_get_no_proof() {
    assert_eq!(
        generate_zkp(b"", &[25], randomness()),
        Err(ProveError::WitnessDoesNotSatisfyCircuit)
    );
    assert_eq!(
        generate_zkp(&[5, 5], &[25], randomness()),
        Err(ProveError::WitnessDoesNotSatisfyCircuit)
    );
    assert_eq!(
        generate_zkp(&[5], &[25, 0], randomness()),
        Err(ProveError::WitnessDoesNotSatisfyCircuit)
    );
    assert_eq!(
        generate_zkp(b"secret", b"challenge", randomness()),
        Err(ProveError::WitnessDoesNotSatisfyCircuit)
    );
}

#[test]
fn too_little_randomness_gets_no_proof_at_the_entry_point() {
    assert_eq!(
        generate_zkp(&[5], &[25], Randomness::new(vec![1; 15])),
        Err(ProveError::InsufficientRandomness)
    );
    assert_eq!(
        generate_zkp(&[6], &[25], Randomness::new(vec![])),
        Err(ProveError::WitnessDoesNotSatisfyCircuit)
    );
}

#[test]
fn fresh_randomness_gives_another_proof_and_both_verify() {
    let one = generate_zkp(&[5], &[25], randomness()).unwrap();
    let other = generate_zkp(&[5], &[25], Randomness::new(vec![7; 16])).unwrap();
    assert_ne!(one, other);
    assert!(verify_zkp(&one, &[25]));
    assert!(verify_zkp(&other, &[25]));
    assert_eq!(other, expected_proof(&[7; 16], 25));
}

#[test]
fn same_randomness_gives_the_same_proof() {
    let one = generate_zkp(&[5], &[25], randomness()).unwrap();
    let other = generate_zkp(&[5], &[25], randomness()).unwrap();
    assert_eq!(one, other);
}

#[test]
fn proof_fails_against_another_public_input() {
    let proof = generate_zkp(&[3], &[9], randomness()).unwrap();
    assert!(verify_zkp(&proof, &[9]));
    assert!(!verify_zkp(&proof, &[10]));
    assert!(!verify_zkp(&proof, &[9, 0]));
    assert!(!verify_zkp(&proof, &[]));
}

#[test]
fn zero_and_one_are_their_own_squares() {
    let proof = generate_zkp(&[0], &[0], randomness()).unwrap();
    assert!(verify_zkp(&proof, &[0]));
    let proof = generate_zkp(&[1], &[1], randomness()).unwrap();
    assert!(verify_zkp(&proof, &[1]));
    assert_eq!(
        generate_zkp(&[16], &[0], randomness()),
        Err(ProveError::WitnessDoesNotSatisfyCircuit)
    );
    let proof = generate_zkp(&[15], &[225], randomness()).unwrap();
    assert!(verify_zkp(&proof, &[225]));
}

#[test]
fn verification_gives_the_same_answer_twice() {
    let proof = generate_zkp(&[5], &[25], randomness()).unwrap();
    assert_eq!(verify_zkp(&proof, &[25]), verify_zkp(&proof, &[25]));
    assert_eq!(verify_zkp(&proof, &[26]), verify_zkp(&proof, &[26]));
}

#[test]
fn arbitrary_bytes_of_the_right_length_are_rejected() {
    let proof = generate_zkp(&[5], &[25], randomness()).unwrap();
    let noise: Vec<u8> = (0..proof.len()).map(|i| (i * 37 + 11) as u8).collect();
    assert!(!verify_zkp(&noise, &[25]));
    let mut headed = b"ZKPROOF__".to_vec();
    headed.extend((9..proof.len()).map(|i| (i * 37 + 11) as u8));
    assert!(!verify_zkp(&headed, &[25]));
}

#[test]
fn malformed_proofs_are_rejected() {
    let proof = generate_zkp(&[5], &[25], randomness()).unwrap();
    assert!(!verify_zkp(b"", &[25]));
    assert!(!verify_zkp(b"ZKPROOF__", &[25]));
    assert!(!verify_zkp(b"ZKPROOF__\x19", &[25]));
    assert!(!verify_zkp(&proof[..88], &[25]));
    assert!(!verify_zkp(&proof[..81], &[25]));
    let mut long = proof.clone();
    long.push(0);
    assert!(!verify_zkp(&long, &[25]));
    let mut tagged = proof.clone();
    tagged[0] = b'z';
    assert!(!verify_zkp(&tagged, &[25]));
}

#[test]
fn tampered_proof_is_rejected_at_the_entry_point() {
    let proof = generate_zkp(&[5], &[25], randomness()).unwrap();
    for index in 25..proof.len() {
        let mut bad = proof.clone();
        bad[index] ^= 1;
        assert!(!verify_zkp(&bad, &[25]));
    }
}

#[test]
fn nothing_is_accepted_for_a_public_input_without_a_root() {
    assert!(!verify_zkp(&expected_proof(&[0; 16], 26), &[26]));
    assert!(!verify_zkp(&expected_proof(&nonce(), 2), &[2]));
    assert!(!verify_zkp(&expected_proof(&nonce(), 255), &[255]));
}

#[test]
fn well_laid_out_proof_of_a_true_statement_is_accepted() {
    assert!(verify_zkp(&expected_proof(&[0; 16], 25), &[25]));
    assert!(verify_zkp(&expected_proof(&nonce(), 225), &[225]));
}

#[test]
fn every_square_of_a_byte_that_is_a_byte_gets_a_proof() {
    for x in 0u8..=15 {
        let y = x * x;
        let proof = generate_zkp(&[x], &[y], randomness()).unwrap();
        assert_eq!(proof.len(), 89);
        assert!(verify_zkp(&proof, &[y]));
    }
}

#[test]
fn values_reads_one_variable_from_each_byte() {
    assert_eq!(zkp_prover::values(&[]), Vec::<u64>::new());
    assert_eq!(zkp_prover::values(&[0, 5, 255]), vec![0, 5, 255]);
}
