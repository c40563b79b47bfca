use zkp_prover::statement::{
    append_word, append_words, encode_statement, is_well_formed_proof, same_words,
    MIN_PROOF_LEN, NONCE_LEN, WORD_LEN,
};

#[test]
fn lengths_of_the_parts() {
    assert_eq!(NONCE_LEN, 16);
    assert_eq!(WORD_LEN, 8);
    assert_eq!(MIN_PROOF_LEN, 25);
}

#[test]
fn append_word_writes_the_lowest_byte_first() {
    let mut out = vec![0xffu8];
    append_word(&mut out, 0x0102030405060708);
    assert_eq!(out, vec![0xff, 8, 7, 6, 5, 4, 3, 2, 1]);
}

#[test]
fn append_words_writes_the_words_in_order() {
    let mut out = vec![0xffu8];
    append_words(&mut out, &[1, 256]);
    assert_eq!(out, vec![0xff, 1, 0, 0, 0, 0, 0, 0, 0, 0, 1, 0, 0, 0, 0, 0, 0]);
    append_words(&mut out, &[]);
    assert_eq!(out.len(), 17);
}

#[test]
fn same_words_compares_length_and_content() {
    assert!(same_words(&[], &[]));
    assert!(same_words(&[1, 2], &[1, 2]));
    assert!(!same_words(&[1, 2], &[1, 3]));
    assert!(!same_words(&[1, 2], &[1]));
    assert!(!same_words(&[1], &[1, 2]));
}

#[test]
fn statement_is_nonce_circuit_words_and_public_words() {
    let nonce: Vec<u8> = (1u8..=16).collect();
    let statement = encode_statement(&nonce, &[0x1122334455667788, 3], &[25, 1 << 40]);
    let mut expected = nonce.clone();
    expected.extend_from_slice(&[0x88, 0x77, 0x66, 0x55, 0x44, 0x33, 0x22, 0x11]);
    expected.extend_from_slice(&[3, 0, 0, 0, 0, 0, 0, 0]);
    expected.extend_from_slice(&[25, 0, 0, 0, 0, 0, 0, 0]);
    expected.extend_from_slice(&[0, 0, 0, 0, 0, 1, 0, 0]);
    assert_eq!(statement, expected);
}

#[test]
fn statement_without_words() {
    assert_eq!(encode_statement(&[], &[], &[]), Vec::<u8>::new());
    assert_eq!(encode_statement(&[9], &[1], &[]), vec![9, 1, 0, 0, 0, 0, 0, 0, 0]);
}

#[test]
fn well_formed_proofs_have_a_header_a_nonce_and_whole_words() {
    let mut proof = b"ZKPROOF__".to_vec();
    proof.extend_from_slice(&[0; 16]);
    assert!(is_well_formed_proof(&proof));
    proof.extend_from_slice(&[0; 8]);
    assert!(is_well_formed_proof(&proof));
    proof.push(0);
    assert!(!is_well_formed_proof(&proof));
    assert!(!is_well_formed_proof(&proof[..24]));
    assert!(!is_well_formed_proof(&[]));
    let mut other = proof[..33].to_vec();
    other[8] = b'-';
    assert!(!is_well_formed_proof(&other));
}
