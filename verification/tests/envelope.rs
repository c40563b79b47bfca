use zkp_prover::envelope::{
    append_bytes, is_sealed, same_bytes, seal, starts_with_header, HEADER_LEN,
};

#[test]
fn header_is_the_tag_and_the_delimiter() {
    assert_eq!(HEADER_LEN, 9);
    assert_eq!(seal(&[]), b"ZKPROOF__".to_vec());
}

#[test]
fn seal_puts_the_statement_after_the_header() {
    assert_eq!(seal(&[1, 2, 3]), vec![0x5a, 0x4b, 0x50, 0x52, 0x4f, 0x4f, 0x46, 0x5f, 0x5f, 1, 2, 3]);
}

#[test]
fn is_sealed_accepts_the_seal_of_the_statement_only() {
    let proof = seal(&[1, 2, 3]);
    assert!(is_sealed(&proof, &[1, 2, 3]));
    assert!(!is_sealed(&proof, &[1, 2, 4]));
    assert!(!is_sealed(&proof, &[1, 2]));
    assert!(!is_sealed(&proof, &[1, 2, 3, 0]));
    assert!(!is_sealed(&proof[..11], &[1, 2, 3]));
    assert!(!is_sealed(&[], &[]));
}

#[test]
fn starts_with_header_looks_at_the_first_nine_bytes() {
    assert!(starts_with_header(b"ZKPROOF__"));
    assert!(starts_with_header(b"ZKPROOF__and more"));
    assert!(!starts_with_header(b"ZKPROOF_"));
    assert!(!starts_with_header(b"ZKPROOF_x"));
    assert!(!starts_with_header(b"ZKPROOG__"));
    assert!(!starts_with_header(b"zKPROOF__"));
    assert!(!starts_with_header(b""));
}

#[test]
fn append_bytes_keeps_what_was_there() {
    let mut out = vec![9u8, 8];
    append_bytes(&mut out, &[7, 6, 5]);
    assert_eq!(out, vec![9, 8, 7, 6, 5]);
    append_bytes(&mut out, &[]);
    assert_eq!(out, vec![9, 8, 7, 6, 5]);
}

#[test]
fn same_bytes_compares_length_and_content() {
    assert!(same_bytes(&[], &[]));
    assert!(same_bytes(&[1, 2], &[1, 2]));
    assert!(!same_bytes(&[1, 2], &[1, 3]));
    assert!(!same_bytes(&[1, 2], &[1]));
    assert!(!same_bytes(&[1], &[1, 2]));
}
