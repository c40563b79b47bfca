use zkp_prover::{
    define, setup, CircuitDescription, CircuitHandle, Constraint, EmptyCircuitPolicy, KeyError,
    ProvingKey, VerificationKey,
};

fn square() -> CircuitHandle {
    define(
        CircuitDescription {
            variable_count: 2,
            public_count: 1,
            witness_count: 1,
            constraints: vec![Constraint::Mul { left: 1, right: 1, out: 0 }],
        },
        EmptyCircuitPolicy::Reject,
    )
    .unwrap()
}

fn sum() -> CircuitHandle {
    define(
        CircuitDescription {
            variable_count: 3,
            public_count: 1,
            witness_count: 2,
            constraints: vec![Constraint::Add { left: 1, right: 2, out: 0 }],
        },
        EmptyCircuitPolicy::Reject,
    )
    .unwrap()
}

fn encoded(kind: u8, words: &[u64]) -> Vec<u8> {
    let mut bytes = vec![1u8, kind];
    for word in words {
        bytes.extend_from_slice(&word.to_le_bytes());
    }
    bytes
}

fn square_proving_key() -> Vec<u8> {
    encoded(0x50, &[1, 1, 1, 1, 1, 1, 0])
}

fn square_verification_key() -> Vec<u8> {
    encoded(0x56, &[1, 1, 1, 1, 1, 1, 0])
}

#[test]
fn setup_derives_both_keys_from_the_circuit() {
    let parameters = setup(&sum());
    assert_eq!(parameters.proving_key, ProvingKey { circuit: vec![1, 2, 1, 0, 1, 2, 0] });
    assert_eq!(
        parameters.verification_key,
        VerificationKey { circuit: vec![1, 2, 1, 0, 1, 2, 0] }
    );
}

#[test]
fn keys_of_a_circuit_are_for_that_circuit_only() {
    let parameters = setup(&square());
    assert!(parameters.proving_key.is_for(&square()));
    assert!(parameters.verification_key.is_for(&square()));
    assert!(!parameters.proving_key.is_for(&sum()));
    assert!(!parameters.verification_key.is_for(&sum()));
}

#[test]
fn key_tells_circuits_apart_that_differ_in_one_variable() {
    let other = define(
        CircuitDescription {
            variable_count: 2,
            public_count: 1,
            witness_count: 1,
            constraints: vec![Constraint::Mul { left: 1, right: 0, out: 0 }],
        },
        EmptyCircuitPolicy::Reject,
    )
    .unwrap();
    let parameters = setup(&square());
    assert!(!parameters.proving_key.is_for(&other));
    assert!(!parameters.verification_key.is_for(&other));
}

#[test]
fn key_with_changed_words_is_not_for_the_circuit() {
    let parameters = setup(&square());
    let mut proving_key = parameters.proving_key.clone();
    proving_key.circuit[1] = 2;
    assert!(!proving_key.is_for(&square()));
    let mut verification_key = parameters.verification_key.clone();
    verification_key.circuit.push(0);
    assert!(!verification_key.is_for(&square()));
    assert!(!VerificationKey { circuit: vec![] }.is_for(&square()));
}

#[test]
fn proving_key_encoding() {
    let parameters = setup(&square());
    let bytes = parameters.proving_key.encode();
    assert_eq!(bytes, square_proving_key());
    assert_eq!(bytes.len(), 58);
    assert_eq!(&bytes[..10], &[1, 0x50, 1, 0, 0, 0, 0, 0, 0, 0]);
}

#[test]
fn verification_key_encoding() {
    let parameters = setup(&square());
    assert_eq!(parameters.verification_key.encode(), square_verification_key());
}

#[test]
fn keys_survive_encoding_and_decoding() {
    let parameters = setup(&sum());
    assert_eq!(
        ProvingKey::decode(&parameters.proving_key.encode()),
        Ok(parameters.proving_key.clone())
    );
    assert_eq!(
        VerificationKey::decode(&parameters.verification_key.encode()),
        Ok(parameters.verification_key.clone())
    );
}

#[test]
fn decode_reads_the_words_in_little_endian_order() {
    let mut bytes = vec![1u8, 0x50];
    bytes.extend_from_slice(&[0x08, 0x07, 0x06, 0x05, 0x04, 0x03, 0x02, 0x01]);
    bytes.extend_from_slice(&[2, 0, 0, 0, 0, 0, 0, 0]);
    bytes.extend_from_slice(&[0, 1, 0, 0, 0, 0, 0, 0]);
    assert_eq!(
        ProvingKey::decode(&bytes),
        Ok(ProvingKey { circuit: vec![0x0102030405060708, 2, 256] })
    );
}

#[test]
fn decode_accepts_a_key_without_words() {
    assert_eq!(ProvingKey::decode(&[1, 0x50]), Ok(ProvingKey { circuit: vec![] }));
    assert_eq!(VerificationKey::decode(&[1, 0x56]), Ok(VerificationKey { circuit: vec![] }));
    assert_eq!(ProvingKey { circuit: vec![] }.encode(), vec![1, 0x50]);
}

#[test]
fn decode_rejects_empty_bytes() {
    assert_eq!(ProvingKey::decode(&[]), Err(KeyError::MalformedKeyEncoding));
    assert_eq!(VerificationKey::decode(&[]), Err(KeyError::MalformedKeyEncoding));
}

#[test]
fn decode_tells_another_version_apart() {
    let mut bytes = square_proving_key();
    bytes[0] = 2;
    assert_eq!(ProvingKey::decode(&bytes), Err(KeyError::UnsupportedVersion { found: 2 }));
    assert_eq!(ProvingKey::decode(&[0]), Err(KeyError::UnsupportedVersion { found: 0 }));
    let mut bytes = square_verification_key();
    bytes[0] = 0;
    assert_eq!(
        VerificationKey::decode(&bytes),
        Err(KeyError::UnsupportedVersion { found: 0 })
    );
}

#[test]
fn decode_rejects_a_key_of_the_other_kind() {
    assert_eq!(
        ProvingKey::decode(&square_verification_key()),
        Err(KeyError::MalformedKeyEncoding)
    );
    assert_eq!(
        VerificationKey::decode(&square_proving_key()),
        Err(KeyError::MalformedKeyEncoding)
    );
}

#[test]
fn decode_rejects_bytes_that_are_no_whole_words() {
    let bytes = square_proving_key();
    assert_eq!(ProvingKey::decode(&bytes[..57]), Err(KeyError::MalformedKeyEncoding));
    assert_eq!(ProvingKey::decode(&bytes[..3]), Err(KeyError::MalformedKeyEncoding));
    let mut long = square_verification_key();
    long.push(0);
    assert_eq!(VerificationKey::decode(&long), Err(KeyError::MalformedKeyEncoding));
    assert_eq!(ProvingKey::decode(&[1]), Err(KeyError::MalformedKeyEncoding));
}

#[test]
fn load_accepts_the_key_of_the_circuit() {
    let parameters = setup(&square());
    assert_eq!(
        ProvingKey::load(&square_proving_key(), &square()),
        Ok(parameters.proving_key.clone())
    );
    assert_eq!(
        VerificationKey::load(&square_verification_key(), &square()),
        Ok(parameters.verification_key.clone())
    );
}

#[test]
fn load_detects_a_key_of_another_circuit() {
    assert_eq!(
        ProvingKey::load(&square_proving_key(), &sum()),
        Err(KeyError::KeyCircuitMismatch)
    );
    assert_eq!(
        VerificationKey::load(&square_verification_key(), &sum()),
        Err(KeyError::KeyCircuitMismatch)
    );
    assert_eq!(
        ProvingKey::load(&square_proving_key()[..50], &square()),
        Err(KeyError::KeyCircuitMismatch)
    );
}

#[test]
fn load_reports_decoding_errors_first() {
    assert_eq!(ProvingKey::load(&[], &square()), Err(KeyError::MalformedKeyEncoding));
    assert_eq!(
        VerificationKey::load(&[9], &square()),
        Err(KeyError::UnsupportedVersion { found: 9 })
    );
}
