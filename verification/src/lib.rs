//! Proofs about private data that a verifier checks against public data
//! alone.
//!
//! A statement is a [`circuit`]: constraints over public and witness
//! variables of a prime [`field`]. The prover ([`proving`]) checks a
//! witness against the circuit and then seals the statement; the verifier
//! ([`verifying`]) judges a proof from the circuit, its key and the public
//! input. [`keys`] ties both to one circuit, [`statement`] and
//! [`envelope`] fix the bytes, and [`laws`] states what holds of the
//! whole. [`generate_zkp`] and [`verify_zkp`] are the byte-level entry
//! points for a host; they run the prover and the verifier on the circuit
//! `x * x = y`.
//!
//! A proof is a sealed statement. It holds the circuit, the public input
//! and a nonce in full, so it binds all three, and it holds nothing of the
//! witness. There is no cryptography in it. The verifier accepts it only
//! for a true statement, and finds that out by itself: it tries every
//! witness. That is why a witness variable holds the value of a byte, and
//! why verifying takes time that grows fast with the number of witness
//! variables. A proof shows that its statement is true, not that its maker
//! holds a witness.

use vstd::prelude::*;

pub mod circuit;
pub mod envelope;
pub mod field;
pub mod keys;
pub mod laws;
pub mod proving;
pub mod statement;
pub mod verifying;

pub use crate::circuit::{
    define,
    CircuitDescription,
    CircuitHandle,
    Constraint,
    EmptyCircuitPolicy,
    MalformedCircuit,
};
pub use crate::keys::{setup, KeyError, ProvingKey, SetupParameters, VerificationKey};
pub use crate::proving::{prove, ProveError, Randomness};
pub use crate::verifying::{verify, VerifyError};

use crate::circuit::{
    all_bytes,
    constraint_holds,
    constraints_words,
    lemma_constraints_words_len,
    square_circuit,
    WITNESS_BOUND,
};
use crate::envelope::{lemma_sealed_injective, sealed};
use crate::field::{all_elements, product_mod};
use crate::proving::prove_outcome;
use crate::statement::{
    lemma_sealed_statement_shape,
    lemma_statement_injective,
    nonce_of,
    statement,
    well_formed_proof,
    NONCE_LEN,
};
use crate::verifying::verify_outcome;

verus! {

/// The values that an input's bytes stand for: each byte is the value of
/// one variable.
pub open spec fn values_of(bytes: Seq<u8>) -> Seq<u64> {
    Seq::new(bytes.len(), |i: int| bytes[i] as u64)
}

/// What [`generate_zkp`] returns, as a function of what it is given: the
/// outcome of the prover on the circuit `x * x = y`, where the one byte
/// of the private input is `x` and the one byte of the public input is
/// `y`.
pub open spec fn generate_outcome(
    private_input: Seq<u8>,
    public_input: Seq<u8>,
    randomness: Seq<u8>,
) -> Result<Seq<u8>, ProveError> {
    if !square_circuit().satisfied_by(values_of(public_input), values_of(private_input)) {
        Err(ProveError::WitnessDoesNotSatisfyCircuit)
    } else if randomness.len() < NONCE_LEN {
        Err(ProveError::InsufficientRandomness)
    } else {
        Ok(
            sealed(
                statement(
                    randomness.take(NONCE_LEN as int),
                    square_circuit().words(),
                    values_of(public_input),
                ),
            ),
        )
    }
}

/// Whether [`verify_zkp`] accepts `proof` for `public_input`: the proof
/// can be read, it is the sealed statement of the circuit `x * x = y`,
/// this public input and the nonce that the proof carries, and the public
/// input has a square root.
pub open spec fn accepts(proof: Seq<u8>, public_input: Seq<u8>) -> bool {
    &&& well_formed_proof(proof)
    &&& proof == sealed(
        statement(nonce_of(proof), square_circuit().words(), values_of(public_input)),
    )
    &&& has_square_root(public_input)
}

/// The relation that the entry points prove, in plain terms: each input
/// is one byte, and the private byte times itself is the public byte.
pub open spec fn is_square_root(private_input: Seq<u8>, public_input: Seq<u8>) -> bool {
    &&& private_input.len() == 1
    &&& public_input.len() == 1
    &&& private_input[0] * private_input[0] == public_input[0]
}

/// The statement that the entry points prove: some private input is a
/// square root of the public input.
pub open spec fn has_square_root(public_input: Seq<u8>) -> bool {
    exists|private_input: Seq<u8>| is_square_root(private_input, public_input)
}

/// Reads each byte of `bytes` as the value of one variable.
pub fn values(bytes: &[u8]) -> (values: Vec<u64>)
    ensures
        values@ == values_of(bytes@),
{
    let mut values: Vec<u64> = Vec::new();
    let mut i: usize = 0;
    while i < bytes.len()
        invariant
            i <= bytes.len(),
            values@ == values_of(bytes@.take(i as int)),
        decreases bytes.len() - i,
    {
        values.push(bytes[i] as u64);
        i += 1;
        assert(values@ =~= values_of(bytes@.take(i as int)));
    }
    assert(bytes@.take(i as int) =~= bytes@);
    values
}

/// Generates a proof that the caller holds a square root of the public
/// input: `private_input` is the one byte `x`, `public_input` the one
/// byte `y`, and `x * x = y`.
///
/// Inputs that do not satisfy this, inputs of another length among them,
/// get [`ProveError::WitnessDoesNotSatisfyCircuit`] and no proof. The
/// proof takes its nonce from `randomness`, which the caller draws anew
/// for every call; no byte of the private input reaches the proof.
pub fn generate_zkp(private_input: &[u8], public_input: &[u8], randomness: Randomness) -> (result:
    Result<Vec<u8>, ProveError>)
    ensures
        match result {
            Ok(proof) => generate_outcome(private_input@, public_input@, randomness@) == Ok::<
                Seq<u8>,
                ProveError,
            >(proof@),
            Err(error) => generate_outcome(private_input@, public_input@, randomness@) == Err::<
                Seq<u8>,
                ProveError,
            >(error),
        },
{
    let circuit = CircuitHandle::square();
    let keys = setup(&circuit);
    let witness = values(private_input);
    let public = values(public_input);
    prove(&circuit, &keys.proving_key, witness.as_slice(), public.as_slice(), randomness)
}

/// Checks `proof` against `public_input`. Any byte string may be passed;
/// only a proof made for the circuit `x * x = y` and exactly this public
/// input is accepted, and only if the public input has a square root.
pub fn verify_zkp(proof: &[u8], public_input: &[u8]) -> (ok: bool)
    ensures
        ok == accepts(proof@, public_input@),
        ok ==> exists|private_input: Seq<u8>| is_square_root(private_input, public_input@),
{
    proof {
        lemma_satisfiable_means_has_square_root(public_input@);
    }
    let circuit = CircuitHandle::square();
    let keys = setup(&circuit);
    let public = values(public_input);
    match verify(proof, &circuit, &keys.verification_key, public.as_slice()) {
        Ok(accepted) => accepted,
        Err(_) => false,
    }
}

/// Different inputs stand for different values.
pub proof fn lemma_values_injective(a: Seq<u8>, b: Seq<u8>)
    requires
        values_of(a) == values_of(b),
    ensures
        a == b,
{
    assert(a.len() == values_of(a).len());
    assert(b.len() == values_of(b).len());
    assert forall|i: int| 0 <= i < a.len() implies a[i] == b[i] by {
        assert(values_of(a)[i] == a[i] as u64);
        assert(values_of(b)[i] == b[i] as u64);
    }
    assert(a =~= b);
}

/// Inputs satisfy the circuit `x * x = y` exactly when the private byte
/// is a square root of the public byte. No product of two bytes reaches
/// the modulus, so the field's product is the plain one.
pub proof fn lemma_satisfied_means_square_root(private_input: Seq<u8>, public_input: Seq<u8>)
    ensures
        square_circuit().satisfied_by(values_of(public_input), values_of(private_input))
            == is_square_root(private_input, public_input),
{
    let public = values_of(public_input);
    let witness = values_of(private_input);
    let only = square_circuit().constraints[0];
    assert(only == Constraint::Mul { left: 1, right: 1, out: 0 });
    assert(all_elements(public));
    assert(all_bytes(witness));
    if private_input.len() == 1 && public_input.len() == 1 {
        let x = private_input[0];
        assert((public + witness)[0] == public_input[0] as u64);
        assert((public + witness)[1] == x as u64);
        assert(0 <= x * x <= 255 * 255) by (nonlinear_arith)
            requires
                0 <= x <= 255,
        ;
        assert(product_mod(x as u64, x as u64) == x * x);
        if is_square_root(private_input, public_input) {
            assert forall|i: int|
                0 <= i < square_circuit().constraints.len() implies constraint_holds(
                #[trigger] square_circuit().constraints[i],
                public + witness,
            ) by {
                assert(square_circuit().constraints[i] == only);
            }
        }
        if square_circuit().satisfied_by(public, witness) {
            assert(constraint_holds(only, public + witness));
        }
    }
}

/// The circuit `x * x = y` has a witness for a public input exactly when
/// the public input has a square root.
pub proof fn lemma_satisfiable_means_has_square_root(public_input: Seq<u8>)
    ensures
        square_circuit().satisfiable(values_of(public_input)) == has_square_root(public_input),
{
    let public = values_of(public_input);
    if has_square_root(public_input) {
        let root = choose|root: Seq<u8>| is_square_root(root, public_input);
        lemma_satisfied_means_square_root(root, public_input);
        assert(square_circuit().satisfied_by(public, values_of(root)));
    }
    if square_circuit().satisfiable(public) {
        let witness = choose|witness: Seq<u64>| square_circuit().satisfied_by(public, witness);
        let root = Seq::new(witness.len(), |i: int| witness[i] as u8);
        assert(values_of(root) =~= witness) by {
            assert forall|i: int| 0 <= i < witness.len() implies values_of(root)[i]
                == witness[i] by {
                assert(witness[i] < WITNESS_BOUND);
            }
        }
        lemma_satisfied_means_square_root(root, public_input);
        assert(is_square_root(root, public_input));
    }
}

/// The entry points are the prover and the verifier on the circuit
/// `x * x = y` with its keys.
pub proof fn lemma_entry_points_run_the_square_circuit(
    proving_key: ProvingKey,
    verification_key: VerificationKey,
    private_input: Seq<u8>,
    public_input: Seq<u8>,
    randomness: Seq<u8>,
    proof: Seq<u8>,
)
    requires
        proving_key.matches(square_circuit()),
        verification_key.matches(square_circuit()),
    ensures
        generate_outcome(private_input, public_input, randomness) == prove_outcome(
            square_circuit(),
            proving_key,
            values_of(private_input),
            values_of(public_input),
            randomness,
        ),
        accepts(proof, public_input) == (verify_outcome(
            proof,
            square_circuit(),
            verification_key,
            values_of(public_input),
        ) == Ok::<bool, VerifyError>(true)),
{
    lemma_satisfiable_means_has_square_root(public_input);
}

/// Completeness: for inputs that satisfy the circuit and enough
/// randomness, a proof is generated, and it is accepted for the same
/// public input.
pub proof fn lemma_generated_proof_is_accepted(
    private_input: Seq<u8>,
    public_input: Seq<u8>,
    randomness: Seq<u8>,
)
    requires
        square_circuit().satisfied_by(values_of(public_input), values_of(private_input)),
        randomness.len() >= NONCE_LEN,
    ensures
        generate_outcome(private_input, public_input, randomness) is Ok,
        accepts(generate_outcome(private_input, public_input, randomness)->Ok_0, public_input),
{
    lemma_sealed_statement_shape(
        randomness.take(NONCE_LEN as int),
        square_circuit().words(),
        values_of(public_input),
    );
    lemma_satisfied_means_square_root(private_input, public_input);
    assert(is_square_root(private_input, public_input));
}

/// Soundness: no proof is accepted for a public input without a square
/// root, whatever the bytes are and whoever wrote them.
pub proof fn lemma_accepted_means_true(proof: Seq<u8>, public_input: Seq<u8>)
    requires
        accepts(proof, public_input),
    ensures
        exists|private_input: Seq<u8>| is_square_root(private_input, public_input),
        square_circuit().satisfiable(values_of(public_input)),
{
    lemma_satisfiable_means_has_square_root(public_input);
}

/// No byte squares to 26, so nothing is accepted as a proof for the
/// public input 26.
pub proof fn lemma_nothing_is_accepted_for_26(proof: Seq<u8>)
    ensures
        !accepts(proof, seq![26u8]),
{
    if has_square_root(seq![26u8]) {
        let root = choose|root: Seq<u8>| is_square_root(root, seq![26u8]);
        let x = root[0];
        assert(seq![26u8][0] == 26);
        assert(x * x != 26) by (nonlinear_arith)
            requires
                0 <= x <= 255,
        ;
    }
}

/// The square of five: with the private input 5, the public input 25 and
/// enough randomness, a proof of 89 bytes is generated; it is accepted for
/// 25 and rejected for 26.
pub proof fn lemma_square_of_five(randomness: Seq<u8>)
    requires
        randomness.len() >= NONCE_LEN,
    ensures
        generate_outcome(seq![5u8], seq![25u8], randomness) is Ok,
        generate_outcome(seq![5u8], seq![25u8], randomness)->Ok_0.len() == 89,
        accepts(generate_outcome(seq![5u8], seq![25u8], randomness)->Ok_0, seq![25u8]),
        !accepts(generate_outcome(seq![5u8], seq![25u8], randomness)->Ok_0, seq![26u8]),
{
    assert(is_square_root(seq![5u8], seq![25u8])) by {
        assert(seq![5u8].len() == 1 && seq![5u8][0] == 5);
        assert(seq![25u8].len() == 1 && seq![25u8][0] == 25);
    }
    lemma_satisfied_means_square_root(seq![5u8], seq![25u8]);
    lemma_generated_proof_is_accepted(seq![5u8], seq![25u8], randomness);
    lemma_generated_proof_size(seq![5u8], seq![25u8], randomness);
    assert(seq![26u8][0] != seq![25u8][0]);
    lemma_proof_bound_to_public_input(seq![5u8], seq![25u8], randomness, seq![26u8]);
}

/// Every generated proof has the same length: the header, the nonce, the
/// seven words of the circuit and the one word of the public input.
pub proof fn lemma_generated_proof_size(
    private_input: Seq<u8>,
    public_input: Seq<u8>,
    randomness: Seq<u8>,
)
    requires
        generate_outcome(private_input, public_input, randomness) is Ok,
    ensures
        generate_outcome(private_input, public_input, randomness)->Ok_0.len() == 89,
{
    lemma_sealed_statement_shape(
        randomness.take(NONCE_LEN as int),
        square_circuit().words(),
        values_of(public_input),
    );
    assert(constraints_words(square_circuit().constraints).len() == 4) by {
        lemma_constraints_words_len(square_circuit().constraints);
    }
}

/// Fresh randomness: two proofs generated from the same inputs with
/// different nonces are different proofs. With
/// [`lemma_generated_proof_is_accepted`], both are accepted.
pub proof fn lemma_fresh_randomness_gives_another_proof(
    private_input: Seq<u8>,
    public_input: Seq<u8>,
    randomness: Seq<u8>,
    other_randomness: Seq<u8>,
)
    requires
        generate_outcome(private_input, public_input, randomness) is Ok,
        generate_outcome(private_input, public_input, other_randomness) is Ok,
        randomness.take(NONCE_LEN as int) != other_randomness.take(NONCE_LEN as int),
    ensures
        generate_outcome(private_input, public_input, randomness) != generate_outcome(
            private_input,
            public_input,
            other_randomness,
        ),
{
    let words = square_circuit().words();
    let public = values_of(public_input);
    let nonce = randomness.take(NONCE_LEN as int);
    let other = other_randomness.take(NONCE_LEN as int);
    if sealed(statement(nonce, words, public)) == sealed(statement(other, words, public)) {
        lemma_sealed_injective(statement(nonce, words, public), statement(other, words, public));
        lemma_statement_injective(nonce, words, public, other, words, public);
    }
}

/// Binding: a proof generated for one public input is rejected for any
/// other.
pub proof fn lemma_proof_bound_to_public_input(
    private_input: Seq<u8>,
    public_input: Seq<u8>,
    randomness: Seq<u8>,
    other: Seq<u8>,
)
    requires
        generate_outcome(private_input, public_input, randomness) is Ok,
        other != public_input,
    ensures
        !accepts(generate_outcome(private_input, public_input, randomness)->Ok_0, other),
{
    let words = square_circuit().words();
    let nonce = randomness.take(NONCE_LEN as int);
    let public = values_of(public_input);
    let changed = values_of(other);
    let proof = sealed(statement(nonce, words, public));
    lemma_sealed_statement_shape(nonce, words, public);
    if proof == sealed(statement(nonce_of(proof), words, changed)) {
        lemma_sealed_injective(statement(nonce, words, public), statement(nonce, words, changed));
        lemma_statement_injective(nonce, words, public, nonce, words, changed);
        assert(public =~= (words + public).subrange(
            words.len() as int,
            (words + public).len() as int,
        ));
        assert(changed =~= (words + changed).subrange(
            words.len() as int,
            (words + changed).len() as int,
        ));
        lemma_values_injective(public_input, other);
    }
}

/// A private input that fails the circuit gets an error and no proof.
pub proof fn lemma_failing_private_input_gets_no_proof(
    private_input: Seq<u8>,
    public_input: Seq<u8>,
    randomness: Seq<u8>,
)
    requires
        !square_circuit().satisfied_by(values_of(public_input), values_of(private_input)),
    ensures
        generate_outcome(private_input, public_input, randomness) == Err::<Seq<u8>, ProveError>(
            ProveError::WitnessDoesNotSatisfyCircuit,
        ),
{
}

/// The proof does not depend on the private input: two private inputs
/// that satisfy the circuit under the same public input give, with the
/// same randomness, the same outcome.
pub proof fn lemma_private_input_hidden(
    private_input: Seq<u8>,
    other: Seq<u8>,
    public_input: Seq<u8>,
    randomness: Seq<u8>,
)
    requires
        square_circuit().satisfied_by(values_of(public_input), values_of(private_input)),
        square_circuit().satisfied_by(values_of(public_input), values_of(other)),
    ensures
        generate_outcome(private_input, public_input, randomness) == generate_outcome(
            other,
            public_input,
            randomness,
        ),
{
}

/// Determinism: the answer is a function of the proof and the public
/// input, so two runs on the same arguments give the same answer.
pub proof fn lemma_answer_is_deterministic(
    proof: Seq<u8>,
    public_input: Seq<u8>,
    first: bool,
    second: bool,
)
    requires
        first == accepts(proof, public_input),
        second == accepts(proof, public_input),
    ensures
        first == second,
{
}

} // verus!
