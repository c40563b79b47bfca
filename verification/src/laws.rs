//! What holds of the prover and the verifier together.

use vstd::prelude::*;

use crate::circuit::{lemma_circuit_words_injective, Circuit};
use crate::envelope::{lemma_sealed_injective, sealed};
use crate::field::all_elements;
use crate::keys::{ProvingKey, VerificationKey};
use crate::proving::{prove_outcome, ProveError};
use crate::statement::{
    lemma_sealed_statement_shape,
    lemma_statement_injective,
    nonce_of,
    statement,
    well_formed_proof,
    MIN_PROOF_LEN,
    NONCE_LEN,
    WORD_LEN,
};
use crate::verifying::{verify_outcome, VerifyError};

verus! {

/// Completeness: with the keys of the circuit, a witness that satisfies it
/// and enough randomness, the prover gives a proof, and the verifier
/// accepts that proof for the same circuit and public input.
pub proof fn lemma_completeness(
    circuit: Circuit,
    proving_key: ProvingKey,
    verification_key: VerificationKey,
    witness: Seq<u64>,
    public: Seq<u64>,
    randomness: Seq<u8>,
)
    requires
        proving_key.matches(circuit),
        verification_key.matches(circuit),
        circuit.satisfied_by(public, witness),
        randomness.len() >= NONCE_LEN,
    ensures
        prove_outcome(circuit, proving_key, witness, public, randomness) is Ok,
        verify_outcome(
            prove_outcome(circuit, proving_key, witness, public, randomness)->Ok_0,
            circuit,
            verification_key,
            public,
        ) == Ok::<bool, VerifyError>(true),
{
    lemma_sealed_statement_shape(randomness.take(NONCE_LEN as int), circuit.words(), public);
    assert(circuit.satisfiable(public)) by {
        assert(circuit.satisfied_by(public, witness));
    }
}

/// Soundness: the verifier accepts no proof of a false statement. Whatever
/// the bytes are and whoever wrote them, if they are accepted, then some
/// witness satisfies the circuit together with the public input.
pub proof fn lemma_soundness(
    proof: Seq<u8>,
    circuit: Circuit,
    verification_key: VerificationKey,
    public: Seq<u64>,
)
    requires
        verify_outcome(proof, circuit, verification_key, public) == Ok::<bool, VerifyError>(true),
    ensures
        exists|witness: Seq<u64>| circuit.satisfied_by(public, witness),
        public.len() == circuit.public_count,
        all_elements(public),
{
    let witness = choose|witness: Seq<u64>| circuit.satisfied_by(public, witness);
    assert(circuit.satisfied_by(public, witness));
}

/// Fresh randomness: two proofs of one statement whose nonces differ are
/// different proofs. With [`lemma_completeness`], the verifier accepts
/// both.
pub proof fn lemma_fresh_nonce_gives_another_proof(
    circuit: Circuit,
    proving_key: ProvingKey,
    witness: Seq<u64>,
    public: Seq<u64>,
    randomness: Seq<u8>,
    other_randomness: Seq<u8>,
)
    requires
        prove_outcome(circuit, proving_key, witness, public, randomness) is Ok,
        prove_outcome(circuit, proving_key, witness, public, other_randomness) is Ok,
        randomness.take(NONCE_LEN as int) != other_randomness.take(NONCE_LEN as int),
    ensures
        prove_outcome(circuit, proving_key, witness, public, randomness) != prove_outcome(
            circuit,
            proving_key,
            witness,
            public,
            other_randomness,
        ),
{
    let nonce = randomness.take(NONCE_LEN as int);
    let other = other_randomness.take(NONCE_LEN as int);
    if sealed(statement(nonce, circuit.words(), public)) == sealed(
        statement(other, circuit.words(), public),
    ) {
        lemma_sealed_injective(
            statement(nonce, circuit.words(), public),
            statement(other, circuit.words(), public),
        );
        lemma_statement_injective(
            nonce,
            circuit.words(),
            public,
            other,
            circuit.words(),
            public,
        );
    }
}

/// A proof is as long as the circuit and its public input ask for and no
/// longer: the header, the nonce, and one word for each word of the
/// circuit and each public variable.
pub proof fn lemma_proof_size(
    circuit: Circuit,
    proving_key: ProvingKey,
    witness: Seq<u64>,
    public: Seq<u64>,
    randomness: Seq<u8>,
)
    requires
        prove_outcome(circuit, proving_key, witness, public, randomness) is Ok,
    ensures
        prove_outcome(circuit, proving_key, witness, public, randomness)->Ok_0.len()
            == MIN_PROOF_LEN + WORD_LEN * (circuit.words().len() + circuit.public_count),
{
    lemma_sealed_statement_shape(randomness.take(NONCE_LEN as int), circuit.words(), public);
}

/// Binding to the public input: a proof made for one public input is
/// judged and rejected when checked against any other.
pub proof fn lemma_bound_to_public_input(
    circuit: Circuit,
    proving_key: ProvingKey,
    verification_key: VerificationKey,
    witness: Seq<u64>,
    public: Seq<u64>,
    randomness: Seq<u8>,
    other: Seq<u64>,
)
    requires
        verification_key.matches(circuit),
        prove_outcome(circuit, proving_key, witness, public, randomness) is Ok,
        other != public,
    ensures
        verify_outcome(
            prove_outcome(circuit, proving_key, witness, public, randomness)->Ok_0,
            circuit,
            verification_key,
            other,
        ) == Ok::<bool, VerifyError>(false),
{
    let nonce = randomness.take(NONCE_LEN as int);
    let words = circuit.words();
    let proof = sealed(statement(nonce, words, public));
    lemma_sealed_statement_shape(nonce, words, public);
    if proof == sealed(statement(nonce_of(proof), words, other)) {
        lemma_sealed_injective(statement(nonce, words, public), statement(nonce, words, other));
        lemma_statement_injective(nonce, words, public, nonce, words, other);
        assert(public =~= (words + public).subrange(
            words.len() as int,
            (words + public).len() as int,
        ));
        assert(other =~= (words + other).subrange(
            words.len() as int,
            (words + other).len() as int,
        ));
    }
}

/// Binding to the circuit: a proof made for one circuit is judged and
/// rejected when checked against any other circuit.
pub proof fn lemma_bound_to_circuit(
    circuit: Circuit,
    proving_key: ProvingKey,
    witness: Seq<u64>,
    public: Seq<u64>,
    randomness: Seq<u8>,
    other: Circuit,
    other_key: VerificationKey,
)
    requires
        circuit.encodable(),
        other.encodable(),
        other_key.matches(other),
        prove_outcome(circuit, proving_key, witness, public, randomness) is Ok,
        other != circuit,
    ensures
        verify_outcome(
            prove_outcome(circuit, proving_key, witness, public, randomness)->Ok_0,
            other,
            other_key,
            public,
        ) == Ok::<bool, VerifyError>(false),
{
    let nonce = randomness.take(NONCE_LEN as int);
    let proof = sealed(statement(nonce, circuit.words(), public));
    lemma_sealed_statement_shape(nonce, circuit.words(), public);
    if proof == sealed(statement(nonce_of(proof), other.words(), public)) {
        lemma_sealed_injective(
            statement(nonce, circuit.words(), public),
            statement(nonce, other.words(), public),
        );
        lemma_statement_injective(nonce, circuit.words(), public, nonce, other.words(), public);
        lemma_circuit_words_injective(circuit, public, other, public);
    }
}

/// The proof does not depend on the witness: two witnesses that satisfy
/// the circuit under the same public input give, with the same randomness,
/// the same outcome.
pub proof fn lemma_witness_hidden(
    circuit: Circuit,
    proving_key: ProvingKey,
    witness: Seq<u64>,
    other_witness: Seq<u64>,
    public: Seq<u64>,
    randomness: Seq<u8>,
)
    requires
        circuit.satisfied_by(public, witness),
        circuit.satisfied_by(public, other_witness),
    ensures
        prove_outcome(circuit, proving_key, witness, public, randomness) == prove_outcome(
            circuit,
            proving_key,
            other_witness,
            public,
            randomness,
        ),
{
}

/// The prover gives no proof for a witness that fails the circuit.
pub proof fn lemma_failing_witness_gets_no_proof(
    circuit: Circuit,
    proving_key: ProvingKey,
    witness: Seq<u64>,
    public: Seq<u64>,
    randomness: Seq<u8>,
)
    requires
        !circuit.satisfied_by(public, witness),
    ensures
        prove_outcome(circuit, proving_key, witness, public, randomness) is Err,
        proving_key.matches(circuit) ==> prove_outcome(
            circuit,
            proving_key,
            witness,
            public,
            randomness,
        ) == Err::<Seq<u8>, ProveError>(ProveError::WitnessDoesNotSatisfyCircuit),
{
}

/// Determinism of verification: the verifier's result is a function of
/// its four arguments, so two runs on the same arguments give the same
/// result.
pub proof fn lemma_verification_is_deterministic(
    proof: Seq<u8>,
    circuit: Circuit,
    verification_key: VerificationKey,
    public: Seq<u64>,
    first: Result<bool, VerifyError>,
    second: Result<bool, VerifyError>,
)
    requires
        first == verify_outcome(proof, circuit, verification_key, public),
        second == verify_outcome(proof, circuit, verification_key, public),
    ensures
        first == second,
{
}

/// Robustness: whatever the bytes are, the verifier with the key of the
/// circuit either cannot read them and says so, or judges them; and bytes
/// that are not the sealed statement are never accepted.
pub proof fn lemma_arbitrary_bytes_are_judged(
    proof: Seq<u8>,
    circuit: Circuit,
    verification_key: VerificationKey,
    public: Seq<u64>,
)
    requires
        verification_key.matches(circuit),
    ensures
        !well_formed_proof(proof) <==> verify_outcome(proof, circuit, verification_key, public)
            == Err::<bool, VerifyError>(VerifyError::MalformedProofEncoding),
        well_formed_proof(proof) <==> verify_outcome(proof, circuit, verification_key, public)
            is Ok,
        proof != sealed(statement(nonce_of(proof), circuit.words(), public)) ==> verify_outcome(
            proof,
            circuit,
            verification_key,
            public,
        ) != Ok::<bool, VerifyError>(true),
{
}

/// Every accepted proof is the sealed statement of the circuit, the public
/// input and the nonce that the proof carries, and its statement is true.
pub proof fn lemma_accepted_proof_shape(
    proof: Seq<u8>,
    circuit: Circuit,
    verification_key: VerificationKey,
    public: Seq<u64>,
)
    requires
        verify_outcome(proof, circuit, verification_key, public) == Ok::<bool, VerifyError>(true),
    ensures
        verification_key.matches(circuit),
        proof == sealed(statement(nonce_of(proof), circuit.words(), public)),
        circuit.satisfiable(public),
{
}

} // verus!
