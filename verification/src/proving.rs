//! The prover: from a circuit, its proving key, a witness, a public input
//! and fresh randomness to a proof.

use vstd::prelude::*;

use crate::circuit::{Circuit, CircuitHandle};
use crate::envelope::{seal, sealed};
use crate::keys::ProvingKey;
use crate::statement::{encode_statement, statement, NONCE_LEN};

verus! {

/// Random bytes for one proof. [`prove`] takes the source by value, so the
/// same bytes cannot go into a second proof.
#[derive(Debug)]
pub struct Randomness {
    bytes: Vec<u8>,
}

impl View for Randomness {
    type V = Seq<u8>;

    closed spec fn view(&self) -> Seq<u8> {
        self.bytes@
    }
}

impl Randomness {
    /// Wraps bytes that the caller has drawn from a random source.
    pub fn new(bytes: Vec<u8>) -> (randomness: Randomness)
        ensures
            randomness@ == bytes@,
    {
        Randomness { bytes }
    }

    /// The number of bytes at hand.
    pub fn len(&self) -> (len: usize)
        ensures
            len == self@.len(),
    {
        self.bytes.len()
    }
}

/// Why [`prove`] gave no proof.
#[derive(Clone, Copy, Debug, PartialEq, Eq)]
pub enum ProveError {
    /// The proving key is not the key of the circuit.
    InvalidProvingKey,
    /// The witness and the public input do not satisfy the circuit.
    WitnessDoesNotSatisfyCircuit,
    /// The randomness holds fewer bytes than a nonce takes.
    InsufficientRandomness,
}

/// What [`prove`] returns, as a function of what it is given.
pub open spec fn prove_outcome(
    circuit: Circuit,
    key: ProvingKey,
    witness: Seq<u64>,
    public: Seq<u64>,
    randomness: Seq<u8>,
) -> Result<Seq<u8>, ProveError> {
    if !key.matches(circuit) {
        Err(ProveError::InvalidProvingKey)
    } else if !circuit.satisfied_by(public, witness) {
        Err(ProveError::WitnessDoesNotSatisfyCircuit)
    } else if randomness.len() < NONCE_LEN {
        Err(ProveError::InsufficientRandomness)
    } else {
        Ok(sealed(statement(randomness.take(NONCE_LEN as int), circuit.words(), public)))
    }
}

/// Proves that the prover holds a witness that, with `public_input`,
/// satisfies `circuit`.
///
/// The witness is checked here, and a witness that fails the circuit gets
/// an error, never a proof. The proof binds the circuit, the public input
/// and a nonce, the first bytes of `randomness`; nothing of the witness
/// goes into it.
pub fn prove(
    circuit: &CircuitHandle,
    proving_key: &ProvingKey,
    witness: &[u64],
    public_input: &[u64],
    randomness: Randomness,
) -> (result: Result<Vec<u8>, ProveError>)
    ensures
        match result {
            Ok(proof) => prove_outcome(
                circuit@,
                *proving_key,
                witness@,
                public_input@,
                randomness@,
            ) == Ok::<Seq<u8>, ProveError>(proof@),
            Err(error) => prove_outcome(
                circuit@,
                *proving_key,
                witness@,
                public_input@,
                randomness@,
            ) == Err::<Seq<u8>, ProveError>(error),
        },
{
    if !proving_key.is_for(circuit) {
        return Err(ProveError::InvalidProvingKey);
    }
    if !circuit.is_satisfied_by(public_input, witness) {
        return Err(ProveError::WitnessDoesNotSatisfyCircuit);
    }
    if randomness.len() < NONCE_LEN {
        return Err(ProveError::InsufficientRandomness);
    }
    let nonce = vstd::slice::slice_subrange(randomness.bytes.as_slice(), 0, NONCE_LEN);
    assert(nonce@ =~= randomness@.take(NONCE_LEN as int));
    let words = circuit.words();
    let bound = encode_statement(nonce, words.as_slice(), public_input);
    Ok(seal(bound.as_slice()))
}

} // verus!
