//! The verifier: accepts or rejects a proof from public data alone. It
//! accepts a proof only for a statement that it finds true, by trying
//! every witness.

use vstd::prelude::*;

use crate::circuit::{Circuit, CircuitHandle};
use crate::envelope::{is_sealed, sealed, HEADER_LEN};
use crate::keys::VerificationKey;
use crate::statement::{
    encode_statement,
    is_well_formed_proof,
    nonce_of,
    statement,
    well_formed_proof,
    NONCE_LEN,
};

verus! {

/// Why [`verify`] could not judge a proof. A proof that is judged and
/// rejected is no error.
#[derive(Clone, Copy, Debug, PartialEq, Eq)]
pub enum VerifyError {
    /// The bytes cannot be read as a proof.
    MalformedProofEncoding,
    /// The verification key is not the key of the circuit.
    KeyCircuitMismatch,
}

/// What [`verify`] returns, as a function of what it is given.
pub open spec fn verify_outcome(
    proof: Seq<u8>,
    circuit: Circuit,
    key: VerificationKey,
    public: Seq<u64>,
) -> Result<bool, VerifyError> {
    if !key.matches(circuit) {
        Err(VerifyError::KeyCircuitMismatch)
    } else if !well_formed_proof(proof) {
        Err(VerifyError::MalformedProofEncoding)
    } else {
        Ok(
            proof == sealed(statement(nonce_of(proof), circuit.words(), public))
                && circuit.satisfiable(public),
        )
    }
}

/// Judges `proof` against `circuit` and `public_input`.
///
/// A well-formed proof is accepted exactly when it binds this circuit and
/// this public input and some witness satisfies the circuit with this
/// public input. A proof made for another circuit or another public input
/// is rejected with `Ok(false)`, and so is every proof of a statement that
/// no witness satisfies, a public input of the wrong shape among them. Any
/// byte string may be passed.
///
/// The proof holds nothing of the witness, so the verifier looks for one
/// itself and tries every witness; see
/// [`CircuitHandle::is_satisfiable`] for what that costs.
pub fn verify(
    proof: &[u8],
    circuit: &CircuitHandle,
    verification_key: &VerificationKey,
    public_input: &[u64],
) -> (result: Result<bool, VerifyError>)
    ensures
        result == verify_outcome(proof@, circuit@, *verification_key, public_input@),
        result == Ok::<bool, VerifyError>(true) ==> exists|witness: Seq<u64>|
            circuit@.satisfied_by(public_input@, witness),
{
    if !verification_key.is_for(circuit) {
        return Err(VerifyError::KeyCircuitMismatch);
    }
    if !is_well_formed_proof(proof) {
        return Err(VerifyError::MalformedProofEncoding);
    }
    let nonce = vstd::slice::slice_subrange(proof, HEADER_LEN, HEADER_LEN + NONCE_LEN);
    let words = circuit.words();
    let bound = encode_statement(nonce, words.as_slice(), public_input);
    if !is_sealed(proof, bound.as_slice()) {
        return Ok(false);
    }
    Ok(circuit.is_satisfiable(public_input))
}

} // verus!
