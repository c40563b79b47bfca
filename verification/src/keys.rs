//! The keys that tie a prover and a verifier to one circuit. A key holds
//! the circuit as words, so it belongs to exactly one circuit.

use vstd::prelude::*;

use crate::circuit::{lemma_circuit_words_injective, Circuit, CircuitHandle};
use crate::statement::{
    append_words,
    bytes_words,
    lemma_bytes_round_trip,
    lemma_words_bytes_len,
    lemma_words_round_trip,
    read_words,
    same_words,
    words_bytes,
    WORD_LEN,
};

verus! {

/// The key that a prover needs for one circuit.
#[derive(Clone, Debug, PartialEq, Eq)]
pub struct ProvingKey {
    /// The words of the circuit that the key was made for.
    pub circuit: Vec<u64>,
}

/// The key that a verifier needs for one circuit.
#[derive(Clone, Debug, PartialEq, Eq)]
pub struct VerificationKey {
    /// The words of the circuit that the key was made for.
    pub circuit: Vec<u64>,
}

/// The two keys of one circuit.
#[derive(Clone, Debug, PartialEq, Eq)]
pub struct SetupParameters {
    pub proving_key: ProvingKey,
    pub verification_key: VerificationKey,
}

/// The version of the key encoding that this library writes and reads.
pub const KEY_VERSION: u8 = 1;

/// The byte that marks an encoded proving key.
pub const PROVING_KEY_KIND: u8 = 0x50;

/// The byte that marks an encoded verification key.
pub const VERIFICATION_KEY_KIND: u8 = 0x56;

/// Number of bytes in an encoded key before its words: the version and
/// the kind.
pub const KEY_PREFIX_LEN: usize = 2;

/// Why bytes could not be loaded as a key.
#[derive(Clone, Copy, Debug, PartialEq, Eq)]
pub enum KeyError {
    /// The bytes are not the encoding of a key of the kind asked for.
    MalformedKeyEncoding,
    /// The bytes were written in the version `found` of the encoding, not
    /// in [`KEY_VERSION`].
    UnsupportedVersion { found: u8 },
    /// The bytes hold a key, but not one of the circuit at hand.
    KeyCircuitMismatch,
}

/// A key of the given kind as bytes: the version, the kind, then the
/// words in little-endian order.
pub open spec fn key_encoding(kind: u8, words: Seq<u64>) -> Seq<u8> {
    seq![KEY_VERSION, kind] + words_bytes(words)
}

/// The words that `bytes` hold when read as a key of the given kind. The
/// version is looked at first, so bytes of another version are told apart
/// from bytes that are no key.
pub open spec fn key_decoding(kind: u8, bytes: Seq<u8>) -> Result<Seq<u64>, KeyError> {
    if bytes.len() == 0 {
        Err(KeyError::MalformedKeyEncoding)
    } else if bytes[0] != KEY_VERSION {
        Err(KeyError::UnsupportedVersion { found: bytes[0] })
    } else if bytes.len() < KEY_PREFIX_LEN || bytes[1] != kind || (bytes.len() - KEY_PREFIX_LEN)
        % (WORD_LEN as int) != 0 {
        Err(KeyError::MalformedKeyEncoding)
    } else {
        Ok(bytes_words(bytes.skip(KEY_PREFIX_LEN as int)))
    }
}

/// The words that `bytes` hold when loaded as the key of `circuit`.
pub open spec fn key_loading(kind: u8, bytes: Seq<u8>, circuit: Circuit) -> Result<
    Seq<u64>,
    KeyError,
> {
    match key_decoding(kind, bytes) {
        Ok(words) => if words == circuit.words() {
            Ok(words)
        } else {
            Err(KeyError::KeyCircuitMismatch)
        },
        Err(error) => Err(error),
    }
}

/// Decoding gives back the words that were encoded.
pub proof fn lemma_key_round_trip(kind: u8, words: Seq<u64>)
    ensures
        key_decoding(kind, key_encoding(kind, words)) == Ok::<Seq<u64>, KeyError>(words),
{
    let bytes = key_encoding(kind, words);
    lemma_words_bytes_len(words);
    lemma_words_round_trip(words);
    assert(bytes.skip(KEY_PREFIX_LEN as int) =~= words_bytes(words));
}

/// Only a key's own encoding decodes to it.
pub proof fn lemma_key_encoding_unique(kind: u8, bytes: Seq<u8>, words: Seq<u64>)
    requires
        key_decoding(kind, bytes) == Ok::<Seq<u64>, KeyError>(words),
    ensures
        bytes == key_encoding(kind, words),
{
    let rest = bytes.skip(KEY_PREFIX_LEN as int);
    lemma_bytes_round_trip(rest);
    assert(bytes =~= seq![bytes[0], bytes[1]] + rest);
}

/// A key is the key of one circuit only: two circuits that the same words
/// match are the same circuit.
pub proof fn lemma_key_matches_one_circuit(words: Seq<u64>, circuit: Circuit, other: Circuit)
    requires
        circuit.encodable(),
        other.encodable(),
        words == circuit.words(),
        words == other.words(),
    ensures
        circuit == other,
{
    lemma_circuit_words_injective(circuit, Seq::empty(), other, Seq::empty());
}

fn encode_key(kind: u8, words: &[u64]) -> (bytes: Vec<u8>)
    ensures
        bytes@ == key_encoding(kind, words@),
{
    let mut bytes: Vec<u8> = Vec::new();
    bytes.push(KEY_VERSION);
    bytes.push(kind);
    assert(bytes@ =~= seq![KEY_VERSION, kind]);
    append_words(&mut bytes, words);
    bytes
}

fn decode_key(kind: u8, bytes: &[u8]) -> (result: Result<Vec<u64>, KeyError>)
    ensures
        match result {
            Ok(words) => key_decoding(kind, bytes@) == Ok::<Seq<u64>, KeyError>(words@),
            Err(error) => key_decoding(kind, bytes@) == Err::<Seq<u64>, KeyError>(error),
        },
{
    if bytes.len() == 0 {
        return Err(KeyError::MalformedKeyEncoding);
    }
    if bytes[0] != KEY_VERSION {
        return Err(KeyError::UnsupportedVersion { found: bytes[0] });
    }
    if bytes.len() < KEY_PREFIX_LEN || bytes[1] != kind || (bytes.len() - KEY_PREFIX_LEN)
        % WORD_LEN != 0 {
        return Err(KeyError::MalformedKeyEncoding);
    }
    let rest = vstd::slice::slice_subrange(bytes, KEY_PREFIX_LEN, bytes.len());
    assert(rest@ =~= bytes@.skip(KEY_PREFIX_LEN as int));
    Ok(read_words(rest))
}

impl ProvingKey {
    /// Whether the key is the key of `circuit`: it holds that circuit's
    /// words.
    pub open spec fn matches(self, circuit: Circuit) -> bool {
        self.circuit@ == circuit.words()
    }

    /// The key as bytes.
    pub open spec fn encoding(self) -> Seq<u8> {
        key_encoding(PROVING_KEY_KIND, self.circuit@)
    }

    /// Whether the key is the key of `circuit`.
    pub fn is_for(&self, circuit: &CircuitHandle) -> (ok: bool)
        ensures
            ok == self.matches(circuit@),
    {
        let words = circuit.words();
        same_words(self.circuit.as_slice(), words.as_slice())
    }

    /// Writes the key as bytes.
    pub fn encode(&self) -> (bytes: Vec<u8>)
        ensures
            bytes@ == self.encoding(),
    {
        encode_key(PROVING_KEY_KIND, self.circuit.as_slice())
    }

    /// Reads a key from bytes.
    pub fn decode(bytes: &[u8]) -> (result: Result<ProvingKey, KeyError>)
        ensures
            match result {
                Ok(key) => key_decoding(PROVING_KEY_KIND, bytes@) == Ok::<Seq<u64>, KeyError>(
                    key.circuit@,
                ),
                Err(error) => key_decoding(PROVING_KEY_KIND, bytes@) == Err::<
                    Seq<u64>,
                    KeyError,
                >(error),
            },
    {
        match decode_key(PROVING_KEY_KIND, bytes) {
            Ok(circuit) => Ok(ProvingKey { circuit }),
            Err(error) => Err(error),
        }
    }

    /// Reads the proving key of `circuit` from bytes. A key of another
    /// circuit is refused here, before any proof is attempted with it.
    pub fn load(bytes: &[u8], circuit: &CircuitHandle) -> (result: Result<ProvingKey, KeyError>)
        ensures
            match result {
                Ok(key) => key_loading(PROVING_KEY_KIND, bytes@, circuit@) == Ok::<
                    Seq<u64>,
                    KeyError,
                >(key.circuit@),
                Err(error) => key_loading(PROVING_KEY_KIND, bytes@, circuit@) == Err::<
                    Seq<u64>,
                    KeyError,
                >(error),
            },
    {
        match ProvingKey::decode(bytes) {
            Ok(key) => if key.is_for(circuit) {
                Ok(key)
            } else {
                Err(KeyError::KeyCircuitMismatch)
            },
            Err(error) => Err(error),
        }
    }
}

impl VerificationKey {
    /// Whether the key is the key of `circuit`: it holds that circuit's
    /// words.
    pub open spec fn matches(self, circuit: Circuit) -> bool {
        self.circuit@ == circuit.words()
    }

    /// The key as bytes.
    pub open spec fn encoding(self) -> Seq<u8> {
        key_encoding(VERIFICATION_KEY_KIND, self.circuit@)
    }

    /// Whether the key is the key of `circuit`.
    pub fn is_for(&self, circuit: &CircuitHandle) -> (ok: bool)
        ensures
            ok == self.matches(circuit@),
    {
        let words = circuit.words();
        same_words(self.circuit.as_slice(), words.as_slice())
    }

    /// Writes the key as bytes.
    pub fn encode(&self) -> (bytes: Vec<u8>)
        ensures
            bytes@ == self.encoding(),
    {
        encode_key(VERIFICATION_KEY_KIND, self.circuit.as_slice())
    }

    /// Reads a key from bytes.
    pub fn decode(bytes: &[u8]) -> (result: Result<VerificationKey, KeyError>)
        ensures
            match result {
                Ok(key) => key_decoding(VERIFICATION_KEY_KIND, bytes@) == Ok::<
                    Seq<u64>,
                    KeyError,
                >(key.circuit@),
                Err(error) => key_decoding(VERIFICATION_KEY_KIND, bytes@) == Err::<
                    Seq<u64>,
                    KeyError,
                >(error),
            },
    {
        match decode_key(VERIFICATION_KEY_KIND, bytes) {
            Ok(circuit) => Ok(VerificationKey { circuit }),
            Err(error) => Err(error),
        }
    }

    /// Reads the verification key of `circuit` from bytes. A key of
    /// another circuit is refused here, before any proof is judged with
    /// it.
    pub fn load(bytes: &[u8], circuit: &CircuitHandle) -> (result: Result<
        VerificationKey,
        KeyError,
    >)
        ensures
            match result {
                Ok(key) => key_loading(VERIFICATION_KEY_KIND, bytes@, circuit@) == Ok::<
                    Seq<u64>,
                    KeyError,
                >(key.circuit@),
                Err(error) => key_loading(VERIFICATION_KEY_KIND, bytes@, circuit@) == Err::<
                    Seq<u64>,
                    KeyError,
                >(error),
            },
    {
        match VerificationKey::decode(bytes) {
            Ok(key) => if key.is_for(circuit) {
                Ok(key)
            } else {
                Err(KeyError::KeyCircuitMismatch)
            },
            Err(error) => Err(error),
        }
    }
}

/// Derives the two keys of `circuit`: each holds the circuit's words.
pub fn setup(circuit: &CircuitHandle) -> (parameters: SetupParameters)
    ensures
        parameters.proving_key.circuit@ == circuit@.words(),
        parameters.verification_key.circuit@ == circuit@.words(),
{
    SetupParameters {
        proving_key: ProvingKey { circuit: circuit.words() },
        verification_key: VerificationKey { circuit: circuit.words() },
    }
}

} // verus!
