//! What a circuit proof binds: the nonce drawn for it, the circuit and the
//! public input, laid out as bytes.

use vstd::bytes::{
    lemma_auto_spec_u64_to_from_le_bytes,
    spec_u64_from_le_bytes,
    spec_u64_to_le_bytes,
    u64_from_le_bytes,
    u64_to_le_bytes,
};
use vstd::prelude::*;

use crate::envelope::{append_bytes, has_header, sealed, starts_with_header, HEADER_LEN};

verus! {

/// Number of random bytes that each proof takes as its nonce.
pub const NONCE_LEN: usize = 16;

/// Number of bytes that one word takes.
pub const WORD_LEN: usize = 8;

/// Number of bytes in a proof before its words: the header and the nonce.
pub const MIN_PROOF_LEN: usize = HEADER_LEN + NONCE_LEN;

/// The bytes of `words`, each word in little-endian order.
pub open spec fn words_bytes(words: Seq<u64>) -> Seq<u8>
    decreases words.len(),
{
    if words.len() == 0 {
        Seq::empty()
    } else {
        words_bytes(words.drop_last()) + spec_u64_to_le_bytes(words.last())
    }
}

/// The words that `bytes` hold, eight bytes to a word. It is meant for
/// bytes that make up whole words.
pub open spec fn bytes_words(bytes: Seq<u8>) -> Seq<u64>
    decreases bytes.len(),
{
    if bytes.len() < WORD_LEN {
        Seq::empty()
    } else {
        bytes_words(bytes.take(bytes.len() - WORD_LEN)).push(
            spec_u64_from_le_bytes(bytes.skip(bytes.len() - WORD_LEN)),
        )
    }
}

/// The statement that a proof binds: the nonce, then the words of the
/// circuit and the public input.
pub open spec fn statement(nonce: Seq<u8>, circuit: Seq<u64>, public: Seq<u64>) -> Seq<u8> {
    nonce + words_bytes(circuit + public)
}

/// Whether `proof` can be read as a circuit proof: the header, a nonce,
/// and then whole words.
pub open spec fn well_formed_proof(proof: Seq<u8>) -> bool {
    &&& has_header(proof)
    &&& proof.len() >= MIN_PROOF_LEN
    &&& (proof.len() - MIN_PROOF_LEN) % (WORD_LEN as int) == 0
}

/// The nonce that a well-formed proof carries.
pub open spec fn nonce_of(proof: Seq<u8>) -> Seq<u8> {
    proof.subrange(HEADER_LEN as int, HEADER_LEN + NONCE_LEN)
}

/// Every word takes eight bytes.
pub proof fn lemma_words_bytes_len(words: Seq<u64>)
    ensures
        words_bytes(words).len() == WORD_LEN * words.len(),
    decreases words.len(),
{
    lemma_auto_spec_u64_to_from_le_bytes();
    if words.len() > 0 {
        lemma_words_bytes_len(words.drop_last());
    }
}

/// The bytes of words put together are the bytes of the one put after the
/// bytes of the other.
pub proof fn lemma_words_bytes_concat(front: Seq<u64>, back: Seq<u64>)
    ensures
        words_bytes(front + back) == words_bytes(front) + words_bytes(back),
    decreases back.len(),
{
    if back.len() == 0 {
        assert(front + back =~= front);
        assert(words_bytes(front) + words_bytes(back) =~= words_bytes(front));
    } else {
        lemma_words_bytes_concat(front, back.drop_last());
        assert((front + back).drop_last() =~= front + back.drop_last());
        assert(words_bytes(front + back) =~= words_bytes(front) + words_bytes(back));
    }
}

/// Words can be read back from their bytes.
pub proof fn lemma_words_round_trip(words: Seq<u64>)
    ensures
        bytes_words(words_bytes(words)) == words,
    decreases words.len(),
{
    lemma_auto_spec_u64_to_from_le_bytes();
    lemma_words_bytes_len(words);
    if words.len() == 0 {
        assert(bytes_words(words_bytes(words)) =~= words);
    } else {
        let front = words_bytes(words.drop_last());
        let last = spec_u64_to_le_bytes(words.last());
        let bytes = words_bytes(words);
        lemma_words_bytes_len(words.drop_last());
        lemma_words_round_trip(words.drop_last());
        assert(bytes.take(bytes.len() - WORD_LEN) =~= front);
        assert(bytes.skip(bytes.len() - WORD_LEN) =~= last);
        assert(words =~= words.drop_last().push(words.last()));
    }
}

/// Bytes that make up whole words are the bytes of the words they hold.
pub proof fn lemma_bytes_round_trip(bytes: Seq<u8>)
    requires
        bytes.len() % (WORD_LEN as nat) == 0,
    ensures
        words_bytes(bytes_words(bytes)) == bytes,
        bytes_words(bytes).len() * WORD_LEN == bytes.len(),
    decreases bytes.len(),
{
    lemma_auto_spec_u64_to_from_le_bytes();
    if bytes.len() < WORD_LEN {
        assert(words_bytes(bytes_words(bytes)) =~= bytes);
    } else {
        let front = bytes.take(bytes.len() - WORD_LEN);
        let last = bytes.skip(bytes.len() - WORD_LEN);
        lemma_bytes_round_trip(front);
        let words = bytes_words(bytes);
        assert(words.drop_last() =~= bytes_words(front));
        assert(words.last() == spec_u64_from_le_bytes(last));
        assert(spec_u64_to_le_bytes(spec_u64_from_le_bytes(last)) == last);
        assert(bytes =~= front + last);
    }
}

/// Words can be told apart by their bytes: different words have different
/// bytes.
pub proof fn lemma_words_bytes_injective(a: Seq<u64>, b: Seq<u64>)
    requires
        words_bytes(a) == words_bytes(b),
    ensures
        a == b,
{
    lemma_words_round_trip(a);
    lemma_words_round_trip(b);
}

/// A statement can be taken apart again: equal statements with nonces of
/// the same length have the same nonce and the same words.
pub proof fn lemma_statement_injective(
    nonce_a: Seq<u8>,
    circuit_a: Seq<u64>,
    public_a: Seq<u64>,
    nonce_b: Seq<u8>,
    circuit_b: Seq<u64>,
    public_b: Seq<u64>,
)
    requires
        nonce_a.len() == nonce_b.len(),
        statement(nonce_a, circuit_a, public_a) == statement(nonce_b, circuit_b, public_b),
    ensures
        nonce_a == nonce_b,
        circuit_a + public_a == circuit_b + public_b,
{
    let whole_a = statement(nonce_a, circuit_a, public_a);
    let whole_b = statement(nonce_b, circuit_b, public_b);
    let n = nonce_a.len() as int;
    assert(nonce_a =~= whole_a.subrange(0, n));
    assert(nonce_b =~= whole_b.subrange(0, n));
    assert(words_bytes(circuit_a + public_a) =~= whole_a.subrange(n, whole_a.len() as int));
    assert(words_bytes(circuit_b + public_b) =~= whole_b.subrange(n, whole_b.len() as int));
    lemma_words_bytes_injective(circuit_a + public_a, circuit_b + public_b);
}

/// The proof that binds a statement with a full nonce is well formed, the
/// nonce can be read from it, and its length is that of the header, the
/// nonce and the words.
pub proof fn lemma_sealed_statement_shape(nonce: Seq<u8>, circuit: Seq<u64>, public: Seq<u64>)
    requires
        nonce.len() == NONCE_LEN,
    ensures
        well_formed_proof(sealed(statement(nonce, circuit, public))),
        nonce_of(sealed(statement(nonce, circuit, public))) == nonce,
        sealed(statement(nonce, circuit, public)).len() == MIN_PROOF_LEN + WORD_LEN * (
        circuit.len() + public.len()),
{
    lemma_words_bytes_len(circuit + public);
    let proof = sealed(statement(nonce, circuit, public));
    crate::envelope::lemma_sealed_shape(proof);
    assert(nonce_of(proof) =~= nonce);
}

/// Appends the eight bytes of `word`, lowest first, to `out`.
pub fn append_word(out: &mut Vec<u8>, word: u64)
    ensures
        final(out)@ == old(out)@ + spec_u64_to_le_bytes(word),
{
    let bytes = u64_to_le_bytes(word);
    append_bytes(out, bytes.as_slice());
}

/// Appends the bytes of `words` to `out`.
pub fn append_words(out: &mut Vec<u8>, words: &[u64])
    ensures
        final(out)@ == old(out)@ + words_bytes(words@),
{
    assert(out@ =~= old(out)@ + words_bytes(words@.take(0)));
    let mut i: usize = 0;
    while i < words.len()
        invariant
            i <= words.len(),
            out@ == old(out)@ + words_bytes(words@.take(i as int)),
        decreases words.len() - i,
    {
        append_word(out, words[i]);
        i += 1;
        proof {
            let now = words@.take(i as int);
            assert(now.drop_last() =~= words@.take(i - 1));
            assert(out@ =~= old(out)@ + words_bytes(now));
        }
    }
    assert(words@.take(i as int) =~= words@);
}

/// Reads the words that `bytes` hold.
pub(crate) fn read_words(bytes: &[u8]) -> (words: Vec<u64>)
    requires
        bytes@.len() % (WORD_LEN as nat) == 0,
    ensures
        words@ == bytes_words(bytes@),
{
    let count = bytes.len() / WORD_LEN;
    let mut words: Vec<u64> = Vec::new();
    assert(words@ =~= bytes_words(bytes@.take(0)));
    let mut i: usize = 0;
    while i < count
        invariant
            i <= count,
            count * WORD_LEN == bytes@.len(),
            bytes@.len() <= usize::MAX,
            words@ == bytes_words(bytes@.take(WORD_LEN * i)),
        decreases count - i,
    {
        let chunk = vstd::slice::slice_subrange(bytes, i * WORD_LEN, i * WORD_LEN + WORD_LEN);
        words.push(u64_from_le_bytes(chunk));
        i += 1;
        proof {
            let now = bytes@.take(WORD_LEN * i);
            assert(now.take(now.len() - WORD_LEN) =~= bytes@.take(WORD_LEN * (i - 1)));
            assert(now.skip(now.len() - WORD_LEN) =~= chunk@);
        }
    }
    assert(bytes@.take(WORD_LEN * i) =~= bytes@);
    words
}

/// Whether `a` and `b` hold the same words.
pub fn same_words(a: &[u64], b: &[u64]) -> (same: bool)
    ensures
        same == (a@ == b@),
{
    if a.len() != b.len() {
        return false;
    }
    let mut i: usize = 0;
    while i < a.len()
        invariant
            i <= a.len(),
            a.len() == b.len(),
            a@.take(i as int) == b@.take(i as int),
        decreases a.len() - i,
    {
        if a[i] != b[i] {
            return false;
        }
        i += 1;
        assert(a@.take(i as int) =~= a@.take(i - 1).push(a@[i - 1]));
        assert(b@.take(i as int) =~= b@.take(i - 1).push(b@[i - 1]));
    }
    assert(a@.take(i as int) =~= a@);
    assert(b@.take(i as int) =~= b@);
    true
}

/// Lays out the statement for `nonce`, the words of the circuit and the
/// public input.
pub fn encode_statement(nonce: &[u8], circuit: &[u64], public: &[u64]) -> (out: Vec<u8>)
    ensures
        out@ == statement(nonce@, circuit@, public@),
{
    let mut out: Vec<u8> = Vec::new();
    append_bytes(&mut out, nonce);
    append_words(&mut out, circuit);
    append_words(&mut out, public);
    proof {
        lemma_words_bytes_concat(circuit@, public@);
        assert(out@ =~= nonce@ + (words_bytes(circuit@) + words_bytes(public@)));
    }
    out
}

/// Whether `proof` can be read as a circuit proof.
pub fn is_well_formed_proof(proof: &[u8]) -> (ok: bool)
    ensures
        ok == well_formed_proof(proof@),
{
    starts_with_header(proof) && proof.len() >= MIN_PROOF_LEN && (proof.len() - MIN_PROOF_LEN)
        % WORD_LEN == 0
}

} // verus!
