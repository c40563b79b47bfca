//! The byte layout of a proof: a fixed header followed by the statement that
//! the proof binds.

use vstd::prelude::*;

verus! {

/// Number of bytes in the header.
pub const HEADER_LEN: usize = 9;

/// The header that opens every proof: the tag `ZKPROOF_`, then the
/// delimiter `_`.
pub open spec fn header() -> Seq<u8> {
    seq![0x5au8, 0x4bu8, 0x50u8, 0x52u8, 0x4fu8, 0x4fu8, 0x46u8, 0x5fu8, 0x5fu8]
}

/// The proof that binds `statement`: the header, then the statement itself.
pub open spec fn sealed(statement: Seq<u8>) -> Seq<u8> {
    header() + statement
}

/// Whether `proof` opens with the header.
pub open spec fn has_header(proof: Seq<u8>) -> bool {
    proof.len() >= HEADER_LEN && proof.subrange(0, HEADER_LEN as int) == header()
}

/// A sealed statement can be read back: two statements with the same seal
/// are the same statement.
pub proof fn lemma_sealed_injective(a: Seq<u8>, b: Seq<u8>)
    requires
        sealed(a) == sealed(b),
    ensures
        a == b,
{
    assert(a =~= sealed(a).subrange(HEADER_LEN as int, sealed(a).len() as int));
    assert(b =~= sealed(b).subrange(HEADER_LEN as int, sealed(b).len() as int));
}

/// A sequence is sealed exactly when it opens with the header, and then it
/// seals what follows the header.
pub proof fn lemma_sealed_shape(proof: Seq<u8>)
    ensures
        has_header(proof) <==> proof == sealed(proof.skip(HEADER_LEN as int)),
        forall|statement: Seq<u8>| #[trigger] sealed(statement) == proof ==> has_header(proof),
{
    if has_header(proof) {
        assert(proof =~= proof.subrange(0, HEADER_LEN as int) + proof.skip(HEADER_LEN as int));
    }
    if proof == sealed(proof.skip(HEADER_LEN as int)) {
        assert(proof.subrange(0, HEADER_LEN as int) =~= header());
    }
    assert forall|statement: Seq<u8>| #[trigger] sealed(statement) == proof implies has_header(
        proof,
    ) by {
        assert(sealed(statement).subrange(0, HEADER_LEN as int) =~= header());
    }
}

fn header_byte(i: usize) -> (b: u8)
    requires
        i < HEADER_LEN,
    ensures
        b == header()[i as int],
{
    if i == 0 {
        0x5a
    } else if i == 1 {
        0x4b
    } else if i == 2 {
        0x50
    } else if i == 3 {
        0x52
    } else if i == 4 || i == 5 {
        0x4f
    } else if i == 6 {
        0x46
    } else {
        0x5f
    }
}

/// Appends `bytes` to `out`.
pub fn append_bytes(out: &mut Vec<u8>, bytes: &[u8])
    ensures
        final(out)@ == old(out)@ + bytes@,
{
    let mut i: usize = 0;
    while i < bytes.len()
        invariant
            i <= bytes.len(),
            out@ == old(out)@ + bytes@.take(i as int),
        decreases bytes.len() - i,
    {
        out.push(bytes[i]);
        i += 1;
        assert(bytes@.take(i as int) =~= bytes@.take(i - 1).push(bytes@[i - 1]));
    }
    assert(bytes@.take(i as int) =~= bytes@);
}

/// Whether `a` and `b` hold the same bytes.
pub fn same_bytes(a: &[u8], b: &[u8]) -> (same: bool)
    ensures
        same == (a@ == b@),
{
    if a.len() != b.len() {
        return false;
    }
    let mut i: usize = 0;
    while i < a.len()
        invariant
            i <= a.len(),
            a.len() == b.len(),
            a@.take(i as int) == b@.take(i as int),
        decreases a.len() - i,
    {
        if a[i] != b[i] {
            return false;
        }
        i += 1;
        assert(a@.take(i as int) =~= a@.take(i - 1).push(a@[i - 1]));
        assert(b@.take(i as int) =~= b@.take(i - 1).push(b@[i - 1]));
    }
    assert(a@.take(i as int) =~= a@);
    assert(b@.take(i as int) =~= b@);
    true
}

/// Builds the proof that binds `statement`.
pub fn seal(statement: &[u8]) -> (proof: Vec<u8>)
    ensures
        proof@ == sealed(statement@),
{
    let mut proof: Vec<u8> = Vec::new();
    let mut i: usize = 0;
    while i < HEADER_LEN
        invariant
            i <= HEADER_LEN,
            proof@ == header().take(i as int),
        decreases HEADER_LEN - i,
    {
        proof.push(header_byte(i));
        i += 1;
        assert(header().take(i as int) =~= header().take(i - 1).push(header()[i - 1]));
    }
    assert(header().take(HEADER_LEN as int) =~= header());
    append_bytes(&mut proof, statement);
    proof
}

/// Whether `proof` opens with the header.
pub fn starts_with_header(proof: &[u8]) -> (ok: bool)
    ensures
        ok == has_header(proof@),
{
    if proof.len() < HEADER_LEN {
        return false;
    }
    let mut i: usize = 0;
    while i < HEADER_LEN
        invariant
            i <= HEADER_LEN <= proof.len(),
            proof@.take(i as int) == header().take(i as int),
        decreases HEADER_LEN - i,
    {
        if proof[i] != header_byte(i) {
            assert(proof@.subrange(0, HEADER_LEN as int)[i as int] != header()[i as int]);
            return false;
        }
        i += 1;
        assert(header().take(i as int) =~= header().take(i - 1).push(header()[i - 1]));
        assert(proof@.take(i as int) =~= proof@.take(i - 1).push(proof@[i - 1]));
    }
    assert(header().take(HEADER_LEN as int) =~= header());
    assert(proof@.take(HEADER_LEN as int) =~= proof@.subrange(0, HEADER_LEN as int));
    true
}

/// Whether `proof` is the proof that binds `statement`, byte for byte.
pub fn is_sealed(proof: &[u8], statement: &[u8]) -> (ok: bool)
    ensures
        ok == (proof@ == sealed(statement@)),
{
    proof {
        lemma_sealed_shape(proof@);
    }
    if !starts_with_header(proof) {
        return false;
    }
    let rest = vstd::slice::slice_subrange(proof, HEADER_LEN, proof.len());
    assert(rest@ =~= proof@.skip(HEADER_LEN as int));
    let same = same_bytes(rest, statement);
    proof {
        if proof@ == sealed(statement@) {
            lemma_sealed_injective(rest@, statement@);
        }
    }
    same
}

} // verus!
