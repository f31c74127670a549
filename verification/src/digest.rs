//! The root digest of a key-value state.
//!
//! The digest of a state is the exclusive-or of one SHA-256 digest for each of
//! its entries. It is defined on the map itself, so two stores that hold the
//! same entries have the same root however they came to hold them. It is a
//! fingerprint by which nodes compare their states, not a tree: it proves of
//! no single entry that the state holds it.

use vstd::prelude::*;
use vstd::string::*;
use vstd::utf8::encode_utf8;
use vstd::set::fold::*;
use sha2::Digest;
use crate::key::Key;

verus! {

/// The number of bytes of a digest.
pub const DIGEST_LEN: usize = 32;

/// The SHA-256 digest of `data`, as the `sha2` crate computes it.
pub uninterp spec fn sha256(data: Seq<u8>) -> Seq<u8>;

/// Calls `sha2::Sha256::digest` on `data` and hands out the 32 bytes of its
/// output.
///
/// Assumed: the output is the SHA-256 digest of `data`, a function of the
/// bytes of `data` alone, and it is 32 bytes long.
#[verifier::external_body]
fn sha256_bytes(data: &[u8]) -> (digest: Vec<u8>)
    ensures
        digest@ == sha256(data@),
        digest@.len() == DIGEST_LEN,
{
    sha2::Sha256::digest(data).to_vec()
}

/// The digest of the entry that holds `value` under `key`: the digest of the
/// key's own digest followed by the value.
pub open spec fn entry_digest(key: Seq<char>, value: Seq<u8>) -> Seq<u8> {
    sha256(sha256(encode_utf8(key)) + value)
}

/// The bytes of `a`, each combined by exclusive-or with the byte of `b` at
/// the same place.
pub open spec fn xor_bytes(a: Seq<u8>, b: Seq<u8>) -> Seq<u8> {
    Seq::new(a.len(), |i: int| a[i] ^ b[i])
}

/// The digest of the state without entries: 32 zero bytes.
pub open spec fn empty_digest() -> Seq<u8> {
    Seq::new(DIGEST_LEN as nat, |i: int| 0u8)
}

/// The step by which an entry enters the digest of a state.
pub open spec fn absorb() -> spec_fn(Seq<u8>, (Seq<char>, Seq<u8>)) -> Seq<u8> {
    |acc: Seq<u8>, entry: (Seq<char>, Seq<u8>)| xor_bytes(acc, entry_digest(entry.0, entry.1))
}

/// The root digest of the key-value state `state`.
pub open spec fn state_digest(state: Map<Seq<char>, Seq<u8>>) -> Seq<u8> {
    state.kv_pairs().fold(empty_digest(), absorb())
}

/// The order in which entries enter a digest does not matter.
pub proof fn lemma_absorb_commutes()
    ensures
        is_fun_commutative(absorb()),
{
    assert forall|a1: (Seq<char>, Seq<u8>), a2: (Seq<char>, Seq<u8>), b: Seq<u8>|
        #[trigger] absorb()(absorb()(b, a2), a1) == absorb()(absorb()(b, a1), a2) by {
        let d1 = entry_digest(a1.0, a1.1);
        let d2 = entry_digest(a2.0, a2.1);
        let left = xor_bytes(xor_bytes(b, d2), d1);
        let right = xor_bytes(xor_bytes(b, d1), d2);
        assert forall|i: int| 0 <= i < b.len() implies left[i] == right[i] by {
            let x = b[i];
            let y = d1[i];
            let z = d2[i];
            assert((x ^ z) ^ y == (x ^ y) ^ z) by (bit_vector);
        }
        assert(left =~= right);
    }
}

/// The state without entries has the empty digest.
pub proof fn lemma_digest_empty()
    ensures
        state_digest(Map::<Seq<char>, Seq<u8>>::empty()) == empty_digest(),
        Map::<Seq<char>, Seq<u8>>::empty().kv_pairs().finite(),
{
    let pairs = Map::<Seq<char>, Seq<u8>>::empty().kv_pairs();
    assert(pairs =~= Set::<(Seq<char>, Seq<u8>)>::empty());
    lemma_fold_empty(empty_digest(), absorb());
}

/// A new entry enters the digest of a state by one exclusive-or.
pub proof fn lemma_digest_insert(state: Map<Seq<char>, Seq<u8>>, key: Seq<char>, value: Seq<u8>)
    requires
        state.kv_pairs().finite(),
        !state.contains_key(key),
    ensures
        state.insert(key, value).kv_pairs().finite(),
        state_digest(state.insert(key, value)) == xor_bytes(
            state_digest(state),
            entry_digest(key, value),
        ),
{
    let pairs = state.kv_pairs();
    assert(state.insert(key, value).kv_pairs() =~= pairs.insert((key, value)));
    lemma_absorb_commutes();
    lemma_fold_insert(pairs, empty_digest(), absorb(), (key, value));
}

/// The digest of one entry.
pub fn digest_entry(key: &Key, value: &Vec<u8>) -> (digest: Vec<u8>)
    ensures
        digest@ == entry_digest(key@, value@),
        digest@.len() == DIGEST_LEN,
{
    let mut buffer = sha256_bytes(key.path().as_bytes());
    let ghost key_digest = buffer@;
    buffer.extend_from_slice(value.as_slice());
    assert(buffer@ =~= key_digest + value@);
    sha256_bytes(buffer.as_slice())
}

/// The digest of the state without entries.
pub fn zero_digest() -> (digest: Vec<u8>)
    ensures
        digest@ == empty_digest(),
{
    let mut digest: Vec<u8> = Vec::new();
    let mut i: usize = 0;
    while i < DIGEST_LEN
        invariant
            i <= DIGEST_LEN,
            digest@.len() == i,
            forall|j: int| 0 <= j < i ==> digest@[j] == 0u8,
        decreases DIGEST_LEN - i,
    {
        digest.push(0u8);
        i += 1;
    }
    assert(digest@ =~= empty_digest());
    digest
}

/// Combines `other` into `acc` by exclusive-or, byte by byte.
pub fn xor_into(acc: &mut Vec<u8>, other: &Vec<u8>)
    requires
        old(acc)@.len() <= other@.len(),
    ensures
        final(acc)@ == xor_bytes(old(acc)@, other@),
{
    let ghost before = acc@;
    let mut i: usize = 0;
    while i < acc.len()
        invariant
            i <= acc@.len(),
            acc@.len() == before.len(),
            before.len() <= other@.len(),
            forall|j: int| 0 <= j < i ==> acc@[j] == before[j] ^ other@[j],
            forall|j: int| i <= j < acc@.len() ==> acc@[j] == before[j],
        decreases acc@.len() - i,
    {
        let byte = acc[i] ^ other[i];
        acc.set(i, byte);
        i += 1;
    }
    assert(acc@ =~= xor_bytes(before, other@));
}

} // verus!
