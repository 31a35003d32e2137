//! SHA-256 over a stream of byte chunks.

use sha2::{Digest, Sha256};
use vstd::prelude::*;

verus! {

/// The hasher of the `sha2` crate. Nothing inside it is visible here.
#[verifier::external_type_specification]
#[verifier::external_body]
pub struct ExSha256(Sha256);

/// The bytes that a hasher has taken in since it was made, in order.
pub uninterp spec fn absorbed(hasher: Sha256) -> Seq<u8>;

/// The SHA-256 digest of a message.
pub uninterp spec fn sha256(message: Seq<u8>) -> Seq<u8>;

/// The number of bytes in a digest.
pub const DIGEST_LEN: usize = 32;

/// The hasher counts its input in bits in a `u64`, so a message has to stay
/// below this many bytes.
pub const MESSAGE_LIMIT: u64 = 0x2000_0000_0000_0000;

/// `Sha256::new`: a hasher that has taken in nothing yet.
#[verifier::external_body]
pub(crate) fn hasher_new() -> (hasher: Sha256)
    ensures
        absorbed(hasher) == Seq::<u8>::empty(),
{
    Sha256::new()
}

/// `Sha256::input`: the hasher takes in `chunk` after what it already holds.
/// The crate adds the chunk's length in bits to a `u64` counter, which the
/// bound on the total keeps from overflowing.
#[verifier::external_body]
pub(crate) fn hasher_input(hasher: &mut Sha256, chunk: &Vec<u8>)
    requires
        absorbed(*old(hasher)).len() + chunk@.len() < MESSAGE_LIMIT,
    ensures
        absorbed(*final(hasher)) == absorbed(*old(hasher)) + chunk@,
{
    hasher.input(chunk)
}

/// `Sha256::result`: the digest of everything the hasher took in, which the
/// crate hands out as an array of 32 bytes.
#[verifier::external_body]
pub(crate) fn hasher_result(hasher: Sha256) -> (digest: Vec<u8>)
    ensures
        digest@ == sha256(absorbed(hasher)),
        digest@.len() == DIGEST_LEN,
{
    hasher.result().to_vec()
}

/// Taking one more chunk appends that chunk to the flattened prefix.
pub proof fn lemma_flatten_take_next(chunks: Seq<Seq<u8>>, i: int)
    requires
        0 <= i < chunks.len(),
    ensures
        chunks.take(i + 1).flatten() == chunks.take(i).flatten() + chunks[i],
{
    assert(chunks.take(i + 1) =~= chunks.take(i).push(chunks[i]));
    chunks.take(i).lemma_flatten_push(chunks[i]);
}

/// A flattened prefix is no longer than the whole.
pub proof fn lemma_flatten_take_len(chunks: Seq<Seq<u8>>, i: int)
    requires
        0 <= i <= chunks.len(),
    ensures
        chunks.take(i).flatten().len() <= chunks.flatten().len(),
    decreases chunks.len() - i,
{
    if i < chunks.len() {
        lemma_flatten_take_next(chunks, i);
        lemma_flatten_take_len(chunks, i + 1);
    } else {
        assert(chunks.take(i) =~= chunks);
    }
}

} // verus!
