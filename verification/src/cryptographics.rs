//! The two primitives the scheme draws on: a random scalar and a keyed hash
//! that is read as a number.

use crate::arith::le_value;
use crate::number::Number;
use hmac::{Hmac, Mac};
use num_bigint::{BigUint, RandBigInt};
use rand::Rng;
use sha2::Sha256;
use vstd::prelude::*;

verus! {

/// The HMAC-SHA256 tag of `message` under `key`.
pub uninterp spec fn hmac_sha256(key: Seq<u8>, message: Seq<u8>) -> Seq<u8>;

/// The byte strings that a list of chunks holds.
pub open spec fn chunk_views(data: Seq<Vec<u8>>) -> Seq<Seq<u8>> {
    data.map_values(|chunk: Vec<u8>| chunk@)
}

/// The number that `chunks` hash to under `key`: the chunks are joined in
/// order with nothing between them, and the tag of the joined bytes is read
/// least significant byte first.
pub open spec fn hash_value(key: Seq<u8>, chunks: Seq<Seq<u8>>) -> nat {
    le_value(hmac_sha256(key, chunks.flatten()))
}

/// The hash is a function of the key and of the joined bytes alone: equal
/// keys and equal joined bytes give equal numbers, however the bytes are cut
/// into chunks.
pub proof fn law_hash_is_determined_by_joined_bytes(
    key: Seq<u8>,
    chunks: Seq<Seq<u8>>,
    other: Seq<Seq<u8>>,
)
    requires
        chunks.flatten() == other.flatten(),
    ensures
        hash_value(key, chunks) == hash_value(key, other),
{
}

/// `RandBigInt::gen_biguint_range` on `rand::thread_rng()`, from zero up to
/// `bound`; it panics on an empty range. Whatever is drawn lies below `bound`.
#[verifier::external_body]
pub(crate) fn random_number(bound: &Number) -> (n: Number)
    requires
        bound@ > 0,
    ensures
        n@ < bound@,
{
    let bound = BigUint::from_bytes_le(&bound.bytes);
    let drawn = rand::thread_rng().gen_biguint_range(&BigUint::ZERO, &bound);
    Number { bytes: drawn.to_bytes_le() }
}

/// `Rng::gen_range` on `rand::thread_rng()`, over `low..high`; it panics on
/// an empty range. Whatever is drawn lies in the range.
#[verifier::external_body]
pub(crate) fn random_in_range(low: u64, high: u64) -> (n: u64)
    requires
        low < high,
    ensures
        low <= n < high,
{
    rand::thread_rng().gen_range(low..high)
}

/// `Hmac::<Sha256>`, keyed by `new_from_slice` (which takes a key of any
/// length), fed `message` once and finalized: the tag.
#[verifier::external_body]
fn hmac_sha256_tag(key: &[u8], message: &[u8]) -> (tag: Vec<u8>)
    ensures
        tag@ == hmac_sha256(key@, message@),
{
    let mac = Hmac::<Sha256>::new_from_slice(key).unwrap();
    mac.chain_update(message).finalize().into_bytes().to_vec()
}

/// The bytes of all `data` chunks, joined in order.
pub fn concat_chunks(data: &[Vec<u8>]) -> (joined: Vec<u8>)
    ensures
        joined@ == chunk_views(data@).flatten(),
{
    let ghost chunks = chunk_views(data@);
    let mut joined: Vec<u8> = Vec::new();
    let mut k: usize = 0;
    while k < data.len()
        invariant
            k <= data.len(),
            chunks == chunk_views(data@),
            joined@ == chunks.subrange(0, k as int).flatten(),
        decreases data.len() - k,
    {
        let ghost before = joined@;
        joined.extend_from_slice(data[k].as_slice());
        proof {
            let done = chunks.subrange(0, k as int);
            assert(chunks.subrange(0, k + 1) =~= done.push(chunks[k as int]));
            done.lemma_flatten_push(chunks[k as int]);
            assert(joined@ =~= before + chunks[k as int]);
        }
        k += 1;
    }
    proof {
        assert(chunks.subrange(0, k as int) =~= chunks);
    }
    joined
}

/// Hashes `data` under `key` to a number: HMAC-SHA256 over the chunks joined
/// in order, with no separator and no length, the tag read as a little-endian
/// integer. The result is not reduced.
pub fn hash_to_number(key: &[u8], data: &[Vec<u8>]) -> (n: Number)
    ensures
        n@ == hash_value(key@, chunk_views(data@)),
{
    let message = concat_chunks(data);
    let tag = hmac_sha256_tag(key, message.as_slice());
    Number::from_bytes_le(tag.as_slice())
}

} // verus!
