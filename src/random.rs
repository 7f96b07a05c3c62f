//! Randomness for new DNA: a seed, the caller and the call's index are
//! encoded together and hashed to sixteen bytes.
use vstd::prelude::*;
use parity_scale_codec::Encode;

verus! {

/// The eight little-endian bytes of `x`.
pub open spec fn u64_le_bytes(x: u64) -> Seq<u8> {
    Seq::new(8, |i: int| ((x >> (8 * i) as u64) & 0xffu64) as u8)
}

/// The four little-endian bytes of `x`.
pub open spec fn u32_le_bytes(x: u32) -> Seq<u8> {
    Seq::new(4, |i: int| ((x >> (8 * i) as u32) & 0xffu32) as u8)
}

/// The SCALE encoding of the tuple `(seed, sender, index)`: the seed's bytes
/// as they are, the sender in little-endian order, then a tag byte for the
/// optional index (0 for none, 1 followed by its little-endian bytes).
pub open spec fn payload_bytes(seed: Seq<u8>, sender: u64, index: Option<u32>) -> Seq<u8> {
    seed + u64_le_bytes(sender) + match index {
        None => seq![0u8],
        Some(x) => seq![1u8] + u32_le_bytes(x),
    }
}

/// The 128-bit Blake2b digest of `data`.
pub uninterp spec fn blake2_128_of(data: Seq<u8>) -> Seq<u8>;

/// Relies on parity_scale_codec's `Encode` for a tuple of a byte array, a
/// `u64` and an `Option<u32>`: the fields' encodings in order, an array as
/// its bytes, integers little-endian, an option as a tag byte and the value.
#[verifier::external_body]
fn encode_payload(seed: &[u8; 32], sender: u64, index: Option<u32>) -> (r: Vec<u8>)
    ensures
        r@ == payload_bytes(seed@, sender, index),
{
    (*seed, sender, index).encode()
}

/// Relies on sp_io::hashing::blake2_128: the 128-bit Blake2b digest, a
/// function of the bytes alone.
#[verifier::external_body]
fn blake2_128(data: &Vec<u8>) -> (r: [u8; 16])
    ensures
        r@ == blake2_128_of(data@),
{
    sp_io::hashing::blake2_128(data.as_slice())
}

/// The DNA drawn for `sender` from `seed` at the call with index `index`.
pub open spec fn random_dna(seed: Seq<u8>, sender: u64, index: Option<u32>) -> Seq<u8> {
    blake2_128_of(payload_bytes(seed, sender, index))
}

/// Hashes the encoded `(seed, sender, index)` to sixteen bytes.
pub fn random_value(seed: &[u8; 32], sender: u64, index: Option<u32>) -> (r: [u8; 16])
    ensures
        r@ == random_dna(seed@, sender, index),
{
    let payload = encode_payload(seed, sender, index);
    blake2_128(&payload)
}

/// A randomness source that hands out one fixed seed.
#[derive(Clone, Copy, Debug, PartialEq, Eq)]
pub struct MockRandom {
    pub payload: [u8; 32],
}

impl MockRandom {
    /// The seed for the current call.
    pub fn random_seed(&self) -> (r: [u8; 32])
        ensures
            r == self.payload,
    {
        self.payload
    }
}

} // verus!
