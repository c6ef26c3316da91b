//! Keccak-256.

use crate::address::{Address, H256};
use crate::bytes::{read_u64_be, u64_from_be};
use vstd::prelude::*;

verus! {

/// The Keccak-256 digest of a byte string.
pub uninterp spec fn keccak256(data: Seq<u8>) -> Seq<u8>;

/// Computes the Keccak-256 digest of a byte string.
///
/// Calls `keccak_hash::keccak`, which hashes its argument with Keccak-256 into a 32-byte
/// value. The contract gives that value its name and states its length.
#[verifier::external_body]
pub(crate) fn keccak_digest(data: &[u8]) -> (r: Vec<u8>)
    ensures
        r@ == keccak256(data@),
        r@.len() == 32,
{
    keccak_hash::keccak(data).0.to_vec()
}

/// The 128-bit number that sixteen bytes spell, the most significant first.
pub open spec fn u128_from_be(b: Seq<u8>) -> nat
    recommends
        b.len() == 16,
{
    u64_from_be(b.subrange(0, 8)) * 0x1_0000_0000_0000_0000 + u64_from_be(b.subrange(8, 16))
}

/// Reads the 128-bit number that the sixteen bytes from position `at` spell.
pub fn read_u128_be(b: &[u8], at: usize) -> (r: u128)
    requires
        at + 16 <= b.len(),
    ensures
        r as nat == u128_from_be(b@.subrange(at as int, at + 16)),
{
    let hi = read_u64_be(b, at);
    let lo = read_u64_be(b, at + 8);
    assert(b@.subrange(at as int, at + 16).subrange(0, 8) =~= b@.subrange(at as int, at + 8));
    assert(b@.subrange(at as int, at + 16).subrange(8, 16) =~= b@.subrange(at + 8, at + 16));
    (hi as u128) * 0x1_0000_0000_0000_0000 + (lo as u128)
}

/// The hash that thirty-two bytes spell.
pub open spec fn h256_from_bytes(b: Seq<u8>) -> H256
    recommends
        b.len() == 32,
{
    H256 { hi: u128_from_be(b.subrange(0, 16)) as u128, lo: u128_from_be(b.subrange(16, 32)) as u128 }
}

/// The address that the last twenty of thirty-two bytes spell.
pub open spec fn address_from_hash(b: Seq<u8>) -> Address
    recommends
        b.len() == 32,
{
    Address {
        hi: (b[12] as nat * 0x100_0000 + b[13] as nat * 0x1_0000 + b[14] as nat * 0x100 + b[15] as nat) as u32,
        lo: u128_from_be(b.subrange(16, 32)) as u128,
    }
}

impl H256 {
    /// The hash that thirty-two bytes spell.
    pub fn from_slice(b: &[u8]) -> (r: H256)
        requires
            b.len() == 32,
        ensures
            r == h256_from_bytes(b@),
    {
        H256 { hi: read_u128_be(b, 0), lo: read_u128_be(b, 16) }
    }
}

impl Address {
    /// The address that the last twenty bytes of a 32-byte hash spell.
    pub fn from_hash(b: &[u8]) -> (r: Address)
        requires
            b.len() == 32,
        ensures
            r == address_from_hash(b@),
    {
        let hi: u32 = (b[12] as u32) * 0x100_0000 + (b[13] as u32) * 0x1_0000 + (b[14] as u32) * 0x100 + (
        b[15] as u32);
        Address { hi, lo: read_u128_be(b, 16) }
    }
}

/// The Keccak-256 hash of a byte string.
pub fn keccak(data: &[u8]) -> (r: H256)
    ensures
        r == h256_from_bytes(keccak256(data@)),
{
    let digest = keccak_digest(data);
    H256::from_slice(digest.as_slice())
}

} // verus!
