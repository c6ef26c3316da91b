//! The storage schema that maps a block's hash to the version of its metadata event.
//!
//! ```text
//! |<--key-->|<-value->|
//! |   hash  | block_ver |
//! ```

use crate::address::H256;
use crate::bytes::{lemma_u64_be_round_trip, push_u64_be, u64_be, u64_from_be};
use crate::hash::h256_from_bytes;
use byteorder::{BigEndian, ReadBytesExt};
use vstd::prelude::*;

verus! {

/// The version of the ledger at which a transaction stands.
pub type Version = u64;

/// The hash of a block.
#[derive(Clone, Copy, Debug, PartialEq, Eq, Structural)]
pub struct HashValue {
    pub hash: H256,
}

/// Why stored bytes could not be decoded.
#[derive(Clone, Copy, Debug, PartialEq, Eq, Structural)]
pub enum SchemaError {
    /// The data has another length than the schema asks for.
    UnexpectedDataLength { expected: usize, got: usize },
}

/// The thirty-two bytes of a hash.
pub open spec fn h256_bytes(h: H256) -> Seq<u8> {
    u64_be((h.hi / 0x1_0000_0000_0000_0000) as u64) + u64_be((h.hi % 0x1_0000_0000_0000_0000) as u64) + u64_be(
        (h.lo / 0x1_0000_0000_0000_0000) as u64,
    ) + u64_be((h.lo % 0x1_0000_0000_0000_0000) as u64)
}

/// Checks that data has the length that a schema asks for.
pub fn ensure_slice_len_eq(data: &[u8], len: usize) -> (r: Result<(), SchemaError>)
    ensures
        data.len() == len ==> r is Ok,
        data.len() != len ==> r == Err::<(), SchemaError>(
            SchemaError::UnexpectedDataLength { expected: len, got: data.len() },
        ),
{
    if data.len() == len {
        Ok(())
    } else {
        Err(SchemaError::UnexpectedDataLength { expected: len, got: data.len() })
    }
}

/// Reads a 64-bit number from the front of a byte string, the most significant byte
/// first; `None` where the string is shorter than eight bytes.
///
/// Calls `ReadBytesExt::read_u64::<BigEndian>` of `byteorder` on the slice, which reads
/// eight bytes and fails where the slice ends before them.
#[verifier::external_body]
fn read_u64_big_endian(data: &[u8]) -> (r: Option<u64>)
    ensures
        data.len() >= 8 ==> r is Some && r->0 as nat == u64_from_be(data@.subrange(0, 8)),
        data.len() < 8 ==> r is None,
{
    let mut rest = data;
    rest.read_u64::<BigEndian>().ok()
}

impl HashValue {
    /// The key under which a block's hash is stored: its thirty-two bytes.
    pub fn encode_key(&self) -> (r: Result<Vec<u8>, SchemaError>)
        ensures
            r matches Ok(key) && key@ == h256_bytes(self.hash),
    {
        let mut out: Vec<u8> = Vec::new();
        push_u64_be(&mut out, (self.hash.hi / 0x1_0000_0000_0000_0000) as u64);
        push_u64_be(&mut out, (self.hash.hi % 0x1_0000_0000_0000_0000) as u64);
        push_u64_be(&mut out, (self.hash.lo / 0x1_0000_0000_0000_0000) as u64);
        push_u64_be(&mut out, (self.hash.lo % 0x1_0000_0000_0000_0000) as u64);
        assert(out@ =~= h256_bytes(self.hash));
        Ok(out)
    }

    /// The hash that a stored key spells. The key has to be thirty-two bytes long.
    pub fn decode_key(data: &[u8]) -> (r: Result<HashValue, SchemaError>)
        ensures
            data.len() == 32 ==> r == Ok::<HashValue, SchemaError>(HashValue { hash: h256_from_bytes(data@) }),
            data.len() != 32 ==> r == Err::<HashValue, SchemaError>(
                SchemaError::UnexpectedDataLength { expected: 32, got: data.len() },
            ),
    {
        match ensure_slice_len_eq(data, 32) {
            Ok(()) => Ok(HashValue { hash: H256::from_slice(data) }),
            Err(e) => Err(e),
        }
    }
}

/// The value under which a version is stored: its eight bytes, the most significant
/// first.
pub fn encode_value(version: &Version) -> (r: Result<Vec<u8>, SchemaError>)
    ensures
        r matches Ok(value) && value@ == u64_be(*version),
{
    let mut out: Vec<u8> = Vec::new();
    push_u64_be(&mut out, *version);
    Ok(out)
}

/// The version that a stored value spells. The value has to be eight bytes long.
pub fn decode_value(data: &[u8]) -> (r: Result<Version, SchemaError>)
    ensures
        data.len() == 8 ==> (r matches Ok(v) && v as nat == u64_from_be(data@)),
        data.len() != 8 ==> r == Err::<Version, SchemaError>(
            SchemaError::UnexpectedDataLength { expected: 8, got: data.len() },
        ),
{
    match ensure_slice_len_eq(data, 8) {
        Ok(()) => {
            assert(data@.subrange(0, 8) =~= data@);
            match read_u64_big_endian(data) {
                Some(v) => Ok(v),
                None => Err(SchemaError::UnexpectedDataLength { expected: 8, got: data.len() }),
            }
        },
        Err(e) => Err(e),
    }
}

/// A version comes back from its stored value as it went in.
pub proof fn lemma_value_round_trip(version: Version)
    ensures
        u64_be(version).len() == 8,
        u64_from_be(u64_be(version)) == version as nat,
{
    lemma_u64_be_round_trip(version);
}

/// A hash comes back from its stored key as it went in.
pub proof fn lemma_key_round_trip(h: H256)
    ensures
        h256_bytes(h).len() == 32,
        h256_from_bytes(h256_bytes(h)) == h,
{
    let b = h256_bytes(h);
    let a0 = (h.hi / 0x1_0000_0000_0000_0000) as u64;
    let a1 = (h.hi % 0x1_0000_0000_0000_0000) as u64;
    let a2 = (h.lo / 0x1_0000_0000_0000_0000) as u64;
    let a3 = (h.lo % 0x1_0000_0000_0000_0000) as u64;
    lemma_u64_be_round_trip(a0);
    lemma_u64_be_round_trip(a1);
    lemma_u64_be_round_trip(a2);
    lemma_u64_be_round_trip(a3);
    assert(b.subrange(0, 16).subrange(0, 8) =~= u64_be(a0));
    assert(b.subrange(0, 16).subrange(8, 16) =~= u64_be(a1));
    assert(b.subrange(16, 32).subrange(0, 8) =~= u64_be(a2));
    assert(b.subrange(16, 32).subrange(8, 16) =~= u64_be(a3));
}

} // verus!
