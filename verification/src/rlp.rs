//! The recursive-length-prefix encoding, as far as deriving a contract's address needs
//! it: a list of an address and a number.

use crate::address::Address;
use crate::bytes::{push_u64_be, u64_be};
use crate::uint::U256;
use vstd::prelude::*;

verus! {

/// The twenty bytes of an address.
pub open spec fn address_bytes(a: Address) -> Seq<u8> {
    u64_be(a.hi as u64).subrange(4, 8) + u64_be((a.lo / 0x1_0000_0000_0000_0000) as u64) + u64_be(
        (a.lo % 0x1_0000_0000_0000_0000) as u64,
    )
}

/// The thirty-two bytes of a 256-bit number, the most significant first.
pub open spec fn u256_be(n: U256) -> Seq<u8> {
    u64_be(n.l3) + u64_be(n.l2) + u64_be(n.l1) + u64_be(n.l0)
}

/// A byte string without the zero bytes at its front.
pub open spec fn strip_leading_zeros(b: Seq<u8>) -> Seq<u8>
    decreases b.len(),
{
    if b.len() > 0 && b[0] == 0 {
        strip_leading_zeros(b.subrange(1, b.len() as int))
    } else {
        b
    }
}

/// The encoding of a byte string shorter than 56 bytes: a single byte below `0x80` stands
/// for itself, anything else follows a byte that gives its length.
pub open spec fn rlp_short_string(b: Seq<u8>) -> Seq<u8>
    recommends
        b.len() < 56,
{
    if b.len() == 1 && b[0] < 0x80 {
        b
    } else {
        seq![(0x80 + b.len()) as u8] + b
    }
}

/// The encoding of the list of a sender's address and nonce. The nonce is written as a
/// number: without leading zero bytes.
pub open spec fn rlp_sender_nonce(sender: Address, nonce: U256) -> Seq<u8> {
    let payload = rlp_short_string(address_bytes(sender)) + rlp_short_string(
        strip_leading_zeros(u256_be(nonce)),
    );
    seq![(0xc0 + payload.len()) as u8] + payload
}

/// Appends the twenty bytes of an address.
pub fn push_address(out: &mut Vec<u8>, a: &Address)
    ensures
        final(out)@ == old(out)@ + address_bytes(*a),
{
    let x: u64 = a.hi as u64;
    out.push(((x / 0x100_0000) % 256) as u8);
    out.push(((x / 0x1_0000) % 256) as u8);
    out.push(((x / 0x100) % 256) as u8);
    out.push((x % 256) as u8);
    assert(out@ =~= old(out)@ + u64_be(a.hi as u64).subrange(4, 8));
    push_u64_be(out, (a.lo / 0x1_0000_0000_0000_0000) as u64);
    push_u64_be(out, (a.lo % 0x1_0000_0000_0000_0000) as u64);
    assert(out@ =~= old(out)@ + address_bytes(*a));
}

/// The bytes of a 256-bit number, the most significant first, without leading zero bytes.
pub fn u256_minimal_be(n: &U256) -> (r: Vec<u8>)
    ensures
        r@ == strip_leading_zeros(u256_be(*n)),
        r@.len() <= 32,
{
    let mut full: Vec<u8> = Vec::new();
    push_u64_be(&mut full, n.l3);
    push_u64_be(&mut full, n.l2);
    push_u64_be(&mut full, n.l1);
    push_u64_be(&mut full, n.l0);
    assert(full@ =~= u256_be(*n));
    let mut i: usize = 0;
    assert(full@.subrange(0, 32) =~= full@);
    while i < full.len() && full[i] == 0
        invariant
            i <= full.len(),
            full@.len() == 32,
            strip_leading_zeros(full@) == strip_leading_zeros(full@.subrange(i as int, 32)),
        decreases full.len() - i,
    {
        assert(full@.subrange(i as int, 32).subrange(1, 32 - i) =~= full@.subrange(i + 1, 32));
        i += 1;
    }
    let mut out: Vec<u8> = Vec::new();
    let ghost start = i;
    while i < full.len()
        invariant
            start <= i <= full.len(),
            full@.len() == 32,
            out@ == full@.subrange(start as int, i as int),
        decreases full.len() - i,
    {
        out.push(full[i]);
        assert(out@ =~= full@.subrange(start as int, i + 1));
        i += 1;
    }
    out
}

/// Appends the encoding of a byte string shorter than 56 bytes.
pub fn push_short_string(out: &mut Vec<u8>, b: &[u8])
    requires
        b.len() < 56,
    ensures
        final(out)@ == old(out)@ + rlp_short_string(b@),
{
    if b.len() == 1 && b[0] < 0x80 {
        out.push(b[0]);
        assert(out@ =~= old(out)@ + rlp_short_string(b@));
    } else {
        out.push(0x80 + b.len() as u8);
        let mut i: usize = 0;
        while i < b.len()
            invariant
                i <= b.len(),
                b.len() < 56,
                out@ == old(out)@ + seq![(0x80 + b.len()) as u8] + b@.subrange(0, i as int),
            decreases b.len() - i,
        {
            out.push(b[i]);
            assert(out@ =~= old(out)@ + seq![(0x80 + b.len()) as u8] + b@.subrange(0, i + 1));
            i += 1;
        }
        assert(b@.subrange(0, b.len() as int) =~= b@);
        assert(out@ =~= old(out)@ + rlp_short_string(b@));
    }
}

/// The encoding of the list of a sender's address and nonce.
pub fn encode_sender_nonce(sender: &Address, nonce: &U256) -> (r: Vec<u8>)
    ensures
        r@ == rlp_sender_nonce(*sender, *nonce),
{
    let mut addr: Vec<u8> = Vec::new();
    push_address(&mut addr, sender);
    let number = u256_minimal_be(nonce);
    let mut payload: Vec<u8> = Vec::new();
    push_short_string(&mut payload, addr.as_slice());
    push_short_string(&mut payload, number.as_slice());
    let mut out: Vec<u8> = Vec::new();
    out.push(0xc0 + payload.len() as u8);
    let mut i: usize = 0;
    while i < payload.len()
        invariant
            i <= payload.len(),
            payload@.len() <= 54,
            out@ == seq![(0xc0 + payload@.len()) as u8] + payload@.subrange(0, i as int),
        decreases payload.len() - i,
    {
        out.push(payload[i]);
        assert(out@ =~= seq![(0xc0 + payload@.len()) as u8] + payload@.subrange(0, i + 1));
        i += 1;
    }
    assert(payload@.subrange(0, payload.len() as int) =~= payload@);
    out
}

} // verus!
