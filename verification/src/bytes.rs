//! Helpers on byte strings.

use vstd::prelude::*;

verus! {

/// Whether two byte strings hold the same bytes.
pub fn bytes_eq(a: &[u8], b: &[u8]) -> (r: bool)
    ensures
        r == (a@ == b@),
{
    if a.len() != b.len() {
        return false;
    }
    let mut i: usize = 0;
    while i < a.len()
        invariant
            i <= a.len(),
            a.len() == b.len(),
            forall|j: int| 0 <= j < i ==> a@[j] == b@[j],
        decreases a.len() - i,
    {
        if a[i] != b[i] {
            return false;
        }
        i += 1;
    }
    assert(a@ =~= b@);
    true
}

/// A copy of a byte string.
pub fn copy_bytes(a: &[u8]) -> (r: Vec<u8>)
    ensures
        r@ == a@,
{
    let mut out: Vec<u8> = Vec::new();
    let mut i: usize = 0;
    while i < a.len()
        invariant
            i <= a.len(),
            out@ == a@.subrange(0, i as int),
        decreases a.len() - i,
    {
        out.push(a[i]);
        assert(out@ =~= a@.subrange(0, i + 1));
        i += 1;
    }
    assert(a@.subrange(0, a.len() as int) =~= a@);
    out
}


/// The eight bytes of a 64-bit number, the most significant first.
pub open spec fn u64_be(x: u64) -> Seq<u8> {
    seq![
        ((x / 0x100000000000000) % 256) as u8,
        ((x / 0x1000000000000) % 256) as u8,
        ((x / 0x10000000000) % 256) as u8,
        ((x / 0x100000000) % 256) as u8,
        ((x / 0x1000000) % 256) as u8,
        ((x / 0x10000) % 256) as u8,
        ((x / 0x100) % 256) as u8,
        ((x / 0x1) % 256) as u8,
    ]
}

/// The number that eight bytes spell, the most significant first.
pub open spec fn u64_from_be(b: Seq<u8>) -> nat
    recommends
        b.len() == 8,
{
    b[0] as nat * 0x100000000000000 + b[1] as nat * 0x1000000000000 + b[2] as nat * 0x10000000000
        + b[3] as nat * 0x100000000 + b[4] as nat * 0x1000000 + b[5] as nat * 0x10000
        + b[6] as nat * 0x100 + b[7] as nat * 0x1
}

/// A 64-bit number is the sum of its bytes, each with its weight.
pub proof fn lemma_u64_bytes_sum(x: u64)
    by (bit_vector)
    ensures
        x == ((x / 0x100000000000000) % 256) * 0x100000000000000
            + ((x / 0x1000000000000) % 256) * 0x1000000000000
            + ((x / 0x10000000000) % 256) * 0x10000000000 + ((x / 0x100000000) % 256) * 0x100000000
            + ((x / 0x1000000) % 256) * 0x1000000 + ((x / 0x10000) % 256) * 0x10000
            + ((x / 0x100) % 256) * 0x100 + ((x / 0x1) % 256) * 0x1,
{
}

/// Spelling a number and reading it back gives the number.
pub proof fn lemma_u64_be_round_trip(x: u64)
    ensures
        u64_be(x).len() == 8,
        u64_from_be(u64_be(x)) == x as nat,
{
    lemma_u64_bytes_sum(x);
}

/// Appends the eight bytes of a 64-bit number, the most significant first.
pub fn push_u64_be(out: &mut Vec<u8>, x: u64)
    ensures
        final(out)@ == old(out)@ + u64_be(x),
{
    out.push(((x / 0x100000000000000) % 256) as u8);
    out.push(((x / 0x1000000000000) % 256) as u8);
    out.push(((x / 0x10000000000) % 256) as u8);
    out.push(((x / 0x100000000) % 256) as u8);
    out.push(((x / 0x1000000) % 256) as u8);
    out.push(((x / 0x10000) % 256) as u8);
    out.push(((x / 0x100) % 256) as u8);
    out.push(((x / 0x1) % 256) as u8);
    assert(out@ =~= old(out)@ + u64_be(x));
}

/// Reads the 64-bit number that the eight bytes from position `at` spell.
pub fn read_u64_be(b: &[u8], at: usize) -> (r: u64)
    requires
        at + 8 <= b.len(),
    ensures
        r as nat == u64_from_be(b@.subrange(at as int, at + 8)),
{
    (b[at + 0] as u64) * 0x100000000000000 + (b[at + 1] as u64) * 0x1000000000000 + (b[at
        + 2] as u64) * 0x10000000000 + (b[at + 3] as u64) * 0x100000000 + (b[at
        + 4] as u64) * 0x1000000 + (b[at + 5] as u64) * 0x10000 + (b[at + 6] as u64) * 0x100 + (b[at
        + 7] as u64) * 0x1
}

} // verus!
