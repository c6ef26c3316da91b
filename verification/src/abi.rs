//! The contract ABI, as far as the executor needs it: decoding one string, and encoding
//! the arguments `(string, bytes[])`.

use crate::bytes::{push_u64_be, read_u64_be, u64_be, u64_from_be};
use vstd::prelude::*;

verus! {

/// The number that a 32-byte word spells, the most significant byte first.
pub open spec fn word_value(w: Seq<u8>) -> nat
    recommends
        w.len() == 32,
{
    u64_from_be(w.subrange(0, 8)) * 0x1_0000_0000_0000_0000_0000_0000_0000_0000_0000_0000_0000_0000nat
        + u64_from_be(w.subrange(8, 16)) * 0x1_0000_0000_0000_0000_0000_0000_0000_0000nat + u64_from_be(
        w.subrange(16, 24),
    ) * 0x1_0000_0000_0000_0000 + u64_from_be(w.subrange(24, 32))
}

/// The byte string that ABI-encoded data holds as its only value, a string or `bytes`.
///
/// The first word is the offset of the value. At the offset stands a word with the
/// length, and after it the bytes. Whatever else the data holds is not looked at. There is
/// no value where the data is too short for the first word, the length word, or the bytes
/// that the length announces.
pub open spec fn decode_dynamic_bytes(data: Seq<u8>) -> Option<Seq<u8>> {
    if data.len() < 32 {
        None
    } else {
        let offset = word_value(data.subrange(0, 32));
        if offset + 32 > data.len() {
            None
        } else {
            let length = word_value(data.subrange(offset as int, offset as int + 32));
            if offset + 32 + length > data.len() {
                None
            } else {
                Some(data.subrange(offset as int + 32, offset as int + 32 + length as int))
            }
        }
    }
}

/// Reads the word at position `at` as a number that is at most `limit`; `None` where the
/// number is larger.
pub fn read_word_up_to(data: &[u8], at: usize, limit: usize) -> (r: Option<usize>)
    requires
        at + 32 <= data.len(),
    ensures
        word_value(data@.subrange(at as int, at + 32)) <= limit ==> r == Some(
            word_value(data@.subrange(at as int, at + 32)) as usize,
        ),
        word_value(data@.subrange(at as int, at + 32)) > limit ==> r is None,
{
    let ghost w = data@.subrange(at as int, at + 32);
    assert(w.subrange(0, 8) =~= data@.subrange(at as int, at + 8));
    assert(w.subrange(8, 16) =~= data@.subrange(at + 8, at + 16));
    assert(w.subrange(16, 24) =~= data@.subrange(at + 16, at + 24));
    assert(w.subrange(24, 32) =~= data@.subrange(at + 24, at + 32));
    let a = read_u64_be(data, at);
    let b = read_u64_be(data, at + 8);
    let c = read_u64_be(data, at + 16);
    let d = read_u64_be(data, at + 24);
    if a != 0 || b != 0 || c != 0 {
        return None;
    }
    if d > limit as u64 {
        return None;
    }
    Some(d as usize)
}

/// Decodes the byte string that ABI-encoded data holds as its only value.
pub fn decode_bytes(data: &[u8]) -> (r: Option<Vec<u8>>)
    ensures
        match r {
            Some(b) => decode_dynamic_bytes(data@) == Some(b@),
            None => decode_dynamic_bytes(data@) is None,
        },
{
    if data.len() < 32 {
        return None;
    }
    let offset = match read_word_up_to(data, 0, data.len() - 32) {
        Some(o) => o,
        None => {
            return None;
        },
    };
    let length = match read_word_up_to(data, offset, data.len() - 32 - offset) {
        Some(l) => l,
        None => {
            return None;
        },
    };
    let start = offset + 32;
    let mut out: Vec<u8> = Vec::new();
    let mut i: usize = 0;
    while i < length
        invariant
            i <= length,
            start + length <= data.len(),
            out@ == data@.subrange(start as int, start + i),
        decreases length - i,
    {
        out.push(data[start + i]);
        assert(out@ =~= data@.subrange(start as int, start + i + 1));
        i += 1;
    }
    Some(out)
}

/// A number below two to the power 64 as a 32-byte word.
pub open spec fn word(n: nat) -> Seq<u8>
    recommends
        n <= u64::MAX,
{
    Seq::new(24, |i: int| 0u8) + u64_be(n as u64)
}

/// The zero bytes that fill a byte string of the given length to a multiple of 32 bytes.
pub open spec fn padding(len: nat) -> Seq<u8> {
    Seq::new(((32 - len % 32) % 32) as nat, |i: int| 0u8)
}

/// The encoding of a string or of `bytes`: the length, then the bytes, filled with zero
/// bytes to a multiple of 32 bytes.
pub open spec fn encode_dynamic_bytes(b: Seq<u8>) -> Seq<u8> {
    word(b.len()) + b + padding(b.len())
}

/// The encodings of the first `k` items, one after another.
pub open spec fn tails(items: Seq<Seq<u8>>, k: nat) -> Seq<u8>
    decreases k,
{
    if k == 0 {
        Seq::empty()
    } else {
        tails(items, (k - 1) as nat) + encode_dynamic_bytes(items[k - 1])
    }
}

/// The offsets of the first `k` items, one word each. An offset counts from the first of
/// the offsets.
pub open spec fn heads(items: Seq<Seq<u8>>, k: nat) -> Seq<u8>
    decreases k,
{
    if k == 0 {
        Seq::empty()
    } else {
        heads(items, (k - 1) as nat) + word(32 * items.len() + tails(items, (k - 1) as nat).len())
    }
}

/// The encoding of `bytes[]`: the number of items, their offsets, their encodings.
pub open spec fn encode_bytes_array(items: Seq<Seq<u8>>) -> Seq<u8> {
    word(items.len()) + heads(items, items.len()) + tails(items, items.len())
}

/// The encoding of the arguments `(string, bytes[])`: the offset of each, then the string,
/// then the array.
pub open spec fn encode_string_and_bytes_array(text: Seq<u8>, items: Seq<Seq<u8>>) -> Seq<u8> {
    word(64) + word(64 + encode_dynamic_bytes(text).len()) + encode_dynamic_bytes(text) + encode_bytes_array(
        items,
    )
}

/// The byte strings that a list of vectors holds.
pub open spec fn items_view(items: Seq<Vec<u8>>) -> Seq<Seq<u8>> {
    items.map_values(|v: Vec<u8>| v@)
}

/// The length of an encoded string or `bytes`.
pub proof fn lemma_encode_dynamic_bytes_len(b: Seq<u8>)
    ensures
        encode_dynamic_bytes(b).len() == 32 + b.len() + (32 - b.len() % 32) % 32,
        encode_dynamic_bytes(b).len() <= 63 + b.len(),
{
}

/// The encodings of more items are no shorter.
pub proof fn lemma_tails_monotonic(items: Seq<Seq<u8>>, i: nat, j: nat)
    requires
        i <= j,
    ensures
        tails(items, i).len() <= tails(items, j).len(),
    decreases j - i,
{
    if i < j {
        lemma_tails_monotonic(items, i, (j - 1) as nat);
    }
}

/// The offsets of `k` items take `k` words.
pub proof fn lemma_heads_len(items: Seq<Seq<u8>>, k: nat)
    ensures
        heads(items, k).len() == 32 * k,
    decreases k,
{
    if k > 0 {
        lemma_heads_len(items, (k - 1) as nat);
    }
}

/// Appends a number as a 32-byte word.
pub fn push_word(out: &mut Vec<u8>, n: u64)
    ensures
        final(out)@ == old(out)@ + word(n as nat),
{
    let mut i: usize = 0;
    while i < 24
        invariant
            i <= 24,
            out@ == old(out)@ + Seq::new(i as nat, |k: int| 0u8),
        decreases 24 - i,
    {
        out.push(0);
        assert(out@ =~= old(out)@ + Seq::new((i + 1) as nat, |k: int| 0u8));
        i += 1;
    }
    push_u64_be(out, n);
    assert(out@ =~= old(out)@ + word(n as nat));
}

/// Appends the encoding of a string or of `bytes`.
pub fn push_dynamic_bytes(out: &mut Vec<u8>, b: &[u8])
    ensures
        final(out)@ == old(out)@ + encode_dynamic_bytes(b@),
{
    push_word(out, b.len() as u64);
    let mut i: usize = 0;
    while i < b.len()
        invariant
            i <= b.len(),
            out@ == old(out)@ + word(b@.len()) + b@.subrange(0, i as int),
        decreases b.len() - i,
    {
        out.push(b[i]);
        assert(out@ =~= old(out)@ + word(b@.len()) + b@.subrange(0, i + 1));
        i += 1;
    }
    assert(b@.subrange(0, b.len() as int) =~= b@);
    let fill: usize = (32 - b.len() % 32) % 32;
    let mut j: usize = 0;
    while j < fill
        invariant
            j <= fill,
            out@ == old(out)@ + word(b@.len()) + b@ + Seq::new(j as nat, |k: int| 0u8),
        decreases fill - j,
    {
        out.push(0);
        assert(out@ =~= old(out)@ + word(b@.len()) + b@ + Seq::new((j + 1) as nat, |k: int| 0u8));
        j += 1;
    }
    assert(out@ =~= old(out)@ + encode_dynamic_bytes(b@));
}

/// Appends the encoding of `bytes[]`.
pub fn push_bytes_array(out: &mut Vec<u8>, items: &Vec<Vec<u8>>)
    requires
        32 * items@.len() + tails(items_view(items@), items@.len()).len() <= u64::MAX,
    ensures
        final(out)@ == old(out)@ + encode_bytes_array(items_view(items@)),
{
    let ghost view = items_view(items@);
    let n = items.len();
    push_word(out, n as u64);
    let mut offset: u64 = 32 * (n as u64);
    let mut i: usize = 0;
    while i < n
        invariant
            i <= n,
            n == items@.len(),
            view == items_view(items@),
            32 * n + tails(view, n as nat).len() <= u64::MAX,
            offset as nat == 32 * n + tails(view, i as nat).len(),
            out@ == old(out)@ + word(n as nat) + heads(view, i as nat),
        decreases n - i,
    {
        push_word(out, offset);
        proof {
            lemma_encode_dynamic_bytes_len(view[i as int]);
            lemma_tails_monotonic(view, (i + 1) as nat, n as nat);
        }
        let len = items[i].len();
        let fill: usize = (32 - len % 32) % 32;
        offset = offset + 32 + len as u64 + fill as u64;
        assert(out@ =~= old(out)@ + word(n as nat) + heads(view, (i + 1) as nat));
        i += 1;
    }
    let mut j: usize = 0;
    while j < n
        invariant
            j <= n,
            n == items@.len(),
            view == items_view(items@),
            out@ == old(out)@ + word(n as nat) + heads(view, n as nat) + tails(view, j as nat),
        decreases n - j,
    {
        push_dynamic_bytes(out, items[j].as_slice());
        assert(out@ =~= old(out)@ + word(n as nat) + heads(view, n as nat) + tails(view, (j + 1) as nat));
        j += 1;
    }
    assert(out@ =~= old(out)@ + encode_bytes_array(view));
}

/// The length of the encoding of the arguments `(string, bytes[])`.
pub open spec fn encoded_len(text: Seq<u8>, items: Seq<Seq<u8>>) -> nat {
    encode_string_and_bytes_array(text, items).len()
}

/// The length of the encoding of the arguments `(string, bytes[])`: two words of offsets,
/// the string, the word with the number of items, one word of offset for each item, and
/// the items.
pub proof fn lemma_encoded_len(text: Seq<u8>, items: Seq<Seq<u8>>)
    ensures
        encoded_len(text, items) == 96 + encode_dynamic_bytes(text).len() + 32 * items.len() + tails(
            items,
            items.len(),
        ).len(),
{
    lemma_heads_len(items, items.len());
}

/// One more item makes the encodings longer by the length of its own encoding.
pub proof fn lemma_tails_step(items: Seq<Seq<u8>>, i: nat)
    requires
        i < items.len(),
    ensures
        tails(items, i + 1).len() == tails(items, i).len() + 32 + items[i as int].len() + (32
            - items[i as int].len() % 32) % 32,
{
    lemma_encode_dynamic_bytes_len(items[i as int]);
    assert(tails(items, i + 1) == tails(items, i) + encode_dynamic_bytes(items[i as int]));
}

/// Whether the arguments `(string, bytes[])` can be encoded: whether their encoding is not
/// longer than a 64-bit number can tell.
pub fn arguments_fit(text: &[u8], items: &Vec<Vec<u8>>) -> (r: bool)
    ensures
        r == (encoded_len(text@, items_view(items@)) <= u64::MAX),
{
    let ghost view = items_view(items@);
    let n = items.len();
    proof {
        lemma_encode_dynamic_bytes_len(text@);
        lemma_encoded_len(text@, view);
        lemma_tails_monotonic(view, 0, n as nat);
    }
    let fill: usize = (32 - text.len() % 32) % 32;
    let start: u128 = 128 + (text.len() as u128) + (fill as u128) + 32 * (n as u128);
    if start > u64::MAX as u128 {
        return false;
    }
    let mut total: u128 = start;
    let mut i: usize = 0;
    while i < n
        invariant
            i <= n,
            n == items@.len(),
            view == items_view(items@),
            total <= u64::MAX as u128,
            total as nat == start as nat + tails(view, i as nat).len(),
            encoded_len(text@, view) == start as nat + tails(view, n as nat).len(),
        decreases n - i,
    {
        proof {
            lemma_tails_step(view, i as nat);
            assert(view[i as int].len() == items@[i as int]@.len());
        }
        let len = items[i].len();
        let item_fill: usize = (32 - len % 32) % 32;
        total = total + 32 + (len as u128) + (item_fill as u128);
        if total > u64::MAX as u128 {
            proof {
                lemma_tails_monotonic(view, (i + 1) as nat, n as nat);
            }
            return false;
        }
        i += 1;
    }
    true
}

/// The encoding of the arguments `(string, bytes[])`.
pub fn encode_arguments(text: &[u8], items: &Vec<Vec<u8>>) -> (r: Vec<u8>)
    requires
        encoded_len(text@, items_view(items@)) <= u64::MAX,
    ensures
        r@ == encode_string_and_bytes_array(text@, items_view(items@)),
{
    proof {
        lemma_encode_dynamic_bytes_len(text@);
        lemma_heads_len(items_view(items@), items@.len());
    }
    let mut out: Vec<u8> = Vec::new();
    push_word(&mut out, 64);
    let fill: usize = (32 - text.len() % 32) % 32;
    push_word(&mut out, 64 + 32 + text.len() as u64 + fill as u64);
    push_dynamic_bytes(&mut out, text);
    push_bytes_array(&mut out, items);
    assert(out@ =~= encode_string_and_bytes_array(text@, items_view(items@)));
    out
}

} // verus!
