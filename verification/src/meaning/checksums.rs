//! What the checksum is taken over.

use vstd::prelude::*;

use crate::bytes::{lemma_word_bytes, word_at, word_bytes};
use crate::checksum::{Digest, bit_count, checksum, digested, padded};

verus! {

/// The sixteen bytes of a digest.
pub open spec fn is_digest(b: Seq<u8>, d: Digest) -> bool {
    &&& b.len() == 16
    &&& word_at(b, 0) == d.a
    &&& word_at(b, 4) == d.b
    &&& word_at(b, 8) == d.c
    &&& word_at(b, 12) == d.d
}

/// The marker at the end of the last block, as a number.
proof fn lemma_marker(n: nat)
    ensures
        ({
            let b = (n * 8 % 0x1_0000_0000) as u32;
            ((b >> 2) | 1) == 2 * n % 0x4000_0000 + 1
        }),
{
    let b = (n * 8 % 0x1_0000_0000) as u32;
    assert(b % 8 == 0);
    assert(((b >> 2) | 1) == b / 4 + 1) by (bit_vector)
        requires
            b % 8 == 0,
    ;
    assert(b / 4 == 2 * n % 0x4000_0000);
}

/// Bytes that say one word are the bytes of that word.
proof fn lemma_word_there(m: Seq<u8>, p: int, w: u32)
    requires
        0 <= p,
        p + 4 <= m.len(),
        word_at(m, p) == w,
    ensures
        m.subrange(p, p + 4) == word_bytes(w),
{
    vstd::bytes::lemma_auto_spec_u32_to_from_le_bytes();
    assert(m.subrange(p, p + 4).len() == 4);
}

/// The checksum is the digest of whole blocks that begin with the data. Where the
/// last block of data leaves room, that block holds, in this order: the length in
/// bits as a word, the rest of the data, the byte 0x80, noughts up to byte 60, and
/// in its last word twice the length and one.
pub proof fn checksum_of_short_tail(data: Seq<u8>, m: Seq<u8>)
    requires
        data.len() % 64 < 56,
        ({
            let left = data.len() as int % 64;
            let at = data.len() - left;
            &&& m.len() == at + 64
            &&& forall|i: int| 0 <= i < at ==> #[trigger] m[i] == data[i]
            &&& word_at(m, at) == 8 * data.len() % 0x1_0000_0000
            &&& forall|i: int| 0 <= i < left ==> #[trigger] m[at + 4 + i] == data[at + i]
            &&& m[at + 4 + left] == 0x80
            &&& forall|i: int| at + 5 + left <= i < at + 60 ==> #[trigger] m[i] == 0
            &&& word_at(m, at + 60) == 2 * data.len() % 0x4000_0000 + 1
        }),
    ensures
        is_digest(checksum(data), digested(m, m.len() as int / 64)),
{
    let left = data.len() as int % 64;
    let at = data.len() - left;
    let p = padded(data);
    let bits = word_bytes(bit_count(data));
    let mark = word_bytes((bit_count(data) >> 2) | 1);
    lemma_marker(data.len());
    lemma_word_bytes(bit_count(data));
    lemma_word_bytes((bit_count(data) >> 2) | 1);
    lemma_word_there(m, at, bit_count(data));
    lemma_word_there(m, at + 60, (bit_count(data) >> 2) | 1);
    assert(p.len() == m.len());
    assert forall|i: int| 0 <= i < m.len() implies #[trigger] p[i] == m[i] by {
        if i < at {
        } else if i < at + 4 {
            assert(m.subrange(at, at + 4)[i - at] == m[i]);
            assert(p[i] == bits[i - at]);
        } else if i < at + 4 + left {
            assert(m[at + 4 + (i - at - 4)] == data[at + (i - at - 4)]);
            assert(p[i] == data.skip(at)[i - at - 4]);
        } else if i >= at + 60 {
            assert(m.subrange(at + 60, at + 64)[i - at - 60] == m[i]);
            assert(p[i] == mark[i - at - 60]);
        }
    }
    assert(p =~= m);
    lemma_digest_bytes(data);
}

/// Where the last block of data leaves no room, it is ended by the byte 0x80 and
/// noughts, and one block more holds the length in bits as its first word, noughts,
/// and twice the length and one as its last word.
pub proof fn checksum_of_long_tail(data: Seq<u8>, m: Seq<u8>)
    requires
        data.len() % 64 >= 56,
        ({
            let n = data.len() as int;
            let end = n - n % 64 + 64;
            &&& m.len() == end + 64
            &&& forall|i: int| 0 <= i < n ==> #[trigger] m[i] == data[i]
            &&& m[n] == 0x80
            &&& forall|i: int| n + 1 <= i < end ==> #[trigger] m[i] == 0
            &&& word_at(m, end) == 8 * n % 0x1_0000_0000
            &&& forall|i: int| end + 4 <= i < end + 60 ==> #[trigger] m[i] == 0
            &&& word_at(m, end + 60) == 2 * n % 0x4000_0000 + 1
        }),
    ensures
        is_digest(checksum(data), digested(m, m.len() as int / 64)),
{
    let n = data.len() as int;
    let left = n % 64;
    let at = n - left;
    let end = at + 64;
    let p = padded(data);
    let bits = word_bytes(bit_count(data));
    let mark = word_bytes((bit_count(data) >> 2) | 1);
    lemma_marker(data.len());
    lemma_word_bytes(bit_count(data));
    lemma_word_bytes((bit_count(data) >> 2) | 1);
    lemma_word_there(m, end, bit_count(data));
    lemma_word_there(m, end + 60, (bit_count(data) >> 2) | 1);
    assert(p.len() == m.len());
    assert forall|i: int| 0 <= i < m.len() implies #[trigger] p[i] == m[i] by {
        if i < at {
        } else if i < n {
            assert(p[i] == data.skip(at)[i - at]);
        } else if end <= i < end + 4 {
            assert(m.subrange(end, end + 4)[i - end] == m[i]);
            assert(p[i] == bits[i - end]);
        } else if i >= end + 60 {
            assert(m.subrange(end + 60, end + 64)[i - end - 60] == m[i]);
            assert(p[i] == mark[i - end - 60]);
        }
    }
    assert(p =~= m);
    lemma_digest_bytes(data);
}

proof fn lemma_digest_bytes(data: Seq<u8>)
    ensures
        is_digest(checksum(data), digested(padded(data), padded(data).len() as int / 64)),
{
    let d = digested(padded(data), padded(data).len() as int / 64);
    let c = checksum(data);
    lemma_word_bytes(d.a);
    lemma_word_bytes(d.b);
    lemma_word_bytes(d.c);
    lemma_word_bytes(d.d);
    assert(c.subrange(0, 4) =~= word_bytes(d.a));
    assert(c.subrange(4, 8) =~= word_bytes(d.b));
    assert(c.subrange(8, 12) =~= word_bytes(d.c));
    assert(c.subrange(12, 16) =~= word_bytes(d.d));
}

} // verus!
