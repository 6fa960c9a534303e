//! The checksum of a container: a digest of sixteen bytes over all that follows
//! the digest field.
//!
//! It is MD5 with another padding: the length in bits stands at the front of
//! the last block, and `(bits >> 2) | 1` at its end.

use vstd::bytes::u32_from_le_bytes;
use vstd::prelude::*;
use vstd::slice::slice_subrange;

use crate::bytes::{lemma_word_bytes, push_u32, word_at, word_bytes};

verus! {

/// How far round `i` rotates.
pub open spec fn shift_of(i: int) -> u32 {
    let k = i % 4;
    if i < 16 {
        if k == 0 {
            7
        } else if k == 1 {
            12
        } else if k == 2 {
            17
        } else {
            22
        }
    } else if i < 32 {
        if k == 0 {
            5
        } else if k == 1 {
            9
        } else if k == 2 {
            14
        } else {
            20
        }
    } else if i < 48 {
        if k == 0 {
            4
        } else if k == 1 {
            11
        } else if k == 2 {
            16
        } else {
            23
        }
    } else {
        if k == 0 {
            6
        } else if k == 1 {
            10
        } else if k == 2 {
            15
        } else {
            21
        }
    }
}

/// The constants of the rounds: `floor(2^32 * |sin(i + 1)|)`.
pub open spec fn round_constants() -> Seq<u32> {
    seq![
        0xd76aa478u32, 0xe8c7b756u32, 0x242070dbu32, 0xc1bdceeeu32,
        0xf57c0fafu32, 0x4787c62au32, 0xa8304613u32, 0xfd469501u32,
        0x698098d8u32, 0x8b44f7afu32, 0xffff5bb1u32, 0x895cd7beu32,
        0x6b901122u32, 0xfd987193u32, 0xa679438eu32, 0x49b40821u32,
        0xf61e2562u32, 0xc040b340u32, 0x265e5a51u32, 0xe9b6c7aau32,
        0xd62f105du32, 0x02441453u32, 0xd8a1e681u32, 0xe7d3fbc8u32,
        0x21e1cde6u32, 0xc33707d6u32, 0xf4d50d87u32, 0x455a14edu32,
        0xa9e3e905u32, 0xfcefa3f8u32, 0x676f02d9u32, 0x8d2a4c8au32,
        0xfffa3942u32, 0x8771f681u32, 0x6d9d6122u32, 0xfde5380cu32,
        0xa4beea44u32, 0x4bdecfa9u32, 0xf6bb4b60u32, 0xbebfbc70u32,
        0x289b7ec6u32, 0xeaa127fau32, 0xd4ef3085u32, 0x04881d05u32,
        0xd9d4d039u32, 0xe6db99e5u32, 0x1fa27cf8u32, 0xc4ac5665u32,
        0xf4292244u32, 0x432aff97u32, 0xab9423a7u32, 0xfc93a039u32,
        0x655b59c3u32, 0x8f0ccc92u32, 0xffeff47du32, 0x85845dd1u32,
        0x6fa87e4fu32, 0xfe2ce6e0u32, 0xa3014314u32, 0x4e0811a1u32,
        0xf7537e82u32, 0xbd3af235u32, 0x2ad7d2bbu32, 0xeb86d391u32,
    ]
}

/// The constants of the rounds.
fn constants() -> (r: [u32; 64])
    ensures
        r@ == round_constants(),
{
    let r = [
        0xd76aa478u32, 0xe8c7b756u32, 0x242070dbu32, 0xc1bdceeeu32,
        0xf57c0fafu32, 0x4787c62au32, 0xa8304613u32, 0xfd469501u32,
        0x698098d8u32, 0x8b44f7afu32, 0xffff5bb1u32, 0x895cd7beu32,
        0x6b901122u32, 0xfd987193u32, 0xa679438eu32, 0x49b40821u32,
        0xf61e2562u32, 0xc040b340u32, 0x265e5a51u32, 0xe9b6c7aau32,
        0xd62f105du32, 0x02441453u32, 0xd8a1e681u32, 0xe7d3fbc8u32,
        0x21e1cde6u32, 0xc33707d6u32, 0xf4d50d87u32, 0x455a14edu32,
        0xa9e3e905u32, 0xfcefa3f8u32, 0x676f02d9u32, 0x8d2a4c8au32,
        0xfffa3942u32, 0x8771f681u32, 0x6d9d6122u32, 0xfde5380cu32,
        0xa4beea44u32, 0x4bdecfa9u32, 0xf6bb4b60u32, 0xbebfbc70u32,
        0x289b7ec6u32, 0xeaa127fau32, 0xd4ef3085u32, 0x04881d05u32,
        0xd9d4d039u32, 0xe6db99e5u32, 0x1fa27cf8u32, 0xc4ac5665u32,
        0xf4292244u32, 0x432aff97u32, 0xab9423a7u32, 0xfc93a039u32,
        0x655b59c3u32, 0x8f0ccc92u32, 0xffeff47du32, 0x85845dd1u32,
        0x6fa87e4fu32, 0xfe2ce6e0u32, 0xa3014314u32, 0x4e0811a1u32,
        0xf7537e82u32, 0xbd3af235u32, 0x2ad7d2bbu32, 0xeb86d391u32,
    ];
    assert(r@ =~= round_constants());
    r
}

/// The four words of the digest in the making.
pub struct Digest {
    /// The first word.
    pub a: u32,
    /// The second word.
    pub b: u32,
    /// The third word.
    pub c: u32,
    /// The fourth word.
    pub d: u32,
}

/// The sum of two words, without what overflows.
pub open spec fn wadd(x: u32, y: u32) -> u32 {
    ((x + y) % 0x1_0000_0000) as u32
}

/// `x` rotated left by `s` bits.
pub open spec fn rotated(x: u32, s: u32) -> u32 {
    (x << s) | (x >> ((32 - s) as u32))
}

/// The mixing function of round `i`.
pub open spec fn mix_of(i: int, b: u32, c: u32, d: u32) -> u32 {
    if i < 16 {
        (b & c) | (!b & d)
    } else if i < 32 {
        (d & b) | (!d & c)
    } else if i < 48 {
        b ^ c ^ d
    } else {
        c ^ (b | !d)
    }
}

/// The word of the block that round `i` takes.
pub open spec fn word_of_round(i: int) -> int {
    if i < 16 {
        i
    } else if i < 32 {
        (5 * i + 1) % 16
    } else if i < 48 {
        (3 * i + 5) % 16
    } else {
        (7 * i) % 16
    }
}

/// The words after the first `n` rounds on the block at position `at` of `m`.
pub open spec fn rounds(s: Digest, m: Seq<u8>, at: int, n: int) -> Digest
    decreases n,
{
    if n <= 0 {
        s
    } else {
        let i = n - 1;
        let p = rounds(s, m, at, i);
        let f = wadd(
            wadd(wadd(mix_of(i, p.b, p.c, p.d), p.a), round_constants()[i]),
            word_at(m, at + 4 * word_of_round(i)),
        );
        Digest { a: p.d, b: wadd(p.b, rotated(f, shift_of(i))), c: p.b, d: p.c }
    }
}

/// The digest after the block at position `at` of `m`.
pub open spec fn transformed(s: Digest, m: Seq<u8>, at: int) -> Digest {
    let r = rounds(s, m, at, 64);
    Digest { a: wadd(s.a, r.a), b: wadd(s.b, r.b), c: wadd(s.c, r.c), d: wadd(s.d, r.d) }
}

/// The digest before any block.
pub open spec fn initial() -> Digest {
    Digest { a: 0x6745_2301, b: 0xefcd_ab89, c: 0x98ba_dcfe, d: 0x1032_5476 }
}

/// The digest after the first `n` blocks of `m`.
pub open spec fn digested(m: Seq<u8>, n: int) -> Digest
    decreases n,
{
    if n <= 0 {
        initial()
    } else {
        transformed(digested(m, n - 1), m, 64 * (n - 1))
    }
}

/// The length of `data` in bits, without what overflows a word.
pub open spec fn bit_count(data: Seq<u8>) -> u32 {
    (data.len() * 8 % 0x1_0000_0000) as u32
}

/// `n` zero bytes.
pub open spec fn zeros(n: nat) -> Seq<u8> {
    Seq::new(n, |i: int| 0u8)
}

/// What the blocks of `data` are filled up to: whole blocks, the last of which
/// holds the length and the marker.
pub open spec fn padded(data: Seq<u8>) -> Seq<u8> {
    let left = data.len() % 64;
    let whole = data.take(data.len() - left);
    let tail = data.skip(data.len() - left);
    let bits = word_bytes(bit_count(data));
    let marker = word_bytes((bit_count(data) >> 2) | 1);
    if left >= 56 {
        whole + tail.push(0x80) + zeros((63 - left) as nat) + bits + zeros(56) + marker
    } else {
        whole + bits + tail.push(0x80) + zeros((55 - left) as nat) + marker
    }
}

/// The checksum of `data`.
pub open spec fn checksum(data: Seq<u8>) -> Seq<u8> {
    let d = digested(padded(data), padded(data).len() as int / 64);
    word_bytes(d.a) + word_bytes(d.b) + word_bytes(d.c) + word_bytes(d.d)
}

fn rotate_left(x: u32, s: u32) -> (r: u32)
    requires
        0 < s < 32,
    ensures
        r == rotated(x, s),
{
    (x << s) | (x >> (32 - s))
}

fn shift_amount(i: usize) -> (r: u32)
    requires
        i < 64,
    ensures
        r == shift_of(i as int),
        0 < r < 32,
{
    let t = [
        7u32, 12u32, 17u32, 22u32,
        5u32, 9u32, 14u32, 20u32,
        4u32, 11u32, 16u32, 23u32,
        6u32, 10u32, 15u32, 21u32,
    ];
    t[(i / 16) * 4 + i % 4]
}

fn add_words(x: u32, y: u32) -> (r: u32)
    ensures
        r == wadd(x, y),
{
    ((x as u64 + y as u64) % 0x1_0000_0000) as u32
}

/// The digest after the block at position `at`.
fn transform(state: &Digest, m: &[u8], at: usize) -> (r: Digest)
    requires
        at + 64 <= m.len(),
    ensures
        r == transformed(*state, m@, at as int),
{
    let k = constants();
    let mut p = Digest { a: state.a, b: state.b, c: state.c, d: state.d };
    let mut i: usize = 0;
    while i < 64
        invariant
            i <= 64,
            at + 64 <= m.len(),
            k@ == round_constants(),
            p == rounds(*state, m@, at as int, i as int),
        decreases 64 - i,
    {
        let (mix, g): (u32, usize) = if i < 16 {
            ((p.b & p.c) | (!p.b & p.d), i)
        } else if i < 32 {
            ((p.d & p.b) | (!p.d & p.c), (5 * i + 1) % 16)
        } else if i < 48 {
            (p.b ^ p.c ^ p.d, (3 * i + 5) % 16)
        } else {
            (p.c ^ (p.b | !p.d), (7 * i) % 16)
        };
        let word: u32 = u32_from_le_bytes(slice_subrange(m, at + 4 * g, at + 4 * g + 4));
        let f: u32 = add_words(add_words(add_words(mix, p.a), k[i]), word);
        p = Digest { a: p.d, b: add_words(p.b, rotate_left(f, shift_amount(i))), c: p.b, d: p.c };
        i += 1;
    }
    Digest {
        a: add_words(state.a, p.a),
        b: add_words(state.b, p.b),
        c: add_words(state.c, p.c),
        d: add_words(state.d, p.d),
    }
}

fn push_zeros(out: &mut Vec<u8>, n: usize)
    ensures
        final(out)@ == old(out)@ + zeros(n as nat),
{
    let mut i: usize = 0;
    while i < n
        invariant
            i <= n,
            out@ == old(out)@ + zeros(i as nat),
        decreases n - i,
    {
        out.push(0);
        i += 1;
        assert(out@ =~= old(out)@ + zeros(i as nat));
    }
    assert(out@ =~= old(out)@ + zeros(n as nat));
}

fn push_bytes(out: &mut Vec<u8>, b: &[u8])
    ensures
        final(out)@ == old(out)@ + b@,
{
    let mut i: usize = 0;
    while i < b.len()
        invariant
            i <= b.len(),
            out@ == old(out)@ + b@.take(i as int),
        decreases b.len() - i,
    {
        out.push(b[i]);
        i += 1;
        assert(out@ =~= old(out)@ + b@.take(i as int));
    }
    assert(b@.take(i as int) =~= b@);
}

/// What follows the whole blocks of `data`: one or two blocks.
fn final_blocks(data: &[u8], start: usize) -> (r: Vec<u8>)
    requires
        start == data@.len() - data@.len() % 64,
    ensures
        data@.take(start as int) + r@ == padded(data@),
        r@.len() == 64 || r@.len() == 128,
{
    let left: usize = data.len() % 64;
    let bits: u32 = ((data.len() as u128 * 8) % 0x1_0000_0000) as u32;
    let marker: u32 = (bits >> 2) | 1;
    let tail = slice_subrange(data, start, data.len());
    let ghost whole = data@.take(start as int);
    let mut out: Vec<u8> = Vec::new();
    proof {
        lemma_word_bytes(bits);
        lemma_word_bytes(marker);
    }
    if left >= 56 {
        push_bytes(&mut out, tail);
        out.push(0x80);
        push_zeros(&mut out, 63 - left);
        push_u32(&mut out, bits);
        push_zeros(&mut out, 56);
        push_u32(&mut out, marker);
        assert(whole + out@ =~= padded(data@));
    } else {
        push_u32(&mut out, bits);
        push_bytes(&mut out, tail);
        out.push(0x80);
        push_zeros(&mut out, 55 - left);
        push_u32(&mut out, marker);
        assert(whole + out@ =~= padded(data@));
    }
    out
}

/// A block's rounds look at that block alone.
proof fn lemma_rounds_local(s: Digest, m: Seq<u8>, at: int, m2: Seq<u8>, at2: int, n: int)
    requires
        0 <= n <= 64,
        0 <= at && at + 64 <= m.len(),
        0 <= at2 && at2 + 64 <= m2.len(),
        m.subrange(at, at + 64) == m2.subrange(at2, at2 + 64),
    ensures
        rounds(s, m, at, n) == rounds(s, m2, at2, n),
    decreases n,
{
    if n > 0 {
        lemma_rounds_local(s, m, at, m2, at2, n - 1);
        let g = 4 * word_of_round(n - 1);
        assert(m.subrange(at + g, at + g + 4) =~= m.subrange(at, at + 64).subrange(g, g + 4));
        assert(m2.subrange(at2 + g, at2 + g + 4) =~= m2.subrange(at2, at2 + 64).subrange(g, g + 4));
    }
}

/// The bytes of a digest.
fn digest_bytes(state: &Digest) -> (r: [u8; 16])
    ensures
        r@ == word_bytes(state.a) + word_bytes(state.b) + word_bytes(state.c) + word_bytes(state.d),
{
    let mut out: Vec<u8> = Vec::new();
    push_u32(&mut out, state.a);
    push_u32(&mut out, state.b);
    push_u32(&mut out, state.c);
    push_u32(&mut out, state.d);
    proof {
        lemma_word_bytes(state.a);
        lemma_word_bytes(state.b);
        lemma_word_bytes(state.c);
        lemma_word_bytes(state.d);
    }
    let r = [
        out[0], out[1], out[2], out[3], out[4], out[5], out[6], out[7],
        out[8], out[9], out[10], out[11], out[12], out[13], out[14], out[15],
    ];
    assert(r@ =~= out@);
    assert(out@ =~= word_bytes(state.a) + word_bytes(state.b) + word_bytes(state.c) + word_bytes(
        state.d,
    ));
    r
}

/// The checksum has sixteen bytes.
pub proof fn lemma_checksum_len(data: Seq<u8>)
    ensures
        checksum(data).len() == 16,
{
    let state = digested(padded(data), padded(data).len() as int / 64);
    lemma_word_bytes(state.a);
    lemma_word_bytes(state.b);
    lemma_word_bytes(state.c);
    lemma_word_bytes(state.d);
}

/// The checksum of a container: `data` is what follows the digest field.
pub fn dxbc_checksum(data: &[u8]) -> (r: [u8; 16])
    ensures
        r@ == checksum(data@),
{
    let ghost p = padded(data@);
    let whole: usize = data.len() / 64;
    let start: usize = data.len() - data.len() % 64;
    let last = final_blocks(data, start);
    assert(start == 64 * whole);
    let mut state = Digest { a: 0x6745_2301, b: 0xefcd_ab89, c: 0x98ba_dcfe, d: 0x1032_5476 };
    let mut i: usize = 0;
    while i < whole
        invariant
            i <= whole,
            64 * whole <= data.len(),
            p == data@.take(64 * whole as int) + last@,
            state == digested(p, i as int),
        decreases whole - i,
    {
        let ghost at = 64 * i as int;
        let next = transform(&state, data, 64 * i);
        proof {
            assert(data@.subrange(at, at + 64) =~= p.subrange(at, at + 64));
            lemma_rounds_local(state, data@, at, p, at, 64);
        }
        state = next;
        i += 1;
    }
    let mut j: usize = 0;
    while j < last.len() / 64
        invariant
            j <= last@.len() / 64,
            last@.len() == 64 || last@.len() == 128,
            64 * whole <= data.len(),
            p == data@.take(64 * whole as int) + last@,
            state == digested(p, whole + j),
        decreases last@.len() / 64 - j,
    {
        let ghost at = 64 * (whole + j);
        let next = transform(&state, last.as_slice(), 64 * j);
        proof {
            assert(last@.subrange(64 * j as int, 64 * j + 64) =~= p.subrange(at, at + 64));
            lemma_rounds_local(state, last@, 64 * j as int, p, at, 64);
        }
        state = next;
        j += 1;
    }
    assert(p.len() as int / 64 == whole + j);
    digest_bytes(&state)
}

} // verus!
