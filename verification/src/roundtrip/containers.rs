//! Containers that are written are found again.

use vstd::prelude::*;

use crate::bytes::{lemma_word_bytes, lemma_words_bytes, word_at, word_bytes, words_bytes};
use crate::checksum::checksum;
use crate::container::{
    ChunkModel, ContainerModel, chunk_at, chunk_bytes, chunk_offset, chunks_bytes, chunks_of,
    container_at, container_body, container_bytes, low_word, magic, offset_words, scanned,
    signed_bytes,
};

verus! {

/// Whether the chunks can make a container: each has a code of four bytes, and
/// the whole has a size that its header can state.
pub open spec fn containable(cs: Seq<ChunkModel>) -> bool {
    &&& forall|i: int| 0 <= i < cs.len() ==> (#[trigger] cs[i]).fourcc.len() == 4
    &&& chunk_offset(cs, cs.len() as int) <= 0xffff_ffff
}

/// The first chunks in bytes are the first bytes of all.
proof fn lemma_chunks_prefix(cs: Seq<ChunkModel>, k: int, n: int)
    requires
        0 <= k <= n <= cs.len(),
    ensures
        chunks_bytes(cs, k).len() <= chunks_bytes(cs, n).len(),
        chunks_bytes(cs, n).take(chunks_bytes(cs, k).len() as int) == chunks_bytes(cs, k),
    decreases n - k,
{
    let a = chunks_bytes(cs, k);
    let b = chunks_bytes(cs, n);
    if k == n {
        assert(b.take(b.len() as int) =~= b);
    } else {
        lemma_chunks_prefix(cs, k, n - 1);
        let m = chunks_bytes(cs, n - 1);
        assert(b.take(a.len() as int) =~= m.take(a.len() as int));
    }
}

/// Where the parts of a container stand.
pub proof fn lemma_layout(cs: Seq<ChunkModel>, version: u32, hash: Seq<u8>)
    requires
        containable(cs),
        hash.len() == 16,
    ensures
        ({
            let b = container_bytes(cs, version, hash);
            let n = cs.len() as int;
            &&& b.len() == chunk_offset(cs, n)
            &&& b.subrange(0, 4) == magic()
            &&& b.subrange(4, 20) == hash
            &&& b.subrange(20, 24) == word_bytes(version)
            &&& b.subrange(24, 28) == word_bytes(low_word(chunk_offset(cs, n)))
            &&& b.subrange(28, 32) == word_bytes(low_word(cs.len()))
            &&& b.subrange(32, 32 + 4 * n) == words_bytes(offset_words(cs, cs.len()))
            &&& b.subrange(32 + 4 * n, b.len() as int) == chunks_bytes(cs, n)
        }),
{
    let b = container_bytes(cs, version, hash);
    let n = cs.len() as int;
    lemma_word_bytes(version);
    lemma_word_bytes(low_word(chunk_offset(cs, n)));
    lemma_word_bytes(low_word(cs.len()));
    lemma_words_bytes(offset_words(cs, cs.len()));
    let w1 = word_bytes(version);
    let w2 = word_bytes(low_word(chunk_offset(cs, n)));
    let w3 = word_bytes(low_word(cs.len()));
    let t = words_bytes(offset_words(cs, cs.len()));
    let c = chunks_bytes(cs, n);
    assert(b =~= magic() + hash + (w1 + w2 + w3 + t + c));
    assert(b.subrange(0, 4) =~= magic());
    assert(b.subrange(4, 20) =~= hash);
    assert(b.subrange(20, 24) =~= w1);
    assert(b.subrange(24, 28) =~= w2);
    assert(b.subrange(28, 32) =~= w3);
    assert(b.subrange(32, 32 + 4 * n) =~= t);
    assert(b.subrange(32 + 4 * n, b.len() as int) =~= c);
}

/// A chunk is found where the table says.
pub proof fn lemma_chunk(cs: Seq<ChunkModel>, version: u32, hash: Seq<u8>, k: int)
    requires
        containable(cs),
        hash.len() == 16,
        0 <= k < cs.len(),
    ensures
        ({
            let b = container_bytes(cs, version, hash);
            &&& word_at(b, 32 + 4 * k) == chunk_offset(cs, k)
            &&& chunk_at(b, chunk_offset(cs, k) as int) == Some(cs[k])
        }),
{
    let b = container_bytes(cs, version, hash);
    let n = cs.len() as int;
    lemma_layout(cs, version, hash);
    lemma_chunks_prefix(cs, k, n);
    lemma_chunks_prefix(cs, k + 1, n);
    let offs = offset_words(cs, cs.len());
    lemma_words_bytes(offs);
    let t = words_bytes(offs);
    let x = b.subrange(32 + 4 * k, 32 + 4 * k + 4);
    let y = t.subrange(4 * k, 4 * k + 4);
    assert forall|j: int| 0 <= j < 4 implies #[trigger] x[j] == y[j] by {
        assert(b.subrange(32, 32 + 4 * n)[4 * k + j] == b[32 + 4 * k + j]);
    }
    assert(x =~= y);
    assert(offs[k] == word_at(t, 4 * k));
    let p = chunk_offset(cs, k) as int;
    let c = cs[k];
    let body = chunks_bytes(cs, n);
    let upto = chunks_bytes(cs, k + 1);
    let cb = chunk_bytes(c);
    let w = word_bytes(low_word(c.data.len()));
    lemma_word_bytes(low_word(c.data.len()));
    assert(c.fourcc.len() == 4);
    assert(cb.len() == 8 + c.data.len());
    assert forall|j: int| 0 <= j < cb.len() implies #[trigger] b[p + j] == cb[j] by {
        assert(b.subrange(32 + 4 * n, b.len() as int)[p - 32 - 4 * n + j] == b[p + j]);
        assert(body.take(upto.len() as int)[p - 32 - 4 * n + j] == body[p - 32 - 4 * n + j]);
        assert(upto[p - 32 - 4 * n + j] == cb[j]);
    }
    assert(b.subrange(p, p + 4) =~= c.fourcc) by {
        assert forall|j: int| 0 <= j < 4 implies b.subrange(p, p + 4)[j] == c.fourcc[j] by {
            assert(b[p + j] == cb[j]);
        }
    }
    assert(b.subrange(p + 4, p + 8) =~= w) by {
        assert forall|j: int| 0 <= j < 4 implies b.subrange(p + 4, p + 8)[j] == w[j] by {
            assert(b[p + (4 + j)] == cb[4 + j]);
        }
    }
    let end = p + 8 + c.data.len() as int;
    assert(b.subrange(p + 8, end) =~= c.data) by {
        assert forall|j: int| 0 <= j < c.data.len() implies b.subrange(p + 8, end)[j]
            == c.data[j] by {
            assert(b[p + (8 + j)] == cb[8 + j]);
        }
    }
}

proof fn lemma_chunks(cs: Seq<ChunkModel>, version: u32, hash: Seq<u8>, n: int)
    requires
        containable(cs),
        hash.len() == 16,
        0 <= n <= cs.len(),
    ensures
        chunks_of(container_bytes(cs, version, hash), n) == Some(cs.take(n)),
    decreases n,
{
    if n == 0 {
        assert(cs.take(0) =~= Seq::empty());
    } else {
        lemma_chunks(cs, version, hash, n - 1);
        lemma_chunk(cs, version, hash, n - 1);
        assert(cs.take(n) =~= cs.take(n - 1).push(cs[n - 1]));
    }
}

/// The container of those chunks.
pub open spec fn container_of(cs: Seq<ChunkModel>, version: u32, hash: Seq<u8>) -> ContainerModel {
    ContainerModel {
        offset: 0,
        size: chunk_offset(cs, cs.len() as int) as u32,
        version,
        hash,
        chunks: cs,
    }
}

/// The bytes of a container are found to be just that container: the same
/// version, checksum and chunks.
pub proof fn container_reads_back(cs: Seq<ChunkModel>, version: u32, hash: Seq<u8>)
    requires
        containable(cs),
        hash.len() == 16,
    ensures
        scanned(container_bytes(cs, version, hash), 0) == seq![container_of(cs, version, hash)],
{
    let b = container_bytes(cs, version, hash);
    let n = cs.len() as int;
    lemma_layout(cs, version, hash);
    lemma_word_bytes(version);
    lemma_word_bytes(low_word(chunk_offset(cs, n)));
    lemma_word_bytes(low_word(cs.len()));
    lemma_chunks(cs, version, hash, n);
    assert(cs.take(n) =~= cs);
    assert(b.subrange(0, b.len() as int) =~= b);
    assert(container_at(b, 0) == Some(container_of(cs, version, hash)));
    assert(scanned(b, b.len() as int) =~= Seq::empty());
    assert(scanned(b, 0) =~= seq![container_of(cs, version, hash)]);
}

/// A container is written with the checksum of all that follows it, so the
/// checksum that is found in it is right.
pub proof fn checksum_is_right(cs: Seq<ChunkModel>, version: u32)
    requires
        containable(cs),
    ensures
        signed_bytes(cs, version).subrange(4, 20) == checksum(signed_bytes(cs, version).skip(20)),
{
    reveal(signed_bytes);
    let body = container_body(cs, version);
    let hash = checksum(body);
    crate::checksum::lemma_checksum_len(body);
    lemma_layout(cs, version, hash);
    assert(signed_bytes(cs, version).skip(20) =~= body);
}

} // verus!
