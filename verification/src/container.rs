//! Containers: a header, a table of offsets, and chunks.
//!
//! The header is `DXBC`, a checksum of sixteen bytes, a version, the total size
//! and the number of chunks. Each chunk is a code of four characters, its size,
//! and its data.

use vstd::prelude::*;
use vstd::slice::slice_subrange;
use vstd::utf8::{decode_utf8, valid_utf8};

use crate::bytes::{get_u32, lemma_words_bytes, push_u32, word_at, word_bytes, words_bytes};
use crate::checksum::{checksum, dxbc_checksum};
use crate::utf8::text_of_bytes;

verus! {

/// A chunk to be written.
#[derive(Debug, PartialEq, Eq)]
pub struct WritableChunk {
    /// The code.
    pub fourcc: [u8; 4],
    /// The data.
    pub data: Vec<u8>,
}

/// A chunk of a container.
#[derive(Debug)]
pub struct Chunk<'a> {
    /// The code.
    pub fourcc: [u8; 4],
    /// The number of bytes of data.
    pub size: u32,
    /// The data.
    pub data: &'a [u8],
}

/// A container found in a file.
#[derive(Debug)]
pub struct Container<'a> {
    /// Where it begins in the file.
    pub offset_in_file: usize,
    /// Its size in bytes.
    pub total_size: u32,
    /// The version.
    pub version: u32,
    /// The checksum that stands in the header.
    pub header_hash: [u8; 16],
    /// The chunks in their order.
    pub chunks: Vec<Chunk<'a>>,
}

/// The model of a chunk.
#[verifier::ext_equal]
pub struct ChunkModel {
    /// The code.
    pub fourcc: Seq<u8>,
    /// The data.
    pub data: Seq<u8>,
}

/// The model of a container.
#[verifier::ext_equal]
pub struct ContainerModel {
    /// Where it begins in the file.
    pub offset: nat,
    /// Its size in bytes.
    pub size: u32,
    /// The version.
    pub version: u32,
    /// The checksum that stands in the header.
    pub hash: Seq<u8>,
    /// The chunks in their order.
    pub chunks: Seq<ChunkModel>,
}

impl WritableChunk {
    /// The chunk as a mathematical value.
    pub open spec fn model(&self) -> ChunkModel {
        ChunkModel { fourcc: self.fourcc@, data: self.data@ }
    }
}

impl<'a> Chunk<'a> {
    /// The chunk as a mathematical value.
    pub open spec fn model(&self) -> ChunkModel {
        ChunkModel { fourcc: self.fourcc@, data: self.data@ }
    }

    /// Whether the size is that of the data.
    pub open spec fn wf(&self) -> bool {
        self.size == self.data@.len()
    }
}

/// The chunks as mathematical values.
pub open spec fn writable_models(cs: Seq<WritableChunk>) -> Seq<ChunkModel> {
    Seq::new(cs.len(), |i: int| cs[i].model())
}

/// The chunks as mathematical values.
pub open spec fn chunk_models(cs: Seq<Chunk<'_>>) -> Seq<ChunkModel> {
    Seq::new(cs.len(), |i: int| cs[i].model())
}

impl<'a> Container<'a> {
    /// The container as a mathematical value.
    pub open spec fn model(&self) -> ContainerModel {
        ContainerModel {
            offset: self.offset_in_file as nat,
            size: self.total_size,
            version: self.version,
            hash: self.header_hash@,
            chunks: chunk_models(self.chunks@),
        }
    }

    /// Whether every chunk has the size of its data.
    pub open spec fn wf(&self) -> bool {
        forall|i: int| 0 <= i < self.chunks@.len() ==> (#[trigger] self.chunks@[i]).wf()
    }
}

/// The containers as mathematical values.
pub open spec fn container_models(cs: Seq<Container<'_>>) -> Seq<ContainerModel> {
    Seq::new(cs.len(), |i: int| cs[i].model())
}

// ---------------------------------------------------------------------------
// Writing
// ---------------------------------------------------------------------------

/// The low thirty-two bits of a number.
pub open spec fn low_word(n: nat) -> u32 {
    (n % 0x1_0000_0000) as u32
}

/// `DXBC`.
pub open spec fn magic() -> Seq<u8> {
    seq![0x44u8, 0x58u8, 0x42u8, 0x43u8]
}

/// A chunk in bytes.
pub open spec fn chunk_bytes(c: ChunkModel) -> Seq<u8> {
    c.fourcc + word_bytes(low_word(c.data.len())) + c.data
}

/// The first `n` chunks in bytes.
pub open spec fn chunks_bytes(cs: Seq<ChunkModel>, n: int) -> Seq<u8>
    decreases n,
{
    if n <= 0 {
        Seq::empty()
    } else {
        chunks_bytes(cs, n - 1) + chunk_bytes(cs[n - 1])
    }
}

/// Where chunk number `k` begins.
pub open spec fn chunk_offset(cs: Seq<ChunkModel>, k: int) -> nat {
    32 + 4 * cs.len() + chunks_bytes(cs, k).len()
}

/// The table of offsets.
pub open spec fn offset_words(cs: Seq<ChunkModel>, n: nat) -> Seq<u32> {
    Seq::new(n, |k: int| low_word(chunk_offset(cs, k)))
}

/// All that follows the checksum field.
pub open spec fn container_body(cs: Seq<ChunkModel>, version: u32) -> Seq<u8> {
    word_bytes(version) + word_bytes(low_word(chunk_offset(cs, cs.len() as int))) + word_bytes(
        low_word(cs.len()),
    ) + words_bytes(offset_words(cs, cs.len())) + chunks_bytes(cs, cs.len() as int)
}

/// The container of those chunks, with that checksum in its header.
pub open spec fn container_bytes(cs: Seq<ChunkModel>, version: u32, hash: Seq<u8>) -> Seq<u8> {
    magic() + hash + container_body(cs, version)
}

/// The container of those chunks, with the checksum of its content in its
/// header.
#[verifier::opaque]
pub open spec fn signed_bytes(cs: Seq<ChunkModel>, version: u32) -> Seq<u8> {
    container_bytes(cs, version, checksum(container_body(cs, version)))
}

fn to_low_word(n: u128) -> (r: u32)
    ensures
        r == low_word(n as nat),
{
    (n % 0x1_0000_0000) as u32
}

fn push_bytes(out: &mut Vec<u8>, b: &[u8])
    ensures
        final(out)@ == old(out)@ + b@,
{
    out.extend_from_slice(b);
    assert(out@ =~= old(out)@ + b@);
}

/// The table of offsets and the chunks, in bytes.
fn build_chunks(chunks: &[WritableChunk]) -> (r: (Vec<u8>, Vec<u8>))
    ensures
        r.0@ == words_bytes(offset_words(writable_models(chunks@), chunks@.len())),
        r.1@ == chunks_bytes(writable_models(chunks@), chunks@.len() as int),
{
    let ghost cs = writable_models(chunks@);
    let mut table: Vec<u8> = Vec::new();
    let mut body: Vec<u8> = Vec::new();
    let mut i: usize = 0;
    assert(table@ =~= words_bytes(offset_words(cs, 0)));
    while i < chunks.len()
        invariant
            i <= chunks.len(),
            cs == writable_models(chunks@),
            table@ == words_bytes(offset_words(cs, i as nat)),
            body@ == chunks_bytes(cs, i as int),
        decreases chunks.len() - i,
    {
        let at: u32 = to_low_word(32 + 4 * (chunks.len() as u128) + body.len() as u128);
        push_u32(&mut table, at);
        proof {
            let w = offset_words(cs, i as nat + 1);
            assert(w.drop_last() =~= offset_words(cs, i as nat));
            assert(w.last() == at);
        }
        let c = &chunks[i];
        assert(cs[i as int] == c.model());
        let ghost before = body@;
        push_bytes(&mut body, &c.fourcc);
        push_u32(&mut body, to_low_word(c.data.len() as u128));
        push_bytes(&mut body, c.data.as_slice());
        proof {
            crate::text::lemma_append3(
                before,
                c.fourcc@,
                word_bytes(low_word(c.data@.len())),
                c.data@,
            );
        }
        i += 1;
    }
    (table, body)
}

/// The container of those chunks, with that version and checksum.
pub fn build_dxbc_with_header(chunks: &[WritableChunk], version: u32, hash: &[u8; 16]) -> (r: Vec<
    u8,
>)
    ensures
        r@ == container_bytes(writable_models(chunks@), version, hash@),
{
    let ghost cs = writable_models(chunks@);
    let (table, body) = build_chunks(chunks);
    proof {
        lemma_words_bytes(offset_words(cs, cs.len()));
    }
    let mut out: Vec<u8> = Vec::new();
    push_bytes(&mut out, &[0x44u8, 0x58u8, 0x42u8, 0x43u8]);
    assert(out@ =~= magic());
    push_bytes(&mut out, hash);
    let ghost head = magic() + hash@;
    let mut rest: Vec<u8> = Vec::new();
    push_u32(&mut rest, version);
    assert(rest@ =~= word_bytes(version));
    push_u32(
        &mut rest,
        to_low_word(32 + 4 * (chunks.len() as u128) + body.len() as u128),
    );
    push_u32(&mut rest, to_low_word(chunks.len() as u128));
    push_bytes(&mut rest, table.as_slice());
    push_bytes(&mut rest, body.as_slice());
    assert(rest@ == container_body(cs, version));
    push_bytes(&mut out, rest.as_slice());
    out
}

/// The container of those chunks, of version one and without a checksum.
pub fn build_dxbc(chunks: &[WritableChunk]) -> (r: Vec<u8>)
    ensures
        r@ == container_bytes(writable_models(chunks@), 1, crate::checksum::zeros(16)),
{
    let hash = [0u8; 16];
    assert(hash@ =~= crate::checksum::zeros(16));
    build_dxbc_with_header(chunks, 1, &hash)
}

/// The container of those chunks, with the checksum of its content.
pub fn build_signed(chunks: &[WritableChunk], version: u32) -> (r: Vec<u8>)
    ensures
        r@ == signed_bytes(writable_models(chunks@), version),
{
    reveal(signed_bytes);
    let ghost cs = writable_models(chunks@);
    let hash = [0u8; 16];
    let blank = build_dxbc_with_header(chunks, version, &hash);
    let body = slice_subrange(blank.as_slice(), 20, blank.len());
    assert(body@ =~= container_body(cs, version));
    let digest = dxbc_checksum(body);
    let mut out: Vec<u8> = Vec::new();
    push_bytes(&mut out, &[0x44u8, 0x58u8, 0x42u8, 0x43u8]);
    assert(out@ =~= magic());
    push_bytes(&mut out, &digest);
    push_bytes(&mut out, body);
    out
}

// ---------------------------------------------------------------------------
// Reading
// ---------------------------------------------------------------------------

/// The text of a code; question marks where it is not text.
pub open spec fn fourcc_text(f: Seq<u8>) -> Seq<char> {
    if valid_utf8(f) {
        decode_utf8(f)
    } else {
        "????"@
    }
}

/// The text of a code; question marks where it is not text.
pub fn fourcc_string(f: &[u8; 4]) -> (r: String)
    ensures
        r@ == fourcc_text(f@),
{
    match text_of_bytes(f) {
        Some(s) => s,
        None => crate::text::owned("????"),
    }
}

impl<'a> Chunk<'a> {
    /// The code as text; question marks where it is not text.
    pub fn fourcc_str(&self) -> (r: String)
        ensures
            r@ == fourcc_text(self.fourcc@),
    {
        fourcc_string(&self.fourcc)
    }
}

/// The chunk that begins at position `p` of the container `c`.
pub open spec fn chunk_at(c: Seq<u8>, p: int) -> Option<ChunkModel> {
    if p + 8 <= c.len() && p + 8 + word_at(c, p + 4) <= c.len() {
        Some(
            ChunkModel {
                fourcc: c.subrange(p, p + 4),
                data: c.subrange(p + 8, p + 8 + word_at(c, p + 4)),
            },
        )
    } else {
        None
    }
}

/// The first `n` chunks of the container `c`.
pub open spec fn chunks_of(c: Seq<u8>, n: int) -> Option<Seq<ChunkModel>>
    decreases n,
{
    if n <= 0 {
        Some(Seq::empty())
    } else {
        match (chunks_of(c, n - 1), chunk_at(c, word_at(c, 32 + 4 * (n - 1)) as int)) {
            (Some(cs), Some(x)) => Some(cs.push(x)),
            _ => None,
        }
    }
}

/// The container that begins at position `p` of the file `d`: its header, its
/// table and its chunks all lie within the size it claims, and that within the
/// file.
pub open spec fn container_at(d: Seq<u8>, p: int) -> Option<ContainerModel> {
    if 0 <= p && p + 32 <= d.len() && d.subrange(p, p + 4) == magic() {
        let size = word_at(d, p + 24);
        let count = word_at(d, p + 28);
        if 32 + 4 * count <= size && p + size <= d.len() {
            match chunks_of(d.subrange(p, p + size), count as int) {
                Some(chunks) => Some(
                    ContainerModel {
                        offset: p as nat,
                        size,
                        version: word_at(d, p + 20),
                        hash: d.subrange(p + 4, p + 20),
                        chunks,
                    },
                ),
                None => None,
            }
        } else {
            None
        }
    } else {
        None
    }
}

/// The containers from position `p` of the file `d` on, each sought behind the
/// end of the one before.
pub open spec fn scanned(d: Seq<u8>, p: int) -> Seq<ContainerModel>
    decreases d.len() - p,
{
    if p < 0 || p + 32 > d.len() {
        Seq::empty()
    } else {
        match container_at(d, p) {
            Some(c) => if c.size > 0 {
                seq![c] + scanned(d, p + c.size)
            } else {
                Seq::empty()
            },
            None => scanned(d, p + 1),
        }
    }
}

proof fn lemma_chunks_none(c: Seq<u8>, n: int, m: int)
    requires
        0 <= n <= m,
        chunks_of(c, n) is None,
    ensures
        chunks_of(c, m) is None,
    decreases m - n,
{
    if n < m {
        lemma_chunks_none(c, n, m - 1);
    }
}

fn read_chunk<'a>(c: &'a [u8], p: usize) -> (r: Option<Chunk<'a>>)
    ensures
        match r {
            Some(x) => x.wf() && chunk_at(c@, p as int) == Some(x.model()),
            None => chunk_at(c@, p as int) is None,
        },
{
    if c.len() < 8 || p > c.len() - 8 {
        return None;
    }
    let size: u32 = match get_u32(c, p + 4) {
        Some(v) => v,
        None => {
            return None;
        },
    };
    if size as u64 > (c.len() - 8 - p) as u64 {
        return None;
    }
    let data = slice_subrange(c, p + 8, p + 8 + size as usize);
    let fourcc = [c[p], c[p + 1], c[p + 2], c[p + 3]];
    assert(fourcc@ =~= c@.subrange(p as int, p + 4));
    Some(Chunk { fourcc, size, data })
}

fn read_chunks<'a>(c: &'a [u8], count: u32) -> (r: Option<Vec<Chunk<'a>>>)
    requires
        32 + 4 * count <= c@.len(),
    ensures
        match r {
            Some(cs) => chunks_of(c@, count as int) == Some(chunk_models(cs@)) && forall|i: int|
                0 <= i < cs@.len() ==> (#[trigger] cs@[i]).wf(),
            None => chunks_of(c@, count as int) is None,
        },
{
    let mut out: Vec<Chunk<'a>> = Vec::new();
    let mut i: u32 = 0;
    assert(c.len() >= 32);
    assert(chunk_models(out@) =~= Seq::empty());
    while i < count
        invariant
            i <= count,
            32 + 4 * count <= c@.len(),
            c@.len() == c.len(),
            chunks_of(c@, i as int) == Some(chunk_models(out@)),
            forall|k: int| 0 <= k < out@.len() ==> (#[trigger] out@[k]).wf(),
        decreases count - i,
    {
        let p: u32 = match get_u32(c, 32 + 4 * (i as usize)) {
            Some(v) => v,
            None => {
                return None;
            },
        };
        match read_chunk(c, p as usize) {
            Some(x) => {
                let ghost before = out@;
                out.push(x);
                assert(chunk_models(out@) =~= chunk_models(before).push(x.model()));
            },
            None => {
                proof {
                    lemma_chunks_none(c@, i as int + 1, count as int);
                }
                return None;
            },
        }
        i += 1;
    }
    Some(out)
}

/// The container that begins at position `p`.
fn read_container<'a>(d: &'a [u8], p: usize) -> (r: Option<Container<'a>>)
    requires
        p + 32 <= d@.len(),
    ensures
        match r {
            Some(c) => c.wf() && container_at(d@, p as int) == Some(c.model()) && c.total_size
                >= 32 && p + c.total_size <= d@.len(),
            None => container_at(d@, p as int) is None,
        },
{
    assert(p + 32 <= d.len());
    let ghost head = d@.subrange(p as int, p + 4);
    if !(d[p] == 0x44 && d[p + 1] == 0x58 && d[p + 2] == 0x42 && d[p + 3] == 0x43) {
        assert(head[0] == d@[p as int] && head[1] == d@[p + 1] && head[2] == d@[p + 2] && head[3]
            == d@[p + 3]);
        return None;
    }
    assert(head =~= magic());
    match (get_u32(d, p + 20), get_u32(d, p + 24), get_u32(d, p + 28)) {
        (Some(version), Some(total_size), Some(count)) => {
            if 32 + 4 * (count as u64) > total_size as u64 || total_size as u64 > (d.len()
                - p) as u64 {
                return None;
            }
            let c = slice_subrange(d, p, p + total_size as usize);
            match read_chunks(c, count) {
                None => None,
                Some(chunks) => {
                    let header_hash = [
                        d[p + 4], d[p + 5], d[p + 6], d[p + 7], d[p + 8], d[p + 9], d[p + 10],
                        d[p + 11], d[p + 12], d[p + 13], d[p + 14], d[p + 15], d[p + 16],
                        d[p + 17], d[p + 18], d[p + 19],
                    ];
                    assert(header_hash@ =~= d@.subrange(p + 4, p + 20));
                    Some(Container { offset_in_file: p, total_size, version, header_hash, chunks })
                },
            }
        },
        _ => None,
    }
}

/// All containers in the bytes of a file.
pub fn scan_dxbc<'a>(d: &'a [u8]) -> (r: Vec<Container<'a>>)
    ensures
        container_models(r@) == scanned(d@, 0),
        forall|i: int| 0 <= i < r@.len() ==> (#[trigger] r@[i]).wf(),
{
    let mut out: Vec<Container<'a>> = Vec::new();
    let mut p: usize = 0;
    assert(container_models(out@) + scanned(d@, 0) =~= scanned(d@, 0));
    while d.len() - p >= 32
        invariant
            p <= d.len(),
            container_models(out@) + scanned(d@, p as int) == scanned(d@, 0),
            forall|i: int| 0 <= i < out@.len() ==> (#[trigger] out@[i]).wf(),
        decreases d.len() - p,
    {
        match read_container(d, p) {
            Some(c) => {
                let ghost before = out@;
                let n: usize = c.total_size as usize;
                let ghost m = c.model();
                out.push(c);
                proof {
                    assert(container_models(out@) =~= container_models(before).push(m));
                    assert(container_models(before) + (seq![m] + scanned(d@, p + n))
                        =~= container_models(out@) + scanned(d@, p + n));
                }
                p = p + n;
            },
            None => {
                p = p + 1;
            },
        }
    }
    assert(container_models(out@) + Seq::<ContainerModel>::empty() =~= container_models(out@));
    out
}

} // verus!
