//! Which chunks and containers count, where they stand, and how they are listed.

use vstd::prelude::*;

use crate::bytes::{lemma_word_bytes, word_at};
use crate::chunks::rdef::{
    BindingModel, CBufferModel, RdefModel, binding_line, dim_name_text, flag_names_text,
    left_justified, type_name_text,
};
use crate::container::{
    ChunkModel, chunk_bytes, chunk_offset, chunks_bytes, container_at, container_bytes, low_word,
    magic, scanned,
};
use crate::container_doc::{hex_block, hex_row, lemma_scanned, version_in};
use crate::forensic::{
    binding_list, buffer_line, buffer_list, contents, described, resource_block, resource_part,
    root_part, signature_part, stats_part,
};
use crate::grammar::rdef::kv::bytes_text;
use crate::numerals::{dec_text, hex_text, number_reads_back};
use crate::roundtrip::containers::{containable, lemma_chunk, lemma_layout};
use crate::shader::{Descriptions, Role, chunks_signature, first_chunk, role_of};
use crate::text::starts_with;

verus! {

// ---------------------------------------------------------------------------
// Codes
// ---------------------------------------------------------------------------

/// The code that four letters stand for.
pub open spec fn code(s: Seq<char>) -> Seq<u8> {
    seq![s[0] as u8, s[1] as u8, s[2] as u8, s[3] as u8]
}

/// What the codes of chunks stand for.
pub proof fn codes_have_their_roles()
    ensures
        role_of(code("SHEX"@)) == Some(Role::Program),
        role_of(code("SHDR"@)) == Some(Role::Program),
        role_of(code("ISGN"@)) == Some(Role::Inputs),
        role_of(code("ISG1"@)) == Some(Role::Inputs),
        role_of(code("OSGN"@)) == Some(Role::Outputs),
        role_of(code("OSG1"@)) == Some(Role::Outputs),
        role_of(code("OSG5"@)) == Some(Role::Outputs),
        role_of(code("PCSG"@)) == Some(Role::PatchConstants),
        role_of(code("PSG1"@)) == Some(Role::PatchConstants),
        role_of(code("STAT"@)) == Some(Role::Statistics),
        role_of(code("RDEF"@)) == Some(Role::Resources),
{
    reveal(role_of);
    reveal_strlit("SHEX");
    reveal_strlit("SHDR");
    reveal_strlit("ISGN");
    reveal_strlit("ISG1");
    reveal_strlit("OSGN");
    reveal_strlit("OSG1");
    reveal_strlit("OSG5");
    reveal_strlit("PCSG");
    reveal_strlit("PSG1");
    reveal_strlit("STAT");
    reveal_strlit("RDEF");
    assert(code("SHEX"@) =~= seq![0x53u8, 0x48u8, 0x45u8, 0x58u8]);
    assert(code("SHDR"@) =~= seq![0x53u8, 0x48u8, 0x44u8, 0x52u8]);
    assert(code("ISGN"@) =~= seq![0x49u8, 0x53u8, 0x47u8, 0x4eu8]);
    assert(code("ISG1"@) =~= seq![0x49u8, 0x53u8, 0x47u8, 0x31u8]);
    assert(code("OSGN"@) =~= seq![0x4fu8, 0x53u8, 0x47u8, 0x4eu8]);
    assert(code("OSG1"@) =~= seq![0x4fu8, 0x53u8, 0x47u8, 0x31u8]);
    assert(code("OSG5"@) =~= seq![0x4fu8, 0x53u8, 0x47u8, 0x35u8]);
    assert(code("PCSG"@) =~= seq![0x50u8, 0x43u8, 0x53u8, 0x47u8]);
    assert(code("PSG1"@) =~= seq![0x50u8, 0x53u8, 0x47u8, 0x31u8]);
    assert(code("STAT"@) =~= seq![0x53u8, 0x54u8, 0x41u8, 0x54u8]);
    assert(code("RDEF"@) =~= seq![0x52u8, 0x44u8, 0x45u8, 0x46u8]);
    assert(code("ISGN"@)[0] == 0x49u8 && code("ISG1"@)[0] == 0x49u8);
    assert(code("OSGN"@)[0] == 0x4fu8 && code("OSG1"@)[0] == 0x4fu8 && code("OSG5"@)[0] == 0x4fu8);
    assert(code("PCSG"@)[0] == 0x50u8 && code("PSG1"@)[0] == 0x50u8);
    assert(code("STAT"@)[1] == 0x54u8 && code("RDEF"@)[0] == 0x52u8);
}

/// Of the chunks for one thing the first counts.
pub proof fn first_chunks_count(cs: Seq<ChunkModel>, role: Role, k: int)
    ensures
        0 <= k < cs.len() && role_of(cs[k].fourcc) == Some(role) && (forall|j: int|
            0 <= j < k ==> role_of(#[trigger] cs[j].fourcc) != Some(role)) ==> first_chunk(
            cs,
            role,
            0,
        ) == Some(cs[k]),
        (forall|j: int| 0 <= j < cs.len() ==> role_of(#[trigger] cs[j].fourcc) != Some(role))
            ==> first_chunk(cs, role, 0) is None,
{
    if 0 <= k < cs.len() && role_of(cs[k].fourcc) == Some(role) && (forall|j: int|
        0 <= j < k ==> role_of(#[trigger] cs[j].fourcc) != Some(role)) {
        lemma_first_chunk(cs, role, 0, k);
    }
    if forall|j: int| 0 <= j < cs.len() ==> role_of(#[trigger] cs[j].fourcc) != Some(role) {
        lemma_no_chunk(cs, role, 0);
    }
}

proof fn lemma_first_chunk(cs: Seq<ChunkModel>, role: Role, i: int, k: int)
    requires
        0 <= i <= k < cs.len(),
        role_of(cs[k].fourcc) == Some(role),
        forall|j: int| i <= j < k ==> role_of(#[trigger] cs[j].fourcc) != Some(role),
    ensures
        first_chunk(cs, role, i) == Some(cs[k]),
    decreases k - i,
{
    if i < k {
        assert(role_of(cs[i].fourcc) != Some(role));
        lemma_first_chunk(cs, role, i + 1, k);
    }
}

proof fn lemma_no_chunk(cs: Seq<ChunkModel>, role: Role, i: int)
    requires
        0 <= i,
        forall|j: int| i <= j < cs.len() ==> role_of(#[trigger] cs[j].fourcc) != Some(role),
    ensures
        first_chunk(cs, role, i) is None,
    decreases cs.len() - i,
{
    if i < cs.len() {
        assert(role_of(cs[i].fourcc) != Some(role));
        lemma_no_chunk(cs, role, i + 1);
    }
}

// ---------------------------------------------------------------------------
// Containers
// ---------------------------------------------------------------------------

/// A container is its four letters, its checksum, version, size and number of chunks,
/// and where each chunk begins; a chunk is its code, its size and its data, the first
/// directly behind the table and each other directly behind the one before it.
pub proof fn containers_have_their_layout(
    cs: Seq<ChunkModel>,
    version: u32,
    hash: Seq<u8>,
    k: int,
)
    requires
        containable(cs),
        hash.len() == 16,
        0 <= k < cs.len(),
    ensures
        ({
            let b = container_bytes(cs, version, hash);
            let n = cs.len() as int;
            let p = word_at(b, 32 + 4 * k) as int;
            &&& b.subrange(0, 4) == code("DXBC"@)
            &&& b.subrange(4, 20) == hash
            &&& word_at(b, 20) == version
            &&& word_at(b, 24) == b.len()
            &&& word_at(b, 28) == n
            &&& k == 0 ==> p == 32 + 4 * n
            &&& k > 0 ==> p == word_at(b, 32 + 4 * (k - 1)) + 8 + cs[k - 1].data.len()
            &&& k == n - 1 ==> b.len() == p + 8 + cs[k].data.len()
            &&& b.subrange(p, p + 4) == cs[k].fourcc
            &&& word_at(b, p + 4) == cs[k].data.len()
            &&& b.subrange(p + 8, p + 8 + cs[k].data.len()) == cs[k].data
        }),
{
    let b = container_bytes(cs, version, hash);
    let n = cs.len() as int;
    reveal_strlit("DXBC");
    assert(code("DXBC"@) =~= magic());
    lemma_layout(cs, version, hash);
    lemma_word_bytes(version);
    lemma_word_bytes(low_word(chunk_offset(cs, n)));
    lemma_word_bytes(low_word(cs.len()));
    lemma_chunk(cs, version, hash, k);
    lemma_offsets(cs, k);
    if k > 0 {
        lemma_chunk(cs, version, hash, k - 1);
        lemma_offsets(cs, k - 1);
    }
}

proof fn lemma_offsets(cs: Seq<ChunkModel>, k: int)
    requires
        containable(cs),
        0 <= k < cs.len(),
    ensures
        chunk_offset(cs, 0) == 32 + 4 * cs.len(),
        chunk_offset(cs, k + 1) == chunk_offset(cs, k) + 8 + cs[k].data.len(),
{
    lemma_word_bytes(low_word(cs[k].data.len()));
    assert(chunk_bytes(cs[k]).len() == 8 + cs[k].data.len());
    assert(chunks_bytes(cs, 0).len() == 0);
}

/// Every container of a file is found, unless it begins within one that is found.
pub proof fn all_containers_are_found(d: Seq<u8>, p: int)
    requires
        container_at(d, p) is Some,
    ensures
        exists|i: int|
            0 <= i < scanned(d, 0).len() && #[trigger] scanned(d, 0)[i].offset <= p
                < scanned(d, 0)[i].offset + scanned(d, 0)[i].size,
        forall|i: int|
            0 <= i < scanned(d, 0).len() ==> container_at(
                d,
                #[trigger] scanned(d, 0)[i].offset as int,
            ) == Some(scanned(d, 0)[i]),
        forall|i: int, j: int|
            0 <= i < j < scanned(d, 0).len() ==> (#[trigger] scanned(d, 0)[i]).offset + scanned(
                d,
                0,
            )[i].size <= (#[trigger] scanned(d, 0)[j]).offset,
{
    lemma_found(d, 0, p);
    lemma_scanned(d, 0);
    assert forall|i: int, j: int| 0 <= i < j < scanned(d, 0).len() implies (#[trigger] scanned(
        d,
        0,
    )[i]).offset + scanned(d, 0)[i].size <= (#[trigger] scanned(d, 0)[j]).offset by {
        lemma_behind(d, i, j);
    }
}

proof fn lemma_behind(d: Seq<u8>, i: int, j: int)
    requires
        0 <= i < j < scanned(d, 0).len(),
    ensures
        scanned(d, 0)[i].offset + scanned(d, 0)[i].size <= scanned(d, 0)[j].offset,
    decreases j - i,
{
    lemma_scanned(d, 0);
    let c = scanned(d, 0)[j];
    if i < j - 1 {
        lemma_behind(d, i, j - 1);
        assert(scanned(d, 0)[j - 1].size > 0);
    }
}

proof fn lemma_found(d: Seq<u8>, q: int, p: int)
    requires
        0 <= q <= p,
        container_at(d, p) is Some,
    ensures
        exists|i: int|
            0 <= i < scanned(d, q).len() && #[trigger] scanned(d, q)[i].offset <= p < scanned(
                d,
                q,
            )[i].offset + scanned(d, q)[i].size,
    decreases p - q,
{
    let all = scanned(d, q);
    match container_at(d, q) {
        Some(c) => {
            assert(c.size >= 32);
            let rest = scanned(d, q + c.size);
            assert(all == seq![c] + rest);
            if p < q + c.size {
                assert(all[0] == c);
                assert(all[0].offset <= p < all[0].offset + all[0].size);
            } else {
                lemma_found(d, q + c.size, p);
                let i = choose|i: int|
                    0 <= i < rest.len() && #[trigger] rest[i].offset <= p < rest[i].offset
                        + rest[i].size;
                assert(all[i + 1] == rest[i]);
                assert(all[i + 1].offset <= p < all[i + 1].offset + all[i + 1].size);
            }
        },
        None => {
            lemma_found(d, q + 1, p);
            assert(scanned(d, q) == scanned(d, q + 1));
        },
    }
}

// ---------------------------------------------------------------------------
// Listings
// ---------------------------------------------------------------------------

/// The kinds of bindings and what they are called in a listing.
pub proof fn kinds_have_their_names(n: u32)
    ensures
        type_name_text(0) == "cbuffer"@,
        type_name_text(1) == "tbuffer"@,
        type_name_text(2) == "texture"@,
        type_name_text(3) == "sampler"@,
        type_name_text(4) == "uav_rwtyped"@,
        type_name_text(5) == "structured"@,
        type_name_text(6) == "uav_rwstructured"@,
        type_name_text(7) == "byteaddress"@,
        type_name_text(8) == "uav_rwbyteaddress"@,
        type_name_text(9) == "uav_append_structured"@,
        type_name_text(10) == "uav_consume_structured"@,
        type_name_text(11) == "uav_rwstructured_with_counter"@,
        n > 11 ==> type_name_text(n) == "unknown"@,
{
}

/// The dimensions of bindings and what they are called in a listing.
pub proof fn dimensions_have_their_names(n: u32)
    ensures
        dim_name_text(1) == "buf"@,
        dim_name_text(2) == "1d"@,
        dim_name_text(3) == "1darray"@,
        dim_name_text(4) == "2d"@,
        dim_name_text(5) == "2darray"@,
        dim_name_text(6) == "2dMS"@,
        dim_name_text(7) == "2dMSarray"@,
        dim_name_text(8) == "3d"@,
        dim_name_text(9) == "cube"@,
        dim_name_text(10) == "cubearray"@,
        n == 0 || n > 10 ==> dim_name_text(n) == "NA"@,
{
}

/// A cell of a listing is its text, filled up with spaces where it is shorter than its
/// column.
pub proof fn cells_are_filled_up(s: Seq<char>, w: nat, i: int)
    ensures
        left_justified(s, w).len() == (if s.len() < w {
            w
        } else {
            s.len()
        }),
        0 <= i < s.len() ==> left_justified(s, w)[i] == s[i],
        s.len() <= i < w ==> left_justified(s, w)[i] == ' ',
{
}

/// The columns of a binding: name, kind, dimension, register and number of registers,
/// each behind a space, and its flags where it has any: by their names, or in
/// hexadecimal where none has a name.
pub proof fn bindings_are_listed(b: BindingModel)
    ensures
        ({
            let front = left_justified(b.name, 20) + seq![' '] + left_justified(
                type_name_text(b.input_type),
                12,
            ) + seq![' '] + left_justified(dim_name_text(b.dimension), 8) + seq![' ']
                + left_justified(dec_text(b.bind_point as nat), 4) + seq![' '] + left_justified(
                dec_text(b.bind_count as nat),
                5,
            );
            let names = flag_names_text(b.flags, 5, ';');
            &&& b.flags == 0 ==> binding_line(b) == front
            &&& b.flags != 0 && names.len() > 0 ==> binding_line(b) == front + seq![' '] + names
            &&& b.flags != 0 && names.len() == 0 ==> binding_line(b) == front + seq![
                ' ',
                '0',
                'x',
            ] + hex_text(b.flags as nat)
        }),
{
    reveal_strlit(" ");
    reveal_strlit("0x");
    assert(" "@ =~= seq![' ']);
    let front = left_justified(b.name, 20) + seq![' '] + left_justified(
        type_name_text(b.input_type),
        12,
    ) + seq![' '] + left_justified(dim_name_text(b.dimension), 8) + seq![' '] + left_justified(
        dec_text(b.bind_point as nat),
        4,
    ) + seq![' '] + left_justified(dec_text(b.bind_count as nat), 5);
    let names = flag_names_text(b.flags, 5, ';');
    if b.flags == 0 {
        assert(binding_line(b) =~= front);
    } else if names.len() > 0 {
        assert(binding_line(b) =~= front + seq![' '] + names);
    } else {
        assert(binding_line(b) =~= front + seq![' ', '0', 'x'] + hex_text(b.flags as nat));
    }
}

/// What is said about the chunks and its order: resource definitions, the signatures of
/// inputs, outputs and patch constants under their titles, statistics, and last what
/// the caller describes.
pub proof fn headers_say_what_chunks_hold(cs: Seq<ChunkModel>, d: Descriptions)
    ensures
        contents(cs, d) == resource_part(cs) + signature_part(
            "Input Signature"@,
            chunks_signature(cs, Role::Inputs),
        ) + signature_part("Output Signature"@, chunks_signature(cs, Role::Outputs))
            + signature_part(
            "Patch Constant Signature"@,
            chunks_signature(cs, Role::PatchConstants),
        ) + stats_part(cs) + described(d.hash) + described(d.feature_info) + described(d.debug_name)
            + root_part(d.root_signature),
{
}

/// Bindings and buffers are listed under their titles, a line each; a buffer with its
/// size and the number of its variables.
pub proof fn resources_are_listed(rd: RdefModel, b: BindingModel, c: CBufferModel)
    ensures
        resource_block(rd) == "Resource Bindings:\n"@ + binding_list(
            rd.bindings,
            rd.bindings.len() as int,
        ) + "Constant Buffers:\n"@ + buffer_list(
            rd.constant_buffers,
            rd.constant_buffers.len() as int,
        ),
        binding_list(rd.bindings.push(b), rd.bindings.len() as int + 1) == binding_list(
            rd.bindings,
            rd.bindings.len() as int,
        ) + seq![' ', ' '] + binding_line(b) + seq!['\n'],
        buffer_list(rd.constant_buffers.push(c), rd.constant_buffers.len() as int + 1)
            == buffer_list(rd.constant_buffers, rd.constant_buffers.len() as int) + seq![' ', ' ']
            + c.name + " size="@ + dec_text(c.size as nat) + " variables="@ + dec_text(
            c.variables.len(),
        ) + seq!['\n'],
{
    reveal_strlit("  ");
    reveal_strlit("\n");
    assert("  "@ =~= seq![' ', ' ']);
    assert("\n"@ =~= seq!['\n']);
    let bs = rd.bindings;
    let n = bs.len() as int;
    lemma_binding_list(bs, b, n);
    let x = binding_list(bs, n);
    assert(x + (seq![' ', ' '] + binding_line(b) + seq!['\n']) =~= x + seq![' ', ' ']
        + binding_line(b) + seq!['\n']);
    let cs = rd.constant_buffers;
    let m = cs.len() as int;
    lemma_buffer_list(cs, c, m);
    let y = buffer_list(cs, m);
    let l = buffer_line(c);
    assert(y + l =~= y + seq![' ', ' '] + c.name + " size="@ + dec_text(c.size as nat)
        + " variables="@ + dec_text(c.variables.len()) + seq!['\n']);
}

proof fn lemma_binding_list(bs: Seq<BindingModel>, b: BindingModel, n: int)
    requires
        0 <= n <= bs.len(),
    ensures
        binding_list(bs.push(b), n) == binding_list(bs, n),
    decreases n,
{
    if n > 0 {
        lemma_binding_list(bs, b, n - 1);
    }
}

proof fn lemma_buffer_list(cs: Seq<CBufferModel>, c: CBufferModel, n: int)
    requires
        0 <= n <= cs.len(),
    ensures
        buffer_list(cs.push(c), n) == buffer_list(cs, n),
    decreases n,
{
    if n > 0 {
        lemma_buffer_list(cs, c, n - 1);
    }
}

// ---------------------------------------------------------------------------
// Documents
// ---------------------------------------------------------------------------

/// The version of a document is the one that its first line names first.
pub proof fn first_versions_count(ws: Seq<Seq<char>>, k: int, n: u32)
    requires
        0 <= k < ws.len(),
        ws[k] == "version="@ + dec_text(n as nat),
        forall|j: int| 0 <= j < k ==> !starts_with(#[trigger] ws[j], "version="@),
    ensures
        version_in(ws, 0) == Ok::<u32, Seq<char>>(n),
{
    lemma_version(ws, 0, k, n);
}

proof fn lemma_version(ws: Seq<Seq<char>>, i: int, k: int, n: u32)
    requires
        0 <= i <= k < ws.len(),
        ws[k] == "version="@ + dec_text(n as nat),
        forall|j: int| i <= j < k ==> !starts_with(#[trigger] ws[j], "version="@),
    ensures
        version_in(ws, i) == Ok::<u32, Seq<char>>(n),
    decreases k - i,
{
    if i < k {
        lemma_version(ws, i + 1, k, n);
    } else {
        let v = "version="@;
        number_reads_back(n as nat, 10, 0xffff_ffff);
        assert(ws[k].take(v.len() as int) =~= v);
        assert(ws[k].skip(v.len() as int) =~= dec_text(n as nat));
    }
}

/// Bytes are written thirty-two to a line, two digits each, behind two spaces.
pub proof fn bytes_are_written_in_rows(d: Seq<u8>)
    ensures
        d.len() == 0 ==> hex_block(d).len() == 0,
        0 < d.len() <= 32 ==> hex_block(d) == seq![' ', ' '] + bytes_text(d, d.len() as int)
            + seq!['\n'],
        d.len() > 32 ==> hex_block(d) == hex_block(d.take(32)) + hex_block(d.skip(32)),
{
    reveal_strlit("  ");
    reveal_strlit("\n");
    assert("  "@ =~= seq![' ', ' ']);
    assert("\n"@ =~= seq!['\n']);
    if d.len() > 32 {
        assert(hex_block(d.take(32)) == hex_row(d.take(32)));
    }
}

} // verus!
