//! Whole containers as documents, such that a container is written and read
//! back to the same bytes.
//!
//! ```text
//! .dxbc version=1
//! .code SHEX
//! ps_5_0
//! ...
//! .chunk PRIV
//!   0a0b0c...
//! .end
//! ```
//!
//! A `.code` section holds the editable text of a chunk, a `.chunk` section its
//! bytes in hexadecimal. The metadata header above them is made of comments. In
//! a document of a whole file, `.raw` sections hold the bytes around and between
//! the containers.

use vstd::prelude::*;
use vstd::slice::slice_subrange;
use vstd::utf8::encode_utf8;

use crate::chunks::rdef::{RdefModel, ResourceDef};
use crate::chunks::rdef_parse::{parse_rdef, rdef_of};
use crate::chunks::rdef_write::rdef_payload;
use crate::chunks::signature::{
    Signature, elements_of, parse_signature, signature_payload, version_of, write_signature,
};
use crate::chunks::stat::{no_stats, parse_stat, stat_payload, stats_of};
use crate::container::{
    Chunk, ChunkModel, ContainerModel, WritableChunk, build_signed, chunk_models, fourcc_string,
    fourcc_text, scanned, signed_bytes, writable_models,
};
use crate::floats::{FloatTable, Spellings};
use crate::forensic::{metadata_header, write_metadata_header};
use crate::grammar::rdef::decode::{
    hlsl_of_lines, hlsl_parsed, rdef_from_hlsl, rdef_from_hlsl_lines,
};
use crate::grammar::rdef::encode::{bytes_eq, hlsl_text, rdef_to_hlsl};
use crate::grammar::rdef::kv::{
    bytes_text, hex_bytes, no_rdef, rdef_from_lines, rdef_lines, rdef_nests, rdef_text,
    rdef_to_text, read_hex_bytes, write_bytes,
};
use crate::grammar::shex::parse::{AsmError, parse_lines, plain_error, quoting_error};
use crate::grammar::shex::reading::{quoting, read_program};
use crate::grammar::shex::serialize::serialize as program_to_text;
use crate::grammar::shex::text::program_text;
use crate::grammar::signature::{
    signature_from_lines, signature_of_lines, signature_text, signature_to_text,
};
use crate::grammar::stat::{stat_from_lines, stat_lines, stat_text, stat_to_text};
use crate::lines::{
    lines_of, next_word, take_word, text_lines, trim, trimmed, views, words, words_of,
};
use crate::numerals::{dec_text, parse_nat, parse_unsigned, push_dec};
use crate::shader::{
    Descriptions, Role, Shader, chunk_role, chunks_program, no_descriptions, parse, role_of,
    shader_models,
};
use crate::shex::decode::{decode_with_fourcc, program_of};
use crate::shex::encode::{encode, program_bytes};
use crate::shex::ir::{Program, ProgramModel};
use crate::text::{
    chars_of, is_text, push_chars, push_text, starts_with, string_of, strip_prefix, strip_text,
};

verus! {

// ---------------------------------------------------------------------------
// The text of a chunk
// ---------------------------------------------------------------------------

/// The text of resource definitions: in HLSL form where that reads back to the
/// same bytes, else as lines of `key=value`.
pub open spec fn resource_body(
    rd: RdefModel,
    data: Seq<u8>,
    p: Option<ProgramModel>,
    ft: Spellings,
) -> Option<Seq<char>> {
    if hlsl_exact(hlsl_text(rd, p, ft), data, p, ft) {
        hlsl_text(rd, p, ft)
    } else if rdef_nests(rd) {
        None
    } else {
        Some(rdef_text(rd))
    }
}

/// Whether there is a text in HLSL form and it reads back to those bytes.
pub open spec fn hlsl_exact(
    t: Option<Seq<char>>,
    data: Seq<u8>,
    p: Option<ProgramModel>,
    ft: Spellings,
) -> bool {
    match t {
        Some(t) => match hlsl_parsed(t, p, ft) {
            Some(rd) => rdef_payload(rd) == data,
            None => false,
        },
        None => false,
    }
}

/// The editable text of a chunk, where its code has a text form and the data can
/// be read.
pub open spec fn encoded_body(c: ChunkModel, p: Option<ProgramModel>, ft: Spellings) -> Option<
    Seq<char>,
> {
    match role_of(c.fourcc) {
        None => None,
        Some(Role::Program) => match program_of(c.data, c.fourcc) {
            Some(x) => Some(program_text(x, ft)),
            None => None,
        },
        Some(Role::Statistics) => if c.data.len() >= 116 {
            Some(stat_text(stats_of(c.data)))
        } else {
            None
        },
        Some(Role::Resources) => if c.data.len() >= 28 {
            resource_body(rdef_of(c.data), c.data, p, ft)
        } else {
            None
        },
        Some(_) => Some(signature_text(elements_of(c.data, version_of(c.fourcc)), c.fourcc)),
    }
}

/// Whether the lines are resource definitions in HLSL form.
pub open spec fn is_hlsl(ls: Seq<Seq<char>>) -> bool {
    ls.len() > 0 && starts_with(ls[0], "target"@)
}

/// The data of the chunk with that code whose text is those lines.
#[verifier::opaque]
pub open spec fn body_data(
    f: Seq<u8>,
    ls: Seq<Seq<char>>,
    p: Option<ProgramModel>,
    ft: Spellings,
) -> Result<Seq<u8>, Seq<char>> {
    match role_of(f) {
        None => Err("no text codec for chunk"@),
        Some(Role::Program) => match read_program(ls, ft) {
            Ok(x) => Ok(program_bytes(x)),
            Err(e) => Err(e),
        },
        Some(Role::Statistics) => match stat_lines(no_stats(), ls, 0) {
            Some(s) => Ok(stat_payload(s)),
            None => Err("malformed stat text"@),
        },
        Some(Role::Resources) => if is_hlsl(ls) {
            match hlsl_of_lines(ls, p, ft) {
                Some(rd) => Ok(rdef_payload(rd)),
                None => Err("malformed rdef hlsl"@),
            }
        } else {
            match rdef_lines(no_rdef(), ls, 0) {
                Some(rd) => Ok(rdef_payload(rd)),
                None => Err("malformed rdef text"@),
            }
        },
        Some(_) => match signature_of_lines(ls, f) {
            Some(es) => Ok(signature_payload(es, version_of(f))),
            None => Err("malformed signature text"@),
        },
    }
}

/// Whether a text keeps its lines when it stands in a document: it ends at a
/// line break, and none of its lines begins like a directive.
pub open spec fn framed(t: Seq<char>) -> bool {
    &&& t.len() == 0 || t.last() == '\n'
    &&& no_directive(text_lines(t, true))
}

/// Whether none of the lines begins like a directive.
pub open spec fn no_directive(ls: Seq<Seq<char>>) -> bool {
    forall|i: int| 0 <= i < ls.len() ==> !is_directive(#[trigger] ls[i])
}

/// Whether the line begins like a directive.
pub open spec fn is_directive(line: Seq<char>) -> bool {
    starts_with(line, "."@)
}

/// The editable text of a chunk, where it reads back within a document to
/// exactly the data.
#[verifier::opaque]
pub open spec fn chunk_body(c: ChunkModel, p: Option<ProgramModel>, ft: Spellings) -> Option<
    Seq<char>,
> {
    match encoded_body(c, p, ft) {
        Some(t) => if framed(t) && body_data(c.fourcc, text_lines(t, true), p, ft) == Ok::<
            Seq<u8>,
            Seq<char>,
        >(c.data) {
            Some(t)
        } else {
            None
        },
        None => None,
    }
}

/// The program of an optional reference.
pub open spec fn program_view(p: Option<&Program>) -> Option<ProgramModel> {
    match p {
        Some(x) => Some(x.model()),
        None => None,
    }
}

fn resource_text(
    rd: &ResourceDef,
    data: &[u8],
    program: Option<&Program>,
    floats: &FloatTable,
) -> (r: Option<String>)
    ensures
        match r {
            Some(t) => resource_body(rd.model(), data@, program_view(program), floats@) == Some(t@),
            None => resource_body(rd.model(), data@, program_view(program), floats@) is None,
        },
{
    match rdef_to_hlsl(rd, program, floats) {
        Some(t) => {
            match rdef_from_hlsl(t.as_str(), program, floats) {
                Some(rd2) => {
                    let b = rd2.write_payload();
                    if bytes_eq(b.as_slice(), data) {
                        return Some(t);
                    }
                },
                None => {},
            }
        },
        None => {},
    }
    rdef_to_text(rd)
}

/// The editable text of a chunk, where its code has a text form and the data can
/// be read.
fn encode_to_text(
    fourcc: [u8; 4],
    data: &[u8],
    program: Option<&Program>,
    floats: &FloatTable,
) -> (r: Option<String>)
    ensures
        match r {
            Some(t) => encoded_body(
                (ChunkModel { fourcc: fourcc@, data: data@ }),
                program_view(program),
                floats@,
            ) == Some(t@),
            None => encoded_body(
                (ChunkModel { fourcc: fourcc@, data: data@ }),
                program_view(program),
                floats@,
            ) is None,
        },
{
    match chunk_role(&fourcc) {
        None => None,
        Some(Role::Program) => match decode_with_fourcc(data, fourcc) {
            Some(p) => Some(program_to_text(&p, floats)),
            None => None,
        },
        Some(Role::Statistics) => match parse_stat(data) {
            Some(s) => Some(stat_to_text(&s)),
            None => None,
        },
        Some(Role::Resources) => match parse_rdef(data) {
            Some(rd) => resource_text(&rd, data, program, floats),
            None => None,
        },
        Some(_) => {
            let sig = Signature { fourcc, elements: parse_signature(fourcc, data) };
            Some(signature_to_text(&sig))
        },
    }
}

fn begins(lines: &Vec<&[char]>, prefix: &str) -> (r: bool)
    ensures
        r == (lines@.len() > 0 && starts_with(views(lines@)[0], prefix@)),
{
    lines.len() > 0 && strip_text(lines[0], prefix).is_some()
}

/// The data of the chunk with that code whose editable text is those lines.
fn body_to_chunk(
    fourcc: [u8; 4],
    lines: &Vec<&[char]>,
    program: Option<&Program>,
    floats: &FloatTable,
) -> (r: Result<Vec<u8>, AsmError>)
    ensures
        match r {
            Ok(d) => body_data(fourcc@, views(lines@), program_view(program), floats@) == Ok::<
                Seq<u8>,
                Seq<char>,
            >(d@),
            Err(e) => body_data(fourcc@, views(lines@), program_view(program), floats@) == Err::<
                Seq<u8>,
                Seq<char>,
            >(e.message@),
        },
{
    reveal(body_data);
    match chunk_role(&fourcc) {
        None => Err(plain_error("no text codec for chunk")),
        Some(Role::Program) => match parse_lines(lines, floats) {
            Ok(p) => Ok(encode(&p)),
            Err(e) => Err(e),
        },
        Some(Role::Statistics) => match stat_from_lines(lines) {
            Some(s) => Ok(s.write_payload()),
            None => Err(plain_error("malformed stat text")),
        },
        Some(Role::Resources) => {
            if begins(lines, "target") {
                match rdef_from_hlsl_lines(lines, program, floats) {
                    Some(rd) => Ok(rd.write_payload()),
                    None => Err(plain_error("malformed rdef hlsl")),
                }
            } else {
                match rdef_from_lines(lines) {
                    Some(rd) => Ok(rd.write_payload()),
                    None => Err(plain_error("malformed rdef text")),
                }
            }
        },
        Some(_) => match signature_from_lines(fourcc, lines) {
            Some(s) => Ok(write_signature(fourcc, &s.elements)),
            None => Err(plain_error("malformed signature text")),
        },
    }
}

fn directive(line: &[char]) -> (r: bool)
    ensures
        r == is_directive(line@),
{
    strip_text(line, ".").is_some()
}

fn keeps_lines(t: &[char], lines: &Vec<&[char]>) -> (r: bool)
    requires
        views(lines@) == text_lines(t@, true),
    ensures
        r == framed(t@),
{
    if t.len() > 0 && t[t.len() - 1] != '\n' {
        return false;
    }
    let ghost ls = views(lines@);
    let mut i: usize = 0;
    while i < lines.len()
        invariant
            i <= lines.len(),
            ls == views(lines@),
            ls == text_lines(t@, true),
            forall|k: int| 0 <= k < i ==> !is_directive(#[trigger] ls[k]),
        decreases lines.len() - i,
    {
        assert(ls[i as int] == lines@[i as int]@);
        if directive(lines[i]) {
            return false;
        }
        i += 1;
    }
    true
}

/// The editable text of a chunk, but only where reading it back in a document
/// gives exactly the data, so that no text form can put a byte at risk.
fn chunk_to_body(
    fourcc: [u8; 4],
    data: &[u8],
    program: Option<&Program>,
    floats: &FloatTable,
) -> (r: Option<String>)
    ensures
        match r {
            Some(t) => chunk_body(
                (ChunkModel { fourcc: fourcc@, data: data@ }),
                program_view(program),
                floats@,
            ) == Some(t@),
            None => chunk_body(
                (ChunkModel { fourcc: fourcc@, data: data@ }),
                program_view(program),
                floats@,
            ) is None,
        },
{
    reveal(chunk_body);
    let body = match encode_to_text(fourcc, data, program, floats) {
        Some(t) => t,
        None => {
            return None;
        },
    };
    let chars = chars_of(body.as_str());
    assert(chars@ == body@);
    let lines = lines_of(chars.as_slice(), true);
    if !keeps_lines(chars.as_slice(), &lines) {
        return None;
    }
    match body_to_chunk(fourcc, &lines, program, floats) {
        Ok(d) => {
            if bytes_eq(d.as_slice(), data) {
                return Some(body);
            }
        },
        Err(_) => {},
    }
    None
}

// ---------------------------------------------------------------------------
// Writing documents
// ---------------------------------------------------------------------------

/// The number of bytes on a full line of hexadecimal digits.
pub const HEX_PER_LINE: usize = 32;

/// The bytes in hexadecimal, on indented lines.
pub open spec fn hex_block(d: Seq<u8>) -> Seq<char>
    decreases d.len(),
{
    if d.len() == 0 {
        Seq::empty()
    } else if d.len() <= HEX_PER_LINE {
        hex_row(d)
    } else {
        hex_row(d.take(HEX_PER_LINE as int)) + hex_block(d.skip(HEX_PER_LINE as int))
    }
}

/// One line of hexadecimal digits.
pub open spec fn hex_row(d: Seq<u8>) -> Seq<char> {
    "  "@ + bytes_text(d, d.len() as int) + "\n"@
}

/// The line above the editable text of a chunk. Resource definitions say which
/// form they have.
pub open spec fn code_line(f: Seq<u8>, ls: Seq<Seq<char>>) -> Seq<char> {
    ".code "@ + fourcc_text(f) + (if role_of(f) == Some(Role::Resources) {
        if is_hlsl(ls) {
            " form=hlsl"@
        } else {
            " form=kv"@
        }
    } else {
        Seq::empty()
    })
}

/// The line above the bytes of a chunk.
pub open spec fn chunk_line(f: Seq<u8>) -> Seq<char> {
    ".chunk "@ + fourcc_text(f)
}

/// The section of a chunk.
#[verifier::opaque]
pub open spec fn section_text(c: ChunkModel, p: Option<ProgramModel>, ft: Spellings) -> Seq<char> {
    match chunk_body(c, p, ft) {
        Some(t) => code_line(c.fourcc, text_lines(t, true)) + "\n"@ + t,
        None => chunk_line(c.fourcc) + "\n"@ + hex_block(c.data),
    }
}

/// The sections of the first `n` chunks.
pub open spec fn sections_text(
    cs: Seq<ChunkModel>,
    p: Option<ProgramModel>,
    ft: Spellings,
    n: int,
) -> Seq<char>
    decreases n,
{
    if n <= 0 {
        Seq::empty()
    } else {
        sections_text(cs, p, ft, n - 1) + section_text(cs[n - 1], p, ft)
    }
}

/// The first line of a document.
pub open spec fn dxbc_line(version: u32) -> Seq<char> {
    ".dxbc version="@ + dec_text(version as nat)
}

/// The document of a container: the metadata header, the version, and a section
/// for each chunk.
#[verifier::opaque]
pub open spec fn document(c: ContainerModel, d: Descriptions, ft: Spellings) -> Seq<char> {
    metadata_header(c, d) + dxbc_line(c.version) + "\n"@ + sections_text(
        c.chunks,
        chunks_program(c.chunks),
        ft,
        c.chunks.len() as int,
    ) + ".end\n"@
}

fn write_hex_block(out: &mut String, data: &[u8])
    ensures
        final(out)@ == old(out)@ + hex_block(data@),
{
    let ghost d = data@;
    let ghost o = out@;
    let mut i: usize = 0;
    let mut done = String::new();
    assert(done@ + hex_block(d.skip(0)) =~= hex_block(d)) by {
        assert(d.skip(0) =~= d);
    }
    while i < data.len()
        invariant
            d == data@,
            i <= data.len(),
            done@ + hex_block(d.skip(i as int)) == hex_block(d),
        decreases data.len() - i,
    {
        let n: usize = if data.len() - i > HEX_PER_LINE {
            HEX_PER_LINE
        } else {
            data.len() - i
        };
        let row = slice_subrange(data, i, i + n);
        let mut l = String::new();
        push_text(&mut l, "  ");
        assert(l@ =~= "  "@);
        write_bytes(&mut l, row);
        push_text(&mut l, "\n");
        let ghost before = done@;
        push_text(&mut done, l.as_str());
        proof {
            let rest = d.skip(i as int);
            assert(row@ =~= rest.take(n as int));
            assert(rest.skip(n as int) =~= d.skip(i + n));
            if rest.len() <= HEX_PER_LINE {
                assert(rest.take(n as int) =~= rest);
                assert(d.skip(i + n) =~= Seq::empty());
                assert(hex_block(d.skip(i + n)) =~= Seq::empty());
            }
            assert(hex_block(rest) =~= hex_row(row@) + hex_block(d.skip(i + n)));
            assert(before + hex_row(row@) + hex_block(d.skip(i + n)) =~= before + (hex_row(row@)
                + hex_block(d.skip(i + n))));
        }
        i += n;
    }
    assert(d.skip(i as int) =~= Seq::empty());
    assert(done@ =~= hex_block(d));
    push_text(out, done.as_str());
}

fn section_of(c: &Chunk<'_>, program: Option<&Program>, floats: &FloatTable) -> (l: String)
    ensures
        l@ == section_text(c.model(), program_view(program), floats@),
{
    reveal(section_text);
    let code = fourcc_string(&c.fourcc);
    let mut l = String::new();
    match chunk_to_body(c.fourcc, c.data, program, floats) {
        Some(body) => {
            push_text(&mut l, ".code ");
            assert(l@ =~= ".code "@);
            push_text(&mut l, code.as_str());
            let mut form = String::new();
            match chunk_role(&c.fourcc) {
                Some(Role::Resources) => {
                    let chars = chars_of(body.as_str());
                    assert(chars@ == body@);
                    let lines = lines_of(chars.as_slice(), true);
                    if begins(&lines, "target") {
                        push_text(&mut form, " form=hlsl");
                        assert(form@ =~= " form=hlsl"@);
                    } else {
                        push_text(&mut form, " form=kv");
                        assert(form@ =~= " form=kv"@);
                    }
                },
                _ => {
                    assert(form@ =~= Seq::empty());
                },
            }
            push_text(&mut l, form.as_str());
            push_text(&mut l, "\n");
            push_text(&mut l, body.as_str());
        },
        None => {
            push_text(&mut l, ".chunk ");
            assert(l@ =~= ".chunk "@);
            push_text(&mut l, code.as_str());
            push_text(&mut l, "\n");
            write_hex_block(&mut l, c.data);
        },
    }
    l
}

fn sections_of(
    chunks: &Vec<Chunk<'_>>,
    program: Option<&Program>,
    floats: &FloatTable,
) -> (sections: String)
    ensures
        sections@ == sections_text(
            chunk_models(chunks@),
            program_view(program),
            floats@,
            chunks@.len() as int,
        ),
{
    let ghost cs = chunk_models(chunks@);
    let mut sections = String::new();
    let mut i: usize = 0;
    while i < chunks.len()
        invariant
            i <= chunks.len(),
            cs == chunk_models(chunks@),
            sections@ == sections_text(cs, program_view(program), floats@, i as int),
        decreases chunks.len() - i,
    {
        assert(cs[i as int] == chunks@[i as int].model());
        let l = section_of(&chunks[i], program, floats);
        push_text(&mut sections, l.as_str());
        i += 1;
    }
    sections
}

/// Write a container as a document.
pub fn serialize(shader: &Shader<'_>, floats: &FloatTable) -> (r: String)
    requires
        shader.wf(),
    ensures
        r@ == document(shader.container.model(), shader.descriptions(), floats@),
{
    reveal(document);
    let ghost cs = shader.container.model().chunks;
    let program = shader.program();
    let p = match &program {
        Some(x) => Some(x),
        None => None,
    };
    assert(program_view(p) == chunks_program(cs));
    let sections = sections_of(&shader.container.chunks, p, floats);
    let mut first = String::new();
    push_text(&mut first, ".dxbc version=");
    assert(first@ =~= ".dxbc version="@);
    push_dec(&mut first, shader.container.version as u64);
    let mut out = String::new();
    write_metadata_header(&mut out, shader);
    assert(out@ =~= metadata_header(shader.container.model(), shader.descriptions()));
    push_text(&mut out, first.as_str());
    push_text(&mut out, "\n");
    push_text(&mut out, sections.as_str());
    push_text(&mut out, ".end\n");
    out
}

/// The bytes outside containers, as a section of their own where there are any.
pub open spec fn raw_section(d: Seq<u8>) -> Seq<char> {
    if d.len() == 0 {
        Seq::empty()
    } else {
        ".raw\n"@ + hex_block(d)
    }
}

/// The end of the last of the first `n` containers.
pub open spec fn end_of(cs: Seq<ContainerModel>, n: int) -> int {
    if n <= 0 {
        0
    } else {
        cs[n - 1].offset + cs[n - 1].size
    }
}

/// What stands between the container number `n` and the one before it.
pub open spec fn gap_before(d: Seq<u8>, cs: Seq<ContainerModel>, n: int) -> Seq<u8> {
    if end_of(cs, n) < cs[n].offset {
        d.subrange(end_of(cs, n), cs[n].offset as int)
    } else {
        Seq::empty()
    }
}

/// The first `n` containers and what stands before each.
pub open spec fn containers_text(
    d: Seq<u8>,
    cs: Seq<ContainerModel>,
    ft: Spellings,
    n: int,
) -> Seq<char>
    decreases n,
{
    if n <= 0 {
        Seq::empty()
    } else {
        containers_text(d, cs, ft, n - 1) + raw_section(gap_before(d, cs, n - 1)) + document(
            cs[n - 1],
            no_descriptions(),
            ft,
        )
    }
}

/// The document of a whole file.
pub open spec fn file_document(d: Seq<u8>, ft: Spellings) -> Seq<char> {
    let cs = scanned(d, 0);
    let n = cs.len() as int;
    containers_text(d, cs, ft, n) + raw_section(d.skip(end_of(cs, n)))
}

fn raw_section_of(data: &[u8]) -> (l: String)
    ensures
        l@ == raw_section(data@),
{
    let mut l = String::new();
    if data.len() > 0 {
        push_text(&mut l, ".raw\n");
        assert(l@ =~= ".raw\n"@);
        write_hex_block(&mut l, data);
    } else {
        assert(l@ =~= Seq::empty());
    }
    l
}

/// The containers found from position `p` on lie within the file, one behind the
/// other, none before `p`.
pub proof fn lemma_scanned(d: Seq<u8>, p: int)
    requires
        0 <= p <= d.len(),
    ensures
        forall|i: int|
            0 <= i < scanned(d, p).len() ==> {
                let c = #[trigger] scanned(d, p)[i];
                &&& (if i > 0 {
                    end_of(scanned(d, p), i)
                } else {
                    p
                }) <= c.offset
                &&& c.size > 0
                &&& c.offset + c.size <= d.len()
                &&& crate::container::container_at(d, c.offset as int) == Some(c)
            },
    decreases d.len() - p,
{
    let all = scanned(d, p);
    if p + 32 <= d.len() {
        match crate::container::container_at(d, p) {
            Some(c) => {
                if c.size > 0 {
                    let rest = scanned(d, p + c.size);
                    lemma_scanned(d, p + c.size);
                    assert forall|i: int| 0 <= i < all.len() implies ({
                        let c = #[trigger] all[i];
                        &&& (if i > 0 {
                            end_of(all, i)
                        } else {
                            p
                        }) <= c.offset
                        &&& c.size > 0
                        &&& c.offset + c.size <= d.len()
                        &&& crate::container::container_at(d, c.offset as int) == Some(c)
                    }) by {
                        if i > 0 {
                            assert(all[i] == rest[i - 1]);
                            if i > 1 {
                                assert(all[i - 1] == rest[i - 2]);
                            }
                        }
                    }
                }
            },
            None => {
                lemma_scanned(d, p + 1);
            },
        }
    }
}

/// Write a whole file as a document: each container found in it as a document of
/// its own, all other bytes as they are.
pub fn serialize_file(data: &[u8], floats: &FloatTable) -> (r: String)
    ensures
        r@ == file_document(data@, floats@),
{
    let ghost d = data@;
    let shaders = parse(data);
    let ghost cs = scanned(d, 0);
    proof {
        lemma_scanned(d, 0);
    }
    let mut out = String::new();
    let mut pos: usize = 0;
    let mut i: usize = 0;
    while i < shaders.len()
        invariant
            d == data@,
            i <= shaders.len(),
            cs == scanned(d, 0),
            cs == shader_models(shaders@),
            forall|k: int|
                0 <= k < shaders@.len() ==> (#[trigger] shaders@[k]).wf()
                    && shaders@[k].descriptions() == no_descriptions(),
            pos == end_of(cs, i as int),
            pos <= data.len(),
            out@ == containers_text(d, cs, floats@, i as int),
        decreases shaders.len() - i,
    {
        proof {
            lemma_scanned(d, 0);
        }
        let shader = &shaders[i];
        assert(cs[i as int] == shader.container.model());
        let start: usize = shader.offset();
        assert(pos <= start);
        let gap = raw_section_of(slice_subrange(data, pos, start));
        proof {
            if pos == start {
                assert(data@.subrange(pos as int, start as int) =~= gap_before(d, cs, i as int));
            }
        }
        push_text(&mut out, gap.as_str());
        assert(shaders@[i as int].wf());
        let doc = serialize(shader, floats);
        push_text(&mut out, doc.as_str());
        pos = start + shader.size() as usize;
        i += 1;
    }
    let last = raw_section_of(slice_subrange(data, pos, data.len()));
    assert(data@.subrange(pos as int, d.len() as int) =~= d.skip(pos as int));
    push_text(&mut out, last.as_str());
    out
}

// ---------------------------------------------------------------------------
// Reading documents
// ---------------------------------------------------------------------------

/// A section of a document.
#[verifier::ext_equal]
pub struct SectionModel {
    /// The code of the chunk.
    pub fourcc: Seq<u8>,
    /// Whether the lines are editable text; else they are hexadecimal digits.
    pub editable: bool,
    /// The lines of the section.
    pub body: Seq<Seq<char>>,
}

/// The first line from number `i` on that begins like a directive.
pub open spec fn body_end(ls: Seq<Seq<char>>, i: int) -> int
    decreases ls.len() - i,
{
    if i >= ls.len() || is_directive(ls[i]) {
        i
    } else {
        body_end(ls, i + 1)
    }
}

/// The body of a section ends within the document.
pub proof fn lemma_body_end(ls: Seq<Seq<char>>, i: int)
    requires
        0 <= i <= ls.len(),
    ensures
        i <= body_end(ls, i) <= ls.len(),
    decreases ls.len() - i,
{
    if i < ls.len() && !is_directive(ls[i]) {
        lemma_body_end(ls, i + 1);
    }
}

/// The code that a text names.
pub open spec fn read_fourcc(s: Seq<char>) -> Result<Seq<u8>, Seq<char>> {
    if encode_utf8(s).len() == 4 {
        Ok(encode_utf8(s))
    } else {
        Err(quoting("fourcc must be 4 bytes: "@, s))
    }
}

/// The first word of a text; nothing where it has none.
pub open spec fn first_word(s: Seq<char>) -> Seq<char> {
    match next_word(s) {
        Some((w, _)) => w,
        None => Seq::empty(),
    }
}

/// What the line of a directive says of the section below it: the code, and
/// whether the section is editable. Of a `.code` line only the first word counts.
#[verifier::opaque]
pub open spec fn section_head(line: Seq<char>) -> Result<(Seq<u8>, bool), Seq<char>> {
    match strip_prefix(line, ".code "@) {
        Some(rest) => match read_fourcc(first_word(rest)) {
            Ok(f) => Ok((f, true)),
            Err(e) => Err(e),
        },
        None => match strip_prefix(line, ".chunk "@) {
            Some(rest) => match read_fourcc(trim(rest)) {
                Ok(f) => Ok((f, false)),
                Err(e) => Err(e),
            },
            None => Err(quoting("unexpected directive: "@, line)),
        },
    }
}

/// The section that begins at line `i`.
pub open spec fn section_at(ls: Seq<Seq<char>>, i: int) -> Result<SectionModel, Seq<char>> {
    match section_head(ls[i]) {
        Ok((fourcc, editable)) => Ok(
            SectionModel { fourcc, editable, body: ls.subrange(i + 1, body_end(ls, i + 1)) },
        ),
        Err(e) => Err(e),
    }
}

/// The first `n` lines, one directly behind the other.
pub open spec fn joined(ls: Seq<Seq<char>>, n: int) -> Seq<char>
    decreases n,
{
    if n <= 0 {
        Seq::empty()
    } else {
        joined(ls, n - 1) + ls[n - 1]
    }
}

/// The bytes that a text of hexadecimal digits stands for.
pub open spec fn hex_decoded(s: Seq<char>) -> Result<Seq<u8>, Seq<char>> {
    if encode_utf8(s).len() % 2 != 0 {
        Err("hex block has odd length"@)
    } else {
        match read_hex_bytes(s) {
            Some(b) => Ok(b),
            None => Err("bad hex digit"@),
        }
    }
}

/// The bytes on lines of hexadecimal digits.
pub open spec fn hex_data(ls: Seq<Seq<char>>) -> Result<Seq<u8>, Seq<char>> {
    hex_decoded(joined(ls, ls.len() as int))
}

/// The data of a section.
#[verifier::opaque]
pub open spec fn section_data(s: SectionModel, p: Option<ProgramModel>, ft: Spellings) -> Result<
    Seq<u8>,
    Seq<char>,
> {
    if s.editable {
        body_data(s.fourcc, s.body, p, ft)
    } else {
        hex_data(s.body)
    }
}

/// Whether the document has no section at line `i`.
pub open spec fn at_end(ls: Seq<Seq<char>>, i: int) -> bool {
    i < 0 || i >= ls.len() || ls[i] == ".end"@
}

/// The program of a document: that of its first section with a program, looked
/// for from line `i` on. It is found wherever it stands, since the resource
/// definitions depend on it.
pub open spec fn document_program(ls: Seq<Seq<char>>, i: int, ft: Spellings) -> Option<ProgramModel>
    decreases ls.len() - i,
    via document_decreases
{
    if at_end(ls, i) {
        None
    } else {
        match section_at(ls, i) {
            Err(_) => None,
            Ok(s) => if role_of(s.fourcc) == Some(Role::Program) {
                match section_data(s, None, ft) {
                    Ok(d) => program_of(d, s.fourcc),
                    Err(_) => None,
                }
            } else {
                document_program(ls, body_end(ls, i + 1), ft)
            },
        }
    }
}

#[via_fn]
proof fn document_decreases(ls: Seq<Seq<char>>, i: int, ft: Spellings) {
    if !at_end(ls, i) {
        lemma_body_end(ls, i + 1);
    }
}

/// The chunks of a document, from line `i` on.
pub open spec fn document_chunks(
    ls: Seq<Seq<char>>,
    i: int,
    p: Option<ProgramModel>,
    ft: Spellings,
) -> Result<Seq<ChunkModel>, Seq<char>>
    decreases ls.len() - i,
    via chunks_decreases
{
    if at_end(ls, i) {
        Ok(Seq::empty())
    } else {
        match section_at(ls, i) {
            Err(e) => Err(e),
            Ok(s) => match section_data(s, p, ft) {
                Err(e) => Err(e),
                Ok(data) => match document_chunks(ls, body_end(ls, i + 1), p, ft) {
                    Err(e) => Err(e),
                    Ok(more) => Ok(seq![ChunkModel { fourcc: s.fourcc, data }] + more),
                },
            },
        }
    }
}

#[via_fn]
proof fn chunks_decreases(
    ls: Seq<Seq<char>>,
    i: int,
    p: Option<ProgramModel>,
    ft: Spellings,
) {
    if !at_end(ls, i) {
        lemma_body_end(ls, i + 1);
    }
}

/// The number that the first of the words `version=` from number `k` on gives.
pub open spec fn version_in(ws: Seq<Seq<char>>, k: int) -> Result<u32, Seq<char>>
    decreases ws.len() - k,
{
    if k < 0 || k >= ws.len() {
        Err("malformed .dxbc directive (missing version=)"@)
    } else {
        match strip_prefix(ws[k], "version="@) {
            Some(v) => match parse_nat(v, 10, 0xffff_ffff) {
                Some(n) => Ok(n as u32),
                None => Err("bad version"@),
            },
            None => version_in(ws, k + 1),
        }
    }
}

/// The container of the document on those lines, with the checksum of its
/// content.
pub open spec fn assembled(ls: Seq<Seq<char>>, ft: Spellings) -> Result<Seq<u8>, Seq<char>> {
    if ls.len() == 0 {
        Err("empty container document"@)
    } else if !starts_with(ls[0], ".dxbc"@) {
        Err("expected .dxbc directive"@)
    } else {
        match version_in(words(ls[0]), 0) {
            Err(e) => Err(e),
            Ok(version) => match document_chunks(ls, 1, document_program(ls, 1, ft), ft) {
                Err(e) => Err(e),
                Ok(cs) => Ok(signed_bytes(cs, version)),
            },
        }
    }
}

fn parse_fourcc(s: &[char]) -> (r: Result<[u8; 4], AsmError>)
    ensures
        match r {
            Ok(f) => read_fourcc(s@) == Ok::<Seq<u8>, Seq<char>>(f@),
            Err(e) => read_fourcc(s@) == Err::<Seq<u8>, Seq<char>>(e.message@),
        },
{
    let t = string_of(s);
    let b = t.as_str().as_bytes();
    if b.len() != 4 {
        return Err(quoting_error("fourcc must be 4 bytes: ", s));
    }
    let f = [b[0], b[1], b[2], b[3]];
    assert(f@ =~= b@);
    Ok(f)
}

fn parse_head(line: &[char]) -> (r: Result<([u8; 4], bool), AsmError>)
    ensures
        match r {
            Ok((f, editable)) => section_head(line@) == Ok::<(Seq<u8>, bool), Seq<char>>(
                (f@, editable),
            ),
            Err(e) => section_head(line@) == Err::<(Seq<u8>, bool), Seq<char>>(e.message@),
        },
{
    reveal(section_head);
    match strip_text(line, ".code ") {
        Some(rest) => {
            let r = match take_word(rest) {
                Some((w, _)) => parse_fourcc(w),
                None => {
                    let none: Vec<char> = Vec::new();
                    assert(none@ =~= first_word(rest@));
                    parse_fourcc(none.as_slice())
                },
            };
            match r {
                Ok(f) => Ok((f, true)),
                Err(e) => Err(e),
            }
        },
        None => match strip_text(line, ".chunk ") {
            Some(rest) => match parse_fourcc(trimmed(rest)) {
                Ok(f) => Ok((f, false)),
                Err(e) => Err(e),
            },
            None => Err(quoting_error("unexpected directive: ", line)),
        },
    }
}

/// The lines from number `a` up to number `b`.
fn sublist<'a>(lines: &Vec<&'a [char]>, a: usize, b: usize) -> (r: Vec<&'a [char]>)
    requires
        a <= b <= lines@.len(),
    ensures
        views(r@) == views(lines@).subrange(a as int, b as int),
{
    let mut out: Vec<&'a [char]> = Vec::new();
    let mut i: usize = a;
    while i < b
        invariant
            a <= i <= b <= lines@.len(),
            out@ == lines@.subrange(a as int, i as int),
        decreases b - i,
    {
        out.push(lines[i]);
        i += 1;
        assert(out@ =~= lines@.subrange(a as int, i as int));
    }
    assert(views(out@) =~= views(lines@).subrange(a as int, b as int));
    out
}

fn find_body_end(lines: &Vec<&[char]>, i: usize) -> (r: usize)
    requires
        i <= lines@.len(),
    ensures
        r == body_end(views(lines@), i as int),
        i <= r <= lines@.len(),
{
    let ghost ls = views(lines@);
    let mut j: usize = i;
    while j < lines.len() && !directive(lines[j])
        invariant
            ls == views(lines@),
            i <= j <= lines.len(),
            body_end(ls, i as int) == body_end(ls, j as int),
        decreases lines.len() - j,
    {
        assert(ls[j as int] == lines@[j as int]@);
        j += 1;
    }
    if j < lines.len() {
        assert(ls[j as int] == lines@[j as int]@);
    }
    j
}

/// The bytes on lines of hexadecimal digits.
fn hex_decode(lines: &Vec<&[char]>) -> (r: Result<Vec<u8>, AsmError>)
    ensures
        match r {
            Ok(b) => hex_data(views(lines@)) == Ok::<Seq<u8>, Seq<char>>(b@),
            Err(e) => hex_data(views(lines@)) == Err::<Seq<u8>, Seq<char>>(e.message@),
        },
{
    let ghost ls = views(lines@);
    let mut s = String::new();
    let mut i: usize = 0;
    while i < lines.len()
        invariant
            ls == views(lines@),
            i <= lines.len(),
            s@ == joined(ls, i as int),
        decreases lines.len() - i,
    {
        assert(ls[i as int] == lines@[i as int]@);
        push_chars(&mut s, lines[i]);
        i += 1;
    }
    let n: usize = s.as_str().as_bytes().len();
    if n % 2 != 0 {
        return Err(plain_error("hex block has odd length"));
    }
    let chars = chars_of(s.as_str());
    assert(chars@ == s@);
    match hex_bytes(chars.as_slice()) {
        Some(b) => Ok(b),
        None => Err(plain_error("bad hex digit")),
    }
}

fn read_section(
    fourcc: [u8; 4],
    editable: bool,
    body: &Vec<&[char]>,
    program: Option<&Program>,
    floats: &FloatTable,
) -> (r: Result<Vec<u8>, AsmError>)
    ensures
        match r {
            Ok(d) => section_data(
                (SectionModel { fourcc: fourcc@, editable, body: views(body@) }),
                program_view(program),
                floats@,
            ) == Ok::<Seq<u8>, Seq<char>>(d@),
            Err(e) => section_data(
                (SectionModel { fourcc: fourcc@, editable, body: views(body@) }),
                program_view(program),
                floats@,
            ) == Err::<Seq<u8>, Seq<char>>(e.message@),
        },
{
    reveal(section_data);
    if editable {
        body_to_chunk(fourcc, body, program, floats)
    } else {
        hex_decode(body)
    }
}

fn ends_document(lines: &Vec<&[char]>, i: usize) -> (r: bool)
    ensures
        r == at_end(views(lines@), i as int),
{
    i >= lines.len() || is_text(lines[i], ".end")
}

/// The program of the document on those lines.
fn find_program(lines: &Vec<&[char]>, floats: &FloatTable) -> (r: Option<Program>)
    requires
        lines@.len() > 0,
    ensures
        match r {
            Some(p) => document_program(views(lines@), 1, floats@) == Some(p.model()),
            None => document_program(views(lines@), 1, floats@) is None,
        },
{
    let ghost ls = views(lines@);
    let mut i: usize = 1;
    while !ends_document(lines, i)
        invariant
            ls == views(lines@),
            1 <= i <= lines@.len(),
            document_program(ls, i as int, floats@) == document_program(ls, 1, floats@),
        decreases lines@.len() - i,
    {
        assert(ls[i as int] == lines@[i as int]@);
        assert(i < lines.len());
        match parse_head(lines[i]) {
            Err(_) => {
                return None;
            },
            Ok((fourcc, editable)) => {
                let j: usize = find_body_end(lines, i + 1);
                if matches!(chunk_role(&fourcc), Some(Role::Program)) {
                    let body = sublist(lines, i + 1, j);
                    return match read_section(fourcc, editable, &body, None, floats) {
                        Ok(d) => decode_with_fourcc(d.as_slice(), fourcc),
                        Err(_) => None,
                    };
                }
                i = j;
            },
        }
    }
    None
}

/// The chunks of the document on those lines.
fn read_chunks(lines: &Vec<&[char]>, program: Option<&Program>, floats: &FloatTable) -> (r: Result<
    Vec<WritableChunk>,
    AsmError,
>)
    requires
        lines@.len() > 0,
    ensures
        match r {
            Ok(cs) => document_chunks(views(lines@), 1, program_view(program), floats@) == Ok::<
                Seq<ChunkModel>,
                Seq<char>,
            >(writable_models(cs@)),
            Err(e) => document_chunks(views(lines@), 1, program_view(program), floats@) == Err::<
                Seq<ChunkModel>,
                Seq<char>,
            >(e.message@),
        },
{
    let ghost ls = views(lines@);
    let ghost p = program_view(program);
    let ghost whole = document_chunks(ls, 1, p, floats@);
    let mut chunks: Vec<WritableChunk> = Vec::new();
    let mut i: usize = 1;
    proof {
        assert(writable_models(chunks@) =~= Seq::empty());
        match whole {
            Ok(cs) => {
                assert(Seq::<ChunkModel>::empty() + cs =~= cs);
            },
            Err(_) => {},
        }
    }
    while !ends_document(lines, i)
        invariant
            ls == views(lines@),
            p == program_view(program),
            whole == document_chunks(ls, 1, p, floats@),
            1 <= i <= lines@.len(),
            match document_chunks(ls, i as int, p, floats@) {
                Ok(more) => whole == Ok::<Seq<ChunkModel>, Seq<char>>(
                    writable_models(chunks@) + more,
                ),
                Err(e) => whole == Err::<Seq<ChunkModel>, Seq<char>>(e),
            },
        decreases lines@.len() - i,
    {
        assert(ls[i as int] == lines@[i as int]@);
        assert(i < lines.len());
        let (fourcc, editable) = match parse_head(lines[i]) {
            Ok(h) => h,
            Err(e) => {
                return Err(e);
            },
        };
        let j: usize = find_body_end(lines, i + 1);
        let body = sublist(lines, i + 1, j);
        match read_section(fourcc, editable, &body, program, floats) {
            Ok(data) => {
                let c = WritableChunk { fourcc, data };
                let ghost before = writable_models(chunks@);
                let ghost m = c.model();
                chunks.push(c);
                proof {
                    assert(writable_models(chunks@) =~= before.push(m));
                    match document_chunks(ls, j as int, p, floats@) {
                        Ok(more) => {
                            assert(before + (seq![m] + more) =~= writable_models(chunks@) + more);
                        },
                        Err(_) => {},
                    }
                }
            },
            Err(e) => {
                return Err(e);
            },
        }
        i = j;
    }
    assert(writable_models(chunks@) + Seq::<ChunkModel>::empty() =~= writable_models(chunks@));
    Ok(chunks)
}

fn parse_dxbc_directive(line: &[char]) -> (r: Result<u32, AsmError>)
    ensures
        match r {
            Ok(v) => version_in(words(line@), 0) == Ok::<u32, Seq<char>>(v),
            Err(e) => version_in(words(line@), 0) == Err::<u32, Seq<char>>(e.message@),
        },
{
    let ws = words_of(line);
    let ghost all = views(ws@);
    let mut k: usize = 0;
    while k < ws.len()
        invariant
            all == views(ws@),
            all == words(line@),
            k <= ws.len(),
            version_in(all, 0) == version_in(all, k as int),
        decreases ws.len() - k,
    {
        assert(all[k as int] == ws@[k as int]@);
        match strip_text(ws[k], "version=") {
            Some(v) => {
                return match parse_unsigned(v, 10, 0xffff_ffff) {
                    Some(n) => Ok(n as u32),
                    None => Err(plain_error("bad version")),
                };
            },
            None => {},
        }
        k += 1;
    }
    Err(plain_error("malformed .dxbc directive (missing version=)"))
}

/// The container of the document on those lines.
fn assemble_lines(lines: &Vec<&[char]>, floats: &FloatTable) -> (r: Result<Vec<u8>, AsmError>)
    ensures
        match r {
            Ok(b) => assembled(views(lines@), floats@) == Ok::<Seq<u8>, Seq<char>>(b@),
            Err(e) => assembled(views(lines@), floats@) == Err::<Seq<u8>, Seq<char>>(e.message@),
        },
{
    if lines.len() == 0 {
        return Err(plain_error("empty container document"));
    }
    assert(views(lines@)[0] == lines@[0]@);
    if !begins(lines, ".dxbc") {
        return Err(plain_error("expected .dxbc directive"));
    }
    let version: u32 = match parse_dxbc_directive(lines[0]) {
        Ok(v) => v,
        Err(e) => {
            return Err(e);
        },
    };
    let program = find_program(lines, floats);
    let p = match &program {
        Some(x) => Some(x),
        None => None,
    };
    match read_chunks(lines, p, floats) {
        Ok(chunks) => Ok(build_signed(chunks.as_slice(), version)),
        Err(e) => Err(e),
    }
}

/// Read a document, which begins with `.dxbc`, back into the bytes of its container.
/// Comments and blank lines count for nothing; what follows `.end` is not looked at.
pub fn assemble(text: &str, floats: &FloatTable) -> (r: Result<Vec<u8>, AsmError>)
    ensures
        match r {
            Ok(b) => assembled(text_lines(text@, true), floats@) == Ok::<Seq<u8>, Seq<char>>(b@),
            Err(e) => assembled(text_lines(text@, true), floats@) == Err::<Seq<u8>, Seq<char>>(
                e.message@,
            ),
        },
{
    let chars = chars_of(text);
    let lines = lines_of(chars.as_slice(), true);
    assemble_lines(&lines, floats)
}

/// The first line from number `i` on that begins a container.
pub open spec fn next_document(ls: Seq<Seq<char>>, i: int) -> int
    decreases ls.len() - i,
{
    if i >= ls.len() || starts_with(ls[i], ".dxbc"@) {
        i
    } else {
        next_document(ls, i + 1)
    }
}

/// The next container begins within the text.
pub proof fn lemma_next_document(ls: Seq<Seq<char>>, i: int)
    requires
        0 <= i <= ls.len(),
    ensures
        i <= next_document(ls, i) <= ls.len(),
    decreases ls.len() - i,
{
    if i < ls.len() && !starts_with(ls[i], ".dxbc"@) {
        lemma_next_document(ls, i + 1);
    }
}

/// The containers from line `i` on, each from its first line up to that of the
/// next.
pub open spec fn all_assembled(ls: Seq<Seq<char>>, i: int, ft: Spellings) -> Result<
    Seq<u8>,
    Seq<char>,
>
    decreases ls.len() - i,
    via all_decreases
{
    if i < 0 || i >= ls.len() {
        Ok(Seq::empty())
    } else {
        match assembled(ls.subrange(i, next_document(ls, i + 1)), ft) {
            Err(e) => Err(e),
            Ok(b) => match all_assembled(ls, next_document(ls, i + 1), ft) {
                Err(e) => Err(e),
                Ok(more) => Ok(b + more),
            },
        }
    }
}

#[via_fn]
proof fn all_decreases(ls: Seq<Seq<char>>, i: int, ft: Spellings) {
    if 0 <= i < ls.len() {
        lemma_next_document(ls, i + 1);
    }
}

/// The line behind the `.end` that is the first from number `i` on.
pub open spec fn document_end(ls: Seq<Seq<char>>, i: int) -> int
    decreases ls.len() - i,
{
    if i >= ls.len() {
        i
    } else if ls[i] == ".end"@ {
        i + 1
    } else {
        document_end(ls, i + 1)
    }
}

/// A document ends within the text.
pub proof fn lemma_document_end(ls: Seq<Seq<char>>, i: int)
    requires
        0 <= i <= ls.len(),
    ensures
        i <= document_end(ls, i) <= ls.len(),
    decreases ls.len() - i,
{
    if i < ls.len() && ls[i] != ".end"@ {
        lemma_document_end(ls, i + 1);
    }
}

/// The line behind the part of a file that begins at line `i`.
pub open spec fn part_end(ls: Seq<Seq<char>>, i: int) -> int {
    if ls[i] == ".raw"@ {
        body_end(ls, i + 1)
    } else {
        document_end(ls, i + 1)
    }
}

/// The bytes of the part of a file that begins at line `i`.
#[verifier::opaque]
pub open spec fn part_data(ls: Seq<Seq<char>>, i: int, ft: Spellings) -> Result<
    Seq<u8>,
    Seq<char>,
> {
    if ls[i] == ".raw"@ {
        hex_data(ls.subrange(i + 1, part_end(ls, i)))
    } else if starts_with(ls[i], ".dxbc"@) {
        assembled(ls.subrange(i, part_end(ls, i)), ft)
    } else {
        Err(quoting("unexpected directive: "@, ls[i]))
    }
}

/// The bytes of the file, from line `i` on.
pub open spec fn file_assembled(ls: Seq<Seq<char>>, i: int, ft: Spellings) -> Result<
    Seq<u8>,
    Seq<char>,
>
    decreases ls.len() - i,
    via file_decreases
{
    if i < 0 || i >= ls.len() {
        Ok(Seq::empty())
    } else {
        match part_data(ls, i, ft) {
            Err(e) => Err(e),
            Ok(b) => match file_assembled(ls, part_end(ls, i), ft) {
                Err(e) => Err(e),
                Ok(more) => Ok(b + more),
            },
        }
    }
}

#[via_fn]
proof fn file_decreases(ls: Seq<Seq<char>>, i: int, ft: Spellings) {
    if 0 <= i < ls.len() {
        lemma_body_end(ls, i + 1);
        lemma_document_end(ls, i + 1);
    }
}

fn begins_document(line: &[char]) -> (r: bool)
    ensures
        r == starts_with(line@, ".dxbc"@),
{
    strip_text(line, ".dxbc").is_some()
}

fn find_document(lines: &Vec<&[char]>, i: usize) -> (r: usize)
    requires
        i <= lines@.len(),
    ensures
        r == next_document(views(lines@), i as int),
        i <= r <= lines@.len(),
{
    let ghost ls = views(lines@);
    let mut j: usize = i;
    while j < lines.len() && !begins_document(lines[j])
        invariant
            ls == views(lines@),
            i <= j <= lines.len(),
            next_document(ls, i as int) == next_document(ls, j as int),
        decreases lines.len() - j,
    {
        assert(ls[j as int] == lines@[j as int]@);
        j += 1;
    }
    if j < lines.len() {
        assert(ls[j as int] == lines@[j as int]@);
    }
    j
}

fn find_document_end(lines: &Vec<&[char]>, i: usize) -> (r: usize)
    requires
        i <= lines@.len(),
    ensures
        r == document_end(views(lines@), i as int),
        i <= r <= lines@.len(),
{
    let ghost ls = views(lines@);
    let mut j: usize = i;
    while j < lines.len()
        invariant
            ls == views(lines@),
            i <= j <= lines.len(),
            document_end(ls, i as int) == document_end(ls, j as int),
        decreases lines.len() - j,
    {
        assert(ls[j as int] == lines@[j as int]@);
        if is_text(lines[j], ".end") {
            return j + 1;
        }
        j += 1;
    }
    j
}

/// The bytes read so far are those of all that is to be read.
pub open spec fn so_far(
    whole: Result<Seq<u8>, Seq<char>>,
    done: Seq<u8>,
    rest: Result<Seq<u8>, Seq<char>>,
) -> bool {
    match rest {
        Ok(more) => whole == Ok::<Seq<u8>, Seq<char>>(done + more),
        Err(e) => whole == Err::<Seq<u8>, Seq<char>>(e),
    }
}

/// Read one or more documents back into the bytes of their containers, one
/// behind the other. Each `.dxbc` line begins a new container; what stands
/// before the first is not looked at.
pub fn assemble_all(text: &str, floats: &FloatTable) -> (r: Result<Vec<u8>, AsmError>)
    ensures
        ({
            let ls = text_lines(text@, true);
            let first = next_document(ls, 0);
            match r {
                Ok(b) => first < ls.len() && all_assembled(ls, first, floats@) == Ok::<
                    Seq<u8>,
                    Seq<char>,
                >(b@),
                Err(e) => if first < ls.len() {
                    all_assembled(ls, first, floats@) == Err::<Seq<u8>, Seq<char>>(e.message@)
                } else {
                    e.message@ == "no .dxbc container directive found"@
                },
            }
        }),
{
    let chars = chars_of(text);
    let lines = lines_of(chars.as_slice(), true);
    let ghost ls = views(lines@);
    let mut i: usize = find_document(&lines, 0);
    if i >= lines.len() {
        return Err(plain_error("no .dxbc container directive found"));
    }
    let ghost whole = all_assembled(ls, i as int, floats@);
    let mut out: Vec<u8> = Vec::new();
    proof {
        match whole {
            Ok(b) => {
                assert(out@ + b =~= b);
            },
            Err(_) => {},
        }
    }
    while i < lines.len()
        invariant
            ls == views(lines@),
            ls == text_lines(text@, true),
            next_document(ls, 0) < ls.len(),
            whole == all_assembled(ls, next_document(ls, 0), floats@),
            i <= lines.len(),
            so_far(whole, out@, all_assembled(ls, i as int, floats@)),
        decreases lines.len() - i,
    {
        let j: usize = find_document(&lines, i + 1);
        let doc = sublist(&lines, i, j);
        let mut b = match assemble_lines(&doc, floats) {
            Ok(b) => b,
            Err(e) => {
                return Err(e);
            },
        };
        let ghost before = out@;
        let ghost added = b@;
        out.append(&mut b);
        proof {
            match all_assembled(ls, j as int, floats@) {
                Ok(more) => {
                    assert(before + (added + more) =~= out@ + more);
                },
                Err(_) => {},
            }
        }
        i = j;
    }
    assert(out@ + Seq::<u8>::empty() =~= out@);
    Ok(out)
}

/// Read the part of a file that begins at line `i`, and where it ends.
fn read_part(lines: &Vec<&[char]>, i: usize, floats: &FloatTable) -> (r: Result<
    (Vec<u8>, usize),
    AsmError,
>)
    requires
        i < lines@.len(),
    ensures
        match r {
            Ok((b, j)) => part_data(views(lines@), i as int, floats@) == Ok::<Seq<u8>, Seq<char>>(
                b@,
            ) && j == part_end(views(lines@), i as int) && i < j <= lines@.len(),
            Err(e) => part_data(views(lines@), i as int, floats@) == Err::<Seq<u8>, Seq<char>>(
                e.message@,
            ),
        },
{
    reveal(part_data);
    let ghost ls = views(lines@);
    assert(ls[i as int] == lines@[i as int]@);
    assert(i < lines.len());
    if is_text(lines[i], ".raw") {
        let j: usize = find_body_end(lines, i + 1);
        let body = sublist(lines, i + 1, j);
        match hex_decode(&body) {
            Ok(b) => Ok((b, j)),
            Err(e) => Err(e),
        }
    } else if begins_document(lines[i]) {
        let j: usize = find_document_end(lines, i + 1);
        let doc = sublist(lines, i, j);
        match assemble_lines(&doc, floats) {
            Ok(b) => Ok((b, j)),
            Err(e) => Err(e),
        }
    } else {
        Err(quoting_error("unexpected directive: ", lines[i]))
    }
}

/// Read the document of a whole file back into the bytes of the file.
pub fn assemble_file(text: &str, floats: &FloatTable) -> (r: Result<Vec<u8>, AsmError>)
    ensures
        match r {
            Ok(b) => file_assembled(text_lines(text@, true), 0, floats@) == Ok::<
                Seq<u8>,
                Seq<char>,
            >(b@),
            Err(e) => file_assembled(text_lines(text@, true), 0, floats@) == Err::<
                Seq<u8>,
                Seq<char>,
            >(e.message@),
        },
{
    let chars = chars_of(text);
    let lines = lines_of(chars.as_slice(), true);
    let ghost ls = views(lines@);
    let ghost whole = file_assembled(ls, 0, floats@);
    let mut out: Vec<u8> = Vec::new();
    let mut i: usize = 0;
    proof {
        match whole {
            Ok(b) => {
                assert(out@ + b =~= b);
            },
            Err(_) => {},
        }
    }
    while i < lines.len()
        invariant
            ls == views(lines@),
            ls == text_lines(text@, true),
            whole == file_assembled(ls, 0, floats@),
            i <= lines.len(),
            so_far(whole, out@, file_assembled(ls, i as int, floats@)),
        decreases lines.len() - i,
    {
        let (part, j) = match read_part(&lines, i, floats) {
            Ok(x) => x,
            Err(e) => {
                return Err(e);
            },
        };
        let mut b = part;
        let ghost before = out@;
        let ghost added = b@;
        out.append(&mut b);
        proof {
            match file_assembled(ls, j as int, floats@) {
                Ok(more) => {
                    assert(before + (added + more) =~= out@ + more);
                },
                Err(_) => {},
            }
        }
        i = j;
    }
    assert(out@ + Seq::<u8>::empty() =~= out@);
    Ok(out)
}

/// Whether a text is the document of a container: its first line that is not a
/// comment begins with `.dxbc`.
pub open spec fn is_document(text: Seq<char>) -> bool {
    text_lines(text, true).len() > 0 && starts_with(text_lines(text, true)[0], ".dxbc"@)
}

/// Whether a text is the document of a container: its first line that is not a
/// comment begins with `.dxbc`.
pub fn is_container(text: &str) -> (r: bool)
    ensures
        r == is_document(text@),
{
    let chars = chars_of(text);
    let lines = lines_of(chars.as_slice(), true);
    begins(&lines, ".dxbc")
}

} // verus!
