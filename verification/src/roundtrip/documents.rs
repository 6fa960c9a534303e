//! Documents read back.

use vstd::prelude::*;
use vstd::utf8::{
    decode_utf8, decode_utf8_encode_utf8, encode_utf8, encode_utf8_decode_utf8,
    encode_utf8_valid_utf8, is_ascii_chars, is_ascii_chars_encode_utf8, valid_utf8,
};

use crate::container::{ChunkModel, ContainerModel, fourcc_text, signed_bytes};
use crate::container_doc::{
    SectionModel, assembled, at_end, body_data, body_end, chunk_body, chunk_line, code_line,
    document, document_chunks, document_program, dxbc_line, framed, hex_block, is_directive,
    no_directive, section_at, section_data, section_head, section_text, sections_text, version_in,
};
use crate::floats::Spellings;
use crate::forensic::{codes_on_one_line, header_is_comment, metadata_header};
use crate::lines::{
    is_clean, lemma_empty_line, lemma_one_line, lemma_text_lines_concat, lemma_trim_trimmed,
    next_word, span_solid, text_lines, trim_start, words,
};
use crate::numerals::{dec_text, is_lower_digit, lemma_number_text, number_reads_back};
use crate::roundtrip::hex::{hex_block_reads_back, lemma_hex_block};
use crate::shader::{Descriptions, Role, chunks_program, first_chunk, role_of};
use crate::shex::decode::program_of;
use crate::shex::ir::ProgramModel;
use crate::text::{is_white, lacks, starts_with};

verus! {

/// Whether the code of a chunk can stand on a directive line: it is text on one
/// line, holds no `//`, and neither begins nor ends with white space.
pub open spec fn readable_code(f: Seq<u8>) -> bool {
    &&& f.len() == 4
    &&& valid_utf8(f)
    &&& is_clean(decode_utf8(f), true)
}

/// Whether the codes of all chunks can stand on directive lines.
pub open spec fn readable_codes(cs: Seq<ChunkModel>) -> bool {
    forall|i: int| 0 <= i < cs.len() ==> readable_code(#[trigger] cs[i].fourcc)
}

/// A code of ASCII characters is the text of those characters.
proof fn lemma_ascii_code(f: Seq<u8>)
    requires
        f.len() == 4,
        forall|i: int| 0 <= i < 4 ==> #[trigger] f[i] < 128,
    ensures
        valid_utf8(f),
        decode_utf8(f) == Seq::new(4, |i: int| f[i] as char),
{
    let t = Seq::new(4, |i: int| f[i] as char);
    assert(is_ascii_chars(t));
    is_ascii_chars_encode_utf8(t);
    assert(encode_utf8(t) =~= f);
    encode_utf8_valid_utf8(t);
    encode_utf8_decode_utf8(t);
}

/// The codes with a text form are words.
pub proof fn lemma_known_code(f: Seq<u8>)
    requires
        role_of(f) is Some,
    ensures
        f.len() == 4,
        valid_utf8(f),
        fourcc_text(f) == Seq::new(4, |i: int| f[i] as char),
        forall|i: int|
            0 <= i < 4 ==> !is_white(#[trigger] fourcc_text(f)[i]) && fourcc_text(f)[i] != '/'
                && fourcc_text(f)[i] != '\n',
{
    reveal(role_of);
    lemma_ascii_code(f);
    let t = fourcc_text(f);
    assert forall|i: int| 0 <= i < 4 implies !is_white(#[trigger] t[i]) && t[i] != '/' && t[i]
        != '\n' by {
        assert(0x30 <= f[i] <= 0x5a);
        assert(t[i] == f[i] as char);
    }
}

/// The first word of a text that begins with a word.
pub proof fn lemma_first_word(w: Seq<char>, rest: Seq<char>)
    requires
        w.len() > 0,
        forall|i: int| 0 <= i < w.len() ==> !is_white(#[trigger] w[i]),
        rest.len() == 0 || is_white(rest[0]),
    ensures
        next_word(w + rest) == Some((w, rest)),
{
    let s = w + rest;
    assert(s[0] == w[0]);
    assert(trim_start(s) == s);
    lemma_span_solid_concat(w, rest);
    assert(s.take(w.len() as int) =~= w);
    assert(s.skip(w.len() as int) =~= rest);
}

proof fn lemma_span_solid_concat(w: Seq<char>, rest: Seq<char>)
    requires
        forall|i: int| 0 <= i < w.len() ==> !is_white(#[trigger] w[i]),
        rest.len() == 0 || is_white(rest[0]),
    ensures
        span_solid(w + rest) == w.len(),
    decreases w.len(),
{
    let s = w + rest;
    if w.len() == 0 {
        assert(s =~= rest);
    } else {
        assert(s[0] == w[0]);
        assert(s.skip(1) =~= w.skip(1) + rest);
        assert forall|i: int| 0 <= i < w.skip(1).len() implies !is_white(
            #[trigger] w.skip(1)[i],
        ) by {
            assert(w.skip(1)[i] == w[i + 1]);
        }
        lemma_span_solid_concat(w.skip(1), rest);
    }
}

/// The line of a `.code` section is clean and says what it should.
proof fn lemma_code_line(f: Seq<u8>, ls: Seq<Seq<char>>)
    requires
        role_of(f) is Some,
    ensures
        is_clean(code_line(f, ls), true),
        section_head(code_line(f, ls)) == Ok::<(Seq<u8>, bool), Seq<char>>((f, true)),
        is_directive(code_line(f, ls)),
        code_line(f, ls) != ".end"@,
{
    reveal(section_head);
    lemma_known_code(f);
    reveal_strlit(".code ");
    reveal_strlit(" form=hlsl");
    reveal_strlit(" form=kv");
    reveal_strlit(".");
    reveal_strlit(".end");
    let t = fourcc_text(f);
    let line = code_line(f, ls);
    let tail = line.skip(10);
    assert(line =~= ".code "@ + (t + tail));
    assert(tail =~= Seq::empty() || tail =~= " form=hlsl"@ || tail =~= " form=kv"@);
    assert(line.take(6) =~= ".code "@);
    assert(line.skip(6) =~= t + tail);
    assert(tail.len() == 0 || is_white(tail[0]));
    lemma_first_word(t, tail);
    decode_utf8_encode_utf8(f);
    assert(line.take(1) =~= "."@);
    assert forall|i: int| 0 <= i < line.len() implies #[trigger] line[i] != '/' && line[i]
        != '\n' by {
        if 6 <= i < 10 {
            assert(line[i] == t[i - 6]);
        } else if i >= 10 {
            assert(line[i] == tail[i - 10]);
        }
    }
    assert(!is_white(line[0]));
    if tail.len() == 0 {
        assert(line.last() == t[3]);
    } else {
        assert(line.last() == tail.last());
    }
    assert(line[1] == 'c');
    assert(".end"@[1] == 'e');
}

/// The line of a `.chunk` section is clean and says what it should.
proof fn lemma_chunk_line(f: Seq<u8>)
    requires
        readable_code(f),
    ensures
        is_clean(chunk_line(f), true),
        section_head(chunk_line(f)) == Ok::<(Seq<u8>, bool), Seq<char>>((f, false)),
        is_directive(chunk_line(f)),
        chunk_line(f) != ".end"@,
{
    reveal(section_head);
    reveal_strlit(".code ");
    reveal_strlit(".chunk ");
    reveal_strlit(".");
    reveal_strlit(".end");
    let t = fourcc_text(f);
    let line = chunk_line(f);
    assert(line.take(7) =~= ".chunk "@);
    assert(line.skip(7) =~= t);
    assert(line[2] == 'h');
    if starts_with(line, ".code "@) {
        assert(line.take(6)[2] == ".code "@[2]);
    }
    lemma_trim_trimmed(t);
    decode_utf8_encode_utf8(f);
    assert(line.take(1) =~= "."@);
    assert(!line.contains('\n')) by {
        if line.contains('\n') {
            let i = choose|i: int| 0 <= i < line.len() && line[i] == '\n';
            if i >= 7 {
                assert(t[i - 7] == '\n');
                assert(t.contains('\n'));
            }
        }
    }
    assert forall|i: int| 0 <= i < line.len() - 1 implies !(#[trigger] line[i] == '/' && line[i
        + 1] == '/') by {
        if i >= 7 {
            assert(t[i - 7] == line[i]);
            assert(t[i - 7 + 1] == line[i + 1]);
        }
    }
    assert(line.last() == t.last());
    assert(line[1] == 'c');
    assert(".end"@[1] == 'e');
}

/// The lines of a chunk's section: the directive, and the body below it.
pub open spec fn section_lines(c: ChunkModel, p: Option<ProgramModel>, ft: Spellings) -> Seq<
    Seq<char>,
> {
    text_lines(section_text(c, p, ft), true)
}

/// A section is a directive and a body, from which the data reads back.
pub proof fn lemma_section(c: ChunkModel, p: Option<ProgramModel>, ft: Spellings)
    requires
        readable_code(c.fourcc),
    ensures
        ({
            let ls = section_lines(c, p, ft);
            let s = section_text(c, p, ft);
            &&& s.len() > 0 && s.last() == '\n'
            &&& ls.len() > 0
            &&& is_directive(ls[0])
            &&& ls[0] != ".end"@
            &&& no_directive(ls.skip(1))
            &&& section_head(ls[0]) is Ok
            &&& section_head(ls[0])->Ok_0.0 == c.fourcc
            &&& section_data(
                (SectionModel {
                    fourcc: c.fourcc,
                    editable: section_head(ls[0])->Ok_0.1,
                    body: ls.skip(1),
                }),
                p,
                ft,
            ) == Ok::<Seq<u8>, Seq<char>>(c.data)
        }),
{
    reveal(section_text);
    reveal(section_data);
    match chunk_body(c, p, ft) {
        Some(t) => {
            let head = code_line(c.fourcc, text_lines(t, true));
            lemma_chunk_body(c, p, ft);
            lemma_code_line(c.fourcc, text_lines(t, true));
            lemma_headed(head, t);
        },
        None => {
            lemma_chunk_line(c.fourcc);
            lemma_hex_block(c.data);
            hex_block_reads_back(c.data);
            lemma_headed(chunk_line(c.fourcc), hex_block(c.data));
        },
    }
}

/// A clean line above ended lines.
pub proof fn lemma_headed(head: Seq<char>, t: Seq<char>)
    requires
        is_clean(head, true),
        t.len() == 0 || t.last() == '\n',
    ensures
        text_lines(head + "\n"@ + t, true) == seq![head] + text_lines(t, true),
        text_lines(head + "\n"@ + t, true)[0] == head,
        text_lines(head + "\n"@ + t, true).skip(1) == text_lines(t, true),
        (head + "\n"@ + t).last() == '\n',
{
    reveal_strlit("\n");
    assert("\n"@ =~= seq!['\n']);
    let s = head + "\n"@ + t;
    assert(head + "\n"@ =~= head.push('\n'));
    lemma_one_line(head, true);
    lemma_text_lines_concat(head.push('\n'), t, true);
    assert((seq![head] + text_lines(t, true)).skip(1) =~= text_lines(t, true));
    if t.len() > 0 {
        assert(s.last() == t.last());
    } else {
        assert(s =~= head.push('\n'));
    }
}

/// The editable text of a chunk keeps its lines and reads back.
proof fn lemma_chunk_body(c: ChunkModel, p: Option<ProgramModel>, ft: Spellings)
    ensures
        match chunk_body(c, p, ft) {
            Some(t) => {
                &&& role_of(c.fourcc) is Some
                &&& framed(t)
                &&& body_data(c.fourcc, text_lines(t, true), p, ft) == Ok::<Seq<u8>, Seq<char>>(
                    c.data,
                )
            },
            None => true,
        },
{
    reveal(chunk_body);
}

/// The lines of the first `n` sections.
pub open spec fn sections_lines(
    cs: Seq<ChunkModel>,
    p: Option<ProgramModel>,
    ft: Spellings,
    n: int,
) -> Seq<Seq<char>> {
    text_lines(sections_text(cs, p, ft, n), true)
}

/// The lines of one more section stand behind those of the others.
pub proof fn lemma_sections(cs: Seq<ChunkModel>, p: Option<ProgramModel>, ft: Spellings, n: int)
    requires
        0 <= n <= cs.len(),
        readable_codes(cs),
    ensures
        sections_text(cs, p, ft, n).len() == 0 || sections_text(cs, p, ft, n).last() == '\n',
        n == 0 ==> sections_lines(cs, p, ft, n) == Seq::<Seq<char>>::empty(),
        n > 0 ==> sections_lines(cs, p, ft, n) == sections_lines(cs, p, ft, n - 1)
            + section_lines(cs[n - 1], p, ft),
    decreases n,
{
    if n == 0 {
        lemma_empty_line(true);
    } else {
        lemma_sections(cs, p, ft, n - 1);
        assert(readable_code(cs[n - 1].fourcc));
        lemma_section(cs[n - 1], p, ft);
        let a = sections_text(cs, p, ft, n - 1);
        let b = section_text(cs[n - 1], p, ft);
        lemma_text_lines_concat(a, b, true);
        assert((a + b).last() == b.last());
    }
}

/// The lines of the first sections are the first of the lines of all.
proof fn lemma_sections_prefix(
    cs: Seq<ChunkModel>,
    p: Option<ProgramModel>,
    ft: Spellings,
    k: int,
    n: int,
)
    requires
        0 <= k <= n <= cs.len(),
        readable_codes(cs),
    ensures
        sections_lines(cs, p, ft, k).len() <= sections_lines(cs, p, ft, n).len(),
        sections_lines(cs, p, ft, n).take(sections_lines(cs, p, ft, k).len() as int)
            == sections_lines(cs, p, ft, k),
    decreases n - k,
{
    let a = sections_lines(cs, p, ft, k);
    let b = sections_lines(cs, p, ft, n);
    if k == n {
        assert(b.take(b.len() as int) =~= b);
    } else {
        lemma_sections_prefix(cs, p, ft, k, n - 1);
        lemma_sections(cs, p, ft, n);
        let m = sections_lines(cs, p, ft, n - 1);
        assert(b.take(a.len() as int) =~= m.take(a.len() as int));
    }
}

/// A body ends at the next directive.
pub proof fn lemma_body_end_at(ls: Seq<Seq<char>>, i: int, j: int)
    requires
        0 <= i <= j <= ls.len(),
        forall|k: int| i <= k < j ==> !is_directive(#[trigger] ls[k]),
        j == ls.len() || is_directive(ls[j]),
    ensures
        body_end(ls, i) == j,
    decreases j - i,
{
    if i < j {
        lemma_body_end_at(ls, i + 1, j);
    }
}

/// Whether the lines begin with some line, the sections of the chunks, and
/// `.end`.
pub open spec fn holds_document(
    ls: Seq<Seq<char>>,
    cs: Seq<ChunkModel>,
    p: Option<ProgramModel>,
    ft: Spellings,
) -> bool {
    let body = sections_lines(cs, p, ft, cs.len() as int);
    &&& ls.len() >= body.len() + 2
    &&& ls.subrange(1, body.len() as int + 1) == body
    &&& ls[body.len() as int + 1] == ".end"@
}

/// The line on which section number `k` begins.
pub open spec fn section_pos(
    cs: Seq<ChunkModel>,
    p: Option<ProgramModel>,
    ft: Spellings,
    k: int,
) -> int {
    sections_lines(cs, p, ft, k).len() as int + 1
}

/// Section number `k` stands in the document where it should.
proof fn lemma_section_at(
    ls: Seq<Seq<char>>,
    cs: Seq<ChunkModel>,
    p: Option<ProgramModel>,
    ft: Spellings,
    k: int,
)
    requires
        0 <= k < cs.len(),
        readable_codes(cs),
        holds_document(ls, cs, p, ft),
    ensures
        ({
            let i = section_pos(cs, p, ft, k);
            let sl = section_lines(cs[k], p, ft);
            &&& 0 <= i < ls.len()
            &&& ls[i] == sl[0]
            &&& !at_end(ls, i)
            &&& is_directive(ls[i])
            &&& body_end(ls, i + 1) == section_pos(cs, p, ft, k + 1)
            &&& ls.subrange(i + 1, body_end(ls, i + 1)) == sl.skip(1)
        }),
    decreases cs.len() - k,
{
    let n = cs.len() as int;
    let body = sections_lines(cs, p, ft, n);
    let i = section_pos(cs, p, ft, k);
    let j = section_pos(cs, p, ft, k + 1);
    let sl = section_lines(cs[k], p, ft);
    assert(readable_code(cs[k].fourcc));
    lemma_section(cs[k], p, ft);
    lemma_sections(cs, p, ft, k + 1);
    lemma_sections_prefix(cs, p, ft, k + 1, n);
    let upto = sections_lines(cs, p, ft, k + 1);
    assert forall|m: int| 0 <= m < sl.len() implies #[trigger] ls[i + m] == sl[m] by {
        assert(ls.subrange(1, body.len() as int + 1)[i - 1 + m] == ls[i + m]);
        assert(body.take(upto.len() as int)[i - 1 + m] == body[i - 1 + m]);
        assert(upto[i - 1 + m] == sl[m]);
    }
    assert(ls[i + 0] == sl[0]);
    assert forall|m: int| i + 1 <= m < j implies !is_directive(#[trigger] ls[m]) by {
        assert(ls[i + (m - i)] == sl[m - i]);
        assert(sl.skip(1)[m - i - 1] == sl[m - i]);
    }
    if k + 1 < n {
        lemma_section_at(ls, cs, p, ft, k + 1);
    } else {
        reveal_strlit(".end");
        reveal_strlit(".");
        assert(".end"@.take(1) =~= "."@);
    }
    lemma_body_end_at(ls, i + 1, j);
    assert(ls.subrange(i + 1, j) =~= sl.skip(1)) by {
        assert forall|m: int| 0 <= m < sl.len() - 1 implies ls.subrange(i + 1, j)[m] == sl.skip(
            1,
        )[m] by {
            assert(ls[i + (m + 1)] == sl[m + 1]);
        }
    }
}

/// The chunks of a document are those it was written for.
proof fn lemma_document_chunks(
    ls: Seq<Seq<char>>,
    cs: Seq<ChunkModel>,
    p: Option<ProgramModel>,
    ft: Spellings,
    k: int,
)
    requires
        0 <= k <= cs.len(),
        readable_codes(cs),
        holds_document(ls, cs, p, ft),
    ensures
        document_chunks(ls, section_pos(cs, p, ft, k), p, ft) == Ok::<Seq<ChunkModel>, Seq<char>>(
            cs.skip(k),
        ),
    decreases cs.len() - k,
{
    if k == cs.len() {
        assert(cs.skip(k) =~= Seq::empty());
    } else {
        lemma_section_at(ls, cs, p, ft, k);
        lemma_document_chunks(ls, cs, p, ft, k + 1);
        assert(readable_code(cs[k].fourcc));
        lemma_section(cs[k], p, ft);
        let more = cs.skip(k + 1);
        assert(cs.skip(k) =~= seq![cs[k]] + more);
    }
}

/// The data of a section with a program does not depend on the program of the
/// document.
proof fn lemma_program_section(s: SectionModel, p: Option<ProgramModel>, ft: Spellings)
    requires
        role_of(s.fourcc) == Some(Role::Program),
    ensures
        section_data(s, p, ft) == section_data(s, None, ft),
{
    reveal(section_data);
    reveal(body_data);
}

/// The program of a document is that of the chunks it was written for.
proof fn lemma_document_program(
    ls: Seq<Seq<char>>,
    cs: Seq<ChunkModel>,
    p: Option<ProgramModel>,
    ft: Spellings,
    k: int,
)
    requires
        0 <= k <= cs.len(),
        readable_codes(cs),
        holds_document(ls, cs, p, ft),
    ensures
        document_program(ls, section_pos(cs, p, ft, k), ft) == (match first_chunk(
            cs,
            Role::Program,
            k,
        ) {
            Some(c) => program_of(c.data, c.fourcc),
            None => None,
        }),
    decreases cs.len() - k,
{
    if k < cs.len() {
        lemma_section_at(ls, cs, p, ft, k);
        assert(readable_code(cs[k].fourcc));
        lemma_section(cs[k], p, ft);
        let i = section_pos(cs, p, ft, k);
        let s = section_at(ls, i)->Ok_0;
        if role_of(cs[k].fourcc) == Some(Role::Program) {
            lemma_program_section(s, p, ft);
        } else {
            lemma_document_program(ls, cs, p, ft, k + 1);
        }
    }
}

/// The first line of a document gives the version.
pub proof fn lemma_dxbc_line(version: u32)
    ensures
        is_clean(dxbc_line(version), true),
        starts_with(dxbc_line(version), ".dxbc"@),
        is_directive(dxbc_line(version)),
        dxbc_line(version) != ".raw"@,
        dxbc_line(version) != ".end"@,
        version_in(words(dxbc_line(version)), 0) == Ok::<u32, Seq<char>>(version),
{
    reveal_strlit(".dxbc version=");
    reveal_strlit(".dxbc");
    reveal_strlit(".");
    reveal_strlit(".raw");
    reveal_strlit(".end");
    reveal_strlit("version=");
    let n = dec_text(version as nat);
    lemma_number_text(version as nat, 10);
    number_reads_back(version as nat, 10, 0xffff_ffff);
    let line = dxbc_line(version);
    let w = "version="@ + n;
    let tail = seq![' '] + w;
    assert(line =~= ".dxbc"@ + tail);
    lemma_first_word(".dxbc"@, tail);
    assert forall|i: int| 0 <= i < w.len() implies !is_white(#[trigger] w[i]) by {
        if i >= 8 {
            assert(is_lower_digit(n[i - 8], 10));
        }
    }
    assert(w + Seq::<char>::empty() =~= w);
    lemma_first_word(w, Seq::empty());
    assert(tail.skip(1) =~= w);
    reveal_with_fuel(trim_start, 2);
    assert(trim_start(tail) == w);
    assert(trim_start(w) == w);
    assert(next_word(tail) == next_word(w));
    reveal_with_fuel(words, 3);
    assert(next_word(Seq::<char>::empty()) is None);
    assert(words(Seq::<char>::empty()) =~= Seq::empty());
    assert(words(tail) =~= seq![w]);
    assert(words(line) =~= seq![".dxbc"@, w]);
    let ws = words(line);
    reveal_with_fuel(version_in, 3);
    assert(ws[0] == ".dxbc"@);
    assert(ws[1] == w);
    assert(!starts_with(".dxbc"@, "version="@));
    assert(w.take(8) =~= "version="@);
    assert(w.skip(8) =~= n);
    assert(line.take(5) =~= ".dxbc"@);
    assert(line.take(1) =~= "."@);
    assert(line.len() > 4);
    assert forall|i: int| 0 <= i < line.len() implies #[trigger] line[i] != '/' && line[i]
        != '\n' by {
        if i >= 14 {
            assert(is_lower_digit(n[i - 14], 10));
        }
    }
    assert(line.last() == n.last());
    assert(is_lower_digit(n[n.len() - 1], 10));
}

/// The lines of the document of a container.
pub open spec fn document_lines(c: ContainerModel, ft: Spellings) -> Seq<Seq<char>> {
    let p = chunks_program(c.chunks);
    seq![dxbc_line(c.version)] + sections_lines(c.chunks, p, ft, c.chunks.len() as int).push(
        ".end"@,
    )
}

/// The lines of a document are the first line, the sections, and `.end`: the
/// metadata header counts for nothing.
pub proof fn lemma_document_lines(c: ContainerModel, d: Descriptions, ft: Spellings)
    requires
        readable_codes(c.chunks),
    ensures
        text_lines(document(c, d, ft), true) == document_lines(c, ft),
        document(c, d, ft).len() > 0,
        document(c, d, ft).last() == '\n',
{
    reveal(document);
    reveal_strlit("\n");
    reveal_strlit(".end\n");
    reveal_strlit(".end");
    assert("\n"@ =~= seq!['\n']);
    let p = chunks_program(c.chunks);
    let n = c.chunks.len() as int;
    let head = metadata_header(c, d);
    let first = dxbc_line(c.version);
    let body = sections_text(c.chunks, p, ft, n);
    assert(codes_on_one_line(c.chunks)) by {
        assert forall|i: int| 0 <= i < c.chunks.len() implies lacks(
            #[trigger] fourcc_text(c.chunks[i].fourcc),
            '\n',
        ) by {
            assert(readable_code(c.chunks[i].fourcc));
            let t = fourcc_text(c.chunks[i].fourcc);
            assert forall|j: int| 0 <= j < t.len() implies #[trigger] t[j] != '\n' by {
                assert(t.contains(t[j]));
            }
        }
    }
    header_is_comment(c, d);
    lemma_dxbc_line(c.version);
    lemma_one_line(first, true);
    assert(first + "\n"@ =~= first.push('\n'));
    lemma_text_lines_concat(head, first.push('\n'), true);
    let a = head + first.push('\n');
    assert(head + first + "\n"@ =~= a);
    assert(a.last() == '\n');
    lemma_sections(c.chunks, p, ft, n);
    lemma_text_lines_concat(a, body, true);
    let b = a + body;
    assert(b.last() == '\n') by {
        if body.len() > 0 {
            assert(b.last() == body.last());
        } else {
            assert(b =~= a);
        }
    }
    assert(".end\n"@ =~= ".end"@.push('\n'));
    assert(is_clean(".end"@, true));
    lemma_one_line(".end"@, true);
    lemma_text_lines_concat(b, ".end\n"@, true);
    assert(document(c, d, ft) == b + ".end\n"@);
    assert(text_lines(document(c, d, ft), true) =~= document_lines(c, ft));
    assert(document(c, d, ft).last() == '\n');
}

/// The lines of a document give the container back, whatever follows them.
pub proof fn lemma_assembled(ls: Seq<Seq<char>>, c: ContainerModel, ft: Spellings)
    requires
        readable_codes(c.chunks),
        ls.len() >= document_lines(c, ft).len(),
        ls.take(document_lines(c, ft).len() as int) == document_lines(c, ft),
    ensures
        assembled(ls, ft) == Ok::<Seq<u8>, Seq<char>>(signed_bytes(c.chunks, c.version)),
{
    let cs = c.chunks;
    let p = chunks_program(cs);
    let body = sections_lines(cs, p, ft, cs.len() as int);
    let dl = document_lines(c, ft);
    assert forall|i: int| 0 <= i < dl.len() implies #[trigger] ls[i] == dl[i] by {
        assert(ls.take(dl.len() as int)[i] == ls[i]);
    }
    assert(ls[0] == dxbc_line(c.version));
    assert(ls.subrange(1, body.len() as int + 1) =~= body) by {
        assert forall|i: int| 0 <= i < body.len() implies ls.subrange(1, body.len() as int + 1)[i]
            == body[i] by {
            assert(ls[i + 1] == dl[i + 1]);
        }
    }
    assert(ls[body.len() as int + 1] == dl[body.len() as int + 1]);
    lemma_dxbc_line(c.version);
    lemma_sections(cs, p, ft, 0);
    assert(section_pos(cs, p, ft, 0) == 1);
    lemma_document_program(ls, cs, p, ft, 0);
    lemma_document_chunks(ls, cs, p, ft, 0);
    assert(cs.skip(0) =~= cs);
}

/// The document of a container reads back as the container of the same chunks
/// and version, with the checksum of its content: every chunk byte for byte,
/// whatever its data, and whether it was written as editable text or not. Left
/// out are chunks whose code cannot stand on a line.
pub proof fn document_reads_back(c: ContainerModel, d: Descriptions, ft: Spellings)
    requires
        readable_codes(c.chunks),
    ensures
        assembled(text_lines(document(c, d, ft), true), ft) == Ok::<Seq<u8>, Seq<char>>(
            signed_bytes(c.chunks, c.version),
        ),
{
    lemma_document_lines(c, d, ft);
    let dl = document_lines(c, ft);
    assert(dl.take(dl.len() as int) =~= dl);
    lemma_assembled(dl, c, ft);
}

} // verus!
