//! Whole files and rows of documents read back.

use vstd::prelude::*;

use crate::checksum::{checksum, lemma_checksum_len};
use crate::container::{
    ChunkModel, ContainerModel, chunk_offset, container_body, container_bytes, scanned,
    signed_bytes,
};
use crate::container_doc::{
    all_assembled, containers_text, document, document_end, dxbc_line, end_of, file_assembled,
    file_document, gap_before, hex_block, is_directive, is_document, lemma_scanned, next_document,
    part_data, part_end, raw_section,
};
use crate::floats::Spellings;
use crate::grammar::shex::text::program_text;
use crate::lines::{is_clean, lemma_empty_line, lemma_text_lines_concat, text_lines};
use crate::roundtrip::containers::{
    containable, container_of, container_reads_back, lemma_layout,
};
use crate::roundtrip::documents::{
    document_lines, lemma_assembled, lemma_body_end_at, lemma_document_lines, lemma_dxbc_line,
    lemma_headed, lemma_section, lemma_sections, readable_code, readable_codes, section_lines,
    sections_lines,
};
use crate::roundtrip::hex::{hex_block_reads_back, lemma_hex_block};
use crate::roundtrip::programs::{lemma_first_line, valid_program};
use crate::shader::{Descriptions, chunks_program, no_descriptions};
use crate::shex::ir::ProgramModel;
use crate::text::starts_with;

verus! {

/// Whether a line ends a document or begins one.
pub open spec fn is_boundary(line: Seq<char>) -> bool {
    line == ".end"@ || starts_with(line, ".dxbc"@)
}

/// No line of a section is the boundary of a document.
proof fn lemma_no_boundary(
    c: ChunkModel,
    p: Option<ProgramModel>,
    ft: Spellings,
)
    requires
        readable_code(c.fourcc),
    ensures
        forall|i: int|
            0 <= i < section_lines(c, p, ft).len() ==> !is_boundary(
                #[trigger] section_lines(c, p, ft)[i],
            ),
{
    lemma_section(c, p, ft);
    reveal(crate::container_doc::section_head);
    reveal_strlit(".");
    reveal_strlit(".end");
    reveal_strlit(".dxbc");
    reveal_strlit(".code ");
    reveal_strlit(".chunk ");
    let ls = section_lines(c, p, ft);
    assert forall|i: int| 0 <= i < ls.len() implies !is_boundary(#[trigger] ls[i]) by {
        if i == 0 {
            if starts_with(ls[0], ".dxbc"@) {
                assert(ls[0].take(5)[1] == 'd');
                assert(ls[0][1] == 'd');
                if starts_with(ls[0], ".code "@) {
                    assert(ls[0].take(6)[1] == 'c');
                }
                if starts_with(ls[0], ".chunk "@) {
                    assert(ls[0].take(7)[1] == 'c');
                }
            }
        } else {
            assert(ls.skip(1)[i - 1] == ls[i]);
            assert(!is_directive(ls[i]));
            if is_boundary(ls[i]) {
                if ls[i] != ".end"@ {
                    assert(ls[i].take(5)[0] == '.');
                }
                assert(ls[i].take(1) =~= "."@);
            }
        }
    }
}

proof fn lemma_sections_no_boundary(
    cs: Seq<ChunkModel>,
    p: Option<ProgramModel>,
    ft: Spellings,
    n: int,
)
    requires
        0 <= n <= cs.len(),
        readable_codes(cs),
    ensures
        forall|i: int|
            0 <= i < sections_lines(cs, p, ft, n).len() ==> !is_boundary(
                #[trigger] sections_lines(cs, p, ft, n)[i],
            ),
    decreases n,
{
    lemma_sections(cs, p, ft, n);
    if n > 0 {
        lemma_sections_no_boundary(cs, p, ft, n - 1);
        assert(readable_code(cs[n - 1].fourcc));
        lemma_no_boundary(cs[n - 1], p, ft);
        let a = sections_lines(cs, p, ft, n - 1);
        let b = section_lines(cs[n - 1], p, ft);
        let all = sections_lines(cs, p, ft, n);
        assert forall|i: int| 0 <= i < all.len() implies !is_boundary(#[trigger] all[i]) by {
            if i < a.len() {
                assert(all[i] == a[i]);
            } else {
                assert(all[i] == b[i - a.len()]);
            }
        }
    }
}

/// Of the lines of a document only the first begins one and only the last ends
/// one.
proof fn lemma_document_boundaries(c: ContainerModel, ft: Spellings)
    requires
        readable_codes(c.chunks),
    ensures
        ({
            let dl = document_lines(c, ft);
            &&& dl.len() >= 2
            &&& dl[0] == dxbc_line(c.version)
            &&& starts_with(dl[0], ".dxbc"@)
            &&& dl[0] != ".raw"@
            &&& is_directive(dl[0])
            &&& dl[dl.len() - 1] == ".end"@
            &&& forall|i: int| 1 <= i < dl.len() - 1 ==> !is_boundary(#[trigger] dl[i])
        }),
{
    let p = chunks_program(c.chunks);
    let n = c.chunks.len() as int;
    lemma_sections_no_boundary(c.chunks, p, ft, n);
    lemma_dxbc_line(c.version);
    let dl = document_lines(c, ft);
    let body = sections_lines(c.chunks, p, ft, n);
    assert forall|i: int| 1 <= i < dl.len() - 1 implies !is_boundary(#[trigger] dl[i]) by {
        assert(dl[i] == body[i - 1]);
    }
}

proof fn lemma_document_end_at(ls: Seq<Seq<char>>, i: int, j: int)
    requires
        0 <= i <= j < ls.len(),
        forall|k: int| i <= k < j ==> #[trigger] ls[k] != ".end"@,
        ls[j] == ".end"@,
    ensures
        document_end(ls, i) == j + 1,
    decreases j - i,
{
    if i < j {
        lemma_document_end_at(ls, i + 1, j);
    }
}

proof fn lemma_next_document_at(ls: Seq<Seq<char>>, i: int, j: int)
    requires
        0 <= i <= j <= ls.len(),
        forall|k: int| i <= k < j ==> !starts_with(#[trigger] ls[k], ".dxbc"@),
        j == ls.len() || starts_with(ls[j], ".dxbc"@),
    ensures
        next_document(ls, i) == j,
    decreases j - i,
{
    if i < j {
        lemma_next_document_at(ls, i + 1, j);
    }
}

// ---------------------------------------------------------------------------
// Documents one behind the other
// ---------------------------------------------------------------------------

/// The documents of the first `n` containers, one behind the other.
pub open spec fn documents_text(cs: Seq<ContainerModel>, ds: Seq<Descriptions>, ft: Spellings, n: int) -> Seq<
    char,
>
    decreases n,
{
    if n <= 0 {
        Seq::empty()
    } else {
        documents_text(cs, ds, ft, n - 1) + document(cs[n - 1], ds[n - 1], ft)
    }
}

/// The first `n` containers, one behind the other.
pub open spec fn containers_bytes(cs: Seq<ContainerModel>, n: int) -> Seq<u8>
    decreases n,
{
    if n <= 0 {
        Seq::empty()
    } else {
        containers_bytes(cs, n - 1) + signed_bytes(cs[n - 1].chunks, cs[n - 1].version)
    }
}

/// Whether the codes of all chunks of the containers can stand on lines.
pub open spec fn all_readable(cs: Seq<ContainerModel>) -> bool {
    forall|i: int| 0 <= i < cs.len() ==> readable_codes((#[trigger] cs[i]).chunks)
}

/// The lines of the documents of the first `n` containers.
pub open spec fn documents_lines(cs: Seq<ContainerModel>, ft: Spellings, n: int) -> Seq<Seq<char>>
    decreases n,
{
    if n <= 0 {
        Seq::empty()
    } else {
        documents_lines(cs, ft, n - 1) + document_lines(cs[n - 1], ft)
    }
}

proof fn lemma_documents_lines(
    cs: Seq<ContainerModel>,
    ds: Seq<Descriptions>,
    ft: Spellings,
    n: int,
)
    requires
        0 <= n <= cs.len(),
        ds.len() == cs.len(),
        all_readable(cs),
    ensures
        text_lines(documents_text(cs, ds, ft, n), true) == documents_lines(cs, ft, n),
        documents_text(cs, ds, ft, n).len() == 0 || documents_text(cs, ds, ft, n).last() == '\n',
    decreases n,
{
    if n == 0 {
        lemma_empty_line(true);
    } else {
        lemma_documents_lines(cs, ds, ft, n - 1);
        assert(readable_codes(cs[n - 1].chunks));
        lemma_document_lines(cs[n - 1], ds[n - 1], ft);
        let a = documents_text(cs, ds, ft, n - 1);
        let b = document(cs[n - 1], ds[n - 1], ft);
        lemma_text_lines_concat(a, b, true);
        assert((a + b).last() == b.last());
    }
}

/// Reading the lines of documents behind others that read.
proof fn lemma_all_assembled(
    cs: Seq<ContainerModel>,
    ft: Spellings,
    n: int,
    ls: Seq<Seq<char>>,
    more: Seq<u8>,
)
    requires
        0 <= n <= cs.len(),
        all_readable(cs),
        ls.len() >= documents_lines(cs, ft, n).len(),
        ls.take(documents_lines(cs, ft, n).len() as int) == documents_lines(cs, ft, n),
        documents_lines(cs, ft, n).len() == ls.len() || starts_with(
            ls[documents_lines(cs, ft, n).len() as int],
            ".dxbc"@,
        ),
        all_assembled(ls, documents_lines(cs, ft, n).len() as int, ft) == Ok::<
            Seq<u8>,
            Seq<char>,
        >(more),
    ensures
        all_assembled(ls, 0, ft) == Ok::<Seq<u8>, Seq<char>>(containers_bytes(cs, n) + more),
        n > 0 ==> starts_with(ls[0], ".dxbc"@),
    decreases n,
{
    let full = documents_lines(cs, ft, n);
    if n == 0 {
        assert(containers_bytes(cs, 0) + more =~= more);
    } else {
        let c = cs[n - 1];
        assert(readable_codes(c.chunks));
        let before = documents_lines(cs, ft, n - 1);
        let dl = document_lines(c, ft);
        let i = before.len() as int;
        let j = full.len() as int;
        assert forall|k: int| 0 <= k < j implies #[trigger] ls[k] == full[k] by {
            assert(ls.take(j)[k] == ls[k]);
        }
        assert(ls.take(i) =~= before) by {
            assert forall|k: int| 0 <= k < i implies ls.take(i)[k] == before[k] by {
                assert(ls[k] == full[k]);
            }
        }
        assert(ls.subrange(i, j) =~= dl) by {
            assert forall|k: int| 0 <= k < dl.len() implies ls.subrange(i, j)[k] == dl[k] by {
                assert(ls[i + k] == full[i + k]);
            }
        }
        lemma_document_boundaries(c, ft);
        assert(ls[i] == full[i] && full[i] == dl[0]);
        reveal_strlit(".end");
        reveal_strlit(".dxbc");
        assert forall|k: int| i + 1 <= k < j implies !starts_with(#[trigger] ls[k], ".dxbc"@) by {
            assert(ls[k] == full[k]);
            assert(full[k] == dl[k - i]);
            if k < j - 1 {
                assert(!is_boundary(dl[k - i]));
            }
        }
        lemma_next_document_at(ls, i + 1, j);
        assert(dl.take(dl.len() as int) =~= dl);
        lemma_assembled(dl, c, ft);
        let b = signed_bytes(c.chunks, c.version);
        lemma_all_assembled(cs, ft, n - 1, ls, b + more);
        assert(containers_bytes(cs, n - 1) + (b + more) =~= containers_bytes(cs, n) + more);
    }
}

/// Documents one behind the other read back as their containers one behind the
/// other.
pub proof fn documents_read_back(cs: Seq<ContainerModel>, ds: Seq<Descriptions>, ft: Spellings)
    requires
        cs.len() > 0,
        ds.len() == cs.len(),
        all_readable(cs),
    ensures
        ({
            let ls = text_lines(documents_text(cs, ds, ft, cs.len() as int), true);
            &&& next_document(ls, 0) == 0
            &&& ls.len() > 0
            &&& all_assembled(ls, 0, ft) == Ok::<Seq<u8>, Seq<char>>(
                containers_bytes(cs, cs.len() as int),
            )
        }),
{
    let n = cs.len() as int;
    lemma_documents_lines(cs, ds, ft, n);
    let ls = documents_lines(cs, ft, n);
    assert(ls.take(ls.len() as int) =~= ls);
    lemma_all_assembled(cs, ft, n, ls, Seq::empty());
    assert(containers_bytes(cs, n) + Seq::<u8>::empty() =~= containers_bytes(cs, n));
}

// ---------------------------------------------------------------------------
// Whole files
// ---------------------------------------------------------------------------

/// Whether a container in a file is laid out as one that is written anew: its
/// chunks one behind the other in their order behind the table, and the checksum
/// of its content in its header.
pub open spec fn intact(d: Seq<u8>, c: ContainerModel) -> bool {
    d.subrange(c.offset as int, c.offset + c.size) == signed_bytes(c.chunks, c.version)
}

/// The lines of bytes outside containers.
pub open spec fn raw_lines_of_bytes(d: Seq<u8>) -> Seq<Seq<char>> {
    text_lines(raw_section(d), true)
}

proof fn lemma_raw_section(d: Seq<u8>)
    ensures
        raw_section(d).len() == 0 || raw_section(d).last() == '\n',
        d.len() == 0 ==> raw_lines_of_bytes(d) == Seq::<Seq<char>>::empty(),
        d.len() > 0 ==> raw_lines_of_bytes(d) == seq![".raw"@] + text_lines(hex_block(d), true),
{
    if d.len() == 0 {
        lemma_empty_line(true);
    } else {
        reveal_strlit(".raw\n");
        reveal_strlit(".raw");
        reveal_strlit("\n");
        assert(".raw\n"@ =~= ".raw"@ + "\n"@);
        assert(is_clean(".raw"@, true));
        lemma_hex_block(d);
        lemma_headed(".raw"@, hex_block(d));
    }
}

/// A `.raw` section gives its bytes.
proof fn lemma_raw_part(ls: Seq<Seq<char>>, i: int, d: Seq<u8>, ft: Spellings)
    requires
        d.len() > 0,
        0 <= i,
        i + raw_lines_of_bytes(d).len() <= ls.len(),
        ls.subrange(i, i + raw_lines_of_bytes(d).len()) == raw_lines_of_bytes(d),
        i + raw_lines_of_bytes(d).len() == ls.len() || is_directive(
            ls[i + raw_lines_of_bytes(d).len()],
        ),
    ensures
        i < ls.len(),
        part_data(ls, i, ft) == Ok::<Seq<u8>, Seq<char>>(d),
        part_end(ls, i) == i + raw_lines_of_bytes(d).len(),
{
    reveal(part_data);
    lemma_raw_section(d);
    let rl = raw_lines_of_bytes(d);
    let body = text_lines(hex_block(d), true);
    let j = i + rl.len() as int;
    lemma_hex_block(d);
    hex_block_reads_back(d);
    assert(rl[0] == ".raw"@);
    assert(ls.subrange(i, j)[0] == ls[i]);
    assert forall|k: int| i + 1 <= k < j implies !is_directive(#[trigger] ls[k]) by {
        assert(ls.subrange(i, j)[k - i] == ls[k]);
        assert(rl[k - i] == body[k - i - 1]);
    }
    lemma_body_end_at(ls, i + 1, j);
    assert(ls.subrange(i + 1, j) =~= body) by {
        assert forall|k: int| 0 <= k < body.len() implies ls.subrange(i + 1, j)[k] == body[k] by {
            assert(ls.subrange(i, j)[k + 1] == ls[i + 1 + k]);
            assert(rl[k + 1] == body[k]);
        }
    }
}

/// A document gives its container.
proof fn lemma_document_part(ls: Seq<Seq<char>>, i: int, c: ContainerModel, ft: Spellings)
    requires
        0 <= i,
        readable_codes(c.chunks),
        i + document_lines(c, ft).len() <= ls.len(),
        ls.subrange(i, i + document_lines(c, ft).len()) == document_lines(c, ft),
    ensures
        i < ls.len(),
        is_directive(ls[i]),
        part_data(ls, i, ft) == Ok::<Seq<u8>, Seq<char>>(signed_bytes(c.chunks, c.version)),
        part_end(ls, i) == i + document_lines(c, ft).len(),
{
    reveal(part_data);
    lemma_document_boundaries(c, ft);
    let dl = document_lines(c, ft);
    let j = i + dl.len() as int;
    assert forall|k: int| i <= k < j implies #[trigger] ls[k] == dl[k - i] by {
        assert(ls.subrange(i, j)[k - i] == ls[k]);
    }
    assert forall|k: int| i + 1 <= k < j - 1 implies #[trigger] ls[k] != ".end"@ by {
        assert(!is_boundary(dl[k - i]));
    }
    lemma_document_end_at(ls, i + 1, j - 1);
    assert(dl.take(dl.len() as int) =~= dl);
    lemma_assembled(dl, c, ft);
}

/// The lines of the first `n` containers and what stands before each.
pub open spec fn containers_lines(
    d: Seq<u8>,
    cs: Seq<ContainerModel>,
    ft: Spellings,
    n: int,
) -> Seq<Seq<char>>
    decreases n,
{
    if n <= 0 {
        Seq::empty()
    } else {
        containers_lines(d, cs, ft, n - 1) + raw_lines_of_bytes(gap_before(d, cs, n - 1))
            + document_lines(cs[n - 1], ft)
    }
}

/// Three texts that end with their lines.
proof fn lemma_three_texts(a: Seq<char>, r: Seq<char>, b: Seq<char>)
    requires
        a.len() == 0 || a.last() == '\n',
        r.len() == 0 || r.last() == '\n',
        b.len() > 0,
        b.last() == '\n',
    ensures
        text_lines(a + r + b, true) == text_lines(a, true) + text_lines(r, true) + text_lines(
            b,
            true,
        ),
        (a + r + b).last() == '\n',
{
    lemma_text_lines_concat(a, r, true);
    assert((a + r).len() == 0 || (a + r).last() == '\n') by {
        if r.len() > 0 {
            assert((a + r).last() == r.last());
        } else {
            assert(a + r =~= a);
        }
    }
    lemma_text_lines_concat(a + r, b, true);
    assert((a + r + b).last() == b.last());
}

#[verifier::rlimit(40)]
proof fn lemma_containers_lines(d: Seq<u8>, cs: Seq<ContainerModel>, ft: Spellings, n: int)
    requires
        0 <= n <= cs.len(),
        all_readable(cs),
    ensures
        text_lines(containers_text(d, cs, ft, n), true) == containers_lines(d, cs, ft, n),
        containers_text(d, cs, ft, n).len() == 0 || containers_text(d, cs, ft, n).last() == '\n',
    decreases n,
{
    if n == 0 {
        lemma_empty_line(true);
    } else {
        lemma_containers_lines(d, cs, ft, n - 1);
        assert(readable_codes(cs[n - 1].chunks));
        lemma_document_lines(cs[n - 1], no_descriptions(), ft);
        let g = gap_before(d, cs, n - 1);
        lemma_raw_section(g);
        let a = containers_text(d, cs, ft, n - 1);
        lemma_three_texts(a, raw_section(g), document(cs[n - 1], no_descriptions(), ft));
    }
}

/// The lines of the last of the first `n` containers and what stands before it.
#[verifier::rlimit(40)]
proof fn lemma_file_step(
    d: Seq<u8>,
    cs: Seq<ContainerModel>,
    ft: Spellings,
    n: int,
    ls: Seq<Seq<char>>,
    more: Seq<u8>,
)
    requires
        0 < n <= cs.len(),
        all_readable(cs),
        ls.len() >= containers_lines(d, cs, ft, n).len(),
        ls.take(containers_lines(d, cs, ft, n).len() as int) == containers_lines(d, cs, ft, n),
        file_assembled(ls, containers_lines(d, cs, ft, n).len() as int, ft) == Ok::<
            Seq<u8>,
            Seq<char>,
        >(more),
    ensures
        ls.take(containers_lines(d, cs, ft, n - 1).len() as int) == containers_lines(
            d,
            cs,
            ft,
            n - 1,
        ),
        file_assembled(ls, containers_lines(d, cs, ft, n - 1).len() as int, ft) == Ok::<
            Seq<u8>,
            Seq<char>,
        >(gap_before(d, cs, n - 1) + (signed_bytes(cs[n - 1].chunks, cs[n - 1].version) + more)),
{
    let c = cs[n - 1];
    assert(readable_codes(c.chunks));
    let full = containers_lines(d, cs, ft, n);
    let before = containers_lines(d, cs, ft, n - 1);
    let g = gap_before(d, cs, n - 1);
    let rl = raw_lines_of_bytes(g);
    let dl = document_lines(c, ft);
    let i = before.len() as int;
    let m = i + rl.len() as int;
    let j = full.len() as int;
    assert forall|k: int| 0 <= k < j implies #[trigger] ls[k] == full[k] by {
        assert(ls.take(j)[k] == ls[k]);
    }
    assert(ls.take(i) =~= before) by {
        assert forall|k: int| 0 <= k < i implies ls.take(i)[k] == before[k] by {
            assert(ls[k] == full[k]);
        }
    }
    assert(ls.subrange(i, m) =~= rl) by {
        assert forall|k: int| 0 <= k < rl.len() implies ls.subrange(i, m)[k] == rl[k] by {
            assert(ls[i + k] == full[i + k]);
        }
    }
    assert(ls.subrange(m, j) =~= dl) by {
        assert forall|k: int| 0 <= k < dl.len() implies ls.subrange(m, j)[k] == dl[k] by {
            assert(ls[m + k] == full[m + k]);
        }
    }
    let b = signed_bytes(c.chunks, c.version);
    lemma_document_part(ls, m, c, ft);
    assert(file_assembled(ls, m, ft) == Ok::<Seq<u8>, Seq<char>>(b + more));
    lemma_raw_section(g);
    if g.len() > 0 {
        lemma_raw_part(ls, i, g, ft);
    } else {
        assert(g + (b + more) =~= b + more);
    }
}

/// The containers found in a file lie within it, each behind the one before.
proof fn lemma_found(d: Seq<u8>, n: int)
    requires
        0 <= n <= scanned(d, 0).len(),
    ensures
        0 <= end_of(scanned(d, 0), n) <= d.len(),
        n < scanned(d, 0).len() ==> {
            let c = scanned(d, 0)[n];
            &&& end_of(scanned(d, 0), n) <= c.offset
            &&& c.offset + c.size <= d.len()
        },
{
    lemma_scanned(d, 0);
    let cs = scanned(d, 0);
    if n > 0 {
        assert(cs[n - 1].offset + cs[n - 1].size <= d.len());
    }
    if n < cs.len() {
        assert(cs[n].offset + cs[n].size <= d.len());
    }
}

/// A file from the end of a container on: what stands before the next, the next,
/// and what follows it.
proof fn lemma_cut(d: Seq<u8>, n: int)
    requires
        0 < n <= scanned(d, 0).len(),
        intact(d, scanned(d, 0)[n - 1]),
    ensures
        ({
            let cs = scanned(d, 0);
            let c = cs[n - 1];
            gap_before(d, cs, n - 1) + (signed_bytes(c.chunks, c.version) + d.skip(end_of(cs, n)))
                == d.skip(end_of(cs, n - 1))
        }),
{
    let cs = scanned(d, 0);
    let c = cs[n - 1];
    lemma_found(d, n - 1);
    lemma_found(d, n);
    let x = end_of(cs, n - 1);
    let y = c.offset as int;
    let z = end_of(cs, n);
    let g = gap_before(d, cs, n - 1);
    assert(g =~= d.subrange(x, y));
    let b = signed_bytes(c.chunks, c.version);
    assert(b == d.subrange(y, z));
    assert(b + d.skip(z) =~= d.skip(y));
    assert(g + d.skip(y) =~= d.skip(x));
}

proof fn lemma_file(
    d: Seq<u8>,
    cs: Seq<ContainerModel>,
    ft: Spellings,
    n: int,
    ls: Seq<Seq<char>>,
)
    requires
        cs == scanned(d, 0),
        0 <= n <= cs.len(),
        all_readable(cs),
        forall|i: int| 0 <= i < cs.len() ==> intact(d, #[trigger] cs[i]),
        ls.len() >= containers_lines(d, cs, ft, n).len(),
        ls.take(containers_lines(d, cs, ft, n).len() as int) == containers_lines(d, cs, ft, n),
        file_assembled(ls, containers_lines(d, cs, ft, n).len() as int, ft) == Ok::<
            Seq<u8>,
            Seq<char>,
        >(d.skip(end_of(cs, n))),
    ensures
        file_assembled(ls, 0, ft) == Ok::<Seq<u8>, Seq<char>>(d),
    decreases n,
{
    if n == 0 {
        assert(d.skip(0) =~= d);
    } else {
        let more = d.skip(end_of(cs, n));
        assert(intact(d, cs[n - 1]));
        lemma_file_step(d, cs, ft, n, ls, more);
        lemma_cut(d, n);
        lemma_file(d, cs, ft, n - 1, ls);
    }
}

/// The document of a whole file reads back as the file, byte for byte: the
/// containers and all bytes around and between them. Left out are files with a
/// container that is not laid out as one written anew, or whose checksum is not
/// that of its content, since reading a document always writes the checksum
/// anew; and chunks whose code cannot stand on a line.
pub proof fn file_reads_back(d: Seq<u8>, ft: Spellings)
    requires
        all_readable(scanned(d, 0)),
        forall|i: int| 0 <= i < scanned(d, 0).len() ==> intact(d, #[trigger] scanned(d, 0)[i]),
    ensures
        file_assembled(text_lines(file_document(d, ft), true), 0, ft) == Ok::<
            Seq<u8>,
            Seq<char>,
        >(d),
{
    let cs = scanned(d, 0);
    let n = cs.len() as int;
    lemma_found(d, n);
    lemma_containers_lines(d, cs, ft, n);
    let rest = d.skip(end_of(cs, n));
    lemma_raw_section(rest);
    let a = containers_text(d, cs, ft, n);
    lemma_text_lines_concat(a, raw_section(rest), true);
    let ls = text_lines(file_document(d, ft), true);
    let cl = containers_lines(d, cs, ft, n);
    let rl = raw_lines_of_bytes(rest);
    assert(ls == cl + rl);
    assert(ls.take(cl.len() as int) =~= cl);
    assert(ls.subrange(cl.len() as int, ls.len() as int) =~= rl);
    assert(file_assembled(ls, ls.len() as int, ft) == Ok::<Seq<u8>, Seq<char>>(Seq::empty()));
    if rest.len() > 0 {
        lemma_raw_part(ls, cl.len() as int, rest, ft);
        assert(part_end(ls, cl.len() as int) == ls.len());
        assert(rest + Seq::<u8>::empty() =~= rest);
    } else {
        assert(rest =~= Seq::empty());
    }
    lemma_file(d, cs, ft, n, ls);
}

/// The document of a container that was written anew reads back as its bytes.
pub proof fn written_container_reads_back(cs: Seq<ChunkModel>, version: u32, ft: Spellings)
    requires
        containable(cs),
        readable_codes(cs),
    ensures
        file_assembled(text_lines(file_document(signed_bytes(cs, version), ft), true), 0, ft)
            == Ok::<Seq<u8>, Seq<char>>(signed_bytes(cs, version)),
{
    let d = signed_bytes(cs, version);
    let hash = checksum(container_body(cs, version));
    assert(d == container_bytes(cs, version, hash)) by {
        reveal(signed_bytes);
    }
    lemma_checksum_len(container_body(cs, version));
    container_reads_back(cs, version, hash);
    let c = container_of(cs, version, hash);
    lemma_found(d, 0);
    assert(d.len() == chunk_offset(cs, cs.len() as int)) by {
        lemma_layout(cs, version, hash);
    }
    assert(d.subrange(0, d.len() as int) =~= d);
    assert(intact(d, c));
    file_reads_back(d, ft);
}

/// The document of a container is told apart from the text of a program, whatever
/// stands in either.
pub proof fn documents_are_told_apart(
    c: ContainerModel,
    d: Descriptions,
    p: ProgramModel,
    ft: Spellings,
)
    requires
        readable_codes(c.chunks),
        valid_program(p),
    ensures
        is_document(document(c, d, ft)),
        !is_document(program_text(p, ft)),
{
    lemma_document_lines(c, d, ft);
    lemma_dxbc_line(c.version);
    lemma_first_line(p, ft);
    reveal_strlit(".dxbc");
    let line = text_lines(program_text(p, ft), true)[0];
    if starts_with(line, ".dxbc"@) {
        assert(line.take(5)[2] == line[2]);
    }
}

} // verus!
