//! The metadata header: what a human reader would want to know of a container,
//! as comment lines ahead of the chunks.
//!
//! Every line begins with `//`, so a reader of the document passes over the
//! whole block; it is always written anew from the chunks.

use vstd::prelude::*;

use crate::chunks::rdef::{
    BindingModel, CBufferModel, RdefModel, ResourceDef, binding_line, binding_models,
    cbuffer_models,
};
use crate::chunks::signature::{ElementModel, Signature, element_models};
use crate::chunks::stat::stats_summary;
use crate::container::{Chunk, ChunkModel, ContainerModel, chunk_models, fourcc_text};
use crate::grammar::rdef::kv::{bytes_text, write_bytes};
use crate::grammar::signature::{signature_text, signature_to_text};
use crate::lines::{
    comment_block, lemma_comment_blocks, lemma_comment_line, lemma_only_comments,
    lemma_raw_lines_flat, raw_lines, raw_lines_of, text_lines, views,
};
use crate::numerals::{
    dec_text, hex_padded, hex_text, is_lower_digit, lemma_number_lacks, push_dec, push_upper_hex,
    upper_hex,
};
use crate::shader::{
    Descriptions, Role, Shader, chunks_resources, chunks_signature, chunks_stats, text_view,
};
use crate::text::{
    chars_of, lacks, lemma_lacks_concat, push_chars, push_text, starts_with, strip_text,
};

verus! {

/// The line above and below the block.
pub open spec fn banner() -> Seq<char> {
    "// ============================================================================\n"@
}

/// What the block is.
pub open spec fn notice() -> Seq<char> {
    "// DXBC forensic metadata — informational; ignored on reassembly\n"@
}

/// Where the container stands, and what its header says.
pub open spec fn container_line(c: ContainerModel) -> Seq<char> {
    "// Container: offset=0x"@ + upper_hex(c.offset) + " size="@ + dec_text(c.size as nat)
        + " version="@ + dec_text(c.version as nat) + " chunks="@ + dec_text(c.chunks.len())
        + "\n"@
}

/// The checksum in the header.
pub open spec fn hash_line(c: ContainerModel) -> Seq<char> {
    "// Header hash: "@ + bytes_text(c.hash, c.hash.len() as int) + "\n"@
}

/// Code and size of a chunk.
pub open spec fn chunk_note(c: ChunkModel) -> Seq<char> {
    " "@ + fourcc_text(c.fourcc) + "("@ + dec_text(c.data.len()) + ")"@
}

/// Code and size of the first `n` chunks.
pub open spec fn chunk_notes(cs: Seq<ChunkModel>, n: int) -> Seq<char>
    decreases n,
{
    if n <= 0 {
        Seq::empty()
    } else {
        chunk_notes(cs, n - 1) + chunk_note(cs[n - 1])
    }
}

/// The inventory of the chunks, and an empty comment.
pub open spec fn chunks_line(cs: Seq<ChunkModel>) -> Seq<char> {
    "// Chunks:"@ + chunk_notes(cs, cs.len() as int) + "\n//\n"@
}

/// A line as a comment.
pub open spec fn comment_line(line: Seq<char>) -> Seq<char> {
    if line.len() == 0 {
        "//\n"@
    } else if starts_with(line, "//"@) {
        line + "\n"@
    } else {
        "// "@ + line + "\n"@
    }
}

/// The first `n` lines as comments.
pub open spec fn comment_lines(ls: Seq<Seq<char>>, n: int) -> Seq<char>
    decreases n,
{
    if n <= 0 {
        Seq::empty()
    } else {
        comment_lines(ls, n - 1) + comment_line(ls[n - 1])
    }
}

/// A text as comment lines.
pub open spec fn commented_text(s: Seq<char>) -> Seq<char> {
    comment_lines(raw_lines(s), raw_lines(s).len() as int)
}

/// The first `n` bindings, a line each.
pub open spec fn binding_list(bs: Seq<BindingModel>, n: int) -> Seq<char>
    decreases n,
{
    if n <= 0 {
        Seq::empty()
    } else {
        binding_list(bs, n - 1) + ("  "@ + binding_line(bs[n - 1]) + "\n"@)
    }
}

/// A constant buffer.
pub open spec fn buffer_line(c: CBufferModel) -> Seq<char> {
    "  "@ + c.name + " size="@ + dec_text(c.size as nat) + " variables="@ + dec_text(
        c.variables.len(),
    ) + "\n"@
}

/// The first `n` constant buffers, a line each.
pub open spec fn buffer_list(cs: Seq<CBufferModel>, n: int) -> Seq<char>
    decreases n,
{
    if n <= 0 {
        Seq::empty()
    } else {
        buffer_list(cs, n - 1) + buffer_line(cs[n - 1])
    }
}

/// What is said about resource definitions.
pub open spec fn resource_block(rd: RdefModel) -> Seq<char> {
    "Resource Bindings:\n"@ + binding_list(rd.bindings, rd.bindings.len() as int)
        + "Constant Buffers:\n"@ + buffer_list(
        rd.constant_buffers,
        rd.constant_buffers.len() as int,
    )
}

/// What is said about a signature.
pub open spec fn signature_block(title: Seq<char>, sig: (Seq<u8>, Seq<ElementModel>)) -> Seq<char> {
    title + ":\n"@ + signature_text(sig.1, sig.0)
}

/// The resource definitions, where there are any.
pub open spec fn resource_part(cs: Seq<ChunkModel>) -> Seq<char> {
    match chunks_resources(cs) {
        Some(rd) => commented_text(resource_block(rd)),
        None => Seq::empty(),
    }
}

/// A signature, where there is one.
pub open spec fn signature_part(title: Seq<char>, sig: Option<(Seq<u8>, Seq<ElementModel>)>) -> Seq<
    char,
> {
    match sig {
        Some(s) => commented_text(signature_block(title, s)),
        None => Seq::empty(),
    }
}

/// The statistics, where there are any.
pub open spec fn stats_part(cs: Seq<ChunkModel>) -> Seq<char> {
    match chunks_stats(cs) {
        Some(s) => commented_text(stats_summary(s)),
        None => Seq::empty(),
    }
}

/// A description, where there is one.
pub open spec fn described(d: Option<Seq<char>>) -> Seq<char> {
    match d {
        Some(s) => commented_text(s),
        None => Seq::empty(),
    }
}

/// The description of the root signature under its title, where there is one.
pub open spec fn root_part(d: Option<Seq<char>>) -> Seq<char> {
    match d {
        Some(s) => "// Root Signature:\n"@ + commented_text(s),
        None => Seq::empty(),
    }
}

/// The lines about the container itself.
pub open spec fn inventory(c: ContainerModel) -> Seq<char> {
    banner() + notice() + banner() + container_line(c) + hash_line(c) + chunks_line(c.chunks)
}

/// The lines about what the chunks hold.
pub open spec fn contents(cs: Seq<ChunkModel>, d: Descriptions) -> Seq<char> {
    resource_part(cs) + signature_part(
        "Input Signature"@,
        chunks_signature(cs, Role::Inputs),
    ) + signature_part("Output Signature"@, chunks_signature(cs, Role::Outputs)) + signature_part(
        "Patch Constant Signature"@,
        chunks_signature(cs, Role::PatchConstants),
    ) + stats_part(cs) + described(d.hash) + described(d.feature_info) + described(d.debug_name)
        + root_part(d.root_signature)
}

/// The whole block.
#[verifier::opaque]
pub open spec fn metadata_header(c: ContainerModel, d: Descriptions) -> Seq<char> {
    inventory(c) + contents(c.chunks, d) + banner()
}

// ---------------------------------------------------------------------------
// Writing
// ---------------------------------------------------------------------------

fn container_line_of(s: &Shader<'_>) -> (l: String)
    ensures
        l@ == container_line(s.container.model()),
{
    let mut l = String::new();
    push_text(&mut l, "// Container: offset=0x");
    assert(l@ =~= "// Container: offset=0x"@);
    push_upper_hex(&mut l, s.offset() as u64);
    push_text(&mut l, " size=");
    push_dec(&mut l, s.size() as u64);
    push_text(&mut l, " version=");
    push_dec(&mut l, s.container.version as u64);
    push_text(&mut l, " chunks=");
    push_dec(&mut l, s.container.chunks.len() as u64);
    push_text(&mut l, "\n");
    l
}

fn hash_line_of(s: &Shader<'_>) -> (l: String)
    ensures
        l@ == hash_line(s.container.model()),
{
    let mut l = String::new();
    push_text(&mut l, "// Header hash: ");
    assert(l@ =~= "// Header hash: "@);
    write_bytes(&mut l, &s.container.header_hash);
    push_text(&mut l, "\n");
    l
}

fn chunks_line_of(chunks: &Vec<Chunk<'_>>) -> (l: String)
    requires
        forall|i: int| 0 <= i < chunks@.len() ==> (#[trigger] chunks@[i]).wf(),
    ensures
        l@ == chunks_line(chunk_models(chunks@)),
{
    let ghost cs = chunk_models(chunks@);
    let mut notes = String::new();
    let mut i: usize = 0;
    while i < chunks.len()
        invariant
            i <= chunks.len(),
            cs == chunk_models(chunks@),
            forall|i: int| 0 <= i < chunks@.len() ==> (#[trigger] chunks@[i]).wf(),
            notes@ == chunk_notes(cs, i as int),
        decreases chunks.len() - i,
    {
        let c = &chunks[i];
        assert(cs[i as int] == c.model());
        assert(chunks@[i as int].wf());
        let mut l = String::new();
        push_text(&mut l, " ");
        assert(l@ =~= " "@);
        let code = c.fourcc_str();
        push_text(&mut l, code.as_str());
        push_text(&mut l, "(");
        push_dec(&mut l, c.size as u64);
        push_text(&mut l, ")");
        push_text(&mut notes, l.as_str());
        i += 1;
    }
    let mut l = String::new();
    push_text(&mut l, "// Chunks:");
    assert(l@ =~= "// Chunks:"@);
    push_text(&mut l, notes.as_str());
    push_text(&mut l, "\n//\n");
    l
}

/// Append the text, each of its lines as a comment: a line that is one already
/// as it stands, any other behind `// `.
fn commented(out: &mut String, text: &str)
    ensures
        final(out)@ == old(out)@ + commented_text(text@),
{
    let chars = chars_of(text);
    let lines = raw_lines_of(chars.as_slice());
    let ghost ls = raw_lines(text@);
    let mut o = String::new();
    let mut i: usize = 0;
    while i < lines.len()
        invariant
            i <= lines.len(),
            ls == views(lines@),
            o@ == comment_lines(ls, i as int),
        decreases lines.len() - i,
    {
        let line = lines[i];
        assert(ls[i as int] == line@);
        let mut l = String::new();
        if line.len() == 0 {
            push_text(&mut l, "//\n");
        } else if strip_text(line, "//").is_some() {
            push_chars(&mut l, line);
            push_text(&mut l, "\n");
        } else {
            push_text(&mut l, "// ");
            push_chars(&mut l, line);
            push_text(&mut l, "\n");
        }
        assert(l@ =~= comment_line(line@));
        push_text(&mut o, l.as_str());
        i += 1;
    }
    push_text(out, o.as_str());
}

fn resource_block_of(rd: &ResourceDef) -> (o: String)
    ensures
        o@ == resource_block(rd.model()),
{
    let ghost bs = rd.model().bindings;
    let ghost cs = rd.model().constant_buffers;
    let mut list = String::new();
    let mut i: usize = 0;
    while i < rd.bindings.len()
        invariant
            i <= rd.bindings.len(),
            bs == binding_models(rd.bindings@),
            list@ == binding_list(bs, i as int),
        decreases rd.bindings.len() - i,
    {
        assert(bs[i as int] == rd.bindings@[i as int].model());
        let mut l = String::new();
        push_text(&mut l, "  ");
        assert(l@ =~= "  "@);
        let t = rd.bindings[i].to_text();
        push_text(&mut l, t.as_str());
        push_text(&mut l, "\n");
        push_text(&mut list, l.as_str());
        i += 1;
    }
    let mut buffers = String::new();
    let mut i: usize = 0;
    while i < rd.constant_buffers.len()
        invariant
            i <= rd.constant_buffers.len(),
            cs == cbuffer_models(rd.constant_buffers@),
            buffers@ == buffer_list(cs, i as int),
        decreases rd.constant_buffers.len() - i,
    {
        let c = &rd.constant_buffers[i];
        assert(cs[i as int] == c.model());
        let mut l = String::new();
        push_text(&mut l, "  ");
        assert(l@ =~= "  "@);
        push_text(&mut l, c.name.as_str());
        push_text(&mut l, " size=");
        push_dec(&mut l, c.size as u64);
        push_text(&mut l, " variables=");
        push_dec(&mut l, c.variables.len() as u64);
        push_text(&mut l, "\n");
        push_text(&mut buffers, l.as_str());
        i += 1;
    }
    let mut o = String::new();
    push_text(&mut o, "Resource Bindings:\n");
    assert(o@ =~= "Resource Bindings:\n"@);
    push_text(&mut o, list.as_str());
    push_text(&mut o, "Constant Buffers:\n");
    push_text(&mut o, buffers.as_str());
    o
}

fn signature_part_of(title: &str, sig: Option<Signature>) -> (o: String)
    ensures
        o@ == signature_part(
            title@,
            match sig {
                Some(s) => Some((s.fourcc@, element_models(s.elements@))),
                None => None,
            },
        ),
{
    let mut o = String::new();
    match sig {
        Some(s) => {
            let mut b = String::new();
            push_text(&mut b, title);
            assert(b@ =~= title@);
            push_text(&mut b, ":\n");
            let t = signature_to_text(&s);
            push_text(&mut b, t.as_str());
            commented(&mut o, b.as_str());
        },
        None => {},
    }
    assert(o@ =~= signature_part(
        title@,
        match sig {
            Some(s) => Some((s.fourcc@, element_models(s.elements@))),
            None => None,
        },
    ));
    o
}

fn described_of(d: &Option<String>) -> (o: String)
    ensures
        o@ == described(text_view(*d)),
{
    let mut o = String::new();
    match d {
        Some(s) => {
            commented(&mut o, s.as_str());
        },
        None => {},
    }
    assert(o@ =~= described(text_view(*d)));
    o
}

fn contents_of(s: &Shader<'_>) -> (o: String)
    ensures
        o@ == contents(s.container.model().chunks, s.descriptions()),
{
    let ghost cs = s.container.model().chunks;
    let mut o = String::new();
    match s.resource_def() {
        Some(rd) => {
            let b = resource_block_of(&rd);
            commented(&mut o, b.as_str());
        },
        None => {},
    }
    assert(o@ =~= resource_part(cs));
    let p = signature_part_of("Input Signature", s.input_signature());
    push_text(&mut o, p.as_str());
    let p = signature_part_of("Output Signature", s.output_signature());
    push_text(&mut o, p.as_str());
    let p = signature_part_of("Patch Constant Signature", s.patch_constant_signature());
    push_text(&mut o, p.as_str());
    let mut p = String::new();
    match s.stats() {
        Some(st) => {
            let t = st.to_text();
            commented(&mut p, t.as_str());
        },
        None => {},
    }
    assert(p@ =~= stats_part(cs));
    push_text(&mut o, p.as_str());
    let p = described_of(&s.hash);
    push_text(&mut o, p.as_str());
    let p = described_of(&s.feature_info);
    push_text(&mut o, p.as_str());
    let p = described_of(&s.debug_name);
    push_text(&mut o, p.as_str());
    let mut p = String::new();
    match &s.root_signature {
        Some(t) => {
            push_text(&mut p, "// Root Signature:\n");
            commented(&mut p, t.as_str());
        },
        None => {},
    }
    assert(p@ =~= root_part(text_view(s.root_signature)));
    push_text(&mut o, p.as_str());
    o
}

/// Append the metadata header of a shader: where its container stands and what
/// chunks it has, and what those hold that can be read.
pub fn write_metadata_header(out: &mut String, shader: &Shader<'_>)
    requires
        shader.wf(),
    ensures
        final(out)@ == old(out)@ + metadata_header(shader.container.model(), shader.descriptions()),
{
    reveal(metadata_header);
    let mut o = String::new();
    push_text(
        &mut o,
        "// ============================================================================\n",
    );
    assert(o@ =~= banner());
    push_text(&mut o, "// DXBC forensic metadata — informational; ignored on reassembly\n");
    push_text(
        &mut o,
        "// ============================================================================\n",
    );
    let l = container_line_of(shader);
    push_text(&mut o, l.as_str());
    let l = hash_line_of(shader);
    push_text(&mut o, l.as_str());
    let l = chunks_line_of(&shader.container.chunks);
    push_text(&mut o, l.as_str());
    assert(o@ == inventory(shader.container.model()));
    let c = contents_of(shader);
    push_text(&mut o, c.as_str());
    push_text(
        &mut o,
        "// ============================================================================\n",
    );
    push_text(out, o.as_str());
}

// ---------------------------------------------------------------------------
// What holds of the block
// ---------------------------------------------------------------------------

proof fn lemma_literal_lines()
    ensures
        comment_block(banner()),
        comment_block(notice()),
        comment_block("//\n"@),
        comment_block("// Root Signature:\n"@),
{
    reveal_strlit("// ============================================================================\n");
    reveal_strlit("// DXBC forensic metadata — informational; ignored on reassembly\n");
    reveal_strlit("//\n");
    reveal_strlit("// Root Signature:\n");
    lemma_literal_line(banner());
    lemma_literal_line(notice());
    lemma_literal_line("//\n"@);
    lemma_literal_line("// Root Signature:\n"@);
}

proof fn lemma_literal_line(s: Seq<char>)
    requires
        s.len() >= 3,
        s[0] == '/',
        s[1] == '/',
        s.last() == '\n',
        forall|i: int| 0 <= i < s.len() - 1 ==> #[trigger] s[i] != '\n',
    ensures
        comment_block(s),
{
    let line = s.drop_last();
    assert(s =~= line + seq!['\n']);
    assert(line.take(2) =~= seq!['/', '/']);
    lemma_comment_line(line);
}

proof fn lemma_bytes_lack(b: Seq<u8>, n: int, c: char)
    requires
        0 <= n <= b.len(),
        !is_lower_digit(c, 16),
        c != '0',
    ensures
        lacks(bytes_text(b, n), c),
    decreases n,
{
    if n > 0 {
        lemma_bytes_lack(b, n - 1, c);
        lemma_number_lacks(b[n - 1] as nat, 16, c);
        lemma_lacks_concat(bytes_text(b, n - 1), hex_padded(b[n - 1] as nat, 2), c);
    }
}

proof fn lemma_container_line(c: ContainerModel)
    ensures
        comment_block(container_line(c)),
        comment_block(hash_line(c)),
{
    reveal_strlit("// Container: offset=0x");
    reveal_strlit(" size=");
    reveal_strlit(" version=");
    reveal_strlit(" chunks=");
    reveal_strlit("\n");
    reveal_strlit("// Header hash: ");
    lemma_number_lacks(c.offset, 16, '\n');
    let up = upper_hex(c.offset);
    assert forall|i: int| 0 <= i < up.len() implies #[trigger] up[i] != '\n' by {
        assert(hex_text(c.offset)[i] != '\n');
    }
    lemma_number_lacks(c.size as nat, 10, '\n');
    lemma_number_lacks(c.version as nat, 10, '\n');
    lemma_number_lacks(c.chunks.len(), 10, '\n');
    lemma_bytes_lack(c.hash, c.hash.len() as int, '\n');
    let a = "// Container: offset=0x"@ + upper_hex(c.offset);
    let b = a + " size="@ + dec_text(c.size as nat);
    let d = b + " version="@ + dec_text(c.version as nat);
    let line = d + " chunks="@ + dec_text(c.chunks.len());
    assert(lacks(a, '\n'));
    assert(lacks(b, '\n'));
    assert(lacks(d, '\n'));
    assert(lacks(line, '\n'));
    assert(line.take(2) =~= seq!['/', '/']);
    lemma_comment_line(line);
    assert("\n"@ =~= seq!['\n']);
    let h = "// Header hash: "@ + bytes_text(c.hash, c.hash.len() as int);
    assert(h.take(2) =~= seq!['/', '/']);
    lemma_comment_line(h);
}

/// Whether the text of no chunk's code holds a line break.
pub open spec fn codes_on_one_line(cs: Seq<ChunkModel>) -> bool {
    forall|i: int| 0 <= i < cs.len() ==> lacks(#[trigger] fourcc_text(cs[i].fourcc), '\n')
}

proof fn lemma_chunk_notes(cs: Seq<ChunkModel>, n: int)
    requires
        0 <= n <= cs.len(),
        codes_on_one_line(cs),
    ensures
        lacks(chunk_notes(cs, n), '\n'),
    decreases n,
{
    if n > 0 {
        lemma_chunk_notes(cs, n - 1);
        reveal_strlit(" ");
        reveal_strlit("(");
        reveal_strlit(")");
        lemma_number_lacks(cs[n - 1].data.len(), 10, '\n');
        assert(lacks(fourcc_text(cs[n - 1].fourcc), '\n'));
        assert(lacks(chunk_note(cs[n - 1]), '\n'));
    }
}

proof fn lemma_chunks_line(cs: Seq<ChunkModel>)
    requires
        codes_on_one_line(cs),
    ensures
        comment_block(chunks_line(cs)),
{
    reveal_strlit("// Chunks:");
    reveal_strlit("\n//\n");
    reveal_strlit("//\n");
    lemma_chunk_notes(cs, cs.len() as int);
    let line = "// Chunks:"@ + chunk_notes(cs, cs.len() as int);
    assert(line.take(2) =~= seq!['/', '/']);
    lemma_comment_line(line);
    lemma_literal_lines();
    lemma_comment_blocks(line + seq!['\n'], "//\n"@);
    assert(chunks_line(cs) =~= line + seq!['\n'] + "//\n"@);
}

proof fn lemma_comment_lines(ls: Seq<Seq<char>>, n: int)
    requires
        0 <= n <= ls.len(),
        forall|i: int| 0 <= i < ls.len() ==> lacks(#[trigger] ls[i], '\n'),
    ensures
        comment_block(comment_lines(ls, n)),
    decreases n,
{
    if n <= 0 {
        assert(raw_lines(comment_lines(ls, n)).len() == 0);
    } else {
        lemma_comment_lines(ls, n - 1);
        let line = ls[n - 1];
        reveal_strlit("//");
        reveal_strlit("// ");
        reveal_strlit("\n");
        assert("//"@ =~= seq!['/', '/']);
        assert("\n"@ =~= seq!['\n']);
        if line.len() == 0 {
            lemma_literal_lines();
        } else if starts_with(line, "//"@) {
            lemma_comment_line(line);
        } else {
            let l = "// "@ + line;
            assert(l.take(2) =~= seq!['/', '/']);
            lemma_comment_line(l);
        }
        lemma_comment_blocks(comment_lines(ls, n - 1), comment_line(line));
    }
}

/// A text put into comments is comment lines, whatever it holds.
pub proof fn commented_text_is_comment(s: Seq<char>)
    ensures
        comment_block(commented_text(s)),
{
    lemma_raw_lines_flat(s);
    lemma_comment_lines(raw_lines(s), raw_lines(s).len() as int);
}

proof fn lemma_described(d: Option<Seq<char>>)
    ensures
        comment_block(described(d)),
        comment_block(root_part(d)),
{
    match d {
        Some(s) => {
            commented_text_is_comment(s);
            lemma_literal_lines();
            lemma_comment_blocks("// Root Signature:\n"@, commented_text(s));
        },
        None => {
            assert(raw_lines(described(d)).len() == 0);
        },
    }
}

proof fn lemma_signature_part(title: Seq<char>, sig: Option<(Seq<u8>, Seq<ElementModel>)>)
    ensures
        comment_block(signature_part(title, sig)),
{
    match sig {
        Some(s) => {
            commented_text_is_comment(signature_block(title, s));
        },
        None => {
            assert(raw_lines(signature_part(title, sig)).len() == 0);
        },
    }
}

proof fn lemma_contents(cs: Seq<ChunkModel>, ds: Descriptions)
    ensures
        comment_block(contents(cs, ds)),
{
    let a = resource_part(cs);
    match chunks_resources(cs) {
        Some(rd) => {
            commented_text_is_comment(resource_block(rd));
        },
        None => {
            assert(raw_lines(a).len() == 0);
        },
    }
    let b = signature_part("Input Signature"@, chunks_signature(cs, Role::Inputs));
    lemma_signature_part("Input Signature"@, chunks_signature(cs, Role::Inputs));
    lemma_comment_blocks(a, b);
    let c = signature_part("Output Signature"@, chunks_signature(cs, Role::Outputs));
    lemma_signature_part("Output Signature"@, chunks_signature(cs, Role::Outputs));
    lemma_comment_blocks(a + b, c);
    let d = signature_part(
        "Patch Constant Signature"@,
        chunks_signature(cs, Role::PatchConstants),
    );
    lemma_signature_part(
        "Patch Constant Signature"@,
        chunks_signature(cs, Role::PatchConstants),
    );
    lemma_comment_blocks(a + b + c, d);
    let e = stats_part(cs);
    match chunks_stats(cs) {
        Some(st) => {
            commented_text_is_comment(stats_summary(st));
        },
        None => {
            assert(raw_lines(e).len() == 0);
        },
    }
    lemma_comment_blocks(a + b + c + d, e);
    lemma_described(ds.hash);
    lemma_described(ds.feature_info);
    lemma_described(ds.debug_name);
    lemma_described(ds.root_signature);
    let t = a + b + c + d + e;
    lemma_comment_blocks(t, described(ds.hash));
    lemma_comment_blocks(t + described(ds.hash), described(ds.feature_info));
    lemma_comment_blocks(
        t + described(ds.hash) + described(ds.feature_info),
        described(ds.debug_name),
    );
    lemma_comment_blocks(
        t + described(ds.hash) + described(ds.feature_info) + described(ds.debug_name),
        root_part(ds.root_signature),
    );
}

/// Every line of the metadata header begins with `//`, whatever names the
/// chunks hold, so that whoever leaves out comments sees nothing of it. Only a
/// line break within the code of a chunk would break the inventory line.
pub proof fn header_is_comment(c: ContainerModel, d: Descriptions)
    requires
        codes_on_one_line(c.chunks),
    ensures
        comment_block(metadata_header(c, d)),
        text_lines(metadata_header(c, d), true) == Seq::<Seq<char>>::empty(),
{
    reveal(metadata_header);
    lemma_literal_lines();
    lemma_container_line(c);
    lemma_chunks_line(c.chunks);
    lemma_comment_blocks(banner(), notice());
    lemma_comment_blocks(banner() + notice(), banner());
    let a = banner() + notice() + banner();
    lemma_comment_blocks(a, container_line(c));
    lemma_comment_blocks(a + container_line(c), hash_line(c));
    lemma_comment_blocks(a + container_line(c) + hash_line(c), chunks_line(c.chunks));
    lemma_contents(c.chunks, d);
    lemma_comment_blocks(inventory(c), contents(c.chunks, d));
    lemma_comment_blocks(inventory(c) + contents(c.chunks, d), banner());
    lemma_only_comments(metadata_header(c, d));
}

} // verus!
