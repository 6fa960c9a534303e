//! Programs read back.

use vstd::prelude::*;
use vstd::utf8::{decode_utf8_encode_utf8, encode_utf8};

use crate::floats::Spellings;
use crate::grammar::shex::reading::{
    Profile, parsed, read_instructions, read_profile, read_profile_parts,
};
use crate::grammar::shex::text::{
    fourcc_text, instruction_text, instructions_text, profile_text, program_text, shex_code,
};
use crate::grammar::tables::{shader_types, table_value};
use crate::lines::{
    is_clean, lemma_empty_line, lemma_one_line, lemma_split_once_concat, lemma_text_lines_concat,
    lemma_trim_trimmed, split_once, text_lines,
};
use crate::numerals::{dec_text, lemma_number_lacks, number_reads_back};
use crate::roundtrip::clean::{
    inked, is_plain_char, lemma_inked_concat, lemma_number_inked, lemma_word_inked,
};
use crate::roundtrip::declarations::lemma_entry;
use crate::roundtrip::documents::readable_code;
use crate::roundtrip::instructions::{
    instruction_reads_back, lemma_instruction_clean, valid_instruction,
};
use crate::roundtrip::tables::{is_entry, lemma_entry_value, lemma_shader_types};
use crate::shex::ir::{InstructionModel, ProgramModel};
use crate::text::{lacks, lemma_span_until_concat, starts_with};

verus! {

/// Whether a program can be written: its stage has a name, its code can stand on
/// a line, and its instructions can be written.
pub open spec fn valid_program(p: ProgramModel) -> bool {
    &&& is_entry(shader_types(), p.shader_type)
    &&& readable_code(p.fourcc)
    &&& forall|i: int| 0 <= i < p.instructions.len() ==> valid_instruction(
        #[trigger] p.instructions[i],
    )
}

// ---------------------------------------------------------------------------
// The profile line
// ---------------------------------------------------------------------------

/// Stage and version.
pub open spec fn profile_core(p: ProgramModel) -> Seq<char> {
    p.shader_type + (seq!['_'] + (dec_text(p.major_version as nat) + (seq!['_'] + dec_text(
        p.minor_version as nat,
    ))))
}

/// The names of the stages have two letters, none of them an underscore.
proof fn lemma_stage(s: Seq<char>)
    requires
        is_entry(shader_types(), s),
    ensures
        s.len() == 2,
        lacks(s, '_'),
        inked(s),
        table_value(shader_types(), s) is Some,
{
    lemma_shader_types();
    lemma_entry(shader_types(), s);
    lemma_word_inked(s);
    lemma_entry_value(shader_types(), s);
    let t = shader_types();
    let i = choose|i: int| 0 <= i < t.len() && t[i].0 == s;
    reveal_strlit("ps");
    reveal_strlit("vs");
    reveal_strlit("gs");
    reveal_strlit("hs");
    reveal_strlit("ds");
    reveal_strlit("cs");
    if i == 0 {
        assert(s == "ps"@);
    } else if i == 1 {
        assert(s == "vs"@);
    } else if i == 2 {
        assert(s == "gs"@);
    } else if i == 3 {
        assert(s == "hs"@);
    } else if i == 4 {
        assert(s == "ds"@);
    } else {
        assert(s == "cs"@);
    }
}

pub proof fn lemma_not_contains(s: Seq<char>, c: char)
    requires
        lacks(s, c),
    ensures
        !s.contains(c),
{
    if s.contains(c) {
        let i = choose|i: int| 0 <= i < s.len() && s[i] == c;
        assert(s[i] != c);
    }
}

/// Stage and version are taken apart at the underscores.
proof fn lemma_profile_core(p: ProgramModel)
    requires
        is_entry(shader_types(), p.shader_type),
    ensures
        inked(profile_core(p)),
        profile_core(p).len() > 2,
        profile_core(p)[2] == '_',
        split_once(profile_core(p), '_') == Some(
            (
                p.shader_type,
                dec_text(p.major_version as nat) + seq!['_'] + dec_text(p.minor_version as nat),
            ),
        ),
        split_once(
            dec_text(p.major_version as nat) + seq!['_'] + dec_text(p.minor_version as nat),
            '_',
        ) == Some((dec_text(p.major_version as nat), dec_text(p.minor_version as nat))),
{
    broadcast use lemma_inked_concat;

    let st = p.shader_type;
    let maj = dec_text(p.major_version as nat);
    let min = dec_text(p.minor_version as nat);
    lemma_stage(st);
    lemma_number_inked(p.major_version as nat);
    lemma_number_inked(p.minor_version as nat);
    assert(inked(seq!['_']));
    lemma_number_lacks(p.major_version as nat, 10, '_');
    lemma_not_contains(st, '_');
    lemma_not_contains(maj, '_');
    let rest = maj + seq!['_'] + min;
    lemma_split_once_concat(maj, '_', min);
    lemma_split_once_concat(st, '_', rest);
    assert(profile_core(p) =~= st + seq!['_'] + rest);
}

/// The profile line, with its code where it is not the usual one.
proof fn lemma_profile_text(p: ProgramModel)
    ensures
        profile_text(p) == (if p.fourcc == shex_code() {
            profile_core(p)
        } else {
            profile_core(p) + seq![' '] + fourcc_text(p.fourcc)
        }),
{
    reveal_strlit(" ");
    let a = p.shader_type;
    let b = dec_text(p.major_version as nat);
    let c = dec_text(p.minor_version as nat);
    let e = if p.fourcc == shex_code() {
        Seq::<char>::empty()
    } else {
        " "@ + fourcc_text(p.fourcc)
    };
    assert(a + (seq!['_'] + (b + (seq!['_'] + (c + e)))) =~= a + (seq!['_'] + (b + (seq!['_'] + c)))
        + e);
    if p.fourcc == shex_code() {
        assert(profile_core(p) + e =~= profile_core(p));
    } else {
        assert(profile_core(p) + e =~= profile_core(p) + seq![' '] + fourcc_text(p.fourcc));
    }
}

/// Stage, version and code of a profile line that has been taken apart.
proof fn lemma_read_profile(p: ProgramModel, line: Seq<char>)
    requires
        is_entry(shader_types(), p.shader_type),
        line.len() > 2,
        line[2] == '_',
        read_profile_parts(line) == Ok::<(Seq<char>, Seq<u8>), Seq<char>>(
            (profile_core(p), p.fourcc),
        ),
    ensures
        read_profile(line) == Ok::<Profile, Seq<char>>(
            Profile {
                shader_type: p.shader_type,
                major: p.major_version,
                minor: p.minor_version,
                fourcc: p.fourcc,
            },
        ),
{
    reveal(read_profile);
    reveal_strlit("profile=");
    lemma_profile_core(p);
    lemma_stage(p.shader_type);
    number_reads_back(p.major_version as nat, 10, 0xffff_ffff);
    number_reads_back(p.minor_version as nat, 10, 0xffff_ffff);
    if starts_with(line, "profile="@) {
        assert(line.take(8)[2] == 'o');
    }
}

/// The code of a profile line, where one is written.
proof fn lemma_profile_code(core: Seq<char>, f: Seq<u8>)
    requires
        lacks(core, ' '),
        readable_code(f),
    ensures
        read_profile_parts(core + seq![' '] + fourcc_text(f)) == Ok::<
            (Seq<char>, Seq<u8>),
            Seq<char>,
        >((core, f)),
{
    let t = fourcc_text(f);
    reveal_strlit("fourcc=");
    lemma_not_contains(core, ' ');
    lemma_split_once_concat(core, ' ', t);
    lemma_trim_trimmed(t);
    decode_utf8_encode_utf8(f);
    if starts_with(t, "fourcc="@) {
        lemma_long_code(t, f);
    }
}

/// A profile line without a code.
proof fn lemma_profile_no_code(core: Seq<char>)
    requires
        lacks(core, ' '),
    ensures
        read_profile_parts(core) == Ok::<(Seq<char>, Seq<u8>), Seq<char>>((core, shex_code())),
{
    lemma_span_until_concat(core, Seq::empty(), ' ', ' ', ' ');
    assert(core + Seq::<char>::empty() =~= core);
}

/// The profile line is clean and reads back.
proof fn lemma_profile(p: ProgramModel)
    requires
        is_entry(shader_types(), p.shader_type),
        readable_code(p.fourcc),
    ensures
        is_clean(profile_text(p), true),
        read_profile(profile_text(p)) == Ok::<Profile, Seq<char>>(
            Profile {
                shader_type: p.shader_type,
                major: p.major_version,
                minor: p.minor_version,
                fourcc: p.fourcc,
            },
        ),
{
    let core = profile_core(p);
    let line = profile_text(p);
    let e = Seq::<char>::empty();
    lemma_profile_text(p);
    lemma_profile_core(p);
    if p.fourcc == shex_code() {
        lemma_profile_no_code(core);
        assert(core + e =~= core);
        lemma_core_clean(core, e);
    } else {
        let t = fourcc_text(p.fourcc);
        lemma_profile_code(core, p.fourcc);
        assert(line =~= core + (seq![' '] + t));
        assert((seq![' '] + t).skip(1) =~= t);
        lemma_core_clean(core, seq![' '] + t);
    }
    lemma_read_profile(p, line);
}

/// A text that encodes in four bytes has at most four characters.
proof fn lemma_long_code(t: Seq<char>, f: Seq<u8>)
    requires
        f == encode_utf8(t),
    ensures
        t.len() <= f.len(),
    decreases t.len(),
{
    if t.len() > 0 {
        let rest = t.drop_first();
        lemma_long_code(rest, encode_utf8(rest));
    }
}

/// A line that begins with stage and version is clean where what follows is.
proof fn lemma_core_clean(core: Seq<char>, tail: Seq<char>)
    requires
        inked(core),
        core.len() > 0,
        tail.len() == 0 || (tail.len() > 1 && tail[0] == ' ' && is_clean(tail.skip(1), true)),
    ensures
        is_clean(core + tail, true),
{
    let s = core + tail;
    assert(s[0] == core[0]);
    assert(is_plain_char(core[0]) && core[0] != ' ');
    let t = tail.skip(1);
    if tail.len() == 0 {
        assert(s.last() == core[core.len() - 1]);
    } else {
        assert(s.last() == t.last());
    }
    if s.contains('\n') {
        let i = choose|i: int| 0 <= i < s.len() && s[i] == '\n';
        if i < core.len() {
            assert(is_plain_char(core[i]));
        } else if i > core.len() {
            assert(t[i - core.len() - 1] == '\n');
            assert(t.contains('\n'));
        }
    }
    assert forall|i: int| 0 <= i < s.len() - 1 implies !(#[trigger] s[i] == '/' && s[i + 1]
        == '/') by {
        let n = core.len() as int;
        if i < n {
            assert(s[i] == core[i]);
            assert(is_plain_char(core[i]));
        } else if i > n {
            assert(s[i] == t[i - n - 1]);
            assert(s[i + 1] == t[i - n - 1 + 1]);
        }
    }
}

// ---------------------------------------------------------------------------
// The program
// ---------------------------------------------------------------------------

/// The lines of the instructions from number `k` on.
pub open spec fn instruction_lines(is: Seq<InstructionModel>, k: int, ft: Spellings) -> Seq<
    Seq<char>,
> {
    Seq::new((is.len() - k) as nat, |i: int| instruction_text(is[k + i], ft))
}

proof fn lemma_instruction_lines(is: Seq<InstructionModel>, k: int, ft: Spellings)
    requires
        0 <= k <= is.len(),
        forall|i: int| 0 <= i < is.len() ==> valid_instruction(#[trigger] is[i]),
    ensures
        text_lines(instructions_text(is, k, ft), true) == instruction_lines(is, k, ft),
    decreases is.len() - k,
{
    if k == is.len() {
        lemma_empty_line(true);
        assert(instruction_lines(is, k, ft) =~= Seq::empty());
    } else {
        assert(valid_instruction(is[k]));
        let t = instruction_text(is[k], ft);
        lemma_instruction_clean(is[k], ft);
        lemma_one_line(t, true);
        lemma_instruction_lines(is, k + 1, ft);
        let more = instructions_text(is, k + 1, ft);
        lemma_text_lines_concat(t.push('\n'), more, true);
        assert(instruction_lines(is, k, ft) =~= seq![t] + instruction_lines(is, k + 1, ft));
    }
}

proof fn lemma_read_instructions(
    is: Seq<InstructionModel>,
    k: int,
    ls: Seq<Seq<char>>,
    ft: Spellings,
)
    requires
        0 <= k <= is.len(),
        ls.len() == is.len() + 1,
        forall|i: int| 0 <= i < is.len() ==> #[trigger] ls[i + 1] == instruction_text(is[i], ft),
        forall|i: int| 0 <= i < is.len() ==> valid_instruction(#[trigger] is[i]),
    ensures
        read_instructions(ls, k + 1, ft) == Ok::<Seq<InstructionModel>, Seq<char>>(is.skip(k)),
    decreases is.len() - k,
{
    if k == is.len() {
        assert(is.skip(k) =~= Seq::empty());
    } else {
        assert(valid_instruction(is[k]));
        instruction_reads_back(is[k], ft);
        assert(ls[k + 1] == instruction_text(is[k], ft));
        lemma_read_instructions(is, k + 1, ls, ft);
        assert(is.skip(k) =~= seq![is[k]] + is.skip(k + 1));
    }
}

/// A program that can be written reads back as it was: the text loses nothing of
/// it, whatever spellings the floating-point numbers have.
pub proof fn program_reads_back(p: ProgramModel, ft: Spellings)
    requires
        valid_program(p),
    ensures
        parsed(program_text(p, ft), ft) == Ok::<ProgramModel, Seq<char>>(p),
{
    let is = p.instructions;
    let head = profile_text(p);
    lemma_profile(p);
    lemma_one_line(head, true);
    lemma_instruction_lines(is, 0, ft);
    let body = instructions_text(is, 0, ft);
    lemma_text_lines_concat(head.push('\n'), body, true);
    let ls = text_lines(program_text(p, ft), true);
    assert(ls == seq![head] + instruction_lines(is, 0, ft));
    assert(ls[0] == head);
    assert forall|i: int| 0 <= i < is.len() implies #[trigger] ls[i + 1] == instruction_text(
        is[i],
        ft,
    ) by {
        assert(ls[i + 1] == instruction_lines(is, 0, ft)[i]);
    }
    lemma_read_instructions(is, 0, ls, ft);
    assert(is.skip(0) =~= is);
}

/// The first line of a program's text is its profile.
pub proof fn lemma_first_line(p: ProgramModel, ft: Spellings)
    requires
        valid_program(p),
    ensures
        ({
            let ls = text_lines(program_text(p, ft), true);
            ls.len() > 0 && ls[0].len() > 2 && ls[0][2] == '_'
        }),
{
    let head = profile_text(p);
    lemma_profile(p);
    lemma_profile_core(p);
    lemma_profile_text(p);
    lemma_one_line(head, true);
    let body = instructions_text(p.instructions, 0, ft);
    lemma_text_lines_concat(head.push('\n'), body, true);
    assert(text_lines(program_text(p, ft), true)[0] == head);
}

} // verus!
