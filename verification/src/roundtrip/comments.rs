//! Comments count for nothing.

use vstd::prelude::*;

use crate::chunks::rdef::{BindingModel, RdefModel, VariableModel};
use crate::container_doc::{assembled, file_assembled};
use crate::floats::Spellings;
use crate::grammar::shex::reading::parsed;
use crate::lines::{
    clean_line, comment_start, has_comment, kept_line, lemma_empty_line, lemma_no_comment,
    lemma_text_lines_concat, raw_lines, strip_comment, text_lines, trim, trim_start, without_return,
};
use crate::numerals::{dec_text, lemma_number_lacks};
use crate::roundtrip::clean::{is_plain_char, lemma_operand_plain};
use crate::shex::ir::{
    ComponentSelect, ImmediateType, IndexModel, InstructionModel, KindModel, OperandModel,
    ProgramModel,
};
use crate::symbolicate::{
    Named, access_text, annotated, bound_at, buffer_named, buffer_of, component_seq, dynamic_name,
    element_registers, instruction_note, letters, named_list, named_operands, note_comment,
    noted_lines, plain_operand, register_of, resource_name, single_variable, swizzle_text,
    variable_at,
};
use crate::text::{is_white, lacks, lemma_lacks_concat, lemma_span_until, lemma_span_until_concat, span_until};

verus! {

// ---------------------------------------------------------------------------
// Comments behind a line, and comment lines
// ---------------------------------------------------------------------------

/// The comment of a line begins where it began before something was put behind
/// it, or in what was put there.
proof fn lemma_comment_start(line: Seq<char>, tail: Seq<char>)
    requires
        line.len() == 0 || line.last() != '/' || tail.len() == 0 || tail[0] != '/',
    ensures
        comment_start(line + tail) == (if has_comment(line) {
            comment_start(line)
        } else {
            line.len() + comment_start(tail)
        }),
        comment_start(line) <= line.len(),
        has_comment(line) ==> comment_start(line) < line.len(),
    decreases line.len(),
{
    let s = line + tail;
    if line.len() == 0 {
        assert(s =~= tail);
    } else {
        let rest = line.skip(1);
        assert(s.skip(1) =~= rest + tail);
        assert(s[0] == line[0]);
        if rest.len() > 0 {
            assert(rest.last() == line.last());
        }
        lemma_comment_start(rest, tail);
        if line.len() >= 2 {
            assert(s[1] == line[1]);
            if line[0] == '/' && line[1] == '/' {
                assert(line[0int] == '/' && line[0int + 1] == '/');
            } else {
                lemma_has_comment_skip(line);
            }
        } else {
            assert(line[0] == line.last());
            if tail.len() > 0 {
                assert(s[1] == tail[0]);
            }
            assert(rest =~= Seq::empty());
        }
    }
}

proof fn lemma_has_comment_skip(line: Seq<char>)
    requires
        line.len() >= 2,
        !(line[0] == '/' && line[1] == '/'),
    ensures
        has_comment(line) == has_comment(line.skip(1)),
{
    let rest = line.skip(1);
    if has_comment(line) {
        let i = choose|i: int|
            0 <= i < line.len() - 1 && #[trigger] line[i] == '/' && line[i + 1] == '/';
        assert(rest[i - 1] == '/' && rest[i - 1 + 1] == '/');
    }
    if has_comment(rest) {
        let i = choose|i: int|
            0 <= i < rest.len() - 1 && #[trigger] rest[i] == '/' && rest[i + 1] == '/';
        assert(line[i + 1] == '/' && line[i + 1 + 1] == '/');
    }
}

/// White space at the end is trimmed.
proof fn lemma_trim_tail(s: Seq<char>, tail: Seq<char>)
    requires
        forall|i: int| 0 <= i < tail.len() ==> is_white(#[trigger] tail[i]),
    ensures
        trim(s + tail) == trim(s),
    decreases tail.len(),
{
    if tail.len() == 0 {
        assert(s + tail =~= s);
    } else {
        let init = tail.drop_last();
        assert forall|i: int| 0 <= i < init.len() implies is_white(#[trigger] init[i]) by {
            assert(init[i] == tail[i]);
        }
        lemma_trim_tail(s, init);
        let t = s + tail;
        assert(t =~= (s + init).push(tail.last()));
        lemma_trim_push(s + init, tail.last());
    }
}

proof fn lemma_trim_push(s: Seq<char>, c: char)
    requires
        is_white(c),
    ensures
        trim(s.push(c)) == trim(s),
    decreases s.len(),
{
    let t = s.push(c);
    if s.len() == 0 {
        assert(t.skip(1) =~= s);
        reveal_with_fuel(trim_start, 2);
        assert(s =~= Seq::empty());
    } else if is_white(s[0]) {
        assert(t[0] == s[0]);
        assert(t.skip(1) =~= s.skip(1).push(c));
        lemma_trim_push(s.skip(1), c);
    } else {
        assert(t[0] == s[0]);
        assert(t.drop_last() =~= s);
        assert(t.last() == c);
        assert(trim_start(t) == t);
        assert(trim_start(s) == s);
    }
}

/// White space, or white space and a comment, behind a line changes nothing.
pub proof fn lemma_line_with_comment(line: Seq<char>, white: Seq<char>, comment: Seq<char>)
    requires
        forall|i: int| 0 <= i < white.len() ==> is_white(#[trigger] white[i]),
        comment.len() == 0 || (comment.len() >= 2 && comment[0] == '/' && comment[1] == '/'),
        white.len() > 0 || comment.len() == 0 || line.len() == 0 || line.last() != '/',
    ensures
        clean_line(line + white + comment, true) == clean_line(line, true),
{
    let tail = white + comment;
    let s = line + tail;
    assert(line + white + comment =~= s);
    if white.len() > 0 {
        assert(tail[0] == white[0]);
        assert(!is_white('/'));
    }
    lemma_comment_start(line, tail);
    lemma_comment_start(white, comment);
    assert(!has_comment(white)) by {
        if has_comment(white) {
            let i = choose|i: int|
                0 <= i < white.len() - 1 && #[trigger] white[i] == '/' && white[i + 1] == '/';
            assert(is_white(white[i]));
        }
    }
    if white.len() > 0 {
        assert(is_white(white[white.len() - 1]));
    }
    if has_comment(line) {
        assert(strip_comment(s) =~= strip_comment(line));
    } else {
        lemma_no_comment(line);
        assert(comment_start(tail) == white.len());
        assert(strip_comment(s) =~= line + white);
        lemma_trim_tail(line, white);
    }
}

/// The lines from number `a` on that are kept, of the `n` that follow.
pub open spec fn kept_lines(ls: Seq<Seq<char>>, a: int, n: int) -> Seq<Seq<char>>
    decreases n,
{
    if n <= 0 {
        Seq::empty()
    } else {
        kept_lines(ls, a, n - 1) + kept_line(ls[a + n - 1], true)
    }
}

proof fn lemma_kept_first(ls: Seq<Seq<char>>, a: int, n: int)
    requires
        0 <= a,
        0 < n,
        a + n <= ls.len(),
    ensures
        kept_lines(ls, a, n) == kept_line(ls[a], true) + kept_lines(ls, a + 1, n - 1),
    decreases n,
{
    if n == 1 {
        reveal_with_fuel(kept_lines, 2);
        assert(kept_lines(ls, a, 1) =~= kept_line(ls[a], true) + kept_lines(ls, a + 1, 0));
    } else {
        lemma_kept_first(ls, a, n - 1);
        assert(kept_lines(ls, a, n) =~= kept_line(ls[a], true) + kept_lines(ls, a + 1, n - 1));
    }
}

/// Lines in another list at another place.
proof fn lemma_kept_shift(ls: Seq<Seq<char>>, a: int, ms: Seq<Seq<char>>, b: int, n: int)
    requires
        0 <= a,
        0 <= b,
        a + n <= ls.len(),
        b + n <= ms.len(),
        forall|i: int| 0 <= i < n ==> #[trigger] ls[a + i] == ms[b + i],
    ensures
        kept_lines(ls, a, n) == kept_lines(ms, b, n),
    decreases n,
{
    if n > 0 {
        assert(ls[a + (n - 1)] == ms[b + (n - 1)]);
        lemma_kept_shift(ls, a, ms, b, n - 1);
    }
}

/// The cleaned lines of a text are those of its lines as they stand.
proof fn lemma_text_lines_raw(s: Seq<char>)
    ensures
        text_lines(s, true) == kept_lines(raw_lines(s), 0, raw_lines(s).len() as int),
    decreases s.len(),
{
    lemma_span_until(s, '\n', '\n', '\n');
    let n = span_until(s, '\n', '\n', '\n');
    let ls = raw_lines(s);
    if s.len() == 0 {
        lemma_empty_line(true);
        assert(s =~= Seq::empty());
    } else if n < s.len() {
        let line = s.take(n as int);
        let rest = s.skip(n as int + 1);
        lemma_text_lines_raw(rest);
        let ms = raw_lines(rest);
        lemma_kept_first(ls, 0, ls.len() as int);
        assert forall|i: int| 0 <= i < ms.len() implies #[trigger] ls[1 + i] == ms[0 + i] by {}
        lemma_kept_shift(ls, 1, ms, 0, ms.len() as int);
        if line.len() > 0 && line.last() == '\r' {
            let w = without_return(line);
            assert(line =~= w + seq!['\r'] + Seq::<char>::empty());
            lemma_line_with_comment(w, seq!['\r'], Seq::empty());
        }
    } else {
        reveal_with_fuel(kept_lines, 2);
        assert(kept_lines(ls, 0, 1) =~= kept_line(s, true));
    }
}

/// A comment line among the lines of a text changes nothing of what is read from
/// it: neither a program nor a document.
pub proof fn comment_line_is_ignored(
    a: Seq<char>,
    comment: Seq<char>,
    b: Seq<char>,
    ft: Spellings,
)
    requires
        a.len() == 0 || a.last() == '\n',
        lacks(comment, '\n'),
    ensures
        ({
            let s = a + (seq!['/', '/'] + comment + seq!['\n']) + b;
            &&& text_lines(s, true) == text_lines(a + b, true)
            &&& parsed(s, ft) == parsed(a + b, ft)
            &&& assembled(text_lines(s, true), ft) == assembled(text_lines(a + b, true), ft)
            &&& file_assembled(text_lines(s, true), 0, ft) == file_assembled(
                text_lines(a + b, true),
                0,
                ft,
            )
        }),
{
    let c = seq!['/', '/'] + comment;
    let line = c + seq!['\n'];
    let e = Seq::<char>::empty();
    lemma_span_until_concat(c, seq!['\n'], '\n', '\n', '\n');
    assert(e + e + c =~= c);
    lemma_line_with_comment(e, e, c);
    assert(strip_comment(e) =~= e);
    reveal_with_fuel(text_lines, 2);
    assert(line.skip(c.len() as int + 1) =~= e);
    lemma_empty_line(true);
    assert(text_lines(line, true) =~= Seq::empty());
    lemma_text_lines_concat(a, line, true);
    assert((a + line).last() == '\n');
    lemma_text_lines_concat(a + line, b, true);
    lemma_text_lines_concat(a, b, true);
    assert(text_lines(a + line + b, true) =~= text_lines(a + b, true));
}

/// A comment behind a line changes nothing of what is read from a text, unless
/// it stands directly behind a slash.
pub proof fn trailing_comment_is_ignored(
    a: Seq<char>,
    line: Seq<char>,
    comment: Seq<char>,
    b: Seq<char>,
    ft: Spellings,
)
    requires
        a.len() == 0 || a.last() == '\n',
        lacks(line, '\n'),
        lacks(comment, '\n'),
        line.len() == 0 || line.last() != '/',
    ensures
        ({
            let s = a + (line + seq!['/', '/'] + comment + seq!['\n']) + b;
            let t = a + (line + seq!['\n']) + b;
            &&& text_lines(s, true) == text_lines(t, true)
            &&& parsed(s, ft) == parsed(t, ft)
            &&& assembled(text_lines(s, true), ft) == assembled(text_lines(t, true), ft)
            &&& file_assembled(text_lines(s, true), 0, ft) == file_assembled(
                text_lines(t, true),
                0,
                ft,
            )
        }),
{
    let c = seq!['/', '/'] + comment;
    let e = Seq::<char>::empty();
    let noted = line + c;
    assert(line + e + c =~= noted);
    lemma_line_with_comment(line, e, c);
    lemma_one(noted);
    lemma_one(line);
    let x = noted + seq!['\n'];
    let y = line + seq!['\n'];
    assert(line + seq!['/', '/'] + comment + seq!['\n'] =~= x);
    lemma_text_lines_concat(a, x, true);
    lemma_text_lines_concat(a, y, true);
    assert((a + x).last() == '\n' && (a + y).last() == '\n');
    lemma_text_lines_concat(a + x, b, true);
    lemma_text_lines_concat(a + y, b, true);
}

/// The lines of one line.
proof fn lemma_one(line: Seq<char>)
    requires
        lacks(line, '\n'),
    ensures
        text_lines(line + seq!['\n'], true) == kept_line(line, true),
{
    let e = Seq::<char>::empty();
    let s = line + seq!['\n'];
    lemma_span_until_concat(line, seq!['\n'], '\n', '\n', '\n');
    reveal_with_fuel(text_lines, 2);
    assert(s.skip(line.len() as int + 1) =~= e);
    lemma_empty_line(true);
    assert(text_lines(s, true) =~= kept_line(line, true));
}

// ---------------------------------------------------------------------------
// Names behind instructions
// ---------------------------------------------------------------------------

/// Whether no name of a resource or variable holds a line break.
pub open spec fn names_on_one_line(rd: RdefModel) -> bool {
    &&& forall|i: int| 0 <= i < rd.bindings.len() ==> lacks(#[trigger] rd.bindings[i].name, '\n')
    &&& forall|i: int, j: int|
        0 <= i < rd.constant_buffers.len() && 0 <= j < rd.constant_buffers[i].variables.len()
            ==> lacks(#[trigger] rd.constant_buffers[i].variables[j].name, '\n')
}

proof fn lemma_bound(bs: Seq<BindingModel>, r: crate::shex::ir::RegisterType, reg: u32, k: int)
    requires
        0 <= k,
        forall|i: int| 0 <= i < bs.len() ==> lacks(#[trigger] bs[i].name, '\n'),
    ensures
        match bound_at(bs, r, reg, k) {
            Some(b) => lacks(b.name, '\n'),
            None => true,
        },
    decreases bs.len() - k,
{
    if k < bs.len() {
        assert(lacks(bs[k].name, '\n'));
        lemma_bound(bs, r, reg, k + 1);
    }
}

/// Whether no name of a variable holds a line break.
pub open spec fn flat_names(vs: Seq<VariableModel>) -> bool {
    forall|j: int| 0 <= j < vs.len() ==> lacks(#[trigger] vs[j].name, '\n')
}

proof fn lemma_buffer(rd: RdefModel, name: Seq<char>, k: int)
    requires
        0 <= k,
        names_on_one_line(rd),
    ensures
        match buffer_named(rd.constant_buffers, name, k) {
            Some(c) => flat_names(c.variables),
            None => true,
        },
    decreases rd.constant_buffers.len() - k,
{
    if k < rd.constant_buffers.len() {
        let c = rd.constant_buffers[k];
        assert forall|j: int| 0 <= j < c.variables.len() implies lacks(
            #[trigger] c.variables[j].name,
            '\n',
        ) by {
            assert(lacks(rd.constant_buffers[k].variables[j].name, '\n'));
        }
        lemma_buffer(rd, name, k + 1);
    }
}

proof fn lemma_variable(vs: Seq<VariableModel>, byte: int, k: int)
    requires
        0 <= k,
        flat_names(vs),
    ensures
        match variable_at(vs, byte, k) {
            Some(v) => lacks(v.name, '\n'),
            None => true,
        },
    decreases vs.len() - k,
{
    if k < vs.len() {
        assert(lacks(vs[k].name, '\n'));
        lemma_variable(vs, byte, k + 1);
    }
}

proof fn lemma_letters(comps: Seq<u8>, shift: int, n: int)
    requires
        n <= comps.len(),
    ensures
        lacks(letters(comps, shift, n), '\n'),
    decreases n,
{
    if n <= 0 {
        reveal_strlit(".");
    } else {
        lemma_letters(comps, shift, n - 1);
    }
}

/// A name, an index and a swizzle hold no line break.
proof fn lemma_indexed(name: Seq<char>, index: Seq<char>, swizzle: Seq<char>)
    requires
        lacks(name, '\n'),
        lacks(index, '\n'),
        lacks(swizzle, '\n'),
    ensures
        lacks(name + "["@ + index + "]"@ + swizzle, '\n'),
{
    reveal_strlit("[");
    reveal_strlit("]");
    lemma_lacks_concat(name, "["@, '\n');
    lemma_lacks_concat(name + "["@, index, '\n');
    lemma_lacks_concat(name + "["@ + index, "]"@, '\n');
    lemma_lacks_concat(name + "["@ + index + "]"@, swizzle, '\n');
}

proof fn lemma_operand_flat(op: OperandModel)
    ensures
        lacks(plain_operand(op), '\n'),
{
    lemma_operand_plain(op, ImmediateType::Uint, Seq::empty());
    let t = plain_operand(op);
    assert forall|i: int| 0 <= i < t.len() implies #[trigger] t[i] != '\n' by {
        assert(is_plain_char(t[i]));
    }
}

proof fn lemma_access(v: VariableModel, reg: int, comps: Seq<u8>)
    requires
        lacks(v.name, '\n'),
    ensures
        lacks(access_text(v, reg, comps), '\n'),
{
    let row = reg - v.offset as int / 16;
    lemma_letters(comps, 0, comps.len() as int);
    lemma_letters(comps, v.offset as int % 16 / 4, comps.len() as int);
    lemma_number_lacks((row / element_registers(v)) as nat, 10, '\n');
    lemma_number_lacks(row as nat, 10, '\n');
    lemma_indexed(
        v.name,
        dec_text((row / element_registers(v)) as nat),
        swizzle_text(comps, 0),
    );
    lemma_indexed(v.name, dec_text(row as nat), swizzle_text(comps, 0));
    lemma_lacks_concat(v.name, swizzle_text(comps, v.offset as int % 16 / 4), '\n');
}

proof fn lemma_dynamic(vs: Seq<VariableModel>, base: u32, sub: OperandModel, c: ComponentSelect)
    requires
        flat_names(vs),
    ensures
        match dynamic_name(vs, base, sub, c) {
            Some(n) => lacks(n, '\n'),
            None => true,
        },
{
    lemma_variable(vs, 16 * base, 0);
    match variable_at(vs, 16 * base, 0) {
        Some(v) => {
            let row = base - v.offset as int / 16;
            reveal_strlit("+");
            lemma_operand_flat(sub);
            lemma_number_lacks(row as nat, 10, '\n');
            let x = plain_operand(sub);
            let y = x + "+"@ + dec_text(row as nat);
            lemma_lacks_concat(x, "+"@, '\n');
            lemma_lacks_concat(x + "+"@, dec_text(row as nat), '\n');
            let comps = component_seq(c);
            lemma_letters(comps, 0, comps.len() as int);
            lemma_indexed(v.name, x, swizzle_text(comps, 0));
            lemma_indexed(v.name, y, swizzle_text(comps, 0));
        },
        None => {},
    }
}

/// The name of what an operand reads holds no line break.
proof fn lemma_resource_name(op: OperandModel, rd: RdefModel)
    requires
        names_on_one_line(rd),
    ensures
        match resource_name(op, rd) {
            Some(n) => lacks(n, '\n'),
            None => true,
        },
{
    match register_of(op) {
        Some(reg) => {
            lemma_bound(rd.bindings, op.reg_type, reg, 0);
            match bound_at(rd.bindings, op.reg_type, reg, 0) {
                Some(b) => {
                    lemma_buffer(rd, b.name, 0);
                    match buffer_of(op, rd) {
                        Some(cb) => {
                            if op.indices.len() >= 2 {
                                match op.indices[1] {
                                    IndexModel::Imm32(r) => {
                                        let comps = component_seq(op.components);
                                        if comps.len() > 0 {
                                            lemma_variable(
                                                cb.variables,
                                                16 * r + 4 * comps[0],
                                                0,
                                            );
                                        }
                                        match single_variable(cb.variables, r, comps) {
                                            Some(v) => {
                                                lemma_access(v, r as int, comps);
                                            },
                                            None => {},
                                        }
                                    },
                                    IndexModel::RelativePlusImm(base, sub) => {
                                        lemma_dynamic(cb.variables, base, *sub, op.components);
                                    },
                                    IndexModel::Relative(sub) => {
                                        lemma_dynamic(cb.variables, 0, *sub, op.components);
                                    },
                                    _ => {},
                                }
                            }
                        },
                        None => {},
                    }
                },
                None => {},
            }
        },
        None => {},
    }
}

/// Whether all operands and names lie on one line.
pub open spec fn flat_list(all: Seq<Named>) -> bool {
    forall|i: int|
        0 <= i < all.len() ==> lacks((#[trigger] all[i]).addr, '\n') && lacks(all[i].name, '\n')
}

proof fn lemma_named_operands(ops: Seq<OperandModel>, rd: RdefModel, n: int)
    requires
        n <= ops.len(),
        names_on_one_line(rd),
    ensures
        flat_list(named_operands(ops, rd, n)),
    decreases n,
{
    if n > 0 {
        lemma_named_operands(ops, rd, n - 1);
        lemma_resource_name(ops[n - 1], rd);
        lemma_operand_flat(ops[n - 1]);
    }
}

proof fn lemma_named_list(all: Seq<Named>, n: int)
    requires
        n <= all.len(),
        flat_list(all),
    ensures
        lacks(named_list(all, n), '\n'),
    decreases n,
{
    if n > 0 {
        lemma_named_list(all, n - 1);
        reveal_strlit(", ");
        reveal_strlit(" = ");
        let sep = if n == 1 {
            Seq::<char>::empty()
        } else {
            ", "@
        };
        let x = all[n - 1];
        assert(lacks(x.addr, '\n') && lacks(x.name, '\n'));
        let a = named_list(all, n - 1);
        lemma_lacks_concat(a, sep, '\n');
        lemma_lacks_concat(a + sep, x.addr, '\n');
        lemma_lacks_concat(a + sep + x.addr, " = "@, '\n');
        lemma_lacks_concat(a + sep + x.addr + " = "@, x.name, '\n');
    }
}

/// What is put behind an instruction is nothing, or spaces and a comment.
proof fn lemma_note(i: InstructionModel, rd: RdefModel, line: Seq<char>)
    requires
        names_on_one_line(rd),
    ensures
        lacks(note_comment(i, rd), '\n'),
        clean_line(line + note_comment(i, rd), true) == clean_line(line, true),
{
    let e = Seq::<char>::empty();
    match i.kind {
        KindModel::Generic { operands } => {
            let all = named_operands(operands, rd, operands.len() as int);
            lemma_named_operands(operands, rd, operands.len() as int);
            lemma_named_list(all, all.len() as int);
        },
        _ => {},
    }
    match instruction_note(i, rd) {
        Some(t) => {
            reveal_strlit("  // ");
            let c = seq!['/', '/', ' '] + t;
            lemma_lacks_concat("  // "@, t, '\n');
            assert(line + note_comment(i, rd) =~= line + seq![' ', ' '] + c);
            lemma_line_with_comment(line, seq![' ', ' '], c);
        },
        None => {
            assert(line + note_comment(i, rd) =~= line);
        },
    }
}

proof fn lemma_noted_lines(
    ls: Seq<Seq<char>>,
    is: Seq<InstructionModel>,
    rd: RdefModel,
    n: int,
)
    requires
        0 <= n <= is.len(),
        ls.len() == is.len() + 1,
        names_on_one_line(rd),
        forall|i: int| 0 <= i < ls.len() ==> lacks(#[trigger] ls[i], '\n'),
    ensures
        text_lines(noted_lines(ls, is, rd, n), true) == kept_lines(ls, 1, n),
        noted_lines(ls, is, rd, n).len() == 0 || noted_lines(ls, is, rd, n).last() == '\n',
    decreases n,
{
    if n == 0 {
        lemma_empty_line(true);
    } else {
        lemma_noted_lines(ls, is, rd, n - 1);
        let line = ls[n];
        let note = note_comment(is[n - 1], rd);
        lemma_note(is[n - 1], rd, line);
        assert(lacks(ls[n], '\n'));
        lemma_lacks_concat(line, note, '\n');
        lemma_one(line + note);
        reveal_strlit("\n");
        assert("\n"@ =~= seq!['\n']);
        let a = noted_lines(ls, is, rd, n - 1);
        let b = line + note + "\n"@;
        lemma_text_lines_concat(a, b, true);
        assert((a + b).last() == '\n');
        assert(ls[1 + n - 1] == line);
    }
}

/// Names put behind instructions are comments: whoever reads the text sees the
/// same lines as before, and so reads the same program. Left out are names with
/// a line break in them.
pub proof fn annotation_is_ignored(
    text: Seq<char>,
    p: ProgramModel,
    rd: RdefModel,
    ft: Spellings,
)
    requires
        names_on_one_line(rd),
    ensures
        text_lines(annotated(text, p, rd), true) == text_lines(text, true),
        parsed(annotated(text, p, rd), ft) == parsed(text, ft),
{
    let ls = raw_lines(text);
    let is = p.instructions;
    if ls.len() == is.len() + 1 {
        crate::lines::lemma_raw_lines_flat(text);
        lemma_text_lines_raw(text);
        lemma_noted_lines(ls, is, rd, is.len() as int);
        lemma_one(ls[0]);
        reveal_strlit("\n");
        assert("\n"@ =~= seq!['\n']);
        let a = ls[0] + "\n"@;
        let b = noted_lines(ls, is, rd, is.len() as int);
        lemma_text_lines_concat(a, b, true);
        lemma_kept_first(ls, 0, ls.len() as int);
    }
}

} // verus!
