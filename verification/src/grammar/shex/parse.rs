//! Reading a shader program from text.

use vstd::prelude::*;

use crate::debug::debug_str;
use crate::floats::{FloatTable, is_float_text};
use crate::grammar::shex::reading::{
    Core, Ports, Typed, after_token, at_char, at_digit, axis_or_zero, best_opcode, best_register,
    bracketed, four_types, is_count, is_operand_decl, mask_of, missing_type, modifier_parts,
    no_ports, parsed, quoting, read_bracket_index, read_brackets, read_components, read_core,
    read_count, read_custom_data, read_data_tag, read_dcl_resource, read_dcl_uav_structured,
    read_dcl_uav_typed, read_dec, read_declared_types, read_enum, read_flag_names,
    read_global_flags, read_gs_input, read_gs_topology, read_hex, read_hex0x, read_imm_list,
    read_immediate, read_immediates, read_indices, read_instruction, read_instructions, read_kind,
    read_leading_operand, read_mnemonic, read_modifier, read_modifiers, read_number_index,
    read_offset, read_offsets, read_operand, read_operand_decl, read_operand_list, read_port,
    read_ports, read_profile, read_profile_parts, read_program, read_raw_block, read_raw_words,
    read_register, read_required_tag, read_resource_dim, read_resource_rt, read_return_type,
    read_row, read_row_word, read_rows, read_spaced_dec, read_system_value, read_tag, read_tag_dec,
    read_tag_enum, read_tag_hex, read_three, read_trailing_dec, read_typed, read_types_from,
    read_u32_list, read_words, skip_char, span_axes, token,
};
use crate::grammar::shex::text::shex_code;
use crate::grammar::tables::{
    axis_index, cb_access_table, dimensions_table, global_flags, global_flags_table, intern,
    interpolations_table, sampler_modes_table, shader_types_table, system_value_name,
    system_value_to_u32, table_of, tess_domains_table, tess_output_prims_table,
    tess_partitionings_table, value_of,
};
use crate::lines::{lines_of, split, split_at_first, split_chars, trimmed, views};
use crate::numerals::{dec_text, parse_signed, parse_unsigned, push_dec};
use crate::shex::ir::{
    ComponentSelect, CustomDataType, FlagNames, GsOutputTopology, GsPrimitive, Immediates,
    IndexModel, Indices, Instruction, InstructionKind, InstructionModel, KindModel, Modifiers,
    Opcode, Operand, OperandIndex, OperandModel, Operands, Program, ProgramModel, RegisterType,
    ReturnType, SmallU32Vec, index_models, instruction_models, operand_models, opt_text,
};
use crate::text::{
    after_spaces, chars_of, digit, digits_len, is_text, push_chars, push_text, skip, skip_spaces,
    span_until_any, starts_with, string_of, strip_last_char, strip_prefix_chars, strip_text, take,
};

verus! {

/// Why a text could not be read.
#[derive(Debug, PartialEq, Eq)]
pub struct AsmError {
    /// What went wrong, for a human reader.
    pub message: String,
}

impl AsmError {
    /// The error as one line of text.
    pub fn to_text(&self) -> (r: String)
        ensures
            r@ == "d3dasm parse error: "@ + self.message@,
    {
        let mut s = String::new();
        push_text(&mut s, "d3dasm parse error: ");
        push_text(&mut s, self.message.as_str());
        assert(s@ =~= "d3dasm parse error: "@ + self.message@);
        s
    }
}

/// The error with that message.
pub(crate) fn plain_error(message: &str) -> (r: AsmError)
    ensures
        r.message@ == message@,
{
    let mut m = String::new();
    push_text(&mut m, message);
    assert(m@ =~= message@);
    AsmError { message: m }
}

/// The error with that message, about the text `s`.
pub(crate) fn quoting_error(message: &str, s: &[char]) -> (r: AsmError)
    ensures
        r.message@ == quoting(message@, s@),
{
    let mut m = String::new();
    push_text(&mut m, message);
    let q = debug_str(string_of(s).as_str());
    push_text(&mut m, q.as_str());
    assert(m@ =~= quoting(message@, s@));
    AsmError { message: m }
}

// ---------------------------------------------------------------------------
// Numbers and names
// ---------------------------------------------------------------------------

fn parse_dec(s: &[char], max: u64) -> (r: Result<u64, AsmError>)
    ensures
        match r {
            Ok(v) => read_dec(s@, max as nat) == Ok::<nat, Seq<char>>(v as nat) && v <= max,
            Err(e) => read_dec(s@, max as nat) == Err::<nat, Seq<char>>(e.message@),
        },
{
    match parse_unsigned(s, 10, max) {
        Some(v) => Ok(v),
        None => Err(quoting_error("bad number: ", s)),
    }
}

fn parse_dec32(s: &[char]) -> (r: Result<u32, AsmError>)
    ensures
        match r {
            Ok(v) => read_dec(s@, 0xffff_ffff) == Ok::<nat, Seq<char>>(v as nat),
            Err(e) => read_dec(s@, 0xffff_ffff) == Err::<nat, Seq<char>>(e.message@),
        },
{
    match parse_dec(s, 0xffff_ffff) {
        Ok(v) => Ok(v as u32),
        Err(e) => Err(e),
    }
}

fn parse_hex(s: &[char]) -> (r: Result<u32, AsmError>)
    ensures
        match r {
            Ok(v) => read_hex(s@) == Ok::<nat, Seq<char>>(v as nat),
            Err(e) => read_hex(s@) == Err::<nat, Seq<char>>(e.message@),
        },
{
    match parse_unsigned(s, 16, 0xffff_ffff) {
        Some(v) => Ok(v as u32),
        None => Err(quoting_error("bad hex: ", s)),
    }
}

fn parse_hex0x(s: &[char]) -> (r: Result<u32, AsmError>)
    ensures
        match r {
            Ok(v) => read_hex0x(s@) == Ok::<nat, Seq<char>>(v as nat),
            Err(e) => read_hex0x(s@) == Err::<nat, Seq<char>>(e.message@),
        },
{
    match strip_text(s, "0x") {
        Some(body) => parse_hex(body),
        None => parse_hex(s),
    }
}

fn intern_enum(s: &[char], table: &[(&'static str, u32)]) -> (r: Result<&'static str, AsmError>)
    ensures
        match r {
            Ok(n) => read_enum(s@, table_of(table@)) == Ok::<Seq<char>, Seq<char>>(n@),
            Err(e) => read_enum(s@, table_of(table@)) == Err::<Seq<char>, Seq<char>>(e.message@),
        },
{
    match intern(table, s) {
        Some(n) => Ok(n),
        None => Err(quoting_error("unknown enum value: ", s)),
    }
}

fn intern_system_value(s: &[char]) -> (r: Result<&'static str, AsmError>)
    ensures
        match r {
            Ok(n) => read_system_value(s@) == Ok::<Seq<char>, Seq<char>>(n@),
            Err(e) => read_system_value(s@) == Err::<Seq<char>, Seq<char>>(e.message@),
        },
{
    let val: u32 = system_value_to_u32(s);
    let canon = system_value_name(val);
    if is_text(s, canon) {
        Ok(canon)
    } else {
        Err(quoting_error("unknown system value: ", s))
    }
}

fn parse_trailing_dec(s: &[char]) -> (r: Result<u32, AsmError>)
    ensures
        match r {
            Ok(v) => read_trailing_dec(s@) == Ok::<nat, Seq<char>>(v as nat),
            Err(e) => read_trailing_dec(s@) == Err::<nat, Seq<char>>(e.message@),
        },
{
    parse_dec32(after_spaces(s))
}

/// The characters up to the next space, and what follows.
fn take_token<'a>(s: &'a [char]) -> (r: (&'a [char], &'a [char]))
    ensures
        r.0@ == token(s@),
        r.1@ == after_token(s@),
        r.0@.len() + r.1@.len() == s@.len(),
{
    let n: usize = span_until_any(s, ' ', ' ', ' ');
    (take(s, n), skip(s, n))
}

fn parse_spaced_dec<'a>(s: &'a [char]) -> (r: Result<(u32, &'a [char]), AsmError>)
    ensures
        match r {
            Ok((v, rest)) => read_spaced_dec(s@) == Ok::<(nat, Seq<char>), Seq<char>>(
                (v as nat, rest@),
            ),
            Err(e) => read_spaced_dec(s@) == Err::<(nat, Seq<char>), Seq<char>>(e.message@),
        },
{
    let t = after_spaces(s);
    let (tok, rest) = take_token(t);
    match parse_dec32(tok) {
        Ok(v) => Ok((v, rest)),
        Err(e) => Err(e),
    }
}

// ---------------------------------------------------------------------------
// Tags
// ---------------------------------------------------------------------------

/// If the tag comes next, its value and what follows.
fn try_tag<'a>(s: &'a [char], tag: &str) -> (r: Result<Option<(&'a [char], &'a [char])>, AsmError>)
    ensures
        match r {
            Ok(Some((v, rest))) => read_tag(s@, tag@) == Ok::<
                Option<(Seq<char>, Seq<char>)>,
                Seq<char>,
            >(Some((v@, rest@))) && rest@.len() < s@.len(),
            Ok(None) => read_tag(s@, tag@) == Ok::<Option<(Seq<char>, Seq<char>)>, Seq<char>>(None),
            Err(e) => read_tag(s@, tag@) == Err::<Option<(Seq<char>, Seq<char>)>, Seq<char>>(
                e.message@,
            ),
        },
{
    let mut probe = chars_of(tag);
    probe.push('=');
    match strip_prefix_chars(s, probe.as_slice()) {
        Some(r) => {
            let n: usize = span_until_any(r, ' ', '\t', ' ');
            Ok(Some((take(r, n), skip(r, n))))
        },
        None => {
            let mut probe = chars_of(tag);
            probe.push('(');
            match strip_prefix_chars(s, probe.as_slice()) {
                Some(r) => {
                    let n: usize = span_until_any(r, ')', ')', ')');
                    if n < r.len() {
                        Ok(Some((take(r, n), skip(r, n + 1))))
                    } else {
                        Err(quoting_error("expected ')' after ", s))
                    }
                },
                None => Ok(None),
            }
        },
    }
}

fn expect_tag<'a>(s: &'a [char], tag: &str) -> (r: Result<(&'a [char], &'a [char]), AsmError>)
    ensures
        match r {
            Ok((v, rest)) => read_required_tag(s@, tag@) == Ok::<
                (Seq<char>, Seq<char>),
                Seq<char>,
            >((v@, rest@)),
            Err(e) => read_required_tag(s@, tag@) == Err::<(Seq<char>, Seq<char>), Seq<char>>(
                e.message@,
            ),
        },
{
    let t = after_spaces(s);
    match try_tag(t, tag) {
        Ok(Some(r)) => Ok(r),
        Ok(None) => {
            let mut m = String::new();
            push_text(&mut m, "expected ");
            push_text(&mut m, tag);
            push_text(&mut m, "=… at ");
            assert(m@ =~= "expected "@ + tag@ + "=… at "@);
            Err(quoting_error(m.as_str(), t))
        },
        Err(e) => Err(e),
    }
}

fn parse_tag_enum<'a>(s: &'a [char], tag: &str, table: &[(&'static str, u32)]) -> (r: Result<
    (&'static str, &'a [char]),
    AsmError,
>)
    ensures
        match r {
            Ok((v, rest)) => read_tag_enum(s@, tag@, table_of(table@)) == Ok::<
                (Seq<char>, Seq<char>),
                Seq<char>,
            >((v@, rest@)),
            Err(e) => read_tag_enum(s@, tag@, table_of(table@)) == Err::<
                (Seq<char>, Seq<char>),
                Seq<char>,
            >(e.message@),
        },
{
    match expect_tag(s, tag) {
        Ok((v, rest)) => match intern_enum(v, table) {
            Ok(n) => Ok((n, rest)),
            Err(e) => Err(e),
        },
        Err(e) => Err(e),
    }
}

fn parse_tag_dec<'a>(s: &'a [char], tag: &str) -> (r: Result<(u32, &'a [char]), AsmError>)
    ensures
        match r {
            Ok((v, rest)) => read_tag_dec(s@, tag@) == Ok::<(nat, Seq<char>), Seq<char>>(
                (v as nat, rest@),
            ),
            Err(e) => read_tag_dec(s@, tag@) == Err::<(nat, Seq<char>), Seq<char>>(e.message@),
        },
{
    match expect_tag(s, tag) {
        Ok((v, rest)) => match parse_dec32(v) {
            Ok(n) => Ok((n, rest)),
            Err(e) => Err(e),
        },
        Err(e) => Err(e),
    }
}

fn parse_tag_hex<'a>(s: &'a [char], tag: &str) -> (r: Result<(u32, &'a [char]), AsmError>)
    ensures
        match r {
            Ok((v, rest)) => read_tag_hex(s@, tag@) == Ok::<(nat, Seq<char>), Seq<char>>(
                (v as nat, rest@),
            ),
            Err(e) => read_tag_hex(s@, tag@) == Err::<(nat, Seq<char>), Seq<char>>(e.message@),
        },
{
    match expect_tag(s, tag) {
        Ok((v, rest)) => match parse_hex0x(v) {
            Ok(n) => Ok((n, rest)),
            Err(e) => Err(e),
        },
        Err(e) => Err(e),
    }
}

// ---------------------------------------------------------------------------
// Return types
// ---------------------------------------------------------------------------

fn parse_return_type(name: &[char]) -> (r: Result<ReturnType, AsmError>)
    ensures
        match r {
            Ok(t) => read_return_type(name@) == Ok::<ReturnType, Seq<char>>(t),
            Err(e) => read_return_type(name@) == Err::<ReturnType, Seq<char>>(e.message@),
        },
{
    if is_text(name, "unorm") {
        Ok(ReturnType::Unorm)
    } else if is_text(name, "snorm") {
        Ok(ReturnType::Snorm)
    } else if is_text(name, "sint") {
        Ok(ReturnType::Sint)
    } else if is_text(name, "uint") {
        Ok(ReturnType::Uint)
    } else if is_text(name, "float") {
        Ok(ReturnType::Float)
    } else if is_text(name, "mixed") {
        Ok(ReturnType::Mixed)
    } else if is_text(name, "double") {
        Ok(ReturnType::Double)
    } else if is_text(name, "continued") {
        Ok(ReturnType::Continued)
    } else if is_text(name, "unused") {
        Ok(ReturnType::Unused)
    } else {
        match strip_text(name, "unknown") {
            Some(v) => match parse_dec32(v) {
                Ok(n) => Ok(ReturnType::Unknown(n)),
                Err(e) => Err(e),
            },
            None => Err(quoting_error("unknown return type: ", name)),
        }
    }
}

/// Four return types separated by commas, those of a declaration or those of a
/// modifier: the two differ in what is said where there are too few.
fn parse_four_types(inner: &[char], declared: bool) -> (r: Result<[ReturnType; 4], AsmError>)
    ensures
        match r {
            Ok(t) => if declared {
                read_declared_types(inner@) == Ok::<Seq<ReturnType>, Seq<char>>(t@)
            } else {
                read_types_from(split(inner@, ','), 0, |k: int| missing_type(k)) == Ok::<
                    Seq<ReturnType>,
                    Seq<char>,
                >(t@)
            },
            Err(e) => if declared {
                read_declared_types(inner@) == Err::<Seq<ReturnType>, Seq<char>>(e.message@)
            } else {
                read_types_from(split(inner@, ','), 0, |k: int| missing_type(k)) == Err::<
                    Seq<ReturnType>,
                    Seq<char>,
                >(e.message@)
            },
        },
{
    let parts = split_chars(inner, ',');
    let ghost missing: spec_fn(int) -> Seq<char> = if declared {
        |k: int| quoting("rt= needs four types: "@, inner@)
    } else {
        |k: int| missing_type(k)
    };
    let ghost ps = split(inner@, ',');
    let mut out = [ReturnType::Unknown(0);4];
    let mut i: usize = 0;
    while i < 4
        invariant
            i <= 4,
            views(parts@) == ps,
            ps == split(inner@, ','),
            missing == if declared {
                |k: int| quoting("rt= needs four types: "@, inner@)
            } else {
                |k: int| missing_type(k)
            },
            match read_types_from(ps, i as int, missing) {
                Ok(ts) => read_types_from(ps, 0, missing) == Ok::<Seq<ReturnType>, Seq<char>>(
                    out@.take(i as int) + ts,
                ),
                Err(e) => read_types_from(ps, 0, missing) == Err::<Seq<ReturnType>, Seq<char>>(e),
            },
        decreases 4 - i,
    {
        if i >= parts.len() {
            if declared {
                return Err(quoting_error("rt= needs four types: ", inner));
            }
            let mut m = String::new();
            push_text(&mut m, "rt(...) needs 4 return types, component ");
            push_dec(&mut m, i as u64);
            push_text(&mut m, " missing");
            assert(m@ =~= missing_type(i as int));
            return Err(AsmError { message: m });
        }
        assert(ps[i as int] == parts@[i as int]@);
        match parse_return_type(parts[i]) {
            Ok(t) => {
                let ghost before = out@;
                out[i] = t;
                proof {
                    match read_types_from(ps, i as int + 1, missing) {
                        Ok(ts) => {
                            assert(before.take(i as int) + (seq![t] + ts) =~= out@.take(
                                i as int + 1,
                            ) + ts);
                        },
                        Err(e) => {},
                    }
                }
            },
            Err(e) => {
                return Err(e);
            },
        }
        i += 1;
    }
    proof {
        assert(out@.take(4) + Seq::empty() =~= out@);
    }
    Ok(out)
}

fn parse_resource_rt(inner: &[char]) -> (r: Result<u32, AsmError>)
    ensures
        match r {
            Ok(v) => read_resource_rt(inner@) == Ok::<u32, Seq<char>>(v),
            Err(e) => read_resource_rt(inner@) == Err::<u32, Seq<char>>(e.message@),
        },
{
    match parse_four_types(inner, false) {
        Ok(t) => Ok(
            3 | (t[0].to_u32() << 6) | (t[1].to_u32() << 10) | (t[2].to_u32() << 14) | (
            t[3].to_u32() << 18),
        ),
        Err(e) => Err(e),
    }
}

fn parse_resource_dim(inner: &[char]) -> (r: Result<u32, AsmError>)
    ensures
        match r {
            Ok(v) => read_resource_dim(inner@) == Ok::<u32, Seq<char>>(v),
            Err(e) => read_resource_dim(inner@) == Err::<u32, Seq<char>>(e.message@),
        },
{
    let (name, stride): (&[char], u32) = match split_at_first(inner, ',') {
        Some((d, s)) => match strip_text(s, "stride=") {
            Some(n) => match parse_dec32(n) {
                Ok(v) => (d, v),
                Err(e) => {
                    return Err(e);
                },
            },
            None => {
                return Err(quoting_error("expected stride= in res(...): ", inner));
            },
        },
        None => (inner, 0),
    };
    let t = dimensions_table();
    match value_of(&t, name) {
        Some(dim) => Ok(2 | (dim << 6) | (stride << 11)),
        None => Err(quoting_error("unknown resource dimension: ", name)),
    }
}

// ---------------------------------------------------------------------------
// Mnemonics and modifiers
// ---------------------------------------------------------------------------

/// The opcode with the longest mnemonic that `s` begins with.
fn find_opcode(s: &[char]) -> (r: Option<Opcode>)
    ensures
        match r {
            Some(op) => best_opcode(s@, 218) is Some && op == Opcode::spec_from_u32(
                best_opcode(s@, 218)->0,
            ) && starts_with(s@, op.mnemonic()),
            None => best_opcode(s@, 218) is None,
        },
{
    let mut best: Option<(u32, usize)> = None;
    let mut v: u32 = 0;
    while v < 218
        invariant
            v <= 218,
            match best {
                Some((b, n)) => best_opcode(s@, v as int) == Some(b) && n
                    == Opcode::spec_from_u32(b).mnemonic().len() && starts_with(
                    s@,
                    Opcode::spec_from_u32(b).mnemonic(),
                ),
                None => best_opcode(s@, v as int) is None,
            },
        decreases 218 - v,
    {
        let name = chars_of(Opcode::from_u32(v).name());
        if strip_prefix_chars(s, name.as_slice()).is_some() {
            let longer = match best {
                Some((_, n)) => name.len() > n,
                None => true,
            };
            if longer {
                best = Some((v, name.len()));
            }
        }
        v += 1;
    }
    match best {
        Some((b, _)) => Some(Opcode::from_u32(b)),
        None => None,
    }
}

/// The opcode a mnemonic begins with, and its modifiers.
fn opcode_from_mnemonic<'a>(s: &'a [char]) -> (r: Result<(Opcode, &'a [char]), AsmError>)
    ensures
        match r {
            Ok((op, rest)) => read_mnemonic(s@) == Ok::<(Opcode, Seq<char>), Seq<char>>(
                (op, rest@),
            ),
            Err(e) => read_mnemonic(s@) == Err::<(Opcode, Seq<char>), Seq<char>>(e.message@),
        },
{
    match find_opcode(s) {
        Some(op) => {
            let n: usize = chars_of(op.name()).len();
            let rest = skip(s, n);
            if rest.len() > 0 && rest[0] != '_' {
                Err(quoting_error("unrecognized mnemonic: ", s))
            } else {
                Ok((op, rest))
            }
        },
        None => match strip_text(s, "op") {
            Some(after) => {
                let n: usize = digits_len(after);
                if n > 0 {
                    match parse_dec32(take(after, n)) {
                        Ok(v) => Ok((Opcode::Unknown(v), skip(after, n))),
                        Err(e) => Err(e),
                    }
                } else {
                    Err(quoting_error("unknown opcode in mnemonic: ", s))
                }
            },
            None => Err(quoting_error("unknown opcode in mnemonic: ", s)),
        },
    }
}

/// The parts of a modifier tail between the underscores outside brackets.
fn split_modifiers<'a>(s: &'a [char]) -> (r: Vec<&'a [char]>)
    ensures
        views(r@) == modifier_parts(s@, 0, Seq::empty()),
{
    let mut segs: Vec<&'a [char]> = Vec::new();
    let mut depth: i128 = 0;
    let mut start: usize = 0;
    let mut i: usize = 0;
    let ghost all = modifier_parts(s@, 0, Seq::empty());
    assert(s@.skip(0) =~= s@);
    assert(s@.subrange(0, 0) =~= Seq::empty());
    assert(views(segs@) + modifier_parts(s@.skip(0), 0, s@.subrange(0, 0)) =~= all);
    while i < s.len()
        invariant
            start <= i <= s.len(),
            -(i as int) <= depth <= i,
            views(segs@) + modifier_parts(
                s@.skip(i as int),
                depth as int,
                s@.subrange(start as int, i as int),
            ) == all,
        decreases s.len() - i,
    {
        let c = s[i];
        let ghost cur = s@.subrange(start as int, i as int);
        let ghost before = segs@;
        assert(s@.skip(i as int)[0] == c);
        assert(s@.skip(i as int).skip(1) =~= s@.skip(i as int + 1));
        if c == '_' && depth == 0 {
            if i > start {
                let seg = vstd::slice::slice_subrange(s, start, i);
                segs.push(seg);
                proof {
                    crate::lines::lemma_views_push(before, seg);
                }
            }
            start = i + 1;
            assert(s@.subrange(start as int, i as int + 1) =~= Seq::empty());
            assert(views(segs@) + modifier_parts(s@.skip(i as int + 1), 0, Seq::empty()) =~= all);
        } else {
            if c == '(' {
                depth = depth + 1;
            } else if c == ')' {
                depth = depth - 1;
            }
            assert(s@.subrange(start as int, i as int + 1) =~= cur.push(c));
        }
        i += 1;
    }
    assert(s@.skip(i as int) =~= Seq::empty());
    if start < s.len() {
        let seg = skip(s, start);
        let ghost before = segs@;
        segs.push(seg);
        proof {
            crate::lines::lemma_views_push(before, seg);
            assert(seg@ =~= s@.subrange(start as int, i as int));
            assert(views(segs@) =~= all);
        }
    } else {
        assert(views(segs@) =~= all);
    }
    segs
}

/// What stands between `open` and a final closing bracket.
fn in_brackets<'a>(s: &'a [char], open: &str) -> (r: Option<&'a [char]>)
    ensures
        match r {
            Some(v) => bracketed(s@, open@) == Some(v@),
            None => bracketed(s@, open@) is None,
        },
{
    match strip_text(s, open) {
        Some(rest) => strip_last_char(rest, ')'),
        None => None,
    }
}

fn parse_offset(parts: &Vec<&[char]>, k: usize) -> (r: Result<i8, AsmError>)
    ensures
        match r {
            Ok(v) => read_offset(views(parts@), k as int) == Ok::<int, Seq<char>>(v as int),
            Err(e) => read_offset(views(parts@), k as int) == Err::<int, Seq<char>>(e.message@),
        },
{
    if k >= parts.len() {
        return Err(plain_error("missing tex offset component"));
    }
    match parse_signed(parts[k], 127) {
        Some(v) => Ok(v as i8),
        None => Err(quoting_error("bad number: ", parts[k])),
    }
}

fn parse_offsets(body: &[char]) -> (r: Result<[i8; 3], AsmError>)
    ensures
        match r {
            Ok(v) => read_offsets(body@) == Ok::<[i8; 3], Seq<char>>(v),
            Err(e) => read_offsets(body@) == Err::<[i8; 3], Seq<char>>(e.message@),
        },
{
    let parts = split_chars(body, ',');
    match parse_offset(&parts, 0) {
        Ok(u) => match parse_offset(&parts, 1) {
            Ok(v) => match parse_offset(&parts, 2) {
                Ok(x) => Ok([u, v, x]),
                Err(e) => Err(e),
            },
            Err(e) => Err(e),
        },
        Err(e) => Err(e),
    }
}

/// Set the modifier that `seg` spells.
fn apply_modifier(instr: &mut Instruction, seg: &[char]) -> (r: Result<(), AsmError>)
    ensures
        match r {
            Ok(_) => read_modifier(old(instr).modifiers(), seg@) == Ok::<Modifiers, Seq<char>>(
                final(instr).modifiers(),
            ),
            Err(e) => read_modifier(old(instr).modifiers(), seg@) == Err::<Modifiers, Seq<char>>(
                e.message@,
            ),
        },
        final(instr).opcode == old(instr).opcode,
        final(instr).kind == old(instr).kind,
{
    if is_text(seg, "sat") {
        instr.saturate = true;
    } else if is_text(seg, "nz") {
        instr.test_nonzero = true;
    } else if let Some(n) = strip_text(seg, "ri") {
        match parse_dec(n, 0xff) {
            Ok(v) => {
                instr.resinfo_return_type = Some(v as u8);
            },
            Err(e) => {
                return Err(e);
            },
        }
    } else if let Some(h) = strip_text(seg, "pm") {
        match parse_hex(h) {
            Ok(v) => {
                instr.precise_mask = #[verifier::truncate] (v as u8);
            },
            Err(e) => {
                return Err(e);
            },
        }
    } else if let Some(h) = strip_text(seg, "sf") {
        match parse_hex(h) {
            Ok(v) => {
                instr.sync_flags = #[verifier::truncate] (v as u8);
            },
            Err(e) => {
                return Err(e);
            },
        }
    } else if let Some(body) = in_brackets(seg, "off(") {
        match parse_offsets(body) {
            Ok(o) => {
                instr.tex_offsets = Some(o);
            },
            Err(e) => {
                return Err(e);
            },
        }
    } else if let Some(inner) = in_brackets(seg, "res(") {
        match parse_resource_dim(inner) {
            Ok(v) => {
                instr.resource_dim = Some(v);
            },
            Err(e) => {
                return Err(e);
            },
        }
    } else if let Some(inner) = in_brackets(seg, "rt(") {
        match parse_resource_rt(inner) {
            Ok(v) => {
                instr.resource_return_type = Some(v);
            },
            Err(e) => {
                return Err(e);
            },
        }
    } else if let Some(h) = strip_text(seg, "rd") {
        match parse_hex(h) {
            Ok(v) => {
                instr.resource_dim = Some(v);
            },
            Err(e) => {
                return Err(e);
            },
        }
    } else if let Some(h) = strip_text(seg, "rr") {
        match parse_hex(h) {
            Ok(v) => {
                instr.resource_return_type = Some(v);
            },
            Err(e) => {
                return Err(e);
            },
        }
    } else {
        let mut m = String::new();
        push_text(&mut m, "unknown modifier: _");
        push_chars(&mut m, seg);
        assert(m@ =~= "unknown modifier: _"@ + seg@);
        return Err(AsmError { message: m });
    }
    Ok(())
}

/// Set the modifiers of a modifier tail.
fn apply_modifiers(instr: &mut Instruction, modifiers: &[char]) -> (r: Result<(), AsmError>)
    ensures
        match r {
            Ok(_) => read_modifiers(
                old(instr).modifiers(),
                modifier_parts(modifiers@, 0, Seq::empty()),
                0,
            ) == Ok::<Modifiers, Seq<char>>(final(instr).modifiers()),
            Err(e) => read_modifiers(
                old(instr).modifiers(),
                modifier_parts(modifiers@, 0, Seq::empty()),
                0,
            ) == Err::<Modifiers, Seq<char>>(e.message@),
        },
        final(instr).opcode == old(instr).opcode,
        final(instr).kind == old(instr).kind,
{
    let segs = split_modifiers(modifiers);
    let ghost ss = views(segs@);
    let mut i: usize = 0;
    while i < segs.len()
        invariant
            ss == views(segs@),
            ss == modifier_parts(modifiers@, 0, Seq::empty()),
            i <= segs.len(),
            read_modifiers(instr.modifiers(), ss, i as int) == read_modifiers(
                old(instr).modifiers(),
                ss,
                0,
            ),
            instr.opcode == old(instr).opcode,
            instr.kind == old(instr).kind,
        decreases segs.len() - i,
    {
        assert(ss[i as int] == segs@[i as int]@);
        match apply_modifier(instr, segs[i]) {
            Ok(_) => {},
            Err(e) => {
                return Err(e);
            },
        }
        i += 1;
    }
    Ok(())
}

// ---------------------------------------------------------------------------
// Operands
// ---------------------------------------------------------------------------

/// Whether `s` begins with `c`.
fn next_is(s: &[char], c: char) -> (r: bool)
    ensures
        r == at_char(s@, c),
{
    s.len() > 0 && s[0] == c
}

/// Whether `s` begins with a digit.
fn next_is_digit(s: &[char]) -> (r: bool)
    ensures
        r == at_digit(s@),
{
    s.len() > 0 && digit(s[0])
}

/// `s` without a leading `c`.
fn eat<'a>(s: &'a [char], c: char) -> (r: &'a [char])
    ensures
        r@ == skip_char(s@, c),
        r@.len() <= s@.len(),
{
    if s.len() > 0 && s[0] == c {
        skip(s, 1)
    } else {
        s
    }
}

/// One immediate value.
fn parse_immediate_token(tok: &[char], ft: &FloatTable) -> (r: Result<u32, AsmError>)
    ensures
        match r {
            Ok(v) => read_immediate(tok@, ft@) == Ok::<u32, Seq<char>>(v),
            Err(e) => read_immediate(tok@, ft@) == Err::<u32, Seq<char>>(e.message@),
        },
{
    if strip_text(tok, "0x").is_some() {
        return parse_hex0x(tok);
    }
    if is_float_text(tok) {
        return match ft.bits(tok) {
            Some(b) => Ok(b),
            None => Err(quoting_error("bad float immediate: ", tok)),
        };
    }
    match parse_signed(tok, 0x7fff_ffff) {
        Some(i) => {
            let v: u32 = if i < 0 { (i + 0x1_0000_0000) as u32 } else { i as u32 };
            Ok(v)
        },
        None => Err(quoting_error("bad immediate: ", tok)),
    }
}

/// An immediate list behind its opening bracket.
fn parse_imm_list<'a>(s: &'a [char], ft: &FloatTable) -> (r: Result<
    (Immediates, &'a [char]),
    AsmError,
>)
    ensures
        match r {
            Ok((v, rest)) => read_imm_list(s@, ft@) == Ok::<(Seq<u32>, Seq<char>), Seq<char>>(
                (v@, rest@),
            ) && rest@.len() < s@.len(),
            Err(e) => read_imm_list(s@, ft@) == Err::<(Seq<u32>, Seq<char>), Seq<char>>(e.message@),
        },
{
    let mut imms: Immediates = SmallU32Vec::new();
    if next_is(s, ')') {
        return Ok((imms, skip(s, 1)));
    }
    let mut rest: &'a [char] = s;
    loop
        invariant
            !at_char(s@, ')'),
            rest@.len() <= s@.len(),
            match read_immediates(rest@, ft@) {
                Ok((vs, r)) => read_imm_list(s@, ft@) == Ok::<(Seq<u32>, Seq<char>), Seq<char>>(
                    (imms@ + vs, r),
                ),
                Err(e) => read_imm_list(s@, ft@) == Err::<(Seq<u32>, Seq<char>), Seq<char>>(e),
            },
        decreases rest@.len(),
    {
        let n: usize = span_until_any(rest, ',', ')', ')');
        proof {
            crate::text::lemma_span_until(rest@, ',', ')', ')');
        }
        let ghost before = imms@;
        match parse_immediate_token(take(rest, n), ft) {
            Ok(v) => {
                imms.push(v);
                if n < rest.len() && rest[n] == ',' {
                    let next = after_spaces(skip(rest, n + 1));
                    proof {
                        match read_immediates(next@, ft@) {
                            Ok((vs, r)) => {
                                assert(before + (seq![v] + vs) =~= imms@ + vs);
                            },
                            Err(e) => {},
                        }
                    }
                    rest = next;
                } else if n < rest.len() {
                    assert(before + seq![v] =~= imms@);
                    return Ok((imms, skip(rest, n + 1)));
                } else {
                    return Err(plain_error("malformed immediate list"));
                }
            },
            Err(e) => {
                return Err(e);
            },
        }
    }
}

/// Every register prefix has a character at least.
proof fn lemma_prefix_nonempty(r: RegisterType)
    ensures
        r.prefix_text().len() > 0,
{
    reveal_strlit("r");
    reveal_strlit("v");
    reveal_strlit("o");
    reveal_strlit("x");
    reveal_strlit("l");
    reveal_strlit("d");
    reveal_strlit("s");
    reveal_strlit("t");
    reveal_strlit("cb");
    reveal_strlit("icb");
    reveal_strlit("label");
    reveal_strlit("vPrim");
    reveal_strlit("oDepth");
    reveal_strlit("null");
    reveal_strlit("rasterizer");
    reveal_strlit("oMask");
    reveal_strlit("stream");
    reveal_strlit("function_body");
    reveal_strlit("function_table");
    reveal_strlit("interface");
    reveal_strlit("function_input");
    reveal_strlit("function_output");
    reveal_strlit("vOutputControlPointID");
    reveal_strlit("vForkInstanceID");
    reveal_strlit("vJoinInstanceID");
    reveal_strlit("vicp");
    reveal_strlit("vocp");
    reveal_strlit("vpc");
    reveal_strlit("vDomain");
    reveal_strlit("thisPointer");
    reveal_strlit("u");
    reveal_strlit("g");
    reveal_strlit("vThreadID");
    reveal_strlit("vThreadGroupID");
    reveal_strlit("vThreadIDInGroup");
    reveal_strlit("vCoverage");
    reveal_strlit("vThreadIDInGroupFlattened");
    reveal_strlit("vGSInstanceID");
    reveal_strlit("oDepthGE");
    reveal_strlit("oDepthLE");
    reveal_strlit("vCycleCounter");
    reveal_strlit("?reg");
}

/// The register file with the longest prefix that `s` begins with.
fn find_register(s: &[char]) -> (r: Option<RegisterType>)
    ensures
        match r {
            Some(rt) => best_register(s@, 41) is Some && rt == RegisterType::spec_from_u32(
                best_register(s@, 41)->0,
            ) && starts_with(s@, rt.prefix_text()),
            None => best_register(s@, 41) is None,
        },
{
    let mut best: Option<(u32, usize)> = None;
    let mut v: u32 = 0;
    while v < 41
        invariant
            v <= 41,
            match best {
                Some((b, n)) => best_register(s@, v as int) == Some(b) && n
                    == RegisterType::spec_from_u32(b).prefix_text().len() && starts_with(
                    s@,
                    RegisterType::spec_from_u32(b).prefix_text(),
                ),
                None => best_register(s@, v as int) is None,
            },
        decreases 41 - v,
    {
        let name = chars_of(RegisterType::from_u32(v).prefix());
        if strip_prefix_chars(s, name.as_slice()).is_some() {
            let longer = match best {
                Some((_, n)) => name.len() > n,
                None => true,
            };
            if longer {
                best = Some((v, name.len()));
            }
        }
        v += 1;
    }
    match best {
        Some((b, _)) => Some(RegisterType::from_u32(b)),
        None => None,
    }
}

/// A register file.
fn parse_register_prefix<'a>(s: &'a [char]) -> (r: Result<(RegisterType, &'a [char]), AsmError>)
    ensures
        match r {
            Ok((rt, rest)) => read_register(s@) == Ok::<(RegisterType, Seq<char>), Seq<char>>(
                (rt, rest@),
            ) && rest@.len() < s@.len(),
            Err(e) => read_register(s@) == Err::<(RegisterType, Seq<char>), Seq<char>>(e.message@),
        },
{
    match strip_text(s, "?reg(") {
        Some(r) => {
            let n: usize = span_until_any(r, ')', ')', ')');
            if n >= r.len() {
                return Err(plain_error("expected ')' after ?reg("));
            }
            match parse_dec32(take(r, n)) {
                Ok(v) => Ok((RegisterType::Unknown(v), skip(r, n + 1))),
                Err(e) => Err(e),
            }
        },
        None => match find_register(s) {
            Some(rt) => {
                let n: usize = chars_of(rt.prefix()).len();
                proof {
                    lemma_prefix_nonempty(rt);
                }
                Ok((rt, skip(s, n)))
            },
            None => Err(quoting_error("unknown register prefix at ", s)),
        },
    }
}

/// A numeric index.
fn parse_number_index<'a>(s: &'a [char]) -> (r: Result<(OperandIndex, &'a [char]), AsmError>)
    ensures
        match r {
            Ok((ix, rest)) => read_number_index(s@) == Ok::<(IndexModel, Seq<char>), Seq<char>>(
                (ix.model(), rest@),
            ) && rest@.len() <= s@.len(),
            Err(e) => read_number_index(s@) == Err::<(IndexModel, Seq<char>), Seq<char>>(
                e.message@,
            ),
        },
{
    let n: usize = digits_len(s);
    let digits = take(s, n);
    let rest = skip(s, n);
    if next_is(rest, 'L') {
        match parse_dec(digits, 0xffff_ffff_ffff_ffff) {
            Ok(v) => Ok((OperandIndex::Imm64(v), skip(rest, 1))),
            Err(e) => Err(e),
        }
    } else {
        match parse_dec32(digits) {
            Ok(v) => Ok((OperandIndex::Imm32(v), rest)),
            Err(e) => Err(e),
        }
    }
}

/// Length of the longest prefix of component letters.
fn axes_len(s: &[char]) -> (n: usize)
    ensures
        n == span_axes(s@),
        n <= s.len(),
{
    let mut i: usize = 0;
    assert(s@.skip(0) =~= s@);
    while i < s.len() && axis_index(s[i]).is_some()
        invariant
            i <= s.len(),
            span_axes(s@) == i + span_axes(s@.skip(i as int)),
        decreases s.len() - i,
    {
        assert(s@.skip(i as int).skip(1) =~= s@.skip(i as int + 1));
        assert(s@.skip(i as int)[0] == s@[i as int]);
        i += 1;
    }
    if i < s.len() {
        assert(s@.skip(i as int)[0] == s@[i as int]);
    }
    i
}

/// The mask of the components with those letters.
pub(crate) fn mask_from_letters(letters: &[char]) -> (m: u8)
    ensures
        m == mask_of(letters@),
{
    let mut m: u8 = 0;
    let mut i: usize = 0;
    assert(letters@.take(0) =~= Seq::empty());
    while i < letters.len()
        invariant
            i <= letters.len(),
            m == mask_of(letters@.take(i as int)),
        decreases letters.len() - i,
    {
        let c = letters[i];
        let bit: u8 = if c == 'x' {
            1
        } else if c == 'y' {
            2
        } else if c == 'z' {
            4
        } else {
            8
        };
        m = m | bit;
        i += 1;
        assert(letters@.take(i as int).drop_last() =~= letters@.take(i as int - 1));
        assert(letters@.take(i as int).last() == c);
    }
    assert(letters@.take(i as int) =~= letters@);
    m
}

/// The component with that letter.
fn axis_at(s: &[char], i: usize) -> (r: u8)
    requires
        i < s.len(),
    ensures
        r == axis_or_zero(s@[i as int]),
{
    match axis_index(s[i]) {
        Some(v) => v,
        None => 0,
    }
}

/// A component selection.
fn parse_components<'a>(s: &'a [char]) -> (r: Result<(ComponentSelect, &'a [char]), AsmError>)
    ensures
        match r {
            Ok((c, rest)) => read_components(s@) == Ok::<(ComponentSelect, Seq<char>), Seq<char>>(
                (c, rest@),
            ) && rest@.len() <= s@.len(),
            Err(e) => read_components(s@) == Err::<(ComponentSelect, Seq<char>), Seq<char>>(
                e.message@,
            ),
        },
{
    if next_is(s, ':') {
        let t = skip(s, 1);
        let n: usize = axes_len(t);
        return Ok((ComponentSelect::Mask(mask_from_letters(take(t, n))), skip(t, n)));
    }
    if !next_is(s, '.') {
        return Ok((ComponentSelect::ZeroComponent, s));
    }
    if s.len() > 1 && s[1] == '1' {
        return Ok((ComponentSelect::OneComponent, skip(s, 2)));
    }
    let t = skip(s, 1);
    let n: usize = axes_len(t);
    if n == 1 {
        Ok((ComponentSelect::Scalar(axis_at(t, 0)), skip(t, 1)))
    } else if n == 4 {
        Ok(
            (
                ComponentSelect::Swizzle(
                    [axis_at(t, 0), axis_at(t, 1), axis_at(t, 2), axis_at(t, 3)],
                ),
                skip(t, 4),
            ),
        )
    } else {
        let mut m = String::new();
        push_text(&mut m, "expected 1 or 4 swizzle components, got ");
        push_dec(&mut m, n as u64);
        assert(m@ =~= "expected 1 or 4 swizzle components, got "@ + dec_text(n as nat));
        Err(AsmError { message: m })
    }
}

/// One operand.
fn parse_operand<'a>(s: &'a [char], ft: &FloatTable) -> (r: Result<(Operand, &'a [char]), AsmError>)
    ensures
        match r {
            Ok((op, rest)) => read_operand(s@, ft@) == Ok::<(OperandModel, Seq<char>), Seq<char>>(
                (op.model(), rest@),
            ) && rest@.len() < s@.len(),
            Err(e) => read_operand(s@, ft@) == Err::<(OperandModel, Seq<char>), Seq<char>>(
                e.message@,
            ),
        },
    decreases s@.len(), 3int,
{
    let negate = next_is(s, '-');
    let s1 = eat(s, '-');
    let abs = next_is(s1, '|');
    let s2 = eat(s1, '|');
    match parse_core(s2, ft) {
        Err(e) => Err(e),
        Ok((reg_type, indices, immediate_values, s3)) => match parse_components(s3) {
            Err(e) => Err(e),
            Ok((written, s4)) => {
                let n: usize = immediate_values.as_slice().len();
                let components = match written {
                    ComponentSelect::ZeroComponent => if n == 1 {
                        ComponentSelect::OneComponent
                    } else if n > 0 {
                        ComponentSelect::Mask(0)
                    } else {
                        written
                    },
                    _ => written,
                };
                if abs && !next_is(s4, '|') {
                    return Err(plain_error("expected closing '|' for abs operand"));
                }
                let rest = if abs { skip(s4, 1) } else { s4 };
                let op = Operand { reg_type, components, negate, abs, indices, immediate_values };
                proof {
                    crate::shex::ir::lemma_operand_model(op);
                }
                Ok((op, rest))
            },
        },
    }
}

/// An operand's register and indices, or its immediate values.
fn parse_core<'a>(s: &'a [char], ft: &FloatTable) -> (r: Result<
    (RegisterType, Indices, Immediates, &'a [char]),
    AsmError,
>)
    ensures
        match r {
            Ok((reg_type, indices, imms, rest)) => read_core(s@, ft@) == Ok::<
                (Core, Seq<char>),
                Seq<char>,
            >(
                (
                    Core {
                        reg_type,
                        indices: index_models(indices@),
                        immediate_values: imms@,
                    },
                    rest@,
                ),
            ) && rest@.len() < s@.len(),
            Err(e) => read_core(s@, ft@) == Err::<(Core, Seq<char>), Seq<char>>(e.message@),
        },
    decreases s@.len(), 2int,
{
    proof {
        reveal_strlit("l(");
        reveal_strlit("d(");
    }
    match strip_text(s, "l(") {
        Some(r) => {
            return match parse_imm_list(r, ft) {
                Ok((imms, rest)) => {
                    let indices: Indices = Vec::new();
                    assert(index_models(indices@) =~= Seq::empty());
                    Ok((RegisterType::Immediate32, indices, imms, rest))
                },
                Err(e) => Err(e),
            };
        },
        None => {},
    }
    match strip_text(s, "d(") {
        Some(r) => {
            return match parse_imm_list(r, ft) {
                Ok((imms, rest)) => {
                    let indices: Indices = Vec::new();
                    assert(index_models(indices@) =~= Seq::empty());
                    Ok((RegisterType::Immediate64, indices, imms, rest))
                },
                Err(e) => Err(e),
            };
        },
        None => {},
    }
    match parse_register_prefix(s) {
        Ok((reg_type, r)) => match parse_indices(r, ft) {
            Ok((indices, rest)) => Ok((reg_type, indices, SmallU32Vec::new(), rest)),
            Err(e) => Err(e),
        },
        Err(e) => Err(e),
    }
}

/// The indices behind a register prefix.
fn parse_indices<'a>(s: &'a [char], ft: &FloatTable) -> (r: Result<(Indices, &'a [char]), AsmError>)
    ensures
        match r {
            Ok((indices, rest)) => read_indices(s@, ft@) == Ok::<
                (Seq<IndexModel>, Seq<char>),
                Seq<char>,
            >((index_models(indices@), rest@)) && rest@.len() <= s@.len(),
            Err(e) => read_indices(s@, ft@) == Err::<(Seq<IndexModel>, Seq<char>), Seq<char>>(
                e.message@,
            ),
        },
    decreases s@.len(), 1int,
{
    let mut indices: Indices = Vec::new();
    let mut rest: &'a [char] = s;
    if next_is_digit(s) {
        match parse_number_index(s) {
            Ok((ix, r)) => {
                indices.push(ix);
                rest = r;
                assert(index_models(indices@) =~= seq![ix.model()]);
            },
            Err(e) => {
                return Err(e);
            },
        }
    } else {
        assert(index_models(indices@) =~= Seq::empty());
    }
    proof {
        match read_brackets(rest@, ft@) {
            Ok((ixs, r)) => {
                assert(Seq::<IndexModel>::empty() + ixs =~= ixs);
            },
            Err(e) => {},
        }
    }
    while next_is(rest, '[')
        invariant
            rest@.len() <= s@.len(),
            match read_brackets(rest@, ft@) {
                Ok((ixs, r)) => read_indices(s@, ft@) == Ok::<
                    (Seq<IndexModel>, Seq<char>),
                    Seq<char>,
                >((index_models(indices@) + ixs, r)),
                Err(e) => read_indices(s@, ft@) == Err::<
                    (Seq<IndexModel>, Seq<char>),
                    Seq<char>,
                >(e),
            },
        decreases rest@.len(),
    {
        match parse_bracket_index(skip(rest, 1), ft) {
            Ok((ix, r)) => {
                if !next_is(r, ']') {
                    return Err(plain_error("expected ']' after index"));
                }
                let ghost before = indices@;
                let next = skip(r, 1);
                indices.push(ix);
                proof {
                    assert(index_models(indices@) =~= index_models(before).push(ix.model()));
                    match read_brackets(next@, ft@) {
                        Ok((ixs, _)) => {
                            assert(index_models(before) + (seq![ix.model()] + ixs) =~= index_models(
                                indices@,
                            ) + ixs);
                        },
                        Err(e) => {},
                    }
                }
                rest = next;
            },
            Err(e) => {
                return Err(e);
            },
        }
    }
    assert(index_models(indices@) + Seq::<IndexModel>::empty() =~= index_models(indices@));
    Ok((indices, rest))
}

/// One index between brackets.
fn parse_bracket_index<'a>(s: &'a [char], ft: &FloatTable) -> (r: Result<
    (OperandIndex, &'a [char]),
    AsmError,
>)
    ensures
        match r {
            Ok((ix, rest)) => read_bracket_index(s@, ft@) == Ok::<
                (IndexModel, Seq<char>),
                Seq<char>,
            >((ix.model(), rest@)) && rest@.len() <= s@.len(),
            Err(e) => read_bracket_index(s@, ft@) == Err::<(IndexModel, Seq<char>), Seq<char>>(
                e.message@,
            ),
        },
    decreases s@.len(), 4int,
{
    if next_is_digit(s) {
        return parse_number_index(s);
    }
    match parse_operand(s, ft) {
        Ok((sub, r)) => {
            let t = after_spaces(r);
            if next_is(t, '+') {
                let u = after_spaces(skip(t, 1));
                let n: usize = span_until_any(u, ']', ']', ']');
                match parse_dec32(take(u, n)) {
                    Ok(v) => Ok((OperandIndex::RelativePlusImm(v, Box::new(sub)), skip(u, n))),
                    Err(e) => Err(e),
                }
            } else {
                Ok((OperandIndex::Relative(Box::new(sub)), r))
            }
        },
        Err(e) => Err(e),
    }
}

/// The operands of a generic instruction.
fn parse_operand_list(s: &[char], ft: &FloatTable) -> (r: Result<Operands, AsmError>)
    ensures
        match r {
            Ok(ops) => read_operand_list(s@, ft@) == Ok::<Seq<OperandModel>, Seq<char>>(
                operand_models(ops@),
            ),
            Err(e) => read_operand_list(s@, ft@) == Err::<Seq<OperandModel>, Seq<char>>(
                e.message@,
            ),
        },
{
    let mut ops = Operands::new();
    let mut rest: &[char] = s;
    assert(operand_models(ops@) =~= Seq::empty());
    proof {
        match read_operand_list(s@, ft@) {
            Ok(all) => {
                assert(Seq::<OperandModel>::empty() + all =~= all);
            },
            Err(e) => {},
        }
    }
    loop
        invariant
            match read_operand_list(rest@, ft@) {
                Ok(more) => read_operand_list(s@, ft@) == Ok::<Seq<OperandModel>, Seq<char>>(
                    operand_models(ops@) + more,
                ),
                Err(e) => read_operand_list(s@, ft@) == Err::<Seq<OperandModel>, Seq<char>>(e),
            },
        decreases rest@.len(),
    {
        let t = after_spaces(rest);
        if t.len() == 0 {
            assert(operand_models(ops@) + Seq::<OperandModel>::empty() =~= operand_models(ops@));
            return Ok(ops);
        }
        match parse_operand(t, ft) {
            Ok((op, r)) => {
                let v = after_spaces(r);
                let u = eat(v, ',');
                if v.len() > 0 && v[0] == ',' && after_spaces(u).len() == 0 {
                    return Err(plain_error("expected an operand"));
                }
                let ghost before = ops@;
                ops.push(op);
                proof {
                    assert(operand_models(ops@) =~= operand_models(before).push(op.model()));
                    match read_operand_list(u@, ft@) {
                        Ok(more) => {
                            assert(operand_models(before) + (seq![op.model()] + more)
                                =~= operand_models(ops@) + more);
                        },
                        Err(e) => {},
                    }
                }
                rest = u;
            },
            Err(e) => {
                return Err(e);
            },
        }
    }
}

/// An operand behind spaces.
fn parse_leading_operand<'a>(s: &'a [char], ft: &FloatTable) -> (r: Result<
    (Operand, &'a [char]),
    AsmError,
>)
    ensures
        match r {
            Ok((op, rest)) => read_leading_operand(s@, ft@) == Ok::<
                (OperandModel, Seq<char>),
                Seq<char>,
            >((op.model(), rest@)),
            Err(e) => read_leading_operand(s@, ft@) == Err::<
                (OperandModel, Seq<char>),
                Seq<char>,
            >(e.message@),
        },
{
    parse_operand(after_spaces(s), ft)
}

/// A list of one operand.
fn one(op: Operand) -> (r: Operands)
    ensures
        operand_models(r@) == seq![op.model()],
{
    let mut v = Operands::new();
    v.push(op);
    assert(operand_models(v@) =~= seq![op.model()]);
    v
}

// ---------------------------------------------------------------------------
// Declarations
// ---------------------------------------------------------------------------

fn parse_global_flags(s: &[char]) -> (r: Result<InstructionKind, AsmError>)
    ensures
        match r {
            Ok(k) => read_global_flags(s@) == Ok::<KindModel, Seq<char>>(k.model()),
            Err(e) => read_global_flags(s@) == Err::<KindModel, Seq<char>>(e.message@),
        },
{
    let t = after_spaces(s);
    let mut flags = FlagNames::new();
    if t.len() == 0 {
        assert(flags@ =~= Seq::empty());
        return Ok(InstructionKind::DclGlobalFlags { flags });
    }
    let names = split_chars(t, '|');
    let table = global_flags_table();
    let ghost ns = views(names@);
    let mut i: usize = 0;
    assert(flags@ =~= Seq::empty());
    proof {
        match read_flag_names(ns, 0) {
            Ok(all) => {
                assert(Seq::<Seq<char>>::empty() + all =~= all);
            },
            Err(e) => {},
        }
    }
    while i < names.len()
        invariant
            t@ == skip_spaces(s@),
            t@.len() > 0,
            ns == views(names@),
            ns == split(t@, '|'),
            table_of(table@) == global_flags(),
            i <= names.len(),
            match read_flag_names(ns, i as int) {
                Ok(more) => read_flag_names(ns, 0) == Ok::<Seq<Seq<char>>, Seq<char>>(flags@ + more),
                Err(e) => read_flag_names(ns, 0) == Err::<Seq<Seq<char>>, Seq<char>>(e),
            },
        decreases names.len() - i,
    {
        assert(ns[i as int] == names@[i as int]@);
        match intern(&table, names[i]) {
            Some(n) => {
                let ghost before = flags@;
                flags.push(n);
                proof {
                    assert(flags@ =~= before.push(n@));
                    match read_flag_names(ns, i as int + 1) {
                        Ok(more) => {
                            assert(before + (seq![n@] + more) =~= flags@ + more);
                        },
                        Err(e) => {},
                    }
                }
            },
            None => {
                return Err(quoting_error("unknown global flag: ", names[i]));
            },
        }
        i += 1;
    }
    assert(flags@ + Seq::<Seq<char>>::empty() =~= flags@);
    Ok(InstructionKind::DclGlobalFlags { flags })
}

/// The parts of an input or output declaration read so far.
struct PortParts {
    interpolation: Option<&'static str>,
    system_value: Option<&'static str>,
    operands: Operands,
}

impl PortParts {
    spec fn model(self) -> Ports {
        Ports {
            interpolation: opt_text(self.interpolation),
            system_value: opt_text(self.system_value),
            operands: operand_models(self.operands@),
        }
    }
}

/// Read one part of an input or output declaration into `p`.
fn parse_port<'a>(t: &'a [char], input: bool, p: &mut PortParts, ft: &FloatTable) -> (r: Result<
    &'a [char],
    AsmError,
>)
    ensures
        match r {
            Ok(rest) => read_port(t@, input, old(p).model(), ft@) == Ok::<
                (Ports, Seq<char>),
                Seq<char>,
            >((final(p).model(), rest@)) && rest@.len() < t@.len(),
            Err(e) => read_port(t@, input, old(p).model(), ft@) == Err::<
                (Ports, Seq<char>),
                Seq<char>,
            >(e.message@),
        },
{
    if input {
        match try_tag(t, "interp") {
            Err(e) => {
                return Err(e);
            },
            Ok(Some((v, rest))) => {
                let table = interpolations_table();
                match intern_enum(v, &table) {
                    Ok(n) => {
                        p.interpolation = Some(n);
                        return Ok(rest);
                    },
                    Err(e) => {
                        return Err(e);
                    },
                }
            },
            Ok(None) => {},
        }
    }
    match try_tag(t, "sv") {
        Err(e) => Err(e),
        Ok(Some((v, rest))) => match intern_system_value(v) {
            Ok(n) => {
                p.system_value = Some(n);
                Ok(rest)
            },
            Err(e) => Err(e),
        },
        Ok(None) => match parse_operand(t, ft) {
            Ok((op, rest)) => {
                let ghost before = p.operands@;
                p.operands.push(op);
                assert(operand_models(p.operands@) =~= operand_models(before).push(op.model()));
                Ok(rest)
            },
            Err(e) => Err(e),
        },
    }
}

/// The parts of an input or output declaration.
fn parse_ports(s: &[char], input: bool, ft: &FloatTable) -> (r: Result<PortParts, AsmError>)
    ensures
        match r {
            Ok(p) => read_ports(s@, input, no_ports(), ft@) == Ok::<Ports, Seq<char>>(p.model()),
            Err(e) => read_ports(s@, input, no_ports(), ft@) == Err::<Ports, Seq<char>>(e.message@),
        },
{
    let mut p = PortParts { interpolation: None, system_value: None, operands: Operands::new() };
    assert(p.model().operands =~= Seq::empty());
    let mut rest: &[char] = s;
    loop
        invariant
            read_ports(rest@, input, p.model(), ft@) == read_ports(s@, input, no_ports(), ft@),
        decreases rest@.len(),
    {
        let t = after_spaces(rest);
        if t.len() == 0 {
            return Ok(p);
        }
        match parse_port(t, input, &mut p, ft) {
            Ok(r) => {
                rest = r;
            },
            Err(e) => {
                return Err(e);
            },
        }
    }
}

fn parse_dcl_input(s: &[char], ft: &FloatTable) -> (r: Result<InstructionKind, AsmError>)
    ensures
        match r {
            Ok(k) => read_ports(s@, true, no_ports(), ft@) is Ok && k.model() == ({
                let p = read_ports(s@, true, no_ports(), ft@)->Ok_0;
                KindModel::DclInput {
                    interpolation: p.interpolation,
                    system_value: p.system_value,
                    operands: p.operands,
                }
            }),
            Err(e) => read_ports(s@, true, no_ports(), ft@) == Err::<Ports, Seq<char>>(e.message@),
        },
{
    match parse_ports(s, true, ft) {
        Ok(p) => Ok(
            InstructionKind::DclInput {
                interpolation: p.interpolation,
                system_value: p.system_value,
                operands: p.operands,
            },
        ),
        Err(e) => Err(e),
    }
}

fn parse_dcl_output(s: &[char], ft: &FloatTable) -> (r: Result<InstructionKind, AsmError>)
    ensures
        match r {
            Ok(k) => read_ports(s@, false, no_ports(), ft@) is Ok && k.model() == ({
                let p = read_ports(s@, false, no_ports(), ft@)->Ok_0;
                KindModel::DclOutput { system_value: p.system_value, operands: p.operands }
            }),
            Err(e) => read_ports(s@, false, no_ports(), ft@) == Err::<Ports, Seq<char>>(e.message@),
        },
{
    match parse_ports(s, false, ft) {
        Ok(p) => Ok(
            InstructionKind::DclOutput { system_value: p.system_value, operands: p.operands },
        ),
        Err(e) => Err(e),
    }
}

/// What a typed resource declaration holds.
struct TypedParts {
    dimension: &'static str,
    types: [ReturnType; 4],
    operand: Operand,
}

impl TypedParts {
    spec fn model(self) -> Typed {
        Typed {
            dimension: self.dimension@,
            types: self.types@,
            operand: self.operand.model(),
        }
    }
}

/// A typed resource in either of its two forms.
fn parse_typed<'a>(s: &'a [char], ft: &FloatTable) -> (r: Result<
    (TypedParts, &'a [char]),
    AsmError,
>)
    ensures
        match r {
            Ok((t, rest)) => read_typed(s@, ft@) == Ok::<(Typed, Seq<char>), Seq<char>>((t.model(), rest@)),
            Err(e) => read_typed(s@, ft@) == Err::<(Typed, Seq<char>), Seq<char>>(e.message@),
        },
{
    let t = after_spaces(s);
    let (dim, after) = take_token(t);
    let table = dimensions_table();
    match intern(&table, dim) {
        Some(dimension) => {
            let u = after_spaces(after);
            if !next_is(u, '(') {
                return Err(quoting_error("expected '(' at ", u));
            }
            let v = skip(u, 1);
            let n: usize = span_until_any(v, ')', ')', ')');
            if n >= v.len() {
                return Err(quoting_error("expected ')' after ", u));
            }
            match parse_four_types(take(v, n), true) {
                Ok(types) => match parse_leading_operand(skip(v, n + 1), ft) {
                    Ok((operand, rest)) => Ok((TypedParts { dimension, types, operand }, rest)),
                    Err(e) => Err(e),
                },
                Err(e) => Err(e),
            }
        },
        None => match parse_operand(t, ft) {
            Ok((operand, r)) => match parse_tag_enum(r, "dim", &table) {
                Ok((dimension, r2)) => match expect_tag(r2, "rt") {
                    Ok((inner, r3)) => match parse_four_types(inner, true) {
                        Ok(types) => Ok((TypedParts { dimension, types, operand }, r3)),
                        Err(e) => Err(e),
                    },
                    Err(e) => Err(e),
                },
                Err(e) => Err(e),
            },
            Err(e) => Err(e),
        },
    }
}

fn parse_dcl_resource(s: &[char], ft: &FloatTable) -> (r: Result<InstructionKind, AsmError>)
    ensures
        match r {
            Ok(k) => read_dcl_resource(s@, ft@) == Ok::<KindModel, Seq<char>>(k.model()),
            Err(e) => read_dcl_resource(s@, ft@) == Err::<KindModel, Seq<char>>(e.message@),
        },
{
    match parse_typed(s, ft) {
        Ok((t, rest)) => {
            let sample_count: u32 = if after_spaces(rest).len() == 0 {
                0
            } else {
                match parse_tag_dec(rest, "samples") {
                    Ok((n, _)) => n,
                    Err(e) => {
                        return Err(e);
                    },
                }
            };
            assert(t.types =~= four_types(t.types@));
            Ok(
                InstructionKind::DclResource {
                    dimension: t.dimension,
                    sample_count,
                    return_type: t.types,
                    operands: one(t.operand),
                },
            )
        },
        Err(e) => Err(e),
    }
}

fn parse_dcl_uav_typed(s: &[char], ft: &FloatTable) -> (r: Result<InstructionKind, AsmError>)
    ensures
        match r {
            Ok(k) => read_dcl_uav_typed(s@, ft@) == Ok::<KindModel, Seq<char>>(k.model()),
            Err(e) => read_dcl_uav_typed(s@, ft@) == Err::<KindModel, Seq<char>>(e.message@),
        },
{
    match parse_typed(s, ft) {
        Ok((t, rest)) => match parse_tag_hex(rest, "flags") {
            Ok((flags, _)) => {
                assert(t.types =~= four_types(t.types@));
                Ok(
                    InstructionKind::DclUavTyped {
                        dimension: t.dimension,
                        flags,
                        return_type: t.types,
                        operands: one(t.operand),
                    },
                )
            },
            Err(e) => Err(e),
        },
        Err(e) => Err(e),
    }
}

fn parse_dcl_uav_structured(s: &[char], ft: &FloatTable) -> (r: Result<InstructionKind, AsmError>)
    ensures
        match r {
            Ok(k) => read_dcl_uav_structured(s@, ft@) == Ok::<KindModel, Seq<char>>(k.model()),
            Err(e) => read_dcl_uav_structured(s@, ft@) == Err::<KindModel, Seq<char>>(e.message@),
        },
{
    match parse_leading_operand(s, ft) {
        Ok((op, r)) => match parse_tag_dec(r, "stride") {
            Ok((stride, r2)) => match parse_tag_hex(r2, "flags") {
                Ok((flags, _)) => Ok(
                    InstructionKind::DclUavStructured { flags, stride, operands: one(op) },
                ),
                Err(e) => Err(e),
            },
            Err(e) => Err(e),
        },
        Err(e) => Err(e),
    }
}

fn parse_gs_input(s: &[char]) -> (r: Result<InstructionKind, AsmError>)
    ensures
        match r {
            Ok(k) => read_gs_input(s@) == Ok::<KindModel, Seq<char>>(k.model()),
            Err(e) => read_gs_input(s@) == Err::<KindModel, Seq<char>>(e.message@),
        },
{
    let tok = after_spaces(s);
    match in_brackets(tok, "patchlist(") {
        Some(inner) => match parse_dec(inner, 0xff) {
            Ok(n) => Ok(
                InstructionKind::DclGsInputPrimitive {
                    primitive: GsPrimitive::ControlPointPatch(n as u8),
                },
            ),
            Err(e) => Err(e),
        },
        None => match GsPrimitive::from_name(tok) {
            Some(primitive) => Ok(InstructionKind::DclGsInputPrimitive { primitive }),
            None => Err(quoting_error("unknown gs primitive: ", tok)),
        },
    }
}

fn parse_gs_topology(s: &[char]) -> (r: Result<InstructionKind, AsmError>)
    ensures
        match r {
            Ok(k) => read_gs_topology(s@) == Ok::<KindModel, Seq<char>>(k.model()),
            Err(e) => read_gs_topology(s@) == Err::<KindModel, Seq<char>>(e.message@),
        },
{
    let tok = after_spaces(s);
    match GsOutputTopology::from_name(tok) {
        Some(topology) => Ok(InstructionKind::DclGsOutputTopology { topology }),
        None => Err(quoting_error("unknown gs topology: ", tok)),
    }
}

fn parse_u32_list(s: &[char]) -> (r: Result<SmallU32Vec, AsmError>)
    ensures
        match r {
            Ok(v) => read_u32_list(s@) == Ok::<Seq<u32>, Seq<char>>(v@),
            Err(e) => read_u32_list(s@) == Err::<Seq<u32>, Seq<char>>(e.message@),
        },
{
    let mut list = SmallU32Vec::new();
    if !next_is(s, '{') {
        return Err(plain_error("expected '{' for list"));
    }
    let mut rest = skip(s, 1);
    if next_is(rest, '}') {
        return Ok(list);
    }
    proof {
        reveal_strlit(", ");
        match read_words(rest@) {
            Ok(all) => {
                assert(Seq::<u32>::empty() + all =~= all);
            },
            Err(e) => {},
        }
    }
    loop
        invariant
            ", "@.len() == 2,
            at_char(s@, '{'),
            !at_char(s@.skip(1), '}'),
            match read_words(rest@) {
                Ok(more) => read_u32_list(s@) == Ok::<Seq<u32>, Seq<char>>(list@ + more),
                Err(e) => read_u32_list(s@) == Err::<Seq<u32>, Seq<char>>(e),
            },
        decreases rest@.len(),
    {
        let n: usize = span_until_any(rest, ',', '}', '}');
        match parse_dec32(take(rest, n)) {
            Ok(v) => {
                let after = skip(rest, n);
                let ghost before = list@;
                list.push(v);
                match strip_text(after, ", ") {
                    Some(next) => {
                        proof {
                            match read_words(next@) {
                                Ok(more) => {
                                    assert(before + (seq![v] + more) =~= list@ + more);
                                },
                                Err(e) => {},
                            }
                        }
                        rest = next;
                    },
                    None => {
                        if next_is(after, '}') {
                            assert(before + seq![v] =~= list@);
                            return Ok(list);
                        }
                        return Err(plain_error("malformed list"));
                    },
                }
            },
            Err(e) => {
                return Err(e);
            },
        }
    }
}

// ---------------------------------------------------------------------------
// Custom data
// ---------------------------------------------------------------------------

/// A hexadecimal word takes a character at least.
proof fn lemma_hex_nonempty(s: Seq<char>)
    ensures
        read_hex0x(s) is Ok ==> s.len() > 0,
{
    reveal_strlit("0x");
}

fn parse_row_word<'a>(s: &'a [char]) -> (r: Result<(u32, &'a [char]), AsmError>)
    ensures
        match r {
            Ok((v, rest)) => read_row_word(s@) == Ok::<(u32, Seq<char>), Seq<char>>((v, rest@)) && rest@.len() < s@.len(),
            Err(e) => read_row_word(s@) == Err::<(u32, Seq<char>), Seq<char>>(e.message@),
        },
{
    let t = after_spaces(s);
    let n: usize = span_until_any(t, ' ', ',', '}');
    let tok = take(t, n);
    proof {
        lemma_hex_nonempty(tok@);
    }
    match parse_hex0x(tok) {
        Ok(v) => Ok((v, skip(t, n))),
        Err(e) => Err(e),
    }
}

fn parse_row<'a>(s: &'a [char]) -> (r: Result<([u32; 4], &'a [char]), AsmError>)
    ensures
        match r {
            Ok((v, rest)) => read_row(s@) == Ok::<([u32; 4], Seq<char>), Seq<char>>((v, rest@)) && rest@.len() + 4 <= s@.len(),
            Err(e) => read_row(s@) == Err::<([u32; 4], Seq<char>), Seq<char>>(e.message@),
        },
{
    match parse_row_word(s) {
        Ok((a, s1)) => match parse_row_word(s1) {
            Ok((b, s2)) => match parse_row_word(s2) {
                Ok((c, s3)) => match parse_row_word(s3) {
                    Ok((d, s4)) => Ok(([a, b, c, d], s4)),
                    Err(e) => Err(e),
                },
                Err(e) => Err(e),
            },
            Err(e) => Err(e),
        },
        Err(e) => Err(e),
    }
}

/// The rows of an immediate constant buffer, behind the opening brace.
fn parse_rows(s: &[char]) -> (r: Result<Vec<[u32; 4]>, AsmError>)
    ensures
        match r {
            Ok(v) => read_rows(s@, true) == Ok::<Seq<[u32; 4]>, Seq<char>>(v@) && 4 * v@.len() < s@.len(),
            Err(e) => read_rows(s@, true) == Err::<Seq<[u32; 4]>, Seq<char>>(e.message@),
        },
{
    let mut rows: Vec<[u32; 4]> = Vec::new();
    let mut rest: &[char] = s;
    proof {
        match read_rows(s@, true) {
            Ok(all) => {
                assert(Seq::<[u32; 4]>::empty() + all =~= all);
            },
            Err(e) => {},
        }
    }
    loop
        invariant
            4 * rows@.len() + rest@.len() <= s@.len(),
            match read_rows(rest@, rows@.len() == 0) {
                Ok(more) => read_rows(s@, true) == Ok::<Seq<[u32; 4]>, Seq<char>>(rows@ + more),
                Err(e) => read_rows(s@, true) == Err::<Seq<[u32; 4]>, Seq<char>>(e),
            },
        decreases rest@.len(),
    {
        let t = after_spaces(rest);
        if next_is(t, '}') {
            assert(rows@ + Seq::<[u32; 4]>::empty() =~= rows@);
            return Ok(rows);
        }
        let first = rows.len() == 0;
        if !first && !next_is(t, ',') {
            return Err(plain_error("expected ',' between icb rows"));
        }
        let u = if first { t } else { skip(t, 1) };
        match parse_row(u) {
            Ok((row, r)) => {
                let ghost before = rows@;
                rows.push(row);
                proof {
                    match read_rows(r@, false) {
                        Ok(more) => {
                            assert(before + (seq![row] + more) =~= rows@ + more);
                        },
                        Err(e) => {},
                    }
                }
                rest = r;
            },
            Err(e) => {
                return Err(e);
            },
        }
    }
}

/// The words of a data block, behind the opening brace.
fn parse_raw_words(s: &[char]) -> (r: Result<Vec<u32>, AsmError>)
    ensures
        match r {
            Ok(v) => read_raw_words(s@) == Ok::<Seq<u32>, Seq<char>>(v@) && v@.len() < s@.len(),
            Err(e) => read_raw_words(s@) == Err::<Seq<u32>, Seq<char>>(e.message@),
        },
{
    let mut raw: Vec<u32> = Vec::new();
    let mut rest: &[char] = s;
    proof {
        match read_raw_words(s@) {
            Ok(all) => {
                assert(Seq::<u32>::empty() + all =~= all);
            },
            Err(e) => {},
        }
    }
    loop
        invariant
            raw@.len() + rest@.len() <= s@.len(),
            match read_raw_words(rest@) {
                Ok(more) => read_raw_words(s@) == Ok::<Seq<u32>, Seq<char>>(raw@ + more),
                Err(e) => read_raw_words(s@) == Err::<Seq<u32>, Seq<char>>(e),
            },
        decreases rest@.len(),
    {
        let t = after_spaces(rest);
        if next_is(t, '}') {
            assert(raw@ + Seq::<u32>::empty() =~= raw@);
            return Ok(raw);
        }
        let n: usize = span_until_any(t, ' ', '}', '}');
        let tok = take(t, n);
        proof {
            lemma_hex_nonempty(tok@);
        }
        match parse_hex0x(tok) {
            Ok(v) => {
                let r = skip(t, n);
                let ghost before = raw@;
                raw.push(v);
                proof {
                    match read_raw_words(r@) {
                        Ok(more) => {
                            assert(before + (seq![v] + more) =~= raw@ + more);
                        },
                        Err(e) => {},
                    }
                }
                rest = r;
            },
            Err(e) => {
                return Err(e);
            },
        }
    }
}

fn parse_raw_block(s: &[char]) -> (r: Result<Vec<u32>, AsmError>)
    ensures
        match r {
            Ok(v) => read_raw_block(s@) == Ok::<Seq<u32>, Seq<char>>(v@) && v@.len() + 1 < s@.len(),
            Err(e) => read_raw_block(s@) == Err::<Seq<u32>, Seq<char>>(e.message@),
        },
{
    let t = after_spaces(s);
    if next_is(t, '{') {
        parse_raw_words(skip(t, 1))
    } else {
        Err(plain_error("expected '{' for raw payload block"))
    }
}

fn parse_data_tag(s: &[char]) -> (r: Result<CustomDataType, AsmError>)
    ensures
        match r {
            Ok(t) => read_data_tag(s@) == Ok::<CustomDataType, Seq<char>>(t),
            Err(e) => read_data_tag(s@) == Err::<CustomDataType, Seq<char>>(e.message@),
        },
{
    if is_text(s, "comment") {
        Ok(CustomDataType::Comment)
    } else if is_text(s, "debuginfo") {
        Ok(CustomDataType::DebugInfo)
    } else if is_text(s, "opaque") {
        Ok(CustomDataType::Opaque)
    } else {
        match in_brackets(s, "other(") {
            Some(v) => match parse_dec32(v) {
                Ok(n) => Ok(CustomDataType::Other(n)),
                Err(e) => Err(e),
            },
            None => Err(quoting_error("unknown customdata subtype: ", s)),
        }
    }
}

/// A data block.
fn parse_custom_data(s: &[char]) -> (r: Result<InstructionKind, AsmError>)
    ensures
        match r {
            Ok(k) => read_custom_data(s@) == Ok::<KindModel, Seq<char>>(k.model()),
            Err(e) => read_custom_data(s@) == Err::<KindModel, Seq<char>>(e.message@),
        },
{
    let room: usize = s.len();
    let t = after_spaces(s);
    let (tag, rest) = take_token(t);
    if is_text(tag, "icb") {
        let u = after_spaces(rest);
        if !next_is(u, '{') {
            return Err(plain_error("expected '{' for icb"));
        }
        match parse_rows(skip(u, 1)) {
            Ok(values) => {
                proof {
                    reveal_strlit("icb");
                }
                assert(4 * values@.len() + 2 <= room);
                let n: usize = 2 + values.len() * 4;
                let raw: Vec<u32> = Vec::new();
                assert(raw@ =~= Seq::empty());
                Ok(
                    InstructionKind::CustomData {
                        subtype: CustomDataType::ImmediateConstantBuffer,
                        values,
                        raw,
                        raw_dword_count: n,
                    },
                )
            },
            Err(e) => Err(e),
        }
    } else {
        match parse_data_tag(tag) {
            Ok(subtype) => match parse_raw_block(rest) {
                Ok(raw) => {
                    assert(raw@.len() + 2 <= room);
                    let n: usize = 2 + raw.len();
                    let values: Vec<[u32; 4]> = Vec::new();
                    assert(values@ =~= Seq::empty());
                    Ok(InstructionKind::CustomData { subtype, values, raw, raw_dword_count: n })
                },
                Err(e) => Err(e),
            },
            Err(e) => Err(e),
        }
    }
}

// ---------------------------------------------------------------------------
// Kinds
// ---------------------------------------------------------------------------

fn parse_count(op: Opcode, n: u32) -> (r: InstructionKind)
    ensures
        r.model() == read_count(op, n),
{
    match op {
        Opcode::DclTemps => InstructionKind::DclTemps { count: n },
        Opcode::DclMaxOutputVertexCount => InstructionKind::DclMaxOutputVertexCount { count: n },
        Opcode::DclGsInstanceCount => InstructionKind::DclGsInstanceCount { count: n },
        Opcode::DclOutputControlPointCount => InstructionKind::DclOutputControlPointCount {
            count: n,
        },
        Opcode::DclInputControlPointCount => InstructionKind::DclInputControlPointCount { count: n },
        Opcode::DclFunctionBody => InstructionKind::DclFunctionBody { index: n },
        _ => InstructionKind::DclHsForkPhaseInstanceCount { count: n },
    }
}

fn parse_three(s: &[char]) -> (r: Result<(u32, u32, u32), AsmError>)
    ensures
        match r {
            Ok(t) => read_three(s@) == Ok::<(u32, u32, u32), Seq<char>>(t),
            Err(e) => read_three(s@) == Err::<(u32, u32, u32), Seq<char>>(e.message@),
        },
{
    match parse_spaced_dec(s) {
        Ok((a, s1)) => match parse_spaced_dec(s1) {
            Ok((b, s2)) => match parse_spaced_dec(s2) {
                Ok((c, _)) => Ok((a, b, c)),
                Err(e) => Err(e),
            },
            Err(e) => Err(e),
        },
        Err(e) => Err(e),
    }
}

/// A declaration of one operand and what follows it.
fn parse_operand_decl(op: Opcode, s: &[char], ft: &FloatTable) -> (r: Result<
    InstructionKind,
    AsmError,
>)
    ensures
        match r {
            Ok(k) => read_operand_decl(op, s@, ft@) == Ok::<KindModel, Seq<char>>(k.model()),
            Err(e) => read_operand_decl(op, s@, ft@) == Err::<KindModel, Seq<char>>(e.message@),
        },
{
    match parse_leading_operand(s, ft) {
        Err(e) => Err(e),
        Ok((op0, r)) => match op {
            Opcode::DclUnorderedAccessViewRaw => match parse_tag_hex(r, "flags") {
                Ok((flags, _)) => Ok(InstructionKind::DclUavRaw { flags, operands: one(op0) }),
                Err(e) => Err(e),
            },
            Opcode::DclResourceRaw => Ok(InstructionKind::DclResourceRaw { operands: one(op0) }),
            Opcode::DclResourceStructured => match parse_tag_dec(r, "stride") {
                Ok((stride, _)) => Ok(
                    InstructionKind::DclResourceStructured { stride, operands: one(op0) },
                ),
                Err(e) => Err(e),
            },
            Opcode::DclIndexRange => match parse_trailing_dec(r) {
                Ok(count) => Ok(InstructionKind::DclIndexRange { operands: one(op0), count }),
                Err(e) => Err(e),
            },
            Opcode::DclSampler => {
                let table = sampler_modes_table();
                match parse_tag_enum(r, "mode", &table) {
                    Ok((mode, _)) => Ok(InstructionKind::DclSampler { mode, operands: one(op0) }),
                    Err(e) => Err(e),
                }
            },
            _ => {
                let table = cb_access_table();
                match parse_tag_enum(r, "access", &table) {
                    Ok((access, _)) => Ok(
                        InstructionKind::DclConstantBuffer { access, operands: one(op0) },
                    ),
                    Err(e) => Err(e),
                }
            },
        },
    }
}

fn parse_function_table(s: &[char]) -> (r: Result<InstructionKind, AsmError>)
    ensures
        match r {
            Ok(k) => read_kind(Opcode::DclFunctionTable, s@, Seq::empty()) == Ok::<KindModel, Seq<char>>(k.model()),
            Err(e) => read_kind(Opcode::DclFunctionTable, s@, Seq::empty()) == Err::<KindModel, Seq<char>>(e.message@),
        },
{
    match parse_spaced_dec(s) {
        Ok((table_index, r)) => match parse_u32_list(after_spaces(r)) {
            Ok(body_indices) => Ok(
                InstructionKind::DclFunctionTable { table_index, body_indices },
            ),
            Err(e) => Err(e),
        },
        Err(e) => Err(e),
    }
}

fn parse_interface(s: &[char]) -> (r: Result<InstructionKind, AsmError>)
    ensures
        match r {
            Ok(k) => read_kind(Opcode::DclInterface, s@, Seq::empty()) == Ok::<KindModel, Seq<char>>(k.model()),
            Err(e) => read_kind(Opcode::DclInterface, s@, Seq::empty()) == Err::<KindModel, Seq<char>>(e.message@),
        },
{
    match parse_spaced_dec(s) {
        Ok((interface_index, r)) => match parse_spaced_dec(r) {
            Ok((num_call_sites, r2)) => match parse_u32_list(after_spaces(r2)) {
                Ok(table_indices) => Ok(
                    InstructionKind::DclInterface {
                        interface_index,
                        num_call_sites,
                        table_indices,
                    },
                ),
                Err(e) => Err(e),
            },
            Err(e) => Err(e),
        },
        Err(e) => Err(e),
    }
}

fn count_opcode(op: Opcode) -> (r: bool)
    ensures
        r == is_count(op),
{
    op == Opcode::DclTemps || op == Opcode::DclMaxOutputVertexCount || op
        == Opcode::DclGsInstanceCount || op == Opcode::DclOutputControlPointCount || op
        == Opcode::DclInputControlPointCount || op == Opcode::DclFunctionBody || op
        == Opcode::DclHsForkPhaseInstanceCount || op == Opcode::DclHsJoinPhaseInstanceCount
}

fn operand_opcode(op: Opcode) -> (r: bool)
    ensures
        r == is_operand_decl(op),
{
    op == Opcode::DclUnorderedAccessViewRaw || op == Opcode::DclResourceRaw || op
        == Opcode::DclResourceStructured || op == Opcode::DclIndexRange || op == Opcode::DclSampler
        || op == Opcode::DclConstantBuffer
}

/// What follows the mnemonic of an instruction with opcode `op`.
#[verifier::rlimit(40)]
fn parse_kind(op: Opcode, s: &[char], ft: &FloatTable) -> (r: Result<InstructionKind, AsmError>)
    ensures
        match r {
            Ok(k) => read_kind(op, s@, ft@) == Ok::<KindModel, Seq<char>>(k.model()),
            Err(e) => read_kind(op, s@, ft@) == Err::<KindModel, Seq<char>>(e.message@),
        },
{
    if count_opcode(op) {
        return match parse_trailing_dec(s) {
            Ok(n) => Ok(parse_count(op, n)),
            Err(e) => Err(e),
        };
    }
    if operand_opcode(op) {
        return parse_operand_decl(op, s, ft);
    }
    match op {
        Opcode::CustomData => parse_custom_data(s),
        Opcode::DclGlobalFlags => parse_global_flags(s),
        Opcode::DclInput
        | Opcode::DclInputSgv
        | Opcode::DclInputSiv
        | Opcode::DclInputPs
        | Opcode::DclInputPsSgv
        | Opcode::DclInputPsSiv => parse_dcl_input(s, ft),
        Opcode::DclOutput | Opcode::DclOutputSgv | Opcode::DclOutputSiv => parse_dcl_output(s, ft),
        Opcode::DclResource => parse_dcl_resource(s, ft),
        Opcode::DclUnorderedAccessViewTyped => parse_dcl_uav_typed(s, ft),
        Opcode::DclUnorderedAccessViewStructured => parse_dcl_uav_structured(s, ft),
        Opcode::DclIndexableTemp => match parse_three(s) {
            Ok((reg, size, components)) => Ok(
                InstructionKind::DclIndexableTemp { reg, size, components },
            ),
            Err(e) => Err(e),
        },
        Opcode::DclGsInputPrimitive => parse_gs_input(s),
        Opcode::DclGsOutputPrimitiveTopology => parse_gs_topology(s),
        Opcode::DclTessDomain => {
            let table = tess_domains_table();
            match intern_enum(after_spaces(s), &table) {
                Ok(domain) => Ok(InstructionKind::DclTessDomain { domain }),
                Err(e) => Err(e),
            }
        },
        Opcode::DclTessPartitioning => {
            let table = tess_partitionings_table();
            match intern_enum(after_spaces(s), &table) {
                Ok(partitioning) => Ok(InstructionKind::DclTessPartitioning { partitioning }),
                Err(e) => Err(e),
            }
        },
        Opcode::DclTessOutputPrimitive => {
            let table = tess_output_prims_table();
            match intern_enum(after_spaces(s), &table) {
                Ok(primitive) => Ok(InstructionKind::DclTessOutputPrimitive { primitive }),
                Err(e) => Err(e),
            }
        },
        Opcode::DclHsMaxTessFactor => match parse_hex0x(after_spaces(s)) {
            Ok(value) => Ok(InstructionKind::DclHsMaxTessFactor { value }),
            Err(e) => Err(e),
        },
        Opcode::DclThreadGroup => match parse_three(s) {
            Ok((x, y, z)) => Ok(InstructionKind::DclThreadGroup { x, y, z }),
            Err(e) => Err(e),
        },
        Opcode::DclFunctionTable => parse_function_table(s),
        Opcode::DclInterface => parse_interface(s),
        Opcode::HsDecls
        | Opcode::HsControlPointPhase
        | Opcode::HsForkPhase
        | Opcode::HsJoinPhase => Ok(InstructionKind::HsPhase),
        _ => match parse_operand_list(s, ft) {
            Ok(operands) => Ok(InstructionKind::Generic { operands }),
            Err(e) => Err(e),
        },
    }
}

// ---------------------------------------------------------------------------
// Lines
// ---------------------------------------------------------------------------

/// One instruction.
fn parse_instruction(line: &[char], ft: &FloatTable) -> (r: Result<Instruction, AsmError>)
    ensures
        match r {
            Ok(i) => read_instruction(line@, ft@) == Ok::<InstructionModel, Seq<char>>(i.model()),
            Err(e) => read_instruction(line@, ft@) == Err::<InstructionModel, Seq<char>>(e.message@),
        },
{
    reveal(read_instruction);
    let (mnemonic, rest): (&[char], &[char]) = match split_at_first(line, ' ') {
        Some((m, r)) => (m, r),
        None => {
            let empty = skip(line, line.len());
            assert(empty@ =~= Seq::empty());
            (line, empty)
        },
    };
    let (opcode, tail) = match opcode_from_mnemonic(mnemonic) {
        Ok(p) => p,
        Err(e) => {
            return Err(e);
        },
    };
    let mut instr = Instruction {
        opcode,
        saturate: false,
        test_nonzero: false,
        precise_mask: 0,
        resinfo_return_type: None,
        sync_flags: 0,
        tex_offsets: None,
        resource_dim: None,
        resource_return_type: None,
        kind: InstructionKind::HsPhase,
    };
    match apply_modifiers(&mut instr, tail) {
        Ok(_) => {},
        Err(e) => {
            return Err(e);
        },
    }
    match parse_kind(opcode, rest, ft) {
        Ok(kind) => {
            instr.kind = kind;
            Ok(instr)
        },
        Err(e) => Err(e),
    }
}

/// The profile proper and the four-character code of a profile line.
fn parse_profile_parts<'a>(line: &'a [char]) -> (r: Result<(&'a [char], [u8; 4]), AsmError>)
    ensures
        match r {
            Ok((p, f)) => read_profile_parts(line@) == Ok::<(Seq<char>, Seq<u8>), Seq<char>>((p@, f@)),
            Err(e) => read_profile_parts(line@) == Err::<(Seq<char>, Seq<u8>), Seq<char>>(e.message@),
        },
{
    match split_at_first(line, ' ') {
        Some((p, rest)) => {
            let t = trimmed(rest);
            let f = match strip_text(t, "fourcc=") {
                Some(v) => v,
                None => t,
            };
            let text = string_of(f);
            let bytes = text.as_str().as_bytes();
            if bytes.len() != 4 {
                return Err(quoting_error("fourcc must be 4 bytes: ", f));
            }
            let code = [bytes[0], bytes[1], bytes[2], bytes[3]];
            assert(code@ =~= bytes@);
            Ok((p, code))
        },
        None => {
            let code = [0x53u8, 0x48u8, 0x45u8, 0x58u8];
            assert(code@ =~= shex_code());
            Ok((line, code))
        },
    }
}

/// A profile line: the stage, the two version numbers and the four-character
/// code.
fn parse_profile(line: &[char]) -> (r: Result<(&'static str, u32, u32, [u8; 4]), AsmError>)
    ensures
        match r {
            Ok((st, major, minor, f)) => match read_profile(line@) {
                Ok(p) => p.shader_type == st@ && p.major == major && p.minor == minor && p.fourcc
                    == f@,
                Err(_) => false,
            },
            Err(e) => read_profile(line@) is Err && read_profile(line@)->Err_0 == e.message@,
        },
{
    reveal(read_profile);
    let body = match strip_text(line, "profile=") {
        Some(b) => b,
        None => line,
    };
    let (profile, fourcc) = match parse_profile_parts(body) {
        Ok(p) => p,
        Err(e) => {
            return Err(e);
        },
    };
    let (st, rest) = match split_at_first(profile, '_') {
        Some(p) => p,
        None => {
            return Err(quoting_error("malformed profile line: ", body));
        },
    };
    let (maj, min) = match split_at_first(rest, '_') {
        Some(p) => p,
        None => {
            return Err(quoting_error("malformed profile line: ", body));
        },
    };
    let table = shader_types_table();
    let shader_type = match intern(&table, st) {
        Some(n) => n,
        None => {
            return Err(quoting_error("unknown shader type: ", st));
        },
    };
    let major: u32 = match parse_unsigned(maj, 10, 0xffff_ffff) {
        Some(v) => v as u32,
        None => {
            return Err(quoting_error("bad major version: ", maj));
        },
    };
    let minor: u32 = match parse_unsigned(min, 10, 0xffff_ffff) {
        Some(v) => v as u32,
        None => {
            return Err(quoting_error("bad minor version: ", min));
        },
    };
    Ok((shader_type, major, minor, fourcc))
}

/// Read a program from cleaned lines.
pub(crate) fn parse_lines(lines: &Vec<&[char]>, floats: &FloatTable) -> (r: Result<
    Program,
    AsmError,
>)
    ensures
        match r {
            Ok(p) => read_program(views(lines@), floats@) == Ok::<ProgramModel, Seq<char>>(
                p.model(),
            ) && p.warnings@.len() == 0,
            Err(e) => read_program(views(lines@), floats@) == Err::<ProgramModel, Seq<char>>(
                e.message@,
            ),
        },
{
    let ghost ls = views(lines@);
    if lines.len() == 0 {
        return Err(plain_error("empty input: missing profile line"));
    }
    assert(ls[0] == lines@[0]@);
    let (shader_type, major_version, minor_version, fourcc) = match parse_profile(lines[0]) {
        Ok(p) => p,
        Err(e) => {
            return Err(e);
        },
    };
    let mut instructions: Vec<Instruction> = Vec::new();
    let mut i: usize = 1;
    assert(instruction_models(instructions@) =~= Seq::empty());
    proof {
        match read_instructions(ls, 1, floats@) {
            Ok(all) => {
                assert(Seq::<InstructionModel>::empty() + all =~= all);
            },
            Err(e) => {},
        }
    }
    while i < lines.len()
        invariant
            ls == views(lines@),
            read_profile(ls[0]) is Ok,
            1 <= i <= lines.len(),
            match read_instructions(ls, i as int, floats@) {
                Ok(more) => read_instructions(ls, 1, floats@) == Ok::<
                    Seq<InstructionModel>,
                    Seq<char>,
                >(instruction_models(instructions@) + more),
                Err(e) => read_instructions(ls, 1, floats@) == Err::<
                    Seq<InstructionModel>,
                    Seq<char>,
                >(e),
            },
        decreases lines.len() - i,
    {
        assert(ls[i as int] == lines@[i as int]@);
        match parse_instruction(lines[i], floats) {
            Ok(instr) => {
                let ghost before = instructions@;
                instructions.push(instr);
                proof {
                    assert(instruction_models(instructions@) =~= instruction_models(before).push(
                        instr.model(),
                    ));
                    match read_instructions(ls, i as int + 1, floats@) {
                        Ok(more) => {
                            assert(instruction_models(before) + (seq![instr.model()] + more)
                                =~= instruction_models(instructions@) + more);
                        },
                        Err(e) => {},
                    }
                }
            },
            Err(e) => {
                return Err(e);
            },
        }
        i += 1;
    }
    assert(instruction_models(instructions@) + Seq::<InstructionModel>::empty()
        =~= instruction_models(instructions@));
    Ok(
        Program {
            shader_type,
            major_version,
            minor_version,
            instructions,
            warnings: Vec::new(),
            fourcc,
        },
    )
}

/// Read a program from its text, floating-point immediates as `floats` spells
/// them. Comments and blank lines count for nothing.
pub fn parse(text: &str, floats: &FloatTable) -> (r: Result<Program, AsmError>)
    ensures
        match r {
            Ok(p) => parsed(text@, floats@) == Ok::<ProgramModel, Seq<char>>(p.model())
                && p.warnings@.len() == 0,
            Err(e) => parsed(text@, floats@) == Err::<ProgramModel, Seq<char>>(e.message@),
        },
{
    let chars = chars_of(text);
    let lines = lines_of(chars.as_slice(), true);
    parse_lines(&lines, floats)
}

} // verus!
