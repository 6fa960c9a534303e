//! How the text of a shader program is read, as functions on sequences.
//!
//! A reader takes the characters still to be read and gives what it read and
//! the characters left over, or the message of the error. Two spellings are
//! read alike: tags as `name(value)` or `name=value`, operands separated by
//! commas or by spaces, and a profile line with or without its key.

use vstd::prelude::*;
use vstd::utf8::encode_utf8;

use crate::debug::debug_text;
use crate::floats::{Spellings, bits_of_text, looks_float};
use crate::grammar::shex::text::{implied_components, rd_word, rr_word, shex_code};
use crate::grammar::tables::{
    NameTable, axis_value, cb_access, dimensions, global_flags, interpolations, sampler_modes,
    shader_types, system_value_number, system_value_text, table_value, tess_domains,
    tess_output_prims, tess_partitionings,
};
use crate::lines::{split, split_once, text_lines, trim};
use crate::numerals::{dec_text, parse_int, parse_nat};
use crate::shex::ir::{
    ComponentSelect, CustomDataType, GsOutputTopology, GsPrimitive, IndexModel, InstructionModel,
    KindModel, Modifiers, Opcode, OperandModel, ProgramModel, RegisterType, ReturnType,
    no_modifiers,
};
use crate::text::{is_digit, skip_spaces, span_digits, span_until, starts_with, strip_last, strip_prefix};

verus! {

/// What was read and the characters left over, or an error message.
pub type Read<T> = Result<(T, Seq<char>), Seq<char>>;

/// A message and the text it is about, quoted.
pub open spec fn quoting(message: Seq<char>, s: Seq<char>) -> Seq<char> {
    message + debug_text(s)
}

// ---------------------------------------------------------------------------
// Numbers and names
// ---------------------------------------------------------------------------

/// A decimal number of at most `max`.
pub open spec fn read_dec(s: Seq<char>, max: nat) -> Result<nat, Seq<char>> {
    match parse_nat(s, 10, max) {
        Some(v) => Ok(v),
        None => Err(quoting("bad number: "@, s)),
    }
}

/// A hexadecimal word.
pub open spec fn read_hex(s: Seq<char>) -> Result<nat, Seq<char>> {
    match parse_nat(s, 16, 0xffff_ffff) {
        Some(v) => Ok(v),
        None => Err(quoting("bad hex: "@, s)),
    }
}

/// A hexadecimal word, with or without `0x`.
pub open spec fn read_hex0x(s: Seq<char>) -> Result<nat, Seq<char>> {
    match strip_prefix(s, "0x"@) {
        Some(body) => read_hex(body),
        None => read_hex(s),
    }
}

/// A name of the table.
pub open spec fn read_enum(s: Seq<char>, table: NameTable) -> Result<Seq<char>, Seq<char>> {
    if table_value(table, s) is Some {
        Ok(s)
    } else {
        Err(quoting("unknown enum value: "@, s))
    }
}

/// The name of a system value.
pub open spec fn read_system_value(s: Seq<char>) -> Result<Seq<char>, Seq<char>> {
    if system_value_text(system_value_number(s)) == s {
        Ok(s)
    } else {
        Err(quoting("unknown system value: "@, s))
    }
}

/// A decimal number that takes up all that is left behind the spaces.
pub open spec fn read_trailing_dec(s: Seq<char>) -> Result<nat, Seq<char>> {
    read_dec(skip_spaces(s), 0xffff_ffff)
}

/// The characters up to the next space.
pub open spec fn token(s: Seq<char>) -> Seq<char> {
    s.take(span_until(s, ' ', ' ', ' ') as int)
}

/// What follows the characters up to the next space.
pub open spec fn after_token(s: Seq<char>) -> Seq<char> {
    s.skip(span_until(s, ' ', ' ', ' ') as int)
}

/// A decimal number behind spaces, up to the next space.
pub open spec fn read_spaced_dec(s: Seq<char>) -> Read<nat> {
    let t = skip_spaces(s);
    match read_dec(token(t), 0xffff_ffff) {
        Ok(v) => Ok((v, after_token(t))),
        Err(e) => Err(e),
    }
}

// ---------------------------------------------------------------------------
// Tags
// ---------------------------------------------------------------------------

/// The value of the tag `tag` where it comes next: `tag=value` up to the next
/// blank, or `tag(value)`.
pub open spec fn read_tag(s: Seq<char>, tag: Seq<char>) -> Result<
    Option<(Seq<char>, Seq<char>)>,
    Seq<char>,
> {
    match strip_prefix(s, tag.push('=')) {
        Some(r) => {
            let n = span_until(r, ' ', '\t', ' ');
            Ok(Some((r.take(n as int), r.skip(n as int))))
        },
        None => match strip_prefix(s, tag.push('(')) {
            Some(r) => {
                let n = span_until(r, ')', ')', ')');
                if n < r.len() {
                    Ok(Some((r.take(n as int), r.skip(n as int + 1))))
                } else {
                    Err(quoting("expected ')' after "@, s))
                }
            },
            None => Ok(None),
        },
    }
}

/// The value of a tag that must come next, behind spaces.
pub open spec fn read_required_tag(s: Seq<char>, tag: Seq<char>) -> Read<Seq<char>> {
    let t = skip_spaces(s);
    match read_tag(t, tag) {
        Ok(Some(r)) => Ok(r),
        Ok(None) => Err(quoting("expected "@ + tag + "=… at "@, t)),
        Err(e) => Err(e),
    }
}

/// A tag whose value is a name of the table.
pub open spec fn read_tag_enum(s: Seq<char>, tag: Seq<char>, table: NameTable) -> Read<Seq<char>> {
    match read_required_tag(s, tag) {
        Ok((v, r)) => match read_enum(v, table) {
            Ok(n) => Ok((n, r)),
            Err(e) => Err(e),
        },
        Err(e) => Err(e),
    }
}

/// A tag whose value is a decimal number.
pub open spec fn read_tag_dec(s: Seq<char>, tag: Seq<char>) -> Read<nat> {
    match read_required_tag(s, tag) {
        Ok((v, r)) => match read_dec(v, 0xffff_ffff) {
            Ok(n) => Ok((n, r)),
            Err(e) => Err(e),
        },
        Err(e) => Err(e),
    }
}

/// A tag whose value is a hexadecimal number.
pub open spec fn read_tag_hex(s: Seq<char>, tag: Seq<char>) -> Read<nat> {
    match read_required_tag(s, tag) {
        Ok((v, r)) => match read_hex0x(v) {
            Ok(n) => Ok((n, r)),
            Err(e) => Err(e),
        },
        Err(e) => Err(e),
    }
}

// ---------------------------------------------------------------------------
// Return types
// ---------------------------------------------------------------------------

/// The return type of that name.
pub open spec fn named_return_type(s: Seq<char>) -> Option<ReturnType> {
    if s == "unorm"@ {
        Some(ReturnType::Unorm)
    } else if s == "snorm"@ {
        Some(ReturnType::Snorm)
    } else if s == "sint"@ {
        Some(ReturnType::Sint)
    } else if s == "uint"@ {
        Some(ReturnType::Uint)
    } else if s == "float"@ {
        Some(ReturnType::Float)
    } else if s == "mixed"@ {
        Some(ReturnType::Mixed)
    } else if s == "double"@ {
        Some(ReturnType::Double)
    } else if s == "continued"@ {
        Some(ReturnType::Continued)
    } else if s == "unused"@ {
        Some(ReturnType::Unused)
    } else {
        None
    }
}

/// A return type: a name, or `unknown` and a number.
pub open spec fn read_return_type(s: Seq<char>) -> Result<ReturnType, Seq<char>> {
    match named_return_type(s) {
        Some(t) => Ok(t),
        None => match strip_prefix(s, "unknown"@) {
            Some(v) => match read_dec(v, 0xffff_ffff) {
                Ok(n) => Ok(ReturnType::Unknown(n as u32)),
                Err(e) => Err(e),
            },
            None => Err(quoting("unknown return type: "@, s)),
        },
    }
}

/// The return types in `parts` from number `k` to number three; `missing` gives
/// the message where there are too few.
pub open spec fn read_types_from(
    parts: Seq<Seq<char>>,
    k: int,
    missing: spec_fn(int) -> Seq<char>,
) -> Result<Seq<ReturnType>, Seq<char>>
    decreases 4 - k,
{
    if k >= 4 {
        Ok(Seq::empty())
    } else if k >= parts.len() {
        Err(missing(k))
    } else {
        match read_return_type(parts[k]) {
            Ok(t) => match read_types_from(parts, k + 1, missing) {
                Ok(ts) => Ok(seq![t] + ts),
                Err(e) => Err(e),
            },
            Err(e) => Err(e),
        }
    }
}

/// The four return types of a declaration.
pub open spec fn read_declared_types(inner: Seq<char>) -> Result<Seq<ReturnType>, Seq<char>> {
    read_types_from(split(inner, ','), 0, |k: int| quoting("rt= needs four types: "@, inner))
}

/// The message for a return type that a modifier lacks.
pub open spec fn missing_type(k: int) -> Seq<char> {
    "rt(...) needs 4 return types, component "@ + dec_text(k as nat) + " missing"@
}

/// The return-type word of a modifier.
pub open spec fn read_resource_rt(inner: Seq<char>) -> Result<u32, Seq<char>> {
    match read_types_from(split(inner, ','), 0, |k: int| missing_type(k)) {
        Ok(t) => Ok(
            rr_word(
                t[0].spec_to_u32(),
                t[1].spec_to_u32(),
                t[2].spec_to_u32(),
                t[3].spec_to_u32(),
            ),
        ),
        Err(e) => Err(e),
    }
}

/// The dimension's name and the stride of a resource-dimension modifier.
pub open spec fn read_dim_parts(inner: Seq<char>) -> Result<(Seq<char>, nat), Seq<char>> {
    match split_once(inner, ',') {
        Some((d, s)) => match strip_prefix(s, "stride="@) {
            Some(n) => match read_dec(n, 0xffff_ffff) {
                Ok(v) => Ok((d, v)),
                Err(e) => Err(e),
            },
            None => Err(quoting("expected stride= in res(...): "@, inner)),
        },
        None => Ok((inner, 0)),
    }
}

/// The resource-dimension word of a modifier.
pub open spec fn read_resource_dim(inner: Seq<char>) -> Result<u32, Seq<char>> {
    match read_dim_parts(inner) {
        Ok((d, stride)) => match table_value(dimensions(), d) {
            Some(dim) => Ok(rd_word(dim, stride as u32)),
            None => Err(quoting("unknown resource dimension: "@, d)),
        },
        Err(e) => Err(e),
    }
}

// ---------------------------------------------------------------------------
// Mnemonics and modifiers
// ---------------------------------------------------------------------------

/// The number below `n` of the opcode with the longest mnemonic that `s` begins
/// with, the first of equals.
pub open spec fn best_opcode(s: Seq<char>, n: int) -> Option<u32>
    decreases n,
{
    if n <= 0 {
        None
    } else {
        let b = best_opcode(s, n - 1);
        let v = (n - 1) as u32;
        let name = Opcode::spec_from_u32(v).mnemonic();
        if starts_with(s, name) && (b is None || name.len() > Opcode::spec_from_u32(
            b->0,
        ).mnemonic().len()) {
            Some(v)
        } else {
            b
        }
    }
}

/// The opcode a mnemonic begins with, and its modifiers.
pub open spec fn read_mnemonic(s: Seq<char>) -> Read<Opcode> {
    match best_opcode(s, 218) {
        Some(v) => {
            let op = Opcode::spec_from_u32(v);
            let rest = s.skip(op.mnemonic().len() as int);
            if rest.len() > 0 && rest[0] != '_' {
                Err(quoting("unrecognized mnemonic: "@, s))
            } else {
                Ok((op, rest))
            }
        },
        None => match strip_prefix(s, "op"@) {
            Some(after) => {
                let n = span_digits(after);
                if n > 0 {
                    match read_dec(after.take(n as int), 0xffff_ffff) {
                        Ok(v) => Ok((Opcode::Unknown(v as u32), after.skip(n as int))),
                        Err(e) => Err(e),
                    }
                } else {
                    Err(quoting("unknown opcode in mnemonic: "@, s))
                }
            },
            None => Err(quoting("unknown opcode in mnemonic: "@, s)),
        },
    }
}

/// The non-empty parts of `s` between the underscores outside brackets, where
/// `cur` has been read of the first and `depth` brackets are open.
pub open spec fn modifier_parts(s: Seq<char>, depth: int, cur: Seq<char>) -> Seq<Seq<char>>
    decreases s.len(),
{
    if s.len() == 0 {
        if cur.len() > 0 {
            seq![cur]
        } else {
            Seq::empty()
        }
    } else if s[0] == '_' && depth == 0 {
        (if cur.len() > 0 {
            seq![cur]
        } else {
            Seq::empty()
        }) + modifier_parts(s.skip(1), depth, Seq::empty())
    } else {
        modifier_parts(
            s.skip(1),
            if s[0] == '(' {
                depth + 1
            } else if s[0] == ')' {
                depth - 1
            } else {
                depth
            },
            cur.push(s[0]),
        )
    }
}

/// What stands in `s` between `open` and a final closing bracket.
pub open spec fn bracketed(s: Seq<char>, open: Seq<char>) -> Option<Seq<char>> {
    match strip_prefix(s, open) {
        Some(r) => strip_last(r, ')'),
        None => None,
    }
}

/// Texel offset number `k` of those in `parts`.
pub open spec fn read_offset(parts: Seq<Seq<char>>, k: int) -> Result<int, Seq<char>> {
    if k >= parts.len() {
        Err("missing tex offset component"@)
    } else {
        match parse_int(parts[k], 127) {
            Some(v) => Ok(v),
            None => Err(quoting("bad number: "@, parts[k])),
        }
    }
}

/// The three texel offsets.
pub open spec fn read_offsets(body: Seq<char>) -> Result<[i8; 3], Seq<char>> {
    let parts = split(body, ',');
    match read_offset(parts, 0) {
        Ok(u) => match read_offset(parts, 1) {
            Ok(v) => match read_offset(parts, 2) {
                Ok(x) => Ok([u as i8, v as i8, x as i8]),
                Err(e) => Err(e),
            },
            Err(e) => Err(e),
        },
        Err(e) => Err(e),
    }
}

/// The modifiers `m` with the one that `seg` spells set as well.
pub open spec fn read_modifier(m: Modifiers, seg: Seq<char>) -> Result<Modifiers, Seq<char>> {
    if seg == "sat"@ {
        Ok(Modifiers { saturate: true, ..m })
    } else if seg == "nz"@ {
        Ok(Modifiers { test_nonzero: true, ..m })
    } else if let Some(n) = strip_prefix(seg, "ri"@) {
        match read_dec(n, 0xff) {
            Ok(v) => Ok(Modifiers { resinfo_return_type: Some(v as u8), ..m }),
            Err(e) => Err(e),
        }
    } else if let Some(h) = strip_prefix(seg, "pm"@) {
        match read_hex(h) {
            Ok(v) => Ok(Modifiers { precise_mask: (v as u32) as u8, ..m }),
            Err(e) => Err(e),
        }
    } else if let Some(h) = strip_prefix(seg, "sf"@) {
        match read_hex(h) {
            Ok(v) => Ok(Modifiers { sync_flags: (v as u32) as u8, ..m }),
            Err(e) => Err(e),
        }
    } else if let Some(body) = bracketed(seg, "off("@) {
        match read_offsets(body) {
            Ok(o) => Ok(Modifiers { tex_offsets: Some(o), ..m }),
            Err(e) => Err(e),
        }
    } else if let Some(inner) = bracketed(seg, "res("@) {
        match read_resource_dim(inner) {
            Ok(v) => Ok(Modifiers { resource_dim: Some(v), ..m }),
            Err(e) => Err(e),
        }
    } else if let Some(inner) = bracketed(seg, "rt("@) {
        match read_resource_rt(inner) {
            Ok(v) => Ok(Modifiers { resource_return_type: Some(v), ..m }),
            Err(e) => Err(e),
        }
    } else if let Some(h) = strip_prefix(seg, "rd"@) {
        match read_hex(h) {
            Ok(v) => Ok(Modifiers { resource_dim: Some(v as u32), ..m }),
            Err(e) => Err(e),
        }
    } else if let Some(h) = strip_prefix(seg, "rr"@) {
        match read_hex(h) {
            Ok(v) => Ok(Modifiers { resource_return_type: Some(v as u32), ..m }),
            Err(e) => Err(e),
        }
    } else {
        Err("unknown modifier: _"@ + seg)
    }
}

/// The modifiers `m` with those of `segs` from number `k` on set as well.
pub open spec fn read_modifiers(m: Modifiers, segs: Seq<Seq<char>>, k: int) -> Result<
    Modifiers,
    Seq<char>,
>
    decreases segs.len() - k,
{
    if k < 0 || k >= segs.len() {
        Ok(m)
    } else {
        match read_modifier(m, segs[k]) {
            Ok(m2) => read_modifiers(m2, segs, k + 1),
            Err(e) => Err(e),
        }
    }
}

// ---------------------------------------------------------------------------
// Operands
// ---------------------------------------------------------------------------

/// The word whose two's complement reading is `i`.
pub open spec fn word_of_int(i: int) -> u32 {
    if i < 0 {
        (i + 0x1_0000_0000) as u32
    } else {
        i as u32
    }
}

/// One immediate value: `0x` makes it hexadecimal, the look of a floating-point
/// number makes it one, and anything else is a signed integer.
pub open spec fn read_immediate(tok: Seq<char>, ft: Spellings) -> Result<u32, Seq<char>> {
    if starts_with(tok, "0x"@) {
        match read_hex0x(tok) {
            Ok(v) => Ok(v as u32),
            Err(e) => Err(e),
        }
    } else if looks_float(tok) {
        match bits_of_text(ft, tok) {
            Some(b) => Ok(b),
            None => Err(quoting("bad float immediate: "@, tok)),
        }
    } else {
        match parse_int(tok, 0x7fff_ffff) {
            Some(i) => Ok(word_of_int(i)),
            None => Err(quoting("bad immediate: "@, tok)),
        }
    }
}

/// Immediate values up to the closing bracket.
pub open spec fn read_immediates(s: Seq<char>, ft: Spellings) -> Read<Seq<u32>>
    decreases s.len(),
{
    let n = span_until(s, ',', ')', ')');
    match read_immediate(s.take(n as int), ft) {
        Ok(v) => if n < s.len() && s[n as int] == ',' {
            let rest = skip_spaces(s.skip(n as int + 1));
            if rest.len() < s.len() {
                match read_immediates(rest, ft) {
                    Ok((vs, r)) => Ok((seq![v] + vs, r)),
                    Err(e) => Err(e),
                }
            } else {
                Err("malformed immediate list"@)
            }
        } else if n < s.len() {
            Ok((seq![v], s.skip(n as int + 1)))
        } else {
            Err("malformed immediate list"@)
        },
        Err(e) => Err(e),
    }
}

/// An immediate list behind its opening bracket.
pub open spec fn read_imm_list(s: Seq<char>, ft: Spellings) -> Read<Seq<u32>> {
    if s.len() > 0 && s[0] == ')' {
        Ok((Seq::empty(), s.skip(1)))
    } else {
        read_immediates(s, ft)
    }
}

/// The number below `n` of the register file with the longest prefix that `s`
/// begins with, the first of equals.
pub open spec fn best_register(s: Seq<char>, n: int) -> Option<u32>
    decreases n,
{
    if n <= 0 {
        None
    } else {
        let b = best_register(s, n - 1);
        let v = (n - 1) as u32;
        let p = RegisterType::spec_from_u32(v).prefix_text();
        if starts_with(s, p) && (b is None || p.len() > RegisterType::spec_from_u32(
            b->0,
        ).prefix_text().len()) {
            Some(v)
        } else {
            b
        }
    }
}

/// A register file.
pub open spec fn read_register(s: Seq<char>) -> Read<RegisterType> {
    match strip_prefix(s, "?reg("@) {
        Some(r) => {
            let n = span_until(r, ')', ')', ')');
            if n < r.len() {
                match read_dec(r.take(n as int), 0xffff_ffff) {
                    Ok(v) => Ok((RegisterType::Unknown(v as u32), r.skip(n as int + 1))),
                    Err(e) => Err(e),
                }
            } else {
                Err("expected ')' after ?reg("@)
            }
        },
        None => match best_register(s, 41) {
            Some(v) => {
                let rt = RegisterType::spec_from_u32(v);
                Ok((rt, s.skip(rt.prefix_text().len() as int)))
            },
            None => Err(quoting("unknown register prefix at "@, s)),
        },
    }
}

/// A numeric index.
pub open spec fn read_number_index(s: Seq<char>) -> Read<IndexModel> {
    let n = span_digits(s) as int;
    let digits = s.take(n);
    let rest = s.skip(n);
    if rest.len() > 0 && rest[0] == 'L' {
        match read_dec(digits, 0xffff_ffff_ffff_ffff) {
            Ok(v) => Ok((IndexModel::Imm64(v as u64), rest.skip(1))),
            Err(e) => Err(e),
        }
    } else {
        match read_dec(digits, 0xffff_ffff) {
            Ok(v) => Ok((IndexModel::Imm32(v as u32), rest)),
            Err(e) => Err(e),
        }
    }
}

/// Whether `s` begins with a digit.
pub open spec fn at_digit(s: Seq<char>) -> bool {
    s.len() > 0 && is_digit(s[0])
}

/// Length of the longest prefix of component letters.
pub open spec fn span_axes(s: Seq<char>) -> nat
    decreases s.len(),
{
    if s.len() == 0 || axis_value(s[0]) is None {
        0
    } else {
        1 + span_axes(s.skip(1))
    }
}

/// The bit of the component `c` in a mask.
pub open spec fn axis_bit(c: char) -> u8 {
    if c == 'x' {
        1
    } else if c == 'y' {
        2
    } else if c == 'z' {
        4
    } else {
        8
    }
}

/// The mask of the components with those letters.
pub open spec fn mask_of(letters: Seq<char>) -> u8
    decreases letters.len(),
{
    if letters.len() == 0 {
        0
    } else {
        mask_of(letters.drop_last()) | axis_bit(letters.last())
    }
}

/// The component with that letter, nought where there is none.
pub open spec fn axis_or_zero(c: char) -> u8 {
    match axis_value(c) {
        Some(v) => v,
        None => 0,
    }
}

/// A component selection.
pub open spec fn read_components(s: Seq<char>) -> Read<ComponentSelect> {
    if s.len() > 0 && s[0] == ':' {
        let n = span_axes(s.skip(1)) as int;
        Ok((ComponentSelect::Mask(mask_of(s.skip(1).take(n))), s.skip(1).skip(n)))
    } else if s.len() == 0 || s[0] != '.' {
        Ok((ComponentSelect::ZeroComponent, s))
    } else if s.len() > 1 && s[1] == '1' {
        Ok((ComponentSelect::OneComponent, s.skip(2)))
    } else {
        let t = s.skip(1);
        let n = span_axes(t) as int;
        if n == 1 {
            Ok((ComponentSelect::Scalar(axis_or_zero(t[0])), t.skip(1)))
        } else if n == 4 {
            Ok(
                (
                    ComponentSelect::Swizzle(
                        [
                            axis_or_zero(t[0]),
                            axis_or_zero(t[1]),
                            axis_or_zero(t[2]),
                            axis_or_zero(t[3]),
                        ],
                    ),
                    t.skip(4),
                ),
            )
        } else {
            Err("expected 1 or 4 swizzle components, got "@ + dec_text(n as nat))
        }
    }
}

/// What an operand holds before its components: register file, indices and
/// immediate values.
pub struct Core {
    /// The register file.
    pub reg_type: RegisterType,
    /// The indices.
    pub indices: Seq<IndexModel>,
    /// The immediate values.
    pub immediate_values: Seq<u32>,
}

/// `s` without a leading `c`.
pub open spec fn skip_char(s: Seq<char>, c: char) -> Seq<char> {
    if s.len() > 0 && s[0] == c {
        s.skip(1)
    } else {
        s
    }
}

/// Whether `s` begins with `c`.
pub open spec fn at_char(s: Seq<char>, c: char) -> bool {
    s.len() > 0 && s[0] == c
}

/// One operand.
pub open spec fn read_operand(s: Seq<char>, ft: Spellings) -> Read<OperandModel>
    decreases s.len(), 3int,
{
    let negate = at_char(s, '-');
    let s1 = skip_char(s, '-');
    let abs = at_char(s1, '|');
    let s2 = skip_char(s1, '|');
    match read_core(s2, ft) {
        Ok((core, s3)) => match read_components(s3) {
            Ok((written, s4)) => {
                let n = core.immediate_values.len();
                let components = if n > 0 && written is ZeroComponent {
                    implied_components(n as int)
                } else {
                    written
                };
                let op = OperandModel {
                    reg_type: core.reg_type,
                    components,
                    negate,
                    abs,
                    indices: core.indices,
                    immediate_values: core.immediate_values,
                };
                if abs && !at_char(s4, '|') {
                    Err("expected closing '|' for abs operand"@)
                } else if abs {
                    Ok((op, s4.skip(1)))
                } else {
                    Ok((op, s4))
                }
            },
            Err(e) => Err(e),
        },
        Err(e) => Err(e),
    }
}

/// An operand's register and indices, or its immediate values.
pub open spec fn read_core(s: Seq<char>, ft: Spellings) -> Read<Core>
    decreases s.len(), 2int,
{
    if starts_with(s, "l("@) {
        match read_imm_list(s.skip(2), ft) {
            Ok((vs, r)) => Ok(
                (
                    Core {
                        reg_type: RegisterType::Immediate32,
                        indices: Seq::empty(),
                        immediate_values: vs,
                    },
                    r,
                ),
            ),
            Err(e) => Err(e),
        }
    } else if starts_with(s, "d("@) {
        match read_imm_list(s.skip(2), ft) {
            Ok((vs, r)) => Ok(
                (
                    Core {
                        reg_type: RegisterType::Immediate64,
                        indices: Seq::empty(),
                        immediate_values: vs,
                    },
                    r,
                ),
            ),
            Err(e) => Err(e),
        }
    } else {
        match read_register(s) {
            Ok((reg_type, r)) => if r.len() <= s.len() {
                match read_indices(r, ft) {
                    Ok((indices, r2)) => Ok(
                        (Core { reg_type, indices, immediate_values: Seq::empty() }, r2),
                    ),
                    Err(e) => Err(e),
                }
            } else {
                Err("expected a register"@)
            },
            Err(e) => Err(e),
        }
    }
}

/// The indices behind a register prefix: a bare number, then any in brackets.
pub open spec fn read_indices(s: Seq<char>, ft: Spellings) -> Read<Seq<IndexModel>>
    decreases s.len(), 1int,
{
    if at_digit(s) {
        match read_number_index(s) {
            Ok((ix, r)) => if r.len() <= s.len() {
                match read_brackets(r, ft) {
                    Ok((rest, r2)) => Ok((seq![ix] + rest, r2)),
                    Err(e) => Err(e),
                }
            } else {
                Err("expected an index"@)
            },
            Err(e) => Err(e),
        }
    } else {
        read_brackets(s, ft)
    }
}

/// The indices in brackets.
pub open spec fn read_brackets(s: Seq<char>, ft: Spellings) -> Read<Seq<IndexModel>>
    decreases s.len(), 0int,
{
    if at_char(s, '[') {
        match read_bracket_index(s.skip(1), ft) {
            Ok((ix, r)) => if !at_char(r, ']') {
                Err("expected ']' after index"@)
            } else if r.len() <= s.len() {
                match read_brackets(r.skip(1), ft) {
                    Ok((rest, r2)) => Ok((seq![ix] + rest, r2)),
                    Err(e) => Err(e),
                }
            } else {
                Err("expected ']' after index"@)
            },
            Err(e) => Err(e),
        }
    } else {
        Ok((Seq::empty(), s))
    }
}

/// One index between brackets: a number, or an operand with or without a number
/// added to it.
pub open spec fn read_bracket_index(s: Seq<char>, ft: Spellings) -> Read<IndexModel>
    decreases s.len(), 4int,
{
    if at_digit(s) {
        read_number_index(s)
    } else {
        match read_operand(s, ft) {
            Ok((sub, r)) => {
                let t = skip_spaces(r);
                if at_char(t, '+') {
                    let u = skip_spaces(t.skip(1));
                    let n = span_until(u, ']', ']', ']') as int;
                    match read_dec(u.take(n), 0xffff_ffff) {
                        Ok(v) => Ok(
                            (IndexModel::RelativePlusImm(v as u32, Box::new(sub)), u.skip(n)),
                        ),
                        Err(e) => Err(e),
                    }
                } else {
                    Ok((IndexModel::Relative(Box::new(sub)), r))
                }
            },
            Err(e) => Err(e),
        }
    }
}

/// What is left behind an operand of a list: without spaces, and without a comma
/// behind them.
pub open spec fn skip_comma(s: Seq<char>) -> Seq<char> {
    skip_char(skip_spaces(s), ',')
}

/// Whether a comma follows an operand of a list, and nothing follows the comma.
pub open spec fn ends_in_comma(s: Seq<char>) -> bool {
    at_char(skip_spaces(s), ',') && skip_spaces(skip_comma(s)).len() == 0
}

/// The operands of a generic instruction, to the end of the line. A comma stands
/// only before an operand.
pub open spec fn read_operand_list(s: Seq<char>, ft: Spellings) -> Result<
    Seq<OperandModel>,
    Seq<char>,
>
    decreases s.len(),
{
    let t = skip_spaces(s);
    if t.len() == 0 {
        Ok(Seq::empty())
    } else {
        match read_operand(t, ft) {
            Ok((op, r)) => {
                let u = skip_comma(r);
                if ends_in_comma(r) {
                    Err("expected an operand"@)
                } else if u.len() < s.len() {
                    match read_operand_list(u, ft) {
                        Ok(ops) => Ok(seq![op] + ops),
                        Err(e) => Err(e),
                    }
                } else {
                    Err("expected an operand"@)
                }
            },
            Err(e) => Err(e),
        }
    }
}

/// An operand behind spaces.
pub open spec fn read_leading_operand(s: Seq<char>, ft: Spellings) -> Read<OperandModel> {
    read_operand(skip_spaces(s), ft)
}

// ---------------------------------------------------------------------------
// Declarations
// ---------------------------------------------------------------------------

/// Names of global flags from number `k` on.
pub open spec fn read_flag_names(names: Seq<Seq<char>>, k: int) -> Result<
    Seq<Seq<char>>,
    Seq<char>,
>
    decreases names.len() - k,
{
    if k < 0 || k >= names.len() {
        Ok(Seq::empty())
    } else if table_value(global_flags(), names[k]) is Some {
        match read_flag_names(names, k + 1) {
            Ok(rest) => Ok(seq![names[k]] + rest),
            Err(e) => Err(e),
        }
    } else {
        Err(quoting("unknown global flag: "@, names[k]))
    }
}

/// The global flags, separated by bars.
pub open spec fn read_global_flags(s: Seq<char>) -> Result<KindModel, Seq<char>> {
    let t = skip_spaces(s);
    if t.len() == 0 {
        Ok(KindModel::DclGlobalFlags { flags: Seq::empty() })
    } else {
        match read_flag_names(split(t, '|'), 0) {
            Ok(flags) => Ok(KindModel::DclGlobalFlags { flags }),
            Err(e) => Err(e),
        }
    }
}

/// What an input or output declaration holds.
pub struct Ports {
    /// The interpolation mode.
    pub interpolation: Option<Seq<char>>,
    /// The system value.
    pub system_value: Option<Seq<char>>,
    /// The operands.
    pub operands: Seq<OperandModel>,
}

/// The parts of an input or output declaration, in any order, added to those
/// read before; an interpolation mode only where `input`.
pub open spec fn read_ports(s: Seq<char>, input: bool, p: Ports, ft: Spellings) -> Result<
    Ports,
    Seq<char>,
>
    decreases s.len(),
{
    let t = skip_spaces(s);
    if t.len() == 0 {
        Ok(p)
    } else {
        match read_port(t, input, p, ft) {
            Ok((p2, r)) => if r.len() < s.len() {
                read_ports(r, input, p2, ft)
            } else {
                Err("expected an operand"@)
            },
            Err(e) => Err(e),
        }
    }
}

/// One part of an input or output declaration.
pub open spec fn read_port(t: Seq<char>, input: bool, p: Ports, ft: Spellings) -> Read<Ports> {
    let interp = if input {
        read_tag(t, "interp"@)
    } else {
        Ok(None)
    };
    match interp {
        Err(e) => Err(e),
        Ok(Some((v, r))) => match read_enum(v, interpolations()) {
            Ok(n) => Ok((Ports { interpolation: Some(n), ..p }, r)),
            Err(e) => Err(e),
        },
        Ok(None) => match read_tag(t, "sv"@) {
            Err(e) => Err(e),
            Ok(Some((v, r))) => match read_system_value(v) {
                Ok(n) => Ok((Ports { system_value: Some(n), ..p }, r)),
                Err(e) => Err(e),
            },
            Ok(None) => match read_operand(t, ft) {
                Ok((op, r)) => Ok((Ports { operands: p.operands.push(op), ..p }, r)),
                Err(e) => Err(e),
            },
        },
    }
}

/// Nothing read of an input or output declaration.
pub open spec fn no_ports() -> Ports {
    Ports { interpolation: None, system_value: None, operands: Seq::empty() }
}

/// What a typed resource declaration holds.
pub struct Typed {
    /// The dimension.
    pub dimension: Seq<char>,
    /// The return types.
    pub types: Seq<ReturnType>,
    /// The operand.
    pub operand: OperandModel,
}

/// A typed resource: the dimension, the types in brackets and the operand, or
/// the operand and tags for the dimension and the types.
pub open spec fn read_typed(s: Seq<char>, ft: Spellings) -> Read<Typed> {
    let t = skip_spaces(s);
    let dim = token(t);
    if table_value(dimensions(), dim) is Some {
        let u = skip_spaces(after_token(t));
        if !at_char(u, '(') {
            Err(quoting("expected '(' at "@, u))
        } else {
            let v = u.skip(1);
            let n = span_until(v, ')', ')', ')') as int;
            if n >= v.len() {
                Err(quoting("expected ')' after "@, u))
            } else {
                match read_declared_types(v.take(n)) {
                    Ok(types) => match read_leading_operand(v.skip(n + 1), ft) {
                        Ok((operand, r)) => Ok((Typed { dimension: dim, types, operand }, r)),
                        Err(e) => Err(e),
                    },
                    Err(e) => Err(e),
                }
            }
        }
    } else {
        match read_operand(t, ft) {
            Ok((operand, r)) => match read_tag_enum(r, "dim"@, dimensions()) {
                Ok((dimension, r2)) => match read_required_tag(r2, "rt"@) {
                    Ok((inner, r3)) => match read_declared_types(inner) {
                        Ok(types) => Ok((Typed { dimension, types, operand }, r3)),
                        Err(e) => Err(e),
                    },
                    Err(e) => Err(e),
                },
                Err(e) => Err(e),
            },
            Err(e) => Err(e),
        }
    }
}

/// The four types as an array.
pub open spec fn four_types(t: Seq<ReturnType>) -> [ReturnType; 4] {
    [t[0], t[1], t[2], t[3]]
}

/// A typed resource.
pub open spec fn read_dcl_resource(s: Seq<char>, ft: Spellings) -> Result<KindModel, Seq<char>> {
    match read_typed(s, ft) {
        Ok((t, r)) => {
            let samples = if skip_spaces(r).len() == 0 {
                Ok((0nat, r))
            } else {
                read_tag_dec(r, "samples"@)
            };
            match samples {
                Ok((n, _)) => Ok(
                    KindModel::DclResource {
                        dimension: t.dimension,
                        sample_count: n as u32,
                        return_type: four_types(t.types),
                        operands: seq![t.operand],
                    },
                ),
                Err(e) => Err(e),
            }
        },
        Err(e) => Err(e),
    }
}

/// A typed unordered-access view.
pub open spec fn read_dcl_uav_typed(s: Seq<char>, ft: Spellings) -> Result<KindModel, Seq<char>> {
    match read_typed(s, ft) {
        Ok((t, r)) => match read_tag_hex(r, "flags"@) {
            Ok((f, _)) => Ok(
                KindModel::DclUavTyped {
                    dimension: t.dimension,
                    flags: f as u32,
                    return_type: four_types(t.types),
                    operands: seq![t.operand],
                },
            ),
            Err(e) => Err(e),
        },
        Err(e) => Err(e),
    }
}

/// A structured unordered-access view.
pub open spec fn read_dcl_uav_structured(s: Seq<char>, ft: Spellings) -> Result<
    KindModel,
    Seq<char>,
> {
    match read_leading_operand(s, ft) {
        Ok((op, r)) => match read_tag_dec(r, "stride"@) {
            Ok((stride, r2)) => match read_tag_hex(r2, "flags"@) {
                Ok((f, _)) => Ok(
                    KindModel::DclUavStructured {
                        flags: f as u32,
                        stride: stride as u32,
                        operands: seq![op],
                    },
                ),
                Err(e) => Err(e),
            },
            Err(e) => Err(e),
        },
        Err(e) => Err(e),
    }
}

/// The primitive a geometry shader takes.
pub open spec fn read_gs_input(s: Seq<char>) -> Result<KindModel, Seq<char>> {
    let tok = skip_spaces(s);
    match bracketed(tok, "patchlist("@) {
        Some(inner) => match read_dec(inner, 0xff) {
            Ok(n) => Ok(
                KindModel::DclGsInputPrimitive {
                    primitive: GsPrimitive::ControlPointPatch(n as u8),
                },
            ),
            Err(e) => Err(e),
        },
        None => match GsPrimitive::named(tok) {
            Some(p) => Ok(KindModel::DclGsInputPrimitive { primitive: p }),
            None => Err(quoting("unknown gs primitive: "@, tok)),
        },
    }
}

/// The topology a geometry shader emits.
pub open spec fn read_gs_topology(s: Seq<char>) -> Result<KindModel, Seq<char>> {
    let tok = skip_spaces(s);
    match GsOutputTopology::named(tok) {
        Some(t) => Ok(KindModel::DclGsOutputTopology { topology: t }),
        None => Err(quoting("unknown gs topology: "@, tok)),
    }
}

/// Numbers up to the closing brace.
pub open spec fn read_words(s: Seq<char>) -> Result<Seq<u32>, Seq<char>>
    decreases s.len(),
{
    let n = span_until(s, ',', '}', '}') as int;
    match read_dec(s.take(n), 0xffff_ffff) {
        Ok(v) => {
            let rest = s.skip(n);
            if starts_with(rest, ", "@) && rest.skip(2).len() < s.len() {
                match read_words(rest.skip(2)) {
                    Ok(vs) => Ok(seq![v as u32] + vs),
                    Err(e) => Err(e),
                }
            } else if at_char(rest, '}') {
                Ok(seq![v as u32])
            } else {
                Err("malformed list"@)
            }
        },
        Err(e) => Err(e),
    }
}

/// A list of numbers in braces.
pub open spec fn read_u32_list(s: Seq<char>) -> Result<Seq<u32>, Seq<char>> {
    if !at_char(s, '{') {
        Err("expected '{' for list"@)
    } else if at_char(s.skip(1), '}') {
        Ok(Seq::empty())
    } else {
        read_words(s.skip(1))
    }
}

/// A hexadecimal word of a row, behind spaces.
pub open spec fn read_row_word(s: Seq<char>) -> Read<u32> {
    let t = skip_spaces(s);
    let n = span_until(t, ' ', ',', '}') as int;
    match read_hex0x(t.take(n)) {
        Ok(v) => Ok((v as u32, t.skip(n))),
        Err(e) => Err(e),
    }
}

/// A row of four words.
pub open spec fn read_row(s: Seq<char>) -> Read<[u32; 4]> {
    match read_row_word(s) {
        Ok((a, s1)) => match read_row_word(s1) {
            Ok((b, s2)) => match read_row_word(s2) {
                Ok((c, s3)) => match read_row_word(s3) {
                    Ok((d, s4)) => Ok(([a, b, c, d], s4)),
                    Err(e) => Err(e),
                },
                Err(e) => Err(e),
            },
            Err(e) => Err(e),
        },
        Err(e) => Err(e),
    }
}

/// Rows up to the closing brace; `first` where none has been read yet.
pub open spec fn read_rows(s: Seq<char>, first: bool) -> Result<Seq<[u32; 4]>, Seq<char>>
    decreases s.len(),
{
    let t = skip_spaces(s);
    if at_char(t, '}') {
        Ok(Seq::empty())
    } else if !first && !at_char(t, ',') {
        Err("expected ',' between icb rows"@)
    } else {
        match read_row(
            if first {
                t
            } else {
                t.skip(1)
            },
        ) {
            Ok((row, r)) => if r.len() < s.len() {
                match read_rows(r, false) {
                    Ok(rows) => Ok(seq![row] + rows),
                    Err(e) => Err(e),
                }
            } else {
                Err("expected an icb row"@)
            },
            Err(e) => Err(e),
        }
    }
}

/// Words up to the closing brace.
pub open spec fn read_raw_words(s: Seq<char>) -> Result<Seq<u32>, Seq<char>>
    decreases s.len(),
{
    let t = skip_spaces(s);
    if at_char(t, '}') {
        Ok(Seq::empty())
    } else {
        let n = span_until(t, ' ', '}', '}') as int;
        match read_hex0x(t.take(n)) {
            Ok(v) => if t.skip(n).len() < s.len() {
                match read_raw_words(t.skip(n)) {
                    Ok(vs) => Ok(seq![v as u32] + vs),
                    Err(e) => Err(e),
                }
            } else {
                Err("expected a word"@)
            },
            Err(e) => Err(e),
        }
    }
}

/// A block of words in braces.
pub open spec fn read_raw_block(s: Seq<char>) -> Result<Seq<u32>, Seq<char>> {
    let t = skip_spaces(s);
    if at_char(t, '{') {
        read_raw_words(t.skip(1))
    } else {
        Err("expected '{' for raw payload block"@)
    }
}

/// The kind of a data block other than an immediate constant buffer.
pub open spec fn read_data_tag(s: Seq<char>) -> Result<CustomDataType, Seq<char>> {
    if s == "comment"@ {
        Ok(CustomDataType::Comment)
    } else if s == "debuginfo"@ {
        Ok(CustomDataType::DebugInfo)
    } else if s == "opaque"@ {
        Ok(CustomDataType::Opaque)
    } else {
        match bracketed(s, "other("@) {
            Some(v) => match read_dec(v, 0xffff_ffff) {
                Ok(n) => Ok(CustomDataType::Other(n as u32)),
                Err(e) => Err(e),
            },
            None => Err(quoting("unknown customdata subtype: "@, s)),
        }
    }
}

/// A data block.
pub open spec fn read_custom_data(s: Seq<char>) -> Result<KindModel, Seq<char>> {
    let t = skip_spaces(s);
    let tag = token(t);
    let rest = after_token(t);
    if tag == "icb"@ {
        let u = skip_spaces(rest);
        if at_char(u, '{') {
            match read_rows(u.skip(1), true) {
                Ok(values) => Ok(
                    KindModel::CustomData {
                        subtype: CustomDataType::ImmediateConstantBuffer,
                        values,
                        raw: Seq::empty(),
                        raw_dword_count: 2 + 4 * values.len(),
                    },
                ),
                Err(e) => Err(e),
            }
        } else {
            Err("expected '{' for icb"@)
        }
    } else {
        match read_data_tag(tag) {
            Ok(subtype) => match read_raw_block(rest) {
                Ok(raw) => Ok(
                    KindModel::CustomData {
                        subtype,
                        values: Seq::empty(),
                        raw,
                        raw_dword_count: 2 + raw.len(),
                    },
                ),
                Err(e) => Err(e),
            },
            Err(e) => Err(e),
        }
    }
}

/// What a declaration holds whose text is one number.
pub open spec fn read_count(op: Opcode, n: u32) -> KindModel {
    match op {
        Opcode::DclTemps => KindModel::DclTemps { count: n },
        Opcode::DclMaxOutputVertexCount => KindModel::DclMaxOutputVertexCount { count: n },
        Opcode::DclGsInstanceCount => KindModel::DclGsInstanceCount { count: n },
        Opcode::DclOutputControlPointCount => KindModel::DclOutputControlPointCount { count: n },
        Opcode::DclInputControlPointCount => KindModel::DclInputControlPointCount { count: n },
        Opcode::DclFunctionBody => KindModel::DclFunctionBody { index: n },
        _ => KindModel::DclHsForkPhaseInstanceCount { count: n },
    }
}

/// Whether the opcode declares one number.
pub open spec fn is_count(op: Opcode) -> bool {
    op == Opcode::DclTemps || op == Opcode::DclMaxOutputVertexCount || op
        == Opcode::DclGsInstanceCount || op == Opcode::DclOutputControlPointCount || op
        == Opcode::DclInputControlPointCount || op == Opcode::DclFunctionBody || op
        == Opcode::DclHsForkPhaseInstanceCount || op == Opcode::DclHsJoinPhaseInstanceCount
}

/// What a declaration of one operand and what follows it holds.
pub open spec fn read_operand_decl(op: Opcode, s: Seq<char>, ft: Spellings) -> Result<
    KindModel,
    Seq<char>,
> {
    match read_leading_operand(s, ft) {
        Err(e) => Err(e),
        Ok((op0, r)) => match op {
            Opcode::DclUnorderedAccessViewRaw => match read_tag_hex(r, "flags"@) {
                Ok((f, _)) => Ok(KindModel::DclUavRaw { flags: f as u32, operands: seq![op0] }),
                Err(e) => Err(e),
            },
            Opcode::DclResourceRaw => Ok(KindModel::DclResourceRaw { operands: seq![op0] }),
            Opcode::DclResourceStructured => match read_tag_dec(r, "stride"@) {
                Ok((n, _)) => Ok(
                    KindModel::DclResourceStructured { stride: n as u32, operands: seq![op0] },
                ),
                Err(e) => Err(e),
            },
            Opcode::DclIndexRange => match read_trailing_dec(r) {
                Ok(n) => Ok(KindModel::DclIndexRange { operands: seq![op0], count: n as u32 }),
                Err(e) => Err(e),
            },
            Opcode::DclSampler => match read_tag_enum(r, "mode"@, sampler_modes()) {
                Ok((mode, _)) => Ok(KindModel::DclSampler { mode, operands: seq![op0] }),
                Err(e) => Err(e),
            },
            _ => match read_tag_enum(r, "access"@, cb_access()) {
                Ok((access, _)) => Ok(
                    KindModel::DclConstantBuffer { access, operands: seq![op0] },
                ),
                Err(e) => Err(e),
            },
        },
    }
}

/// Whether the opcode declares one operand and what follows it.
pub open spec fn is_operand_decl(op: Opcode) -> bool {
    op == Opcode::DclUnorderedAccessViewRaw || op == Opcode::DclResourceRaw || op
        == Opcode::DclResourceStructured || op == Opcode::DclIndexRange || op == Opcode::DclSampler
        || op == Opcode::DclConstantBuffer
}

/// Three numbers behind spaces.
pub open spec fn read_three(s: Seq<char>) -> Result<(u32, u32, u32), Seq<char>> {
    match read_spaced_dec(s) {
        Ok((a, s1)) => match read_spaced_dec(s1) {
            Ok((b, s2)) => match read_spaced_dec(s2) {
                Ok((c, _)) => Ok((a as u32, b as u32, c as u32)),
                Err(e) => Err(e),
            },
            Err(e) => Err(e),
        },
        Err(e) => Err(e),
    }
}

/// What follows the mnemonic of an instruction with opcode `op`.
pub open spec fn read_kind(op: Opcode, s: Seq<char>, ft: Spellings) -> Result<
    KindModel,
    Seq<char>,
> {
    if is_count(op) {
        match read_trailing_dec(s) {
            Ok(n) => Ok(read_count(op, n as u32)),
            Err(e) => Err(e),
        }
    } else if is_operand_decl(op) {
        read_operand_decl(op, s, ft)
    } else {
        match op {
            Opcode::CustomData => read_custom_data(s),
            Opcode::DclGlobalFlags => read_global_flags(s),
            Opcode::DclInput
            | Opcode::DclInputSgv
            | Opcode::DclInputSiv
            | Opcode::DclInputPs
            | Opcode::DclInputPsSgv
            | Opcode::DclInputPsSiv => match read_ports(s, true, no_ports(), ft) {
                Ok(p) => Ok(
                    KindModel::DclInput {
                        interpolation: p.interpolation,
                        system_value: p.system_value,
                        operands: p.operands,
                    },
                ),
                Err(e) => Err(e),
            },
            Opcode::DclOutput | Opcode::DclOutputSgv | Opcode::DclOutputSiv => match read_ports(
                s,
                false,
                no_ports(),
                ft,
            ) {
                Ok(p) => Ok(
                    KindModel::DclOutput { system_value: p.system_value, operands: p.operands },
                ),
                Err(e) => Err(e),
            },
            Opcode::DclResource => read_dcl_resource(s, ft),
            Opcode::DclUnorderedAccessViewTyped => read_dcl_uav_typed(s, ft),
            Opcode::DclUnorderedAccessViewStructured => read_dcl_uav_structured(s, ft),
            Opcode::DclIndexableTemp => match read_three(s) {
                Ok((reg, size, components)) => Ok(
                    KindModel::DclIndexableTemp { reg, size, components },
                ),
                Err(e) => Err(e),
            },
            Opcode::DclGsInputPrimitive => read_gs_input(s),
            Opcode::DclGsOutputPrimitiveTopology => read_gs_topology(s),
            Opcode::DclTessDomain => match read_enum(skip_spaces(s), tess_domains()) {
                Ok(domain) => Ok(KindModel::DclTessDomain { domain }),
                Err(e) => Err(e),
            },
            Opcode::DclTessPartitioning => match read_enum(skip_spaces(s), tess_partitionings()) {
                Ok(partitioning) => Ok(KindModel::DclTessPartitioning { partitioning }),
                Err(e) => Err(e),
            },
            Opcode::DclTessOutputPrimitive => match read_enum(
                skip_spaces(s),
                tess_output_prims(),
            ) {
                Ok(primitive) => Ok(KindModel::DclTessOutputPrimitive { primitive }),
                Err(e) => Err(e),
            },
            Opcode::DclHsMaxTessFactor => match read_hex0x(skip_spaces(s)) {
                Ok(v) => Ok(KindModel::DclHsMaxTessFactor { value: v as u32 }),
                Err(e) => Err(e),
            },
            Opcode::DclThreadGroup => match read_three(s) {
                Ok((x, y, z)) => Ok(KindModel::DclThreadGroup { x, y, z }),
                Err(e) => Err(e),
            },
            Opcode::DclFunctionTable => match read_spaced_dec(s) {
                Ok((table_index, r)) => match read_u32_list(skip_spaces(r)) {
                    Ok(body_indices) => Ok(
                        KindModel::DclFunctionTable {
                            table_index: table_index as u32,
                            body_indices,
                        },
                    ),
                    Err(e) => Err(e),
                },
                Err(e) => Err(e),
            },
            Opcode::DclInterface => match read_spaced_dec(s) {
                Ok((interface_index, r)) => match read_spaced_dec(r) {
                    Ok((num_call_sites, r2)) => match read_u32_list(skip_spaces(r2)) {
                        Ok(table_indices) => Ok(
                            KindModel::DclInterface {
                                interface_index: interface_index as u32,
                                num_call_sites: num_call_sites as u32,
                                table_indices,
                            },
                        ),
                        Err(e) => Err(e),
                    },
                    Err(e) => Err(e),
                },
                Err(e) => Err(e),
            },
            Opcode::HsDecls
            | Opcode::HsControlPointPhase
            | Opcode::HsForkPhase
            | Opcode::HsJoinPhase => Ok(KindModel::HsPhase),
            _ => match read_operand_list(s, ft) {
                Ok(operands) => Ok(KindModel::Generic { operands }),
                Err(e) => Err(e),
            },
        }
    }
}

// ---------------------------------------------------------------------------
// Lines
// ---------------------------------------------------------------------------

/// One instruction.
#[verifier::opaque]
pub open spec fn read_instruction(line: Seq<char>, ft: Spellings) -> Result<
    InstructionModel,
    Seq<char>,
> {
    let (mnemonic, rest) = match split_once(line, ' ') {
        Some(parts) => parts,
        None => (line, Seq::empty()),
    };
    match read_mnemonic(mnemonic) {
        Ok((opcode, tail)) => match read_modifiers(
            no_modifiers(),
            modifier_parts(tail, 0, Seq::empty()),
            0,
        ) {
            Ok(mods) => match read_kind(opcode, rest, ft) {
                Ok(kind) => Ok(InstructionModel { opcode, mods, kind }),
                Err(e) => Err(e),
            },
            Err(e) => Err(e),
        },
        Err(e) => Err(e),
    }
}

/// The instructions on the lines from number `k` on.
pub open spec fn read_instructions(lines: Seq<Seq<char>>, k: int, ft: Spellings) -> Result<
    Seq<InstructionModel>,
    Seq<char>,
>
    decreases lines.len() - k,
{
    if k < 0 || k >= lines.len() {
        Ok(Seq::empty())
    } else {
        match read_instruction(lines[k], ft) {
            Ok(i) => match read_instructions(lines, k + 1, ft) {
                Ok(rest) => Ok(seq![i] + rest),
                Err(e) => Err(e),
            },
            Err(e) => Err(e),
        }
    }
}

/// What a profile line says.
pub struct Profile {
    /// The shader stage.
    pub shader_type: Seq<char>,
    /// The major version.
    pub major: u32,
    /// The minor version.
    pub minor: u32,
    /// The four-character code.
    pub fourcc: Seq<u8>,
}

/// The profile proper and the four-character code of a profile line.
pub open spec fn read_profile_parts(line: Seq<char>) -> Result<(Seq<char>, Seq<u8>), Seq<char>> {
    match split_once(line, ' ') {
        Some((p, rest)) => {
            let f = match strip_prefix(trim(rest), "fourcc="@) {
                Some(v) => v,
                None => trim(rest),
            };
            if encode_utf8(f).len() != 4 {
                Err(quoting("fourcc must be 4 bytes: "@, f))
            } else {
                Ok((p, encode_utf8(f)))
            }
        },
        None => Ok((line, shex_code())),
    }
}

/// A profile line.
#[verifier::opaque]
pub open spec fn read_profile(line: Seq<char>) -> Result<Profile, Seq<char>> {
    let body = match strip_prefix(line, "profile="@) {
        Some(b) => b,
        None => line,
    };
    match read_profile_parts(body) {
        Err(e) => Err(e),
        Ok((profile, fourcc)) => match split_once(profile, '_') {
            None => Err(quoting("malformed profile line: "@, body)),
            Some((st, rest)) => match split_once(rest, '_') {
                None => Err(quoting("malformed profile line: "@, body)),
                Some((maj, min)) => if table_value(shader_types(), st) is None {
                    Err(quoting("unknown shader type: "@, st))
                } else {
                    match parse_nat(maj, 10, 0xffff_ffff) {
                        None => Err(quoting("bad major version: "@, maj)),
                        Some(major) => match parse_nat(min, 10, 0xffff_ffff) {
                            None => Err(quoting("bad minor version: "@, min)),
                            Some(minor) => Ok(
                                Profile {
                                    shader_type: st,
                                    major: major as u32,
                                    minor: minor as u32,
                                    fourcc,
                                },
                            ),
                        },
                    }
                },
            },
        },
    }
}

/// The program on those lines.
pub open spec fn read_program(lines: Seq<Seq<char>>, ft: Spellings) -> Result<
    ProgramModel,
    Seq<char>,
> {
    if lines.len() == 0 {
        Err("empty input: missing profile line"@)
    } else {
        match read_profile(lines[0]) {
            Err(e) => Err(e),
            Ok(p) => match read_instructions(lines, 1, ft) {
                Err(e) => Err(e),
                Ok(instructions) => Ok(
                    ProgramModel {
                        shader_type: p.shader_type,
                        major_version: p.major,
                        minor_version: p.minor,
                        instructions,
                        fourcc: p.fourcc,
                    },
                ),
            },
        }
    }
}

/// The program that a text holds: its lines without comments, the empty ones
/// left out.
pub open spec fn parsed(text: Seq<char>, ft: Spellings) -> Result<ProgramModel, Seq<char>> {
    read_program(text_lines(text, true), ft)
}

} // verus!
