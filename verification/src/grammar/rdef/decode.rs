//! Reading resource definitions from their HLSL form.

use vstd::prelude::*;

use crate::chunks::rdef::{
    BindingModel, CBufferDef, CBufferModel, CBufferVariable, MemberDesc, MemberModel, RdefModel,
    ResourceBinding, ResourceDef, SLOT_UNUSED, TypeDesc, TypeModel, VAR_FLAG_USED, VariableModel,
    binding_models, cbuffer_models, is_sm5, is_sm5_version, lemma_type_model, member_models,
    variable_models,
};
use crate::floats::{FloatTable, Spellings};
use crate::grammar::rdef::hlsl::{
    bind_flags_from, copy_type, derived_binding_flags, derived_var_size, derived_var_size_of,
    dim_from_hlsl, dim_names, hlsl_type_name, hlsl_type_text, implied_flags, is_structured,
    is_texture, natural_or_zero, natural_size_of, packoffset_parse, parse_default,
    parse_hlsl_type, parse_name, read_bind_flags, read_default, read_name, read_packoffset,
    read_shape, read_u16, ret_from_hlsl, ret_names, round16, struct_size, struct_size_of,
    structured, texture, type_size, type_size_of,
};
use crate::grammar::rdef::kv::{
    find_key_from, first_of, hex_bytes, no_rdef, parse_rd11_words, read_hex_bytes, read_rd11_words,
    second_of, value_for, word_at_part, word_in, word_of,
};
use crate::grammar::rdef::usage::{program_reads, var_used};
use crate::grammar::shex::reading::word_of_int;
use crate::grammar::tables::table_value;
use crate::lines::{
    lines_of, split, split_at_first, split_chars, split_once, text_lines, trim, trimmed, views,
    words, words_of,
};
use crate::numerals::{parse_int, parse_signed, parse_unsigned};
use crate::shex::ir::{Program, ProgramModel};
use crate::text::{
    chars_of, ends_with, is_text, skip, span_until, span_until_any, starts_with, string_of,
    strip_last, strip_last_char, strip_prefix, strip_text, take,
};

verus! {

/// The flags of a variable whose use is still to be found out.
pub const DERIVE_USED: u32 = 0xFFFF_FFFF;

// ---------------------------------------------------------------------------
// State
// ---------------------------------------------------------------------------

/// The block that lines belong to.
#[derive(Clone, Copy, Debug, PartialEq, Eq, Structural)]
pub enum BlockKind {
    /// No block.
    Outside,
    /// The members of a struct.
    Struct,
    /// The variables of a constant buffer.
    Cbuffer,
}

/// What the first line of a struct says.
#[verifier::ext_equal]
pub struct StructHead {
    /// The name.
    pub name: Seq<char>,
    /// The class.
    pub class: u16,
    /// The base type.
    pub var_type: u16,
    /// The number of rows, where it is given.
    pub rows: Option<u16>,
    /// The number of columns, where it is given.
    pub cols: Option<u16>,
    /// The four words of shader model five, where they are given.
    pub sm5: Option<[u32; 4]>,
}

/// What has been read so far.
#[verifier::ext_equal]
pub struct HlslState {
    /// The definitions.
    pub rd: RdefModel,
    /// The struct types.
    pub structs: Seq<TypeModel>,
    /// The block that is open.
    pub block: BlockKind,
    /// The first line of the struct that is open.
    pub head: StructHead,
    /// The members of the struct that is open.
    pub members: Seq<MemberModel>,
    /// The buffers that structured bindings stand for.
    pub resource_defs: Seq<CBufferModel>,
    /// The order of the buffers, where it is given.
    pub order: Option<Seq<Seq<char>>>,
}

/// The first line of no struct.
pub open spec fn no_head() -> StructHead {
    StructHead { name: Seq::empty(), class: 0, var_type: 0, rows: None, cols: None, sm5: None }
}

/// Nothing read.
pub open spec fn no_state() -> HlslState {
    HlslState {
        rd: no_rdef(),
        structs: Seq::empty(),
        block: BlockKind::Outside,
        head: no_head(),
        members: Seq::empty(),
        resource_defs: Seq::empty(),
        order: None,
    }
}

/// The last of the first `n` structs that is called `name`.
pub open spec fn find_struct(ss: Seq<TypeModel>, n: int, name: Seq<char>) -> Option<TypeModel>
    decreases n,
{
    if n <= 0 {
        None
    } else if ss[n - 1].name == name {
        Some(ss[n - 1])
    } else {
        find_struct(ss, n - 1, name)
    }
}

/// The four words of shader model five that a type has where none are given.
pub open spec fn default_sm5(sm5: bool) -> Option<[u32; 4]> {
    if sm5 {
        Some([0u32, 0u32, 0u32, 0u32])
    } else {
        None
    }
}

/// The type that a spelling refers to: a struct, or a scalar, vector or matrix.
pub open spec fn resolved_type(
    tref: Seq<char>,
    row_major: bool,
    ss: Seq<TypeModel>,
    sm5: bool,
) -> Option<TypeModel> {
    match read_name(tref) {
        None => None,
        Some((core, elements)) => match find_struct(ss, ss.len() as int, core) {
            Some(t) => Some(TypeModel { elements, ..t }),
            None => match read_shape(core) {
                None => None,
                Some(sh) => {
                    let t = TypeModel {
                        class: if row_major && sh.class == 3 {
                            2
                        } else {
                            sh.class
                        },
                        var_type: sh.base,
                        rows: sh.rows,
                        columns: sh.cols,
                        elements: 0,
                        members: Seq::empty(),
                        sm5_extra: default_sm5(sm5),
                        name: Seq::empty(),
                    };
                    Some(
                        TypeModel {
                            elements,
                            name: match hlsl_type_text(t) {
                                Some(n) => n,
                                None => Seq::empty(),
                            },
                            ..t
                        },
                    )
                },
            },
        },
    }
}

/// Four hexadecimal words, separated by commas.
pub open spec fn read_hex4(s: Seq<char>) -> Option<[u32; 4]> {
    let p = split(s, ',');
    match (word_at_part(p, 0), word_at_part(p, 1), word_at_part(p, 2), word_at_part(p, 3)) {
        (Some(a), Some(b), Some(c), Some(d)) => Some([a, b, c, d]),
        _ => None,
    }
}

/// The value of `key` among the words from number `from` on.
pub open spec fn key_from(ws: Seq<Seq<char>>, from: int, key: Seq<char>) -> Option<Seq<char>> {
    value_for(ws, from, ws.len() as int, key)
}

/// The line without a semicolon at its end.
pub open spec fn without_semicolon(s: Seq<char>) -> Seq<char> {
    match strip_last(s, ';') {
        Some(t) => t,
        None => s,
    }
}

/// What a declaration begins with: whether `row_major`, the type, the name, its
/// array length, and the number of the word behind them.
pub struct Declarator {
    /// Whether a matrix goes by rows.
    pub row_major: bool,
    /// The type.
    pub tref: Seq<char>,
    /// The name.
    pub name: Seq<char>,
    /// The array length behind the name.
    pub elements: u16,
    /// The number of the next word.
    pub next: int,
}

/// What a declaration begins with.
pub open spec fn read_declarator(ws: Seq<Seq<char>>) -> Option<Declarator> {
    let row_major = ws.len() > 0 && ws[0] == "row_major"@;
    let at = if row_major {
        1int
    } else {
        0
    };
    if ws.len() < at + 2 {
        None
    } else {
        match read_name(ws[at + 1]) {
            None => None,
            Some((name, elements)) => Some(
                Declarator { row_major, tref: ws[at], name, elements, next: at + 2 },
            ),
        }
    }
}

/// The type of a declaration.
pub open spec fn declared_type(d: Declarator, ss: Seq<TypeModel>, sm5: bool) -> Option<TypeModel> {
    match resolved_type(d.tref, d.row_major, ss, sm5) {
        None => None,
        Some(t) => if d.elements > 0 {
            Some(TypeModel { elements: d.elements, ..t })
        } else {
            Some(t)
        },
    }
}

/// The type with other words of shader model five, where they are given.
pub open spec fn with_sm5(t: TypeModel, e: Option<[u32; 4]>) -> TypeModel {
    match e {
        Some(x) => TypeModel { sm5_extra: Some(x), ..t },
        None => t,
    }
}

/// The words of shader model five among the words from number `from` on.
pub open spec fn sm5_from(ws: Seq<Seq<char>>, from: int) -> Option<Option<[u32; 4]>> {
    match key_from(ws, from, "sm5"@) {
        None => Some(None),
        Some(v) => match read_hex4(v) {
            Some(e) => Some(Some(e)),
            None => None,
        },
    }
}

// ---------------------------------------------------------------------------
// Members
// ---------------------------------------------------------------------------

/// What follows the plus sign of the first word from number `k` on that begins
/// with one.
pub open spec fn plus_word(ws: Seq<Seq<char>>, k: int) -> Option<Seq<char>>
    decreases ws.len() - k,
{
    if k < 0 || k >= ws.len() {
        None
    } else {
        match strip_prefix(ws[k], "+"@) {
            Some(v) => Some(v),
            None => plus_word(ws, k + 1),
        }
    }
}

/// Where the next member begins, where it fits a word.
pub open spec fn next_offset(ms: Seq<MemberModel>) -> Option<u32> {
    if ms.len() == 0 {
        Some(0)
    } else {
        let e = ms.last().offset + natural_or_zero(ms.last().member_type);
        if e <= 0xffff_ffff {
            Some(e as u32)
        } else {
            None
        }
    }
}

/// The member on a line of a struct.
pub open spec fn read_member(
    line: Seq<char>,
    ms: Seq<MemberModel>,
    ss: Seq<TypeModel>,
    sm5: bool,
) -> Option<MemberModel> {
    let ws = words(without_semicolon(line));
    match read_declarator(ws) {
        None => None,
        Some(d) => {
            let offset = match plus_word(ws, d.next) {
                Some(v) => word_in(v, 10),
                None => next_offset(ms),
            };
            match (offset, declared_type(d, ss, sm5), sm5_from(ws, d.next)) {
                (Some(offset), Some(t), Some(e)) => Some(
                    MemberModel { name: d.name, member_type: with_sm5(t, e), offset },
                ),
                _ => None,
            }
        },
    }
}

/// The type that a struct's first line and members make.
pub open spec fn struct_type(h: StructHead, ms: Seq<MemberModel>, sm5: bool) -> TypeModel {
    TypeModel {
        class: h.class,
        var_type: h.var_type,
        rows: match h.rows {
            Some(r) => r,
            None => 1,
        },
        columns: match h.cols {
            Some(c) => c,
            None => (struct_size(ms) / 4) as u16,
        },
        elements: 0,
        members: ms,
        sm5_extra: match h.sm5 {
            Some(e) => Some(e),
            None => default_sm5(sm5),
        },
        name: h.name,
    }
}

// ---------------------------------------------------------------------------
// Variables
// ---------------------------------------------------------------------------

/// The flags that the last of the words `used` and `unused` from number `from`
/// up to number `n` stands for.
pub open spec fn used_word(ws: Seq<Seq<char>>, from: int, n: int) -> Option<u32>
    decreases n,
{
    if n <= from || n <= 0 {
        None
    } else if ws[n - 1] == "used"@ {
        Some(VAR_FLAG_USED)
    } else if ws[n - 1] == "unused"@ {
        Some(0)
    } else {
        used_word(ws, from, n - 1)
    }
}

/// The word behind the first `=` from number `k` on.
pub open spec fn initializer(ws: Seq<Seq<char>>, k: int) -> Option<Seq<char>>
    decreases ws.len() - k,
{
    if k < 0 || k >= ws.len() {
        None
    } else if ws[k] == "="@ {
        if k + 1 < ws.len() {
            Some(ws[k + 1])
        } else {
            None
        }
    } else {
        initializer(ws, k + 1)
    }
}

/// A slot range among the words from number `from` on.
pub open spec fn slots_from(ws: Seq<Seq<char>>, from: int, key: Seq<char>) -> Option<
    Option<(u32, u32)>,
> {
    match key_from(ws, from, key) {
        None => Some(None),
        Some(v) => match split_once(v, ',') {
            None => None,
            Some((a, b)) => match (parse_int(a, 0x7fff_ffff), word_in(b, 10)) {
                (Some(start), Some(size)) => Some(Some((word_of_int(start), size))),
                _ => None,
            },
        },
    }
}

/// The flags of a variable: as given, or still to be found out.
pub open spec fn flags_from(ws: Seq<Seq<char>>, from: int) -> Option<u32> {
    match key_from(ws, from, "vflags"@) {
        Some(v) => word_in(v, 16),
        None => match used_word(ws, from, ws.len() as int) {
            Some(f) => Some(f),
            None => Some(DERIVE_USED),
        },
    }
}

/// The size of a variable: as given, or that of its type.
pub open spec fn size_from(ws: Seq<Seq<char>>, from: int, t: TypeModel) -> Option<u32> {
    match key_from(ws, from, "size"@) {
        Some(v) => word_in(v, 10),
        None => match derived_var_size(t) {
            Some(s) => if s <= 0xffff_ffff {
                Some(s as u32)
            } else {
                None
            },
            None => None,
        },
    }
}

/// The default value of a variable: an initializer, or bytes, or none.
pub open spec fn default_from(
    ws: Seq<Seq<char>>,
    from: int,
    t: TypeModel,
    ft: Spellings,
) -> Option<Seq<u8>> {
    let raw = match key_from(ws, from, "default"@) {
        Some(h) => read_hex_bytes(h),
        None => Some(Seq::empty()),
    };
    match (raw, initializer(ws, from)) {
        (None, _) => None,
        (Some(b), None) => Some(b),
        (Some(_), Some(i)) => read_default(t, i, ft),
    }
}

/// What stands in brackets behind `packoffset`.
pub open spec fn pack_word(s: Seq<char>) -> Option<Seq<char>> {
    match strip_prefix(s, "packoffset("@) {
        Some(r) => Some(r.take(span_until(r, ')', ')', ')') as int)),
        None => None,
    }
}

/// A slot number, or that of no slot where shader model five wants one.
pub open spec fn slot_or(p: Option<u32>, sm5: bool, missing: u32) -> Option<u32> {
    match p {
        Some(x) => Some(x),
        None => if sm5 {
            Some(missing)
        } else {
            None
        },
    }
}

/// The variable on a line of a constant buffer.
pub open spec fn read_variable(
    line: Seq<char>,
    ss: Seq<TypeModel>,
    sm5: bool,
    ft: Spellings,
) -> Option<VariableModel> {
    let ws = words(without_semicolon(line));
    match read_declarator(ws) {
        None => None,
        Some(d) => if ws.len() < d.next + 2 {
            None
        } else {
            let from = d.next + 2;
            let offset = match pack_word(ws[d.next + 1]) {
                Some(p) => read_packoffset(p),
                None => None,
            };
            match (offset, declared_type(d, ss, sm5), sm5_from(ws, from)) {
                (Some(offset), Some(t0), Some(e)) => {
                    let t = with_sm5(t0, e);
                    match (
                        size_from(ws, from, t),
                        flags_from(ws, from),
                        slots_from(ws, from, "tex"@),
                        slots_from(ws, from, "samp"@),
                        default_from(ws, from, t, ft),
                    ) {
                        (
                            Some(size),
                            Some(flags),
                            Some(tex),
                            Some(samp),
                            Some(default_value),
                        ) => Some(
                            VariableModel {
                                name: d.name,
                                offset,
                                size,
                                flags,
                                var_type: t,
                                default_value,
                                texture_start: slot_or(first_of(tex), sm5, SLOT_UNUSED),
                                texture_size: slot_or(second_of(tex), sm5, 0),
                                sampler_start: slot_or(first_of(samp), sm5, SLOT_UNUSED),
                                sampler_size: slot_or(second_of(samp), sm5, 0),
                            },
                        ),
                        _ => None,
                    }
                },
                _ => None,
            }
        },
    }
}

// ---------------------------------------------------------------------------
// Bindings
// ---------------------------------------------------------------------------

/// Kind, dimension and return type that a type and a register class stand for.
pub open spec fn read_typespec(spec: Seq<char>, regclass: char) -> Option<(u32, u32, u32)> {
    let (stem, inner) = match split_once(spec, '<') {
        Some((s, r)) => (s, strip_last(r, '>')),
        None => (spec, None),
    };
    if split_once(spec, '<') is Some && inner is None {
        None
    } else if stem == "cbuffer"@ {
        Some((0, 0, 0))
    } else if stem == "tbuffer"@ {
        Some((1, 0, 0))
    } else if stem == "SamplerState"@ {
        Some((3, 0, 0))
    } else if stem == "StructuredBuffer"@ {
        Some((5, 0, 0))
    } else if stem == "RWStructuredBuffer"@ {
        Some((
            if regclass == 'u' {
                6
            } else {
                5
            },
            0,
            0,
        ))
    } else if stem == "ByteAddressBuffer"@ {
        Some((7, 0, 0))
    } else if stem == "RWByteAddressBuffer"@ {
        Some((8, 0, 0))
    } else if stem == "AppendStructuredBuffer"@ {
        Some((9, 0, 0))
    } else if stem == "ConsumeStructuredBuffer"@ {
        Some((10, 0, 0))
    } else {
        let (input, name) = match strip_prefix(stem, "RW"@) {
            Some(d) => (4u32, d),
            None => (2u32, stem),
        };
        match table_value(dim_names(), name) {
            None => None,
            Some(dim) => Some(
                (
                    input,
                    dim,
                    match inner {
                        Some(i) => match table_value(ret_names(), i) {
                            Some(r) => r,
                            None => 0,
                        },
                        None => 0,
                    },
                ),
            ),
        }
    }
}

/// The first word from number `k` on that begins with `register(`.
pub open spec fn register_word(ws: Seq<Seq<char>>, k: int) -> Option<Seq<char>>
    decreases ws.len() - k,
{
    if k < 0 || k >= ws.len() {
        None
    } else if starts_with(ws[k], "register("@) {
        Some(ws[k])
    } else {
        register_word(ws, k + 1)
    }
}

/// The class and the number of a register, given what stands in the brackets.
pub open spec fn read_register_name(s: Seq<char>) -> Option<(char, u32)> {
    if s.len() == 0 || s[0] > '\u{7f}' {
        None
    } else {
        match word_in(s.skip(1), 10) {
            Some(n) => Some((s[0], n)),
            None => None,
        }
    }
}

/// The class, the number and the count of a register word.
pub open spec fn read_register_word(s: Seq<char>) -> Option<(char, u32, u32)> {
    match strip_prefix(s, "register("@) {
        None => None,
        Some(r) => {
            let n = span_until(r, ')', ')', ')') as int;
            if n >= r.len() {
                None
            } else {
                let after = r.skip(n + 1);
                let count = match strip_prefix(after, "["@) {
                    Some(a) => match strip_last(a, ']') {
                        Some(c) => word_in(c, 10),
                        None => Some(1u32),
                    },
                    None => Some(1u32),
                };
                match (read_register_name(r.take(n)), count) {
                    (Some((class, slot)), Some(count)) => Some((class, slot, count)),
                    _ => None,
                }
            }
        },
    }
}

/// A number among the words from number `from` on, or `missing`.
pub open spec fn word_from(ws: Seq<Seq<char>>, from: int, key: Seq<char>, missing: u32) -> Option<
    u32,
> {
    match key_from(ws, from, key) {
        Some(v) => word_in(v, 10),
        None => Some(missing),
    }
}

/// The low word of a signed number.
pub open spec fn low_word(i: int) -> u32 {
    (i % 0x1_0000_0000) as u32
}

/// The number of samples of a binding: the stride of a structured buffer, none
/// at all for a texture, or a number.
pub open spec fn samples_from(ws: Seq<Seq<char>>, from: int, input_type: u32) -> Option<u32> {
    if is_structured(input_type) {
        word_from(ws, from, "stride"@, 0)
    } else if is_texture(input_type) {
        word_from(ws, from, "samples"@, 0xFFFF_FFFF)
    } else {
        match key_from(ws, from, "samples"@) {
            Some(v) => match parse_int(v, 0x7fff_ffff_ffff_ffff) {
                Some(i) => Some(low_word(i)),
                None => None,
            },
            None => Some(0),
        }
    }
}

/// The binding on a line.
pub open spec fn read_binding(line: Seq<char>) -> Option<BindingModel> {
    let ws = words(without_semicolon(line));
    if ws.len() < 2 {
        None
    } else {
        match register_word(ws, 2) {
            None => None,
            Some(rw) => match read_register_word(rw) {
                None => None,
                Some((class, slot, count)) => match read_typespec(ws[0], class) {
                    None => None,
                    Some((input_type, dim0, ret0)) => {
                        let st = is_structured(input_type);
                        match (
                            word_from(
                                ws,
                                2,
                                "dim"@,
                                if st {
                                    1
                                } else {
                                    dim0
                                },
                            ),
                            word_from(
                                ws,
                                2,
                                "ret"@,
                                if st {
                                    6
                                } else {
                                    ret0
                                },
                            ),
                            samples_from(ws, 2, input_type),
                        ) {
                            (Some(dimension), Some(return_type), Some(num_samples)) => {
                                let flags = match key_from(ws, 2, "flags"@) {
                                    Some(f) => read_bind_flags(f),
                                    None => Some(implied_flags(input_type, return_type)),
                                };
                                match flags {
                                    Some(flags) => Some(
                                        BindingModel {
                                            name: ws[1],
                                            input_type,
                                            return_type,
                                            dimension,
                                            num_samples,
                                            bind_point: slot,
                                            bind_count: count,
                                            flags,
                                        },
                                    ),
                                    None => None,
                                }
                            },
                            _ => None,
                        }
                    },
                },
            },
        }
    }
}

/// The buffer that a structured binding stands for.
pub open spec fn element_buffer(
    name: Seq<char>,
    spec: Seq<char>,
    ss: Seq<TypeModel>,
    sm5: bool,
) -> Option<CBufferModel> {
    match split_once(spec, '<') {
        None => None,
        Some((_, r)) => match strip_last(r, '>') {
            None => None,
            Some(elem) => match resolved_type(elem, false, ss, sm5) {
                None => None,
                Some(t) => if type_size(t) > 0xffff_ffff {
                    None
                } else {
                    let size = type_size(t) as u32;
                    Some(
                        CBufferModel {
                            name,
                            variables: seq![
                                VariableModel {
                                    name: "$Element"@,
                                    offset: 0,
                                    size,
                                    flags: VAR_FLAG_USED,
                                    var_type: t,
                                    default_value: Seq::empty(),
                                    texture_start: slot_or(None, sm5, SLOT_UNUSED),
                                    texture_size: slot_or(None, sm5, 0),
                                    sampler_start: slot_or(None, sm5, SLOT_UNUSED),
                                    sampler_size: slot_or(None, sm5, 0),
                                },
                            ],
                            size,
                            flags: 0,
                            cb_type: 3,
                        },
                    )
                },
            },
        },
    }
}

// ---------------------------------------------------------------------------
// Lines
// ---------------------------------------------------------------------------

/// `s` without braces at its end.
pub open spec fn without_braces(s: Seq<char>) -> Seq<char>
    decreases s.len(),
{
    if s.len() > 0 && s.last() == '{' {
        without_braces(s.drop_last())
    } else {
        s
    }
}

/// A number of at most sixteen bits among the words from number one on.
pub open spec fn u16_key(ws: Seq<Seq<char>>, key: Seq<char>) -> Option<Option<u16>> {
    match key_from(ws, 1, key) {
        None => Some(None),
        Some(v) => match read_u16(v) {
            Some(n) => Some(Some(n)),
            None => None,
        },
    }
}

/// `v`, or `missing`.
pub open spec fn or_u16(v: Option<u16>, missing: u16) -> u16 {
    match v {
        Some(x) => x,
        None => missing,
    }
}

/// The first line of a struct, behind its keyword.
pub open spec fn read_struct_head(rest: Seq<char>) -> Option<StructHead> {
    let ws = words(trim(without_braces(rest)));
    if ws.len() == 0 {
        None
    } else {
        match (
            u16_key(ws, "class"@),
            u16_key(ws, "vtype"@),
            u16_key(ws, "rows"@),
            u16_key(ws, "cols"@),
            sm5_from(ws, 1),
        ) {
            (Some(class), Some(vtype), Some(rows), Some(cols), Some(sm5)) => Some(
                StructHead {
                    name: ws[0],
                    class: or_u16(class, 5),
                    var_type: or_u16(vtype, 0),
                    rows,
                    cols,
                    sm5,
                },
            ),
            _ => None,
        }
    }
}

/// What stands in the brackets of the first word `register(..)` from number `k`
/// on.
pub open spec fn block_register(ws: Seq<Seq<char>>, k: int) -> Option<Seq<char>>
    decreases ws.len() - k,
{
    if k < 0 || k >= ws.len() {
        None
    } else {
        match crate::grammar::shex::reading::bracketed(ws[k], "register("@) {
            Some(r) => Some(r),
            None => block_register(ws, k + 1),
        }
    }
}

/// The binding of a constant buffer that its first line gives: none where it
/// gives no register.
pub open spec fn block_binding(ws: Seq<Seq<char>>) -> Option<Option<BindingModel>> {
    match block_register(ws, 1) {
        None => Some(None),
        Some(reg) => {
            let flags = match key_from(ws, 1, "flags"@) {
                Some(f) => read_bind_flags(f),
                None => Some(0u32),
            };
            match (read_register_name(reg), flags) {
                (Some((_, slot)), Some(flags)) => Some(
                    Some(
                        BindingModel {
                            name: ws[0],
                            input_type: 0,
                            return_type: 0,
                            dimension: 0,
                            num_samples: 0,
                            bind_point: slot,
                            bind_count: 1,
                            flags,
                        },
                    ),
                ),
                _ => None,
            }
        },
    }
}

/// The buffer that the first line of a constant buffer begins.
pub open spec fn block_buffer(ws: Seq<Seq<char>>) -> Option<CBufferModel> {
    let flags = match key_from(ws, 1, "cbflags"@) {
        Some(f) => word_in(f, 16),
        None => Some(0u32),
    };
    match (flags, word_from(ws, 1, "kind"@, 0)) {
        (Some(flags), Some(cb_type)) => Some(
            CBufferModel { name: ws[0], variables: Seq::empty(), size: 0, flags, cb_type },
        ),
        _ => None,
    }
}

/// The definitions with a binding more.
pub open spec fn push_binding(rd: RdefModel, b: BindingModel) -> RdefModel {
    RdefModel { bindings: rd.bindings.push(b), ..rd }
}

/// What has been read with the first line of a constant buffer.
pub open spec fn open_cbuffer(st: HlslState, rest: Seq<char>) -> Option<HlslState> {
    let ws = words(trim(without_braces(rest)));
    if ws.len() == 0 {
        None
    } else {
        match (block_binding(ws), block_buffer(ws)) {
            (Some(b), Some(c)) => {
                let rd = match b {
                    Some(b) => push_binding(st.rd, b),
                    None => st.rd,
                };
                Some(
                    HlslState {
                        rd: RdefModel { constant_buffers: rd.constant_buffers.push(c), ..rd },
                        block: BlockKind::Cbuffer,
                        ..st
                    },
                )
            },
            _ => None,
        }
    }
}

/// What has been read with a binding's line; where `merged`, a structured
/// binding brings its buffer.
pub open spec fn add_binding(st: HlslState, line: Seq<char>, merged: bool) -> Option<HlslState> {
    match read_binding(line) {
        None => None,
        Some(b) => {
            let st2 = HlslState { rd: push_binding(st.rd, b), ..st };
            if merged && is_structured(b.input_type) {
                let ws = words(line);
                if ws.len() == 0 {
                    None
                } else {
                    match element_buffer(
                        b.name,
                        ws[0],
                        st.structs,
                        is_sm5_version(st.rd.target_version),
                    ) {
                        Some(c) => Some(
                            HlslState { resource_defs: st.resource_defs.push(c), ..st2 },
                        ),
                        None => None,
                    }
                }
            } else {
                Some(st2)
            }
        },
    }
}

/// What has been read with a line outside blocks.
pub open spec fn outside_line(st: HlslState, line: Seq<char>, merged: bool) -> Option<HlslState> {
    let (head, rest) = match split_once(line, ' ') {
        Some(p) => p,
        None => (line, Seq::empty()),
    };
    if head == "target"@ {
        match word_in(trim(rest), 16) {
            Some(v) => Some(
                HlslState { rd: RdefModel { target_version: v, ..st.rd }, ..st },
            ),
            None => None,
        }
    } else if head == "flags"@ {
        match word_in(trim(rest), 16) {
            Some(v) => Some(HlslState { rd: RdefModel { compile_flags: v, ..st.rd }, ..st }),
            None => None,
        }
    } else if head == "cborder"@ {
        Some(HlslState { order: Some(words(rest)), ..st })
    } else if head == "creator"@ {
        Some(HlslState { rd: RdefModel { creator: rest, ..st.rd }, ..st })
    } else if head == "rd11"@ {
        match read_rd11_words(words(rest)) {
            Some(e) => Some(HlslState { rd: RdefModel { rd11_extra: Some(e), ..st.rd }, ..st }),
            None => None,
        }
    } else if head == "struct"@ {
        match read_struct_head(rest) {
            Some(h) => Some(
                HlslState { block: BlockKind::Struct, head: h, members: Seq::empty(), ..st },
            ),
            None => None,
        }
    } else if head == "cbuffer"@ && ends_with(line, "{"@) {
        open_cbuffer(st, rest)
    } else if head == "cbuffer"@ {
        match read_binding(line) {
            Some(b) => Some(HlslState { rd: push_binding(st.rd, b), ..st }),
            None => None,
        }
    } else {
        add_binding(st, line, merged)
    }
}

/// What has been read with the end of a block.
pub open spec fn close_block(st: HlslState) -> Option<HlslState> {
    match st.block {
        BlockKind::Outside => None,
        BlockKind::Struct => Some(
            HlslState {
                structs: st.structs.push(
                    struct_type(st.head, st.members, is_sm5_version(st.rd.target_version)),
                ),
                block: BlockKind::Outside,
                head: no_head(),
                members: Seq::empty(),
                ..st
            },
        ),
        BlockKind::Cbuffer => Some(HlslState { block: BlockKind::Outside, ..st }),
    }
}

/// What has been read with the line.
pub open spec fn hlsl_line(
    st: HlslState,
    line: Seq<char>,
    merged: bool,
    ft: Spellings,
) -> Option<HlslState> {
    let sm5 = is_sm5_version(st.rd.target_version);
    if line == "}"@ || line == "};"@ {
        close_block(st)
    } else {
        match st.block {
            BlockKind::Struct => match read_member(line, st.members, st.structs, sm5) {
                Some(m) => Some(HlslState { members: st.members.push(m), ..st }),
                None => None,
            },
            BlockKind::Cbuffer => match read_variable(line, st.structs, sm5, ft) {
                Some(v) => match crate::grammar::rdef::kv::add_var(st.rd, v) {
                    Some(rd) => Some(HlslState { rd, ..st }),
                    None => None,
                },
                None => None,
            },
            BlockKind::Outside => outside_line(st, line, merged),
        }
    }
}

/// What has been read with the lines from number `k` on.
pub open spec fn hlsl_lines(
    st: HlslState,
    ls: Seq<Seq<char>>,
    k: int,
    merged: bool,
    ft: Spellings,
) -> Option<HlslState>
    decreases ls.len() - k,
{
    if k < 0 || k >= ls.len() {
        Some(st)
    } else {
        match hlsl_line(st, ls[k], merged, ft) {
            Some(st2) => hlsl_lines(st2, ls, k + 1, merged, ft),
            None => None,
        }
    }
}

/// Whether the line begins a constant buffer without a register.
pub open spec fn is_bare_block(line: Seq<char>) -> bool {
    starts_with(line, "cbuffer "@) && ends_with(line, "{"@) && !crate::floats::holds(
        line,
        ": register("@,
    )
}

/// Whether every constant buffer of the text has its register at its head.
pub open spec fn is_merged(ls: Seq<Seq<char>>) -> bool {
    forall|k: int| 0 <= k < ls.len() ==> !is_bare_block(#[trigger] ls[k])
}

// ---------------------------------------------------------------------------
// Completion
// ---------------------------------------------------------------------------

/// The number of the first name that is `name`, from number `k` on.
pub open spec fn position(names: Seq<Seq<char>>, name: Seq<char>, k: int) -> Option<int>
    decreases names.len() - k,
{
    if k < 0 || k >= names.len() {
        None
    } else if names[k] == name {
        Some(k)
    } else {
        position(names, name, k + 1)
    }
}

/// Those of the first `n` buffers whose name has the position `p`.
pub open spec fn at_position(
    cs: Seq<CBufferModel>,
    names: Seq<Seq<char>>,
    p: Option<int>,
    n: int,
) -> Seq<CBufferModel>
    decreases n,
{
    if n <= 0 {
        Seq::empty()
    } else {
        let before = at_position(cs, names, p, n - 1);
        if position(names, cs[n - 1].name, 0) == p {
            before.push(cs[n - 1])
        } else {
            before
        }
    }
}

/// The buffers whose names have the first `k` positions, in that order.
pub open spec fn in_order(cs: Seq<CBufferModel>, names: Seq<Seq<char>>, k: int) -> Seq<
    CBufferModel,
>
    decreases k,
{
    if k <= 0 {
        Seq::empty()
    } else {
        in_order(cs, names, k - 1) + at_position(cs, names, Some(k - 1), cs.len() as int)
    }
}

/// The buffers in the order of the names, those not named last.
pub open spec fn ordered(cs: Seq<CBufferModel>, order: Option<Seq<Seq<char>>>) -> Seq<
    CBufferModel,
> {
    match order {
        None => cs,
        Some(names) => in_order(cs, names, names.len() as int) + at_position(
            cs,
            names,
            None,
            cs.len() as int,
        ),
    }
}

/// The end of the last of the first `n` variables.
pub open spec fn variables_end(vs: Seq<VariableModel>, n: int) -> nat
    decreases n,
{
    if n <= 0 {
        0
    } else {
        let before = variables_end(vs, n - 1);
        let e = (vs[n - 1].offset + vs[n - 1].size) as nat;
        if e > before {
            e
        } else {
            before
        }
    }
}

/// The size of a buffer: the end of its variables, in whole registers where it
/// is a plain one.
pub open spec fn buffer_size(c: CBufferModel) -> nat {
    let e = variables_end(c.variables, c.variables.len() as int);
    if c.cb_type == 0 {
        round16(e)
    } else {
        e
    }
}

/// The register of the last of the first `n` bindings of a constant buffer with
/// that name.
pub open spec fn register_of(bs: Seq<BindingModel>, name: Seq<char>, n: int) -> Option<u32>
    decreases n,
{
    if n <= 0 {
        None
    } else if bs[n - 1].input_type == 0 && bs[n - 1].name == name {
        Some(bs[n - 1].bind_point)
    } else {
        register_of(bs, name, n - 1)
    }
}

/// Whether the program reads the variable of a buffer in that register.
pub open spec fn variable_used(
    p: Option<ProgramModel>,
    reg: Option<u32>,
    offset: u32,
    size: u32,
) -> bool {
    match (p, reg) {
        (Some(p), Some(r)) => program_reads(p, r, offset, size),
        _ => false,
    }
}

/// The variable with its flags found out.
pub open spec fn completed_variable(
    v: VariableModel,
    p: Option<ProgramModel>,
    reg: Option<u32>,
) -> VariableModel {
    if v.flags == DERIVE_USED {
        VariableModel {
            flags: if variable_used(p, reg, v.offset, v.size) {
                VAR_FLAG_USED
            } else {
                0
            },
            ..v
        }
    } else {
        v
    }
}

/// The buffer with its size and its variables' flags found out.
pub open spec fn completed_buffer(
    c: CBufferModel,
    bs: Seq<BindingModel>,
    p: Option<ProgramModel>,
) -> CBufferModel {
    let reg = register_of(bs, c.name, bs.len() as int);
    CBufferModel {
        size: buffer_size(c) as u32,
        variables: Seq::new(
            c.variables.len(),
            |i: int| completed_variable(c.variables[i], p, reg),
        ),
        ..c
    }
}

/// The first buffer called `name`, from number `k` on.
pub open spec fn find_buffer(cs: Seq<CBufferModel>, name: Seq<char>, k: int) -> Option<CBufferModel>
    decreases cs.len() - k,
{
    if k < 0 || k >= cs.len() {
        None
    } else if cs[k].name == name {
        Some(cs[k])
    } else {
        find_buffer(cs, name, k + 1)
    }
}

/// The stride of a structured binding: the size of its buffer's first variable.
pub open spec fn binding_stride(cs: Seq<CBufferModel>, b: BindingModel) -> nat {
    match find_buffer(cs, b.name, 0) {
        Some(c) => if c.variables.len() > 0 {
            type_size(c.variables[0].var_type)
        } else {
            0
        },
        None => 0,
    }
}

/// Whether the stride of the binding is still to be found out.
pub open spec fn wants_stride(b: BindingModel) -> bool {
    is_structured(b.input_type) && b.num_samples == 0
}

/// The binding with its stride found out.
pub open spec fn completed_binding(cs: Seq<CBufferModel>, b: BindingModel) -> BindingModel {
    if wants_stride(b) {
        BindingModel { num_samples: binding_stride(cs, b) as u32, ..b }
    } else {
        b
    }
}

/// All buffers in their order.
pub open spec fn all_buffers(st: HlslState) -> Seq<CBufferModel> {
    ordered(st.rd.constant_buffers + st.resource_defs, st.order)
}

/// Whether every size that is to be found out fits a word.
pub open spec fn sizes_fit(st: HlslState) -> bool {
    let cs = all_buffers(st);
    &&& forall|i: int| 0 <= i < cs.len() ==> buffer_size(#[trigger] cs[i]) <= 0xffff_ffff
    &&& forall|i: int|
        0 <= i < st.rd.bindings.len() && wants_stride(#[trigger] st.rd.bindings[i])
            ==> binding_stride(cs, st.rd.bindings[i]) <= 0xffff_ffff
}

/// The definitions when all has been read.
pub open spec fn completed(st: HlslState, p: Option<ProgramModel>) -> Option<RdefModel> {
    let cs = all_buffers(st);
    let bs = st.rd.bindings;
    if sizes_fit(st) {
        Some(
            RdefModel {
                constant_buffers: Seq::new(cs.len(), |i: int| completed_buffer(cs[i], bs, p)),
                bindings: Seq::new(bs.len(), |i: int| completed_binding(cs, bs[i])),
                ..st.rd
            },
        )
    } else {
        None
    }
}

/// The definitions on those lines.
pub open spec fn hlsl_of_lines(
    ls: Seq<Seq<char>>,
    p: Option<ProgramModel>,
    ft: Spellings,
) -> Option<RdefModel> {
    match hlsl_lines(no_state(), ls, 0, is_merged(ls), ft) {
        Some(st) => completed(st, p),
        None => None,
    }
}

/// The definitions that a text in HLSL form holds.
pub open spec fn hlsl_parsed(text: Seq<char>, p: Option<ProgramModel>, ft: Spellings) -> Option<
    RdefModel,
> {
    hlsl_of_lines(text_lines(text, false), p, ft)
}

// ---------------------------------------------------------------------------
// Reading
// ---------------------------------------------------------------------------

/// What the first line of a struct says.
struct HeadParts {
    name: String,
    class: u16,
    var_type: u16,
    rows: Option<u16>,
    cols: Option<u16>,
    sm5: Option<[u32; 4]>,
}

impl HeadParts {
    spec fn model(self) -> StructHead {
        StructHead {
            name: self.name@,
            class: self.class,
            var_type: self.var_type,
            rows: self.rows,
            cols: self.cols,
            sm5: self.sm5,
        }
    }

    fn none() -> (r: HeadParts)
        ensures
            r.model() == no_head(),
    {
        HeadParts {
            name: String::new(),
            class: 0,
            var_type: 0,
            rows: None,
            cols: None,
            sm5: None,
        }
    }
}

/// The characters of a list of strings.
spec fn string_views(v: Seq<String>) -> Seq<Seq<char>> {
    Seq::new(v.len(), |i: int| v[i]@)
}

/// The models of a list of types.
spec fn type_models(v: Seq<TypeDesc>) -> Seq<TypeModel> {
    Seq::new(v.len(), |i: int| v[i].model())
}

/// What has been read so far.
struct Reader {
    rd: ResourceDef,
    structs: Vec<TypeDesc>,
    block: BlockKind,
    head: HeadParts,
    members: Vec<MemberDesc>,
    resource_defs: Vec<CBufferDef>,
    order: Option<Vec<String>>,
}

impl Reader {
    spec fn model(self) -> HlslState {
        HlslState {
            rd: self.rd.model(),
            structs: type_models(self.structs@),
            block: self.block,
            head: self.head.model(),
            members: member_models(self.members@),
            resource_defs: cbuffer_models(self.resource_defs@),
            order: match self.order {
                Some(o) => Some(string_views(o@)),
                None => None,
            },
        }
    }
}

/// The type with that array length and those words of shader model five.
fn retype(t: TypeDesc, elements: u16) -> (r: TypeDesc)
    ensures
        r.model() == (TypeModel { elements, ..t.model() }),
{
    let r = TypeDesc {
        class: t.class,
        var_type: t.var_type,
        rows: t.rows,
        columns: t.columns,
        elements,
        members: t.members,
        sm5_extra: t.sm5_extra,
        name: t.name,
    };
    proof {
        lemma_type_model(r);
        lemma_type_model(t);
    }
    r
}

fn with_sm5_words(t: TypeDesc, e: Option<[u32; 4]>) -> (r: TypeDesc)
    ensures
        r.model() == with_sm5(t.model(), e),
{
    match e {
        None => t,
        Some(x) => {
            let r = TypeDesc {
                class: t.class,
                var_type: t.var_type,
                rows: t.rows,
                columns: t.columns,
                elements: t.elements,
                members: t.members,
                sm5_extra: Some(x),
                name: t.name,
            };
            proof {
                lemma_type_model(r);
                lemma_type_model(t);
            }
            r
        },
    }
}

/// The type that a spelling refers to.
fn resolve_type(tref: &[char], row_major: bool, structs: &Vec<TypeDesc>, sm5: bool) -> (r: Option<
    TypeDesc,
>)
    ensures
        match r {
            Some(t) => resolved_type(tref@, row_major, type_models(structs@), sm5) == Some(
                t.model(),
            ),
            None => resolved_type(tref@, row_major, type_models(structs@), sm5) is None,
        },
{
    let ghost ss = type_models(structs@);
    let (core, elements) = match parse_name(tref) {
        Some(p) => p,
        None => {
            return None;
        },
    };
    let mut n: usize = structs.len();
    while n > 0
        invariant
            ss == type_models(structs@),
            n <= structs.len(),
            read_name(tref@) == Some((core@, elements)),
            find_struct(ss, ss.len() as int, core@) == find_struct(ss, n as int, core@),
        decreases n,
    {
        assert(ss[n - 1] == structs@[n - 1].model());
        if is_text(core, structs[n - 1].name.as_str()) {
            return Some(retype(copy_type(&structs[n - 1]), elements));
        }
        n -= 1;
    }
    match parse_hlsl_type(core) {
        None => None,
        Some(sh) => {
            let class: u16 = if row_major && sh.class == 3 { 2 } else { sh.class };
            let sm5_extra = if sm5 { Some([0u32, 0u32, 0u32, 0u32]) } else { None };
            let plain = TypeDesc {
                class,
                var_type: sh.base,
                rows: sh.rows,
                columns: sh.cols,
                elements: 0,
                members: Vec::new(),
                sm5_extra,
                name: String::new(),
            };
            proof {
                lemma_type_model(plain);
                assert(member_models(plain.members@) =~= Seq::empty());
            }
            let name = match hlsl_type_name(&plain) {
                Some(n) => n,
                None => String::new(),
            };
            let t = TypeDesc {
                class,
                var_type: sh.base,
                rows: sh.rows,
                columns: sh.cols,
                elements,
                members: Vec::new(),
                sm5_extra,
                name,
            };
            proof {
                lemma_type_model(t);
                assert(member_models(t.members@) =~= Seq::empty());
            }
            Some(t)
        },
    }
}

fn hex_part_at(parts: &Vec<&[char]>, k: usize) -> (r: Option<u32>)
    ensures
        r == word_at_part(views(parts@), k as int),
{
    if k < parts.len() {
        word_of(parts[k], 16)
    } else {
        None
    }
}

fn parse_sm5(s: &[char]) -> (r: Option<[u32; 4]>)
    ensures
        r == read_hex4(s@),
{
    let p = split_chars(s, ',');
    match (hex_part_at(&p, 0), hex_part_at(&p, 1), hex_part_at(&p, 2), hex_part_at(&p, 3)) {
        (Some(a), Some(b), Some(c), Some(d)) => Some([a, b, c, d]),
        _ => None,
    }
}

fn sm5_words(ws: &Vec<&[char]>, from: usize) -> (r: Option<Option<[u32; 4]>>)
    ensures
        r == sm5_from(views(ws@), from as int),
{
    assert(views(ws@).len() == ws@.len());
    match find_key_from(ws, from, "sm5") {
        None => Some(None),
        Some(v) => match parse_sm5(v) {
            Some(e) => Some(Some(e)),
            None => None,
        },
    }
}

fn strip_semicolon<'a>(s: &'a [char]) -> (r: &'a [char])
    ensures
        r@ == without_semicolon(s@),
{
    match strip_last_char(s, ';') {
        Some(t) => t,
        None => s,
    }
}

/// What a declaration begins with.
struct DeclParts<'a> {
    row_major: bool,
    tref: &'a [char],
    name: &'a [char],
    elements: u16,
    next: usize,
}

impl<'a> DeclParts<'a> {
    spec fn model(self) -> Declarator {
        Declarator {
            row_major: self.row_major,
            tref: self.tref@,
            name: self.name@,
            elements: self.elements,
            next: self.next as int,
        }
    }
}

fn parse_declarator<'a>(ws: &Vec<&'a [char]>) -> (r: Option<DeclParts<'a>>)
    ensures
        match r {
            Some(d) => read_declarator(views(ws@)) == Some(d.model()) && d.next <= ws@.len(),
            None => read_declarator(views(ws@)) is None,
        },
{
    let ghost m = views(ws@);
    let row_major = ws.len() > 0 && is_text(ws[0], "row_major");
    let at: usize = if row_major { 1 } else { 0 };
    if ws.len() < at + 2 {
        return None;
    }
    assert(m[at as int] == ws@[at as int]@);
    assert(m[at as int + 1] == ws@[at as int + 1]@);
    match parse_name(ws[at + 1]) {
        None => None,
        Some((name, elements)) => Some(
            DeclParts { row_major, tref: ws[at], name, elements, next: at + 2 },
        ),
    }
}

fn type_of_declaration(d: &DeclParts<'_>, structs: &Vec<TypeDesc>, sm5: bool) -> (r: Option<
    TypeDesc,
>)
    ensures
        match r {
            Some(t) => declared_type(d.model(), type_models(structs@), sm5) == Some(t.model()),
            None => declared_type(d.model(), type_models(structs@), sm5) is None,
        },
{
    match resolve_type(d.tref, d.row_major, structs, sm5) {
        None => None,
        Some(t) => {
            if d.elements > 0 {
                Some(retype(t, d.elements))
            } else {
                Some(t)
            }
        },
    }
}

fn find_plus<'a>(ws: &Vec<&'a [char]>, from: usize) -> (r: Option<&'a [char]>)
    ensures
        match r {
            Some(v) => plus_word(views(ws@), from as int) == Some(v@),
            None => plus_word(views(ws@), from as int) is None,
        },
{
    let ghost m = views(ws@);
    let mut k: usize = from;
    while k < ws.len()
        invariant
            m == views(ws@),
            plus_word(m, from as int) == plus_word(m, k as int),
        decreases ws.len() - k,
    {
        assert(m[k as int] == ws@[k as int]@);
        match strip_text(ws[k], "+") {
            Some(v) => {
                return Some(v);
            },
            None => {},
        }
        k += 1;
    }
    None
}

fn offset_behind(members: &Vec<MemberDesc>) -> (r: Option<u32>)
    ensures
        r == next_offset(member_models(members@)),
{
    let ghost ms = member_models(members@);
    if members.len() == 0 {
        return Some(0);
    }
    let last = &members[members.len() - 1];
    assert(ms.last() == last.model());
    let n: u64 = match natural_size_of(&last.member_type) {
        Some(s) => s,
        None => 0,
    };
    let e: u64 = last.offset as u64 + n;
    if e <= 0xffff_ffff {
        Some(e as u32)
    } else {
        None
    }
}

/// The member on a line of a struct.
fn parse_member(line: &[char], members: &Vec<MemberDesc>, structs: &Vec<TypeDesc>, sm5: bool) -> (r:
    Option<MemberDesc>)
    ensures
        match r {
            Some(m) => read_member(
                line@,
                member_models(members@),
                type_models(structs@),
                sm5,
            ) == Some(m.model()),
            None => read_member(line@, member_models(members@), type_models(structs@), sm5) is None,
        },
{
    let ws = words_of(strip_semicolon(line));
    let d = match parse_declarator(&ws) {
        Some(d) => d,
        None => {
            return None;
        },
    };
    let offset = match find_plus(&ws, d.next) {
        Some(v) => word_of(v, 10),
        None => offset_behind(members),
    };
    match (offset, type_of_declaration(&d, structs, sm5), sm5_words(&ws, d.next)) {
        (Some(offset), Some(t), Some(e)) => Some(
            MemberDesc { name: string_of(d.name), member_type: with_sm5_words(t, e), offset },
        ),
        _ => None,
    }
}

fn find_used(ws: &Vec<&[char]>, from: usize) -> (r: Option<u32>)
    ensures
        r == used_word(views(ws@), from as int, ws@.len() as int),
{
    let ghost m = views(ws@);
    let mut n: usize = ws.len();
    while n > from
        invariant
            m == views(ws@),
            n <= ws.len(),
            used_word(m, from as int, ws@.len() as int) == used_word(m, from as int, n as int),
        decreases n,
    {
        assert(m[n - 1] == ws@[n - 1]@);
        if is_text(ws[n - 1], "used") {
            return Some(VAR_FLAG_USED);
        }
        if is_text(ws[n - 1], "unused") {
            return Some(0);
        }
        n -= 1;
    }
    None
}

fn find_initializer<'a>(ws: &Vec<&'a [char]>, from: usize) -> (r: Option<&'a [char]>)
    ensures
        match r {
            Some(v) => initializer(views(ws@), from as int) == Some(v@),
            None => initializer(views(ws@), from as int) is None,
        },
{
    let ghost m = views(ws@);
    let mut k: usize = from;
    while k < ws.len()
        invariant
            m == views(ws@),
            initializer(m, from as int) == initializer(m, k as int),
        decreases ws.len() - k,
    {
        assert(m[k as int] == ws@[k as int]@);
        if is_text(ws[k], "=") {
            if k + 1 < ws.len() {
                assert(m[k as int + 1] == ws@[k as int + 1]@);
                return Some(ws[k + 1]);
            }
            return None;
        }
        k += 1;
    }
    None
}

fn slot_range(ws: &Vec<&[char]>, from: usize, key: &str) -> (r: Option<Option<(u32, u32)>>)
    ensures
        r == slots_from(views(ws@), from as int, key@),
{
    assert(views(ws@).len() == ws@.len());
    match find_key_from(ws, from, key) {
        None => Some(None),
        Some(v) => match split_at_first(v, ',') {
            None => None,
            Some((a, b)) => match (parse_signed(a, 0x7fff_ffff), word_of(b, 10)) {
                (Some(i), Some(size)) => {
                    let start: u32 = if i < 0 { (i + 0x1_0000_0000) as u32 } else { i as u32 };
                    Some(Some((start, size)))
                },
                _ => None,
            },
        },
    }
}

fn variable_flags(ws: &Vec<&[char]>, from: usize) -> (r: Option<u32>)
    ensures
        r == flags_from(views(ws@), from as int),
{
    assert(views(ws@).len() == ws@.len());
    match find_key_from(ws, from, "vflags") {
        Some(v) => word_of(v, 16),
        None => match find_used(ws, from) {
            Some(f) => Some(f),
            None => Some(DERIVE_USED),
        },
    }
}

fn variable_size(ws: &Vec<&[char]>, from: usize, t: &TypeDesc) -> (r: Option<u32>)
    ensures
        r == size_from(views(ws@), from as int, t.model()),
{
    assert(views(ws@).len() == ws@.len());
    match find_key_from(ws, from, "size") {
        Some(v) => word_of(v, 10),
        None => match derived_var_size_of(t) {
            Some(s) => {
                if s <= 0xffff_ffff {
                    Some(s as u32)
                } else {
                    None
                }
            },
            None => None,
        },
    }
}

fn variable_default(ws: &Vec<&[char]>, from: usize, t: &TypeDesc, ft: &FloatTable) -> (r: Option<
    Vec<u8>,
>)
    ensures
        match r {
            Some(b) => default_from(views(ws@), from as int, t.model(), ft@) == Some(b@),
            None => default_from(views(ws@), from as int, t.model(), ft@) is None,
        },
{
    assert(views(ws@).len() == ws@.len());
    let raw = match find_key_from(ws, from, "default") {
        Some(h) => hex_bytes(h),
        None => {
            let e: Vec<u8> = Vec::new();
            assert(e@ =~= Seq::empty());
            Some(e)
        },
    };
    match raw {
        None => None,
        Some(b) => match find_initializer(ws, from) {
            None => Some(b),
            Some(i) => parse_default(t, i, ft),
        },
    }
}

fn slot_value(p: Option<u32>, sm5: bool, missing: u32) -> (r: Option<u32>)
    ensures
        r == slot_or(p, sm5, missing),
{
    match p {
        Some(x) => Some(x),
        None => {
            if sm5 {
                Some(missing)
            } else {
                None
            }
        },
    }
}

fn first_part(p: Option<(u32, u32)>) -> (r: Option<u32>)
    ensures
        r == first_of(p),
{
    match p {
        Some((a, _)) => Some(a),
        None => None,
    }
}

fn second_part(p: Option<(u32, u32)>) -> (r: Option<u32>)
    ensures
        r == second_of(p),
{
    match p {
        Some((_, b)) => Some(b),
        None => None,
    }
}

fn pack_text<'a>(s: &'a [char]) -> (r: Option<&'a [char]>)
    ensures
        match r {
            Some(p) => pack_word(s@) == Some(p@),
            None => pack_word(s@) is None,
        },
{
    match strip_text(s, "packoffset(") {
        Some(r) => {
            let n: usize = span_until_any(r, ')', ')', ')');
            Some(take(r, n))
        },
        None => None,
    }
}

/// The variable on a line of a constant buffer.
fn parse_variable(line: &[char], structs: &Vec<TypeDesc>, sm5: bool, ft: &FloatTable) -> (r: Option<
    CBufferVariable,
>)
    ensures
        match r {
            Some(v) => read_variable(line@, type_models(structs@), sm5, ft@) == Some(v.model()),
            None => read_variable(line@, type_models(structs@), sm5, ft@) is None,
        },
{
    let ws = words_of(strip_semicolon(line));
    let ghost m = views(ws@);
    let d = match parse_declarator(&ws) {
        Some(d) => d,
        None => {
            return None;
        },
    };
    if ws.len() - d.next < 2 {
        return None;
    }
    let from: usize = d.next + 2;
    assert(m[d.next as int + 1] == ws@[d.next as int + 1]@);
    let offset = match pack_text(ws[d.next + 1]) {
        Some(p) => packoffset_parse(p),
        None => None,
    };
    match (offset, type_of_declaration(&d, structs, sm5), sm5_words(&ws, from)) {
        (Some(offset), Some(t0), Some(e)) => {
            let t = with_sm5_words(t0, e);
            match (
                variable_size(&ws, from, &t),
                variable_flags(&ws, from),
                slot_range(&ws, from, "tex"),
                slot_range(&ws, from, "samp"),
                variable_default(&ws, from, &t, ft),
            ) {
                (Some(size), Some(flags), Some(tex), Some(samp), Some(default_value)) => Some(
                    CBufferVariable {
                        name: string_of(d.name),
                        offset,
                        size,
                        flags,
                        var_type: t,
                        default_value,
                        texture_start: slot_value(first_part(tex), sm5, SLOT_UNUSED),
                        texture_size: slot_value(second_part(tex), sm5, 0),
                        sampler_start: slot_value(first_part(samp), sm5, SLOT_UNUSED),
                        sampler_size: slot_value(second_part(samp), sm5, 0),
                    },
                ),
                _ => None,
            }
        },
        _ => None,
    }
}

/// Kind, dimension and return type that a type and a register class stand for.
fn decode_typespec(spec: &[char], regclass: char) -> (r: Option<(u32, u32, u32)>)
    ensures
        r == read_typespec(spec@, regclass),
{
    let (stem, inner): (&[char], Option<&[char]>) = match split_at_first(spec, '<') {
        Some((s, rest)) => match strip_last_char(rest, '>') {
            Some(i) => (s, Some(i)),
            None => {
                return None;
            },
        },
        None => (spec, None),
    };
    if is_text(stem, "cbuffer") {
        Some((0, 0, 0))
    } else if is_text(stem, "tbuffer") {
        Some((1, 0, 0))
    } else if is_text(stem, "SamplerState") {
        Some((3, 0, 0))
    } else if is_text(stem, "StructuredBuffer") {
        Some((5, 0, 0))
    } else if is_text(stem, "RWStructuredBuffer") {
        Some((if regclass == 'u' { 6 } else { 5 }, 0, 0))
    } else if is_text(stem, "ByteAddressBuffer") {
        Some((7, 0, 0))
    } else if is_text(stem, "RWByteAddressBuffer") {
        Some((8, 0, 0))
    } else if is_text(stem, "AppendStructuredBuffer") {
        Some((9, 0, 0))
    } else if is_text(stem, "ConsumeStructuredBuffer") {
        Some((10, 0, 0))
    } else {
        let (input, name): (u32, &[char]) = match strip_text(stem, "RW") {
            Some(d) => (4, d),
            None => (2, stem),
        };
        match dim_from_hlsl(name) {
            None => None,
            Some(dim) => {
                let ret: u32 = match inner {
                    Some(i) => match ret_from_hlsl(i) {
                        Some(v) => v,
                        None => 0,
                    },
                    None => 0,
                };
                Some((input, dim, ret))
            },
        }
    }
}

fn find_register_word<'a>(ws: &Vec<&'a [char]>, from: usize) -> (r: Option<&'a [char]>)
    ensures
        match r {
            Some(v) => register_word(views(ws@), from as int) == Some(v@),
            None => register_word(views(ws@), from as int) is None,
        },
{
    let ghost m = views(ws@);
    let mut k: usize = from;
    while k < ws.len()
        invariant
            m == views(ws@),
            register_word(m, from as int) == register_word(m, k as int),
        decreases ws.len() - k,
    {
        assert(m[k as int] == ws@[k as int]@);
        if strip_text(ws[k], "register(").is_some() {
            return Some(ws[k]);
        }
        k += 1;
    }
    None
}

fn parse_register_name(s: &[char]) -> (r: Option<(char, u32)>)
    ensures
        r == read_register_name(s@),
{
    if s.len() == 0 || s[0] > '\u{7f}' {
        return None;
    }
    match word_of(skip(s, 1), 10) {
        Some(n) => Some((s[0], n)),
        None => None,
    }
}

fn parse_register_word(s: &[char]) -> (r: Option<(char, u32, u32)>)
    ensures
        r == read_register_word(s@),
{
    let r = match strip_text(s, "register(") {
        Some(r) => r,
        None => {
            return None;
        },
    };
    let n: usize = span_until_any(r, ')', ')', ')');
    if n >= r.len() {
        return None;
    }
    let after = skip(r, n + 1);
    let count = match strip_text(after, "[") {
        Some(a) => match strip_last_char(a, ']') {
            Some(c) => word_of(c, 10),
            None => Some(1u32),
        },
        None => Some(1u32),
    };
    match (parse_register_name(take(r, n)), count) {
        (Some((class, slot)), Some(count)) => Some((class, slot, count)),
        _ => None,
    }
}

fn word_or(ws: &Vec<&[char]>, from: usize, key: &str, missing: u32) -> (r: Option<u32>)
    ensures
        r == word_from(views(ws@), from as int, key@, missing),
{
    assert(views(ws@).len() == ws@.len());
    match find_key_from(ws, from, key) {
        Some(v) => word_of(v, 10),
        None => Some(missing),
    }
}

fn low_word_of(i: i128) -> (r: u32)
    requires
        -0x8000_0000_0000_0000 <= i <= 0x7fff_ffff_ffff_ffff,
    ensures
        r == low_word(i as int),
{
    let p: i128 = i + 0x1_0000_0000_0000_0000;
    (p % 0x1_0000_0000) as u32
}

fn binding_samples(ws: &Vec<&[char]>, from: usize, input_type: u32) -> (r: Option<u32>)
    ensures
        r == samples_from(views(ws@), from as int, input_type),
{
    assert(views(ws@).len() == ws@.len());
    if structured(input_type) {
        word_or(ws, from, "stride", 0)
    } else if texture(input_type) {
        word_or(ws, from, "samples", 0xFFFF_FFFF)
    } else {
        match find_key_from(ws, from, "samples") {
            Some(v) => match crate::numerals::parse_signed_wide(v) {
                Some(i) => Some(low_word_of(i)),
                None => None,
            },
            None => Some(0),
        }
    }
}

/// The binding on a line.
fn parse_binding(line: &[char]) -> (r: Option<ResourceBinding>)
    ensures
        match r {
            Some(b) => read_binding(line@) == Some(b.model()),
            None => read_binding(line@) is None,
        },
{
    let ws = words_of(strip_semicolon(line));
    let ghost m = views(ws@);
    if ws.len() < 2 {
        return None;
    }
    assert(m[0] == ws@[0]@ && m[1] == ws@[1]@);
    assert(m.len() == ws@.len());
    let rw = match find_register_word(&ws, 2) {
        Some(r) => r,
        None => {
            return None;
        },
    };
    let (class, slot, count) = match parse_register_word(rw) {
        Some(p) => p,
        None => {
            return None;
        },
    };
    let (input_type, dim0, ret0) = match decode_typespec(ws[0], class) {
        Some(p) => p,
        None => {
            return None;
        },
    };
    let st = structured(input_type);
    match (
        word_or(&ws, 2, "dim", if st { 1 } else { dim0 }),
        word_or(&ws, 2, "ret", if st { 6 } else { ret0 }),
        binding_samples(&ws, 2, input_type),
    ) {
        (Some(dimension), Some(return_type), Some(num_samples)) => {
            let flags = match find_key_from(&ws, 2, "flags") {
                Some(f) => bind_flags_from(f),
                None => Some(derived_binding_flags(input_type, return_type)),
            };
            match flags {
                Some(flags) => Some(
                    ResourceBinding {
                        name: string_of(ws[1]),
                        input_type,
                        return_type,
                        dimension,
                        num_samples,
                        bind_point: slot,
                        bind_count: count,
                        flags,
                    },
                ),
                None => None,
            }
        },
        _ => None,
    }
}

fn literal(s: &str) -> (r: String)
    ensures
        r@ == s@,
{
    let c = chars_of(s);
    string_of(c.as_slice())
}

/// The buffer that a structured binding stands for.
fn make_element_buffer(name: String, spec: &[char], structs: &Vec<TypeDesc>, sm5: bool) -> (r:
    Option<CBufferDef>)
    ensures
        match r {
            Some(c) => element_buffer(name@, spec@, type_models(structs@), sm5) == Some(c.model()),
            None => element_buffer(name@, spec@, type_models(structs@), sm5) is None,
        },
{
    let elem = match split_at_first(spec, '<') {
        Some((_, r)) => match strip_last_char(r, '>') {
            Some(e) => e,
            None => {
                return None;
            },
        },
        None => {
            return None;
        },
    };
    let t = match resolve_type(elem, false, structs, sm5) {
        Some(t) => t,
        None => {
            return None;
        },
    };
    let n: u64 = type_size_of(&t);
    if n > 0xffff_ffff {
        return None;
    }
    let size: u32 = n as u32;
    let v = CBufferVariable {
        name: literal("$Element"),
        offset: 0,
        size,
        flags: VAR_FLAG_USED,
        var_type: t,
        default_value: Vec::new(),
        texture_start: slot_value(None, sm5, SLOT_UNUSED),
        texture_size: slot_value(None, sm5, 0),
        sampler_start: slot_value(None, sm5, SLOT_UNUSED),
        sampler_size: slot_value(None, sm5, 0),
    };
    assert(v.model().default_value =~= Seq::empty());
    let mut variables: Vec<CBufferVariable> = Vec::new();
    variables.push(v);
    let c = CBufferDef { name, variables, size, flags: 0, cb_type: 3 };
    assert(c.model().variables =~= seq![v.model()]);
    Some(c)
}

// ---------------------------------------------------------------------------
// Reading lines
// ---------------------------------------------------------------------------

fn strip_braces<'a>(s: &'a [char]) -> (r: &'a [char])
    ensures
        r@ == without_braces(s@),
{
    let mut n: usize = s.len();
    assert(s@.take(n as int) =~= s@);
    while n > 0 && s[n - 1] == '{'
        invariant
            n <= s.len(),
            without_braces(s@) == without_braces(s@.take(n as int)),
        decreases n,
    {
        assert(s@.take(n as int).drop_last() =~= s@.take(n as int - 1));
        assert(s@.take(n as int).last() == s@[n as int - 1]);
        n -= 1;
    }
    if n > 0 {
        assert(s@.take(n as int).last() == s@[n as int - 1]);
    }
    take(s, n)
}

fn small_key(ws: &Vec<&[char]>, key: &str) -> (r: Option<Option<u16>>)
    ensures
        r == u16_key(views(ws@), key@),
{
    assert(views(ws@).len() == ws@.len());
    match find_key_from(ws, 1, key) {
        None => Some(None),
        Some(v) => match parse_unsigned(v, 10, 0xffff) {
            Some(n) => Some(Some(n as u16)),
            None => None,
        },
    }
}

fn u16_or(v: Option<u16>, missing: u16) -> (r: u16)
    ensures
        r == or_u16(v, missing),
{
    match v {
        Some(x) => x,
        None => missing,
    }
}

fn parse_struct_head(rest: &[char]) -> (r: Option<HeadParts>)
    ensures
        match r {
            Some(h) => read_struct_head(rest@) == Some(h.model()),
            None => read_struct_head(rest@) is None,
        },
{
    let ws = words_of(trimmed(strip_braces(rest)));
    if ws.len() == 0 {
        return None;
    }
    assert(views(ws@)[0] == ws@[0]@);
    match (
        small_key(&ws, "class"),
        small_key(&ws, "vtype"),
        small_key(&ws, "rows"),
        small_key(&ws, "cols"),
        sm5_words(&ws, 1),
    ) {
        (Some(class), Some(vtype), Some(rows), Some(cols), Some(sm5)) => Some(
            HeadParts {
                name: string_of(ws[0]),
                class: u16_or(class, 5),
                var_type: u16_or(vtype, 0),
                rows,
                cols,
                sm5,
            },
        ),
        _ => None,
    }
}

fn find_block_register<'a>(ws: &Vec<&'a [char]>) -> (r: Option<&'a [char]>)
    ensures
        match r {
            Some(v) => block_register(views(ws@), 1) == Some(v@),
            None => block_register(views(ws@), 1) is None,
        },
{
    let ghost m = views(ws@);
    let mut k: usize = 1;
    while k < ws.len()
        invariant
            m == views(ws@),
            block_register(m, 1) == block_register(m, k as int),
        decreases ws.len() - k,
    {
        assert(m[k as int] == ws@[k as int]@);
        match strip_text(ws[k], "register(") {
            Some(r) => match strip_last_char(r, ')') {
                Some(v) => {
                    return Some(v);
                },
                None => {},
            },
            None => {},
        }
        k += 1;
    }
    None
}

fn parse_block_binding(ws: &Vec<&[char]>) -> (r: Option<Option<ResourceBinding>>)
    requires
        ws@.len() > 0,
    ensures
        match r {
            Some(Some(b)) => block_binding(views(ws@)) == Some(Some(b.model())),
            Some(None) => block_binding(views(ws@)) == Some(None::<BindingModel>),
            None => block_binding(views(ws@)) is None,
        },
{
    assert(views(ws@).len() == ws@.len());
    assert(views(ws@)[0] == ws@[0]@);
    match find_block_register(ws) {
        None => Some(None),
        Some(reg) => {
            let flags = match find_key_from(ws, 1, "flags") {
                Some(f) => bind_flags_from(f),
                None => Some(0u32),
            };
            match (parse_register_name(reg), flags) {
                (Some((_, slot)), Some(flags)) => Some(
                    Some(
                        ResourceBinding {
                            name: string_of(ws[0]),
                            input_type: 0,
                            return_type: 0,
                            dimension: 0,
                            num_samples: 0,
                            bind_point: slot,
                            bind_count: 1,
                            flags,
                        },
                    ),
                ),
                _ => None,
            }
        },
    }
}

fn parse_block_buffer(ws: &Vec<&[char]>) -> (r: Option<CBufferDef>)
    requires
        ws@.len() > 0,
    ensures
        match r {
            Some(c) => block_buffer(views(ws@)) == Some(c.model()),
            None => block_buffer(views(ws@)) is None,
        },
{
    assert(views(ws@).len() == ws@.len());
    assert(views(ws@)[0] == ws@[0]@);
    let flags = match find_key_from(ws, 1, "cbflags") {
        Some(f) => word_of(f, 16),
        None => Some(0u32),
    };
    match (flags, word_or(ws, 1, "kind", 0)) {
        (Some(flags), Some(cb_type)) => {
            let c = CBufferDef {
                name: string_of(ws[0]),
                variables: Vec::new(),
                size: 0,
                flags,
                cb_type,
            };
            assert(c.model().variables =~= Seq::empty());
            Some(c)
        },
        _ => None,
    }
}

fn add_to_bindings(rd: &mut ResourceDef, b: ResourceBinding)
    ensures
        final(rd).model() == push_binding(old(rd).model(), b.model()),
{
    let ghost before = rd.bindings@;
    rd.bindings.push(b);
    assert(binding_models(rd.bindings@) =~= binding_models(before).push(b.model()));
}

/// Add a variable to the last buffer.
fn add_to_last_buffer(rd: &mut ResourceDef, v: CBufferVariable) -> (r: bool)
    ensures
        match crate::grammar::rdef::kv::add_var(old(rd).model(), v.model()) {
            Some(m) => r && final(rd).model() == m,
            None => !r,
        },
{
    crate::grammar::rdef::kv::push_var(rd, v)
}

impl Reader {
    fn new() -> (r: Reader)
        ensures
            r.model() == no_state(),
    {
        let r = Reader {
            rd: ResourceDef {
                constant_buffers: Vec::new(),
                bindings: Vec::new(),
                creator: String::new(),
                target_version: 0,
                compile_flags: 0,
                rd11_extra: None,
            },
            structs: Vec::new(),
            block: BlockKind::Outside,
            head: HeadParts::none(),
            members: Vec::new(),
            resource_defs: Vec::new(),
            order: None,
        };
        proof {
            assert(r.rd.model() =~= no_rdef());
            assert(r.model() =~= no_state());
        }
        r
    }

    /// Read the first line of a constant buffer.
    fn open_cbuffer(&mut self, rest: &[char]) -> (r: bool)
        ensures
            match open_cbuffer(old(self).model(), rest@) {
                Some(m) => r && final(self).model() == m,
                None => !r,
            },
    {
        let ws = words_of(trimmed(strip_braces(rest)));
        assert(views(ws@).len() == ws@.len());
        if ws.len() == 0 {
            return false;
        }
        match (parse_block_binding(&ws), parse_block_buffer(&ws)) {
            (Some(b), Some(c)) => {
                match b {
                    Some(b) => {
                        add_to_bindings(&mut self.rd, b);
                    },
                    None => {},
                }
                let ghost before = self.rd.constant_buffers@;
                self.rd.constant_buffers.push(c);
                proof {
                    assert(cbuffer_models(self.rd.constant_buffers@) =~= cbuffer_models(
                        before,
                    ).push(c.model()));
                }
                self.block = BlockKind::Cbuffer;
                true
            },
            _ => false,
        }
    }

    /// Read a binding's line.
    fn add_binding(&mut self, line: &[char], merged: bool) -> (r: bool)
        ensures
            match add_binding(old(self).model(), line@, merged) {
                Some(m) => r && final(self).model() == m,
                None => !r,
            },
    {
        let sm5 = is_sm5(self.rd.target_version);
        match parse_binding(line) {
            None => false,
            Some(b) => {
                let needs = merged && structured(b.input_type);
                let name = b.name.clone();
                add_to_bindings(&mut self.rd, b);
                if needs {
                    let ws = words_of(line);
                    if ws.len() == 0 {
                        return false;
                    }
                    assert(views(ws@)[0] == ws@[0]@);
                    match make_element_buffer(name, ws[0], &self.structs, sm5) {
                        Some(c) => {
                            let ghost before = self.resource_defs@;
                            self.resource_defs.push(c);
                            proof {
                                assert(cbuffer_models(self.resource_defs@) =~= cbuffer_models(
                                    before,
                                ).push(c.model()));
                            }
                        },
                        None => {
                            return false;
                        },
                    }
                }
                true
            },
        }
    }

    /// Read a line outside blocks.
    fn read_outside(&mut self, line: &[char], merged: bool) -> (r: bool)
        ensures
            match outside_line(old(self).model(), line@, merged) {
                Some(m) => r && final(self).model() == m,
                None => !r,
            },
    {
        let (head, rest): (&[char], &[char]) = match split_at_first(line, ' ') {
            Some((h, t)) => (h, t),
            None => {
                let e = skip(line, line.len());
                assert(e@ =~= Seq::empty());
                (line, e)
            },
        };
        if is_text(head, "target") {
            match word_of(trimmed(rest), 16) {
                Some(v) => {
                    self.rd.target_version = v;
                    true
                },
                None => false,
            }
        } else if is_text(head, "flags") {
            match word_of(trimmed(rest), 16) {
                Some(v) => {
                    self.rd.compile_flags = v;
                    true
                },
                None => false,
            }
        } else if is_text(head, "cborder") {
            let ws = words_of(rest);
            let names = strings_of(&ws);
            self.order = Some(names);
            true
        } else if is_text(head, "creator") {
            self.rd.creator = string_of(rest);
            true
        } else if is_text(head, "rd11") {
            let ws = words_of(rest);
            match parse_rd11_words(&ws) {
                Some(e) => {
                    self.rd.rd11_extra = Some(e);
                    true
                },
                None => false,
            }
        } else if is_text(head, "struct") {
            match parse_struct_head(rest) {
                Some(h) => {
                    self.block = BlockKind::Struct;
                    self.head = h;
                    self.members = Vec::new();
                    assert(member_models(self.members@) =~= Seq::empty());
                    true
                },
                None => false,
            }
        } else if is_text(head, "cbuffer") {
            if ends_with_brace(line) {
                self.open_cbuffer(rest)
            } else {
                match parse_binding(line) {
                    Some(b) => {
                        add_to_bindings(&mut self.rd, b);
                        true
                    },
                    None => false,
                }
            }
        } else {
            self.add_binding(line, merged)
        }
    }

    /// Read the end of a block.
    fn close_block(&mut self) -> (r: bool)
        ensures
            match close_block(old(self).model()) {
                Some(m) => r && final(self).model() == m,
                None => !r,
            },
    {
        match self.block {
            BlockKind::Outside => false,
            BlockKind::Cbuffer => {
                self.block = BlockKind::Outside;
                true
            },
            BlockKind::Struct => {
                let sm5 = is_sm5(self.rd.target_version);
                let ghost st = self.model();
                let mut head = HeadParts::none();
                core::mem::swap(&mut head, &mut self.head);
                let mut members: Vec<MemberDesc> = Vec::new();
                assert(member_models(members@) =~= Seq::empty());
                core::mem::swap(&mut members, &mut self.members);
                let size: u64 = struct_size_of(&members);
                let t = TypeDesc {
                    class: head.class,
                    var_type: head.var_type,
                    rows: u16_or(head.rows, 1),
                    columns: match head.cols {
                        Some(c) => c,
                        None => (size / 4) as u16,
                    },
                    elements: 0,
                    members,
                    sm5_extra: match head.sm5 {
                        Some(e) => Some(e),
                        None => {
                            if sm5 {
                                Some([0u32, 0u32, 0u32, 0u32])
                            } else {
                                None
                            }
                        },
                    },
                    name: head.name,
                };
                proof {
                    lemma_type_model(t);
                    assert(t.model() =~= struct_type(st.head, st.members, sm5));
                }
                let ghost before = self.structs@;
                self.structs.push(t);
                proof {
                    assert(type_models(self.structs@) =~= type_models(before).push(t.model()));
                }
                self.block = BlockKind::Outside;
                true
            },
        }
    }

    /// Read one line.
    fn read_line(&mut self, line: &[char], merged: bool, ft: &FloatTable) -> (r: bool)
        ensures
            match hlsl_line(old(self).model(), line@, merged, ft@) {
                Some(m) => r && final(self).model() == m,
                None => !r,
            },
    {
        if is_text(line, "}") || is_text(line, "};") {
            return self.close_block();
        }
        let sm5 = is_sm5(self.rd.target_version);
        match self.block {
            BlockKind::Struct => match parse_member(line, &self.members, &self.structs, sm5) {
                Some(m) => {
                    let ghost before = self.members@;
                    self.members.push(m);
                    proof {
                        assert(member_models(self.members@) =~= member_models(before).push(
                            m.model(),
                        ));
                    }
                    true
                },
                None => false,
            },
            BlockKind::Cbuffer => match parse_variable(line, &self.structs, sm5, ft) {
                Some(v) => add_to_last_buffer(&mut self.rd, v),
                None => false,
            },
            BlockKind::Outside => self.read_outside(line, merged),
        }
    }
}

fn strings_of(ws: &Vec<&[char]>) -> (r: Vec<String>)
    ensures
        string_views(r@) == views(ws@),
{
    let mut r: Vec<String> = Vec::new();
    let mut i: usize = 0;
    while i < ws.len()
        invariant
            i <= ws.len(),
            r@.len() == i,
            forall|k: int| 0 <= k < i ==> (#[trigger] r@[k])@ == ws@[k]@,
        decreases ws.len() - i,
    {
        r.push(string_of(ws[i]));
        i += 1;
    }
    assert(string_views(r@) =~= views(ws@));
    r
}

fn ends_with_brace(line: &[char]) -> (r: bool)
    ensures
        r == ends_with(line@, "{"@),
{
    proof {
        reveal_strlit("{");
    }
    let r = line.len() > 0 && line[line.len() - 1] == '{';
    proof {
        if line@.len() > 0 {
            let tail = line@.skip(line@.len() - 1);
            assert(tail[0] == line@[line@.len() - 1]);
            if r {
                assert(tail =~= "{"@);
            }
        }
    }
    r
}

fn bare_block(line: &[char]) -> (r: bool)
    ensures
        r == is_bare_block(line@),
{
    strip_text(line, "cbuffer ").is_some() && ends_with_brace(line) && !crate::floats::holds_text(
        line,
        ": register(",
    )
}

fn merged_mode(lines: &Vec<&[char]>) -> (r: bool)
    ensures
        r == is_merged(views(lines@)),
{
    let ghost ls = views(lines@);
    let mut i: usize = 0;
    while i < lines.len()
        invariant
            ls == views(lines@),
            i <= lines.len(),
            forall|k: int| 0 <= k < i ==> !is_bare_block(#[trigger] ls[k]),
        decreases lines.len() - i,
    {
        assert(ls[i as int] == lines@[i as int]@);
        if bare_block(lines[i]) {
            return false;
        }
        i += 1;
    }
    true
}

// ---------------------------------------------------------------------------
// Completing
// ---------------------------------------------------------------------------

fn position_of(names: &Vec<String>, name: &str) -> (r: Option<usize>)
    ensures
        match r {
            Some(k) => position(string_views(names@), name@, 0) == Some(k as int),
            None => position(string_views(names@), name@, 0) is None,
        },
{
    let ghost ns = string_views(names@);
    let chars = chars_of(name);
    let mut k: usize = 0;
    while k < names.len()
        invariant
            ns == string_views(names@),
            chars@ == name@,
            k <= names.len(),
            position(ns, name@, 0) == position(ns, name@, k as int),
        decreases names.len() - k,
    {
        assert(ns[k as int] == names@[k as int]@);
        if is_text(chars.as_slice(), names[k].as_str()) {
            return Some(k);
        }
        k += 1;
    }
    None
}

fn copy_variable(v: &CBufferVariable) -> (r: CBufferVariable)
    ensures
        r.model() == v.model(),
{
    let mut default_value: Vec<u8> = Vec::new();
    let mut i: usize = 0;
    while i < v.default_value.len()
        invariant
            i <= v.default_value.len(),
            default_value@ == v.default_value@.take(i as int),
        decreases v.default_value.len() - i,
    {
        default_value.push(v.default_value[i]);
        i += 1;
        assert(default_value@ =~= v.default_value@.take(i as int));
    }
    assert(default_value@ =~= v.default_value@);
    CBufferVariable {
        name: v.name.clone(),
        offset: v.offset,
        size: v.size,
        flags: v.flags,
        var_type: copy_type(&v.var_type),
        default_value,
        texture_start: v.texture_start,
        texture_size: v.texture_size,
        sampler_start: v.sampler_start,
        sampler_size: v.sampler_size,
    }
}

fn copy_buffer(c: &CBufferDef) -> (r: CBufferDef)
    ensures
        r.model() == c.model(),
{
    let mut variables: Vec<CBufferVariable> = Vec::new();
    let mut i: usize = 0;
    while i < c.variables.len()
        invariant
            i <= c.variables.len(),
            variables@.len() == i,
            forall|k: int|
                0 <= k < i ==> #[trigger] variables@[k].model() == c.variables@[k].model(),
        decreases c.variables.len() - i,
    {
        variables.push(copy_variable(&c.variables[i]));
        i += 1;
    }
    let r = CBufferDef {
        name: c.name.clone(),
        variables,
        size: c.size,
        flags: c.flags,
        cb_type: c.cb_type,
    };
    assert(r.model().variables =~= c.model().variables);
    r
}

/// Append those buffers whose name has the position `p`.
fn push_at_position(
    out: &mut Vec<CBufferDef>,
    cbs: &Vec<CBufferDef>,
    names: &Vec<String>,
    p: Option<usize>,
)
    ensures
        cbuffer_models(final(out)@) == cbuffer_models(old(out)@) + at_position(
            cbuffer_models(cbs@),
            string_views(names@),
            match p {
                Some(k) => Some(k as int),
                None => None,
            },
            cbs@.len() as int,
        ),
{
    let ghost cs = cbuffer_models(cbs@);
    let ghost ns = string_views(names@);
    let ghost q: Option<int> = match p {
        Some(k) => Some(k as int),
        None => None,
    };
    let mut i: usize = 0;
    assert(cbuffer_models(out@) =~= cbuffer_models(old(out)@) + Seq::<CBufferModel>::empty());
    while i < cbs.len()
        invariant
            i <= cbs.len(),
            cs == cbuffer_models(cbs@),
            ns == string_views(names@),
            q == match p {
                Some(k) => Some(k as int),
                None => None,
            },
            cbuffer_models(out@) == cbuffer_models(old(out)@) + at_position(cs, ns, q, i as int),
        decreases cbs.len() - i,
    {
        assert(cs[i as int] == cbs@[i as int].model());
        let here = position_of(names, cbs[i].name.as_str());
        let same = match (here, p) {
            (Some(a), Some(b)) => a == b,
            (None, None) => true,
            _ => false,
        };
        if same {
            let ghost before = out@;
            let c = copy_buffer(&cbs[i]);
            out.push(c);
            proof {
                assert(cbuffer_models(out@) =~= cbuffer_models(before).push(cs[i as int]));
                assert(cbuffer_models(out@) =~= cbuffer_models(old(out)@) + at_position(
                    cs,
                    ns,
                    q,
                    i as int + 1,
                ));
            }
        }
        i += 1;
    }
}

/// The buffers in the order of the names.
fn in_given_order(cbs: Vec<CBufferDef>, order: &Option<Vec<String>>) -> (r: Vec<CBufferDef>)
    ensures
        cbuffer_models(r@) == ordered(
            cbuffer_models(cbs@),
            match *order {
                Some(o) => Some(string_views(o@)),
                None => None,
            },
        ),
{
    match order {
        None => cbs,
        Some(names) => {
            let ghost cs = cbuffer_models(cbs@);
            let ghost ns = string_views(names@);
            let mut out: Vec<CBufferDef> = Vec::new();
            let mut k: usize = 0;
            assert(cbuffer_models(out@) =~= Seq::empty());
            while k < names.len()
                invariant
                    k <= names.len(),
                    cs == cbuffer_models(cbs@),
                    ns == string_views(names@),
                    cbuffer_models(out@) == in_order(cs, ns, k as int),
                decreases names.len() - k,
            {
                push_at_position(&mut out, &cbs, names, Some(k));
                k += 1;
            }
            push_at_position(&mut out, &cbs, names, None);
            out
        },
    }
}

fn buffer_size_of(c: &CBufferDef) -> (r: u64)
    ensures
        r == buffer_size(c.model()),
{
    let ghost vs = c.model().variables;
    let mut end: u64 = 0;
    let mut i: usize = 0;
    while i < c.variables.len()
        invariant
            vs == variable_models(c.variables@),
            i <= c.variables.len(),
            end == variables_end(vs, i as int),
            end < 0x2_0000_0000,
        decreases c.variables.len() - i,
    {
        assert(vs[i as int] == c.variables@[i as int].model());
        let e: u64 = c.variables[i].offset as u64 + c.variables[i].size as u64;
        if e > end {
            end = e;
        }
        i += 1;
    }
    if c.cb_type == 0 {
        ((end + 15) / 16) * 16
    } else {
        end
    }
}

fn register_of_buffer(bs: &Vec<ResourceBinding>, name: &str) -> (r: Option<u32>)
    ensures
        r == register_of(binding_models(bs@), name@, bs@.len() as int),
{
    let ghost ms = binding_models(bs@);
    let chars = chars_of(name);
    let mut n: usize = bs.len();
    while n > 0
        invariant
            ms == binding_models(bs@),
            chars@ == name@,
            n <= bs.len(),
            register_of(ms, name@, bs@.len() as int) == register_of(ms, name@, n as int),
        decreases n,
    {
        assert(ms[n - 1] == bs@[n - 1].model());
        if bs[n - 1].input_type == 0 && is_text(chars.as_slice(), bs[n - 1].name.as_str()) {
            return Some(bs[n - 1].bind_point);
        }
        n -= 1;
    }
    None
}

spec fn opt_program(p: Option<&Program>) -> Option<ProgramModel> {
    match p {
        Some(x) => Some(x.model()),
        None => None,
    }
}

fn complete_variable(v: CBufferVariable, p: Option<&Program>, reg: Option<u32>) -> (r:
    CBufferVariable)
    ensures
        r.model() == completed_variable(v.model(), opt_program(p), reg),
{
    if v.flags != DERIVE_USED {
        return v;
    }
    let used = match (p, reg) {
        (Some(x), Some(n)) => var_used(x, n, v.offset, v.size),
        _ => false,
    };
    CBufferVariable {
        name: v.name,
        offset: v.offset,
        size: v.size,
        flags: if used { VAR_FLAG_USED } else { 0 },
        var_type: v.var_type,
        default_value: v.default_value,
        texture_start: v.texture_start,
        texture_size: v.texture_size,
        sampler_start: v.sampler_start,
        sampler_size: v.sampler_size,
    }
}

fn complete_buffer(c: &CBufferDef, size: u32, bs: &Vec<ResourceBinding>, p: Option<&Program>) -> (r:
    CBufferDef)
    requires
        size == buffer_size(c.model()) as u32,
    ensures
        r.model() == completed_buffer(c.model(), binding_models(bs@), opt_program(p)),
{
    let ghost m = c.model();
    let reg = register_of_buffer(bs, c.name.as_str());
    assert(binding_models(bs@).len() == bs@.len());
    let mut variables: Vec<CBufferVariable> = Vec::new();
    let mut i: usize = 0;
    while i < c.variables.len()
        invariant
            m == c.model(),
            i <= c.variables.len(),
            variables@.len() == i,
            forall|k: int|
                0 <= k < i ==> #[trigger] variables@[k].model() == completed_variable(
                    m.variables[k],
                    opt_program(p),
                    reg,
                ),
        decreases c.variables.len() - i,
    {
        assert(m.variables[i as int] == c.variables@[i as int].model());
        variables.push(complete_variable(copy_variable(&c.variables[i]), p, reg));
        i += 1;
    }
    let r = CBufferDef {
        name: c.name.clone(),
        variables,
        size,
        flags: c.flags,
        cb_type: c.cb_type,
    };
    proof {
        assert(r.model() =~= completed_buffer(m, binding_models(bs@), opt_program(p)));
    }
    r
}

fn stride_of(cbs: &Vec<CBufferDef>, b: &ResourceBinding) -> (r: u64)
    ensures
        r == binding_stride(cbuffer_models(cbs@), b.model()),
{
    let ghost cs = cbuffer_models(cbs@);
    let chars = chars_of(b.name.as_str());
    let mut k: usize = 0;
    while k < cbs.len()
        invariant
            cs == cbuffer_models(cbs@),
            chars@ == b.name@,
            k <= cbs.len(),
            find_buffer(cs, b.name@, 0) == find_buffer(cs, b.name@, k as int),
        decreases cbs.len() - k,
    {
        assert(cs[k as int] == cbs@[k as int].model());
        if is_text(chars.as_slice(), cbs[k].name.as_str()) {
            if cbs[k].variables.len() > 0 {
                assert(cs[k as int].variables[0] == cbs@[k as int].variables@[0].model());
                return type_size_of(&cbs[k].variables[0].var_type);
            }
            return 0;
        }
        k += 1;
    }
    0
}

/// The bindings with their strides found out; `None` where one does not fit.
fn complete_bindings(bs: &Vec<ResourceBinding>, cbs: &Vec<CBufferDef>) -> (r: Option<
    Vec<ResourceBinding>,
>)
    ensures
        ({
            let ms = binding_models(bs@);
            let cs = cbuffer_models(cbs@);
            let fit = forall|i: int|
                0 <= i < ms.len() && wants_stride(#[trigger] ms[i]) ==> binding_stride(cs, ms[i])
                    <= 0xffff_ffff;
            match r {
                Some(v) => fit && binding_models(v@) == Seq::new(
                    ms.len(),
                    |i: int| completed_binding(cs, ms[i]),
                ),
                None => !fit,
            }
        }),
{
    let ghost ms = binding_models(bs@);
    let ghost cs = cbuffer_models(cbs@);
    let mut out: Vec<ResourceBinding> = Vec::new();
    let mut i: usize = 0;
    while i < bs.len()
        invariant
            ms == binding_models(bs@),
            cs == cbuffer_models(cbs@),
            i <= bs.len(),
            out@.len() == i,
            forall|k: int|
                0 <= k < i && wants_stride(#[trigger] ms[k]) ==> binding_stride(cs, ms[k])
                    <= 0xffff_ffff,
            forall|k: int|
                0 <= k < i ==> #[trigger] out@[k].model() == completed_binding(cs, ms[k]),
        decreases bs.len() - i,
    {
        let b = &bs[i];
        assert(ms[i as int] == b.model());
        let samples: u32 = if structured(b.input_type) && b.num_samples == 0 {
            let s: u64 = stride_of(cbs, b);
            if s > 0xffff_ffff {
                assert(wants_stride(ms[i as int]));
                return None;
            }
            s as u32
        } else {
            b.num_samples
        };
        out.push(
            ResourceBinding {
                name: b.name.clone(),
                input_type: b.input_type,
                return_type: b.return_type,
                dimension: b.dimension,
                num_samples: samples,
                bind_point: b.bind_point,
                bind_count: b.bind_count,
                flags: b.flags,
            },
        );
        i += 1;
    }
    assert(binding_models(out@) =~= Seq::new(ms.len(), |i: int| completed_binding(cs, ms[i])));
    Some(out)
}

/// The buffers with their sizes and flags found out; `None` where a size does
/// not fit.
fn complete_buffers(cbs: &Vec<CBufferDef>, bs: &Vec<ResourceBinding>, p: Option<&Program>) -> (r:
    Option<Vec<CBufferDef>>)
    ensures
        ({
            let ms = binding_models(bs@);
            let cs = cbuffer_models(cbs@);
            let fit = forall|i: int|
                0 <= i < cs.len() ==> buffer_size(#[trigger] cs[i]) <= 0xffff_ffff;
            match r {
                Some(v) => fit && cbuffer_models(v@) == Seq::new(
                    cs.len(),
                    |i: int| completed_buffer(cs[i], ms, opt_program(p)),
                ),
                None => !fit,
            }
        }),
{
    let ghost ms = binding_models(bs@);
    let ghost cs = cbuffer_models(cbs@);
    let mut out: Vec<CBufferDef> = Vec::new();
    let mut i: usize = 0;
    while i < cbs.len()
        invariant
            ms == binding_models(bs@),
            cs == cbuffer_models(cbs@),
            i <= cbs.len(),
            out@.len() == i,
            forall|k: int| 0 <= k < i ==> buffer_size(#[trigger] cs[k]) <= 0xffff_ffff,
            forall|k: int|
                0 <= k < i ==> #[trigger] out@[k].model() == completed_buffer(
                    cs[k],
                    ms,
                    opt_program(p),
                ),
        decreases cbs.len() - i,
    {
        let c = &cbs[i];
        assert(cs[i as int] == c.model());
        let size: u64 = buffer_size_of(c);
        if size > 0xffff_ffff {
            return None;
        }
        out.push(complete_buffer(c, size as u32, bs, p));
        i += 1;
    }
    assert(cbuffer_models(out@) =~= Seq::new(
        cs.len(),
        |i: int| completed_buffer(cs[i], ms, opt_program(p)),
    ));
    Some(out)
}

/// The definitions when all has been read.
fn complete(reader: Reader, p: Option<&Program>) -> (r: Option<ResourceDef>)
    ensures
        match r {
            Some(rd) => completed(reader.model(), opt_program(p)) == Some(rd.model()),
            None => completed(reader.model(), opt_program(p)) is None,
        },
{
    let ghost st = reader.model();
    let mut all = reader.rd.constant_buffers;
    let mut more = reader.resource_defs;
    let ghost a0 = all@;
    let ghost m0 = more@;
    all.append(&mut more);
    proof {
        assert(cbuffer_models(all@) =~= cbuffer_models(a0) + cbuffer_models(m0));
    }
    let cbs = in_given_order(all, &reader.order);
    assert(cbuffer_models(cbs@) == all_buffers(st));
    match (
        complete_buffers(&cbs, &reader.rd.bindings, p),
        complete_bindings(&reader.rd.bindings, &cbs),
    ) {
        (Some(constant_buffers), Some(bindings)) => {
            let rd = ResourceDef {
                constant_buffers,
                bindings,
                creator: reader.rd.creator,
                target_version: reader.rd.target_version,
                compile_flags: reader.rd.compile_flags,
                rd11_extra: reader.rd.rd11_extra,
            };
            Some(rd)
        },
        _ => None,
    }
}

/// Read definitions in HLSL form from cleaned lines.
pub(crate) fn rdef_from_hlsl_lines(
    lines: &Vec<&[char]>,
    program: Option<&Program>,
    floats: &FloatTable,
) -> (r: Option<ResourceDef>)
    ensures
        match r {
            Some(rd) => hlsl_of_lines(
                views(lines@),
                match program {
                    Some(x) => Some(x.model()),
                    None => None,
                },
                floats@,
            ) == Some(rd.model()),
            None => hlsl_of_lines(
                views(lines@),
                match program {
                    Some(x) => Some(x.model()),
                    None => None,
                },
                floats@,
            ) is None,
        },
{
    let ghost ls = views(lines@);
    let merged = merged_mode(lines);
    let mut reader = Reader::new();
    let mut i: usize = 0;
    while i < lines.len()
        invariant
            ls == views(lines@),
            merged == is_merged(ls),
            i <= lines.len(),
            hlsl_lines(reader.model(), ls, i as int, merged, floats@) == hlsl_lines(
                no_state(),
                ls,
                0,
                merged,
                floats@,
            ),
        decreases lines.len() - i,
    {
        assert(ls[i as int] == lines@[i as int]@);
        if !reader.read_line(lines[i], merged, floats) {
            return None;
        }
        i += 1;
    }
    complete(reader, program)
}

/// Read resource definitions from their HLSL form. Whether a variable is used is
/// found out from the program where its line does not say so, and counts as not
/// used where there is no program.
pub fn rdef_from_hlsl(text: &str, program: Option<&Program>, floats: &FloatTable) -> (r: Option<
    ResourceDef,
>)
    ensures
        match r {
            Some(rd) => hlsl_parsed(
                text@,
                match program {
                    Some(x) => Some(x.model()),
                    None => None,
                },
                floats@,
            ) == Some(rd.model()),
            None => hlsl_parsed(
                text@,
                match program {
                    Some(x) => Some(x.model()),
                    None => None,
                },
                floats@,
            ) is None,
        },
{
    let chars = chars_of(text);
    let lines = lines_of(chars.as_slice(), false);
    rdef_from_hlsl_lines(&lines, program, floats)
}

} // verus!
