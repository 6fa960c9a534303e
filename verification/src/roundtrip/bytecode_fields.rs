//! The fields of instruction words read back.

use vstd::prelude::*;

use crate::grammar::tables::{NameTable, global_flags, table_name, table_value};
use crate::roundtrip::bytecode_operands::{lemma_stand_word, words_stand};
use crate::roundtrip::tables::{ascending, is_entry, lemma_name_and_number, lemma_number_name};
use crate::shex::decode::{
    extras_at, field, flags_of, modifiers_of, primitive_of, signed_nibble, topology_of, types_of,
    word,
};
use crate::shex::encode::{
    chained, code_of, extra_words, flag_bits, modifier_bits, nibble, offset_word, primitive_code,
    topology_code, types_word,
};
use crate::shex::ir::{GsOutputTopology, GsPrimitive, Modifiers, Opcode, ReturnType};

verus! {

// ---------------------------------------------------------------------------
// Fields of the first word
// ---------------------------------------------------------------------------

/// The bits between the opcode and the length.
pub open spec fn middle(w: u32) -> u32 {
    w & 0x00FF_F800
}

/// The first word of an instruction.
pub open spec fn first_word(op: u32, c: u32, n: u32, x: u32) -> u32 {
    (op & 0x7FF) | c | ((n & 0x7F) << 24) | x
}

/// The parts of a first word.
pub proof fn lemma_first_word(op: u32, c: u32, n: u32, x: u32)
    requires
        op <= 0x7FF,
        middle(c) == c,
        n <= 0x7F,
        x == 0 || x == 0x8000_0000,
    ensures
        field(first_word(op, c, n, x), 0, 0x7FF) == op,
        field(first_word(op, c, n, x), 24, 0x7F) == n,
        (field(first_word(op, c, n, x), 31, 1) == 1) == (x != 0),
        middle(first_word(op, c, n, x)) == c,
{
    let w = first_word(op, c, n, x);
    assert((w >> 0u32) & 0x7FF == op && (w >> 24u32) & 0x7F == n && ((w >> 31u32) & 1 == 1) == (x
        != 0) && w & 0x00FF_F800 == c) by (bit_vector)
        requires
            op <= 0x7FF,
            c & 0x00FF_F800 == c,
            n <= 0x7F,
            x == 0 || x == 0x8000_0000,
            w == (op & 0x7FF) | c | ((n & 0x7F) << 24) | x,
    ;
}

/// A field between opcode and length.
pub proof fn lemma_field(w: u32, s: u32, m: u32)
    requires
        11 <= s < 24,
        m <= 0x00FF_FFFFu32 >> s,
    ensures
        field(w, s, m) == field(middle(w), s, m),
{
    assert((w >> s) & m == ((w & 0x00FF_F800) >> s) & m) by (bit_vector)
        requires
            11 <= s < 24,
            m <= 0x00FF_FFFFu32 >> s,
    ;
}

/// A single bit is narrow enough.
pub proof fn lemma_one_bit(s: u32)
    requires
        11 <= s < 19,
    ensures
        1 <= 0x00FF_FFFFu32 >> s,
{
    assert(1 <= 0x00FF_FFFFu32 >> s) by (bit_vector)
        requires
            11 <= s < 19,
    ;
}

/// The masks of the fields are narrow enough.
proof fn lemma_narrow()
    ensures
        0x1FFF == 0x00FF_FFFFu32 >> 11,
        0x7FF == 0x00FF_FFFFu32 >> 13,
        0xFF == 0x00FF_FFFFu32 >> 16,
        0x3F == 0x00FF_FFFFu32 >> 18,
        0x1F == 0x00FF_FFFFu32 >> 19,
{
    assert(0x1FFF == 0x00FF_FFFFu32 >> 11 && 0x7FF == 0x00FF_FFFFu32 >> 13 && 0xFF
        == 0x00FF_FFFFu32 >> 16 && 0x3F == 0x00FF_FFFFu32 >> 18 && 0x1F == 0x00FF_FFFFu32 >> 19)
        by (bit_vector);
}

/// A number in the bits behind the opcode.
pub proof fn lemma_low_field(w: u32, v: u32, m: u32)
    requires
        v <= m,
        m == 1 || m == 3 || m == 7 || m == 0xF || m == 0x1F || m == 0x3F || m == 0x7F,
    ensures
        middle(v << 11) == v << 11,
        middle(w) == v << 11 ==> field(w, 11, m) == v,
{
    lemma_narrow();
    lemma_field(w, 11, m);
    assert((v << 11) & 0x00FF_F800 == v << 11 && ((v << 11) >> 11u32) & m == v) by (bit_vector)
        requires
            v <= m,
            m == 1 || m == 3 || m == 7 || m == 0xF || m == 0x1F || m == 0x3F || m == 0x7F,
    ;
}

/// A dimension and a second number in the bits behind the opcode.
pub proof fn lemma_two_fields(w: u32, d: u32, v: u32)
    requires
        d <= 0x1F,
        v <= 0xFF,
    ensures
        middle((d << 11) | (v << 16)) == (d << 11) | (v << 16),
        middle(w) == (d << 11) | (v << 16) ==> field(w, 11, 0x1F) == d && field(w, 16, 0xFF) == v,
        middle(w) == (d << 11) | (v << 16) && v <= 0x7F ==> field(w, 16, 0x7F) == v,
{
    lemma_narrow();
    lemma_field(w, 11, 0x1F);
    lemma_field(w, 16, 0xFF);
    lemma_field(w, 16, 0x7F);
    let x = (d << 11) | (v << 16);
    assert(x & 0x00FF_F800 == x && (x >> 11u32) & 0x1F == d && (x >> 16u32) & 0xFF == v && (v
        <= 0x7F ==> (x >> 16u32) & 0x7F == v)) by (bit_vector)
        requires
            d <= 0x1F,
            v <= 0xFF,
            x == (d << 11) | (v << 16),
    ;
}

// ---------------------------------------------------------------------------
// Modifiers
// ---------------------------------------------------------------------------

/// Whether bytecode can hold the modifiers of an instruction with that opcode:
/// each fits its bits, and only barriers and size queries have what is theirs.
pub open spec fn modifiers_fit(op: Opcode, m: Modifiers) -> bool {
    &&& m.precise_mask < 16
    &&& if op == Opcode::Sync {
        m.sync_flags < 16 && !m.saturate
    } else {
        m.sync_flags == 0
    }
    &&& match m.resinfo_return_type {
        Some(n) => op == Opcode::Resinfo && n < 4,
        None => op != Opcode::Resinfo,
    }
    &&& match m.tex_offsets {
        Some(o) => -8 <= o[0] < 8 && -8 <= o[1] < 8 && -8 <= o[2] < 8,
        None => true,
    }
    &&& match m.resource_dim {
        Some(r) => r <= 0x7FFF_FFFF && field(r, 0, 0x3F) == 2,
        None => true,
    }
    &&& match m.resource_return_type {
        Some(r) => r <= 0x7FFF_FFFF && field(r, 0, 0x3F) == 3,
        None => true,
    }
}

/// The modifiers without what further words say.
pub open spec fn near_modifiers(m: Modifiers) -> Modifiers {
    Modifiers { tex_offsets: None, resource_dim: None, resource_return_type: None, ..m }
}

/// The modifiers in the first word.
pub proof fn lemma_near_modifiers(op: Opcode, m: Modifiers, w: u32)
    requires
        modifiers_fit(op, m),
    ensures
        middle(modifier_bits(m)) == modifier_bits(m),
        middle(w) == modifier_bits(m) ==> modifiers_of(op, w) == near_modifiers(m),
{
    let r = match m.resinfo_return_type {
        Some(n) => n,
        None => 0u8,
    };
    let (s, t, p, y) = (m.saturate, m.test_nonzero, m.precise_mask, m.sync_flags);
    let c = modifier_bits(m);
    assert(((0u8 & 3) as u32) << 11 == 0u32) by (bit_vector);
    assert(c == (((r & 3) as u32) << 11) | (if s {
        0x2000u32
    } else {
        0u32
    }) | (if t {
        0x4_0000u32
    } else {
        0u32
    }) | (((p & 0xF) as u32) << 19) | (((y & 0xF) as u32) << 11));
    assert(c & 0x00FF_F800 == c && (y < 8 ==> ((c >> 13u32) & 1 == 1) == (s || y >= 4)) && ((c
        >> 18u32) & 1 == 1) == t && (((c >> 19u32) & 0xF) as u8) == p && (y == 0 ==> (((c >> 11u32)
        & 3) as u8) == r) && (r == 0 && !s ==> (((c >> 11u32) & 0xF) as u8) == y)) by (bit_vector)
        requires
            r < 4,
            p < 16,
            y < 16,
            c == (((r & 3) as u32) << 11) | (if s {
                0x2000u32
            } else {
                0u32
            }) | (if t {
                0x4_0000u32
            } else {
                0u32
            }) | (((p & 0xF) as u32) << 19) | (((y & 0xF) as u32) << 11),
    ;
    lemma_narrow();
    lemma_field(w, 13, 1);
    lemma_field(w, 18, 1);
    lemma_field(w, 19, 0xF);
    lemma_field(w, 11, 3);
    lemma_field(w, 11, 0xF);
}

/// A further word, with or without the bit that says that another follows.
pub proof fn lemma_link(x: u32, more: bool)
    requires
        x <= 0x7FFF_FFFF,
    ensures
        ({
            let w = if more {
                x | 0x8000_0000u32
            } else {
                x
            };
            &&& (field(w, 31, 1) == 1) == more
            &&& field(w, 0, 0x3F) == field(x, 0, 0x3F)
            &&& w & 0x7FFF_FFFF == x
            &&& field(w, 9, 0xF) == field(x, 9, 0xF)
            &&& field(w, 13, 0xF) == field(x, 13, 0xF)
            &&& field(w, 17, 0xF) == field(x, 17, 0xF)
        }),
{
    let w = if more {
        x | 0x8000_0000u32
    } else {
        x
    };
    assert(((w >> 31u32) & 1 == 1) == more && (w >> 0u32) & 0x3F == (x >> 0u32) & 0x3F && w
        & 0x7FFF_FFFF == x && (w >> 9u32) & 0xF == (x >> 9u32) & 0xF && (w >> 13u32) & 0xF == (x
        >> 13u32) & 0xF && (w >> 17u32) & 0xF == (x >> 17u32) & 0xF) by (bit_vector)
        requires
            x <= 0x7FFF_FFFF,
            w == (if more {
                x | 0x8000_0000u32
            } else {
                x
            }),
    ;
}

/// The word of texel offsets.
pub proof fn lemma_offset_word(o: [i8; 3])
    requires
        -8 <= o[0] < 8,
        -8 <= o[1] < 8,
        -8 <= o[2] < 8,
    ensures
        offset_word(o) <= 0x7FFF_FFFF,
        field(offset_word(o), 0, 0x3F) == 1,
        field(offset_word(o), 9, 0xF) == nibble(o[0]),
        field(offset_word(o), 13, 0xF) == nibble(o[1]),
        field(offset_word(o), 17, 0xF) == nibble(o[2]),
{
    let w = offset_word(o);
    let (a, b, c) = (nibble(o[0]), nibble(o[1]), nibble(o[2]));
    assert(w <= 0x7FFF_FFFF && (w >> 0u32) & 0x3F == 1 && (w >> 9u32) & 0xF == a && (w >> 13u32)
        & 0xF == b && (w >> 17u32) & 0xF == c) by (bit_vector)
        requires
            a < 16,
            b < 16,
            c < 16,
            w == 1u32 | (a << 9) | (b << 13) | (c << 17),
    ;
}

/// The first of the further words.
proof fn lemma_far_offsets(b: Seq<u32>, p: int, o: [i8; 3], more: bool, m: Modifiers)
    requires
        -8 <= o[0] < 8,
        -8 <= o[1] < 8,
        -8 <= o[2] < 8,
        word(b, p) == Some(
            if more {
                offset_word(o) | 0x8000_0000u32
            } else {
                offset_word(o)
            },
        ),
    ensures
        extras_at(b, p, true, m) == extras_at(
            b,
            p + 1,
            more,
            Modifiers { tex_offsets: Some(o), ..m },
        ),
{
    lemma_offset_word(o);
    lemma_link(offset_word(o), more);
    let w = word(b, p)->0;
    let t = [signed_nibble(w, 9), signed_nibble(w, 13), signed_nibble(w, 17)];
    assert(t@ =~= o@);
    assert(t =~= o);
}

/// The further words one by one.
pub proof fn lemma_far_modifiers(op: Opcode, m: Modifiers, b: Seq<u32>)
    requires
        modifiers_fit(op, m),
        words_stand(b, 1, chained(extra_words(m))),
    ensures
        extras_at(b, 1, extra_words(m).len() > 0, near_modifiers(m)) == Some(
            (m, (1 + extra_words(m).len()) as int),
        ),
{
    let e = extra_words(m);
    let n = e.len();
    let ws = chained(e);
    let m0 = near_modifiers(m);
    let m1 = Modifiers { tex_offsets: m.tex_offsets, ..m0 };
    let m2 = Modifiers { resource_dim: m.resource_dim, ..m1 };
    let a = if m.tex_offsets is Some {
        1int
    } else {
        0
    };
    let c = if m.resource_dim is Some {
        a + 1
    } else {
        a
    };
    if m.tex_offsets is Some {
        let o = m.tex_offsets->0;
        lemma_stand_word(b, 1, ws, 0);
        assert(e[0] == offset_word(o));
        lemma_far_offsets(b, 1, o, n > 1, m0);
    }
    assert(extras_at(b, 1, n > 0, m0) == extras_at(b, 1 + a, n > a, m1));
    if m.resource_dim is Some {
        let r = m.resource_dim->0;
        lemma_stand_word(b, 1, ws, a);
        lemma_low_bits(r);
        assert(e[a] == r);
        lemma_link(r, n > a + 1);
    }
    assert(extras_at(b, 1 + a, n > a, m1) == extras_at(b, 1 + c, n > c, m2));
    if m.resource_return_type is Some {
        let r = m.resource_return_type->0;
        lemma_stand_word(b, 1, ws, c);
        lemma_low_bits(r);
        assert(e[c] == r);
        lemma_link(r, false);
        assert(extras_at(b, 1 + c + 1, false, m) == Some((m, 1 + c + 1)));
    }
}

pub proof fn lemma_low_bits(r: u32)
    requires
        r <= 0x7FFF_FFFF,
    ensures
        r & 0x7FFF_FFFF == r,
{
    assert(r & 0x7FFF_FFFF == r) by (bit_vector)
        requires
            r <= 0x7FFF_FFFF,
    ;
}

// ---------------------------------------------------------------------------
// Names and types
// ---------------------------------------------------------------------------

/// A name in the bits behind the opcode.
pub proof fn lemma_name_field(t: NameTable, s: Seq<char>, w: u32, m: u32)
    requires
        ascending(t),
        is_entry(t, s),
        t.last().1 <= m,
        m == 1 || m == 3 || m == 7 || m == 0xF || m == 0x1F || m == 0x3F || m == 0x7F,
    ensures
        middle(code_of(t, s) << 11) == code_of(t, s) << 11,
        middle(w) == code_of(t, s) << 11 ==> table_name(t, field(w, 11, m)) == Some(s),
{
    lemma_name_and_number(t, s);
    lemma_low_field(w, code_of(t, s), m);
}

/// Whether the type is the one that its number stands for, and the number fits
/// its bits.
pub open spec fn type_fits(t: ReturnType) -> bool {
    ReturnType::spec_from_u32(t.spec_to_u32()) == t && t.spec_to_u32() <= 0xF
}

/// Whether all four types fit.
pub open spec fn types_fit(rt: [ReturnType; 4]) -> bool {
    type_fits(rt[0]) && type_fits(rt[1]) && type_fits(rt[2]) && type_fits(rt[3])
}

/// The four types in a word.
pub proof fn lemma_types(rt: [ReturnType; 4])
    requires
        types_fit(rt),
    ensures
        types_of(types_word(rt)) == rt,
{
    let w = types_word(rt);
    let (a, b, c, d) = (
        rt[0].spec_to_u32(),
        rt[1].spec_to_u32(),
        rt[2].spec_to_u32(),
        rt[3].spec_to_u32(),
    );
    assert((w >> 0u32) & 0xF == a && (w >> 4u32) & 0xF == b && (w >> 8u32) & 0xF == c && (w
        >> 12u32) & 0xF == d) by (bit_vector)
        requires
            a <= 0xF,
            b <= 0xF,
            c <= 0xF,
            d <= 0xF,
            w == (a & 0xF) | ((b & 0xF) << 4) | ((c & 0xF) << 8) | ((d & 0xF) << 12),
    ;
    let t = types_of(w);
    assert(t@ =~= rt@);
    assert(t =~= rt);
}

/// Whether the number of a primitive fits its bits.
pub open spec fn primitive_fits(p: GsPrimitive) -> bool {
    match p {
        GsPrimitive::ControlPointPatch(n) => 1 <= n <= 56,
        _ => true,
    }
}

/// A primitive and its number.
pub proof fn lemma_primitive(p: GsPrimitive)
    requires
        primitive_fits(p),
    ensures
        primitive_code(p) <= 0x3F,
        primitive_of(primitive_code(p)) == Some(p),
{
}

/// A topology and its number.
pub proof fn lemma_topology(t: GsOutputTopology)
    ensures
        topology_code(t) <= 0x7F,
        topology_of(topology_code(t)) == Some(t),
{
}

// ---------------------------------------------------------------------------
// Flags
// ---------------------------------------------------------------------------

/// The bit of a flag.
pub open spec fn flag_number(s: Seq<char>) -> u32 {
    code_of(global_flags(), s)
}

/// Whether the flags have names and stand in the order of their bits, each once.
pub open spec fn flags_fit(flags: Seq<Seq<char>>) -> bool {
    &&& forall|i: int| 0 <= i < flags.len() ==> is_entry(global_flags(), #[trigger] flags[i])
    &&& forall|i: int, j: int|
        0 <= i < j < flags.len() ==> flag_number(#[trigger] flags[i]) < flag_number(
            #[trigger] flags[j],
        )
}

/// The names of the flags ascend with their bits.
pub proof fn lemma_flag_table()
    ensures
        ascending(global_flags()),
        global_flags().last().1 == 7,
        forall|k: int| 0 <= k < 8 ==> (#[trigger] global_flags()[k]).1 == k,
{
}

/// One flag among the others.
pub proof fn lemma_flag(s: Seq<char>)
    requires
        is_entry(global_flags(), s),
    ensures
        flag_number(s) < 8,
        global_flags()[flag_number(s) as int].0 == s,
        table_value(global_flags(), s) == Some(flag_number(s)),
{
    lemma_flag_table();
    let t = global_flags();
    lemma_name_and_number(t, s);
    let v = flag_number(s);
    assert(t[v as int].1 == v);
    lemma_number_name(t, v as int);
}

/// A bit is set where a flag has its number.
pub proof fn lemma_flag_bit(flags: Seq<Seq<char>>, n: int, k: u32)
    requires
        0 <= n <= flags.len(),
        forall|i: int| 0 <= i < flags.len() ==> is_entry(global_flags(), #[trigger] flags[i]),
        k < 8,
    ensures
        middle(flag_bits(flags, n)) == flag_bits(flags, n),
        (field(flag_bits(flags, n), (11 + k) as u32, 1) == 1) == (exists|i: int|
            0 <= i < n && flag_number(#[trigger] flags[i]) == k),
    decreases n,
{
    let s = (11 + k) as u32;
    if n > 0 {
        lemma_flag_bit(flags, n - 1, k);
        lemma_flag(flags[n - 1]);
        let x = flag_bits(flags, n - 1);
        let b = flag_number(flags[n - 1]);
        let c = (11 + b) as u32;
        let y = flag_bits(flags, n);
        assert(y == x | (1u32 << c));
        assert((((y >> s) & 1 == 1) == ((x >> s) & 1 == 1 || s == c)) && y & 0x00FF_F800 == y)
            by (bit_vector)
            requires
                x & 0x00FF_F800 == x,
                11 <= s < 19,
                11 <= c < 19,
                y == x | (1u32 << c),
        ;
        if exists|i: int| 0 <= i < n && flag_number(#[trigger] flags[i]) == k {
            let i = choose|i: int| 0 <= i < n && flag_number(#[trigger] flags[i]) == k;
            if i < n - 1 {
                assert(flag_number(flags[i]) == k);
            }
        }
        if b == k {
            assert(flag_number(flags[n - 1]) == k);
        }
    } else {
        assert((0u32 >> s) & 1 == 0 && 0u32 & 0x00FF_F800 == 0) by (bit_vector)
            requires
                11 <= s < 19,
        ;
    }
}

/// The flags from bit `k` on, of which `j` have lower bits.
proof fn lemma_flags_from(flags: Seq<Seq<char>>, w: u32, k: int, j: int)
    requires
        flags_fit(flags),
        middle(w) == flag_bits(flags, flags.len() as int),
        0 <= k <= 8,
        0 <= j <= flags.len(),
        forall|i: int| 0 <= i < j ==> flag_number(#[trigger] flags[i]) < k,
        forall|i: int| j <= i < flags.len() ==> flag_number(#[trigger] flags[i]) >= k,
    ensures
        flags_of(w, k) == flags.skip(j),
    decreases 8 - k,
{
    let n = flags.len() as int;
    if k == 8 {
        if j < n {
            lemma_flag(flags[j]);
        }
        assert(flags.skip(j) =~= Seq::empty());
    } else {
        let s = (11 + k) as u32;
        lemma_flag_bit(flags, n, k as u32);
        lemma_one_bit(s);
        lemma_field(w, s, 1);
        if j < n && flag_number(flags[j]) == k {
            lemma_flag(flags[j]);
            assert forall|i: int| j + 1 <= i < n implies flag_number(#[trigger] flags[i]) >= k
                + 1 by {
                assert(flag_number(flags[j]) < flag_number(flags[i]));
            }
            lemma_flags_from(flags, w, k + 1, j + 1);
            assert(seq![flags[j]] + flags.skip(j + 1) =~= flags.skip(j));
        } else {
            assert forall|i: int| 0 <= i < n implies flag_number(#[trigger] flags[i]) != k by {
                if i > j {
                    assert(flag_number(flags[j]) < flag_number(flags[i]));
                }
            }
            lemma_flags_from(flags, w, k + 1, j);
        }
    }
}

/// The flags in a first word.
pub proof fn lemma_flags(flags: Seq<Seq<char>>, w: u32)
    requires
        flags_fit(flags),
    ensures
        middle(flag_bits(flags, flags.len() as int)) == flag_bits(flags, flags.len() as int),
        middle(w) == flag_bits(flags, flags.len() as int) ==> flags_of(w, 0) == flags,
{
    lemma_flag_bit(flags, flags.len() as int, 0);
    if middle(w) == flag_bits(flags, flags.len() as int) {
        lemma_flags_from(flags, w, 0, 0);
        assert(flags.skip(0) =~= flags);
    }
}

} // verus!
