//! What stands where in the bytes of resource definitions and signatures.

use vstd::prelude::*;

use crate::bytes::word_at;
use crate::chunks::rdef::is_sm5_version;
use crate::chunks::rdef_parse::{cstring_at, rdef_of, records_held, type_at, variable_at};
use crate::chunks::signature::{SignatureVersion, elements_of, version_of};
use crate::roundtrip::signature_bytes::{lemma_cstring, stands_at, terminable};

verus! {

/// Whether a name is read from that position: where a text stands there and is ended
/// by nought, the name is that text.
pub open spec fn named_at(d: Seq<u8>, p: int, name: Seq<char>) -> bool {
    forall|s: Seq<char>| terminable(s) && #[trigger] stands_at(d, s, p) ==> name == s
}

proof fn lemma_named(d: Seq<u8>, p: int)
    ensures
        named_at(d, p, cstring_at(d, p)),
{
    assert forall|s: Seq<char>| terminable(s) && #[trigger] stands_at(d, s, p) implies cstring_at(
        d,
        p,
    ) == s by {
        lemma_cstring(d, s, p);
    }
}

/// The low and the high half of a word, and its two lowest bytes.
proof fn lemma_parts(w: u32)
    ensures
        (w & 0xFFFF) as u16 == w % 0x1_0000,
        (w >> 16) as u16 == w / 0x1_0000,
        (w & 0xFF) as u8 == w % 0x100,
        ((w >> 8) & 0xFF) as u8 == w / 0x100 % 0x100,
        ((w >> 8) & 0xFF) == w / 0x100 % 0x100,
{
    assert((w & 0xFFFF) as u16 == w % 0x1_0000 && (w >> 16) as u16 == w / 0x1_0000 && (w
        & 0xFF) as u8 == w % 0x100 && ((w >> 8) & 0xFF) as u8 == w / 0x100 % 0x100 && ((w >> 8)
        & 0xFF) == w / 0x100 % 0x100) by (bit_vector);
}

proof fn lemma_all_held(d: Seq<u8>, at: int, stride: int, n: int)
    requires
        n == 0 || at + n * stride <= d.len(),
        n >= 0,
    ensures
        records_held(d, at, stride, n) == n,
{
}

/// The header of resource definitions: number and position of the constant buffers,
/// number and position of the bindings, shader model, compile flags, and the
/// position of the creator's name; from shader model five on, eight words more.
pub proof fn definitions_have_their_header(d: Seq<u8>)
    requires
        d.len() >= 28,
    ensures
        ({
            let rd = rdef_of(d);
            &&& word_at(d, 4) + 24 * word_at(d, 0) <= d.len() ==> rd.constant_buffers.len()
                == word_at(d, 0)
            &&& word_at(d, 12) + 32 * word_at(d, 8) <= d.len() ==> rd.bindings.len() == word_at(d, 8)
            &&& rd.target_version == word_at(d, 16)
            &&& rd.compile_flags == word_at(d, 20)
            &&& named_at(d, word_at(d, 24) as int, rd.creator)
            &&& rd.rd11_extra is Some == (word_at(d, 16) / 0x100 % 0x100 >= 5 && d.len() >= 60)
            &&& rd.rd11_extra is Some ==> forall|k: int|
                0 <= k < 8 ==> #[trigger] (rd.rd11_extra->0)@[k] == word_at(d, 28 + 4 * k)
        }),
{
    lemma_parts(word_at(d, 16));
    lemma_named(d, word_at(d, 24) as int);
    if word_at(d, 4) + 24 * word_at(d, 0) <= d.len() {
        lemma_all_held(d, word_at(d, 4) as int, 24, word_at(d, 0) as int);
    }
    if word_at(d, 12) + 32 * word_at(d, 8) <= d.len() {
        lemma_all_held(d, word_at(d, 12) as int, 32, word_at(d, 8) as int);
    }
    let rd = rdef_of(d);
    if rd.rd11_extra is Some {
        assert forall|k: int| 0 <= k < 8 implies #[trigger] (rd.rd11_extra->0)@[k] == word_at(
            d,
            28 + 4 * k,
        ) by {
            assert(k == 0 || k == 1 || k == 2 || k == 3 || k == 4 || k == 5 || k == 6 || k == 7);
        }
    }
}

/// The record of a binding: position of its name, kind, return type, dimension,
/// samples, register, number of registers, and flags, a word each.
pub proof fn bindings_have_their_records(d: Seq<u8>, i: int)
    requires
        0 <= i < rdef_of(d).bindings.len(),
    ensures
        ({
            let b = rdef_of(d).bindings[i];
            let p = word_at(d, 12) + 32 * i;
            &&& named_at(d, word_at(d, p) as int, b.name)
            &&& b.input_type == word_at(d, p + 4)
            &&& b.return_type == word_at(d, p + 8)
            &&& b.dimension == word_at(d, p + 12)
            &&& b.num_samples == word_at(d, p + 16)
            &&& b.bind_point == word_at(d, p + 20)
            &&& b.bind_count == word_at(d, p + 24)
            &&& b.flags == word_at(d, p + 28)
        }),
{
    lemma_named(d, word_at(d, word_at(d, 12) + 32 * i) as int);
}

/// The record of a constant buffer: position of its name, number and position of its
/// variables, size, flags and kind, a word each.
pub proof fn buffers_have_their_records(d: Seq<u8>, i: int)
    requires
        0 <= i < rdef_of(d).constant_buffers.len(),
    ensures
        ({
            let c = rdef_of(d).constant_buffers[i];
            let p = word_at(d, 4) + 24 * i;
            let n = word_at(d, p + 4);
            let size = if word_at(d, 16) / 0x100 % 0x100 >= 5 {
                40int
            } else {
                24
            };
            &&& named_at(d, word_at(d, p) as int, c.name)
            &&& word_at(d, p + 8) + size * n <= d.len() ==> c.variables.len() == n
            &&& c.size == word_at(d, p + 12)
            &&& c.flags == word_at(d, p + 16)
            &&& c.cb_type == word_at(d, p + 20)
        }),
{
    let p = word_at(d, 4) + 24 * i;
    let n = word_at(d, p + 4) as int;
    lemma_parts(word_at(d, 16));
    lemma_named(d, word_at(d, p) as int);
    let size = if word_at(d, 16) / 0x100 % 0x100 >= 5 {
        40int
    } else {
        24
    };
    if word_at(d, p + 8) + size * n <= d.len() {
        assert(n * size == size * n) by (nonlinear_arith);
        lemma_all_held(d, word_at(d, p + 8) as int, size, n);
    }
}

/// The record of a variable: position of its name, offset, size, flags, and the
/// positions of its type and default value, a word each; from shader model five on,
/// the texture slots and the sampler slots. A default value at position nought is
/// none; another is as long as the variable.
pub proof fn variables_have_their_records(d: Seq<u8>, i: int, j: int)
    requires
        0 <= i < rdef_of(d).constant_buffers.len(),
        0 <= j < rdef_of(d).constant_buffers[i].variables.len(),
    ensures
        ({
            let v = rdef_of(d).constant_buffers[i].variables[j];
            let sm5 = word_at(d, 16) / 0x100 % 0x100 >= 5;
            let size = if sm5 {
                40int
            } else {
                24
            };
            let p = word_at(d, word_at(d, 4) + 24 * i + 8) + size * j;
            let at = word_at(d, p + 20);
            &&& named_at(d, word_at(d, p) as int, v.name)
            &&& v.offset == word_at(d, p + 4)
            &&& v.size == word_at(d, p + 8)
            &&& v.flags == word_at(d, p + 12)
            &&& v.var_type == type_at(d, word_at(d, p + 16) as int, sm5, d.len())
            &&& at == 0 ==> v.default_value.len() == 0
            &&& at > 0 && at + v.size <= d.len() ==> v.default_value == d.subrange(
                at as int,
                at + v.size,
            )
            &&& sm5 ==> v.texture_start == Some(word_at(d, p + 24)) && v.texture_size == Some(
                word_at(d, p + 28),
            ) && v.sampler_start == Some(word_at(d, p + 32)) && v.sampler_size == Some(
                word_at(d, p + 36),
            )
            &&& !sm5 ==> v.texture_start is None && v.texture_size is None && v.sampler_start
                is None && v.sampler_size is None
        }),
{
    lemma_parts(word_at(d, 16));
    let sm5 = is_sm5_version(word_at(d, 16));
    let size = if sm5 {
        40int
    } else {
        24
    };
    let p = word_at(d, word_at(d, 4) + 24 * i + 8) + size * j;
    assert(size * j == j * size) by (nonlinear_arith);
    lemma_named(d, word_at(d, p) as int);
    let v = rdef_of(d).constant_buffers[i].variables[j];
    assert(v == variable_at(d, p, sm5));
    let at = word_at(d, p + 20);
    if at > 0 && v.size == 0 && at + v.size <= d.len() {
        assert(d.subrange(at as int, at + v.size) =~= Seq::empty());
    }
}

/// The record of a type: class and base type, rows and columns, array elements and
/// number of members, each the low and the high half of a word, and the position of
/// the members; from shader model five on, four words and, at byte 32, the position
/// of the name. A member is the position of its name, that of its type, and its
/// offset.
pub proof fn types_have_their_records(d: Seq<u8>, off: int, sm5: bool, depth: nat, k: int)
    requires
        0 <= off,
        off + 16 <= d.len(),
        depth > 0,
    ensures
        ({
            let t = type_at(d, off, sm5, depth);
            let n = word_at(d, off + 8) / 0x1_0000;
            let at = word_at(d, off + 12);
            &&& t.class == word_at(d, off) % 0x1_0000
            &&& t.var_type == word_at(d, off) / 0x1_0000
            &&& t.rows == word_at(d, off + 4) % 0x1_0000
            &&& t.columns == word_at(d, off + 4) / 0x1_0000
            &&& t.elements == word_at(d, off + 8) % 0x1_0000
            &&& at + 12 * n <= d.len() ==> t.members.len() == n
            &&& 0 <= k < t.members.len() ==> {
                let m = t.members[k];
                let q = at + 12 * k;
                &&& named_at(d, word_at(d, q) as int, m.name)
                &&& m.member_type == type_at(
                    d,
                    word_at(d, q + 4) as int,
                    sm5,
                    (depth - 1) as nat,
                )
                &&& m.offset == word_at(d, q + 8)
            }
            &&& t.sm5_extra is Some == sm5
            &&& sm5 && off + 36 <= d.len() ==> (t.sm5_extra->0)@ == seq![
                word_at(d, off + 16),
                word_at(d, off + 20),
                word_at(d, off + 24),
                word_at(d, off + 28),
            ]
            &&& sm5 && off + 36 <= d.len() && 0 < word_at(d, off + 32) < d.len() ==> named_at(
                d,
                word_at(d, off + 32) as int,
                t.name,
            )
            &&& !sm5 ==> t.name.len() == 0
        }),
{
    lemma_parts(word_at(d, off));
    lemma_parts(word_at(d, off + 4));
    lemma_parts(word_at(d, off + 8));
    let t = type_at(d, off, sm5, depth);
    let at = word_at(d, off + 12);
    if 0 <= k < t.members.len() {
        lemma_named(d, word_at(d, at + k * 12) as int);
    }
    if sm5 && off + 36 <= d.len() {
        lemma_named(d, word_at(d, off + 32) as int);
        assert((t.sm5_extra->0)@ =~= seq![
            word_at(d, off + 16),
            word_at(d, off + 20),
            word_at(d, off + 24),
            word_at(d, off + 28),
        ]);
    }
}

/// A signature begins with the number of its elements; their records follow from byte
/// 8 on, 24 bytes each, 28 in chunks with streams, 32 in those with precisions too.
/// A record is the stream where there are streams, then position of the name, index,
/// system value, component type, register, a word with the two masks in its lowest
/// bytes, and the precision where there are precisions.
pub proof fn elements_have_their_records(d: Seq<u8>, v: SignatureVersion, i: int)
    requires
        d.len() >= 8,
    ensures
        ({
            let es = elements_of(d, v);
            let size = if v is V0 {
                24int
            } else if v is V5 {
                28
            } else {
                32
            };
            let p = 8 + size * i;
            let q = if v is V0 {
                p
            } else {
                p + 4
            };
            &&& 8 + size * word_at(d, 0) <= d.len() ==> es.len() == word_at(d, 0)
            &&& 0 <= i < es.len() ==> {
                let e = es[i];
                &&& named_at(d, word_at(d, q) as int, e.semantic_name)
                &&& e.semantic_index == word_at(d, q + 4)
                &&& e.system_value == word_at(d, q + 8)
                &&& e.component_type == word_at(d, q + 12)
                &&& e.register == word_at(d, q + 16)
                &&& e.mask == word_at(d, q + 20) % 0x100
                &&& e.rw_mask == word_at(d, q + 20) / 0x100 % 0x100
                &&& v is V0 ==> e.stream is None
                &&& !(v is V0) ==> e.stream == Some(word_at(d, p))
                &&& v is V1 ==> e.min_precision is Some && (e.min_precision->0).value == word_at(
                    d,
                    q + 24,
                )
                &&& !(v is V1) ==> e.min_precision is None
            }
        }),
{
    let es = elements_of(d, v);
    let size = if v is V0 {
        24int
    } else if v is V5 {
        28
    } else {
        32
    };
    let p = 8 + size * i;
    let q = if v is V0 {
        p
    } else {
        p + 4
    };
    let n = word_at(d, 0) as int;
    assert(size * i == i * size) by (nonlinear_arith);
    assert(size * n == n * size) by (nonlinear_arith);
    if 8 + size * n <= d.len() {
        lemma_all_held(d, 8, size, n);
    }
    lemma_parts(word_at(d, q + 20));
    lemma_named(d, word_at(d, q) as int);
}

/// Which chunks have streams and precisions: `OSG5` has streams, codes that end in
/// the digit one have both, others have neither.
pub proof fn codes_tell_the_form_of_signatures(f: Seq<u8>)
    requires
        f.len() == 4,
    ensures
        f == seq![0x4Fu8, 0x53u8, 0x47u8, 0x35u8] ==> version_of(f) is V5,
        f[3] == 0x31 ==> version_of(f) is V1,
        f[3] != 0x31 && f != seq![0x4Fu8, 0x53u8, 0x47u8, 0x35u8] ==> version_of(f) is V0,
{
}

} // verus!
