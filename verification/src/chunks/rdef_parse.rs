//! Reading resource definitions from the bytes of their chunk.
//!
//! The chunk begins with a header of seven words: the number and position of
//! the constant buffers, the number and position of the bindings, the shader
//! model, the compile flags and the position of the creator's name.

use nostdio::SliceCursor;
use vstd::prelude::*;
use vstd::slice::slice_subrange;
use vstd::utf8::{decode_utf8, valid_utf8};

use crate::bytes::{
    cursor_bytes, cursor_new, cursor_pos, cursor_read_u32, cursor_seek, word_at, word_or_zero,
};
use crate::chunks::rdef::{
    BindingModel, CBufferDef, CBufferModel, CBufferVariable, MemberDesc, MemberModel, RdefModel,
    ResourceBinding, ResourceDef, TypeDesc, TypeModel, VariableModel, binding_models,
    cbuffer_models, is_sm5, is_sm5_version, lemma_type_model, member_models, no_type,
    variable_models,
};
use crate::utf8::text_of_bytes;

verus! {

/// Number of bytes from position `p` to the next zero byte, or to the end.
pub open spec fn cstring_len(d: Seq<u8>, p: int) -> nat
    decreases d.len() - p,
{
    if p < 0 || p >= d.len() || d[p] == 0 {
        0
    } else {
        1 + cstring_len(d, p + 1)
    }
}

/// The zero-terminated text at position `p`; empty where it is no text.
pub open spec fn cstring_at(d: Seq<u8>, p: int) -> Seq<char> {
    if p >= d.len() {
        Seq::empty()
    } else {
        let b = d.subrange(p, p + cstring_len(d, p));
        if valid_utf8(b) {
            decode_utf8(b)
        } else {
            Seq::empty()
        }
    }
}

/// The zero-terminated text at position `p`.
pub(crate) fn read_cstring(d: &[u8], p: usize) -> (r: String)
    ensures
        r@ == cstring_at(d@, p as int),
{
    if p >= d.len() {
        return String::new();
    }
    let mut q: usize = p;
    while q < d.len() && d[q] != 0
        invariant
            p <= q <= d.len(),
            cstring_len(d@, p as int) == (q - p) + cstring_len(d@, q as int),
        decreases d.len() - q,
    {
        q += 1;
    }
    match text_of_bytes(slice_subrange(d, p, q)) {
        Some(s) => s,
        None => String::new(),
    }
}

// ---------------------------------------------------------------------------
// Types
// ---------------------------------------------------------------------------

/// The name of the type at position `off`, which shader model five gives one.
pub open spec fn type_name_at(d: Seq<u8>, off: int) -> Seq<char> {
    if off + 36 <= d.len() {
        let p = word_at(d, off + 32);
        if 0 < p < d.len() {
            cstring_at(d, p as int)
        } else {
            Seq::empty()
        }
    } else {
        Seq::empty()
    }
}

/// The type at position `off`, nested at most `depth` deep; a type that the
/// bytes do not hold, or one nested deeper, counts as empty.
pub open spec fn type_at(d: Seq<u8>, off: int, sm5: bool, depth: nat) -> TypeModel
    decreases depth,
{
    if depth == 0 || off + 16 > d.len() {
        no_type()
    } else {
        let ct = word_at(d, off);
        let rc = word_at(d, off + 4);
        let em = word_at(d, off + 8);
        let at = word_at(d, off + 12) as int;
        let count = (em >> 16) as u16;
        TypeModel {
            class: (ct & 0xFFFF) as u16,
            var_type: (ct >> 16) as u16,
            rows: (rc & 0xFFFF) as u16,
            columns: (rc >> 16) as u16,
            elements: (em & 0xFFFF) as u16,
            members: if count > 0 && at + count * 12 <= d.len() {
                Seq::new(
                    count as nat,
                    |k: int|
                        MemberModel {
                            name: cstring_at(d, word_at(d, at + k * 12) as int),
                            member_type: type_at(
                                d,
                                word_at(d, at + k * 12 + 4) as int,
                                sm5,
                                (depth - 1) as nat,
                            ),
                            offset: word_at(d, at + k * 12 + 8),
                        },
                )
            } else {
                Seq::empty()
            },
            sm5_extra: if sm5 {
                Some(
                    [
                        word_or_zero(d, off + 16),
                        word_or_zero(d, off + 20),
                        word_or_zero(d, off + 24),
                        word_or_zero(d, off + 28),
                    ],
                )
            } else {
                None
            },
            name: if sm5 {
                type_name_at(d, off)
            } else {
                Seq::empty()
            },
        }
    }
}

/// The next word, nought where the cursor has passed the last.
fn next_or_zero(c: &mut SliceCursor<'_>, Ghost(p): Ghost<int>) -> (r: u32)
    requires
        cursor_pos(*old(c)) <= cursor_bytes(*old(c)).len(),
        cursor_pos(*old(c)) == p || (cursor_pos(*old(c)) == cursor_bytes(*old(c)).len() && p
            > cursor_bytes(*old(c)).len() - 4),
        0 <= p,
    ensures
        r == word_or_zero(cursor_bytes(*old(c)), p),
        cursor_bytes(*final(c)) == cursor_bytes(*old(c)),
        cursor_pos(*final(c)) <= cursor_bytes(*old(c)).len(),
        cursor_pos(*final(c)) == p + 4 || (cursor_pos(*final(c)) == cursor_bytes(*old(c)).len() && p
            + 4 > cursor_bytes(*old(c)).len() - 4),
{
    match cursor_read_u32(c) {
        Some(v) => v,
        None => 0,
    }
}

fn empty_type() -> (r: TypeDesc)
    ensures
        r.model() == no_type(),
{
    let r = TypeDesc {
        class: 0,
        var_type: 0,
        rows: 0,
        columns: 0,
        elements: 0,
        members: Vec::new(),
        sm5_extra: None,
        name: String::new(),
    };
    proof {
        lemma_type_model(r);
        assert(member_models(r.members@) =~= Seq::empty());
        assert(r.model().members =~= no_type().members);
    }
    r
}

/// The name of the type at position `offset`.
fn parse_type_name(data: &[u8], offset: usize) -> (r: String)
    ensures
        r@ == type_name_at(data@, offset as int),
{
    if offset > data.len() || data.len() - offset < 36 {
        return String::new();
    }
    let mut c = cursor_new(data);
    if !cursor_seek(&mut c, offset + 32) {
        return String::new();
    }
    match cursor_read_u32(&mut c) {
        Some(p) => {
            let noff: usize = p as usize;
            if 0 < noff && noff < data.len() {
                read_cstring(data, noff)
            } else {
                String::new()
            }
        },
        None => String::new(),
    }
}

/// The type at position `offset`, nested at most `depth` deep.
fn parse_type_desc(data: &[u8], offset: usize, sm5: bool, depth: usize) -> (r: TypeDesc)
    ensures
        r.model() == type_at(data@, offset as int, sm5, depth as nat),
    decreases depth,
{
    let ghost d = data@;
    if depth == 0 || offset > data.len() || data.len() - offset < 16 {
        return empty_type();
    }
    let mut c = cursor_new(data);
    if !cursor_seek(&mut c, offset) {
        return empty_type();
    }
    let ct: u32 = next_or_zero(&mut c, Ghost(offset as int));
    let rc: u32 = next_or_zero(&mut c, Ghost(offset + 4));
    let em: u32 = next_or_zero(&mut c, Ghost(offset + 8));
    let mo: u32 = next_or_zero(&mut c, Ghost(offset + 12));
    let count: u16 = (em >> 16) as u16;
    let sm5_extra = if sm5 {
        let a: u32 = next_or_zero(&mut c, Ghost(offset + 16));
        let b: u32 = next_or_zero(&mut c, Ghost(offset + 20));
        let e: u32 = next_or_zero(&mut c, Ghost(offset + 24));
        let f: u32 = next_or_zero(&mut c, Ghost(offset + 28));
        Some([a, b, e, f])
    } else {
        None
    };
    let mut members: Vec<MemberDesc> = Vec::new();
    let ghost ms = type_at(d, offset as int, sm5, depth as nat).members;
    if count > 0 && mo as u64 + count as u64 * 12 <= data.len() as u64 {
        let at: usize = mo as usize;
        let n: usize = count as usize;
        let mut k: usize = 0;
        while k < n
            invariant
                d == data@,
                depth > 0,
                at + n * 12 <= data.len(),
                n == ms.len(),
                k <= n,
                members@.len() == k,
                cursor_bytes(c) == d,
                forall|i: int|
                    0 <= i < n ==> #[trigger] ms[i] == (MemberModel {
                        name: cstring_at(d, word_at(d, at + i * 12) as int),
                        member_type: type_at(
                            d,
                            word_at(d, at + i * 12 + 4) as int,
                            sm5,
                            (depth - 1) as nat,
                        ),
                        offset: word_at(d, at + i * 12 + 8),
                    }),
                forall|i: int| 0 <= i < k ==> #[trigger] members@[i].model() == ms[i],
            decreases n - k,
        {
            let base: usize = at + k * 12;
            let ok = cursor_seek(&mut c, base);
            assert(ok);
            let name_off: u32 = next_or_zero(&mut c, Ghost(base as int));
            let type_off: u32 = next_or_zero(&mut c, Ghost(base + 4));
            let off: u32 = next_or_zero(&mut c, Ghost(base + 8));
            let member_type = parse_type_desc(data, type_off as usize, sm5, depth - 1);
            let m = MemberDesc {
                name: read_cstring(data, name_off as usize),
                member_type,
                offset: off,
            };
            assert(m.model() == ms[k as int]);
            members.push(m);
            k += 1;
        }
        assert(member_models(members@) =~= ms);
    } else {
        assert(member_models(members@) =~= ms);
    }
    let name = if sm5 { parse_type_name(data, offset) } else { String::new() };
    let r = TypeDesc {
        class: (ct & 0xFFFF) as u16,
        var_type: (ct >> 16) as u16,
        rows: (rc & 0xFFFF) as u16,
        columns: (rc >> 16) as u16,
        elements: (em & 0xFFFF) as u16,
        members,
        sm5_extra,
        name,
    };
    proof {
        lemma_type_model(r);
        assert(r.model() =~= type_at(d, offset as int, sm5, depth as nat));
    }
    r
}

// ---------------------------------------------------------------------------
// Bindings and buffers
// ---------------------------------------------------------------------------

/// The binding at position `p`.
pub open spec fn binding_at(d: Seq<u8>, p: int) -> BindingModel {
    BindingModel {
        name: cstring_at(d, word_at(d, p) as int),
        input_type: word_at(d, p + 4),
        return_type: word_at(d, p + 8),
        dimension: word_at(d, p + 12),
        num_samples: word_at(d, p + 16),
        bind_point: word_at(d, p + 20),
        bind_count: word_at(d, p + 24),
        flags: word_at(d, p + 28),
    }
}

/// How many of the `count` records of `stride` bytes from position `at` on the
/// bytes hold.
pub open spec fn records_held(d: Seq<u8>, at: int, stride: int, count: int) -> int
    decreases count,
{
    if count <= 0 {
        0
    } else if at + count * stride <= d.len() {
        count
    } else {
        records_held(d, at, stride, count - 1)
    }
}

/// The default value of a variable, at position `p` where it is not nought.
pub open spec fn default_at(d: Seq<u8>, p: u32, size: u32) -> Seq<u8> {
    if p != 0 && size > 0 && p + size <= d.len() {
        d.subrange(p as int, p + size)
    } else {
        Seq::empty()
    }
}

/// The variable at position `p`.
pub open spec fn variable_at(d: Seq<u8>, p: int, sm5: bool) -> VariableModel {
    let size = word_at(d, p + 8);
    VariableModel {
        name: cstring_at(d, word_at(d, p) as int),
        offset: word_at(d, p + 4),
        size,
        flags: word_at(d, p + 12),
        var_type: type_at(d, word_at(d, p + 16) as int, sm5, d.len()),
        default_value: default_at(d, word_at(d, p + 20), size),
        texture_start: if sm5 {
            Some(word_at(d, p + 24))
        } else {
            None
        },
        texture_size: if sm5 {
            Some(word_at(d, p + 28))
        } else {
            None
        },
        sampler_start: if sm5 {
            Some(word_at(d, p + 32))
        } else {
            None
        },
        sampler_size: if sm5 {
            Some(word_at(d, p + 36))
        } else {
            None
        },
    }
}

/// The size of a variable's record.
pub open spec fn variable_stride(sm5: bool) -> int {
    if sm5 {
        40
    } else {
        24
    }
}

/// The constant buffer at position `p`.
pub open spec fn cbuffer_at(d: Seq<u8>, p: int, sm5: bool) -> CBufferModel {
    let count = word_at(d, p + 4) as int;
    let at = word_at(d, p + 8) as int;
    let stride = variable_stride(sm5);
    CBufferModel {
        name: cstring_at(d, word_at(d, p) as int),
        variables: Seq::new(
            records_held(d, at, stride, count) as nat,
            |j: int| variable_at(d, at + j * stride, sm5),
        ),
        size: word_at(d, p + 12),
        flags: word_at(d, p + 16),
        cb_type: word_at(d, p + 20),
    }
}

/// The resource definitions in the bytes of a chunk of 28 bytes at least.
pub open spec fn rdef_of(d: Seq<u8>) -> RdefModel {
    let sm5 = is_sm5_version(word_at(d, 16));
    RdefModel {
        constant_buffers: Seq::new(
            records_held(d, word_at(d, 4) as int, 24, word_at(d, 0) as int) as nat,
            |i: int| cbuffer_at(d, word_at(d, 4) + i * 24, sm5),
        ),
        bindings: Seq::new(
            records_held(d, word_at(d, 12) as int, 32, word_at(d, 8) as int) as nat,
            |i: int| binding_at(d, word_at(d, 12) + i * 32),
        ),
        creator: cstring_at(d, word_at(d, 24) as int),
        target_version: word_at(d, 16),
        compile_flags: word_at(d, 20),
        rd11_extra: if sm5 && d.len() >= 60 {
            Some(
                [
                    word_at(d, 28),
                    word_at(d, 32),
                    word_at(d, 36),
                    word_at(d, 40),
                    word_at(d, 44),
                    word_at(d, 48),
                    word_at(d, 52),
                    word_at(d, 56),
                ],
            )
        } else {
            None
        },
    }
}

/// Where record number `k` is the first that does not fit, there are `k`.
pub proof fn lemma_records_held(d: Seq<u8>, at: int, stride: int, count: int, k: int)
    requires
        0 <= k <= count,
        stride > 0,
        k == 0 || at + k * stride <= d.len(),
        k == count || at + (k + 1) * stride > d.len(),
    ensures
        records_held(d, at, stride, count) == k,
    decreases count,
{
    if count > k {
        assert(at + count * stride > d.len()) by (nonlinear_arith)
            requires
                count >= k + 1,
                stride > 0,
                at + (k + 1) * stride > d.len(),
        ;
        lemma_records_held(d, at, stride, count - 1, k);
    }
}

/// The next `n` words of the cursor, where there are that many.
fn next_words(c: &mut SliceCursor<'_>, n: usize) -> (r: Option<Vec<u32>>)
    requires
        cursor_pos(*old(c)) <= cursor_bytes(*old(c)).len(),
    ensures
        cursor_bytes(*final(c)) == cursor_bytes(*old(c)),
        cursor_pos(*final(c)) <= cursor_bytes(*old(c)).len(),
        match r {
            Some(v) => {
                &&& cursor_pos(*old(c)) + 4 * n <= cursor_bytes(*old(c)).len()
                &&& v@.len() == n
                &&& forall|i: int|
                    0 <= i < n ==> #[trigger] v@[i] == word_at(
                        cursor_bytes(*old(c)),
                        cursor_pos(*old(c)) + 4 * i,
                    )
                &&& cursor_pos(*final(c)) == cursor_pos(*old(c)) + 4 * n
            },
            None => cursor_pos(*old(c)) + 4 * n > cursor_bytes(*old(c)).len(),
        },
{
    let ghost start = cursor_pos(*c);
    let ghost d = cursor_bytes(*c);
    let mut v: Vec<u32> = Vec::new();
    while v.len() < n
        invariant
            v@.len() <= n,
            cursor_bytes(*c) == d,
            cursor_pos(*c) == start + 4 * v@.len(),
            cursor_pos(*c) <= d.len(),
            start == cursor_pos(*old(c)),
            d == cursor_bytes(*old(c)),
            forall|i: int| 0 <= i < v@.len() ==> #[trigger] v@[i] == word_at(d, start + 4 * i),
        decreases n - v@.len(),
    {
        match cursor_read_u32(c) {
            Some(x) => {
                v.push(x);
            },
            None => {
                return None;
            },
        }
    }
    Some(v)
}

fn parse_bindings(data: &[u8], at: u32, count: u32) -> (r: Vec<ResourceBinding>)
    ensures
        binding_models(r@) == Seq::new(
            records_held(data@, at as int, 32, count as int) as nat,
            |i: int| binding_at(data@, at + i * 32),
        ),
{
    let ghost d = data@;
    let mut out: Vec<ResourceBinding> = Vec::new();
    let mut c = cursor_new(data);
    let mut i: u32 = 0;
    while i < count
        invariant_except_break
            i <= count,
            i == 0 || at + i * 32 <= d.len(),
        invariant
            d == data@,
            out@.len() == i,
            cursor_bytes(c) == d,
            forall|k: int|
                0 <= k < i ==> #[trigger] out@[k].model() == binding_at(d, at + k * 32),
        ensures
            i == records_held(d, at as int, 32, count as int),
        decreases count - i,
    {
        let base: u64 = at as u64 + i as u64 * 32;
        if base + 32 > data.len() as u64 {
            proof {
                lemma_records_held(d, at as int, 32, count as int, i as int);
            }
            break;
        }
        let ok = cursor_seek(&mut c, base as usize);
        assert(ok);
        match next_words(&mut c, 8) {
            Some(v) => {
                assert(v@[0] == word_at(d, base as int));
                let b = ResourceBinding {
                    name: read_cstring(data, v[0] as usize),
                    input_type: v[1],
                    return_type: v[2],
                    dimension: v[3],
                    num_samples: v[4],
                    bind_point: v[5],
                    bind_count: v[6],
                    flags: v[7],
                };
                assert(b.model() == binding_at(d, at + i * 32));
                out.push(b);
            },
            None => {},
        }
        i += 1;
        proof {
            if i == count {
                lemma_records_held(d, at as int, 32, count as int, i as int);
            }
        }
    }
    proof {
        if count == 0 {
            lemma_records_held(d, at as int, 32, 0, 0);
        }
        assert(binding_models(out@) =~= Seq::new(
            records_held(data@, at as int, 32, count as int) as nat,
            |i: int| binding_at(data@, at + i * 32),
        ));
    }
    out
}

fn parse_default(data: &[u8], p: u32, size: u32) -> (r: Vec<u8>)
    ensures
        r@ == default_at(data@, p, size),
{
    let mut out: Vec<u8> = Vec::new();
    if p != 0 && size > 0 && p as u64 + size as u64 <= data.len() as u64 {
        let start: usize = p as usize;
        let n: usize = size as usize;
        let mut i: usize = 0;
        while i < n
            invariant
                start + n <= data.len(),
                i <= n,
                out@ == data@.subrange(start as int, start + i),
            decreases n - i,
        {
            out.push(data[start + i]);
            i += 1;
            assert(out@ =~= data@.subrange(start as int, start + i));
        }
    }
    assert(out@ =~= default_at(data@, p, size));
    out
}

fn parse_variables(data: &[u8], at: u32, count: u32, sm5: bool) -> (r: Vec<CBufferVariable>)
    ensures
        variable_models(r@) == Seq::new(
            records_held(data@, at as int, variable_stride(sm5), count as int) as nat,
            |j: int| variable_at(data@, at + j * variable_stride(sm5), sm5),
        ),
{
    let ghost d = data@;
    let stride: u64 = if sm5 { 40 } else { 24 };
    let n: usize = if sm5 { 10 } else { 6 };
    let mut out: Vec<CBufferVariable> = Vec::new();
    let mut c = cursor_new(data);
    let mut i: u32 = 0;
    while i < count
        invariant_except_break
            i <= count,
            i == 0 || at + i * stride <= d.len(),
        invariant
            d == data@,
            stride == variable_stride(sm5),
            stride == 24 || stride == 40,
            n == if sm5 {
                10int
            } else {
                6
            },
            out@.len() == i,
            cursor_bytes(c) == d,
            forall|k: int|
                0 <= k < i ==> #[trigger] out@[k].model() == variable_at(d, at + k * stride, sm5),
        ensures
            i == records_held(d, at as int, stride as int, count as int),
        decreases count - i,
    {
        let base: u64 = if sm5 { at as u64 + i as u64 * 40 } else { at as u64 + i as u64 * 24 };
        assert(base == at + i * stride);
        if base + stride > data.len() as u64 {
            proof {
                assert((i + 1) * stride == i * stride + stride) by (nonlinear_arith);
                lemma_records_held(d, at as int, stride as int, count as int, i as int);
            }
            break;
        }
        let ok = cursor_seek(&mut c, base as usize);
        assert(ok);
        match next_words(&mut c, n) {
            Some(v) => {
                assert(v@[0] == word_at(d, base as int));
                let x = CBufferVariable {
                    name: read_cstring(data, v[0] as usize),
                    offset: v[1],
                    size: v[2],
                    flags: v[3],
                    var_type: parse_type_desc(data, v[4] as usize, sm5, data.len()),
                    default_value: parse_default(data, v[5], v[2]),
                    texture_start: if sm5 { Some(v[6]) } else { None },
                    texture_size: if sm5 { Some(v[7]) } else { None },
                    sampler_start: if sm5 { Some(v[8]) } else { None },
                    sampler_size: if sm5 { Some(v[9]) } else { None },
                };
                assert(x.model() == variable_at(d, at + i * stride, sm5));
                out.push(x);
            },
            None => {},
        }
        i += 1;
        proof {
            assert((i - 1) * stride + stride == i * stride) by (nonlinear_arith);
            if i == count {
                lemma_records_held(d, at as int, stride as int, count as int, i as int);
            }
        }
    }
    proof {
        if count == 0 {
            lemma_records_held(d, at as int, stride as int, 0, 0);
        }
        assert(variable_models(out@) =~= Seq::new(
            records_held(data@, at as int, variable_stride(sm5), count as int) as nat,
            |j: int| variable_at(data@, at + j * variable_stride(sm5), sm5),
        ));
    }
    out
}

fn parse_cbuffers(data: &[u8], at: u32, count: u32, sm5: bool) -> (r: Vec<CBufferDef>)
    ensures
        cbuffer_models(r@) == Seq::new(
            records_held(data@, at as int, 24, count as int) as nat,
            |i: int| cbuffer_at(data@, at + i * 24, sm5),
        ),
{
    let ghost d = data@;
    let mut out: Vec<CBufferDef> = Vec::new();
    let mut c = cursor_new(data);
    let mut i: u32 = 0;
    while i < count
        invariant_except_break
            i <= count,
            i == 0 || at + i * 24 <= d.len(),
        invariant
            d == data@,
            out@.len() == i,
            cursor_bytes(c) == d,
            forall|k: int|
                0 <= k < i ==> #[trigger] out@[k].model() == cbuffer_at(d, at + k * 24, sm5),
        ensures
            i == records_held(d, at as int, 24, count as int),
        decreases count - i,
    {
        let base: u64 = at as u64 + i as u64 * 24;
        if base + 24 > data.len() as u64 {
            proof {
                lemma_records_held(d, at as int, 24, count as int, i as int);
            }
            break;
        }
        let ok = cursor_seek(&mut c, base as usize);
        assert(ok);
        match next_words(&mut c, 6) {
            Some(v) => {
                assert(v@[0] == word_at(d, base as int));
                let b = CBufferDef {
                    name: read_cstring(data, v[0] as usize),
                    variables: parse_variables(data, v[2], v[1], sm5),
                    size: v[3],
                    flags: v[4],
                    cb_type: v[5],
                };
                assert(b.model() == cbuffer_at(d, at + i * 24, sm5));
                out.push(b);
            },
            None => {},
        }
        i += 1;
        proof {
            if i == count {
                lemma_records_held(d, at as int, 24, count as int, i as int);
            }
        }
    }
    proof {
        if count == 0 {
            lemma_records_held(d, at as int, 24, 0, 0);
        }
        assert(cbuffer_models(out@) =~= Seq::new(
            records_held(data@, at as int, 24, count as int) as nat,
            |i: int| cbuffer_at(data@, at + i * 24, sm5),
        ));
    }
    out
}

/// The resource definitions in the bytes of a chunk; `None` where it is shorter
/// than its header.
pub fn parse_rdef(data: &[u8]) -> (r: Option<ResourceDef>)
    ensures
        match r {
            Some(rd) => data@.len() >= 28 && rd.model() == rdef_of(data@),
            None => data@.len() < 28,
        },
{
    let ghost d = data@;
    if data.len() < 28 {
        return None;
    }
    let mut c = cursor_new(data);
    match next_words(&mut c, 7) {
        None => None,
        Some(h) => {
            assert(h@[0] == word_at(d, 0));
            let sm5 = is_sm5(h[4]);
            let rd11_extra = if sm5 && data.len() >= 60 {
                match next_words(&mut c, 8) {
                    Some(v) => {
                        assert(v@[0] == word_at(d, 28));
                        Some([v[0], v[1], v[2], v[3], v[4], v[5], v[6], v[7]])
                    },
                    None => None,
                }
            } else {
                None
            };
            let rd = ResourceDef {
                bindings: parse_bindings(data, h[3], h[2]),
                constant_buffers: parse_cbuffers(data, h[1], h[0], sm5),
                creator: read_cstring(data, h[6] as usize),
                target_version: h[4],
                compile_flags: h[5],
                rd11_extra,
            };
            assert(rd.model() =~= rdef_of(d));
            Some(rd)
        },
    }
}

} // verus!
