//! Resource definitions in bytes read back.

use vstd::prelude::*;

use crate::bytes::{lemma_word_bytes, word_at, word_bytes};
use crate::chunks::rdef::{
    BindingModel, CBufferModel, RdefModel, SLOT_UNUSED, VariableModel, is_sm5_version,
};
use crate::chunks::rdef_parse::{
    binding_at, cbuffer_at, default_at, rdef_of, records_held, type_at, variable_at,
    variable_stride,
};
use crate::chunks::rdef_write::{
    Written, binding_names, binding_records, binding_section, buffer_names, buffer_records,
    buffer_section, creator_section, front_bytes, interned, interned_names, middle_bytes, padding,
    placed_buffers, placed_type, placed_variables, rd11_bytes, rdef_header, rdef_payload,
    record_size, variable_record, variable_records, variable_section, word_or,
};
use crate::grammar::tables::NameTable;
use crate::roundtrip::rdef_types::{
    bytes_stand, lemma_bytes_split, lemma_interned, lemma_limit, lemma_lone_word, lemma_peel,
    lemma_type, lemma_types_limit, pool_good, type_fits, type_height, type_stands, written_good,
};
use crate::roundtrip::signature_bytes::{lemma_cstring, stands_at, terminable};

verus! {

// ---------------------------------------------------------------------------
// Variables
// ---------------------------------------------------------------------------

/// Whether the bytes can hold a variable: its names and type can stand in bytes,
/// its default value is as long as it is itself, or missing, and it has the slots
/// of shader model five, or has none.
pub open spec fn variable_fits(v: VariableModel, sm5: bool) -> bool {
    &&& terminable(v.name)
    &&& type_fits(v.var_type, sm5)
    &&& v.default_value.len() == 0 || v.default_value.len() == v.size
    &&& v.texture_start is Some == sm5
    &&& v.texture_size is Some == sm5
    &&& v.sampler_start is Some == sm5
    &&& v.sampler_size is Some == sm5
}

/// Whether what a variable refers to stands at those positions.
#[verifier::opaque]
pub open spec fn variable_good(
    d: Seq<u8>,
    v: VariableModel,
    name_off: u32,
    type_off: u32,
    default_off: u32,
    sm5: bool,
) -> bool {
    &&& stands_at(d, v.name, name_off as int)
    &&& type_stands(d, v.var_type, type_off, sm5, d.len() as int)
    &&& if v.default_value.len() == 0 {
        default_off == 0
    } else {
        default_off > 0 && bytes_stand(d, default_off as int, v.default_value)
    }
}

/// Whether what the first `n` variables refer to stands at those positions.
pub open spec fn variables_good(
    d: Seq<u8>,
    vs: Seq<VariableModel>,
    offs: Seq<(u32, u32, u32)>,
    sm5: bool,
    n: int,
) -> bool {
    &&& offs.len() == n
    &&& forall|k: int|
        #![trigger vs[k]]
        0 <= k < n ==> variable_good(d, vs[k], offs[k].0, offs[k].1, offs[k].2, sm5)
}

/// What the variables refer to stands where it was put.
#[verifier::rlimit(40)]
proof fn lemma_variables(
    d: Seq<u8>,
    pos: nat,
    st: Written,
    vs: Seq<VariableModel>,
    sm5: bool,
    n: int,
)
    requires
        0 <= n <= vs.len(),
        d.len() <= 0xffff_ffff,
        pos > 0,
        forall|k: int| 0 <= k < vs.len() ==> variable_fits(#[trigger] vs[k], sm5),
        written_good(d, st, sm5, pos as int),
        bytes_stand(d, pos as int, placed_variables(pos, st, vs, sm5, n).bytes),
    ensures
        ({
            let r = placed_variables(pos, st, vs, sm5, n);
            &&& written_good(d, r.st, sm5, (pos + r.bytes.len()) as int)
            &&& variables_good(d, vs, r.offs, sm5, n)
        }),
    decreases n,
{
    if n > 0 {
        let r = placed_variables(pos, st, vs, sm5, n);
        let v = vs[n - 1];
        let p = placed_variables(pos, st, vs, sm5, n - 1);
        let a = pos + p.bytes.len();
        let i = interned(a, p.st.pool, v.name);
        let mid = Written { pool: i.pool, types: p.st.types };
        let b = a + i.bytes.len();
        let t = placed_type(b, mid, v.var_type, sm5);
        let bytes = p.bytes + i.bytes + t.bytes;
        assert(variable_fits(v, sm5));
        lemma_bytes_split(d, pos as int, bytes, v.default_value);
        lemma_bytes_split(d, pos as int, p.bytes + i.bytes, t.bytes);
        lemma_bytes_split(d, pos as int, p.bytes, i.bytes);
        lemma_variables(d, pos, st, vs, sm5, n - 1);
        lemma_interned(d, a, p.st.pool, v.name);
        lemma_types_limit(d, p.st.types, sm5, a as int, b as int);
        lemma_type(d, b, mid, v.var_type, sm5);
        let c = (b + t.bytes.len()) as int;
        lemma_types_limit(d, t.st.types, sm5, c, (pos + r.bytes.len()) as int);
        lemma_limit(d, v.var_type, t.off, sm5, c, d.len() as int);
        let o = r.offs[n - 1];
        assert(variable_good(d, v, o.0, o.1, o.2, sm5)) by {
            reveal(variable_good);
        }
        assert forall|k: int| 0 <= k < n implies variable_good(
            d,
            #[trigger] vs[k],
            r.offs[k].0,
            r.offs[k].1,
            r.offs[k].2,
            sm5,
        ) by {
            if k < n - 1 {
                assert(r.offs[k] == p.offs[k]);
            }
        }
    }
}

/// The size of a variable's record.
proof fn lemma_variable_record_len(v: VariableModel, o: (u32, u32, u32), sm5: bool)
    ensures
        variable_record(v, o, sm5).len() == record_size(sm5),
{
    lemma_word_bytes(o.0);
    lemma_word_bytes(v.offset);
    lemma_word_bytes(v.size);
    lemma_word_bytes(v.flags);
    lemma_word_bytes(o.1);
    lemma_word_bytes(o.2);
    lemma_word_bytes(word_or(v.texture_start, SLOT_UNUSED));
    lemma_word_bytes(word_or(v.texture_size, 0));
    lemma_word_bytes(word_or(v.sampler_start, SLOT_UNUSED));
    lemma_word_bytes(word_or(v.sampler_size, 0));
}

/// The records of variables, one by one.
proof fn lemma_variable_records(
    d: Seq<u8>,
    at: int,
    vs: Seq<VariableModel>,
    offs: Seq<(u32, u32, u32)>,
    sm5: bool,
    n: int,
)
    requires
        0 <= n <= vs.len(),
        bytes_stand(d, at, variable_records(vs, offs, sm5, n)),
    ensures
        variable_records(vs, offs, sm5, n).len() == n * record_size(sm5),
        forall|k: int|
            #![trigger vs[k]]
            0 <= k < n ==> bytes_stand(
                d,
                at + k * record_size(sm5),
                variable_record(vs[k], offs[k], sm5),
            ),
    decreases n,
{
    if n > 0 {
        let a = variable_records(vs, offs, sm5, n - 1);
        lemma_bytes_split(d, at, a, variable_record(vs[n - 1], offs[n - 1], sm5));
        lemma_variable_record_len(vs[n - 1], offs[n - 1], sm5);
        lemma_variable_records(d, at, vs, offs, sm5, n - 1);
        let k = record_size(sm5);
        assert((n - 1) * k + k == n * k) by (nonlinear_arith);
    }
}

/// The size of the records of variables.
proof fn lemma_variable_records_len(
    vs: Seq<VariableModel>,
    offs: Seq<(u32, u32, u32)>,
    sm5: bool,
    n: int,
)
    requires
        0 <= n <= vs.len(),
    ensures
        variable_records(vs, offs, sm5, n).len() == n * record_size(sm5),
    decreases n,
{
    if n > 0 {
        lemma_variable_record_len(vs[n - 1], offs[n - 1], sm5);
        lemma_variable_records_len(vs, offs, sm5, n - 1);
        let k = record_size(sm5);
        assert((n - 1) * k + k == n * k) by (nonlinear_arith);
    }
}

/// The words of a variable's record.
proof fn lemma_variable_words(
    d: Seq<u8>,
    p: int,
    v: VariableModel,
    o: (u32, u32, u32),
    sm5: bool,
)
    requires
        bytes_stand(d, p, variable_record(v, o, sm5)),
        variable_fits(v, sm5),
    ensures
        word_at(d, p) == o.0,
        word_at(d, p + 4) == v.offset,
        word_at(d, p + 8) == v.size,
        word_at(d, p + 12) == v.flags,
        word_at(d, p + 16) == o.1,
        word_at(d, p + 20) == o.2,
        sm5 ==> v.texture_start == Some(word_at(d, p + 24)) && v.texture_size == Some(
            word_at(d, p + 28),
        ) && v.sampler_start == Some(word_at(d, p + 32)) && v.sampler_size == Some(
            word_at(d, p + 36),
        ),
{
    let (a, b, c) = (word_bytes(o.0), word_bytes(v.offset), word_bytes(v.size));
    let (e, f, g) = (word_bytes(v.flags), word_bytes(o.1), word_bytes(o.2));
    let head = a + b + c + e + f + g;
    let (x, y) = (word_or(v.texture_start, SLOT_UNUSED), word_or(v.texture_size, 0));
    let (z, w) = (word_or(v.sampler_start, SLOT_UNUSED), word_or(v.sampler_size, 0));
    let tail = if sm5 {
        word_bytes(x) + word_bytes(y) + word_bytes(z) + word_bytes(w)
    } else {
        Seq::empty()
    };
    assert(variable_record(v, o, sm5) == head + tail);
    lemma_bytes_split(d, p, head, tail);
    lemma_peel(d, p, a + b + c + e + f, o.2);
    lemma_peel(d, p, a + b + c + e, o.1);
    lemma_peel(d, p, a + b + c, v.flags);
    lemma_peel(d, p, a + b, v.size);
    lemma_peel(d, p, a, v.offset);
    lemma_lone_word(d, p, o.0);
    if sm5 {
        lemma_peel(d, p + 24, word_bytes(x) + word_bytes(y) + word_bytes(z), w);
        lemma_peel(d, p + 24, word_bytes(x) + word_bytes(y), z);
        lemma_peel(d, p + 24, word_bytes(x), y);
        lemma_lone_word(d, p + 24, x);
    }
}

/// A variable is read from its record.
#[verifier::rlimit(40)]
proof fn lemma_variable(d: Seq<u8>, p: int, v: VariableModel, o: (u32, u32, u32), sm5: bool)
    requires
        variable_fits(v, sm5),
        bytes_stand(d, p, variable_record(v, o, sm5)),
        variable_good(d, v, o.0, o.1, o.2, sm5),
    ensures
        variable_at(d, p, sm5) == v,
{
    reveal(variable_good);
    lemma_variable_words(d, p, v, o, sm5);
    lemma_cstring(d, v.name, o.0 as int);
    assert(type_at(d, o.1 as int, sm5, d.len()) == v.var_type) by {
        reveal(type_stands);
        assert(d.len() >= type_height(v.var_type));
    }
    assert(default_at(d, o.2, v.size) =~= v.default_value);
}

// ---------------------------------------------------------------------------
// Buffers
// ---------------------------------------------------------------------------

/// Whether the bytes can hold a buffer.
pub open spec fn buffer_fits(c: CBufferModel, sm5: bool) -> bool {
    &&& terminable(c.name)
    &&& forall|k: int|
        0 <= k < c.variables.len() ==> variable_fits(#[trigger] c.variables[k], sm5)
}

/// The variables that are read at a position.
pub open spec fn variables_at(d: Seq<u8>, at: int, n: int, sm5: bool) -> Seq<VariableModel> {
    Seq::new(
        records_held(d, at, variable_stride(sm5), n) as nat,
        |j: int| variable_at(d, at + j * variable_stride(sm5), sm5),
    )
}

/// Whether the variables of a buffer are read at that position.
#[verifier::opaque]
pub open spec fn buffer_good(d: Seq<u8>, c: CBufferModel, at: u32, sm5: bool) -> bool {
    &&& c.variables.len() <= 0xffff_ffff
    &&& variables_at(d, at as int, c.variables.len() as int, sm5) == c.variables
}

/// The variables of a buffer are read where their records stand.
proof fn lemma_buffer_variables(
    d: Seq<u8>,
    at: nat,
    c: CBufferModel,
    offs: Seq<(u32, u32, u32)>,
    sm5: bool,
)
    requires
        d.len() <= 0xffff_ffff,
        buffer_fits(c, sm5),
        bytes_stand(
            d,
            at as int,
            variable_records(c.variables, offs, sm5, c.variables.len() as int),
        ),
        variables_good(d, c.variables, offs, sm5, c.variables.len() as int),
    ensures
        at <= 0xffff_ffff,
        buffer_good(d, c, at as u32, sm5),
{
    reveal(buffer_good);
    let vs = c.variables;
    let n = vs.len() as int;
    let k = variable_stride(sm5);
    lemma_variable_records(d, at as int, vs, offs, sm5, n);
    assert(n <= n * k) by (nonlinear_arith)
        requires
            n >= 0,
            k >= 1,
    ;
    let got = variables_at(d, at as int, n, sm5);
    assert(records_held(d, at as int, k, n) == n);
    assert forall|j: int| 0 <= j < n implies #[trigger] got[j] == vs[j] by {
        lemma_variable(d, at + j * k, vs[j], offs[j], sm5);
    }
    assert(got =~= vs);
}

/// The variables of the buffers are read where they were put.
#[verifier::rlimit(40)]
proof fn lemma_buffers(d: Seq<u8>, pos: nat, cbs: Seq<CBufferModel>, sm5: bool, n: int)
    requires
        0 <= n <= cbs.len(),
        d.len() <= 0xffff_ffff,
        pos > 0,
        forall|k: int| 0 <= k < cbs.len() ==> buffer_fits(#[trigger] cbs[k], sm5),
        bytes_stand(d, pos as int, placed_buffers(pos, cbs, sm5, n).bytes),
    ensures
        ({
            let r = placed_buffers(pos, cbs, sm5, n);
            &&& written_good(d, r.st, sm5, (pos + r.bytes.len()) as int)
            &&& r.offs.len() == n
            &&& forall|k: int|
                #![trigger cbs[k]]
                0 <= k < n ==> buffer_good(d, cbs[k], r.offs[k], sm5)
        }),
    decreases n,
{
    if n > 0 {
        let r = placed_buffers(pos, cbs, sm5, n);
        let p = placed_buffers(pos, cbs, sm5, n - 1);
        let c = cbs[n - 1];
        let vs = c.variables;
        let m = vs.len() as int;
        let gap = padding(pos + p.bytes.len());
        let at = pos + p.bytes.len() + gap.len();
        let from = at + vs.len() * record_size(sm5);
        let body = placed_variables(from, p.st, vs, sm5, m);
        let recs = variable_records(vs, body.offs, sm5, m);
        assert(buffer_fits(c, sm5));
        lemma_variable_records_len(vs, body.offs, sm5, m);
        lemma_bytes_split(d, pos as int, p.bytes + gap + recs, body.bytes);
        lemma_bytes_split(d, pos as int, p.bytes + gap, recs);
        lemma_bytes_split(d, pos as int, p.bytes, gap);
        lemma_buffers(d, pos, cbs, sm5, n - 1);
        lemma_types_limit(d, p.st.types, sm5, (pos + p.bytes.len()) as int, from as int);
        lemma_variables(d, from, p.st, vs, sm5, m);
        lemma_buffer_variables(d, at, c, body.offs, sm5);
        assert forall|k: int| 0 <= k < n implies buffer_good(
            d,
            #[trigger] cbs[k],
            r.offs[k],
            sm5,
        ) by {
            if k < n - 1 {
                assert(r.offs[k] == p.offs[k]);
            }
        }
    }
}

/// The record of a buffer.
pub open spec fn buffer_record(c: CBufferModel, name_off: u32, var_off: u32) -> Seq<u8> {
    word_bytes(name_off) + word_bytes(c.variables.len() as u32) + word_bytes(var_off) + word_bytes(
        c.size,
    ) + word_bytes(c.flags) + word_bytes(c.cb_type)
}

proof fn lemma_buffer_record_len(c: CBufferModel, name_off: u32, var_off: u32)
    ensures
        buffer_record(c, name_off, var_off).len() == 24,
{
    lemma_word_bytes(name_off);
    lemma_word_bytes(c.variables.len() as u32);
    lemma_word_bytes(var_off);
    lemma_word_bytes(c.size);
    lemma_word_bytes(c.flags);
    lemma_word_bytes(c.cb_type);
}

/// The records of buffers, one by one.
proof fn lemma_buffer_records(
    d: Seq<u8>,
    at: int,
    cbs: Seq<CBufferModel>,
    names: Seq<u32>,
    vars: Seq<u32>,
    n: int,
)
    requires
        0 <= n <= cbs.len(),
        bytes_stand(d, at, buffer_records(cbs, names, vars, n)),
    ensures
        forall|k: int|
            #![trigger cbs[k]]
            0 <= k < n ==> bytes_stand(d, at + k * 24, buffer_record(cbs[k], names[k], vars[k])),
    decreases n,
{
    if n > 0 {
        let a = buffer_records(cbs, names, vars, n - 1);
        let b = buffer_record(cbs[n - 1], names[n - 1], vars[n - 1]);
        lemma_bytes_split(d, at, a, b);
        lemma_buffer_records_len(cbs, names, vars, n - 1);
        lemma_buffer_records(d, at, cbs, names, vars, n - 1);
    }
}

pub proof fn lemma_buffer_records_len(
    cbs: Seq<CBufferModel>,
    names: Seq<u32>,
    vars: Seq<u32>,
    n: int,
)
    requires
        0 <= n <= cbs.len(),
    ensures
        buffer_records(cbs, names, vars, n).len() == n * 24,
    decreases n,
{
    if n > 0 {
        lemma_buffer_record_len(cbs[n - 1], names[n - 1], vars[n - 1]);
        lemma_buffer_records_len(cbs, names, vars, n - 1);
    }
}

/// A buffer is read from its record.
proof fn lemma_buffer(d: Seq<u8>, p: int, c: CBufferModel, name: u32, var: u32, sm5: bool)
    requires
        terminable(c.name),
        bytes_stand(d, p, buffer_record(c, name, var)),
        stands_at(d, c.name, name as int),
        buffer_good(d, c, var, sm5),
    ensures
        cbuffer_at(d, p, sm5) == c,
{
    reveal(buffer_good);
    let n = c.variables.len() as u32;
    let (a, b, e) = (word_bytes(name), word_bytes(n), word_bytes(var));
    let (f, g) = (word_bytes(c.size), word_bytes(c.flags));
    lemma_peel(d, p, a + b + e + f + g, c.cb_type);
    lemma_peel(d, p, a + b + e + f, c.flags);
    lemma_peel(d, p, a + b + e, c.size);
    lemma_peel(d, p, a + b, var);
    lemma_peel(d, p, a, n);
    lemma_lone_word(d, p, name);
    lemma_cstring(d, c.name, name as int);
    assert(cbuffer_at(d, p, sm5).variables =~= variables_at(d, var as int, n as int, sm5));
}

// ---------------------------------------------------------------------------
// Bindings
// ---------------------------------------------------------------------------

/// The record of a binding.
pub open spec fn binding_record(b: BindingModel, name_off: u32) -> Seq<u8> {
    word_bytes(name_off) + word_bytes(b.input_type) + word_bytes(b.return_type) + word_bytes(
        b.dimension,
    ) + word_bytes(b.num_samples) + word_bytes(b.bind_point) + word_bytes(b.bind_count)
        + word_bytes(b.flags)
}

proof fn lemma_binding_record_len(b: BindingModel, name_off: u32)
    ensures
        binding_record(b, name_off).len() == 32,
{
    lemma_word_bytes(name_off);
    lemma_word_bytes(b.input_type);
    lemma_word_bytes(b.return_type);
    lemma_word_bytes(b.dimension);
    lemma_word_bytes(b.num_samples);
    lemma_word_bytes(b.bind_point);
    lemma_word_bytes(b.bind_count);
    lemma_word_bytes(b.flags);
}

pub proof fn lemma_binding_records_len(bs: Seq<BindingModel>, offs: Seq<u32>, n: int)
    requires
        0 <= n <= bs.len(),
    ensures
        binding_records(bs, offs, n).len() == n * 32,
    decreases n,
{
    if n > 0 {
        lemma_binding_record_len(bs[n - 1], offs[n - 1]);
        lemma_binding_records_len(bs, offs, n - 1);
    }
}

/// The records of bindings, one by one.
proof fn lemma_binding_records(
    d: Seq<u8>,
    at: int,
    bs: Seq<BindingModel>,
    offs: Seq<u32>,
    n: int,
)
    requires
        0 <= n <= bs.len(),
        bytes_stand(d, at, binding_records(bs, offs, n)),
    ensures
        forall|k: int|
            #![trigger bs[k]]
            0 <= k < n ==> bytes_stand(d, at + k * 32, binding_record(bs[k], offs[k])),
    decreases n,
{
    if n > 0 {
        let a = binding_records(bs, offs, n - 1);
        lemma_bytes_split(d, at, a, binding_record(bs[n - 1], offs[n - 1]));
        lemma_binding_records_len(bs, offs, n - 1);
        lemma_binding_records(d, at, bs, offs, n - 1);
    }
}

/// A binding is read from its record.
proof fn lemma_binding(d: Seq<u8>, p: int, b: BindingModel, name: u32)
    requires
        terminable(b.name),
        bytes_stand(d, p, binding_record(b, name)),
        stands_at(d, b.name, name as int),
    ensures
        binding_at(d, p) == b,
{
    let (x, y, z) = (word_bytes(name), word_bytes(b.input_type), word_bytes(b.return_type));
    let (u, v, w) = (word_bytes(b.dimension), word_bytes(b.num_samples), word_bytes(b.bind_point));
    let t = word_bytes(b.bind_count);
    lemma_peel(d, p, x + y + z + u + v + w + t, b.flags);
    lemma_peel(d, p, x + y + z + u + v + w, b.bind_count);
    lemma_peel(d, p, x + y + z + u + v, b.bind_point);
    lemma_peel(d, p, x + y + z + u, b.num_samples);
    lemma_peel(d, p, x + y + z, b.dimension);
    lemma_peel(d, p, x + y, b.return_type);
    lemma_peel(d, p, x, b.input_type);
    lemma_lone_word(d, p, name);
    lemma_cstring(d, b.name, name as int);
}

// ---------------------------------------------------------------------------
// The whole
// ---------------------------------------------------------------------------

/// Names of a list stand where they were put.
proof fn lemma_names(d: Seq<u8>, pos: nat, pool: NameTable, names: Seq<Seq<char>>, n: int)
    requires
        0 <= n <= names.len(),
        d.len() <= 0xffff_ffff,
        pos > 0,
        pool_good(d, pool),
        bytes_stand(d, pos as int, interned_names(pos, pool, names, n).bytes),
    ensures
        ({
            let r = interned_names(pos, pool, names, n);
            &&& pool_good(d, r.pool)
            &&& r.offs.len() == n
            &&& forall|k: int|
                #![trigger r.offs[k]]
                0 <= k < n ==> stands_at(d, names[k], r.offs[k] as int)
        }),
    decreases n,
{
    if n > 0 {
        let p = interned_names(pos, pool, names, n - 1);
        let i = interned(pos + p.bytes.len(), p.pool, names[n - 1]);
        let r = interned_names(pos, pool, names, n);
        lemma_bytes_split(d, pos as int, p.bytes, i.bytes);
        lemma_names(d, pos, pool, names, n - 1);
        lemma_interned(d, pos + p.bytes.len(), p.pool, names[n - 1]);
        assert forall|k: int| 0 <= k < n implies stands_at(
            d,
            names[k],
            (#[trigger] r.offs[k]) as int,
        ) by {
            if k < n - 1 {
                assert(r.offs[k] == p.offs[k]);
            }
        }
    }
}

/// Whether the bytes can hold resource definitions: their names can stand in
/// bytes, what belongs to shader model five is there where it is read, and every
/// position can be told by a word.
pub open spec fn rdef_fits(rd: RdefModel) -> bool {
    let sm5 = is_sm5_version(rd.target_version);
    &&& terminable(rd.creator)
    &&& forall|k: int| 0 <= k < rd.bindings.len() ==> terminable((#[trigger] rd.bindings[k]).name)
    &&& forall|k: int|
        0 <= k < rd.constant_buffers.len() ==> buffer_fits(
            #[trigger] rd.constant_buffers[k],
            sm5,
        )
    &&& rd.rd11_extra is Some == (sm5 && rdef_payload(rd).len() >= 60)
    &&& rdef_payload(rd).len() <= 0xffff_ffff
}

/// Where the parts of a chunk stand.
pub open spec fn parts_stand(d: Seq<u8>, rd: RdefModel) -> bool {
    let front = front_bytes(rd);
    let nb = rd.bindings.len() as int;
    let nc = rd.constant_buffers.len() as int;
    let x = rd11_bytes(rd.rd11_extra).len() as int;
    let bs = binding_section(rd);
    let cs = buffer_section(rd);
    let vs = variable_section(rd);
    let a = 28 + front.len();
    &&& bytes_stand(d, 0, rdef_header(rd))
    &&& bytes_stand(d, 28, rd11_bytes(rd.rd11_extra))
    &&& bytes_stand(d, 28 + x, binding_records(rd.bindings, bs.offs, nb))
    &&& bytes_stand(d, 28 + x + 32 * nb, bs.bytes)
    &&& bytes_stand(d, a as int, buffer_records(rd.constant_buffers, cs.offs, vs.offs, nc))
    &&& bytes_stand(d, a + 24 * nc, cs.bytes)
    &&& bytes_stand(d, a + 24 * nc + cs.bytes.len(), vs.bytes)
    &&& bytes_stand(d, (28 + middle_bytes(rd).len()) as int, creator_section(rd).bytes)
}

pub proof fn lemma_header_len(rd: RdefModel)
    ensures
        rdef_header(rd).len() == 28,
{
    let nc = rd.constant_buffers.len();
    lemma_word_bytes(nc as u32);
    lemma_word_bytes(
        if nc == 0 {
            0
        } else {
            (28 + front_bytes(rd).len()) as u32
        },
    );
    lemma_word_bytes(rd.bindings.len() as u32);
    lemma_word_bytes((28 + rd11_bytes(rd.rd11_extra).len()) as u32);
    lemma_word_bytes(rd.target_version);
    lemma_word_bytes(rd.compile_flags);
    lemma_word_bytes(creator_section(rd).off);
}

proof fn lemma_front(d: Seq<u8>, rd: RdefModel)
    requires
        bytes_stand(d, 28, front_bytes(rd)),
    ensures
        ({
            let nb = rd.bindings.len() as int;
            let x = rd11_bytes(rd.rd11_extra).len() as int;
            let bs = binding_section(rd);
            &&& bytes_stand(d, 28, rd11_bytes(rd.rd11_extra))
            &&& bytes_stand(d, 28 + x, binding_records(rd.bindings, bs.offs, nb))
            &&& bytes_stand(d, 28 + x + 32 * nb, bs.bytes)
        }),
{
    let nb = rd.bindings.len() as int;
    let x = rd11_bytes(rd.rd11_extra);
    let bs = binding_section(rd);
    let r = binding_records(rd.bindings, bs.offs, nb);
    let b = x + r + bs.bytes;
    if rd.constant_buffers.len() > 0 {
        lemma_bytes_split(d, 28, b, padding(28 + b.len()));
    }
    lemma_bytes_split(d, 28, x + r, bs.bytes);
    lemma_bytes_split(d, 28, x, r);
    lemma_binding_records_len(rd.bindings, bs.offs, nb);
}

pub proof fn lemma_parts(rd: RdefModel)
    ensures
        parts_stand(rdef_payload(rd), rd),
        rdef_payload(rd).len() >= 28,
{
    let d = rdef_payload(rd);
    let h = rdef_header(rd);
    let m = middle_bytes(rd);
    let c = creator_section(rd).bytes;
    let b = h + m + c;
    lemma_header_len(rd);
    assert(d.subrange(0, d.len() as int) =~= d);
    assert(bytes_stand(d, 0, b + padding(b.len())));
    lemma_bytes_split(d, 0, b, padding(b.len()));
    lemma_bytes_split(d, 0, h + m, c);
    lemma_bytes_split(d, 0, h, m);
    let nc = rd.constant_buffers.len() as int;
    let cs = buffer_section(rd);
    let vs = variable_section(rd);
    let r = buffer_records(rd.constant_buffers, cs.offs, vs.offs, nc);
    let f = front_bytes(rd);
    lemma_bytes_split(d, 28, f + r + cs.bytes, vs.bytes);
    lemma_bytes_split(d, 28, f + r, cs.bytes);
    lemma_bytes_split(d, 28, f, r);
    lemma_buffer_records_len(rd.constant_buffers, cs.offs, vs.offs, nc);
    lemma_front(d, rd);
}

/// The words of the header.
pub proof fn lemma_header(d: Seq<u8>, rd: RdefModel)
    requires
        bytes_stand(d, 0, rdef_header(rd)),
    ensures
        word_at(d, 0) == rd.constant_buffers.len() as u32,
        word_at(d, 4) == if rd.constant_buffers.len() == 0 {
            0
        } else {
            (28 + front_bytes(rd).len()) as u32
        },
        word_at(d, 8) == rd.bindings.len() as u32,
        word_at(d, 12) == (28 + rd11_bytes(rd.rd11_extra).len()) as u32,
        word_at(d, 16) == rd.target_version,
        word_at(d, 20) == rd.compile_flags,
        word_at(d, 24) == creator_section(rd).off,
{
    let p = 0int;
    let nc = rd.constant_buffers.len() as u32;
    let at = if rd.constant_buffers.len() == 0 {
        0
    } else {
        (28 + front_bytes(rd).len()) as u32
    };
    let nb = rd.bindings.len() as u32;
    let x = (28 + rd11_bytes(rd.rd11_extra).len()) as u32;
    let (a, b, c) = (word_bytes(nc), word_bytes(at), word_bytes(nb));
    let (e, f, g) = (word_bytes(x), word_bytes(rd.target_version), word_bytes(rd.compile_flags));
    lemma_peel(d, p, a + b + c + e + f + g, creator_section(rd).off);
    lemma_peel(d, p, a + b + c + e + f, rd.compile_flags);
    lemma_peel(d, p, a + b + c + e, rd.target_version);
    lemma_peel(d, p, a + b + c, x);
    lemma_peel(d, p, a + b, nb);
    lemma_peel(d, p, a, at);
    lemma_lone_word(d, p, nc);
}

/// The further header of shader model five.
proof fn lemma_further_header(d: Seq<u8>, e: [u32; 8])
    requires
        bytes_stand(d, 28, rd11_bytes(Some(e))),
    ensures
        e == [
            word_at(d, 28),
            word_at(d, 32),
            word_at(d, 36),
            word_at(d, 40),
            word_at(d, 44),
            word_at(d, 48),
            word_at(d, 52),
            word_at(d, 56),
        ],
{
    let (a, b, c, f) = (word_bytes(e[0]), word_bytes(e[1]), word_bytes(e[2]), word_bytes(e[3]));
    let (g, h, i) = (word_bytes(e[4]), word_bytes(e[5]), word_bytes(e[6]));
    lemma_peel(d, 28, a + b + c + f + g + h + i, e[7]);
    lemma_peel(d, 28, a + b + c + f + g + h, e[6]);
    lemma_peel(d, 28, a + b + c + f + g, e[5]);
    lemma_peel(d, 28, a + b + c + f, e[4]);
    lemma_peel(d, 28, a + b + c, e[3]);
    lemma_peel(d, 28, a + b, e[2]);
    lemma_peel(d, 28, a, e[1]);
    lemma_lone_word(d, 28, e[0]);
    let t = [
        word_at(d, 28),
        word_at(d, 32),
        word_at(d, 36),
        word_at(d, 40),
        word_at(d, 44),
        word_at(d, 48),
        word_at(d, 52),
        word_at(d, 56),
    ];
    assert(t@ =~= e@);
    assert(t =~= e);
}

/// The bindings are read where they were put.
proof fn lemma_bindings(d: Seq<u8>, rd: RdefModel)
    requires
        rdef_fits(rd),
        d.len() <= 0xffff_ffff,
        parts_stand(d, rd),
    ensures
        pool_good(d, binding_section(rd).pool),
        rd.bindings.len() <= 0xffff_ffff,
        ({
            let at = 28 + rd11_bytes(rd.rd11_extra).len();
            let n = rd.bindings.len() as int;
            &&& records_held(d, at as int, 32, n) == n
            &&& forall|k: int|
                #![trigger rd.bindings[k]]
                0 <= k < n ==> binding_at(d, at + k * 32) == rd.bindings[k]
        }),
{
    let bs = rd.bindings;
    let n = bs.len() as int;
    let x = rd11_bytes(rd.rd11_extra).len() as int;
    let s = binding_section(rd);
    let names = binding_names(bs);
    lemma_names(d, (28 + x + 32 * n) as nat, Seq::empty(), names, n);
    lemma_binding_records(d, 28 + x, bs, s.offs, n);
    lemma_binding_records_len(bs, s.offs, n);
    assert forall|k: int| 0 <= k < n implies binding_at(d, 28 + x + k * 32) == #[trigger] bs[k] by {
        assert(terminable(rd.bindings[k].name));
        assert(stands_at(d, names[k], s.offs[k] as int));
        lemma_binding(d, 28 + x + k * 32, bs[k], s.offs[k]);
    }
}

/// The buffers are read where they were put.
proof fn lemma_all_buffers(d: Seq<u8>, rd: RdefModel)
    requires
        rdef_fits(rd),
        d.len() <= 0xffff_ffff,
        parts_stand(d, rd),
        pool_good(d, binding_section(rd).pool),
    ensures
        pool_good(d, variable_section(rd).st.pool),
        rd.constant_buffers.len() <= 0xffff_ffff,
        ({
            let at = 28 + front_bytes(rd).len();
            let n = rd.constant_buffers.len() as int;
            let sm5 = is_sm5_version(rd.target_version);
            &&& at <= 0xffff_ffff
            &&& records_held(d, at as int, 24, n) == n
            &&& forall|k: int|
                #![trigger rd.constant_buffers[k]]
                0 <= k < n ==> cbuffer_at(d, at + k * 24, sm5) == rd.constant_buffers[k]
        }),
{
    let cbs = rd.constant_buffers;
    let n = cbs.len() as int;
    let sm5 = is_sm5_version(rd.target_version);
    let at = (28 + front_bytes(rd).len()) as int;
    let s = buffer_section(rd);
    let v = variable_section(rd);
    let names = buffer_names(cbs);
    lemma_names(d, (at + 24 * n) as nat, binding_section(rd).pool, names, n);
    lemma_buffers(d, (at + 24 * n + s.bytes.len()) as nat, cbs, sm5, n);
    lemma_buffer_records(d, at, cbs, s.offs, v.offs, n);
    lemma_buffer_records_len(cbs, s.offs, v.offs, n);
    assert forall|k: int| 0 <= k < n implies cbuffer_at(d, at + k * 24, sm5)
        == #[trigger] cbs[k] by {
        assert(buffer_fits(rd.constant_buffers[k], sm5));
        assert(stands_at(d, names[k], s.offs[k] as int));
        assert(buffer_good(d, cbs[k], v.offs[k], sm5));
        lemma_buffer(d, at + k * 24, cbs[k], s.offs[k], v.offs[k], sm5);
    }
}

/// Resource definitions written as a chunk are read back as they were, with all
/// buffers, variables, types, members, default values and bindings. Left out are
/// names with the character nought in them, default values of another length than
/// their variable, types with too many members, and what shader model five has
/// and others do not, where it is missing or too much.
#[verifier::rlimit(40)]
pub proof fn rdef_payload_reads_back(rd: RdefModel)
    requires
        rdef_fits(rd),
    ensures
        rdef_of(rdef_payload(rd)) == rd,
{
    let d = rdef_payload(rd);
    lemma_parts(rd);
    lemma_header(d, rd);
    lemma_bindings(d, rd);
    lemma_all_buffers(d, rd);
    lemma_interned(
        d,
        28 + middle_bytes(rd).len(),
        variable_section(rd).st.pool,
        rd.creator,
    );
    lemma_cstring(d, rd.creator, creator_section(rd).off as int);
    let r = rdef_of(d);
    assert(r.bindings =~= rd.bindings) by {
        assert forall|k: int| 0 <= k < rd.bindings.len() implies #[trigger] r.bindings[k]
            == rd.bindings[k] by {}
    }
    assert(r.constant_buffers =~= rd.constant_buffers) by {
        assert forall|k: int| 0 <= k < rd.constant_buffers.len() implies #[trigger] r.constant_buffers[k]
            == rd.constant_buffers[k] by {}
    }
    if rd.rd11_extra is Some {
        lemma_further_header(d, rd.rd11_extra->0);
    }
}

} // verus!
