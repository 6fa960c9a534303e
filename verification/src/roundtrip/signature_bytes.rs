//! Signatures in bytes read back.

use vstd::prelude::*;
use vstd::utf8::{encode_utf8, encode_utf8_decode_utf8, encode_utf8_valid_utf8};

use crate::bytes::{lemma_word_bytes, word_at, word_bytes};
use crate::chunks::rdef_parse::{cstring_at, cstring_len, records_held};
use crate::chunks::rdef_write::{interned, interned_names, padding};
use crate::chunks::signature::{
    ElementModel, SignatureVersion, element_at, element_names, element_record, element_records,
    element_stride, elements_of, signature_names, signature_payload,
};
use crate::grammar::tables::{NameTable, table_value};
use crate::roundtrip::tables::lemma_table_value_index;

verus! {

/// Whether a name can stand in bytes: none of its bytes is nought.
pub open spec fn terminable(s: Seq<char>) -> bool {
    let b = encode_utf8(s);
    forall|i: int| 0 <= i < b.len() ==> #[trigger] b[i] != 0
}

/// Whether the name stands at that position, ended by nought.
pub open spec fn stands_at(d: Seq<u8>, s: Seq<char>, p: int) -> bool {
    let b = encode_utf8(s);
    &&& 0 <= p
    &&& p + b.len() < d.len()
    &&& d.subrange(p, p + b.len()) == b
    &&& d[p + b.len()] == 0
}

proof fn lemma_cstring_len(d: Seq<u8>, p: int, n: int)
    requires
        0 <= p,
        0 <= n,
        p + n < d.len(),
        forall|i: int| p <= i < p + n ==> #[trigger] d[i] != 0,
        d[p + n] == 0,
    ensures
        cstring_len(d, p) == n,
    decreases n,
{
    if n > 0 {
        assert(d[p] != 0);
        lemma_cstring_len(d, p + 1, n - 1);
    }
}

/// A name that stands somewhere is read there.
pub proof fn lemma_cstring(d: Seq<u8>, s: Seq<char>, p: int)
    requires
        terminable(s),
        stands_at(d, s, p),
    ensures
        cstring_at(d, p) == s,
{
    let b = encode_utf8(s);
    let n = b.len() as int;
    assert forall|i: int| p <= i < p + n implies #[trigger] d[i] != 0 by {
        assert(d.subrange(p, p + n)[i - p] == d[i]);
        assert(b[i - p] != 0);
    }
    lemma_cstring_len(d, p, n);
    encode_utf8_valid_utf8(s);
    encode_utf8_decode_utf8(s);
}

/// Whether every name of the pool stands at its position in bytes that begin at
/// position `pos`.
pub open spec fn pool_stands(pool: NameTable, bytes: Seq<u8>, pos: int) -> bool {
    forall|i: int|
        0 <= i < pool.len() ==> stands_at(bytes, (#[trigger] pool[i]).0, pool[i].1 - pos)
}

/// A name that stands in bytes stands in them with more behind.
proof fn lemma_stands_more(d: Seq<u8>, e: Seq<u8>, s: Seq<char>, p: int)
    requires
        stands_at(d, s, p),
    ensures
        stands_at(d + e, s, p),
{
    let b = encode_utf8(s);
    assert((d + e).subrange(p, p + b.len()) =~= d.subrange(p, p + b.len()));
}

/// Every name that is written stands where it was put.
pub proof fn lemma_interned_names(pos: nat, names: Seq<Seq<char>>, n: int)
    requires
        0 <= n <= names.len(),
        pos + interned_names(pos, Seq::empty(), names, n).bytes.len() <= 0xffff_ffff,
    ensures
        ({
            let r = interned_names(pos, Seq::empty(), names, n);
            &&& pool_stands(r.pool, r.bytes, pos as int)
            &&& r.offs.len() == n
            &&& forall|i: int|
                0 <= i < n ==> stands_at(r.bytes, names[i], (#[trigger] r.offs[i]) - pos)
        }),
    decreases n,
{
    if n > 0 {
        let p = interned_names(pos, Seq::empty(), names, n - 1);
        let s = names[n - 1];
        let i = interned(pos + p.bytes.len(), p.pool, s);
        let r = interned_names(pos, Seq::empty(), names, n);
        lemma_interned_names(pos, names, n - 1);
        match table_value(p.pool, s) {
            Some(off) => {
                lemma_table_value_index(p.pool, s);
                let j = choose|j: int|
                    0 <= j < p.pool.len() && (#[trigger] p.pool[j]).0 == s && table_value(
                        p.pool,
                        s,
                    ) == Some(p.pool[j].1);
                assert(stands_at(p.bytes, p.pool[j].0, p.pool[j].1 - pos));
                assert(r.bytes =~= p.bytes);
            },
            None => {
                let b = encode_utf8(s);
                assert(r.bytes == p.bytes + b.push(0));
                let at = p.bytes.len() as int;
                assert(r.bytes.subrange(at, at + b.len()) =~= b);
                assert(stands_at(r.bytes, s, at));
                assert forall|k: int| 0 <= k < r.pool.len() implies stands_at(
                    r.bytes,
                    (#[trigger] r.pool[k]).0,
                    r.pool[k].1 - pos,
                ) by {
                    if k < p.pool.len() {
                        assert(r.pool[k] == p.pool[k]);
                        lemma_stands_more(p.bytes, b.push(0), p.pool[k].0, p.pool[k].1 - pos);
                    }
                }
            },
        }
        assert forall|k: int| 0 <= k < n implies stands_at(
            r.bytes,
            names[k],
            (#[trigger] r.offs[k]) - pos,
        ) by {
            if k < n - 1 {
                assert(r.offs[k] == p.offs[k]);
                lemma_stands_more(p.bytes, i.bytes, names[k], p.offs[k] - pos);
            }
        }
    }
}

// ---------------------------------------------------------------------------
// Records
// ---------------------------------------------------------------------------

/// Whether an element has the fields that chunks of the version have, and a name
/// that can stand in bytes.
pub open spec fn storable(e: ElementModel, v: SignatureVersion) -> bool {
    &&& terminable(e.semantic_name)
    &&& e.stream is Some == v.streams()
    &&& e.min_precision is Some == v.precisions()
}

/// The record of an element has the size of all records.
proof fn lemma_record_len(e: ElementModel, off: u32, v: SignatureVersion)
    ensures
        element_record(e, off, v).len() == element_stride(v),
{
    lemma_word_bytes(
        match e.stream {
            Some(s) => s,
            None => 0,
        },
    );
    lemma_word_bytes(off);
    lemma_word_bytes(e.semantic_index);
    lemma_word_bytes(e.system_value);
    lemma_word_bytes(e.component_type);
    lemma_word_bytes(e.register);
    lemma_word_bytes((e.mask as u32) | ((e.rw_mask as u32) << 8));
    lemma_word_bytes(
        match e.min_precision {
            Some(m) => m.value,
            None => 0,
        },
    );
}

/// Word number `k` of a text of bytes that begins with words.
proof fn lemma_word_in(d: Seq<u8>, p: int, w: u32)
    requires
        0 <= p,
        p + 4 <= d.len(),
        d.subrange(p, p + 4) == word_bytes(w),
    ensures
        word_at(d, p) == w,
{
    lemma_word_bytes(w);
}

/// The words of a record without the stream before it and the precision behind.
proof fn lemma_core(d: Seq<u8>, q: int, e: ElementModel, off: u32)
    requires
        0 <= q,
        q + 24 <= d.len(),
        d.subrange(q, q + 24) == word_bytes(off) + word_bytes(e.semantic_index) + word_bytes(
            e.system_value,
        ) + word_bytes(e.component_type) + word_bytes(e.register) + word_bytes(
            (e.mask as u32) | ((e.rw_mask as u32) << 8),
        ),
    ensures
        word_at(d, q) == off,
        word_at(d, q + 4) == e.semantic_index,
        word_at(d, q + 8) == e.system_value,
        word_at(d, q + 12) == e.component_type,
        word_at(d, q + 16) == e.register,
        word_at(d, q + 20) == (e.mask as u32) | ((e.rw_mask as u32) << 8),
{
    let m = (e.mask as u32) | ((e.rw_mask as u32) << 8);
    lemma_word_bytes(off);
    lemma_word_bytes(e.semantic_index);
    lemma_word_bytes(e.system_value);
    lemma_word_bytes(e.component_type);
    lemma_word_bytes(e.register);
    lemma_word_bytes(m);
    let r = d.subrange(q, q + 24);
    assert(d.subrange(q, q + 4) =~= r.subrange(0, 4));
    assert(d.subrange(q + 4, q + 8) =~= r.subrange(4, 8));
    assert(d.subrange(q + 8, q + 12) =~= r.subrange(8, 12));
    assert(d.subrange(q + 12, q + 16) =~= r.subrange(12, 16));
    assert(d.subrange(q + 16, q + 20) =~= r.subrange(16, 20));
    assert(d.subrange(q + 20, q + 24) =~= r.subrange(20, 24));
    assert(r.subrange(0, 4) =~= word_bytes(off));
    assert(r.subrange(4, 8) =~= word_bytes(e.semantic_index));
    assert(r.subrange(8, 12) =~= word_bytes(e.system_value));
    assert(r.subrange(12, 16) =~= word_bytes(e.component_type));
    assert(r.subrange(16, 20) =~= word_bytes(e.register));
    assert(r.subrange(20, 24) =~= word_bytes(m));
}

/// The two masks in a word.
proof fn lemma_masks(a: u8, b: u8)
    ensures
        ((((a as u32) | ((b as u32) << 8)) & 0xFF) as u8) == a,
        (((((a as u32) | ((b as u32) << 8)) >> 8) & 0xFF) as u8) == b,
{
    assert(((((a as u32) | ((b as u32) << 8)) & 0xFF) as u8) == a && (((((a as u32) | ((b as u32)
        << 8)) >> 8) & 0xFF) as u8) == b) by (bit_vector);
}

/// An element is found where its record stands.
proof fn lemma_element(d: Seq<u8>, p: int, e: ElementModel, off: u32, v: SignatureVersion)
    requires
        storable(e, v),
        0 <= p,
        p + element_stride(v) <= d.len(),
        d.subrange(p, p + element_stride(v)) == element_record(e, off, v),
        stands_at(d, e.semantic_name, off as int),
    ensures
        element_at(d, p, v) == e,
{
    lemma_record_len(e, off, v);
    lemma_cstring(d, e.semantic_name, off as int);
    lemma_masks(e.mask, e.rw_mask);
    let r = element_record(e, off, v);
    let n = element_stride(v);
    let s = word_bytes(
        match e.stream {
            Some(s) => s,
            None => 0,
        },
    );
    let t = word_bytes(
        match e.min_precision {
            Some(m) => m.value,
            None => 0,
        },
    );
    lemma_word_bytes(
        match e.stream {
            Some(s) => s,
            None => 0,
        },
    );
    lemma_word_bytes(
        match e.min_precision {
            Some(m) => m.value,
            None => 0,
        },
    );
    lemma_word_bytes(off);
    lemma_word_bytes(e.semantic_index);
    lemma_word_bytes(e.system_value);
    lemma_word_bytes(e.component_type);
    lemma_word_bytes(e.register);
    lemma_word_bytes((e.mask as u32) | ((e.rw_mask as u32) << 8));
    let core = word_bytes(off) + word_bytes(e.semantic_index) + word_bytes(e.system_value)
        + word_bytes(e.component_type) + word_bytes(e.register) + word_bytes(
        (e.mask as u32) | ((e.rw_mask as u32) << 8),
    );
    let k = if v.streams() {
        4int
    } else {
        0
    };
    assert(r.subrange(k, k + 24) =~= core);
    assert(d.subrange(p + k, p + k + 24) =~= d.subrange(p, p + n).subrange(k, k + 24));
    lemma_core(d, p + k, e, off);
    if v.streams() {
        assert(r.subrange(0, 4) =~= s);
        assert(d.subrange(p, p + 4) =~= d.subrange(p, p + n).subrange(0, 4));
    }
    if v.precisions() {
        assert(r.subrange(k + 24, k + 28) =~= t);
        assert(d.subrange(p + k + 24, p + k + 28) =~= d.subrange(p, p + n).subrange(
            k + 24,
            k + 28,
        ));
    }
}

/// The records of the first elements, each in its place.
proof fn lemma_records(es: Seq<ElementModel>, offs: Seq<u32>, v: SignatureVersion, n: int)
    requires
        0 <= n <= es.len(),
        n <= offs.len(),
    ensures
        element_records(es, offs, v, n).len() == n * element_stride(v),
        forall|i: int|
            0 <= i < n ==> #[trigger] element_records(es, offs, v, n).subrange(
                i * element_stride(v),
                i * element_stride(v) + element_stride(v),
            ) == element_record(es[i], offs[i], v),
    decreases n,
{
    let k = element_stride(v);
    if n > 0 {
        lemma_records(es, offs, v, n - 1);
        lemma_record_len(es[n - 1], offs[n - 1], v);
        let a = element_records(es, offs, v, n - 1);
        let all = element_records(es, offs, v, n);
        assert((n - 1) * k + k == n * k) by (nonlinear_arith);
        assert forall|i: int| 0 <= i < n implies #[trigger] all.subrange(i * k, i * k + k)
            == element_record(es[i], offs[i], v) by {
            if i < n - 1 {
                assert(i * k + k <= (n - 1) * k && 0 <= i * k) by (nonlinear_arith)
                    requires
                        0 <= i < n - 1,
                        k > 0,
                ;
                assert(all.subrange(i * k, i * k + k) =~= a.subrange(i * k, i * k + k));
            } else {
                assert(all.subrange(i * k, i * k + k) =~= element_record(es[i], offs[i], v));
            }
        }
    } else {
        assert(0 * k == 0) by (nonlinear_arith);
    }
}

/// Whether the elements fit a chunk: every position in it can be told by a word.
pub open spec fn signature_fits(es: Seq<ElementModel>, v: SignatureVersion) -> bool {
    8 + es.len() * element_stride(v) + signature_names(es, v).bytes.len() <= 0xffff_ffff
}

/// A signature written as a chunk is found in it again, element for element.
/// Left out are names with the character nought in them, and elements that lack,
/// or have too much of, what chunks of that version have.
pub proof fn signature_payload_reads_back(es: Seq<ElementModel>, v: SignatureVersion)
    requires
        signature_fits(es, v),
        forall|i: int| 0 <= i < es.len() ==> storable(#[trigger] es[i], v),
    ensures
        elements_of(signature_payload(es, v), v) == es,
{
    let n = es.len() as int;
    let k = element_stride(v);
    let names = signature_names(es, v);
    let pos = (8 + es.len() * k) as nat;
    assert(es.len() * k >= 0 && n <= n * k) by (nonlinear_arith)
        requires
            n == es.len(),
            n >= 0,
            k >= 1,
    ;
    lemma_interned_names(pos, element_names(es), n);
    lemma_records(es, names.offs, v, n);
    let recs = element_records(es, names.offs, v, n);
    let h = word_bytes(es.len() as u32) + word_bytes(8);
    lemma_word_bytes(es.len() as u32);
    lemma_word_bytes(8);
    let b = h + recs + names.bytes;
    let d = signature_payload(es, v);
    assert(d == b + padding(b.len()));
    assert(d.subrange(0, 4) =~= word_bytes(es.len() as u32));
    lemma_word_in(d, 0, es.len() as u32);
    assert(records_held(d, 8, k, n) == n);
    let got = elements_of(d, v);
    assert forall|i: int| 0 <= i < n implies #[trigger] got[i] == es[i] by {
        let off = names.offs[i];
        let s = es[i].semantic_name;
        assert(storable(es[i], v));
        assert(stands_at(names.bytes, element_names(es)[i], off - pos));
        lemma_stands_behind(h + recs, names.bytes, padding(b.len()), s, off - pos);
        assert(i * k + k <= n * k && 0 <= i * k) by (nonlinear_arith)
            requires
                0 <= i < n,
                k > 0,
        ;
        let p = 8 + i * k;
        assert(d.subrange(p, p + k) =~= recs.subrange(i * k, i * k + k));
        lemma_element(d, p, es[i], off, v);
    }
    assert(got =~= es);
}

/// A name that stands in bytes stands in them between others.
proof fn lemma_stands_behind(a: Seq<u8>, b: Seq<u8>, c: Seq<u8>, s: Seq<char>, p: int)
    requires
        stands_at(b, s, p),
    ensures
        stands_at(a + b + c, s, a.len() + p),
{
    let x = encode_utf8(s);
    let q = a.len() + p;
    assert((a + b + c).subrange(q, q + x.len()) =~= b.subrange(p, p + x.len()));
}

} // verus!
