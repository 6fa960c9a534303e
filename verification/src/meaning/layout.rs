//! How chunks are laid out where the format leaves it open.

use vstd::prelude::*;
use vstd::utf8::encode_utf8;

use crate::bytes::{lemma_word_bytes, word_at, word_bytes};
use crate::chunks::rdef::RdefModel;
use crate::chunks::rdef_write::{
    binding_names, binding_section, creator_section, front_bytes, interned, interned_names,
    lemma_interned_names_len, middle_bytes, padding, rd11_bytes, rdef_header, rdef_payload,
};
use crate::chunks::signature::{
    ElementModel, SignatureVersion, element_names, element_records, element_stride,
    signature_names, signature_payload,
};
use crate::grammar::tables::{NameTable, table_value};
use crate::roundtrip::rdef_bytes::{
    lemma_binding_records_len, lemma_header, lemma_header_len, lemma_parts,
};
use crate::roundtrip::rdef_types::lemma_table_push;

verus! {

/// Up to three bytes of 0xAB fill up to a multiple of four.
pub proof fn gaps_are_filled(pos: nat, i: int)
    ensures
        padding(pos).len() <= 3,
        (pos + padding(pos).len()) % 4 == 0,
        0 <= i < padding(pos).len() ==> padding(pos)[i] == 0xAB,
{
}

/// Chunks of signatures and of resource definitions end at a multiple of four.
pub proof fn chunks_are_filled_up(es: Seq<ElementModel>, v: SignatureVersion, rd: RdefModel)
    ensures
        signature_payload(es, v).len() % 4 == 0,
        rdef_payload(rd).len() % 4 == 0,
{
    let n = signature_names(es, v);
    let b = word_bytes(es.len() as u32) + word_bytes(8) + element_records(
        es,
        n.offs,
        v,
        es.len() as int,
    ) + n.bytes;
    gaps_are_filled(b.len(), 0);
    let c = rdef_header(rd) + middle_bytes(rd) + creator_section(rd).bytes;
    gaps_are_filled(c.len(), 0);
}

/// A name is written, with a nought behind it, directly behind those before it; one
/// that has been written before is not written again and has the place it had.
pub proof fn names_are_written_once(pos: nat, names: Seq<Seq<char>>, n: int, i: int)
    requires
        0 <= n < names.len(),
        pos + interned_names(pos, Seq::empty(), names, n).bytes.len() <= 0xffff_ffff,
    ensures
        ({
            let a = interned_names(pos, Seq::empty(), names, n);
            let b = interned_names(pos, Seq::empty(), names, n + 1);
            &&& a.offs.len() == n
            &&& b.offs.len() == n + 1
            &&& 0 <= i < n ==> b.offs[i] == a.offs[i]
            &&& 0 <= i < n && names[i] == names[n] ==> b.bytes == a.bytes && b.offs[n] == a.offs[i]
            &&& (forall|j: int| 0 <= j < n ==> #[trigger] names[j] != names[n]) ==> b.bytes
                == a.bytes + encode_utf8(names[n]) + seq![0u8] && b.offs[n] == pos + a.bytes.len()
        }),
{
    let e: NameTable = Seq::empty();
    let a = interned_names(pos, e, names, n);
    let b = interned_names(pos, e, names, n + 1);
    lemma_interned_names_len(pos, e, names, n);
    lemma_pool(pos, names, n);
    let s = names[n];
    let x = interned(pos + a.bytes.len(), a.pool, s);
    assert(b.bytes == a.bytes + x.bytes);
    if table_value(a.pool, s) is Some {
        assert(a.bytes + x.bytes =~= a.bytes);
        let j = choose|j: int| 0 <= j < n && #[trigger] names[j] == s;
        assert(names[j] == s);
    } else {
        assert(a.bytes + encode_utf8(s).push(0) =~= a.bytes + encode_utf8(s) + seq![0u8]);
    }
    if 0 <= i < n {
        assert(table_value(a.pool, names[i]) == Some(a.offs[i]));
    }
}

/// The names that have been written are known, each with its place.
proof fn lemma_pool(pos: nat, names: Seq<Seq<char>>, n: int)
    requires
        0 <= n <= names.len(),
    ensures
        ({
            let a = interned_names(pos, Seq::empty(), names, n);
            &&& a.offs.len() == n
            &&& forall|i: int|
                0 <= i < n ==> table_value(a.pool, #[trigger] names[i]) == Some(a.offs[i])
            &&& forall|s: Seq<char>|
                #[trigger] table_value(a.pool, s) is Some ==> exists|j: int|
                    0 <= j < n && #[trigger] names[j] == s
        }),
    decreases n,
{
    let e: NameTable = Seq::empty();
    if n > 0 {
        lemma_pool(pos, names, n - 1);
        let a = interned_names(pos, e, names, n - 1);
        let b = interned_names(pos, e, names, n);
        let s = names[n - 1];
        let x = interned(pos + a.bytes.len(), a.pool, s);
        if table_value(a.pool, s) is None {
            lemma_table_push(a.pool, s, x.off);
            assert forall|t: Seq<char>| t != s implies #[trigger] table_value(x.pool, t)
                == table_value(a.pool, t) by {
                lemma_push_other(a.pool, s, x.off, t);
            }
        }
        assert forall|i: int| 0 <= i < n implies table_value(b.pool, #[trigger] names[i]) == Some(
            b.offs[i],
        ) by {
            if i < n - 1 {
                assert(table_value(a.pool, names[i]) == Some(a.offs[i]));
                assert(b.offs[i] == a.offs[i]);
            }
        }
        assert forall|t: Seq<char>| #[trigger] table_value(b.pool, t) is Some implies exists|j: int|
            0 <= j < n && #[trigger] names[j] == t by {
            if t == s {
                assert(names[n - 1] == t);
            } else {
                assert(table_value(a.pool, t) is Some);
                let j = choose|j: int| 0 <= j < n - 1 && #[trigger] names[j] == t;
                assert(names[j] == t);
            }
        }
    }
}

proof fn lemma_push_other(t: NameTable, s: Seq<char>, v: u32, r: Seq<char>)
    requires
        r != s,
    ensures
        table_value(t.push((s, v)), r) == table_value(t, r),
    decreases t.len(),
{
    let u = t.push((s, v));
    if t.len() > 0 {
        assert(u[0] == t[0]);
        assert(u.skip(1) =~= t.skip(1).push((s, v)));
        lemma_push_other(t.skip(1), s, v, r);
    } else {
        assert(u.skip(1) =~= t);
        assert(u[0] == (s, v));
    }
}

/// A signature begins with the number of its elements and the size of that header,
/// and the first of its names stands directly behind the records.
pub proof fn signatures_have_their_layout(es: Seq<ElementModel>, v: SignatureVersion)
    requires
        es.len() <= 0xffff_ffff,
        8 + es.len() * element_stride(v) <= 0xffff_ffff,
    ensures
        ({
            let d = signature_payload(es, v);
            &&& d.len() >= 8
            &&& word_at(d, 0) == es.len()
            &&& word_at(d, 4) == 8
            &&& es.len() > 0 ==> signature_names(es, v).offs[0] == 8 + es.len() * (if v is V0 {
                24int
            } else if v is V5 {
                28
            } else {
                32
            })
        }),
{
    let n = signature_names(es, v);
    let d = signature_payload(es, v);
    lemma_word_bytes(es.len() as u32);
    lemma_word_bytes(8);
    assert(d.subrange(0, 4) =~= word_bytes(es.len() as u32));
    assert(d.subrange(4, 8) =~= word_bytes(8));
    if es.len() > 0 {
        let pos = (8 + es.len() * element_stride(v)) as nat;
        lemma_first_name(pos, Seq::empty(), element_names(es), es.len() as int);
    }
}

proof fn lemma_first_name(pos: nat, pool: NameTable, names: Seq<Seq<char>>, n: int)
    requires
        n > 0,
        pool.len() == 0,
    ensures
        interned_names(pos, pool, names, n).offs.len() == n,
        interned_names(pos, pool, names, n).offs[0] == pos as u32,
    decreases n,
{
    lemma_interned_names_len(pos, pool, names, n);
    if n > 1 {
        lemma_first_name(pos, pool, names, n - 1);
        lemma_interned_names_len(pos, pool, names, n - 1);
    } else {
        reveal_with_fuel(interned_names, 2);
    }
}

/// Resource definitions begin with their header, which counts buffers and bindings and
/// says where both stand; the bindings follow the header and the further one of shader
/// model five, the first of their names follows them, and the buffers stand behind all
/// names at a multiple of four, or nowhere where there are none.
pub proof fn definitions_have_their_layout(rd: RdefModel)
    requires
        rdef_payload(rd).len() <= 0xffff_ffff,
    ensures
        ({
            let d = rdef_payload(rd);
            let front = if rd.rd11_extra is Some {
                60int
            } else {
                28
            };
            &&& word_at(d, 0) == rd.constant_buffers.len()
            &&& word_at(d, 8) == rd.bindings.len()
            &&& word_at(d, 12) == front
            &&& word_at(d, 16) == rd.target_version
            &&& word_at(d, 20) == rd.compile_flags
            &&& rd.constant_buffers.len() == 0 ==> word_at(d, 4) == 0
            &&& rd.constant_buffers.len() > 0 ==> word_at(d, 4) % 4 == 0 && word_at(d, 4) >= front
                + 32 * rd.bindings.len()
            &&& rd.bindings.len() > 0 ==> binding_section(rd).offs[0] == front + 32
                * rd.bindings.len()
        }),
{
    let d = rdef_payload(rd);
    lemma_parts(rd);
    lemma_header(d, rd);
    lemma_header_len(rd);
    lemma_further_len(rd);
    let bs = binding_section(rd);
    let nb = rd.bindings.len() as int;
    let x = rd11_bytes(rd.rd11_extra);
    let r = crate::chunks::rdef_write::binding_records(rd.bindings, bs.offs, nb);
    lemma_binding_records_len(rd.bindings, bs.offs, nb);
    let b = x + r + bs.bytes;
    gaps_are_filled(28 + b.len(), 0);
    let nc = rd.constant_buffers.len() as int;
    crate::roundtrip::rdef_bytes::lemma_buffer_records_len(
        rd.constant_buffers,
        crate::chunks::rdef_write::buffer_section(rd).offs,
        crate::chunks::rdef_write::variable_section(rd).offs,
        nc,
    );
    assert(d.len() >= 28 + middle_bytes(rd).len());
    assert(middle_bytes(rd).len() >= front_bytes(rd).len() + 24 * nc);
    if nb > 0 {
        lemma_first_name(
            28 + x.len() + 32 * rd.bindings.len(),
            Seq::empty(),
            binding_names(rd.bindings),
            nb,
        );
    }
}

proof fn lemma_further_len(rd: RdefModel)
    ensures
        rd11_bytes(rd.rd11_extra).len() == (if rd.rd11_extra is Some {
            32nat
        } else {
            0
        }),
{
    match rd.rd11_extra {
        Some(e) => {
            lemma_word_bytes(e[0]);
            lemma_word_bytes(e[1]);
            lemma_word_bytes(e[2]);
            lemma_word_bytes(e[3]);
            lemma_word_bytes(e[4]);
            lemma_word_bytes(e[5]);
            lemma_word_bytes(e[6]);
            lemma_word_bytes(e[7]);
        },
        None => {},
    }
}

} // verus!
