//! Names and types in the bytes of resource definitions read back.

use vstd::prelude::*;
use vstd::utf8::encode_utf8;

use crate::bytes::{lemma_word_bytes, word_at, word_bytes};
use crate::chunks::rdef::{MemberModel, TypeModel};
use crate::chunks::rdef_parse::type_at;
use crate::chunks::rdef_write::{
    Interned, Written, interned, member_records, offset_of, padding, placed_members, placed_type,
    type_offset, type_parts, type_record,
};
use crate::grammar::tables::{NameTable, table_value};
use crate::roundtrip::signature_bytes::{lemma_cstring, stands_at, terminable};
use crate::roundtrip::tables::lemma_table_value_index;

verus! {

// ---------------------------------------------------------------------------
// Bytes in place
// ---------------------------------------------------------------------------

/// Whether the bytes `x` stand at position `p`.
pub open spec fn bytes_stand(d: Seq<u8>, p: int, x: Seq<u8>) -> bool {
    0 <= p && p + x.len() <= d.len() && d.subrange(p, p + x.len()) == x
}

/// Bytes that stand one behind the other.
pub proof fn lemma_bytes_split(d: Seq<u8>, p: int, x: Seq<u8>, y: Seq<u8>)
    requires
        bytes_stand(d, p, x + y),
    ensures
        bytes_stand(d, p, x),
        bytes_stand(d, p + x.len(), y),
{
    let s = x + y;
    let q = p + x.len();
    assert(d.subrange(p, p + x.len()) =~= s.subrange(0, x.len() as int));
    assert(s.subrange(0, x.len() as int) =~= x);
    assert(d.subrange(q, q + y.len()) =~= s.subrange(x.len() as int, s.len() as int));
    assert(s.subrange(x.len() as int, s.len() as int) =~= y);
}

/// A word behind other bytes.
pub proof fn lemma_peel(d: Seq<u8>, p: int, x: Seq<u8>, w: u32)
    requires
        bytes_stand(d, p, x + word_bytes(w)),
    ensures
        bytes_stand(d, p, x),
        word_at(d, p + x.len()) == w,
        p + x.len() + 4 <= d.len(),
        (x + word_bytes(w)).len() == x.len() + 4,
{
    lemma_bytes_split(d, p, x, word_bytes(w));
    lemma_word_bytes(w);
}

/// A word alone.
pub proof fn lemma_lone_word(d: Seq<u8>, p: int, w: u32)
    requires
        bytes_stand(d, p, word_bytes(w)),
    ensures
        word_at(d, p) == w,
        p + 4 <= d.len(),
        word_bytes(w).len() == 4,
{
    lemma_word_bytes(w);
}

// ---------------------------------------------------------------------------
// Names
// ---------------------------------------------------------------------------

/// Whether every name of the pool stands at its position, which is not nought.
pub open spec fn pool_good(d: Seq<u8>, pool: NameTable) -> bool {
    forall|i: int|
        0 <= i < pool.len() ==> (#[trigger] pool[i]).1 > 0 && stands_at(
            d,
            pool[i].0,
            pool[i].1 as int,
        )
}

/// Whether the one table begins with the other.
pub open spec fn begins(pool: NameTable, first: NameTable) -> bool {
    first.len() <= pool.len() && pool.take(first.len() as int) == first
}

/// What a table finds, a table that begins with it finds too.
pub proof fn lemma_begins(pool: NameTable, first: NameTable, s: Seq<char>)
    requires
        begins(pool, first),
        table_value(first, s) is Some,
    ensures
        table_value(pool, s) == table_value(first, s),
    decreases first.len(),
{
    if first.len() > 0 {
        assert(pool.take(first.len() as int)[0] == pool[0]);
        if first[0].0 != s {
            let a = pool.skip(1);
            let b = first.skip(1);
            assert(a.take(b.len() as int) =~= pool.take(first.len() as int).skip(1));
            lemma_begins(a, b, s);
        }
    }
}

/// Tables begin with one another in turn.
pub proof fn lemma_begins_on(a: NameTable, b: NameTable, c: NameTable)
    requires
        begins(b, a),
        begins(c, b),
    ensures
        begins(c, a),
{
    assert(c.take(a.len() as int) =~= c.take(b.len() as int).take(a.len() as int));
}

/// The number of a name added at the end.
pub proof fn lemma_table_push(t: NameTable, s: Seq<char>, v: u32)
    requires
        table_value(t, s) is None,
    ensures
        table_value(t.push((s, v)), s) == Some(v),
    decreases t.len(),
{
    let u = t.push((s, v));
    assert(u[0] == if t.len() > 0 {
        t[0]
    } else {
        (s, v)
    });
    if t.len() > 0 {
        lemma_table_push(t.skip(1), s, v);
        assert(u.skip(1) =~= t.skip(1).push((s, v)));
    }
}

/// A name in the pool stands where the pool says.
pub proof fn lemma_pool_name(d: Seq<u8>, pool: NameTable, s: Seq<char>)
    requires
        pool_good(d, pool),
        table_value(pool, s) is Some,
    ensures
        stands_at(d, s, offset_of(pool, s) as int),
        offset_of(pool, s) > 0,
{
    lemma_table_value_index(pool, s);
    let i = choose|i: int|
        0 <= i < pool.len() && (#[trigger] pool[i]).0 == s && table_value(pool, s) == Some(
            pool[i].1,
        );
    assert(stands_at(d, pool[i].0, pool[i].1 as int));
}

/// A name stands where it was put.
pub proof fn lemma_interned(d: Seq<u8>, pos: nat, pool: NameTable, s: Seq<char>)
    requires
        d.len() <= 0xffff_ffff,
        pos > 0,
        pool_good(d, pool),
        bytes_stand(d, pos as int, interned(pos, pool, s).bytes),
    ensures
        pool_good(d, interned(pos, pool, s).pool),
        begins(interned(pos, pool, s).pool, pool),
        stands_at(d, s, interned(pos, pool, s).off as int),
        interned(pos, pool, s).off > 0,
        table_value(interned(pos, pool, s).pool, s) == Some(interned(pos, pool, s).off),
{
    let r = interned(pos, pool, s);
    match table_value(pool, s) {
        Some(_) => {
            lemma_pool_name(d, pool, s);
            assert(pool.take(pool.len() as int) =~= pool);
        },
        None => {
            let b = encode_utf8(s);
            let p = pos as int;
            assert(d.subrange(p, p + r.bytes.len()) == b.push(0));
            assert(d.subrange(p, p + b.len()) =~= b.push(0).take(b.len() as int));
            assert(b.push(0).take(b.len() as int) =~= b);
            assert(d[p + b.len()] == b.push(0)[b.len() as int]);
            assert(stands_at(d, s, p));
            lemma_table_push(pool, s, pos as u32);
            assert(r.pool.take(pool.len() as int) =~= pool);
            assert forall|i: int| 0 <= i < r.pool.len() implies (#[trigger] r.pool[i]).1 > 0
                && stands_at(d, r.pool[i].0, r.pool[i].1 as int) by {
                if i < pool.len() {
                    assert(r.pool[i] == pool[i]);
                }
            }
        },
    }
}

// ---------------------------------------------------------------------------
// Types
// ---------------------------------------------------------------------------

/// How deep a type is nested.
pub open spec fn type_height(t: TypeModel) -> nat
    decreases t, 1int,
{
    1 + members_height(t.members, t.members.len() as int)
}

/// How deep the types of the first `n` members are nested.
pub open spec fn members_height(ms: Seq<MemberModel>, n: int) -> nat
    decreases ms, n,
{
    if n <= 0 || n > ms.len() {
        0
    } else {
        let a = members_height(ms, n - 1);
        let b = type_height(ms[n - 1].member_type);
        if a < b {
            b
        } else {
            a
        }
    }
}

/// Whether the bytes can hold a type: its names can stand in bytes, its members
/// can be counted in sixteen bits, and it has what types of shader model five
/// have, or has none of it.
pub open spec fn type_fits(t: TypeModel, sm5: bool) -> bool
    decreases t, 1int,
{
    &&& terminable(t.name)
    &&& t.members.len() <= 0xFFFF
    &&& t.sm5_extra is Some == sm5
    &&& sm5 || t.name.len() == 0
    &&& members_fit(t.members, sm5, t.members.len() as int)
}

/// Whether that holds of the first `n` members.
pub open spec fn members_fit(ms: Seq<MemberModel>, sm5: bool, n: int) -> bool
    decreases ms, n,
{
    n <= 0 || n > ms.len() || (members_fit(ms, sm5, n - 1) && terminable(ms[n - 1].name)
        && type_fits(ms[n - 1].member_type, sm5))
}

/// Whether the type is read at that position, which lies before `limit`.
#[verifier::opaque]
pub open spec fn type_stands(d: Seq<u8>, t: TypeModel, off: u32, sm5: bool, limit: int) -> bool {
    &&& off + 16 <= limit
    &&& limit <= d.len()
    &&& type_height(t) <= off + 1
    &&& forall|depth: nat|
        depth >= type_height(t) ==> #[trigger] type_at(d, off as int, sm5, depth) == t
}

/// Whether every type written stands at its position.
pub open spec fn types_good(
    d: Seq<u8>,
    types: Seq<(TypeModel, u32)>,
    sm5: bool,
    limit: int,
) -> bool {
    forall|i: int|
        0 <= i < types.len() ==> type_stands(d, (#[trigger] types[i]).0, types[i].1, sm5, limit)
}

/// Whether the names and types written so far stand at their positions.
pub open spec fn written_good(d: Seq<u8>, st: Written, sm5: bool, limit: int) -> bool {
    pool_good(d, st.pool) && types_good(d, st.types, sm5, limit)
}

/// What lies before a position lies before one behind it.
pub proof fn lemma_limit(d: Seq<u8>, t: TypeModel, off: u32, sm5: bool, a: int, b: int)
    requires
        type_stands(d, t, off, sm5, a),
        a <= b <= d.len(),
    ensures
        type_stands(d, t, off, sm5, b),
{
    reveal(type_stands);
}

pub proof fn lemma_types_limit(
    d: Seq<u8>,
    types: Seq<(TypeModel, u32)>,
    sm5: bool,
    a: int,
    b: int,
)
    requires
        types_good(d, types, sm5, a),
        a <= b <= d.len(),
    ensures
        types_good(d, types, sm5, b),
{
    assert forall|i: int| 0 <= i < types.len() implies type_stands(
        d,
        (#[trigger] types[i]).0,
        types[i].1,
        sm5,
        b,
    ) by {
        lemma_limit(d, types[i].0, types[i].1, sm5, a, b);
    }
}

proof fn lemma_type_offset(types: Seq<(TypeModel, u32)>, t: TypeModel)
    requires
        type_offset(types, t) is Some,
    ensures
        exists|i: int|
            0 <= i < types.len() && (#[trigger] types[i]).0 == t && type_offset(types, t) == Some(
                types[i].1,
            ),
    decreases types.len(),
{
    if types[0].0 == t {
        assert(type_offset(types, t) == Some(types[0].1));
    } else {
        let u = types.skip(1);
        lemma_type_offset(u, t);
        let i = choose|i: int|
            0 <= i < u.len() && (#[trigger] u[i]).0 == t && type_offset(u, t) == Some(u[i].1);
        assert(types[i + 1] == u[i]);
    }
}

/// The records of members, word by word.
proof fn lemma_member_records(
    d: Seq<u8>,
    at: int,
    ms: Seq<MemberModel>,
    pool: NameTable,
    offs: Seq<u32>,
    n: int,
)
    requires
        0 <= n <= ms.len(),
        bytes_stand(d, at, member_records(ms, pool, offs, n)),
    ensures
        member_records(ms, pool, offs, n).len() == 12 * n,
        forall|k: int|
            #![trigger ms[k]]
            0 <= k < n ==> word_at(d, at + k * 12) == offset_of(pool, ms[k].name) && word_at(
                d,
                at + k * 12 + 4,
            ) == offs[k] && word_at(d, at + k * 12 + 8) == ms[k].offset,
    decreases n,
{
    if n > 0 {
        let m = ms[n - 1];
        let a = member_records(ms, pool, offs, n - 1);
        let (x, y, z) = (offset_of(pool, m.name), offs[n - 1], m.offset);
        lemma_peel(d, at, a + word_bytes(x) + word_bytes(y), z);
        lemma_peel(d, at, a + word_bytes(x), y);
        lemma_peel(d, at, a, x);
        lemma_member_records(d, at, ms, pool, offs, n - 1);
    }
}

/// The words of a type's record.
proof fn lemma_type_record(
    d: Seq<u8>,
    off: int,
    t: TypeModel,
    name_off: u32,
    member_off: u32,
    sm5: bool,
)
    requires
        bytes_stand(d, off, type_record(t, name_off, member_off, sm5)),
        t.sm5_extra is Some == sm5,
    ensures
        off + 16 <= d.len(),
        type_record(t, name_off, member_off, sm5).len() >= 16,
        word_at(d, off) == (t.class as u32) | ((t.var_type as u32) << 16),
        word_at(d, off + 4) == (t.rows as u32) | ((t.columns as u32) << 16),
        word_at(d, off + 8) == (t.elements as u32) | ((t.members.len() as u32) << 16),
        word_at(d, off + 12) == member_off,
        sm5 ==> off + 36 <= d.len() && word_at(d, off + 32) == name_off,
        sm5 ==> word_at(d, off + 16) == (t.sm5_extra->0)[0] && word_at(d, off + 20)
            == (t.sm5_extra->0)[1] && word_at(d, off + 24) == (t.sm5_extra->0)[2] && word_at(
            d,
            off + 28,
        ) == (t.sm5_extra->0)[3],
{
    let a = (t.class as u32) | ((t.var_type as u32) << 16);
    let b = (t.rows as u32) | ((t.columns as u32) << 16);
    let c = (t.elements as u32) | ((t.members.len() as u32) << 16);
    let head = word_bytes(a) + word_bytes(b) + word_bytes(c) + word_bytes(member_off);
    let tail = if sm5 {
        let e = t.sm5_extra->0;
        word_bytes(e[0]) + word_bytes(e[1]) + word_bytes(e[2]) + word_bytes(e[3]) + word_bytes(
            name_off,
        )
    } else {
        Seq::empty()
    };
    assert(type_record(t, name_off, member_off, sm5) == head + tail);
    lemma_bytes_split(d, off, head, tail);
    lemma_peel(d, off, word_bytes(a) + word_bytes(b) + word_bytes(c), member_off);
    lemma_peel(d, off, word_bytes(a) + word_bytes(b), c);
    lemma_peel(d, off, word_bytes(a), b);
    lemma_lone_word(d, off, a);
    if sm5 {
        let e = t.sm5_extra->0;
        let p = off + 16;
        lemma_peel(
            d,
            p,
            word_bytes(e[0]) + word_bytes(e[1]) + word_bytes(e[2]) + word_bytes(e[3]),
            name_off,
        );
        lemma_peel(d, p, word_bytes(e[0]) + word_bytes(e[1]) + word_bytes(e[2]), e[3]);
        lemma_peel(d, p, word_bytes(e[0]) + word_bytes(e[1]), e[2]);
        lemma_peel(d, p, word_bytes(e[0]), e[1]);
        lemma_lone_word(d, p, e[0]);
    }
}

/// Two halves of a word.
proof fn lemma_halves(a: u16, b: u16)
    ensures
        (((a as u32) | ((b as u32) << 16)) & 0xFFFF) as u16 == a,
        (((a as u32) | ((b as u32) << 16)) >> 16) as u16 == b,
{
    assert((((a as u32) | ((b as u32) << 16)) & 0xFFFF) as u16 == a) by (bit_vector);
    assert((((a as u32) | ((b as u32) << 16)) >> 16) as u16 == b) by (bit_vector);
}

/// Whether the first `n` members can be found: each name in the pool, each type
/// at its position.
pub open spec fn members_good(
    d: Seq<u8>,
    pool: NameTable,
    ms: Seq<MemberModel>,
    offs: Seq<u32>,
    sm5: bool,
    limit: int,
    n: int,
) -> bool {
    &&& offs.len() == n
    &&& forall|k: int|
        #![trigger ms[k]]
        0 <= k < n ==> table_value(pool, ms[k].name) is Some && terminable(ms[k].name)
            && type_stands(d, ms[k].member_type, offs[k], sm5, limit)
}

proof fn lemma_members_height(ms: Seq<MemberModel>, n: int, k: int)
    requires
        0 <= k < n <= ms.len(),
    ensures
        members_height(ms, n) >= type_height(ms[k].member_type),
    decreases n,
{
    if k < n - 1 {
        lemma_members_height(ms, n - 1, k);
    }
}

proof fn lemma_height_bound(
    d: Seq<u8>,
    pool: NameTable,
    ms: Seq<MemberModel>,
    offs: Seq<u32>,
    sm5: bool,
    limit: int,
    n: int,
)
    requires
        0 <= n <= ms.len(),
        members_good(d, pool, ms, offs, sm5, limit, ms.len() as int),
        limit >= 0,
    ensures
        members_height(ms, n) <= limit,
    decreases n,
{
    reveal(type_stands);
    if n > 0 {
        lemma_height_bound(d, pool, ms, offs, sm5, limit, n - 1);
        assert(type_stands(d, ms[n - 1].member_type, offs[n - 1], sm5, limit));
    }
}

/// A type is read from its record, where its name and members can be found.
#[verifier::rlimit(40)]
proof fn lemma_type_read(
    d: Seq<u8>,
    off: u32,
    t: TypeModel,
    pool: NameTable,
    offs: Seq<u32>,
    name_off: u32,
    member_off: u32,
    sm5: bool,
    limit: int,
)
    requires
        type_fits(t, sm5),
        limit <= off,
        0 <= limit,
        bytes_stand(d, off as int, type_record(t, name_off, member_off, sm5)),
        t.name.len() == 0 ==> name_off == 0,
        t.name.len() > 0 ==> name_off > 0 && stands_at(d, t.name, name_off as int),
        t.members.len() > 0 ==> bytes_stand(
            d,
            member_off as int,
            member_records(t.members, pool, offs, t.members.len() as int),
        ),
        pool_good(d, pool),
        members_good(d, pool, t.members, offs, sm5, limit, t.members.len() as int),
    ensures
        type_stands(
            d,
            t,
            off,
            sm5,
            off + type_record(t, name_off, member_off, sm5).len(),
        ),
{
    reveal(type_stands);
    let n = t.members.len() as int;
    let o = off as int;
    lemma_type_record(d, o, t, name_off, member_off, sm5);
    lemma_halves(t.class, t.var_type);
    lemma_halves(t.rows, t.columns);
    lemma_halves(t.elements, t.members.len() as u16);
    lemma_height_bound(d, pool, t.members, offs, sm5, limit, n);
    if n > 0 {
        lemma_member_records(d, member_off as int, t.members, pool, offs, n);
    }
    if t.name.len() > 0 {
        lemma_cstring(d, t.name, name_off as int);
    }
    assert forall|depth: nat| depth >= type_height(t) implies #[trigger] type_at(
        d,
        o,
        sm5,
        depth,
    ) == t by {
        let r = type_at(d, o, sm5, depth);
        assert(r.members =~= t.members) by {
            assert forall|k: int| 0 <= k < n implies #[trigger] r.members[k] == t.members[k] by {
                let m = t.members[k];
                lemma_pool_name(d, pool, m.name);
                lemma_cstring(d, m.name, offset_of(pool, m.name) as int);
                lemma_members_height(t.members, n, k);
                assert(type_stands(d, m.member_type, offs[k], sm5, limit));
                assert(type_at(d, offs[k] as int, sm5, (depth - 1) as nat) == m.member_type);
            }
        }
        if sm5 {
            assert(r.sm5_extra->0@ =~= t.sm5_extra->0@);
            assert(r.sm5_extra->0 =~= t.sm5_extra->0);
            assert(r.sm5_extra == t.sm5_extra);
        }
        assert(r.name =~= t.name);
    }
}

/// Members are found where they were put.
#[verifier::rlimit(40)]
proof fn lemma_members(
    d: Seq<u8>,
    pos: nat,
    st: Written,
    ms: Seq<MemberModel>,
    sm5: bool,
    n: int,
)
    requires
        0 <= n <= ms.len(),
        d.len() <= 0xffff_ffff,
        pos > 0,
        members_fit(ms, sm5, n),
        written_good(d, st, sm5, pos as int),
        bytes_stand(d, pos as int, placed_members(pos, st, ms, sm5, n).bytes),
    ensures
        ({
            let r = placed_members(pos, st, ms, sm5, n);
            let limit = (pos + r.bytes.len()) as int;
            &&& written_good(d, r.st, sm5, limit)
            &&& begins(r.st.pool, st.pool)
            &&& members_good(d, r.st.pool, ms, r.offs, sm5, limit, n)
        }),
    decreases ms, n,
{
    reveal(placed_type);
    let r = placed_members(pos, st, ms, sm5, n);
    if n > 0 {
        let m = ms[n - 1];
        let p = placed_members(pos, st, ms, sm5, n - 1);
        let a = pos + p.bytes.len();
        let i = interned(a, p.st.pool, m.name);
        let mid = Written { pool: i.pool, types: p.st.types };
        let b = a + i.bytes.len();
        let t = placed_type(b, mid, m.member_type, sm5);
        lemma_bytes_split(d, pos as int, p.bytes + i.bytes, t.bytes);
        lemma_bytes_split(d, pos as int, p.bytes, i.bytes);
        lemma_members(d, pos, st, ms, sm5, n - 1);
        lemma_interned(d, a, p.st.pool, m.name);
        lemma_types_limit(d, p.st.types, sm5, a as int, b as int);
        lemma_type(d, b, mid, m.member_type, sm5);
        lemma_begins_on(st.pool, p.st.pool, i.pool);
        lemma_begins_on(st.pool, i.pool, r.st.pool);
        lemma_begins_on(p.st.pool, i.pool, r.st.pool);
        let limit = (pos + r.bytes.len()) as int;
        assert(limit == b + t.bytes.len());
        assert forall|k: int| 0 <= k < n implies table_value(r.st.pool, ms[k].name) is Some
            && terminable(ms[k].name) && type_stands(
            d,
            (#[trigger] ms[k]).member_type,
            r.offs[k],
            sm5,
            limit,
        ) by {
            if k < n - 1 {
                lemma_begins(r.st.pool, p.st.pool, ms[k].name);
                lemma_limit(d, ms[k].member_type, p.offs[k], sm5, a as int, limit);
            } else {
                lemma_begins(r.st.pool, i.pool, m.name);
            }
        }
    } else {
        assert(st.pool.take(st.pool.len() as int) =~= st.pool);
    }
}

/// The name of a type, where it has one.
proof fn lemma_type_name(d: Seq<u8>, pos: nat, pool: NameTable, s: Seq<char>) -> (i: Interned)
    requires
        d.len() <= 0xffff_ffff,
        pos > 0,
        pool_good(d, pool),
        bytes_stand(
            d,
            pos as int,
            if s.len() == 0 {
                Seq::empty()
            } else {
                interned(pos, pool, s).bytes
            },
        ),
    ensures
        i == if s.len() == 0 {
            (Interned { bytes: Seq::empty(), pool, off: 0 })
        } else {
            interned(pos, pool, s)
        },
        pool_good(d, i.pool),
        begins(i.pool, pool),
        s.len() > 0 ==> i.off > 0 && stands_at(d, s, i.off as int),
{
    if s.len() == 0 {
        assert(pool.take(pool.len() as int) =~= pool);
        Interned { bytes: Seq::empty(), pool, off: 0 }
    } else {
        lemma_interned(d, pos, pool, s);
        interned(pos, pool, s)
    }
}

/// A type that is written anew stands where it was put.
#[verifier::rlimit(40)]
proof fn lemma_new_type(d: Seq<u8>, pos: nat, st: Written, td: TypeModel, sm5: bool)
    requires
        d.len() <= 0xffff_ffff,
        pos > 0,
        type_fits(td, sm5),
        written_good(d, st, sm5, pos as int),
        ({
            let p = type_parts(pos, st, td, sm5);
            bytes_stand(
                d,
                pos as int,
                p.bytes + type_record(td, p.name_off, p.member_off, sm5),
            )
        }),
    ensures
        ({
            let p = type_parts(pos, st, td, sm5);
            let off = pos + p.bytes.len();
            let limit = (off + type_record(td, p.name_off, p.member_off, sm5).len()) as int;
            &&& off <= 0xffff_ffff
            &&& written_good(d, p.st, sm5, limit)
            &&& begins(p.st.pool, st.pool)
            &&& type_stands(d, td, off as u32, sm5, limit)
        }),
    decreases td, 0int,
{
    let p = type_parts(pos, st, td, sm5);
    let rec = type_record(td, p.name_off, p.member_off, sm5);
    let off = pos + p.bytes.len();
    let limit = (off + rec.len()) as int;
    lemma_bytes_split(d, pos as int, p.bytes, rec);
    let ib = if td.name.len() == 0 {
        Seq::<u8>::empty()
    } else {
        interned(pos, st.pool, td.name).bytes
    };
    let n = td.members.len() as int;
    if n == 0 {
        lemma_bytes_split(d, pos as int, ib, padding(pos + ib.len()));
        let i = lemma_type_name(d, pos, st.pool, td.name);
        lemma_types_limit(d, st.types, sm5, pos as int, limit);
        lemma_type_read(
            d,
            off as u32,
            td,
            i.pool,
            Seq::empty(),
            p.name_off,
            p.member_off,
            sm5,
            pos as int,
        );
    } else {
        let ip = if td.name.len() == 0 {
            st.pool
        } else {
            interned(pos, st.pool, td.name).pool
        };
        let a = pos + ib.len();
        let mid = Written { pool: ip, types: st.types };
        let m = placed_members(a, mid, td.members, sm5, n);
        let before = ib + m.bytes;
        let gap = padding(pos + before.len());
        let records = member_records(td.members, m.st.pool, m.offs, n);
        let all = before + gap + records;
        lemma_bytes_split(d, pos as int, all, padding(pos + all.len()));
        lemma_bytes_split(d, pos as int, before + gap, records);
        lemma_bytes_split(d, pos as int, before, gap);
        lemma_bytes_split(d, pos as int, ib, m.bytes);
        let i = lemma_type_name(d, pos, st.pool, td.name);
        lemma_types_limit(d, st.types, sm5, pos as int, a as int);
        lemma_members(d, a, mid, td.members, sm5, n);
        lemma_begins_on(st.pool, i.pool, m.st.pool);
        let inner = (a + m.bytes.len()) as int;
        lemma_types_limit(d, m.st.types, sm5, inner, limit);
        lemma_type_read(
            d,
            off as u32,
            td,
            m.st.pool,
            m.offs,
            p.name_off,
            p.member_off,
            sm5,
            inner,
        );
    }
}

/// A type stands where it was put, or where it was found.
#[verifier::rlimit(40)]
pub proof fn lemma_type(d: Seq<u8>, pos: nat, st: Written, td: TypeModel, sm5: bool)
    requires
        d.len() <= 0xffff_ffff,
        pos > 0,
        type_fits(td, sm5),
        written_good(d, st, sm5, pos as int),
        bytes_stand(d, pos as int, placed_type(pos, st, td, sm5).bytes),
    ensures
        ({
            let r = placed_type(pos, st, td, sm5);
            let limit = (pos + r.bytes.len()) as int;
            &&& written_good(d, r.st, sm5, limit)
            &&& begins(r.st.pool, st.pool)
            &&& type_stands(d, td, r.off, sm5, limit)
        }),
    decreases td, 1int,
{
    reveal(placed_type);
    let r = placed_type(pos, st, td, sm5);
    if td.elements == 0 && type_offset(st.types, td) is Some {
        lemma_type_offset(st.types, td);
        let i = choose|i: int|
            0 <= i < st.types.len() && (#[trigger] st.types[i]).0 == td && type_offset(
                st.types,
                td,
            ) == Some(st.types[i].1);
        assert(type_stands(d, st.types[i].0, st.types[i].1, sm5, pos as int));
        assert(st.pool.take(st.pool.len() as int) =~= st.pool);
    } else {
        lemma_new_type(d, pos, st, td, sm5);
        let p = type_parts(pos, st, td, sm5);
        let limit = (pos + r.bytes.len()) as int;
        assert forall|i: int| 0 <= i < r.st.types.len() implies type_stands(
            d,
            (#[trigger] r.st.types[i]).0,
            r.st.types[i].1,
            sm5,
            limit,
        ) by {
            if i < p.st.types.len() {
                assert(r.st.types[i] == p.st.types[i]);
            }
        }
    }
}

} // verus!
