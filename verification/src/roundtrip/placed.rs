//! Types that are written twice.

use vstd::prelude::*;

use crate::bytes::lemma_word_bytes;
use crate::chunks::rdef::{MemberModel, TypeModel};
use crate::chunks::rdef_write::{
    Written, interned, member_records, padding, placed_members, placed_type, type_offset,
    type_parts, type_record,
};
use crate::roundtrip::rdef_types::{members_height, type_height};

verus! {

/// Whether every type written so far stands at a multiple of four.
pub open spec fn aligned(types: Seq<(TypeModel, u32)>) -> bool {
    forall|i: int| 0 <= i < types.len() ==> (#[trigger] types[i]).1 % 4 == 0
}

/// Whether the types were extended by types nested at most that deep.
pub open spec fn extended(
    types: Seq<(TypeModel, u32)>,
    first: Seq<(TypeModel, u32)>,
    height: nat,
) -> bool {
    &&& first.len() <= types.len()
    &&& types.take(first.len() as int) == first
    &&& forall|i: int|
        first.len() <= i < types.len() ==> type_height((#[trigger] types[i]).0) <= height
}

proof fn lemma_extended_on(
    a: Seq<(TypeModel, u32)>,
    b: Seq<(TypeModel, u32)>,
    c: Seq<(TypeModel, u32)>,
    m: nat,
    n: nat,
    h: nat,
)
    requires
        extended(b, a, m),
        extended(c, b, n),
        m <= h,
        n <= h,
    ensures
        extended(c, a, h),
{
    assert(c.take(a.len() as int) =~= c.take(b.len() as int).take(a.len() as int));
    assert forall|i: int| a.len() <= i < c.len() implies type_height((#[trigger] c[i]).0)
        <= h by {
        if i < b.len() {
            assert(c.take(b.len() as int)[i] == c[i]);
            assert(type_height(b[i].0) <= m);
        }
    }
}

/// The filling up reaches a multiple of four.
proof fn lemma_padding(pos: nat)
    ensures
        (pos + padding(pos).len()) % 4 == 0,
{
}

/// The members of a type, placed, extend the types by those of their own.
proof fn lemma_members(pos: nat, st: Written, ms: Seq<MemberModel>, sm5: bool, n: int)
    requires
        0 <= n <= ms.len(),
        aligned(st.types),
        pos + placed_members(pos, st, ms, sm5, n).bytes.len() <= 0xffff_ffff,
    ensures
        aligned(placed_members(pos, st, ms, sm5, n).st.types),
        extended(placed_members(pos, st, ms, sm5, n).st.types, st.types, members_height(ms, n)),
    decreases ms, n,
{
    reveal(placed_type);
    if n > 0 {
        let m = ms[n - 1];
        let p = placed_members(pos, st, ms, sm5, n - 1);
        let i = interned(pos + p.bytes.len(), p.st.pool, m.name);
        let mid = Written { pool: i.pool, types: p.st.types };
        let at = pos + p.bytes.len() + i.bytes.len();
        lemma_members(pos, st, ms, sm5, n - 1);
        lemma_type(at, mid, m.member_type, sm5);
        lemma_extended_on(
            st.types,
            p.st.types,
            placed_type(at, mid, m.member_type, sm5).st.types,
            members_height(ms, n - 1),
            type_height(m.member_type),
            members_height(ms, n),
        );
    } else {
        assert(st.types.take(st.types.len() as int) =~= st.types);
    }
}

/// What a type refers to, placed.
proof fn lemma_parts(pos: nat, st: Written, td: TypeModel, sm5: bool)
    requires
        aligned(st.types),
        pos + type_parts(pos, st, td, sm5).bytes.len() <= 0xffff_ffff,
    ensures
        aligned(type_parts(pos, st, td, sm5).st.types),
        extended(
            type_parts(pos, st, td, sm5).st.types,
            st.types,
            members_height(td.members, td.members.len() as int),
        ),
        (pos + type_parts(pos, st, td, sm5).bytes.len()) % 4 == 0,
    decreases td, 0int,
{
    let ib = if td.name.len() == 0 {
        Seq::<u8>::empty()
    } else {
        interned(pos, st.pool, td.name).bytes
    };
    let ip = if td.name.len() == 0 {
        st.pool
    } else {
        interned(pos, st.pool, td.name).pool
    };
    let n = td.members.len() as int;
    if n == 0 {
        lemma_padding(pos + ib.len());
        assert(st.types.take(st.types.len() as int) =~= st.types);
    } else {
        let mid = Written { pool: ip, types: st.types };
        let m = placed_members(pos + ib.len(), mid, td.members, sm5, n);
        let before = ib + m.bytes;
        let gap = padding(pos + before.len());
        let all = before + gap + member_records(td.members, m.st.pool, m.offs, n);
        lemma_padding(pos + all.len());
        lemma_members(pos + ib.len(), mid, td.members, sm5, n);
    }
}

/// A type, placed, extends the types by itself and those of its members.
proof fn lemma_type(pos: nat, st: Written, td: TypeModel, sm5: bool)
    requires
        aligned(st.types),
        pos + placed_type(pos, st, td, sm5).bytes.len() <= 0xffff_ffff,
    ensures
        aligned(placed_type(pos, st, td, sm5).st.types),
        extended(placed_type(pos, st, td, sm5).st.types, st.types, type_height(td)),
        placed_type(pos, st, td, sm5).off % 4 == 0,
    decreases td, 1int,
{
    reveal(placed_type);
    let r = placed_type(pos, st, td, sm5);
    if td.elements == 0 && type_offset(st.types, td) is Some {
        lemma_offset_index(st.types, td);
        let i = choose|i: int|
            0 <= i < st.types.len() && type_offset(st.types, td) == Some((#[trigger] st.types[i]).1);
        assert(st.types[i].1 % 4 == 0);
        assert(st.types.take(st.types.len() as int) =~= st.types);
    } else {
        let p = type_parts(pos, st, td, sm5);
        lemma_parts(pos, st, td, sm5);
        let h = members_height(td.members, td.members.len() as int);
        let added = p.st.types.push((td, r.off));
        assert(extended(added, p.st.types, type_height(td))) by {
            assert(added.take(p.st.types.len() as int) =~= p.st.types);
        }
        lemma_extended_on(st.types, p.st.types, added, h, type_height(td), type_height(td));
        assert forall|i: int| 0 <= i < added.len() implies (#[trigger] added[i]).1 % 4 == 0 by {
            if i < p.st.types.len() {
                assert(added[i] == p.st.types[i]);
            }
        }
    }
}

proof fn lemma_offset_index(types: Seq<(TypeModel, u32)>, t: TypeModel)
    requires
        type_offset(types, t) is Some,
    ensures
        exists|i: int|
            0 <= i < types.len() && type_offset(types, t) == Some((#[trigger] types[i]).1),
    decreases types.len(),
{
    if types[0].0 == t {
        assert(type_offset(types, t) == Some(types[0].1));
    } else {
        let u = types.skip(1);
        lemma_offset_index(u, t);
        let i = choose|i: int| 0 <= i < u.len() && type_offset(u, t) == Some((#[trigger] u[i]).1);
        assert(types[i + 1] == u[i]);
    }
}

/// A type that was found nowhere is not found among flatter types behind either,
/// and is found where it is added.
proof fn lemma_found(
    types: Seq<(TypeModel, u32)>,
    first: Seq<(TypeModel, u32)>,
    h: nat,
    t: TypeModel,
    off: u32,
)
    requires
        extended(types, first, h),
        h < type_height(t),
        type_offset(first, t) is None,
    ensures
        type_offset(types.push((t, off)), t) == Some(off),
    decreases types.len(),
{
    let all = types.push((t, off));
    if types.len() > 0 {
        let rest = types.skip(1);
        assert(all.skip(1) =~= rest.push((t, off)));
        if first.len() > 0 {
            assert(types.take(first.len() as int)[0] == types[0]);
            let f = first.skip(1);
            assert(rest.take(f.len() as int) =~= types.take(first.len() as int).skip(1));
            assert(extended(rest, f, h)) by {
                assert forall|i: int| f.len() <= i < rest.len() implies type_height(
                    (#[trigger] rest[i]).0,
                ) <= h by {
                    assert(rest[i] == types[i + 1]);
                }
            }
            lemma_found(rest, f, h, t, off);
        } else {
            assert(type_height(types[0].0) <= h);
            assert(extended(rest, first, h)) by {
                assert(rest.take(0) =~= first);
                assert forall|i: int| 0 <= i < rest.len() implies type_height(
                    (#[trigger] rest[i]).0,
                ) <= h by {
                    assert(rest[i] == types[i + 1]);
                }
            }
            lemma_found(rest, first, h, t, off);
        }
        assert(all[0] == types[0]);
    } else {
        assert(all[0] == (t, off));
    }
}

/// A type has a record.
proof fn lemma_record(td: TypeModel, name_off: u32, member_off: u32, sm5: bool)
    ensures
        type_record(td, name_off, member_off, sm5).len() >= 4,
{
    lemma_word_bytes((td.class as u32) | ((td.var_type as u32) << 16));
}

/// A type that is no array, placed a second time, is found where it was placed
/// first, and nothing is written; an array is written anew, further on. Either way
/// it stands at a multiple of four.
pub proof fn type_placed_twice(pos: nat, st: Written, td: TypeModel, sm5: bool)
    requires
        aligned(st.types),
        ({
            let a = placed_type(pos, st, td, sm5);
            let b = placed_type(pos + a.bytes.len(), a.st, td, sm5);
            pos + a.bytes.len() + b.bytes.len() <= 0xffff_ffff
        }),
    ensures
        ({
            let a = placed_type(pos, st, td, sm5);
            let b = placed_type(pos + a.bytes.len(), a.st, td, sm5);
            &&& td.elements == 0 ==> b.off == a.off && b.bytes.len() == 0 && b.st == a.st
            &&& td.elements > 0 ==> b.off > a.off
            &&& a.off % 4 == 0
            &&& b.off % 4 == 0
            &&& aligned(a.st.types)
            &&& aligned(b.st.types)
        }),
{
    let a = placed_type(pos, st, td, sm5);
    let at = pos + a.bytes.len();
    lemma_type(pos, st, td, sm5);
    lemma_type(at, a.st, td, sm5);
    reveal(placed_type);
    if td.elements == 0 {
        if type_offset(st.types, td) is None {
            let p = type_parts(pos, st, td, sm5);
            lemma_parts(pos, st, td, sm5);
            lemma_found(
                p.st.types,
                st.types,
                members_height(td.members, td.members.len() as int),
                td,
                a.off,
            );
        }
    } else {
        let p = type_parts(pos, st, td, sm5);
        lemma_record(td, p.name_off, p.member_off, sm5);
    }
}

} // verus!
