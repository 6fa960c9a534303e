//! What chunks say that are cut short.

use vstd::prelude::*;
use vstd::utf8::{decode_utf8, valid_utf8};

use crate::bytes::word_at;
use crate::chunks::rdef_parse::{
    cstring_at, cstring_len, default_at, records_held, type_at, type_name_at,
};
use crate::container::ChunkModel;
use crate::shader::{Role, chunks_resources, chunks_stats, first_chunk};

verus! {

/// Of the records that are counted, as many are read as the bytes hold.
pub proof fn held_records_are_read(d: Seq<u8>, at: int, stride: int, count: int)
    requires
        0 <= count,
    ensures
        ({
            let r = records_held(d, at, stride, count);
            &&& 0 <= r <= count
            &&& r > 0 ==> at + r * stride <= d.len()
            &&& r < count && stride > 0 ==> at + (r + 1) * stride > d.len()
        }),
    decreases count,
{
    if count > 0 && at + count * stride > d.len() {
        held_records_are_read(d, at, stride, count - 1);
    }
}

/// A name ends before the first nought, or where the bytes end; one that begins behind
/// them, or that is no text, is empty.
pub proof fn names_end_at_noughts(d: Seq<u8>, p: int, n: int)
    requires
        0 <= p,
        0 <= n,
        p + n <= d.len(),
        p + n == d.len() || d[p + n] == 0,
        forall|i: int| p <= i < p + n ==> #[trigger] d[i] != 0,
    ensures
        ({
            let b = d.subrange(p, p + n);
            &&& p < d.len() && valid_utf8(b) ==> cstring_at(d, p) == decode_utf8(b)
            &&& p < d.len() && !valid_utf8(b) ==> cstring_at(d, p).len() == 0
            &&& p == d.len() ==> cstring_at(d, p).len() == 0
        }),
{
    lemma_cstring_len(d, p, n);
}

proof fn lemma_cstring_len(d: Seq<u8>, p: int, n: int)
    requires
        0 <= p,
        0 <= n,
        p + n <= d.len(),
        p + n == d.len() || d[p + n] == 0,
        forall|i: int| p <= i < p + n ==> #[trigger] d[i] != 0,
    ensures
        cstring_len(d, p) == n,
    decreases n,
{
    if n > 0 {
        assert(d[p] != 0);
        lemma_cstring_len(d, p + 1, n - 1);
    }
}

/// A type that the bytes do not hold is empty, and members that they do not hold whole
/// are left out.
pub proof fn cut_types_are_empty(d: Seq<u8>, off: int, sm5: bool, depth: nat)
    ensures
        off + 16 > d.len() ==> ({
            let t = type_at(d, off, sm5, depth);
            &&& t.class == 0
            &&& t.var_type == 0
            &&& t.rows == 0
            &&& t.columns == 0
            &&& t.elements == 0
            &&& t.members.len() == 0
            &&& t.sm5_extra is None
            &&& t.name.len() == 0
        }),
        depth > 0 && off + 16 <= d.len() ==> ({
            let t = type_at(d, off, sm5, depth);
            let count = (word_at(d, off + 8) >> 16) as u16;
            &&& t.members.len() == count || t.members.len() == 0
            &&& word_at(d, off + 12) + 12 * count > d.len() ==> t.members.len() == 0
            &&& word_at(d, off + 12) + 12 * count <= d.len() ==> t.members.len() == count
            &&& t.sm5_extra is Some == sm5
            &&& !sm5 ==> t.name.len() == 0
        }),
        off + 36 > d.len() ==> type_name_at(d, off).len() == 0,
{
}

/// A default value is as long as its variable; there is none at position nought, none
/// of a variable without a size, and none that the bytes do not hold whole.
pub proof fn cut_defaults_are_empty(d: Seq<u8>, p: u32, size: u32)
    ensures
        p == 0 || size == 0 || p + size > d.len() ==> default_at(d, p, size).len() == 0,
        p != 0 && size > 0 && p + size <= d.len() ==> default_at(d, p, size) == d.subrange(
            p as int,
            p + size,
        ),
{
}

/// Statistics are read from 116 bytes on, and resource definitions from 28; shorter
/// chunks say nothing, even where a longer one follows.
pub proof fn short_chunks_say_nothing(cs: Seq<ChunkModel>)
    ensures
        match first_chunk(cs, Role::Statistics, 0) {
            Some(c) => chunks_stats(cs) is Some == (c.data.len() >= 116),
            None => chunks_stats(cs) is None,
        },
        match first_chunk(cs, Role::Resources, 0) {
            Some(c) => chunks_resources(cs) is Some == (c.data.len() >= 28),
            None => chunks_resources(cs) is None,
        },
{
}

} // verus!
