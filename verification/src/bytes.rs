//! Little-endian words in bytes.

use nostdio::{ReadLe, Seek, SeekFrom, SliceCursor};
use vstd::bytes::{
    lemma_auto_spec_u32_to_from_le_bytes, spec_u32_from_le_bytes, spec_u32_to_le_bytes,
    u32_from_le_bytes, u32_to_le_bytes,
};
use vstd::prelude::*;
use vstd::slice::slice_subrange;

verus! {

/// The word in the four bytes from position `p` on.
pub open spec fn word_at(d: Seq<u8>, p: int) -> u32 {
    spec_u32_from_le_bytes(d.subrange(p, p + 4))
}

/// The word at position `p`, where the bytes reach that far.
pub open spec fn read_at(d: Seq<u8>, p: int) -> Option<u32> {
    if 0 <= p && p + 4 <= d.len() {
        Some(word_at(d, p))
    } else {
        None
    }
}

/// The word at position `p`, nought where the bytes do not reach that far.
pub open spec fn word_or_zero(d: Seq<u8>, p: int) -> u32 {
    match read_at(d, p) {
        Some(v) => v,
        None => 0,
    }
}

/// Word number `i`, nought where the bytes do not reach that far.
pub open spec fn nth_word(d: Seq<u8>, i: int) -> u32 {
    word_or_zero(d, 4 * i)
}

/// The four bytes of a word.
pub open spec fn word_bytes(v: u32) -> Seq<u8> {
    spec_u32_to_le_bytes(v)
}

/// The bytes of the words.
pub open spec fn words_bytes(ws: Seq<u32>) -> Seq<u8>
    decreases ws.len(),
{
    if ws.len() == 0 {
        Seq::empty()
    } else {
        words_bytes(ws.drop_last()) + word_bytes(ws.last())
    }
}

/// A word takes four bytes.
pub proof fn lemma_word_bytes(v: u32)
    ensures
        word_bytes(v).len() == 4,
        spec_u32_from_le_bytes(word_bytes(v)) == v,
{
    lemma_auto_spec_u32_to_from_le_bytes();
    assert(spec_u32_to_le_bytes(v).len() == 4);
}

/// Words take four bytes each, and each is found in its place.
pub proof fn lemma_words_bytes(ws: Seq<u32>)
    ensures
        words_bytes(ws).len() == 4 * ws.len(),
        forall|i: int| 0 <= i < ws.len() ==> #[trigger] ws[i] == word_at(words_bytes(ws), 4 * i),
    decreases ws.len(),
{
    if ws.len() > 0 {
        let init = ws.drop_last();
        lemma_words_bytes(init);
        lemma_word_bytes(ws.last());
        let b = words_bytes(ws);
        assert forall|i: int| 0 <= i < ws.len() implies #[trigger] ws[i] == word_at(b, 4 * i) by {
            if i < init.len() {
                assert(init[i] == ws[i]);
                assert(b.subrange(4 * i, 4 * i + 4) =~= words_bytes(init).subrange(
                    4 * i,
                    4 * i + 4,
                ));
            } else {
                assert(b.subrange(4 * i, 4 * i + 4) =~= word_bytes(ws.last()));
            }
        }
    }
}

/// Append the bytes of a word.
pub fn push_u32(out: &mut Vec<u8>, v: u32)
    ensures
        final(out)@ == old(out)@ + word_bytes(v),
{
    let mut b = u32_to_le_bytes(v);
    out.append(&mut b);
}

/// The word at position `p`.
pub fn get_u32(d: &[u8], p: usize) -> (r: Option<u32>)
    ensures
        r == read_at(d@, p as int),
{
    if p <= d.len() && d.len() - p >= 4 {
        Some(u32_from_le_bytes(slice_subrange(d, p, p + 4)))
    } else {
        None
    }
}

// ---------------------------------------------------------------------------
// Reading through a cursor
// ---------------------------------------------------------------------------

/// The cursor of `nostdio` over borrowed bytes.
#[verifier::external_type_specification]
#[verifier::external_body]
pub struct ExSliceCursor<'a>(SliceCursor<'a>);

/// The bytes a cursor reads.
pub uninterp spec fn cursor_bytes(c: SliceCursor<'_>) -> Seq<u8>;

/// The position a cursor stands at.
pub uninterp spec fn cursor_pos(c: SliceCursor<'_>) -> nat;

/// `SliceCursor::new`: a cursor over `data`, at its start.
#[verifier::external_body]
pub(crate) fn cursor_new<'a>(data: &'a [u8]) -> (r: SliceCursor<'a>)
    ensures
        cursor_bytes(r) == data@,
        cursor_pos(r) == 0,
{
    SliceCursor::new(data)
}

/// `ReadLe::read_u32_le` on a cursor: the little-endian word at the position,
/// which moves behind it; or an error where fewer than four bytes are left, all
/// of which are passed over.
#[verifier::external_body]
pub(crate) fn cursor_read_u32(c: &mut SliceCursor<'_>) -> (r: Option<u32>)
    requires
        cursor_pos(*old(c)) <= cursor_bytes(*old(c)).len(),
    ensures
        cursor_bytes(*final(c)) == cursor_bytes(*old(c)),
        r == read_at(cursor_bytes(*old(c)), cursor_pos(*old(c)) as int),
        cursor_pos(*final(c)) == (if r is Some {
            cursor_pos(*old(c)) + 4
        } else {
            cursor_bytes(*old(c)).len()
        }),
{
    c.read_u32_le().ok()
}

/// `Seek::seek` to a position from the start of a cursor: an error, and the
/// cursor where it was, exactly where the position is behind the end.
#[verifier::external_body]
pub(crate) fn cursor_seek(c: &mut SliceCursor<'_>, pos: usize) -> (r: bool)
    ensures
        cursor_bytes(*final(c)) == cursor_bytes(*old(c)),
        r == (pos <= cursor_bytes(*old(c)).len()),
        cursor_pos(*final(c)) == (if r {
            pos as nat
        } else {
            cursor_pos(*old(c))
        }),
{
    c.seek(SeekFrom::Start(pos as u64)).is_ok()
}

} // verus!
