//! Lines of words read back.

use vstd::prelude::*;

use crate::lines::{
    is_clean, lemma_split_once_concat, next_word, split_once, trim_start, words,
};
use crate::roundtrip::documents::lemma_first_word;
use crate::roundtrip::programs::lemma_not_contains;
use crate::text::{is_white, lacks};

verus! {

/// Whether a text is one word: not empty, and without white space.
pub open spec fn solid(s: Seq<char>) -> bool {
    s.len() > 0 && forall|i: int| 0 <= i < s.len() ==> !is_white(#[trigger] s[i])
}

/// Whether all texts are words.
pub open spec fn all_solid(ts: Seq<Seq<char>>) -> bool {
    forall|i: int| 0 <= i < ts.len() ==> solid(#[trigger] ts[i])
}

/// The first `n` words, separated by spaces.
pub open spec fn spaced(ts: Seq<Seq<char>>, n: int) -> Seq<char>
    decreases n,
{
    if n <= 0 {
        Seq::empty()
    } else if n == 1 {
        ts[0]
    } else {
        spaced(ts, n - 1) + (seq![' '] + ts[n - 1])
    }
}

/// Words before a word.
proof fn lemma_words_last(s: Seq<char>, w: Seq<char>)
    requires
        solid(w),
        s.len() > 0,
        !is_white(s[0]),
    ensures
        words(s + (seq![' '] + w)) == words(s).push(w),
    decreases s.len(),
{
    let tail = seq![' '] + w;
    let t = s + tail;
    let n = crate::lines::span_solid(s) as int;
    lemma_span(s);
    let first = s.take(n);
    let rest = s.skip(n);
    assert(s =~= first + rest);
    assert(t =~= first + (rest + tail));
    lemma_first_word(first, rest);
    assert(words(s) == seq![first] + words(rest));
    if rest.len() == 0 {
        assert(rest + tail =~= tail);
        lemma_first_word(first, tail);
        lemma_words_one_behind(w);
        assert(rest =~= Seq::empty());
        assert(words(rest) =~= Seq::empty()) by {
            assert(next_word(rest) is None);
        }
        assert(words(t) =~= words(s).push(w));
    } else {
        assert((rest + tail)[0] == rest[0]);
        lemma_first_word(first, rest + tail);
        lemma_words_after_white(rest, tail, w);
        assert(words(t) =~= words(s).push(w));
    }
}

proof fn lemma_span(s: Seq<char>)
    ensures
        crate::lines::span_solid(s) <= s.len(),
        forall|i: int| 0 <= i < crate::lines::span_solid(s) ==> !is_white(#[trigger] s[i]),
        crate::lines::span_solid(s) < s.len() ==> is_white(
            s[crate::lines::span_solid(s) as int],
        ),
        s.len() > 0 && !is_white(s[0]) ==> crate::lines::span_solid(s) > 0,
    decreases s.len(),
{
    if s.len() > 0 && !is_white(s[0]) {
        lemma_span(s.skip(1));
        let n = crate::lines::span_solid(s);
        assert forall|i: int| 0 <= i < n implies !is_white(#[trigger] s[i]) by {
            if i > 0 {
                assert(s[i] == s.skip(1)[i - 1]);
            }
        }
    }
}

/// A word alone, and behind a space.
pub proof fn lemma_words_one_behind(w: Seq<char>)
    requires
        solid(w),
    ensures
        words(w) == seq![w],
        words(seq![' '] + w) == seq![w],
{
    let e = Seq::<char>::empty();
    assert(w + e =~= w);
    lemma_first_word(w, e);
    assert(next_word(e) is None);
    assert(words(e) =~= Seq::empty());
    assert(seq![w] + words(e) =~= seq![w]);
    lemma_leading_space(w);
}

/// A space in front changes no words.
proof fn lemma_leading_space(s: Seq<char>)
    ensures
        words(seq![' '] + s) == words(s),
{
    let t = seq![' '] + s;
    assert(t.skip(1) =~= s);
    reveal_with_fuel(trim_start, 2);
    assert(trim_start(t) == trim_start(s));
    assert(next_word(t) == next_word(s));
}

proof fn lemma_words_after_white(rest: Seq<char>, tail: Seq<char>, w: Seq<char>)
    requires
        solid(w),
        tail == seq![' '] + w,
        rest.len() > 0,
        is_white(rest[0]),
    ensures
        words(rest + tail) == words(rest).push(w),
    decreases rest.len(),
{
    let r = rest.skip(1);
    let t = rest + tail;
    assert(t.skip(1) =~= r + tail);
    assert(t[0] == rest[0]);
    assert(trim_start(t) == trim_start(r + tail));
    assert(trim_start(rest) == trim_start(r));
    assert(next_word(t) == next_word(r + tail));
    assert(next_word(rest) == next_word(r));
    assert(words(t) == words(r + tail));
    assert(words(rest) == words(r));
    if r.len() == 0 {
        assert(r + tail =~= tail);
        lemma_words_one_behind(w);
        assert(next_word(r) is None);
        assert(words(r) =~= Seq::empty());
        assert(words(t) =~= words(rest).push(w));
    } else if is_white(r[0]) {
        lemma_words_after_white(r, tail, w);
    } else {
        lemma_words_last(r, w);
    }
}

/// The words of words separated by spaces are those words.
pub proof fn lemma_words_spaced(ts: Seq<Seq<char>>, n: int)
    requires
        0 < n <= ts.len(),
        all_solid(ts),
    ensures
        words(spaced(ts, n)) == ts.take(n),
        is_clean(spaced(ts, n), false),
    decreases n,
{
    assert(solid(ts[n - 1]));
    assert(solid(ts[0]));
    let s = spaced(ts, n);
    if n == 1 {
        lemma_words_one_behind(ts[0]);
        assert(ts.take(1) =~= seq![ts[0]]);
        lemma_solid_clean(ts[0]);
    } else {
        lemma_words_spaced(ts, n - 1);
        let init = spaced(ts, n - 1);
        lemma_words_last(init, ts[n - 1]);
        assert(ts.take(n) =~= ts.take(n - 1).push(ts[n - 1]));
        let w = ts[n - 1];
        assert(s[0] == init[0]);
        assert(s.last() == w.last());
        assert(!is_white(w[w.len() - 1]));
        if s.contains('\n') {
            let i = choose|i: int| 0 <= i < s.len() && s[i] == '\n';
            if i < init.len() {
                assert(init[i] == '\n');
                assert(init.contains('\n'));
            } else if i > init.len() {
                assert(!is_white(w[i - init.len() - 1]));
            }
        }
    }
}

/// A word is a clean line.
pub proof fn lemma_solid_clean(w: Seq<char>)
    requires
        solid(w),
    ensures
        is_clean(w, false),
{
    assert(!is_white(w[0]) && !is_white(w[w.len() - 1]));
    if w.contains('\n') {
        let i = choose|i: int| 0 <= i < w.len() && w[i] == '\n';
        assert(!is_white(w[i]));
    }
}

/// A key, an equals sign and a value.
pub open spec fn tagged(key: Seq<char>, val: Seq<char>) -> Seq<char> {
    key + seq!['='] + val
}

/// A tagged word gives its value for its key and nothing for another.
pub proof fn lemma_tagged(key: Seq<char>, val: Seq<char>)
    requires
        lacks(key, '='),
    ensures
        split_once(tagged(key, val), '=') == Some((key, val)),
{
    lemma_not_contains(key, '=');
    lemma_split_once_concat(key, '=', val);
}

} // verus!
