//! Lines of statistics stand in any order.

use vstd::prelude::*;

use crate::chunks::stat as spaced;
use crate::chunks::stat::{
    ShaderStats, counter_index, counter_line, counters, counters_text, no_stats, with_counter,
};
use crate::grammar::stat::{
    reserved_line, sample_line, size_line, stat_line, stat_lines, stat_text,
};
use crate::lines::{lemma_empty_line, split_once, text_lines, trim, words};
use crate::roundtrip::stats::{
    lemma_counter, lemma_first_line, lemma_reserved, lemma_same_stats, lemma_sample, lemma_size,
    lemma_spaced_counter, lemma_spaced_line, lemma_spaced_reserved, lemma_spaced_sample,
    lemma_spaced_size, lemma_with_counter, spaced_reserved, spaced_sample, spaced_size,
};

verus! {

/// Line number `j` of statistics written as `key=value`: first the counters, then
/// size, sample frequency and reserved words.
pub open spec fn key_line(s: ShaderStats, j: int) -> Seq<char> {
    if j < 33 {
        counter_line(s, '=', j)
    } else if j == 33 {
        size_line(s)
    } else if j == 34 {
        sample_line(s)
    } else {
        reserved_line(s)
    }
}

/// Line number `j` of statistics written as a name and a value.
pub open spec fn name_line(s: ShaderStats, j: int) -> Seq<char> {
    if j < 33 {
        counter_line(s, ' ', j)
    } else if j == 33 {
        spaced_size(s)
    } else if j == 34 {
        spaced_sample(s)
    } else {
        spaced_reserved(s)
    }
}

/// The lines with the numbers from number `k` of the list on, in the order of the
/// list.
pub open spec fn ordered_text(s: ShaderStats, js: Seq<int>, k: int, keyed: bool) -> Seq<char>
    decreases js.len() - k,
{
    if k < 0 || k >= js.len() {
        Seq::empty()
    } else {
        (if keyed {
            key_line(s, js[k])
        } else {
            name_line(s, js[k])
        }).push('\n') + ordered_text(s, js, k + 1, keyed)
    }
}

/// The statistics `t` with field number `j` as in `s`.
pub open spec fn with_field(t: ShaderStats, s: ShaderStats, j: int) -> ShaderStats {
    if j < 33 {
        with_counter(t, j, counters(s)[j])
    } else if j == 33 {
        ShaderStats { raw_size: s.raw_size, ..t }
    } else if j == 34 {
        ShaderStats { is_sample_frequency: s.is_sample_frequency, ..t }
    } else {
        ShaderStats { reserved: s.reserved, ..t }
    }
}

/// Whether every number is that of a line.
pub open spec fn are_lines(js: Seq<int>) -> bool {
    forall|i: int| 0 <= i < js.len() ==> 0 <= #[trigger] js[i] < 36
}

/// Whether number `j` is among the first `n`.
pub open spec fn is_among(js: Seq<int>, n: int, j: int) -> bool {
    exists|i: int| 0 <= i < n && #[trigger] js[i] == j
}

/// Whether `t` has of `s` the fields whose numbers are among the first `n`, and
/// nought elsewhere.
pub open spec fn has_fields(t: ShaderStats, s: ShaderStats, js: Seq<int>, n: int) -> bool {
    &&& forall|j: int|
        0 <= j < 33 ==> #[trigger] counters(t)[j] == if is_among(js, n, j) {
            counters(s)[j]
        } else {
            0
        }
    &&& t.raw_size == if is_among(js, n, 33) {
        s.raw_size
    } else {
        0
    }
    &&& t.is_sample_frequency == (is_among(js, n, 34) && s.is_sample_frequency)
    &&& t.reserved == if is_among(js, n, 35) {
        s.reserved
    } else {
        [0u32, 0u32, 0u32, 0u32]
    }
}

proof fn lemma_among(js: Seq<int>, n: int, j: int)
    requires
        0 <= n < js.len(),
    ensures
        is_among(js, n + 1, j) == (is_among(js, n, j) || js[n] == j),
{
    if is_among(js, n + 1, j) {
        let i = choose|i: int| 0 <= i < n + 1 && #[trigger] js[i] == j;
        if i < n {
            assert(is_among(js, n, j));
        }
    }
    if is_among(js, n, j) {
        let i = choose|i: int| 0 <= i < n && #[trigger] js[i] == j;
        assert(0 <= i < n + 1 && js[i] == j);
    }
    if js[n] == j {
        assert(0 <= n < n + 1 && js[n] == j);
    }
}

proof fn lemma_field(t: ShaderStats, s: ShaderStats, js: Seq<int>, n: int)
    requires
        are_lines(js),
        0 <= n < js.len(),
        has_fields(t, s, js, n),
    ensures
        has_fields(with_field(t, s, js[n]), s, js, n + 1),
{
    let j = js[n];
    let u = with_field(t, s, j);
    lemma_among(js, n, 33);
    lemma_among(js, n, 34);
    lemma_among(js, n, 35);
    if j < 33 {
        lemma_with_counter(t, j, counters(s)[j]);
    } else {
        assert(counters(u) =~= counters(t));
    }
    assert forall|k: int| 0 <= k < 33 implies #[trigger] counters(u)[k] == if is_among(
        js,
        n + 1,
        k,
    ) {
        counters(s)[k]
    } else {
        0
    } by {
        lemma_among(js, n, k);
        assert(counters(t)[k] == if is_among(js, n, k) {
            counters(s)[k]
        } else {
            0
        });
    }
}

proof fn lemma_no_fields(s: ShaderStats, js: Seq<int>)
    ensures
        has_fields(no_stats(), s, js, 0),
{
    let t = no_stats();
    assert forall|j: int| 0 <= j < 33 implies #[trigger] counters(t)[j] == 0 by {}
}

proof fn lemma_all_fields(t: ShaderStats, s: ShaderStats, js: Seq<int>)
    requires
        has_fields(t, s, js, js.len() as int),
        forall|j: int| 0 <= j < 36 ==> #[trigger] js.contains(j),
    ensures
        t == s,
{
    let n = js.len() as int;
    assert forall|j: int| 0 <= j < 36 implies is_among(js, n, j) by {
        assert(js.contains(j));
        let i = choose|i: int| 0 <= i < js.len() && js[i] == j;
        assert(0 <= i < n && js[i] == j);
    }
    assert(counters(t) =~= counters(s));
    lemma_same_stats(t, s);
}

proof fn lemma_ordered(t: ShaderStats, s: ShaderStats, js: Seq<int>, k: int) -> (u: ShaderStats)
    requires
        are_lines(js),
        0 <= k <= js.len(),
        has_fields(t, s, js, k),
    ensures
        stat_lines(t, text_lines(ordered_text(s, js, k, true), false), 0) == Some(u),
        has_fields(u, s, js, js.len() as int),
    decreases js.len() - k,
{
    if k == js.len() {
        lemma_empty_line(false);
        t
    } else {
        let j = js[k];
        let t2 = with_field(t, s, j);
        if j < 33 {
            lemma_counter(s, t, j);
        } else if j == 33 {
            lemma_size(s, t);
        } else if j == 34 {
            lemma_sample(s, t);
        } else {
            lemma_reserved(s, t);
        }
        lemma_first_line(t, t2, key_line(s, j), ordered_text(s, js, k + 1, true));
        lemma_field(t, s, js, k);
        lemma_ordered(t2, s, js, k + 1)
    }
}

proof fn lemma_spaced_ordered(t: ShaderStats, s: ShaderStats, js: Seq<int>, k: int) -> (u:
    ShaderStats)
    requires
        are_lines(js),
        0 <= k <= js.len(),
        has_fields(t, s, js, k),
    ensures
        spaced::stat_lines(t, text_lines(ordered_text(s, js, k, false), false), 0) == Some(u),
        has_fields(u, s, js, js.len() as int),
    decreases js.len() - k,
{
    if k == js.len() {
        lemma_empty_line(false);
        t
    } else {
        let j = js[k];
        let t2 = with_field(t, s, j);
        if j < 33 {
            lemma_spaced_counter(s, t, j);
        } else if j == 33 {
            lemma_spaced_size(s, t);
        } else if j == 34 {
            lemma_spaced_sample(s, t);
        } else {
            lemma_spaced_reserved(s, t);
        }
        lemma_spaced_line(t, t2, name_line(s, j), ordered_text(s, js, k + 1, false));
        lemma_field(t, s, js, k);
        lemma_spaced_ordered(t2, s, js, k + 1)
    }
}

/// The lines of statistics may stand in any order, and any of them may be missing:
/// what is read has the fields whose lines are there, and nought elsewhere. Where
/// all lines are there, it is the statistics that were written.
pub proof fn stat_lines_stand_in_any_order(s: ShaderStats, js: Seq<int>)
    requires
        are_lines(js),
    ensures
        ({
            let r = stat_lines(no_stats(), text_lines(ordered_text(s, js, 0, true), false), 0);
            &&& r is Some
            &&& has_fields(r->0, s, js, js.len() as int)
            &&& (forall|j: int| 0 <= j < 36 ==> #[trigger] js.contains(j)) ==> r->0 == s
        }),
{
    lemma_no_fields(s, js);
    let u = lemma_ordered(no_stats(), s, js, 0);
    if forall|j: int| 0 <= j < 36 ==> #[trigger] js.contains(j) {
        lemma_all_fields(u, s, js);
    }
}

/// The same holds of lines of a name and a value.
pub proof fn spaced_stat_lines_stand_in_any_order(s: ShaderStats, js: Seq<int>)
    requires
        are_lines(js),
    ensures
        ({
            let r = spaced::stat_lines(
                no_stats(),
                text_lines(ordered_text(s, js, 0, false), false),
                0,
            );
            &&& r is Some
            &&& has_fields(r->0, s, js, js.len() as int)
            &&& (forall|j: int| 0 <= j < 36 ==> #[trigger] js.contains(j)) ==> r->0 == s
        }),
{
    lemma_no_fields(s, js);
    let u = lemma_spaced_ordered(no_stats(), s, js, 0);
    if forall|j: int| 0 <= j < 36 ==> #[trigger] js.contains(j) {
        lemma_all_fields(u, s, js);
    }
}

/// The numbers of the lines in the order in which they are written.
pub open spec fn written_order() -> Seq<int> {
    Seq::new(
        36,
        |i: int|
            if i < 3 {
                33 + i
            } else {
                i - 3
            },
    )
}

proof fn lemma_written_counters(s: ShaderStats, k: int)
    requires
        0 <= k <= 33,
    ensures
        ordered_text(s, written_order(), 3 + k, true) == counters_text(s, '=', k),
        ordered_text(s, written_order(), 3 + k, false) == counters_text(s, ' ', k),
    decreases 33 - k,
{
    if k < 33 {
        lemma_written_counters(s, k + 1);
        assert(written_order()[3 + k] == k);
    }
}

/// The texts of statistics are their lines in one of those orders.
pub proof fn written_stat_lines(s: ShaderStats)
    ensures
        stat_text(s) == ordered_text(s, written_order(), 0, true),
        spaced::stat_text(s) == ordered_text(s, written_order(), 0, false),
        forall|j: int| 0 <= j < 36 ==> #[trigger] written_order().contains(j),
{
    let w = written_order();
    reveal_with_fuel(ordered_text, 4);
    lemma_written_counters(s, 0);
    assert(w[0] == 33 && w[1] == 34 && w[2] == 35);
    assert forall|j: int| 0 <= j < 36 implies #[trigger] w.contains(j) by {
        let i = if j < 33 {
            j + 3
        } else {
            j - 33
        };
        assert(w[i] == j);
    }
}

/// Whether the key is one that statistics have.
pub open spec fn is_stat_key(key: Seq<char>) -> bool {
    key == "size"@ || key == "sample_frequency"@ || key == "reserved"@ || counter_index(key, 0)
        is Some
}

/// A line whose key statistics do not have makes the whole text unreadable,
/// wherever it stands.
pub proof fn unknown_stat_key_is_refused(t: ShaderStats, ls: Seq<Seq<char>>, k: int, i: int)
    requires
        0 <= k <= i < ls.len(),
        match split_once(ls[i], '=') {
            Some((key, _)) => !is_stat_key(trim(key)),
            None => true,
        },
    ensures
        stat_lines(t, ls, k) is None,
    decreases ls.len() - k,
{
    match stat_line(t, ls[k]) {
        Some(t2) => {
            assert(k < i);
            unknown_stat_key_is_refused(t2, ls, k + 1, i);
        },
        None => {},
    }
}

/// The same holds of lines of a name and a value.
pub proof fn unknown_spaced_stat_key_is_refused(
    t: ShaderStats,
    ls: Seq<Seq<char>>,
    k: int,
    i: int,
)
    requires
        0 <= k <= i < ls.len(),
        words(ls[i]).len() == 0 || !is_stat_key(words(ls[i])[0]),
    ensures
        spaced::stat_lines(t, ls, k) is None,
    decreases ls.len() - k,
{
    match spaced::stat_line(t, words(ls[k])) {
        Some(t2) => {
            assert(k < i);
            unknown_spaced_stat_key_is_refused(t2, ls, k + 1, i);
        },
        None => {},
    }
}

} // verus!
