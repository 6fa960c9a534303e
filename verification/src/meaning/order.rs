//! The order of buffers.

use vstd::prelude::*;

use crate::chunks::rdef::CBufferModel;
use crate::grammar::rdef::decode::{at_position, in_order, ordered, position};

verus! {

/// Whether `name` is first found at place `p` of the names.
pub open spec fn found_at(names: Seq<Seq<char>>, name: Seq<char>, p: int) -> bool {
    &&& 0 <= p < names.len()
    &&& names[p] == name
    &&& forall|j: int| 0 <= j < p ==> #[trigger] names[j] != name
}

/// The place of a name, or the number of names where it is not among them.
pub open spec fn rank(names: Seq<Seq<char>>, name: Seq<char>) -> int {
    if names.contains(name) {
        choose|p: int| #[trigger] found_at(names, name, p)
    } else {
        names.len() as int
    }
}

proof fn lemma_position(names: Seq<Seq<char>>, name: Seq<char>, k: int)
    requires
        0 <= k <= names.len(),
        forall|j: int| 0 <= j < k ==> #[trigger] names[j] != name,
    ensures
        match position(names, name, k) {
            Some(p) => found_at(names, name, p) && rank(names, name) == p && k <= p,
            None => !names.contains(name) && rank(names, name) == names.len(),
        },
    decreases names.len() - k,
{
    if k < names.len() {
        if names[k] == name {
            assert(found_at(names, name, k));
            assert(names.contains(name));
            let p = rank(names, name);
            assert(found_at(names, name, p));
            if p < k {
                assert(names[p] != name);
            } else if k < p {
                assert(names[k] != name);
            }
        } else {
            lemma_position(names, name, k + 1);
        }
    }
}

/// Buffers stand in the order of the names, those that are not named behind them, and
/// none is lost or made up; without names they stay as they are.
pub proof fn buffers_follow_their_names(
    cs: Seq<CBufferModel>,
    names: Seq<Seq<char>>,
    i: int,
    j: int,
)
    ensures
        ordered(cs, None) == cs,
        ({
            let r = ordered(cs, Some(names));
            &&& r.len() == cs.len()
            &&& 0 <= i < j < r.len() ==> rank(names, r[i].name) <= rank(names, r[j].name)
            &&& 0 <= i < r.len() ==> cs.contains(r[i])
            &&& 0 <= i < cs.len() ==> r.contains(cs[i])
        }),
{
    let n = names.len() as int;
    let c = cs.len() as int;
    let a = in_order(cs, names, n);
    let b = at_position(cs, names, None, c);
    let r = ordered(cs, Some(names));
    lemma_in_order(cs, names, n, i, j);
    lemma_at(cs, names, None, c);
    lemma_counts(cs, names, c);
    lemma_lengths(cs, names, n);
    if 0 <= i < r.len() {
        if i < a.len() {
            assert(r[i] == a[i]);
        } else {
            assert(r[i] == b[i - a.len()]);
        }
    }
    if 0 <= i < j < r.len() {
        if j < a.len() {
            assert(r[j] == a[j]);
        } else {
            assert(r[j] == b[j - a.len()]);
            if i < a.len() {
                lemma_in_order(cs, names, n, i, i);
            }
        }
    }
    if 0 <= i < c {
        lemma_position(names, cs[i].name, 0);
        match position(names, cs[i].name, 0) {
            Some(p) => {
                lemma_holds(cs, names, Some(p), c, i);
                lemma_part(cs, names, n, p);
                let q = at_position(cs, names, Some(p), c);
                let m = choose|m: int| 0 <= m < q.len() && q[m] == cs[i];
                let s = in_order(cs, names, p).len();
                assert(a[s + m] == q[m]);
                assert(r[s + m] == cs[i]);
            },
            None => {
                lemma_holds(cs, names, None, c, i);
                let m = choose|m: int| 0 <= m < b.len() && b[m] == cs[i];
                assert(r[a.len() + m] == cs[i]);
            },
        }
    }
}

/// Those at one place are buffers of that place.
proof fn lemma_at(cs: Seq<CBufferModel>, names: Seq<Seq<char>>, p: Option<int>, n: int)
    requires
        0 <= n <= cs.len(),
    ensures
        forall|i: int|
            0 <= i < at_position(cs, names, p, n).len() ==> {
                let x = #[trigger] at_position(cs, names, p, n)[i];
                &&& cs.contains(x)
                &&& position(names, x.name, 0) == p
                &&& rank(names, x.name) == (match p {
                    Some(k) => k,
                    None => names.len() as int,
                })
            },
    decreases n,
{
    if n > 0 {
        lemma_at(cs, names, p, n - 1);
        let before = at_position(cs, names, p, n - 1);
        let all = at_position(cs, names, p, n);
        lemma_position(names, cs[n - 1].name, 0);
        assert forall|i: int| 0 <= i < all.len() implies ({
            let x = #[trigger] all[i];
            &&& cs.contains(x)
            &&& position(names, x.name, 0) == p
            &&& rank(names, x.name) == (match p {
                Some(k) => k,
                None => names.len() as int,
            })
        }) by {
            if i < before.len() {
                assert(all[i] == before[i]);
            } else {
                assert(all[i] == cs[n - 1]);
            }
        }
    }
}

/// A buffer is among those of its place.
proof fn lemma_holds(cs: Seq<CBufferModel>, names: Seq<Seq<char>>, p: Option<int>, n: int, i: int)
    requires
        0 <= i < n <= cs.len(),
        position(names, cs[i].name, 0) == p,
    ensures
        at_position(cs, names, p, n).contains(cs[i]),
    decreases n,
{
    let before = at_position(cs, names, p, n - 1);
    let all = at_position(cs, names, p, n);
    if i == n - 1 {
        assert(all[before.len() as int] == cs[i]);
    } else {
        lemma_holds(cs, names, p, n - 1, i);
        let m = choose|m: int| 0 <= m < before.len() && before[m] == cs[i];
        assert(all[m] == cs[i]);
    }
}

/// Those of the first places come in the order of the places.
proof fn lemma_in_order(cs: Seq<CBufferModel>, names: Seq<Seq<char>>, k: int, i: int, j: int)
    requires
        0 <= k <= names.len(),
    ensures
        ({
            let a = in_order(cs, names, k);
            &&& 0 <= i < j < a.len() ==> rank(names, a[i].name) <= rank(names, a[j].name)
            &&& 0 <= i < a.len() ==> cs.contains(a[i]) && rank(names, a[i].name) < k
        }),
    decreases k,
{
    if k > 0 {
        lemma_in_order(cs, names, k - 1, i, j);
        lemma_at(cs, names, Some(k - 1), cs.len() as int);
        let a = in_order(cs, names, k - 1);
        let q = at_position(cs, names, Some(k - 1), cs.len() as int);
        let b = in_order(cs, names, k);
        if 0 <= i < b.len() {
            if i < a.len() {
                assert(b[i] == a[i]);
            } else {
                assert(b[i] == q[i - a.len()]);
            }
        }
        if 0 <= i < j < b.len() {
            if j < a.len() {
                assert(b[j] == a[j]);
            } else {
                assert(b[j] == q[j - a.len()]);
            }
        }
    }
}

/// Those of one place stand behind those of the places before it.
proof fn lemma_part(cs: Seq<CBufferModel>, names: Seq<Seq<char>>, k: int, p: int)
    requires
        0 <= p < k,
    ensures
        ({
            let s = in_order(cs, names, p).len();
            let q = at_position(cs, names, Some(p), cs.len() as int);
            &&& s + q.len() <= in_order(cs, names, k).len()
            &&& forall|m: int|
                0 <= m < q.len() ==> in_order(cs, names, k)[s + m] == #[trigger] q[m]
        }),
    decreases k,
{
    let s = in_order(cs, names, p).len();
    let q = at_position(cs, names, Some(p), cs.len() as int);
    let b = in_order(cs, names, k);
    let a = in_order(cs, names, k - 1);
    if p < k - 1 {
        lemma_part(cs, names, k - 1, p);
        assert forall|m: int| 0 <= m < q.len() implies b[s + m] == #[trigger] q[m] by {
            assert(a[s + m] == q[m]);
        }
    }
}

/// How many of the first `n` buffers have a place before `k`.
spec fn placed(cs: Seq<CBufferModel>, names: Seq<Seq<char>>, k: int, n: int) -> nat
    decreases k,
{
    if k <= 0 {
        0
    } else {
        placed(cs, names, k - 1, n) + at_position(cs, names, Some(k - 1), n).len()
    }
}

proof fn lemma_lengths(cs: Seq<CBufferModel>, names: Seq<Seq<char>>, k: int)
    ensures
        in_order(cs, names, k).len() == placed(cs, names, k, cs.len() as int),
    decreases k,
{
    if k > 0 {
        lemma_lengths(cs, names, k - 1);
    }
}

proof fn lemma_step(cs: Seq<CBufferModel>, names: Seq<Seq<char>>, k: int, n: int)
    requires
        0 < n <= cs.len(),
        0 <= k,
    ensures
        placed(cs, names, k, n) == placed(cs, names, k, n - 1) + (match position(
            names,
            cs[n - 1].name,
            0,
        ) {
            Some(p) => if 0 <= p < k {
                1nat
            } else {
                0
            },
            None => 0,
        }),
    decreases k,
{
    if k > 0 {
        lemma_step(cs, names, k - 1, n);
    }
}

/// Every buffer has one place or none.
proof fn lemma_counts(cs: Seq<CBufferModel>, names: Seq<Seq<char>>, n: int)
    requires
        0 <= n <= cs.len(),
    ensures
        placed(cs, names, names.len() as int, n) + at_position(cs, names, None, n).len() == n,
    decreases n,
{
    let k = names.len() as int;
    if n > 0 {
        lemma_counts(cs, names, n - 1);
        lemma_step(cs, names, k, n);
        lemma_position(names, cs[n - 1].name, 0);
    } else {
        lemma_none(cs, names, k);
    }
}

proof fn lemma_none(cs: Seq<CBufferModel>, names: Seq<Seq<char>>, k: int)
    ensures
        placed(cs, names, k, 0) == 0,
    decreases k,
{
    if k > 0 {
        lemma_none(cs, names, k - 1);
    }
}

} // verus!
