//! Sorting of integer samples and the percentiles read from them.

use vstd::prelude::*;
use vstd::relations::{sorted_by, total_ordering};

verus! {

/// The usual order of `u64`.
pub open spec fn u64_leq() -> spec_fn(u64, u64) -> bool {
    |a: u64, b: u64| a <= b
}

/// `s` in ascending order.
pub open spec fn ascending(s: Seq<u64>) -> Seq<u64> {
    s.sort_by(u64_leq())
}

/// `<=` on `u64` is a total order.
pub proof fn lemma_u64_leq_total()
    ensures
        total_ordering(u64_leq()),
{
}

/// A copy of `v` in ascending order.
pub fn sorted_copy(v: &[u64]) -> (r: Vec<u64>)
    ensures
        r@ == ascending(v@),
{
    broadcast use vstd::seq_lib::to_multiset_insert, vstd::seq_lib::to_multiset_build;

    let mut out: Vec<u64> = Vec::new();
    let n = v.len();
    let mut i: usize = 0;
    assert(v@.subrange(0, 0).to_multiset() =~= out@.to_multiset()) by {
        assert(v@.subrange(0, 0) =~= out@);
    }
    while i < n
        invariant
            i <= n,
            n == v@.len(),
            sorted_by(out@, u64_leq()),
            out@.to_multiset() == v@.subrange(0, i as int).to_multiset(),
        decreases n - i,
    {
        let x = v[i];
        let mut j: usize = 0;
        while j < out.len() && out[j] <= x
            invariant
                j <= out@.len(),
                forall|t: int| 0 <= t < j ==> out@[t] <= x,
            decreases out@.len() - j,
        {
            j = j + 1;
        }
        let ghost before = out@;
        out.insert(j, x);
        assert(out@ == before.insert(j as int, x));
        assert(sorted_by(out@, u64_leq())) by {
            assert forall|a: int, b: int| 0 <= a < b < out@.len() implies #[trigger] u64_leq()(
                out@[a],
                out@[b],
            ) by {
                if b < j {
                } else if b == j {
                } else if a < j {
                    assert(out@[b] == before[b - 1]);
                    if j < before.len() {
                        assert(u64_leq()(before[a], before[j as int]));
                        assert(u64_leq()(before[j as int], before[b - 1]));
                    }
                } else if a == j {
                    assert(out@[b] == before[b - 1]);
                    assert(before[j as int] > x);
                    assert(u64_leq()(before[j as int], before[b - 1]));
                } else {
                    assert(u64_leq()(before[a - 1], before[b - 1]));
                }
            }
        }
        assert(v@.subrange(0, i + 1) =~= v@.subrange(0, i as int).push(x));
        proof {
            vstd::seq_lib::to_multiset_insert(before, j as int, x);
            vstd::seq_lib::to_multiset_build(v@.subrange(0, i as int), x);
        }
        i = i + 1;
    }
    proof {
        assert(v@.subrange(0, n as int) =~= v@);
        lemma_u64_leq_total();
        v@.lemma_sort_by_ensures(u64_leq());
        vstd::seq_lib::lemma_sorted_unique(out@, v@.sort_by(u64_leq()), u64_leq());
    }
    out
}

/// The usual order of `i64`.
pub open spec fn i64_leq() -> spec_fn(i64, i64) -> bool {
    |a: i64, b: i64| a <= b
}

/// Signed samples in ascending order.
pub open spec fn ascending_i64(s: Seq<i64>) -> Seq<i64> {
    s.sort_by(i64_leq())
}

/// `<=` on `i64` is a total order.
pub proof fn lemma_i64_leq_total()
    ensures
        total_ordering(i64_leq()),
{
}

/// A copy of signed samples in ascending order.
pub fn sorted_i64_copy(v: &[i64]) -> (r: Vec<i64>)
    ensures
        r@ == ascending_i64(v@),
{
    broadcast use vstd::seq_lib::to_multiset_insert, vstd::seq_lib::to_multiset_build;

    let mut out: Vec<i64> = Vec::new();
    let n = v.len();
    let mut i: usize = 0;
    assert(v@.subrange(0, 0).to_multiset() =~= out@.to_multiset()) by {
        assert(v@.subrange(0, 0) =~= out@);
    }
    while i < n
        invariant
            i <= n,
            n == v@.len(),
            sorted_by(out@, i64_leq()),
            out@.to_multiset() == v@.subrange(0, i as int).to_multiset(),
        decreases n - i,
    {
        let x = v[i];
        let mut j: usize = 0;
        while j < out.len() && out[j] <= x
            invariant
                j <= out@.len(),
                forall|t: int| 0 <= t < j ==> out@[t] <= x,
            decreases out@.len() - j,
        {
            j = j + 1;
        }
        let ghost before = out@;
        out.insert(j, x);
        assert(out@ == before.insert(j as int, x));
        assert(sorted_by(out@, i64_leq())) by {
            assert forall|a: int, b: int| 0 <= a < b < out@.len() implies #[trigger] i64_leq()(
                out@[a],
                out@[b],
            ) by {
                if b < j {
                } else if b == j {
                } else if a < j {
                    assert(out@[b] == before[b - 1]);
                    if j < before.len() {
                        assert(i64_leq()(before[a], before[j as int]));
                        assert(i64_leq()(before[j as int], before[b - 1]));
                    }
                } else if a == j {
                    assert(out@[b] == before[b - 1]);
                    assert(before[j as int] > x);
                    assert(i64_leq()(before[j as int], before[b - 1]));
                } else {
                    assert(i64_leq()(before[a - 1], before[b - 1]));
                }
            }
        }
        assert(v@.subrange(0, i + 1) =~= v@.subrange(0, i as int).push(x));
        proof {
            vstd::seq_lib::to_multiset_insert(before, j as int, x);
            vstd::seq_lib::to_multiset_build(v@.subrange(0, i as int), x);
        }
        i = i + 1;
    }
    proof {
        assert(v@.subrange(0, n as int) =~= v@);
        lemma_i64_leq_total();
        v@.lemma_sort_by_ensures(i64_leq());
        vstd::seq_lib::lemma_sorted_unique(out@, v@.sort_by(i64_leq()), i64_leq());
    }
    out
}

/// The index read for the `p`-th percentile of `len` samples.
pub open spec fn percentile_index(len: nat, p: nat) -> int {
    let idx = len * p / 100;
    if idx < len - 1 {
        idx as int
    } else {
        len - 1
    }
}

/// The `p`-th percentile of `values`: the sample at rank `len * p / 100` (capped to
/// the last) of the ascending order, 0 when there is none.
pub open spec fn percentile_of(values: Seq<u64>, p: nat) -> u64 {
    if values.len() == 0 {
        0
    } else {
        ascending(values)[percentile_index(values.len(), p)]
    }
}

/// The `p`-th percentile of `values`.
pub fn percentile(values: &[u64], p: u8) -> (r: u64)
    requires
        values@.len() <= usize::MAX / 256,
    ensures
        r == percentile_of(values@, p as nat),
{
    if values.len() == 0 {
        return 0;
    }
    let sorted = sorted_copy(values);
    proof {
        lemma_u64_leq_total();
        values@.lemma_sort_by_ensures(u64_leq());
        vstd::seq_lib::to_multiset_len(values@);
        vstd::seq_lib::to_multiset_len(values@.sort_by(u64_leq()));
    }
    assert(sorted@.len() == values@.len());
    let len = sorted.len();
    assert(len * (p as usize) <= usize::MAX) by (nonlinear_arith)
        requires
            len <= usize::MAX / 256,
            p <= 255,
    {
    }
    let idx = len * (p as usize) / 100;
    let k = if idx < len - 1 {
        idx
    } else {
        len - 1
    };
    sorted[k]
}

} // verus!
