//! Percentiles of the renderer's frame measurements: the value at a rounded
//! rank of the sorted measurements, stated by counting instead of sorting.

use vstd::prelude::*;
use crate::frames::Percentiles;

verus! {

/// How many values are below `v`.
pub open spec fn count_lt(s: Seq<u64>, v: u64) -> nat
    decreases s.len(),
{
    if s.len() == 0 {
        0
    } else {
        count_lt(s.drop_last(), v) + if s.last() < v { 1nat } else { 0nat }
    }
}

/// How many values are at most `v`.
pub open spec fn count_le(s: Seq<u64>, v: u64) -> nat
    decreases s.len(),
{
    if s.len() == 0 {
        0
    } else {
        count_le(s.drop_last(), v) + if s.last() <= v { 1nat } else { 0nat }
    }
}

/// `v` is the value at rank `k` (counting from 0) of `s` sorted in
/// ascending order: one of the values, with at most `k` values below it and
/// more than `k` values at most it.
pub open spec fn value_at_rank(s: Seq<u64>, k: nat, v: u64) -> bool {
    &&& s.contains(v)
    &&& count_lt(s, v) <= k
    &&& k < count_le(s, v)
}

/// The rank read for percentile `p` of `n` values: `(n - 1) * p / 100`
/// rounded to the nearest whole number, halves rounded up.
pub open spec fn percentile_rank(n: nat, p: nat) -> nat {
    if n == 0 { 0 } else { ((n - 1) * p + 50) as nat / 100 }
}

proof fn lemma_count_le_mono(s: Seq<u64>, a: u64, b: u64)
    requires
        a <= b,
    ensures
        count_le(s, a) <= count_le(s, b),
    decreases s.len(),
{
    if s.len() > 0 {
        lemma_count_le_mono(s.drop_last(), a, b);
    }
}

proof fn lemma_count_le_below(s: Seq<u64>, x: u64, v: u64)
    requires
        x < v,
    ensures
        count_le(s, x) <= count_lt(s, v),
    decreases s.len(),
{
    if s.len() > 0 {
        lemma_count_le_below(s.drop_last(), x, v);
    }
}

proof fn lemma_count_le_all(s: Seq<u64>, m: u64)
    requires
        forall|i: int| 0 <= i < s.len() ==> s[i] <= m,
    ensures
        count_le(s, m) == s.len(),
    decreases s.len(),
{
    if s.len() > 0 {
        lemma_count_le_all(s.drop_last(), m);
    }
}

/// Below `v` lies a value `u` with exactly as many values at most `u` as
/// there are values below `v` (the largest value below `v`).
proof fn lemma_largest_below(s: Seq<u64>, v: u64) -> (u: u64)
    requires
        count_lt(s, v) > 0,
    ensures
        s.contains(u),
        u < v,
        count_le(s, u) == count_lt(s, v),
    decreases s.len(),
{
    let t = s.drop_last();
    let x = s.last();
    assert(s[s.len() - 1] == x);
    if x >= v {
        let u = lemma_largest_below(t, v);
        let j = choose|j: int| 0 <= j < t.len() && t[j] == u;
        assert(s[j] == u);
        u
    } else if count_lt(t, v) == 0 {
        lemma_count_le_below(t, x, v);
        x
    } else {
        let u0 = lemma_largest_below(t, v);
        let j = choose|j: int| 0 <= j < t.len() && t[j] == u0;
        assert(s[j] == u0);
        if x <= u0 {
            u0
        } else {
            lemma_count_le_mono(t, u0, x);
            lemma_count_le_below(t, x, v);
            x
        }
    }
}

fn count_at_most(values: &Vec<u64>, v: u64) -> (n: usize)
    ensures
        n == count_le(values@, v),
{
    let mut n: usize = 0;
    let mut i: usize = 0;
    while i < values.len()
        invariant
            i <= values@.len(),
            n == count_le(values@.take(i as int), v),
            n <= i,
        decreases values.len() - i,
    {
        assert(values@.take(i + 1).drop_last() =~= values@.take(i as int));
        if values[i] <= v {
            n = n + 1;
        }
        i = i + 1;
    }
    assert(values@.take(values@.len() as int) =~= values@);
    n
}

/// The value at rank `k` of `values` sorted ascending.
pub fn value_of_rank(values: &Vec<u64>, k: usize) -> (r: u64)
    requires
        k < values@.len(),
    ensures
        value_at_rank(values@, k as nat, r),
{
    let ghost s = values@;
    let mut m: u64 = values[0];
    let mut i: usize = 1;
    while i < values.len()
        invariant
            1 <= i <= values@.len(),
            s == values@,
            s.contains(m),
            forall|j: int| 0 <= j < i ==> s[j] <= m,
        decreases values.len() - i,
    {
        if values[i] > m {
            m = values[i];
        }
        i = i + 1;
    }
    proof {
        lemma_count_le_all(s, m);
    }
    let mut best: u64 = m;
    let mut i: usize = 0;
    while i < values.len()
        invariant
            i <= values@.len(),
            s == values@,
            k < s.len(),
            s.contains(best),
            k < count_le(s, best),
            forall|j: int| 0 <= j < i && k < count_le(s, #[trigger] s[j]) ==> best <= s[j],
        decreases values.len() - i,
    {
        let v = values[i];
        if v < best {
            let c = count_at_most(values, v);
            if c > k {
                best = v;
                proof {
                    assert forall|j: int| 0 <= j < i + 1 && k < count_le(s, #[trigger] s[j]) implies best <= s[j] by {
                    }
                }
            }
        }
        i = i + 1;
    }
    proof {
        if count_lt(s, best) > k {
            let u = lemma_largest_below(s, best);
            let j = choose|j: int| 0 <= j < s.len() && s[j] == u;
            assert(k < count_le(s, s[j]));
            assert(best <= s[j]);
        }
    }
    best
}

/// The `p`-th percentile of `values` (`p` at most 100): the value at
/// [`percentile_rank`] of the sorted values, and 0 for no values.
pub fn percentile(values: &Vec<u64>, p: u64) -> (r: u64)
    requires
        p <= 100,
    ensures
        values@.len() == 0 ==> r == 0,
        values@.len() > 0 ==> percentile_rank(values@.len(), p as nat) < values@.len() && value_at_rank(
            values@,
            percentile_rank(values@.len(), p as nat),
            r,
        ),
{
    let n = values.len();
    if n == 0 {
        return 0;
    }
    let m: u128 = (n - 1) as u128;
    assert(m * p <= m * 100) by (nonlinear_arith)
        requires
            p <= 100;
    let k128: u128 = (m * (p as u128) + 50) / 100;
    assert(k128 <= m) by (nonlinear_arith)
        requires
            k128 == (m * p + 50) / 100,
            m * p <= m * 100;
    let k = k128 as usize;
    value_of_rank(values, k)
}

/// The median, 95th and 99th percentile of `values` and the last of them;
/// all zero and no last value when there are none.
pub fn percentiles(values: &Vec<u64>) -> (r: Percentiles)
    ensures
        values@.len() == 0 ==> r == (Percentiles { p50: 0, p95: 0, p99: 0, latest: None }),
        values@.len() > 0 ==> {
            let n = values@.len();
            &&& value_at_rank(values@, percentile_rank(n, 50), r.p50)
            &&& value_at_rank(values@, percentile_rank(n, 95), r.p95)
            &&& value_at_rank(values@, percentile_rank(n, 99), r.p99)
            &&& r.latest == Some(values@.last())
        },
{
    if values.len() == 0 {
        return Percentiles { p50: 0, p95: 0, p99: 0, latest: None };
    }
    Percentiles {
        p50: percentile(values, 50),
        p95: percentile(values, 95),
        p99: percentile(values, 99),
        latest: Some(values[values.len() - 1]),
    }
}

} // verus!
