//! Order statistics over recorded latencies and request start times.

use vstd::prelude::*;

verus! {

broadcast use vstd::seq_lib::group_to_multiset_ensures;

/// Ascending order of a sequence of latencies.
pub open spec fn is_sorted(s: Seq<u128>) -> bool {
    forall|i: int, j: int| 0 <= i <= j < s.len() ==> s[i] <= s[j]
}

/// The order `<=` on latencies.
pub open spec fn latency_leq() -> spec_fn(u128, u128) -> bool {
    |a: u128, b: u128| a <= b
}

/// `s` rearranged in ascending order.
pub open spec fn ascending(s: Seq<u128>) -> Seq<u128> {
    s.sort_by(latency_leq())
}

/// `ascending(s)` is sorted, has the elements of `s`, and is the only sorted
/// rearrangement of `s`.
pub proof fn lemma_ascending(s: Seq<u128>)
    ensures
        is_sorted(ascending(s)),
        ascending(s).to_multiset() == s.to_multiset(),
        ascending(s).len() == s.len(),
        forall|t: Seq<u128>| is_sorted(t) && t.to_multiset() == s.to_multiset() ==> t == ascending(s),
{
    let leq = latency_leq();
    assert(vstd::relations::total_ordering(leq));
    s.lemma_sort_by_ensures(leq);
    let a = ascending(s);
    assert forall|i: int, j: int| 0 <= i <= j < a.len() implies a[i] <= a[j] by {
        if i < j {
            assert(leq(a[i], a[j]));
        }
    }
    vstd::seq_lib::to_multiset_len(s);
    vstd::seq_lib::to_multiset_len(a);
    assert forall|t: Seq<u128>| is_sorted(t) && t.to_multiset() == s.to_multiset() implies t == ascending(s) by {
        assert(vstd::relations::sorted_by(t, leq));
        vstd::seq_lib::lemma_sorted_unique(t, a, leq);
    }
}

/// Returns the latencies in ascending order, as a rearrangement of the input.
pub fn sorted_latencies(v: &Vec<u128>) -> (r: Vec<u128>)
    ensures
        r@ == ascending(v@),
        is_sorted(r@),
        r@.to_multiset() == v@.to_multiset(),
{
    let mut r: Vec<u128> = Vec::new();
    let mut i: usize = 0;
    while i < v.len()
        invariant
            i <= v.len(),
            is_sorted(r@),
            r@.to_multiset() == v@.take(i as int).to_multiset(),
        decreases v.len() - i,
    {
        let x = v[i];
        let mut p: usize = r.len();
        while p > 0 && r[p - 1] > x
            invariant
                p <= r.len(),
                is_sorted(r@),
                forall|k: int| p <= k < r.len() ==> r@[k] > x,
            decreases p,
        {
            p = p - 1;
        }
        let ghost before = r@;
        r.insert(p, x);
        proof {
            assert forall|a: int, b: int| 0 <= a <= b < r@.len() implies r@[a] <= r@[b] by {
                if a < p as int && b > p as int {
                    assert(before[a] <= before[p - 1]);
                }
                if a < p as int && b == p as int {
                    assert(before[a] <= before[p - 1]);
                }
            }
            assert(v@.take(i + 1) =~= v@.take(i as int).push(x));
        }
        i = i + 1;
    }
    proof {
        assert(v@.take(v@.len() as int) =~= v@);
        lemma_ascending(v@);
    }
    r
}


/// Position of the `pct`-th percentile in a sorted sequence of length `len`:
/// the floor of `len * pct / 100`, clamped to the last position.
pub open spec fn percentile_index(len: nat, pct: nat) -> int {
    let idx = (len * pct) / 100;
    if idx < len { idx as int } else { len - 1 }
}

/// The `pct`-th percentile of `s`, or 0 when `s` is empty.
pub open spec fn spec_percentile(s: Seq<u128>, pct: nat) -> u128 {
    if s.len() == 0 {
        0
    } else {
        s[percentile_index(s.len(), pct)]
    }
}

/// The element at the `pct`-th percentile position of `sorted` (0 when empty).
/// The percentile is given in whole hundredths: 95 is the 95th percentile.
pub fn percentile(sorted: &[u128], pct: u64) -> (r: u128)
    ensures
        r == spec_percentile(sorted@, pct as nat),
{
    let len = sorted.len();
    if len == 0 {
        return 0;
    }
    let l: u128 = len as u128;
    let q: u128 = pct as u128;
    assert(l * q < 0x1_0000_0000_0000_0000_0000_0000_0000_0000) by (nonlinear_arith)
        requires
            l < 0x1_0000_0000_0000_0000,
            q < 0x1_0000_0000_0000_0000,
    ;
    let wide: u128 = l * q / 100;
    let idx: usize = if wide < len as u128 { wide as usize } else { len - 1 };
    sorted[idx]
}

/// A higher percentile never indexes an earlier position.
pub proof fn lemma_percentile_index_monotone(len: nat, p: nat, q: nat)
    requires
        len > 0,
        p <= q,
    ensures
        0 <= percentile_index(len, p) <= percentile_index(len, q) < len,
{
    assert(len * p <= len * q) by (nonlinear_arith)
        requires p <= q;
    assert((len * p) / 100 <= (len * q) / 100) by (nonlinear_arith)
        requires len * p <= len * q;
    assert(0 <= (len * p) / 100) by (nonlinear_arith);
}

/// The `pct`-th percentile of a non-empty sequence is its element at
/// position `i`, where `i` is the floor of `len * pct / 100` (that is,
/// `100 * i <= len * pct < 100 * (i + 1)`), unless that floor is past the
/// end, in which case `i` is the last position.
pub proof fn lemma_percentile_position(s: Seq<u128>, pct: nat)
    requires
        s.len() > 0,
    ensures
        exists|i: int|
            0 <= i < s.len() && spec_percentile(s, pct) == #[trigger] s[i] && (
            (100 * i <= s.len() * pct && s.len() * pct < 100 * (i + 1))
            || (i == s.len() - 1 && 100 * s.len() <= s.len() * pct)),
{
    let len = s.len();
    let f = (len * pct) / 100;
    assert(100 * f <= len * pct && len * pct < 100 * (f + 1)) by (nonlinear_arith)
        requires f == (len * pct) / 100;
    let i = percentile_index(len, pct);
    if f < len {
        assert(i == f);
        assert(spec_percentile(s, pct) == s[i]);
    } else {
        assert(i == len - 1);
        assert(100 * len <= len * pct) by (nonlinear_arith)
            requires f >= len, 100 * f <= len * pct;
        assert(spec_percentile(s, pct) == s[i]);
    }
}

/// With more samples, the percentile position never moves back: for a
/// fixed `pct`, the position in a longer sequence is at least the position
/// in a shorter one (p95 of 200 samples is at position 190, of 100 at 95).
pub proof fn lemma_percentile_index_grows_with_len(m: nat, n: nat, pct: nat)
    requires
        0 < m <= n,
        pct <= 100,
    ensures
        percentile_index(m, pct) <= percentile_index(n, pct),
        pct < 100 ==> 100 * percentile_index(n, pct) <= n * pct,
        pct < 100 ==> n * pct < 100 * (percentile_index(n, pct) + 1),
{
    assert(m * pct <= n * pct) by (nonlinear_arith)
        requires m <= n;
    assert((m * pct) / 100 <= (n * pct) / 100) by (nonlinear_arith)
        requires m * pct <= n * pct;
    assert((n * pct) / 100 <= n) by (nonlinear_arith)
        requires pct <= 100;
    let f = (n * pct) / 100;
    assert(100 * f <= n * pct && n * pct < 100 * (f + 1)) by (nonlinear_arith)
        requires f == (n * pct) / 100;
    if pct < 100 {
        assert(f < n) by (nonlinear_arith)
            requires n > 0, 100 * f <= n * pct, pct < 100;
    }
}

/// Percentiles of a sorted sequence are ordered like their ranks:
/// for `p <= q`, the `p`-th percentile is at most the `q`-th.
pub proof fn lemma_percentile_monotone(s: Seq<u128>, p: nat, q: nat)
    requires
        is_sorted(s),
        p <= q,
    ensures
        spec_percentile(s, p) <= spec_percentile(s, q),
{
    if s.len() > 0 {
        lemma_percentile_index_monotone(s.len(), p, q);
    }
}

/// A percentile of a non-empty sequence is one of its elements, and of a
/// sorted one lies between its first and last element.
pub proof fn lemma_percentile_is_sample(s: Seq<u128>, p: nat)
    requires
        s.len() > 0,
    ensures
        s.contains(spec_percentile(s, p)),
        is_sorted(s) ==> s[0] <= spec_percentile(s, p) <= s[s.len() - 1],
{
    lemma_percentile_index_monotone(s.len(), 0, p);
    let i = percentile_index(s.len(), p);
    assert(s[i] == spec_percentile(s, p));
}

/// Number of positive entries of `s`.
pub open spec fn count_positive(s: Seq<u64>) -> nat
    decreases s.len(),
{
    if s.len() == 0 {
        0
    } else {
        count_positive(s.drop_last()) + if s.last() > 0 { 1nat } else { 0nat }
    }
}

/// The largest positive entry of `s` (0 when there is none).
pub open spec fn max_positive(s: Seq<u64>) -> u64
    decreases s.len(),
{
    if s.len() == 0 {
        0
    } else {
        let m = max_positive(s.drop_last());
        if s.last() > m { s.last() } else { m }
    }
}

/// The smallest positive entry of `s` (0 when there is none).
pub open spec fn min_positive(s: Seq<u64>) -> u64
    decreases s.len(),
{
    if s.len() == 0 {
        0
    } else {
        let m = min_positive(s.drop_last());
        if s.last() == 0 {
            m
        } else if count_positive(s.drop_last()) == 0 || s.last() < m {
            s.last()
        } else {
            m
        }
    }
}

/// Spread of the recorded start times in microseconds: the distance between
/// the earliest and the latest positive start time (given in nanoseconds),
/// divided by 1000; 0 when fewer than two starts were recorded.
pub open spec fn spec_spread_us(starts: Seq<u64>) -> u64 {
    if count_positive(starts) > 1 {
        ((max_positive(starts) - min_positive(starts)) / 1000) as u64
    } else {
        0
    }
}

/// The extremes of the positive entries bound every positive entry and are
/// themselves entries; in particular `min_positive(s) <= max_positive(s)`.
pub proof fn lemma_positive_extremes(s: Seq<u64>)
    ensures
        forall|k: int| 0 <= k < s.len() && s[k] > 0 ==> min_positive(s) <= #[trigger] s[k] <= max_positive(s),
        count_positive(s) > 0 ==> min_positive(s) > 0 && min_positive(s) <= max_positive(s),
        count_positive(s) > 0 ==> exists|k: int| 0 <= k < s.len() && s[k] == max_positive(s),
        count_positive(s) > 0 ==> exists|k: int| 0 <= k < s.len() && s[k] == min_positive(s),
        count_positive(s) == 0 ==> max_positive(s) == 0,
    decreases s.len(),
{
    if s.len() > 0 {
        let t = s.drop_last();
        lemma_positive_extremes(t);
        assert forall|k: int| 0 <= k < s.len() && s[k] > 0 implies min_positive(s) <= #[trigger] s[k] <= max_positive(s) by {
            if k < s.len() - 1 {
                assert(t[k] == s[k]);
            }
        }
        if count_positive(s) > 0 {
            if count_positive(t) > 0 {
                let a = choose|k: int| 0 <= k < t.len() && t[k] == max_positive(t);
                let b = choose|k: int| 0 <= k < t.len() && t[k] == min_positive(t);
                assert(s[a] == t[a]);
                assert(s[b] == t[b]);
                assert(s[s.len() - 1] == s.last());
            } else {
                assert(s[s.len() - 1] == s.last());
            }
        }
    }
}

/// Spread of the positive start times, in microseconds (see `spec_spread_us`).
pub fn start_spread_us(starts: &Vec<u64>) -> (r: u64)
    ensures
        r == spec_spread_us(starts@),
{
    let mut count: usize = 0;
    let mut lo: u64 = 0;
    let mut hi: u64 = 0;
    let mut i: usize = 0;
    while i < starts.len()
        invariant
            i <= starts.len(),
            count == count_positive(starts@.take(i as int)),
            lo == min_positive(starts@.take(i as int)),
            hi == max_positive(starts@.take(i as int)),
        decreases starts.len() - i,
    {
        let v = starts[i];
        proof {
            assert(starts@.take(i + 1).drop_last() =~= starts@.take(i as int));
            lemma_count_positive_bound(starts@.take(i as int));
        }
        if v > 0 {
            if count == 0 || v < lo {
                lo = v;
            }
            if v > hi {
                hi = v;
            }
            count = count + 1;
        }
        i = i + 1;
    }
    proof {
        assert(starts@.take(starts@.len() as int) =~= starts@);
        lemma_positive_extremes(starts@);
    }
    if count > 1 {
        (hi - lo) / 1000
    } else {
        0
    }
}

/// `count_positive` counts exactly the positive entries: it is the length
/// of `s` with every 0 taken out.
pub proof fn lemma_count_positive_is_filter_len(s: Seq<u64>)
    ensures
        count_positive(s) == s.filter(started()).len(),
    decreases s.len(),
{
    if s.len() > 0 {
        lemma_count_positive_is_filter_len(s.drop_last());
        reveal_with_fuel(Seq::<u64>::filter, 1);
        assert(s.filter(started()) == if started()(s.last()) {
            s.drop_last().filter(started()).push(s.last())
        } else {
            s.drop_last().filter(started())
        });
    }
}

/// A start time that marks a request as started: a positive one.
pub open spec fn started() -> spec_fn(u64) -> bool {
    |v: u64| v > 0
}

/// Two distinct positive start times are enough for a spread: the spread
/// is then at least their distance in whole microseconds.
pub proof fn lemma_spread_covers_any_two_starts(s: Seq<u64>, i: int, j: int)
    requires
        0 <= i < s.len(),
        0 <= j < s.len(),
        i != j,
        s[i] > 0,
        s[j] > 0,
        s[j] <= s[i],
    ensures
        count_positive(s) > 1,
        (s[i] - s[j]) / 1000 <= spec_spread_us(s),
    decreases s.len(),
{
    lemma_positive_extremes(s);
    lemma_two_positive_count(s, i, j);
    assert(min_positive(s) <= s[j]);
    assert(s[i] <= max_positive(s));
    let a = s[i] - s[j];
    let b = max_positive(s) - min_positive(s);
    assert(a / 1000 <= b / 1000) by (nonlinear_arith)
        requires 0 <= a <= b;
}

/// Two positive entries at distinct positions make at least two positive entries.
proof fn lemma_two_positive_count(s: Seq<u64>, i: int, j: int)
    requires
        0 <= i < s.len(),
        0 <= j < s.len(),
        i != j,
        s[i] > 0,
        s[j] > 0,
    ensures
        count_positive(s) > 1,
    decreases s.len(),
{
    let t = s.drop_last();
    let last = s.len() - 1;
    if i == last || j == last {
        let k = if i == last { j } else { i };
        assert(t[k] == s[k]);
        lemma_one_positive_count(t, k);
    } else {
        assert(t[i] == s[i]);
        assert(t[j] == s[j]);
        lemma_two_positive_count(t, i, j);
    }
}

/// A positive entry makes at least one positive entry.
proof fn lemma_one_positive_count(s: Seq<u64>, k: int)
    requires
        0 <= k < s.len(),
        s[k] > 0,
    ensures
        count_positive(s) >= 1,
    decreases s.len(),
{
    if k < s.len() - 1 {
        let t = s.drop_last();
        assert(t[k] == s[k]);
        lemma_one_positive_count(t, k);
    }
}

/// There are never more positive entries than entries.
pub proof fn lemma_count_positive_bound(s: Seq<u64>)
    ensures
        count_positive(s) <= s.len(),
    decreases s.len(),
{
    if s.len() > 0 {
        lemma_count_positive_bound(s.drop_last());
    }
}

} // verus!
