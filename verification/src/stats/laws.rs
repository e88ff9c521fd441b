//! What holds of the statistics of every sample set.

use crate::stats::PPM;
use crate::stats::bucket_count;
use crate::stats::loss_ppm_of;
use crate::stats::order::ascending;
use crate::stats::order::lemma_ascending;
use crate::stats::rank_index;
use crate::stats::stats_of;
use crate::stats::total;
use vstd::arithmetic::div_mod::lemma_fundamental_div_mod;
use vstd::prelude::*;

verus! {

/// A percentile's rank lies among the samples.
pub proof fn lemma_rank_in_range(n: nat, percent: nat)
    requires
        n > 0,
        percent < 100,
    ensures
        rank_index(n, percent) < n,
{
    assert(n * percent <= n * 99) by (nonlinear_arith)
        requires
            percent <= 99,
    ;
}

/// The sum of `count` samples is at most `count` times the largest value a
/// sample can have, and not negative.
pub proof fn lemma_total_bounds(s: Seq<u128>)
    ensures
        0 <= total(s) <= s.len() * u128::MAX,
    decreases s.len(),
{
    if s.len() > 0 {
        lemma_total_bounds(s.drop_last());
        assert((s.len() - 1) * u128::MAX + u128::MAX == s.len() * u128::MAX) by (nonlinear_arith);
    }
}

/// The mean of samples lies between the smallest and the largest possible
/// sample, so its whole part is a sample value itself.
pub proof fn lemma_mean_fits(s: Seq<u128>)
    requires
        s.len() > 0,
    ensures
        0 <= total(s) / (s.len() as int) <= u128::MAX,
        0 <= total(s) % (s.len() as int) < s.len(),
{
    lemma_total_bounds(s);
    let n = s.len() as int;
    let t = total(s);
    let m = u128::MAX as int;
    assert(0 <= t / n <= m && 0 <= t % n < n) by (nonlinear_arith)
        requires
            n > 0,
            0 <= t <= n * m,
    ;
}

/// A loss rate is at most the whole: a million parts per million.
pub proof fn lemma_loss_ppm_bounded(sent: nat, lost: nat)
    requires
        lost <= sent,
    ensures
        loss_ppm_of(sent, lost) <= PPM,
        lost == 0 ==> loss_ppm_of(sent, lost) == 0,
        sent > 0 && lost == sent ==> loss_ppm_of(sent, lost) == PPM,
{
    if sent > 0 {
        let s = sent as int;
        let l = lost as int;
        assert(l * 1_000_000 / s <= 1_000_000 && (l == 0 ==> l * 1_000_000 / s == 0) && (l == s
            ==> l * 1_000_000 / s == 1_000_000)) by (nonlinear_arith)
            requires
                0 <= l <= s,
                s > 0,
        ;
    }
}

/// No bucket counts more samples than there are.
pub proof fn lemma_bucket_count_bounded(s: Seq<u128>, width: u128, bucket: int)
    ensures
        bucket_count(s, width, bucket) <= s.len(),
    decreases s.len(),
{
    if s.len() > 0 {
        lemma_bucket_count_bounded(s.drop_last(), width, bucket);
    }
}

/// The sum of samples that all lie between `low` and `high` lies between
/// as many times `low` and `high`.
pub proof fn lemma_total_between(s: Seq<u128>, low: u128, high: u128)
    requires
        forall|i: int| 0 <= i < s.len() ==> low <= #[trigger] s[i] <= high,
    ensures
        s.len() * low <= total(s) <= s.len() * high,
    decreases s.len(),
{
    if s.len() > 0 {
        let rest = s.drop_last();
        assert forall|i: int| 0 <= i < rest.len() implies low <= #[trigger] rest[i] <= high by {
            assert(rest[i] == s[i]);
        }
        lemma_total_between(rest, low, high);
        assert((s.len() - 1) * low + low == s.len() * low) by (nonlinear_arith);
        assert((s.len() - 1) * high + high == s.len() * high) by (nonlinear_arith);
    }
}

/// The statistics of a sample set that fits in memory hang together: the
/// extremes bound every sample, every percentile is one of the samples, the
/// percentiles rise with their rank between the extremes, and the mean lies
/// between the extremes and gives back the sum.
pub proof fn lemma_stats_consistent(s: Seq<u128>)
    requires
        0 < s.len() <= usize::MAX,
    ensures
        ({
            let stats = stats_of(s);
            &&& forall|i: int| 0 <= i < s.len() ==> stats.min <= #[trigger] s[i] <= stats.max
            &&& s.contains(stats.min) && s.contains(stats.max)
            &&& s.contains(stats.p50) && s.contains(stats.p95) && s.contains(stats.p99)
            &&& stats.min <= stats.p50 <= stats.p95 <= stats.p99 <= stats.max
            &&& stats.min <= stats.mean <= stats.max
            &&& stats.mean * s.len() + stats.mean_remainder == total(s)
            &&& stats.mean_remainder < s.len()
        }),
{
    broadcast use vstd::seq_lib::group_to_multiset_ensures;

    let stats = stats_of(s);
    let sorted = ascending(s);
    let n = s.len();
    lemma_ascending(s);
    lemma_rank_in_range(n, 50);
    lemma_rank_in_range(n, 95);
    lemma_rank_in_range(n, 99);
    assert forall|k: int| 0 <= k < n implies s.contains(#[trigger] sorted[k]) by {
        assert(sorted.contains(sorted[k]));
        assert(sorted.to_multiset().count(sorted[k]) > 0);
    }
    assert forall|i: int| 0 <= i < n implies stats.min <= #[trigger] s[i] <= stats.max by {
        assert(s.contains(s[i]));
        assert(s.to_multiset().count(s[i]) > 0);
        assert(sorted.contains(s[i]));
        let j = choose|j: int| 0 <= j < sorted.len() && sorted[j] == s[i];
        assert(sorted[0] <= sorted[j] <= sorted[n - 1]);
    }
    lemma_total_between(s, stats.min, stats.max);
    lemma_mean_fits(s);
    let t = total(s);
    let ni = n as int;
    lemma_fundamental_div_mod(t, ni);
    assert(stats.min <= t / ni <= stats.max) by (nonlinear_arith)
        requires
            ni > 0,
            ni * stats.min <= t <= ni * stats.max,
    ;
    assert(stats.mean == t / ni);
    assert(stats.mean_remainder == t % ni);
    assert(stats.mean * n == ni * (t / ni)) by (nonlinear_arith)
        requires
            stats.mean == t / ni,
            n == ni,
    ;
}

} // verus!
