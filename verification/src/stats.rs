//! Summary statistics over completed round-trip times.
//!
//! Percentiles are nearest-rank: the value at index `floor(n * p / 100)` of
//! the samples in ascending order, with no interpolation. The mean is kept
//! exact as a whole part and a remainder over the sample count. An empty
//! sample set has no statistics, and says so.

pub mod laws;
pub mod order;

use crate::stats::laws::lemma_bucket_count_bounded;
use crate::stats::laws::lemma_loss_ppm_bounded;
use crate::stats::laws::lemma_mean_fits;
use crate::stats::laws::lemma_rank_in_range;
use crate::stats::laws::lemma_total_bounds;
use crate::stats::order::ascending;
use crate::stats::order::lemma_ascending;
use crate::stats::order::sorted_copy;
use vstd::arithmetic::div_mod::lemma_fundamental_div_mod;
use vstd::arithmetic::div_mod::lemma_fundamental_div_mod_converse;
use vstd::prelude::*;

verus! {

/// Sum of the samples.
pub open spec fn total(s: Seq<u128>) -> int
    decreases s.len(),
{
    if s.len() == 0 {
        0
    } else {
        total(s.drop_last()) + s.last()
    }
}

/// Index of the `percent`-th percentile among `n` samples in ascending
/// order: `floor(n * percent / 100)`.
pub open spec fn rank_index(n: nat, percent: nat) -> nat {
    n * percent / 100
}

/// The `percent`-th percentile of the samples by the nearest-rank method.
/// There is none of an empty sample set, and none for 100 percent or more,
/// whose rank lies behind the last sample.
pub open spec fn percentile_of(samples: Seq<u128>, percent: nat) -> Option<u128> {
    if samples.len() > 0 && percent < 100 {
        Some(ascending(samples)[rank_index(samples.len(), percent) as int])
    } else {
        None
    }
}

/// Statistics of a sample set that is not empty.
#[derive(Clone, Copy, Debug, PartialEq, Eq, Structural)]
pub struct RttStats {
    /// Number of samples.
    pub count: usize,
    /// Smallest sample.
    pub min: u128,
    /// Largest sample.
    pub max: u128,
    /// Whole part of the arithmetic mean.
    pub mean: u128,
    /// What the whole part leaves over: the mean is `mean` plus
    /// `mean_remainder / count`, exactly.
    pub mean_remainder: u128,
    /// Median.
    pub p50: u128,
    /// 95th percentile.
    pub p95: u128,
    /// 99th percentile.
    pub p99: u128,
}

/// Outcome of summarizing a sample set.
#[derive(Clone, Copy, Debug, PartialEq, Eq, Structural)]
pub enum Summary {
    /// There was no sample, so there is no statistic.
    NoSamples,
    /// Statistics over at least one sample.
    Stats(RttStats),
}

/// Statistics of the sample set `s`, which is not empty.
pub open spec fn stats_of(s: Seq<u128>) -> RttStats
    recommends
        s.len() > 0,
{
    let sorted = ascending(s);
    let n = s.len();
    RttStats {
        count: n as usize,
        min: sorted[0],
        max: sorted[n - 1],
        mean: (total(s) / (n as int)) as u128,
        mean_remainder: (total(s) % (n as int)) as u128,
        p50: sorted[rank_index(n, 50) as int],
        p95: sorted[rank_index(n, 95) as int],
        p99: sorted[rank_index(n, 99) as int],
    }
}

/// Summary of the sample set `s`.
pub open spec fn summary_of(s: Seq<u128>) -> Summary {
    if s.len() == 0 {
        Summary::NoSamples
    } else {
        Summary::Stats(stats_of(s))
    }
}

/// Value at the rank of the `percent`-th percentile in samples that are
/// already in ascending order.
fn rank_value(sorted: &Vec<u128>, percent: u8) -> (value: u128)
    requires
        sorted.len() > 0,
        percent < 100,
    ensures
        value == sorted@[rank_index(sorted.len() as nat, percent as nat) as int],
{
    let n = sorted.len();
    proof {
        lemma_rank_in_range(n as nat, percent as nat);
        assert(n * percent <= n * 99) by (nonlinear_arith)
            requires
                percent <= 99,
        ;
    }
    let rank = (n as u128) * (percent as u128) / 100;
    sorted[rank as usize]
}

/// Whole part and remainder of the mean of samples that are not empty.
fn mean_of(samples: &Vec<u128>) -> (parts: (u128, u128))
    requires
        samples.len() > 0,
    ensures
        parts.0 == total(samples@) / (samples.len() as int),
        parts.1 == total(samples@) % (samples.len() as int),
{
    let n = samples.len();
    let d = n as u128;
    let mut quotients: u128 = 0;
    let mut remainders: u128 = 0;
    let mut k: usize = 0;
    assert(samples@.subrange(0, 0) =~= Seq::<u128>::empty());
    while k < n
        invariant
            n == samples.len(),
            d == n,
            d > 0,
            k <= n,
            quotients * d + remainders == total(samples@.subrange(0, k as int)),
            remainders <= k * (d - 1),
        decreases n - k,
    {
        let x = samples[k];
        let ghost seen = samples@.subrange(0, k as int);
        let ghost next = samples@.subrange(0, k as int + 1);
        proof {
            assert(next.drop_last() =~= seen);
            assert(next.last() == x);
            lemma_total_bounds(next);
            lemma_fundamental_div_mod(x as int, d as int);
            let q = quotients as int;
            let xq = (x / d) as int;
            let xr = (x % d) as int;
            let di = d as int;
            let ki = k as int;
            assert((q + xq) * di + (remainders + xr) == total(next)) by (nonlinear_arith)
                requires
                    q * di + remainders == total(seen),
                    x == di * xq + xr,
                    total(next) == total(seen) + x,
            ;
            assert(q + xq <= u128::MAX) by (nonlinear_arith)
                requires
                    (q + xq) * di + (remainders + xr) == total(next),
                    total(next) <= (ki + 1) * u128::MAX,
                    ki + 1 <= di,
                    di > 0,
                    remainders + xr >= 0,
                    q + xq >= 0,
            ;
            assert(remainders + xr <= (ki + 1) * (di - 1)) by (nonlinear_arith)
                requires
                    remainders <= ki * (di - 1),
                    xr <= di - 1,
            ;
            assert((ki + 1) * (di - 1) <= 0xFFFF_FFFF_FFFF_FFFF * 0xFFFF_FFFF_FFFF_FFFF)
                by (nonlinear_arith)
                requires
                    0 <= ki + 1 <= di,
                    0 < di <= 0xFFFF_FFFF_FFFF_FFFF,
            ;
        }
        quotients = quotients + x / d;
        remainders = remainders + x % d;
        k = k + 1;
    }
    proof {
        assert(samples@.subrange(0, k as int) =~= samples@);
        lemma_mean_fits(samples@);
        let di = d as int;
        let r = remainders as int;
        let q = quotients as int;
        lemma_fundamental_div_mod(r, di);
        assert(total(samples@) == (q + r / di) * di + r % di) by (nonlinear_arith)
            requires
                q * di + r == total(samples@),
                r == di * (r / di) + r % di,
        ;
        assert(0 <= r % di < di) by (nonlinear_arith)
            requires
                di > 0,
                r >= 0,
        ;
        lemma_fundamental_div_mod_converse(total(samples@), di, q + r / di, r % di);
    }
    (quotients + remainders / d, remainders % d)
}

/// Value at the rank of the `percent`-th percentile in samples that are
/// already in ascending order. There is none in an empty vector, and none
/// for 100 percent or more.
pub fn nearest_rank(sorted: &Vec<u128>, percent: u8) -> (value: Option<u128>)
    ensures
        value == if sorted.len() > 0 && percent < 100 {
            Some(sorted@[rank_index(sorted.len() as nat, percent as nat) as int])
        } else {
            None
        },
{
    if sorted.len() == 0 || percent >= 100 {
        None
    } else {
        Some(rank_value(sorted, percent))
    }
}

/// The `percent`-th percentile of the samples, in whatever order they are.
pub fn percentile(samples: &Vec<u128>, percent: u8) -> (value: Option<u128>)
    ensures
        value == percentile_of(samples@, percent as nat),
{
    let sorted = sorted_copy(samples);
    proof {
        lemma_ascending(samples@);
    }
    nearest_rank(&sorted, percent)
}

/// The arithmetic mean of the samples as a whole part and a remainder:
/// the mean is `whole + rest / n` for `n` samples. The sum of the samples
/// need not fit in a machine word for this. An empty sample set has no
/// mean.
pub fn mean_parts(samples: &Vec<u128>) -> (parts: Option<(u128, u128)>)
    ensures
        parts is None <==> samples.len() == 0,
        parts matches Some((whole, rest)) ==> {
            &&& whole == total(samples@) / (samples.len() as int)
            &&& rest == total(samples@) % (samples.len() as int)
        },
{
    if samples.len() == 0 {
        None
    } else {
        Some(mean_of(samples))
    }
}

/// Summarizes the samples: count, extremes, mean and the 50th, 95th and
/// 99th percentile. An empty sample set yields `NoSamples` and is never
/// indexed or divided by.
pub fn summarize(samples: &Vec<u128>) -> (summary: Summary)
    ensures
        summary == summary_of(samples@),
        summary is NoSamples <==> samples.len() == 0,
{
    let n = samples.len();
    if n == 0 {
        return Summary::NoSamples;
    }
    let sorted = sorted_copy(samples);
    proof {
        lemma_ascending(samples@);
    }
    let (mean, mean_remainder) = mean_of(samples);
    Summary::Stats(
        RttStats {
            count: n,
            min: sorted[0],
            max: sorted[n - 1],
            mean,
            mean_remainder,
            p50: rank_value(&sorted, 50),
            p95: rank_value(&sorted, 95),
            p99: rank_value(&sorted, 99),
        },
    )
}

/// How many probes of a session were lost.
#[derive(Clone, Copy, Debug, PartialEq, Eq, Structural)]
pub struct LossReport {
    /// Probes sent.
    pub sent: u64,
    /// Samples completed.
    pub received: u64,
    /// Probes sent and never answered.
    pub lost: u64,
    /// Loss rate in parts per million of the probes sent, rounded down.
    pub rate_ppm: u32,
}

/// Parts per million in a whole.
pub const PPM: u64 = 1_000_000;

/// Loss rate in parts per million, rounded down: `lost` out of `sent`
/// probes. With nothing sent, nothing is lost.
pub open spec fn loss_ppm_of(sent: nat, lost: nat) -> nat {
    if sent == 0 {
        0
    } else {
        lost * (PPM as nat) / sent
    }
}

/// The loss report of a session that sent `sent` probes and completed
/// `received` samples, which cannot be more.
pub open spec fn loss_report_of(sent: u64, received: u64) -> Option<LossReport> {
    if received <= sent {
        Some(
            LossReport {
                sent,
                received,
                lost: (sent - received) as u64,
                rate_ppm: loss_ppm_of(sent as nat, (sent - received) as nat) as u32,
            },
        )
    } else {
        None
    }
}

/// The loss report for `received` samples out of `sent` probes.
pub(crate) fn loss_report_within(sent: u64, received: u64) -> (report: LossReport)
    requires
        received <= sent,
    ensures
        Some(report) == loss_report_of(sent, received),
{
    let lost = sent - received;
    proof {
        lemma_loss_ppm_bounded(sent as nat, lost as nat);
    }
    let rate_ppm = if sent == 0 {
        0
    } else {
        ((lost as u128) * (PPM as u128) / (sent as u128)) as u32
    };
    LossReport { sent, received, lost, rate_ppm }
}

/// Loss count and loss rate from the number of probes sent and of samples
/// completed. There is no report for more samples than probes.
pub fn loss_report(sent: u64, received: u64) -> (report: Option<LossReport>)
    ensures
        report == loss_report_of(sent, received),
        report is None <==> received > sent,
{
    if received > sent {
        None
    } else {
        Some(loss_report_within(sent, received))
    }
}

/// Number of samples that fall into bucket `bucket` of a histogram whose
/// buckets are `width` wide: those with `bucket * width <= sample <
/// (bucket + 1) * width`.
pub open spec fn bucket_count(s: Seq<u128>, width: u128, bucket: int) -> nat
    decreases s.len(),
{
    if s.len() == 0 {
        0
    } else {
        bucket_count(s.drop_last(), width, bucket) + if s.last() as int / width as int == bucket {
            1nat
        } else {
            0nat
        }
    }
}

/// Distribution of the samples over `buckets` buckets of `width`
/// microseconds each, starting at zero. Samples beyond the last bucket are
/// left out. There is no histogram for a width of zero.
pub fn histogram(samples: &Vec<u128>, width: u128, buckets: usize) -> (counts: Option<Vec<usize>>)
    ensures
        counts is None <==> width == 0,
        counts matches Some(c) ==> {
            &&& c.len() == buckets
            &&& forall|b: int| 0 <= b < buckets ==> c@[b] == bucket_count(samples@, width, b)
        },
{
    if width == 0 {
        return None;
    }
    let mut counts: Vec<usize> = Vec::new();
    while counts.len() < buckets
        invariant
            counts.len() <= buckets,
            forall|b: int| 0 <= b < counts.len() ==> counts@[b] == 0,
        decreases buckets - counts.len(),
    {
        counts.push(0);
    }
    let mut k: usize = 0;
    assert(samples@.subrange(0, 0) =~= Seq::<u128>::empty());
    while k < samples.len()
        invariant
            width > 0,
            k <= samples.len(),
            counts.len() == buckets,
            forall|b: int|
                0 <= b < buckets ==> counts@[b] == bucket_count(
                    samples@.subrange(0, k as int),
                    width,
                    b,
                ),
        decreases samples.len() - k,
    {
        let ghost seen = samples@.subrange(0, k as int);
        let ghost next = samples@.subrange(0, k as int + 1);
        let ghost before = counts@;
        let bucket = samples[k] / width;
        proof {
            assert(next.drop_last() =~= seen);
            assert(next.last() == samples@[k as int]);
        }
        if bucket < buckets as u128 {
            let slot = bucket as usize;
            proof {
                lemma_bucket_count_bounded(seen, width, slot as int);
            }
            let raised = counts[slot] + 1;
            counts.set(slot, raised);
        }
        k = k + 1;
        assert forall|b: int| 0 <= b < buckets implies counts@[b] == bucket_count(
            samples@.subrange(0, k as int),
            width,
            b,
        ) by {
            assert(before[b] == bucket_count(seen, width, b));
        }
    }
    assert(samples@.subrange(0, k as int) =~= samples@);
    Some(counts)
}

} // verus!
