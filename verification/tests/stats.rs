use rtt_harness::stats::histogram;
use rtt_harness::stats::loss_report;
use rtt_harness::stats::mean_parts;
use rtt_harness::stats::nearest_rank;
use rtt_harness::stats::percentile;
use rtt_harness::stats::order::sorted_copy;
use rtt_harness::stats::summarize;
use rtt_harness::stats::LossReport;
use rtt_harness::stats::RttStats;
use rtt_harness::stats::Summary;

#[test]
fn percentiles_of_known_sample_set() {
    let samples = vec![100u128, 200, 300, 400, 500];
    let stats = match summarize(&samples) {
        Summary::Stats(stats) => stats,
        Summary::NoSamples => panic!("five samples were given"),
    };
    assert_eq!(stats.count, 5);
    assert_eq!(stats.p50, 300);
    assert_eq!(stats.p95, 500);
    assert_eq!(stats.p99, 500);
    assert_eq!(stats.mean, 300);
    assert_eq!(stats.mean_remainder, 0);
    assert_eq!(stats.min, 100);
    assert_eq!(stats.max, 500);
    let avg = stats.mean as f64 + stats.mean_remainder as f64 / stats.count as f64;
    assert_eq!(avg, 300.0);
}

#[test]
fn summary_does_not_depend_on_arrival_order() {
    let shuffled = vec![400u128, 100, 500, 300, 200];
    assert_eq!(
        summarize(&shuffled),
        Summary::Stats(RttStats {
            count: 5,
            min: 100,
            max: 500,
            mean: 300,
            mean_remainder: 0,
            p50: 300,
            p95: 500,
            p99: 500,
        })
    );
    assert_eq!(shuffled, vec![400, 100, 500, 300, 200]);
}

#[test]
fn empty_sample_set_has_no_statistics() {
    let none: Vec<u128> = Vec::new();
    assert_eq!(summarize(&none), Summary::NoSamples);
    assert_eq!(mean_parts(&none), None);
    assert_eq!(percentile(&none, 50), None);
    assert_eq!(nearest_rank(&none, 0), None);
    assert_eq!(sorted_copy(&none), Vec::<u128>::new());
}

#[test]
fn single_sample_is_every_statistic() {
    assert_eq!(
        summarize(&vec![77u128]),
        Summary::Stats(RttStats {
            count: 1,
            min: 77,
            max: 77,
            mean: 77,
            mean_remainder: 0,
            p50: 77,
            p95: 77,
            p99: 77,
        })
    );
}

#[test]
fn percentile_is_nearest_rank_without_interpolation() {
    let samples: Vec<u128> = (1..=10u128).map(|k| k * 10).collect();
    // floor(10 * p / 100) indexes the ascending samples.
    assert_eq!(percentile(&samples, 0), Some(10));
    assert_eq!(percentile(&samples, 9), Some(10));
    assert_eq!(percentile(&samples, 10), Some(20));
    assert_eq!(percentile(&samples, 50), Some(60));
    assert_eq!(percentile(&samples, 95), Some(100));
    assert_eq!(percentile(&samples, 99), Some(100));
    let pair = vec![5u128, 1];
    assert_eq!(percentile(&pair, 49), Some(1));
    assert_eq!(percentile(&pair, 50), Some(5));
}

#[test]
fn percentile_of_hundred_or_more_does_not_exist() {
    let samples = vec![1u128, 2, 3];
    assert_eq!(percentile(&samples, 100), None);
    assert_eq!(percentile(&samples, 255), None);
    assert_eq!(nearest_rank(&samples, 100), None);
    assert_eq!(nearest_rank(&samples, 99), Some(3));
}

#[test]
fn sorted_copy_orders_and_keeps_duplicates() {
    let samples = vec![5u128, 3, 5, 1, 0, 3, u128::MAX, 2];
    assert_eq!(sorted_copy(&samples), vec![0, 1, 2, 3, 3, 5, 5, u128::MAX]);
    let mut expected: Vec<u128> = (0..1000u128).map(|k| (k * 7919) % 1009).collect();
    let sorted = sorted_copy(&expected);
    expected.sort_unstable();
    assert_eq!(sorted, expected);
}

#[test]
fn mean_keeps_the_remainder() {
    assert_eq!(mean_parts(&vec![1u128, 2]), Some((1, 1)));
    assert_eq!(mean_parts(&vec![10u128, 20, 31]), Some((20, 1)));
    assert_eq!(mean_parts(&vec![0u128, 0, 0]), Some((0, 0)));
    assert_eq!(mean_parts(&vec![2u128, 2, 3]), Some((2, 1)));
}

#[test]
fn mean_of_huge_samples_does_not_overflow() {
    assert_eq!(mean_parts(&vec![u128::MAX, u128::MAX]), Some((u128::MAX, 0)));
    assert_eq!(mean_parts(&vec![u128::MAX, u128::MAX - 1]), Some((u128::MAX - 1, 1)));
    assert_eq!(mean_parts(&vec![u128::MAX, 0, 0]), Some((u128::MAX / 3, 0)));
    assert_eq!(mean_parts(&vec![u128::MAX, 1, 1]), Some((u128::MAX / 3, 2)));
}

#[test]
fn loss_is_sent_less_received() {
    assert_eq!(
        loss_report(10, 9),
        Some(LossReport { sent: 10, received: 9, lost: 1, rate_ppm: 100_000 })
    );
    assert_eq!(
        loss_report(3, 2),
        Some(LossReport { sent: 3, received: 2, lost: 1, rate_ppm: 333_333 })
    );
    assert_eq!(
        loss_report(7, 7),
        Some(LossReport { sent: 7, received: 7, lost: 0, rate_ppm: 0 })
    );
    assert_eq!(
        loss_report(7, 0),
        Some(LossReport { sent: 7, received: 0, lost: 7, rate_ppm: 1_000_000 })
    );
    assert_eq!(
        loss_report(u64::MAX, 1),
        Some(LossReport { sent: u64::MAX, received: 1, lost: u64::MAX - 1, rate_ppm: 999_999 })
    );
}

#[test]
fn nothing_sent_means_nothing_lost() {
    assert_eq!(
        loss_report(0, 0),
        Some(LossReport { sent: 0, received: 0, lost: 0, rate_ppm: 0 })
    );
}

#[test]
fn more_samples_than_probes_has_no_loss_report() {
    assert_eq!(loss_report(9, 10), None);
    assert_eq!(loss_report(0, 1), None);
}

#[test]
fn histogram_counts_samples_per_millisecond() {
    let samples = vec![0u128, 999, 1_000, 1_500, 2_999, 99_999, 100_000, 5_000_000];
    let counts = histogram(&samples, 1_000, 100).unwrap();
    assert_eq!(counts.len(), 100);
    assert_eq!(counts[0], 2);
    assert_eq!(counts[1], 2);
    assert_eq!(counts[2], 1);
    assert_eq!(counts[99], 1);
    assert_eq!(counts.iter().sum::<usize>(), 6);
}

#[test]
fn histogram_needs_a_bucket_width() {
    assert_eq!(histogram(&vec![1u128, 2], 0, 10), None);
    assert_eq!(histogram(&vec![1u128, 2], 1, 0), Some(Vec::new()));
    assert_eq!(histogram(&Vec::new(), 10, 3), Some(vec![0, 0, 0]));
}
