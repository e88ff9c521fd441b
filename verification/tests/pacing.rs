use rtt_harness::pacing::elapsed_micros;
use rtt_harness::pacing::pace;
use rtt_harness::pacing::session_deadline;
use rtt_harness::pacing::tick_period_micros;
use rtt_harness::pacing::Pace;
use rtt_harness::transport::fault_is_fatal;
use rtt_harness::transport::Delivery;
use rtt_harness::transport::Fault;

#[test]
fn period_is_a_million_over_the_rate_rounded_down() {
    assert_eq!(tick_period_micros(120), Some(8333));
    assert_eq!(tick_period_micros(128), Some(7812));
    assert_eq!(tick_period_micros(30), Some(33333));
    assert_eq!(tick_period_micros(32), Some(31250));
    assert_eq!(tick_period_micros(1), Some(1_000_000));
    assert_eq!(tick_period_micros(1_000_000), Some(1));
    assert_eq!(tick_period_micros(1_000_001), Some(0));
    assert_eq!(tick_period_micros(u32::MAX), Some(0));
}

#[test]
fn rate_of_zero_has_no_period() {
    assert_eq!(tick_period_micros(0), None);
}

#[test]
fn elapsed_is_the_difference_or_zero() {
    assert_eq!(elapsed_micros(100, 350), 250);
    assert_eq!(elapsed_micros(100, 100), 0);
    assert_eq!(elapsed_micros(100, 99), 0);
    assert_eq!(elapsed_micros(0, u128::MAX), u128::MAX);
}

#[test]
fn deadline_is_start_plus_duration() {
    assert_eq!(session_deadline(1_000, 180_000_000), 180_001_000);
    assert_eq!(session_deadline(0, 0), 0);
    assert_eq!(session_deadline(u128::MAX - 5, 5), u128::MAX);
    assert_eq!(session_deadline(u128::MAX - 5, 6), u128::MAX);
    assert_eq!(session_deadline(u128::MAX, u128::MAX), u128::MAX);
}

#[test]
fn early_tick_sleeps_off_the_rest() {
    assert_eq!(pace(0, 0, 8333), Pace::Sleep { micros: 8333 });
    assert_eq!(pace(1_000, 1_333, 8333), Pace::Sleep { micros: 8000 });
    assert_eq!(pace(1_000, 9_332, 8333), Pace::Sleep { micros: 1 });
}

#[test]
fn late_tick_reports_the_overrun() {
    assert_eq!(pace(1_000, 9_333, 8333), Pace::Overrun { excess_micros: 0 });
    assert_eq!(pace(1_000, 10_000, 8333), Pace::Overrun { excess_micros: 667 });
    assert_eq!(pace(0, 5, 0), Pace::Overrun { excess_micros: 5 });
    assert_eq!(pace(0, 0, 0), Pace::Overrun { excess_micros: 0 });
}

#[test]
fn clock_that_reads_early_sleeps_a_whole_period() {
    assert_eq!(pace(1_000, 900, 8333), Pace::Sleep { micros: 8333 });
}

#[test]
fn only_connect_and_reliable_send_failures_are_fatal() {
    assert!(fault_is_fatal(Delivery::Reliable, Fault::Connect));
    assert!(fault_is_fatal(Delivery::BestEffort, Fault::Connect));
    assert!(fault_is_fatal(Delivery::Reliable, Fault::Send));
    assert!(!fault_is_fatal(Delivery::BestEffort, Fault::Send));
    assert!(!fault_is_fatal(Delivery::Reliable, Fault::Decode));
    assert!(!fault_is_fatal(Delivery::BestEffort, Fault::Decode));
}
