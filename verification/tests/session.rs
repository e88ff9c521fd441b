use rtt_harness::pacing::Pace;
use rtt_harness::session::Effect;
use rtt_harness::session::Event;
use rtt_harness::session::RttSample;
use rtt_harness::session::Session;
use rtt_harness::stats::LossReport;
use rtt_harness::stats::Summary;
use rtt_harness::transport::Delivery;
use rtt_harness::wire::encode_probe;

const PERIOD_120_HZ: u64 = 8333;

fn best_effort(duration: u128) -> Session {
    Session::with_period(Delivery::BestEffort, PERIOD_120_HZ, duration, 0)
}

#[test]
fn new_session_rejects_zero_rate() {
    assert!(Session::new(Delivery::Reliable, 0, 1_000_000, 0).is_none());
}

#[test]
fn new_session_derives_period_and_deadline() {
    let session = Session::new(Delivery::Reliable, 120, 180_000_000, 5_000).unwrap();
    assert_eq!(session.tick_period(), 8333);
    assert_eq!(session.started_at(), 5_000);
    assert_eq!(session.ends_at(), 180_005_000);
    assert_eq!(session.delivery(), Delivery::Reliable);
    assert_eq!(session.sent_count(), 0);
    assert_eq!(session.received_count(), 0);
    assert_eq!(session.loss_count(), 0);
    assert_eq!(session.overruns(), 0);
    assert!(!session.is_finished());
}

#[test]
fn deadline_saturates_at_largest_instant() {
    let session = Session::with_period(Delivery::Reliable, 1, u128::MAX, 10);
    assert_eq!(session.ends_at(), u128::MAX);
}

#[test]
fn sequence_ids_start_at_zero_and_increase_by_one() {
    let mut session = best_effort(1_000_000);
    for expected in 0..50u64 {
        let probe = session.emit(expected as u128 * 10).unwrap();
        assert_eq!(probe.sequence_id, expected);
        assert_eq!(probe.sent_at, expected as u128 * 10);
        assert!(session.is_pending(expected));
    }
    assert_eq!(session.sent_count(), 50);
}

#[test]
fn probe_payload_carries_id_and_elapsed_time() {
    let mut session = Session::with_period(Delivery::BestEffort, PERIOD_120_HZ, 1_000_000, 1_000);
    session.emit(1_000).unwrap();
    let probe = session.emit(351_000).unwrap();
    assert_eq!(probe.payload, b"{\"tick\":1,\"timestamp\":350000}".to_vec());
    assert_eq!(probe.payload, encode_probe(1, 350_000));
}

#[test]
fn probe_is_pending_before_it_is_handed_out() {
    let mut session = best_effort(1_000_000);
    let probe = session.emit(7).unwrap();
    // An echo that arrives at the very instant of sending is still matched.
    let sample = session.on_echo(probe.sequence_id, 7).unwrap();
    assert_eq!(sample, RttSample { sequence_id: 0, rtt_micros: 0 });
}

#[test]
fn echo_records_round_trip_time_on_local_clock() {
    let mut session = best_effort(1_000_000);
    session.emit(1_000).unwrap();
    let sample = session.on_echo(0, 1_450).unwrap();
    assert_eq!(sample, RttSample { sequence_id: 0, rtt_micros: 450 });
    assert_eq!(session.samples(), &vec![RttSample { sequence_id: 0, rtt_micros: 450 }]);
    assert_eq!(session.rtts(), vec![450]);
    assert!(!session.is_pending(0));
}

#[test]
fn echo_before_send_instant_measures_zero() {
    let mut session = best_effort(1_000_000);
    session.emit(1_000).unwrap();
    let sample = session.on_echo(0, 900).unwrap();
    assert_eq!(sample.rtt_micros, 0);
}

#[test]
fn duplicate_echo_records_one_sample() {
    let mut session = best_effort(1_000_000);
    for tick in 0..6u128 {
        session.emit(tick * 100).unwrap();
    }
    let first = session.on_echo(5, 700);
    let second = session.on_echo(5, 900);
    assert_eq!(first, Some(RttSample { sequence_id: 5, rtt_micros: 200 }));
    assert_eq!(second, None);
    assert_eq!(session.received_count(), 1);
    assert_eq!(session.samples().len(), 1);
}

#[test]
fn echo_for_unsent_id_is_ignored() {
    let mut session = best_effort(1_000_000);
    session.emit(0).unwrap();
    assert_eq!(session.on_echo(1, 10), None);
    assert_eq!(session.on_echo(u64::MAX, 10), None);
    assert_eq!(session.received_count(), 0);
    assert_eq!(session.loss_count(), 1);
    assert!(session.is_pending(0));
}

#[test]
fn out_of_order_and_duplicate_echoes_yield_three_samples() {
    let mut session = best_effort(1_000_000);
    for tick in 0..4u128 {
        session.emit(tick * 1_000).unwrap();
    }
    let mut matched = Vec::new();
    for (id, now) in [(3u64, 5_000u128), (1, 5_100), (2, 5_200), (1, 5_300)] {
        if let Some(sample) = session.on_echo(id, now) {
            matched.push(sample);
        }
    }
    assert_eq!(
        matched,
        vec![
            RttSample { sequence_id: 3, rtt_micros: 2_000 },
            RttSample { sequence_id: 1, rtt_micros: 4_100 },
            RttSample { sequence_id: 2, rtt_micros: 3_200 },
        ]
    );
    assert_eq!(session.received_count(), 3);
    let mut ids: Vec<u64> = session.samples().iter().map(|s| s.sequence_id).collect();
    ids.sort_unstable();
    assert_eq!(ids, vec![1, 2, 3]);
    assert!(session.is_pending(0));
}

#[test]
fn dropped_probe_counts_as_loss() {
    let mut session = best_effort(1_000_000);
    let mut now: u128 = 0;
    let mut in_flight: Vec<Vec<u8>> = Vec::new();
    for _ in 0..10 {
        assert!(session.begin_tick(now));
        for payload in in_flight.drain(..) {
            session.on_message(&payload, now);
        }
        let probe = session.emit(now).unwrap();
        if probe.sequence_id != 4 {
            in_flight.push(probe.payload);
        }
        match session.end_tick(now) {
            Pace::Sleep { micros } => now += micros as u128,
            Pace::Overrun { .. } => panic!("no work was done in this tick"),
        }
    }
    for payload in in_flight.drain(..) {
        session.on_message(&payload, now);
    }
    assert_eq!(session.sent_count(), 10);
    assert_eq!(session.received_count(), 9);
    assert_eq!(session.loss_count(), 1);
    let loss = session.loss();
    assert_eq!(loss, LossReport { sent: 10, received: 9, lost: 1, rate_ppm: 100_000 });
    assert_eq!(loss.lost as f64 / loss.sent as f64, 0.10);
    assert!(session.is_pending(4));
}

#[test]
fn hundred_ticks_at_120_hz_take_hundred_periods() {
    let mut session = Session::new(Delivery::BestEffort, 120, 10_000_000, 0).unwrap();
    let mut clock: u128 = 0;
    for _ in 0..100 {
        assert!(session.begin_tick(clock));
        session.emit(clock).unwrap();
        match session.end_tick(clock) {
            Pace::Sleep { micros } => clock += micros as u128,
            Pace::Overrun { .. } => panic!("a tick without work cannot overrun"),
        }
    }
    assert_eq!(clock, 100 * 8333);
    assert_eq!(session.overruns(), 0);
    assert_eq!(session.sent_count(), 100);
}

#[test]
fn pacing_compensates_for_work_done() {
    let mut session = best_effort(10_000_000);
    let mut clock: u128 = 0;
    for work in [0u128, 1_000, 8_332, 4_000] {
        assert!(session.begin_tick(clock));
        clock += work;
        match session.end_tick(clock) {
            Pace::Sleep { micros } => clock += micros as u128,
            Pace::Overrun { .. } => panic!("work fits the period"),
        }
    }
    assert_eq!(clock, 4 * 8333);
}

#[test]
fn overrun_is_counted_and_not_fatal() {
    let mut session = best_effort(10_000_000);
    assert!(session.begin_tick(0));
    assert_eq!(session.end_tick(8_333), Pace::Overrun { excess_micros: 0 });
    assert!(session.begin_tick(8_333));
    assert_eq!(session.end_tick(20_000), Pace::Overrun { excess_micros: 3_334 });
    assert_eq!(session.overruns(), 2);
    assert!(!session.is_finished());
    assert!(session.begin_tick(20_000));
}

#[test]
fn session_ends_at_deadline() {
    let mut session = best_effort(1_000);
    assert!(session.begin_tick(0));
    assert!(session.begin_tick(999));
    assert!(!session.is_finished());
    assert!(!session.begin_tick(1_000));
    assert!(session.is_finished());
    assert!(!session.begin_tick(0));
    assert!(session.emit(0).is_none());
}

#[test]
fn finished_session_records_no_late_echo() {
    let mut session = best_effort(1_000);
    session.emit(0).unwrap();
    assert!(!session.begin_tick(2_000));
    assert_eq!(session.on_echo(0, 2_100), None);
    assert_eq!(session.received_count(), 0);
    assert_eq!(session.loss_count(), 1);
}

#[test]
fn send_failure_is_fatal_on_reliable_transport() {
    let mut session = Session::with_period(Delivery::Reliable, PERIOD_120_HZ, 1_000_000, 0);
    session.emit(0).unwrap();
    session.on_echo(0, 100).unwrap();
    session.emit(10).unwrap();
    assert!(session.on_send_error());
    assert!(session.is_finished());
    // The probe that could not be sent stays in the table and counts as lost.
    assert!(session.is_pending(1));
    assert_eq!(session.loss_count(), 1);
    // Partial results are still summarized.
    match session.summary() {
        Summary::Stats(stats) => assert_eq!(stats.count, 1),
        Summary::NoSamples => panic!("one sample was recorded"),
    }
}

#[test]
fn send_failure_is_contained_on_best_effort_transport() {
    let mut session = best_effort(1_000_000);
    session.emit(0).unwrap();
    assert!(!session.on_send_error());
    assert!(!session.is_finished());
    assert!(session.is_pending(0));
    assert!(session.begin_tick(10));
    assert_eq!(session.emit(10).unwrap().sequence_id, 1);
}

#[test]
fn stop_freezes_the_session() {
    let mut session = best_effort(1_000_000);
    session.emit(0).unwrap();
    session.stop();
    assert!(session.is_finished());
    assert!(session.emit(1).is_none());
    assert_eq!(session.on_echo(0, 5), None);
    assert_eq!(session.sent_count(), 1);
}

#[test]
fn undecodable_message_is_ignored() {
    let mut session = best_effort(1_000_000);
    session.emit(0).unwrap();
    assert_eq!(session.on_message(b"not json", 10), None);
    assert_eq!(session.on_message(b"{\"timestamp\":3}", 10), None);
    assert_eq!(session.on_message(b"{\"tick\":\"0\"}", 10), None);
    assert_eq!(session.on_message(&[0xff, 0xfe], 10), None);
    assert!(session.is_pending(0));
    assert_eq!(
        session.on_message(b"{\"tick\":0,\"timestamp\":0}", 25),
        Some(RttSample { sequence_id: 0, rtt_micros: 25 })
    );
}

#[test]
fn message_in_other_json_spelling_is_matched() {
    let mut session = best_effort(1_000_000);
    session.emit(0).unwrap();
    session.emit(1).unwrap();
    let reply = b" { \"timestamp\" : 12 ,\n \"tick\" : 1 } ";
    assert_eq!(
        session.on_message(reply, 101),
        Some(RttSample { sequence_id: 1, rtt_micros: 100 })
    );
}

#[test]
fn samples_never_exceed_probes_sent() {
    let mut session = best_effort(1_000_000);
    let mut now: u128 = 0;
    // A fixed, scrambled schedule of emits and echoes, with duplicates and
    // echoes for ids that were not sent yet.
    for round in 0..200u64 {
        now += 7;
        if round % 3 != 2 {
            session.emit(now);
        }
        let id = (round * 37 + 11) % 150;
        session.on_echo(id, now + 3);
        session.on_echo(id / 2, now + 4);
        assert!(session.received_count() as u64 <= session.sent_count());
        assert_eq!(
            session.loss_count(),
            session.sent_count() - session.received_count() as u64
        );
    }
    let mut ids: Vec<u64> = session.samples().iter().map(|s| s.sequence_id).collect();
    let recorded = ids.len();
    ids.sort_unstable();
    ids.dedup();
    assert_eq!(ids.len(), recorded);
}

#[test]
fn summary_of_session_without_samples_is_no_samples() {
    let mut session = best_effort(1_000_000);
    assert_eq!(session.summary(), Summary::NoSamples);
    session.emit(0).unwrap();
    assert_eq!(session.summary(), Summary::NoSamples);
    assert_eq!(
        session.loss(),
        LossReport { sent: 1, received: 0, lost: 1, rate_ppm: 1_000_000 }
    );
}

#[test]
fn step_drives_a_whole_tick() {
    let mut session = best_effort(1_000_000);
    match session.step(Event::TickDue { now: 0 }) {
        Effect::Tick { active } => assert!(active),
        _ => panic!("a tick was due"),
    }
    let probe = match session.step(Event::ProbeDue { now: 10 }) {
        Effect::Emitted { probe: Some(probe) } => probe,
        _ => panic!("a probe was due"),
    };
    assert_eq!(probe.sequence_id, 0);
    match session.step(Event::SendFailed) {
        Effect::SendFailure { fatal } => assert!(!fatal),
        _ => panic!("a send failed"),
    }
    match session.step(Event::TickDone { now: 100 }) {
        Effect::Paced { decision } => assert_eq!(decision, Pace::Sleep { micros: 8233 }),
        _ => panic!("a tick was done"),
    }
    match session.step(Event::Echo { sequence_id: 0, now: 500 }) {
        Effect::Matched { sample } => {
            assert_eq!(sample, Some(RttSample { sequence_id: 0, rtt_micros: 490 }))
        }
        _ => panic!("an echo arrived"),
    }
    match session.step(Event::Stop) {
        Effect::Stopped => {}
        _ => panic!("the session was stopped"),
    }
    match session.step(Event::TickDue { now: 600 }) {
        Effect::Tick { active } => assert!(!active),
        _ => panic!("a tick was due"),
    }
}

#[test]
fn report_bundles_statistics_loss_and_overruns() {
    let mut session = best_effort(10_000_000);
    session.begin_tick(0);
    for tick in 0..5u128 {
        session.emit(tick * 10).unwrap();
    }
    for (id, now) in [(0u64, 100u128), (1, 210), (2, 320), (3, 430)] {
        session.on_echo(id, now).unwrap();
    }
    session.end_tick(9_000);
    let report = session.report();
    assert_eq!(
        report.loss,
        LossReport { sent: 5, received: 4, lost: 1, rate_ppm: 200_000 }
    );
    assert_eq!(report.overruns, 1);
    match report.rtt {
        Summary::Stats(stats) => {
            assert_eq!(stats.count, 4);
            assert_eq!(stats.min, 100);
            assert_eq!(stats.max, 400);
            assert_eq!(stats.mean, 250);
            assert_eq!(stats.mean_remainder, 0);
            assert_eq!(stats.p50, 300);
            assert_eq!(stats.p95, 400);
            assert_eq!(stats.p99, 400);
        }
        Summary::NoSamples => panic!("four samples were recorded"),
    }
}
