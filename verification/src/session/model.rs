//! What a session is and does, stated over plain mathematical values: its
//! state, what each event makes of it, and when its books balance.

use crate::pacing::deadline_of;
use crate::pacing::elapsed_between;
use crate::pacing::pace_of;
use crate::session::Effect;
use crate::session::Event;
use crate::session::Probe;
use crate::session::RttSample;
use crate::session::SessionReport;
use crate::stats::loss_report_of;
use crate::stats::summary_of;
use crate::transport::Delivery;
use crate::transport::Fault;
use crate::transport::is_fatal;
use crate::wire::probe_text;
use vstd::prelude::*;

verus! {

/// The state of a session, as the contracts see it.
#[verifier::ext_equal]
pub struct SessionState {
    pub delivery: Delivery,
    pub started_at: u128,
    pub ends_at: u128,
    pub tick_period: u64,
    /// The instant the current tick began.
    pub tick_start: u128,
    /// Probes emitted so far; also the sequence id of the next one.
    pub sent_count: nat,
    /// The correlation table: unanswered probes and when they were sent.
    pub pending: Map<u64, u128>,
    /// Completed measurements, in the order their echoes arrived.
    pub samples: Seq<RttSample>,
    /// Ticks that used up their whole period or more.
    pub overruns: nat,
    /// Once set, no probe is emitted and no sample recorded any more.
    pub finished: bool,
}

/// A session that starts at `started_at` and has done nothing yet.
pub open spec fn initial_state(
    delivery: Delivery,
    tick_period: u64,
    duration: u128,
    started_at: u128,
) -> SessionState {
    SessionState {
        delivery,
        started_at,
        ends_at: deadline_of(started_at, duration),
        tick_period,
        tick_start: started_at,
        sent_count: 0,
        pending: Map::empty(),
        samples: Seq::empty(),
        overruns: 0,
        finished: false,
    }
}

/// The origin timestamp a probe emitted at `now` carries: the microseconds
/// since the session began, capped at the largest the record can hold.
pub open spec fn origin_of(s: SessionState, now: u128) -> u64 {
    let elapsed = elapsed_between(s.started_at, now);
    if elapsed <= u64::MAX {
        elapsed as u64
    } else {
        u64::MAX
    }
}

/// Whether a probe can still be emitted: the session is not over and
/// sequence ids are left.
pub open spec fn can_emit(s: SessionState) -> bool {
    !s.finished && s.sent_count < u64::MAX
}

/// Whether another tick runs at `now`: the deadline has not been reached and
/// a probe can be emitted.
pub open spec fn is_active(s: SessionState, now: u128) -> bool {
    can_emit(s) && now < s.ends_at
}

/// The session after the top of the tick loop was reached at `now`: a new
/// tick begins, or the session is over.
pub open spec fn begin_tick_of(s: SessionState, now: u128) -> SessionState {
    if is_active(s, now) {
        SessionState { tick_start: now, ..s }
    } else {
        SessionState { finished: true, ..s }
    }
}

/// The sample that an echo for `sequence_id` arriving at `now` completes, if
/// that probe is pending and the session is not over.
pub open spec fn sample_of(s: SessionState, sequence_id: u64, now: u128) -> Option<RttSample> {
    if !s.finished && s.pending.contains_key(sequence_id) {
        Some(
            RttSample {
                sequence_id,
                rtt_micros: elapsed_between(s.pending[sequence_id], now) as u128,
            },
        )
    } else {
        None
    }
}

/// The session after an echo for `sequence_id` arrived at `now`: if it
/// completes a sample, the entry leaves the table and the sample is
/// appended; otherwise nothing changes.
pub open spec fn echo_of(s: SessionState, sequence_id: u64, now: u128) -> SessionState {
    match sample_of(s, sequence_id, now) {
        Some(sample) => SessionState {
            pending: s.pending.remove(sequence_id),
            samples: s.samples.push(sample),
            ..s
        },
        None => s,
    }
}

/// The session after a message arrived at `now` in which a sequence id was
/// found, or none was.
pub open spec fn message_of(s: SessionState, decoded: Option<u64>, now: u128) -> SessionState {
    match decoded {
        Some(sequence_id) => echo_of(s, sequence_id, now),
        None => s,
    }
}

/// The session after the probe of this tick was emitted at `now`: the next
/// sequence id is entered in the table with `now`, and counted as sent.
pub open spec fn emit_of(s: SessionState, now: u128) -> SessionState {
    if can_emit(s) {
        SessionState {
            pending: s.pending.insert(s.sent_count as u64, now),
            sent_count: s.sent_count + 1,
            ..s
        }
    } else {
        s
    }
}

/// The session after a send failed: over where that is fatal, which is on a
/// reliable transport, and unchanged on a best-effort one. The probe stays
/// in the table either way.
pub open spec fn send_failure_of(s: SessionState) -> SessionState {
    if is_fatal(s.delivery, Fault::Send) {
        SessionState { finished: true, ..s }
    } else {
        s
    }
}

/// The overrun count after one more overrun; it stops at the largest count.
pub open spec fn next_overruns(overruns: nat) -> nat {
    if overruns < u64::MAX {
        overruns + 1
    } else {
        overruns
    }
}

/// The session after a tick's work was done at `now`: an overrun is
/// counted, a tick within its period leaves no trace.
pub open spec fn end_tick_of(s: SessionState, now: u128) -> SessionState {
    if pace_of(s.tick_start, now, s.tick_period) is Overrun {
        SessionState { overruns: next_overruns(s.overruns), ..s }
    } else {
        s
    }
}

/// The session after it was stopped.
pub open spec fn stop_of(s: SessionState) -> SessionState {
    SessionState { finished: true, ..s }
}

/// The session after `event`.
pub open spec fn apply(s: SessionState, event: Event) -> SessionState {
    match event {
        Event::TickDue { now } => begin_tick_of(s, now),
        Event::Echo { sequence_id, now } => echo_of(s, sequence_id, now),
        Event::ProbeDue { now } => emit_of(s, now),
        Event::SendFailed => send_failure_of(s),
        Event::TickDone { now } => end_tick_of(s, now),
        Event::Stop => stop_of(s),
    }
}

/// The session after a whole history of events, oldest first.
pub open spec fn replay(s: SessionState, events: Seq<Event>) -> SessionState
    decreases events.len(),
{
    if events.len() == 0 {
        s
    } else {
        apply(replay(s, events.drop_last()), events.last())
    }
}

/// Whether `probe` is what emitting at `now` hands out: the probe with the
/// next sequence id, stamped `now`, carrying its record; or nothing, when no
/// probe can be emitted.
pub open spec fn is_probe_of(s: SessionState, now: u128, probe: Option<Probe>) -> bool {
    match probe {
        Some(p) => {
            &&& can_emit(s)
            &&& p.sequence_id == s.sent_count
            &&& p.sent_at == now
            &&& p.payload@ == probe_text(p.sequence_id, origin_of(s, now))
        },
        None => !can_emit(s),
    }
}

/// Whether `effect` is what the caller is told after `event`, given the
/// session before it.
pub open spec fn is_effect_of(s: SessionState, event: Event, effect: Effect) -> bool {
    match event {
        Event::TickDue { now } => effect matches Effect::Tick { active } && active == is_active(
            s,
            now,
        ),
        Event::Echo { sequence_id, now } => effect matches Effect::Matched { sample } && sample
            == sample_of(s, sequence_id, now),
        Event::ProbeDue { now } => effect matches Effect::Emitted { probe } && is_probe_of(
            s,
            now,
            probe,
        ),
        Event::SendFailed => effect matches Effect::SendFailure { fatal } && fatal == is_fatal(
            s.delivery,
            Fault::Send,
        ),
        Event::TickDone { now } => effect matches Effect::Paced { decision } && decision
            == pace_of(s.tick_start, now, s.tick_period),
        Event::Stop => effect is Stopped,
    }
}

/// The round-trip times of the samples, in the same order.
pub open spec fn rtts_of(samples: Seq<RttSample>) -> Seq<u128> {
    samples.map_values(|sample: RttSample| sample.rtt_micros)
}

/// The report of a session in state `s`.
pub open spec fn report_of(s: SessionState) -> SessionReport
    recommends
        inv(s),
{
    SessionReport {
        rtt: summary_of(rtts_of(s.samples)),
        loss: loss_report_of(s.sent_count as u64, s.samples.len() as u64).unwrap(),
        overruns: s.overruns as u64,
    }
}

/// Probes sent and never answered.
pub open spec fn loss_of(s: SessionState) -> int {
    s.sent_count - s.samples.len()
}

/// Whether one of `samples` is for `sequence_id`.
pub open spec fn sampled(samples: Seq<RttSample>, sequence_id: u64) -> bool {
    exists|i: int| 0 <= i < samples.len() && (#[trigger] samples[i]).sequence_id == sequence_id
}

/// Whether a sample for `sequence_id` has been recorded.
pub open spec fn has_sample(s: SessionState, sequence_id: u64) -> bool {
    sampled(s.samples, sequence_id)
}

/// Whether `event` is the arrival of an echo for `id`.
pub open spec fn is_echo_for(event: Event, id: u64) -> bool {
    event matches Event::Echo { sequence_id, .. } && sequence_id == id
}

/// The ids that the echoes among `events` bear.
pub open spec fn echoed_ids(events: Seq<Event>) -> Set<u64> {
    Set::new(|id: u64| exists|k: int| 0 <= k < events.len() && #[trigger] is_echo_for(events[k], id))
}

/// Whether every event is the arrival of an echo.
pub open spec fn only_echoes(events: Seq<Event>) -> bool {
    forall|k: int| 0 <= k < events.len() ==> (#[trigger] events[k]) is Echo
}

/// The books of a session balance: every probe sent is either pending or
/// has exactly one sample, never both, and nothing else is pending or
/// sampled.
pub open spec fn inv(s: SessionState) -> bool {
    &&& s.pending.dom().finite()
    &&& s.sent_count <= u64::MAX
    &&& s.overruns <= u64::MAX
    &&& s.pending.len() + s.samples.len() == s.sent_count
    &&& forall|id: u64| #[trigger] s.pending.contains_key(id) ==> id < s.sent_count
    &&& forall|id: u64|
        id < s.sent_count ==> #[trigger] s.pending.contains_key(id) || sampled(s.samples, id)
    &&& forall|i: int|
        0 <= i < s.samples.len() ==> (#[trigger] s.samples[i]).sequence_id < s.sent_count
    &&& forall|i: int|
        0 <= i < s.samples.len() ==> !s.pending.contains_key(
            (#[trigger] s.samples[i]).sequence_id,
        )
    &&& forall|i: int, j: int|
        0 <= i < j < s.samples.len() ==> (#[trigger] s.samples[i]).sequence_id != (
        #[trigger] s.samples[j]).sequence_id
}

} // verus!
