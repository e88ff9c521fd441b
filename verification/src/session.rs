//! The probing side of a measurement: one session of fixed-rate ticks.
//!
//! Every tick drains the echoes that have arrived, emits one new probe and
//! paces itself to the tick period. The session decides and keeps the books;
//! the caller owns the clock and the transport, and reports what happened:
//!
//! 1. `begin_tick` at the top of the loop, until it says the session is over;
//! 2. `on_message` (or `on_echo`) for every message the transport hands out;
//! 3. `emit` for the probe of this tick, which is entered in the correlation
//!    table before the caller gets to send it;
//! 4. `on_send_error` if the send failed;
//! 5. `end_tick` for the sleep that fills the rest of the period.
//!
//! All instants are microseconds on the caller's monotonic clock.

pub mod laws;
pub mod model;

use crate::correlator::Correlator;
use crate::pacing::Pace;
use crate::pacing::elapsed_micros;
use crate::pacing::pace;
use crate::pacing::pace_of;
use crate::pacing::period_of;
use crate::pacing::session_deadline;
use crate::pacing::tick_period_micros;
use crate::session::laws::lemma_echo_keeps_inv;
use crate::session::laws::lemma_emit_keeps_inv;
use crate::session::laws::lemma_initial_inv;
use crate::session::model::SessionState;
use crate::session::model::apply;
use crate::session::model::begin_tick_of;
use crate::session::model::echo_of;
use crate::session::model::emit_of;
use crate::session::model::end_tick_of;
use crate::session::model::initial_state;
use crate::session::model::inv;
use crate::session::model::is_active;
use crate::session::model::is_effect_of;
use crate::session::model::is_probe_of;
use crate::session::model::loss_of;
use crate::session::model::message_of;
use crate::session::model::report_of;
use crate::session::model::rtts_of;
use crate::session::model::sample_of;
use crate::session::model::send_failure_of;
use crate::session::model::stop_of;
use crate::stats::LossReport;
use crate::stats::Summary;
use crate::stats::loss_report_of;
use crate::stats::loss_report_within;
use crate::stats::summarize;
use crate::stats::summary_of;
use crate::transport::Delivery;
use crate::transport::Fault;
use crate::transport::fault_is_fatal;
use crate::transport::is_fatal;
use crate::wire::decode_sequence_id;
use crate::wire::encode_probe;
use crate::wire::sequence_id_in;
use vstd::prelude::*;

verus! {

/// One completed measurement: the probe `sequence_id` came back
/// `rtt_micros` microseconds after it was sent.
#[derive(Clone, Copy, Debug, PartialEq, Eq, Structural)]
pub struct RttSample {
    pub sequence_id: u64,
    pub rtt_micros: u128,
}

/// One outbound probe, ready to be sent.
#[derive(Clone, Debug, PartialEq, Eq)]
pub struct Probe {
    pub sequence_id: u64,
    /// The instant the probe was entered in the correlation table.
    pub sent_at: u128,
    /// The record to put on the wire.
    pub payload: Vec<u8>,
}

/// What a session has to show for itself: the statistics of its samples,
/// its loss, and how often a tick overran.
#[derive(Clone, Copy, Debug, PartialEq, Eq, Structural)]
pub struct SessionReport {
    pub rtt: Summary,
    pub loss: LossReport,
    pub overruns: u64,
}

/// What can happen to a session.
pub enum Event {
    /// The top of the tick loop was reached at `now`.
    TickDue { now: u128 },
    /// An echo bearing `sequence_id` arrived at `now`.
    Echo { sequence_id: u64, now: u128 },
    /// It is time to emit this tick's probe.
    ProbeDue { now: u128 },
    /// The transport failed to send the probe just emitted.
    SendFailed,
    /// The tick's work was done at `now`.
    TickDone { now: u128 },
    /// The transport reported a terminal error.
    Stop,
}

/// What the caller is to do after an event.
pub enum Effect {
    /// Answer to `TickDue`: whether another tick is to run.
    Tick { active: bool },
    /// Answer to `Echo`: the sample recorded, if the echo matched.
    Matched { sample: Option<RttSample> },
    /// Answer to `ProbeDue`: the probe to send, unless the session is over.
    Emitted { probe: Option<Probe> },
    /// Answer to `SendFailed`: whether the session ended over it.
    SendFailure { fatal: bool },
    /// Answer to `TickDone`: how to fill the rest of the period.
    Paced { decision: Pace },
    /// Answer to `Stop`.
    Stopped,
}

/// One probing session. Its view is the `SessionState` the contracts speak
/// of.
pub struct Session {
    delivery: Delivery,
    started_at: u128,
    ends_at: u128,
    tick_period: u64,
    tick_start: u128,
    next_id: u64,
    table: Correlator,
    samples: Vec<RttSample>,
    overruns: u64,
    finished: bool,
}

impl View for Session {
    type V = SessionState;

    closed spec fn view(&self) -> SessionState {
        SessionState {
            delivery: self.delivery,
            started_at: self.started_at,
            ends_at: self.ends_at,
            tick_period: self.tick_period,
            tick_start: self.tick_start,
            sent_count: self.next_id as nat,
            pending: self.table@,
            samples: self.samples@,
            overruns: self.overruns as nat,
            finished: self.finished,
        }
    }
}

impl Session {
    /// The session's books balance.
    pub open spec fn wf(&self) -> bool {
        inv(self@)
    }

    /// A session on a transport with the given delivery that starts at `now`,
    /// lasts `duration` microseconds and ticks every `tick_period`
    /// microseconds.
    pub fn with_period(delivery: Delivery, tick_period: u64, duration: u128, now: u128) -> (session:
        Self)
        ensures
            session.wf(),
            session@ == initial_state(delivery, tick_period, duration, now),
    {
        let session = Session {
            delivery,
            started_at: now,
            ends_at: session_deadline(now, duration),
            tick_period,
            tick_start: now,
            next_id: 0,
            table: Correlator::new(),
            samples: Vec::new(),
            overruns: 0,
            finished: false,
        };
        proof {
            lemma_initial_inv(delivery, tick_period, duration, now);
            assert(session@ =~= initial_state(delivery, tick_period, duration, now));
        }
        session
    }

    /// A session that ticks `rate` times per second. There is none for a
    /// rate of zero.
    pub fn new(delivery: Delivery, rate: u32, duration: u128, now: u128) -> (session: Option<Self>)
        ensures
            session is None <==> rate == 0,
            session matches Some(s) ==> s.wf() && s@ == initial_state(
                delivery,
                period_of(rate) as u64,
                duration,
                now,
            ),
    {
        match tick_period_micros(rate) {
            Some(tick_period) => Some(Session::with_period(delivery, tick_period, duration, now)),
            None => None,
        }
    }

    /// The top of the tick loop: begins a new tick at `now` and says so, or
    /// ends the session if the deadline has been reached or no probe can be
    /// emitted any more.
    pub fn begin_tick(&mut self, now: u128) -> (active: bool)
        requires
            old(self).wf(),
        ensures
            final(self).wf(),
            final(self)@ == begin_tick_of(old(self)@, now),
            active == is_active(old(self)@, now),
    {
        if !self.finished && self.next_id < u64::MAX && now < self.ends_at {
            self.tick_start = now;
            assert(self@ =~= begin_tick_of(old(self)@, now));
            true
        } else {
            self.finished = true;
            assert(self@ =~= begin_tick_of(old(self)@, now));
            false
        }
    }

    /// An echo bearing `sequence_id` arrived at `now`.
    ///
    /// The first echo for a pending probe removes it from the table and
    /// records its round-trip time, measured on the local clock alone. An
    /// echo for an id that is not pending (never sent, already answered) is
    /// ignored, and so is any echo once the session is over.
    pub fn on_echo(&mut self, sequence_id: u64, now: u128) -> (sample: Option<RttSample>)
        requires
            old(self).wf(),
        ensures
            final(self).wf(),
            final(self)@ == echo_of(old(self)@, sequence_id, now),
            sample == sample_of(old(self)@, sequence_id, now),
    {
        if self.finished {
            return None;
        }
        match self.table.match_received(sequence_id) {
            Some(sent_at) => {
                let sample = RttSample { sequence_id, rtt_micros: elapsed_micros(sent_at, now) };
                self.samples.push(sample);
                proof {
                    lemma_echo_keeps_inv(old(self)@, sequence_id, now);
                    assert(self@ =~= echo_of(old(self)@, sequence_id, now));
                }
                Some(sample)
            },
            None => {
                assert(self.table@ =~= old(self).table@);
                assert(self@ =~= old(self)@);
                None
            },
        }
    }

    /// A message arrived at `now`. If a sequence id is found in it, the
    /// message is the echo for that id; if not, it is ignored.
    pub fn on_message(&mut self, payload: &[u8], now: u128) -> (sample: Option<RttSample>)
        requires
            old(self).wf(),
        ensures
            final(self).wf(),
            final(self)@ == message_of(old(self)@, sequence_id_in(payload@), now),
            sample == match sequence_id_in(payload@) {
                Some(sequence_id) => sample_of(old(self)@, sequence_id, now),
                None => None,
            },
    {
        match decode_sequence_id(payload) {
            Some(sequence_id) => self.on_echo(sequence_id, now),
            None => None,
        }
    }

    /// Emits the probe of this tick at `now`.
    ///
    /// The probe gets the next sequence id and is entered in the correlation
    /// table before it is handed out, so that its echo cannot arrive
    /// unexpected. Its record carries the id and the microseconds since the
    /// session began. No probe is emitted once the session is over or the
    /// sequence ids are used up.
    pub fn emit(&mut self, now: u128) -> (probe: Option<Probe>)
        requires
            old(self).wf(),
        ensures
            final(self).wf(),
            final(self)@ == emit_of(old(self)@, now),
            is_probe_of(old(self)@, now, probe),
    {
        if self.finished || self.next_id == u64::MAX {
            return None;
        }
        let sequence_id = self.next_id;
        let elapsed = elapsed_micros(self.started_at, now);
        let origin = if elapsed <= u64::MAX as u128 {
            elapsed as u64
        } else {
            u64::MAX
        };
        self.table.record_sent(sequence_id, now);
        self.next_id = sequence_id + 1;
        proof {
            lemma_emit_keeps_inv(old(self)@, now);
            assert(self@ =~= emit_of(old(self)@, now));
        }
        Some(Probe { sequence_id, sent_at: now, payload: encode_probe(sequence_id, origin) })
    }

    /// The probe just emitted could not be sent. It stays in the table and
    /// will count as lost. On a reliable transport the session is over;
    /// on a best-effort one it goes on with the next tick. Returns whether
    /// the failure was fatal.
    pub fn on_send_error(&mut self) -> (fatal: bool)
        requires
            old(self).wf(),
        ensures
            final(self).wf(),
            final(self)@ == send_failure_of(old(self)@),
            fatal == is_fatal(old(self)@.delivery, Fault::Send),
    {
        let fatal = fault_is_fatal(self.delivery, Fault::Send);
        if fatal {
            self.finished = true;
            assert(self@ =~= send_failure_of(old(self)@));
        }
        fatal
    }

    /// The work of the current tick was done at `now`: says how long to
    /// sleep to fill the tick period, or that the tick overran it, which is
    /// counted and otherwise harmless.
    pub fn end_tick(&mut self, now: u128) -> (decision: Pace)
        requires
            old(self).wf(),
        ensures
            final(self).wf(),
            final(self)@ == end_tick_of(old(self)@, now),
            decision == pace_of(old(self)@.tick_start, now, old(self)@.tick_period),
    {
        let decision = pace(self.tick_start, now, self.tick_period);
        match decision {
            Pace::Overrun { .. } => {
                if self.overruns < u64::MAX {
                    self.overruns = self.overruns + 1;
                }
                assert(self@ =~= end_tick_of(old(self)@, now));
            },
            Pace::Sleep { .. } => {},
        }
        decision
    }

    /// Ends the session: from now on no probe is emitted and no sample
    /// recorded.
    pub fn stop(&mut self)
        requires
            old(self).wf(),
        ensures
            final(self).wf(),
            final(self)@ == stop_of(old(self)@),
    {
        self.finished = true;
        assert(self@ =~= stop_of(old(self)@));
    }

    /// Hands the session one event and returns what the caller is to do.
    pub fn step(&mut self, event: Event) -> (effect: Effect)
        requires
            old(self).wf(),
        ensures
            final(self).wf(),
            final(self)@ == apply(old(self)@, event),
            is_effect_of(old(self)@, event, effect),
    {
        match event {
            Event::TickDue { now } => Effect::Tick { active: self.begin_tick(now) },
            Event::Echo { sequence_id, now } => Effect::Matched {
                sample: self.on_echo(sequence_id, now),
            },
            Event::ProbeDue { now } => Effect::Emitted { probe: self.emit(now) },
            Event::SendFailed => Effect::SendFailure { fatal: self.on_send_error() },
            Event::TickDone { now } => Effect::Paced { decision: self.end_tick(now) },
            Event::Stop => {
                self.stop();
                Effect::Stopped
            },
        }
    }

    /// Whether the session is over.
    pub fn is_finished(&self) -> (finished: bool)
        ensures
            finished == self@.finished,
    {
        self.finished
    }

    /// Number of probes emitted.
    pub fn sent_count(&self) -> (n: u64)
        ensures
            n == self@.sent_count,
    {
        self.next_id
    }

    /// Number of samples recorded. It never exceeds the number of probes
    /// emitted.
    pub fn received_count(&self) -> (n: usize)
        requires
            self.wf(),
        ensures
            n == self@.samples.len(),
            n <= self@.sent_count,
    {
        self.samples.len()
    }

    /// Number of probes emitted and not answered: what is sent less what
    /// was sampled, which is what is left in the correlation table.
    pub fn loss_count(&self) -> (n: u64)
        requires
            self.wf(),
        ensures
            n == loss_of(self@),
            n == self@.pending.len(),
    {
        let received = self.samples.len();
        self.next_id - (received as u64)
    }

    /// Number of ticks that overran their period.
    pub fn overruns(&self) -> (n: u64)
        ensures
            n == self@.overruns,
    {
        self.overruns
    }

    /// Length of a tick in microseconds.
    pub fn tick_period(&self) -> (micros: u64)
        ensures
            micros == self@.tick_period,
    {
        self.tick_period
    }

    /// The instant the session began.
    pub fn started_at(&self) -> (instant: u128)
        ensures
            instant == self@.started_at,
    {
        self.started_at
    }

    /// The instant the session ends.
    pub fn ends_at(&self) -> (instant: u128)
        ensures
            instant == self@.ends_at,
    {
        self.ends_at
    }

    /// The delivery guarantee of the session's transport.
    pub fn delivery(&self) -> (delivery: Delivery)
        ensures
            delivery == self@.delivery,
    {
        self.delivery
    }

    /// Whether the probe `sequence_id` is still unanswered.
    pub fn is_pending(&self, sequence_id: u64) -> (pending: bool)
        ensures
            pending == self@.pending.contains_key(sequence_id),
    {
        self.table.is_pending(sequence_id)
    }

    /// The samples recorded so far, in the order their echoes arrived.
    pub fn samples(&self) -> (samples: &Vec<RttSample>)
        ensures
            samples@ == self@.samples,
    {
        &self.samples
    }

    /// The round-trip times recorded so far, in the order their echoes
    /// arrived.
    pub fn rtts(&self) -> (rtts: Vec<u128>)
        ensures
            rtts@ == rtts_of(self@.samples),
    {
        let mut rtts: Vec<u128> = Vec::new();
        let mut i: usize = 0;
        while i < self.samples.len()
            invariant
                i <= self.samples.len(),
                rtts@ == rtts_of(self.samples@.subrange(0, i as int)),
            decreases self.samples.len() - i,
        {
            rtts.push(self.samples[i].rtt_micros);
            i = i + 1;
            assert(rtts@ =~= rtts_of(self.samples@.subrange(0, i as int)));
        }
        assert(self.samples@.subrange(0, i as int) =~= self.samples@);
        rtts
    }

    /// Statistics over the round-trip times recorded so far, or the plain
    /// statement that there are none.
    pub fn summary(&self) -> (summary: Summary)
        ensures
            summary == summary_of(rtts_of(self@.samples)),
            summary is NoSamples <==> self@.samples.len() == 0,
    {
        let rtts = self.rtts();
        summarize(&rtts)
    }

    /// Probes sent, samples completed, probes lost and the loss rate.
    pub fn loss(&self) -> (report: LossReport)
        requires
            self.wf(),
        ensures
            Some(report) == loss_report_of(self@.sent_count as u64, self@.samples.len() as u64),
            report.lost == loss_of(self@),
    {
        loss_report_within(self.next_id, self.samples.len() as u64)
    }

    /// The summary record of the session: statistics, loss and overruns.
    pub fn report(&self) -> (report: SessionReport)
        requires
            self.wf(),
        ensures
            report == report_of(self@),
            report.rtt is NoSamples <==> self@.samples.len() == 0,
            report.loss.lost == loss_of(self@),
    {
        SessionReport { rtt: self.summary(), loss: self.loss(), overruns: self.overruns }
    }
}

} // verus!
