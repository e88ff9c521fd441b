//! The echo side of a measurement: every message received is written back
//! unmodified, in the order it arrived.
//!
//! A ticked responder echoes the first message at once (it starts the tick
//! loop) and from then on queues what arrives and writes it back on the next
//! tick: everything that is queued on a reliable transport, at most a
//! configured number per tick on a best-effort one. A streaming responder
//! echoes each message as it arrives.
//!
//! The responder decides; the caller reads from and writes to the transport.

pub mod laws;
pub mod model;

use crate::queue::EchoQueue;
use crate::responder::model::ResponderState;
use crate::responder::model::close_of;
use crate::responder::model::fresh_state;
use crate::responder::model::idle_report_due_at;
use crate::responder::model::inv;
use crate::responder::model::is_reply_to;
use crate::responder::model::message_of;
use crate::responder::model::react;
use crate::responder::model::send_error_of;
use crate::responder::model::takes_in;
use crate::responder::model::tick_of;
use crate::transport::Delivery;
use crate::transport::Fault;
use crate::transport::fault_is_fatal;
use vstd::prelude::*;

verus! {

/// When received messages are written back.
#[derive(Clone, Copy, Debug, PartialEq, Eq, Structural)]
pub enum Cadence {
    /// Each message is echoed as soon as it is received.
    Streaming,
    /// Messages are queued and echoed on the next tick.
    Ticked,
}

/// Where a connection's echo loop stands.
#[derive(Clone, Copy, Debug, PartialEq, Eq, Structural)]
pub enum Phase {
    /// No message has arrived yet.
    AwaitingFirst,
    /// The first message has arrived; the loop runs.
    Running,
    /// The loop has ended; the connection is done.
    Closed,
}

/// What can happen to a responder.
pub enum Arrival<T> {
    /// A message was received.
    Message(T),
    /// A tick is due.
    Tick,
    /// Reading from the transport failed.
    ReadError,
    /// Writing an echo failed.
    SendError,
}

/// What the caller is to do after handing the responder an event.
pub enum Reply<T> {
    /// Write these messages back now, in this order.
    Echo(Vec<T>),
    /// The message was queued for the next tick.
    Queued,
    /// The queue is full: the message is handed back and must be offered
    /// again later.
    Busy(T),
    /// A tick found nothing to echo; `streak` counts such ticks in a row.
    Idle { streak: u64 },
    /// Nothing to do.
    Nothing,
    /// The echo loop has ended.
    Closed,
}

/// Idle streaks are worth a note every this many ticks.
pub const IDLE_REPORT_INTERVAL: u64 = 100;

/// How many messages may wait for a tick unless configured otherwise.
pub const DEFAULT_QUEUE_CAPACITY: usize = 100;

/// How many messages a tick echoes on a best-effort transport unless
/// configured otherwise.
pub const DEFAULT_MAX_PER_TICK: usize = 10;

/// Per-connection echo state. Its view is the `ResponderState` the
/// contracts speak of.
pub struct Responder<T> {
    delivery: Delivery,
    cadence: Cadence,
    max_per_tick: usize,
    phase: Phase,
    queue: EchoQueue<T>,
    idle_ticks: u64,
}

impl<T> View for Responder<T> {
    type V = ResponderState<T>;

    closed spec fn view(&self) -> ResponderState<T> {
        ResponderState {
            delivery: self.delivery,
            cadence: self.cadence,
            max_per_tick: self.max_per_tick as nat,
            capacity: self.queue.capacity(),
            phase: self.phase,
            queued: self.queue@,
            idle_ticks: self.idle_ticks as nat,
        }
    }
}

/// Whether an idle streak of this length is due for a note.
pub fn idle_report_due(streak: u64) -> (due: bool)
    ensures
        due == idle_report_due_at(streak as nat),
{
    streak > 0 && streak % IDLE_REPORT_INTERVAL == 0
}

impl<T> Responder<T> {
    /// The responder's state is consistent.
    pub open spec fn wf(&self) -> bool {
        inv(self@)
    }

    /// A responder that echoes each message as it arrives.
    pub fn streaming(delivery: Delivery) -> (responder: Self)
        ensures
            responder.wf(),
            responder@ == fresh_state::<T>(delivery, Cadence::Streaming, 0, 0),
    {
        let responder = Responder {
            delivery,
            cadence: Cadence::Streaming,
            max_per_tick: 0,
            phase: Phase::AwaitingFirst,
            queue: EchoQueue::new(0),
            idle_ticks: 0,
        };
        assert(responder@ =~= fresh_state::<T>(delivery, Cadence::Streaming, 0, 0));
        responder
    }

    /// A responder that echoes on ticks. At most `capacity` messages wait for
    /// a tick; on a best-effort transport a tick echoes at most
    /// `max_per_tick` of them.
    pub fn ticked(delivery: Delivery, capacity: usize, max_per_tick: usize) -> (responder: Self)
        ensures
            responder.wf(),
            responder@ == fresh_state::<T>(
                delivery,
                Cadence::Ticked,
                capacity as nat,
                max_per_tick as nat,
            ),
    {
        let responder = Responder {
            delivery,
            cadence: Cadence::Ticked,
            max_per_tick,
            phase: Phase::AwaitingFirst,
            queue: EchoQueue::new(capacity),
            idle_ticks: 0,
        };
        assert(responder@ =~= fresh_state::<T>(
            delivery,
            Cadence::Ticked,
            capacity as nat,
            max_per_tick as nat,
        ));
        responder
    }

    /// Whether the echo loop has ended.
    pub fn is_closed(&self) -> (closed: bool)
        ensures
            closed <==> self@.phase == Phase::Closed,
    {
        match self.phase {
            Phase::Closed => true,
            _ => false,
        }
    }

    /// Whether the first message has arrived and the loop has not ended.
    pub fn is_running(&self) -> (running: bool)
        ensures
            running <==> self@.phase == Phase::Running,
    {
        match self.phase {
            Phase::Running => true,
            _ => false,
        }
    }

    /// Whether a message that arrives now would be taken in. While this is
    /// false, a caller that wants to lose nothing stops reading from the
    /// transport: the next tick makes room.
    pub fn accepts(&self) -> (accepted: bool)
        requires
            self.wf(),
        ensures
            accepted == takes_in(self@),
    {
        match self.phase {
            Phase::Closed => false,
            Phase::AwaitingFirst => true,
            Phase::Running => match self.cadence {
                Cadence::Streaming => true,
                Cadence::Ticked => !self.queue.is_full(),
            },
        }
    }

    /// Number of messages waiting for the next tick.
    pub fn queued_len(&self) -> (n: usize)
        ensures
            n == self@.queued.len(),
    {
        self.queue.len()
    }

    /// Ticks in a row that found nothing to echo.
    pub fn idle_ticks(&self) -> (n: u64)
        ensures
            n == self@.idle_ticks,
    {
        self.idle_ticks
    }

    /// A message has been received.
    ///
    /// Once closed, the responder takes nothing. A streaming responder, and a
    /// ticked one that sees its first message, echo it at once and run from
    /// then on. A running ticked responder queues it, or hands it back when
    /// the queue is full.
    pub fn on_message(&mut self, message: T) -> (reply: Reply<T>)
        requires
            old(self).wf(),
        ensures
            final(self).wf(),
            final(self)@ == message_of(old(self)@, message),
            is_reply_to(old(self)@, Arrival::Message(message), reply),
    {
        match self.phase {
            Phase::Closed => Reply::Closed,
            Phase::AwaitingFirst => {
                self.phase = Phase::Running;
                let mut batch: Vec<T> = Vec::new();
                batch.push(message);
                assert(self@ =~= message_of(old(self)@, message));
                Reply::Echo(batch)
            },
            Phase::Running => match self.cadence {
                Cadence::Streaming => {
                    let mut batch: Vec<T> = Vec::new();
                    batch.push(message);
                    assert(self@ =~= message_of(old(self)@, message));
                    Reply::Echo(batch)
                },
                Cadence::Ticked => {
                    let refused = self.queue.offer(message);
                    assert(self@ =~= message_of(old(self)@, message));
                    match refused {
                        Some(returned) => Reply::Busy(returned),
                        None => Reply::Queued,
                    }
                },
            },
        }
    }

    /// A tick is due.
    ///
    /// A running ticked responder takes the oldest queued messages, up to the
    /// tick limit, for echoing in the order they arrived; what is over the
    /// limit waits for the next tick. A tick with nothing queued lengthens
    /// the idle streak, one that echoes ends it. In every other state a tick
    /// changes nothing.
    pub fn on_tick(&mut self) -> (reply: Reply<T>)
        requires
            old(self).wf(),
        ensures
            final(self).wf(),
            final(self)@ == tick_of(old(self)@),
            is_reply_to(old(self)@, Arrival::Tick, reply),
    {
        match self.phase {
            Phase::Closed => Reply::Closed,
            Phase::AwaitingFirst => Reply::Nothing,
            Phase::Running => match self.cadence {
                Cadence::Streaming => Reply::Nothing,
                Cadence::Ticked => {
                    let limit = match self.delivery {
                        Delivery::Reliable => usize::MAX,
                        Delivery::BestEffort => self.max_per_tick,
                    };
                    let batch = self.queue.take_batch(limit);
                    if batch.len() == 0 {
                        if self.idle_ticks < u64::MAX {
                            self.idle_ticks = self.idle_ticks + 1;
                        }
                        assert(self@ =~= tick_of(old(self)@));
                        Reply::Idle { streak: self.idle_ticks }
                    } else {
                        self.idle_ticks = 0;
                        assert(self@ =~= tick_of(old(self)@));
                        Reply::Echo(batch)
                    }
                },
            },
        }
    }

    /// Reading from the transport failed: this connection's echo loop ends,
    /// and what was still queued is given up.
    pub fn on_read_error(&mut self)
        requires
            old(self).wf(),
        ensures
            final(self).wf(),
            final(self)@ == close_of(old(self)@),
    {
        self.phase = Phase::Closed;
        let _ = self.queue.take_all();
        assert(self@ =~= close_of(old(self)@));
    }

    /// Writing an echo failed. On a reliable transport that ends the echo
    /// loop; on a best-effort one the message counts as lost and the loop
    /// goes on. Returns whether the loop is now closed.
    pub fn on_send_error(&mut self) -> (closed: bool)
        requires
            old(self).wf(),
        ensures
            final(self).wf(),
            final(self)@ == send_error_of(old(self)@),
            closed <==> final(self)@.phase == Phase::Closed,
    {
        if fault_is_fatal(self.delivery, Fault::Send) {
            self.on_read_error();
            true
        } else {
            self.is_closed()
        }
    }

    /// Hands the responder one event and returns what the caller is to do.
    pub fn step(&mut self, arrival: Arrival<T>) -> (reply: Reply<T>)
        requires
            old(self).wf(),
        ensures
            final(self).wf(),
            final(self)@ == react(old(self)@, arrival),
            is_reply_to(old(self)@, arrival, reply),
    {
        match arrival {
            Arrival::Message(message) => self.on_message(message),
            Arrival::Tick => self.on_tick(),
            Arrival::ReadError => {
                self.on_read_error();
                Reply::Closed
            },
            Arrival::SendError => {
                if self.on_send_error() {
                    Reply::Closed
                } else {
                    Reply::Nothing
                }
            },
        }
    }
}

} // verus!
