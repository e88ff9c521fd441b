//! What a responder is and does, stated over plain mathematical values:
//! its state, what each arrival makes of it, and what it hands out for
//! echoing.

use crate::queue::batch_size;
use crate::responder::Arrival;
use crate::responder::Cadence;
use crate::responder::IDLE_REPORT_INTERVAL;
use crate::responder::Phase;
use crate::responder::Reply;
use crate::transport::Delivery;
use crate::transport::Fault;
use crate::transport::is_fatal;
use vstd::prelude::*;

verus! {

/// The state of a responder, as the contracts see it.
#[verifier::ext_equal]
pub struct ResponderState<T> {
    pub delivery: Delivery,
    pub cadence: Cadence,
    /// The per-tick cap; it binds on best-effort transports only.
    pub max_per_tick: nat,
    /// The most messages that may wait for a tick.
    pub capacity: nat,
    pub phase: Phase,
    /// Messages waiting for the next tick, oldest first.
    pub queued: Seq<T>,
    /// Ticks in a row that found nothing to echo.
    pub idle_ticks: nat,
}

/// A responder that nothing has happened to yet.
pub open spec fn fresh_state<T>(
    delivery: Delivery,
    cadence: Cadence,
    capacity: nat,
    max_per_tick: nat,
) -> ResponderState<T> {
    ResponderState {
        delivery,
        cadence,
        max_per_tick,
        capacity,
        phase: Phase::AwaitingFirst,
        queued: Seq::empty(),
        idle_ticks: 0,
    }
}

/// The most messages one tick echoes: no bound on a reliable transport,
/// `max_per_tick` on a best-effort one.
pub open spec fn tick_limit(delivery: Delivery, max_per_tick: nat) -> nat {
    match delivery {
        Delivery::Reliable => usize::MAX as nat,
        Delivery::BestEffort => max_per_tick,
    }
}

/// The idle streak after one more idle tick; it stops growing at the
/// largest count.
pub open spec fn next_streak(streak: nat) -> nat {
    if streak < u64::MAX {
        streak + 1
    } else {
        streak
    }
}

/// Whether an idle streak of this length is worth a note: every
/// `IDLE_REPORT_INTERVAL` ticks.
pub open spec fn idle_report_due_at(streak: nat) -> bool {
    streak > 0 && streak % (IDLE_REPORT_INTERVAL as nat) == 0
}

/// Whether a message that arrives now is echoed at once: always by a
/// streaming responder, and by a ticked one for its first message.
pub open spec fn echoes_at_once<T>(s: ResponderState<T>) -> bool {
    s.phase != Phase::Closed && (s.cadence == Cadence::Streaming || s.phase
        == Phase::AwaitingFirst)
}

/// Whether messages are queued for ticks: in a ticked responder that runs.
pub open spec fn is_ticking<T>(s: ResponderState<T>) -> bool {
    s.phase == Phase::Running && s.cadence == Cadence::Ticked
}

/// Whether a message that arrives now is taken in, to be echoed at once or
/// on a tick. It is not when the loop has ended or the queue is full.
pub open spec fn takes_in<T>(s: ResponderState<T>) -> bool {
    echoes_at_once(s) || (is_ticking(s) && s.queued.len() < s.capacity)
}

/// Number of messages the next tick echoes.
pub open spec fn tick_size<T>(s: ResponderState<T>) -> nat {
    if is_ticking(s) {
        batch_size(s.queued.len(), tick_limit(s.delivery, s.max_per_tick))
    } else {
        0
    }
}

/// The responder after `message` arrived.
pub open spec fn message_of<T>(s: ResponderState<T>, message: T) -> ResponderState<T> {
    if echoes_at_once(s) {
        ResponderState { phase: Phase::Running, ..s }
    } else if takes_in(s) {
        ResponderState { queued: s.queued.push(message), ..s }
    } else {
        s
    }
}

/// The responder after a tick: the batch has left the queue, and the idle
/// streak is one longer if the batch was empty, else over.
pub open spec fn tick_of<T>(s: ResponderState<T>) -> ResponderState<T> {
    if is_ticking(s) {
        let k = tick_size(s);
        ResponderState {
            queued: s.queued.subrange(k as int, s.queued.len() as int),
            idle_ticks: if k == 0 {
                next_streak(s.idle_ticks)
            } else {
                0
            },
            ..s
        }
    } else {
        s
    }
}

/// The responder after its echo loop ended: what was queued is given up.
pub open spec fn close_of<T>(s: ResponderState<T>) -> ResponderState<T> {
    ResponderState { phase: Phase::Closed, queued: Seq::empty(), ..s }
}

/// The responder after an echo could not be written: closed where that is
/// fatal, which is on a reliable transport, and unchanged on a best-effort
/// one.
pub open spec fn send_error_of<T>(s: ResponderState<T>) -> ResponderState<T> {
    if is_fatal(s.delivery, Fault::Send) {
        close_of(s)
    } else {
        s
    }
}

/// The responder after `arrival`.
pub open spec fn react<T>(s: ResponderState<T>, arrival: Arrival<T>) -> ResponderState<T> {
    match arrival {
        Arrival::Message(message) => message_of(s, message),
        Arrival::Tick => tick_of(s),
        Arrival::ReadError => close_of(s),
        Arrival::SendError => send_error_of(s),
    }
}

/// The messages handed out for echoing in answer to `arrival`.
pub open spec fn echoed_by<T>(s: ResponderState<T>, arrival: Arrival<T>) -> Seq<T> {
    match arrival {
        Arrival::Message(message) => if echoes_at_once(s) {
            seq![message]
        } else {
            Seq::empty()
        },
        Arrival::Tick => s.queued.subrange(0, tick_size(s) as int),
        _ => Seq::empty(),
    }
}

/// The messages taken in with `arrival`: the message itself if it is
/// accepted, nothing otherwise.
pub open spec fn taken_by<T>(s: ResponderState<T>, arrival: Arrival<T>) -> Seq<T> {
    match arrival {
        Arrival::Message(message) => if takes_in(s) {
            seq![message]
        } else {
            Seq::empty()
        },
        _ => Seq::empty(),
    }
}

/// Whether `reply` is the answer to `arrival`, given the responder before
/// it.
pub open spec fn is_reply_to<T>(s: ResponderState<T>, arrival: Arrival<T>, reply: Reply<T>) -> bool {
    match arrival {
        Arrival::Message(message) => if s.phase == Phase::Closed {
            reply is Closed
        } else if echoes_at_once(s) {
            reply matches Reply::Echo(batch) && batch@ == seq![message]
        } else if takes_in(s) {
            reply is Queued
        } else {
            reply == Reply::Busy(message)
        },
        Arrival::Tick => if s.phase == Phase::Closed {
            reply is Closed
        } else if !is_ticking(s) {
            reply is Nothing
        } else if tick_size(s) == 0 {
            reply matches Reply::Idle { streak } && streak == next_streak(s.idle_ticks)
        } else {
            reply matches Reply::Echo(batch) && batch@ == echoed_by(s, arrival)
        },
        Arrival::ReadError => reply is Closed,
        Arrival::SendError => if send_error_of(s).phase == Phase::Closed {
            reply is Closed
        } else {
            reply is Nothing
        },
    }
}

/// The responder after a whole history of arrivals, oldest first.
pub open spec fn state_after<T>(s: ResponderState<T>, arrivals: Seq<Arrival<T>>) -> ResponderState<
    T,
>
    decreases arrivals.len(),
{
    if arrivals.len() == 0 {
        s
    } else {
        react(state_after(s, arrivals.drop_last()), arrivals.last())
    }
}

/// Everything handed out for echoing over a history, in the order it was
/// handed out.
pub open spec fn echoed_over<T>(s: ResponderState<T>, arrivals: Seq<Arrival<T>>) -> Seq<T>
    decreases arrivals.len(),
{
    if arrivals.len() == 0 {
        Seq::empty()
    } else {
        echoed_over(s, arrivals.drop_last()) + echoed_by(
            state_after(s, arrivals.drop_last()),
            arrivals.last(),
        )
    }
}

/// Every message taken in over a history, in the order of arrival.
pub open spec fn taken_over<T>(s: ResponderState<T>, arrivals: Seq<Arrival<T>>) -> Seq<T>
    decreases arrivals.len(),
{
    if arrivals.len() == 0 {
        Seq::empty()
    } else {
        taken_over(s, arrivals.drop_last()) + taken_by(
            state_after(s, arrivals.drop_last()),
            arrivals.last(),
        )
    }
}

/// The queue respects its capacity, and only a running ticked responder
/// has anything queued.
pub open spec fn inv<T>(s: ResponderState<T>) -> bool {
    &&& s.queued.len() <= s.capacity
    &&& s.queued.len() > 0 ==> is_ticking(s)
}

} // verus!
