//! Tick timing: the period of a tick rate, the session deadline, and the
//! decision taken at the end of each tick (sleep off the rest, or report an
//! overrun).
//!
//! All instants are microseconds read from one local monotonic clock.

use vstd::prelude::*;

verus! {

/// Microseconds in one second.
pub const MICROS_PER_SECOND: u64 = 1_000_000;

/// Longest wait of one poll for an inbound message during the drain phase
/// of a tick, in microseconds: about a millisecond, so that waiting for
/// echoes does not eat the budget of the tick.
pub const DRAIN_POLL_MICROS: u64 = 1_000;

/// What the scheduler does once a tick's work is done.
#[derive(Clone, Copy, Debug, PartialEq, Eq, Structural)]
pub enum Pace {
    /// The tick finished early: sleep for the rest of its budget.
    Sleep { micros: u64 },
    /// The tick used its whole budget or more: go on at once.
    Overrun { excess_micros: u128 },
}

/// Length of one tick at `rate` ticks per second, rounded down to whole
/// microseconds.
pub open spec fn period_of(rate: u32) -> int
    recommends
        rate > 0,
{
    MICROS_PER_SECOND as int / rate as int
}

/// Time that passed from `start` to `now`; zero if the clock reads earlier
/// than `start`.
pub open spec fn elapsed_between(start: u128, now: u128) -> int {
    if now >= start {
        now - start
    } else {
        0
    }
}

/// The pacing decision for a tick that began at `tick_start`, is examined at
/// `now`, and has a budget of `period` microseconds.
pub open spec fn pace_of(tick_start: u128, now: u128, period: u64) -> Pace {
    let elapsed = elapsed_between(tick_start, now);
    if elapsed < period {
        Pace::Sleep { micros: (period - elapsed) as u64 }
    } else {
        Pace::Overrun { excess_micros: (elapsed - period) as u128 }
    }
}

/// The instant at which a session that starts at `started_at` and lasts
/// `duration` microseconds ends, capped at the largest instant.
pub open spec fn deadline_of(started_at: u128, duration: u128) -> u128 {
    if started_at + duration <= u128::MAX {
        (started_at + duration) as u128
    } else {
        u128::MAX
    }
}

/// The sleep that `pace_of` orders, zero for an overrun.
pub open spec fn sleep_of(tick_start: u128, now: u128, period: u64) -> nat {
    match pace_of(tick_start, now, period) {
        Pace::Sleep { micros } => micros as nat,
        Pace::Overrun { .. } => 0,
    }
}

/// The instant the next tick begins when a tick that began at `tick_start`
/// works for `work` microseconds and then sleeps exactly as ordered.
pub open spec fn next_tick_start(tick_start: u128, work: nat, period: u64) -> int {
    tick_start + work + sleep_of(tick_start, (tick_start + work) as u128, period)
}

/// The instant at which a run of ticks ends that begins at `start`, when
/// tick `k` works for `work[k]` microseconds and every sleep is exact.
pub open spec fn schedule_end(start: u128, period: u64, work: Seq<nat>) -> int
    decreases work.len(),
{
    if work.len() == 0 {
        start as int
    } else {
        next_tick_start(
            schedule_end(start, period, work.drop_last()) as u128,
            work.last(),
            period,
        )
    }
}

/// Period of a tick rate in microseconds. A rate of zero has no period.
pub fn tick_period_micros(rate: u32) -> (period: Option<u64>)
    ensures
        period is None <==> rate == 0,
        rate > 0 ==> period == Some(period_of(rate) as u64),
        rate > 0 ==> period_of(rate) <= MICROS_PER_SECOND,
{
    if rate == 0 {
        None
    } else {
        Some(MICROS_PER_SECOND / (rate as u64))
    }
}

/// Microseconds from `start` to `now`, zero when `now` is not later.
pub fn elapsed_micros(start: u128, now: u128) -> (elapsed: u128)
    ensures
        elapsed == elapsed_between(start, now),
{
    if now >= start {
        now - start
    } else {
        0
    }
}

/// End of a session of `duration` microseconds that starts at `started_at`.
pub fn session_deadline(started_at: u128, duration: u128) -> (ends_at: u128)
    ensures
        ends_at == deadline_of(started_at, duration),
{
    if duration <= u128::MAX - started_at {
        started_at + duration
    } else {
        u128::MAX
    }
}

/// Decides how a tick ends: sleep for what is left of `period`, or report by
/// how much the tick overran it.
pub fn pace(tick_start: u128, now: u128, period: u64) -> (decision: Pace)
    ensures
        decision == pace_of(tick_start, now, period),
{
    let elapsed = elapsed_micros(tick_start, now);
    if elapsed < period as u128 {
        Pace::Sleep { micros: period - (elapsed as u64) }
    } else {
        Pace::Overrun { excess_micros: elapsed - (period as u128) }
    }
}

/// A tick that does not overrun ends exactly one period after it began: the
/// sleep that `pace_of` orders fills the budget, no more and no less.
pub proof fn lemma_sleep_completes_period(tick_start: u128, now: u128, period: u64)
    requires
        tick_start <= now,
        now - tick_start < period,
    ensures
        pace_of(tick_start, now, period) matches Pace::Sleep { micros }
            && now + micros == tick_start + period,
{
}

/// An overrun is reported exactly when the elapsed time reaches the period,
/// and then no sleep is ordered.
pub proof fn lemma_overrun_iff_budget_spent(tick_start: u128, now: u128, period: u64)
    ensures
        pace_of(tick_start, now, period) is Overrun <==> elapsed_between(tick_start, now)
            >= period,
{
}

/// Pacing compensates for the work done: a tick lasts one period when its
/// work fits the period, and as long as its work when it does not.
pub proof fn lemma_tick_length(tick_start: u128, work: nat, period: u64)
    requires
        tick_start + work <= u128::MAX,
    ensures
        next_tick_start(tick_start, work, period) == tick_start + if work < period {
            period as nat
        } else {
            work
        },
{
}

/// Ticks that never overrun keep the rate exactly: `n` of them end `n`
/// periods after the first began, however the work is spread over them. In
/// particular, with no work at all, `n` ticks take `n` periods.
pub proof fn lemma_schedule_keeps_rate(start: u128, period: u64, work: Seq<nat>)
    requires
        forall|k: int| 0 <= k < work.len() ==> work[k] < period,
        start + work.len() * period <= u128::MAX,
    ensures
        schedule_end(start, period, work) == start + work.len() * period,
    decreases work.len(),
{
    if work.len() > 0 {
        let earlier = work.drop_last();
        assert((work.len() - 1) * period + period == work.len() * period) by (nonlinear_arith);
        assert(earlier.len() * period <= work.len() * period) by (nonlinear_arith)
            requires
                earlier.len() <= work.len(),
        ;
        lemma_schedule_keeps_rate(start, period, earlier);
        let begun = schedule_end(start, period, earlier);
        lemma_tick_length(begun as u128, work.last(), period);
    }
}

} // verus!
