//! What holds of every responder, whatever arrives and in whatever order:
//! it echoes verbatim, in the order of arrival, each message once.

use crate::responder::Arrival;
use crate::responder::Cadence;
use crate::responder::Phase;
use crate::responder::model::ResponderState;
use crate::responder::model::echoed_by;
use crate::responder::model::echoed_over;
use crate::responder::model::fresh_state;
use crate::responder::model::inv;
use crate::responder::model::react;
use crate::responder::model::state_after;
use crate::responder::model::taken_by;
use crate::responder::model::taken_over;
use crate::transport::Delivery;
use vstd::prelude::*;

verus! {

/// Every arrival keeps the responder consistent, and a closed responder
/// stays closed.
pub proof fn lemma_react_keeps_inv<T>(s: ResponderState<T>, arrival: Arrival<T>)
    requires
        inv(s),
    ensures
        inv(react(s, arrival)),
        s.phase == Phase::Closed ==> react(s, arrival).phase == Phase::Closed,
        react(s, arrival).capacity == s.capacity,
{
}

/// One arrival neither loses, invents nor reorders a message: unless it
/// closes the loop, what was queued followed by what is taken in is what is
/// echoed followed by what stays queued.
pub proof fn lemma_arrival_conserves<T>(s: ResponderState<T>, arrival: Arrival<T>)
    requires
        inv(s),
        react(s, arrival).phase != Phase::Closed,
    ensures
        s.queued + taken_by(s, arrival) == echoed_by(s, arrival) + react(s, arrival).queued,
{
    let t = react(s, arrival);
    assert(s.queued + taken_by(s, arrival) =~= echoed_by(s, arrival) + t.queued);
}

/// While a responder's loop has not ended, every message it took in has
/// been echoed or is still queued, exactly once and in the order of arrival:
/// nothing is lost, repeated, invented or reordered.
pub proof fn lemma_nothing_lost_while_open<T>(s: ResponderState<T>, arrivals: Seq<Arrival<T>>)
    requires
        inv(s),
        state_after(s, arrivals).phase != Phase::Closed,
    ensures
        inv(state_after(s, arrivals)),
        s.queued + taken_over(s, arrivals) == echoed_over(s, arrivals) + state_after(
            s,
            arrivals,
        ).queued,
    decreases arrivals.len(),
{
    if arrivals.len() == 0 {
        assert(s.queued + taken_over(s, arrivals) =~= echoed_over(s, arrivals) + s.queued);
    } else {
        let earlier = arrivals.drop_last();
        let before = state_after(s, earlier);
        lemma_history_keeps_inv(s, earlier);
        lemma_react_keeps_inv(before, arrivals.last());
        lemma_nothing_lost_while_open(s, earlier);
        lemma_arrival_conserves(before, arrivals.last());
        let taken = taken_by(before, arrivals.last());
        let echoed = echoed_by(before, arrivals.last());
        assert(s.queued + (taken_over(s, earlier) + taken) =~= (s.queued + taken_over(s, earlier))
            + taken);
        assert((echoed_over(s, earlier) + before.queued) + taken =~= echoed_over(s, earlier) + (
        before.queued + taken));
        assert(echoed_over(s, earlier) + (echoed + state_after(s, arrivals).queued) =~= (
        echoed_over(s, earlier) + echoed) + state_after(s, arrivals).queued);
    }
}

/// Whatever arrives, in whatever order, the responder stays consistent.
pub proof fn lemma_history_keeps_inv<T>(s: ResponderState<T>, arrivals: Seq<Arrival<T>>)
    requires
        inv(s),
    ensures
        inv(state_after(s, arrivals)),
        state_after(s, arrivals).capacity == s.capacity,
    decreases arrivals.len(),
{
    if arrivals.len() > 0 {
        lemma_history_keeps_inv(s, arrivals.drop_last());
        lemma_react_keeps_inv(state_after(s, arrivals.drop_last()), arrivals.last());
    }
}

/// What a responder echoes is always a prefix of what it held and took in:
/// it echoes verbatim and in order, also when its loop ends early.
pub proof fn lemma_echo_is_prefix<T>(s: ResponderState<T>, arrivals: Seq<Arrival<T>>)
    requires
        inv(s),
    ensures
        echoed_over(s, arrivals).is_prefix_of(s.queued + taken_over(s, arrivals)),
    decreases arrivals.len(),
{
    let after = state_after(s, arrivals);
    if after.phase != Phase::Closed {
        lemma_nothing_lost_while_open(s, arrivals);
        assert(echoed_over(s, arrivals).is_prefix_of(echoed_over(s, arrivals) + after.queued));
    } else if arrivals.len() > 0 {
        // The loop is closed: the last arrival echoed nothing new unless it
        // was still open before, in which case it was the one that closed it.
        let earlier = arrivals.drop_last();
        let before = state_after(s, earlier);
        lemma_history_keeps_inv(s, earlier);
        lemma_echo_is_prefix(s, earlier);
        let taken = taken_by(before, arrivals.last());
        let echoed = echoed_by(before, arrivals.last());
        if before.phase == Phase::Closed {
            assert(echoed =~= Seq::<T>::empty());
            assert(taken =~= Seq::<T>::empty());
            assert(echoed_over(s, arrivals) =~= echoed_over(s, earlier));
            assert(taken_over(s, arrivals) =~= taken_over(s, earlier));
        } else {
            lemma_nothing_lost_while_open(s, earlier);
            assert(echoed =~= Seq::<T>::empty());
            assert(taken =~= Seq::<T>::empty());
            assert(echoed_over(s, arrivals) =~= echoed_over(s, earlier));
            assert(taken_over(s, arrivals) =~= taken_over(s, earlier));
        }
    }
}

/// From its first moment on, a responder echoes what it took in and nothing
/// else, in the order of arrival: what was echoed so far is the beginning of
/// what was taken in, and as long as the loop has not ended, the rest is
/// exactly what is still queued.
pub proof fn lemma_fresh_responder_echoes_in_order<T>(
    delivery: Delivery,
    cadence: Cadence,
    capacity: nat,
    max_per_tick: nat,
    arrivals: Seq<Arrival<T>>,
)
    ensures
        ({
            let fresh = fresh_state::<T>(delivery, cadence, capacity, max_per_tick);
            let after = state_after(fresh, arrivals);
            &&& echoed_over(fresh, arrivals).is_prefix_of(taken_over(fresh, arrivals))
            &&& after.queued.len() <= capacity
            &&& after.phase != Phase::Closed ==> taken_over(fresh, arrivals) == echoed_over(
                fresh,
                arrivals,
            ) + after.queued
        }),
{
    let fresh = fresh_state::<T>(delivery, cadence, capacity, max_per_tick);
    let after = state_after(fresh, arrivals);
    assert(fresh.queued + taken_over(fresh, arrivals) =~= taken_over(fresh, arrivals));
    lemma_echo_is_prefix(fresh, arrivals);
    lemma_history_keeps_inv(fresh, arrivals);
    if after.phase != Phase::Closed {
        lemma_nothing_lost_while_open(fresh, arrivals);
    }
}

} // verus!
