//! What holds of every session, whatever happens to it and in whatever
//! order: properties proved of the model, and so of the engine that
//! follows it.

use crate::session::Event;
use crate::session::model::SessionState;
use crate::session::model::apply;
use crate::session::model::can_emit;
use crate::session::model::echo_of;
use crate::session::model::echoed_ids;
use crate::session::model::emit_of;
use crate::session::model::has_sample;
use crate::session::model::initial_state;
use crate::session::model::inv;
use crate::session::model::is_echo_for;
use crate::session::model::loss_of;
use crate::session::model::only_echoes;
use crate::session::model::replay;
use crate::session::model::sample_of;
use crate::session::model::sampled;
use crate::transport::Delivery;
use vstd::prelude::*;

verus! {

/// A fresh session's books balance.
pub proof fn lemma_initial_inv(
    delivery: Delivery,
    tick_period: u64,
    duration: u128,
    started_at: u128,
)
    ensures
        inv(initial_state(delivery, tick_period, duration, started_at)),
{
}

/// An echo keeps the books balanced.
pub proof fn lemma_echo_keeps_inv(s: SessionState, sequence_id: u64, now: u128)
    requires
        inv(s),
    ensures
        inv(echo_of(s, sequence_id, now)),
{
    let t = echo_of(s, sequence_id, now);
    if sample_of(s, sequence_id, now) is Some {
        assert(s.pending.remove(sequence_id).dom() =~= s.pending.dom().remove(sequence_id));
        assert forall|i: int, j: int| 0 <= i < j < t.samples.len() implies (
        #[trigger] t.samples[i]).sequence_id != (#[trigger] t.samples[j]).sequence_id by {
            if j == s.samples.len() {
                assert(t.samples[i] == s.samples[i]);
            } else {
                assert(t.samples[i] == s.samples[i]);
                assert(t.samples[j] == s.samples[j]);
            }
        }
        assert forall|i: int| 0 <= i < t.samples.len() implies !t.pending.contains_key(
            (#[trigger] t.samples[i]).sequence_id,
        ) by {
            if i < s.samples.len() {
                assert(t.samples[i] == s.samples[i]);
            }
        }
        assert forall|i: int| 0 <= i < t.samples.len() implies (
        #[trigger] t.samples[i]).sequence_id < t.sent_count by {
            if i < s.samples.len() {
                assert(t.samples[i] == s.samples[i]);
            }
        }
        assert forall|id: u64| id < t.sent_count implies #[trigger] t.pending.contains_key(id)
            || sampled(t.samples, id) by {
            if id == sequence_id {
                assert(t.samples[s.samples.len() as int].sequence_id == id);
            } else if !s.pending.contains_key(id) {
                let i = choose|i: int|
                    0 <= i < s.samples.len() && (#[trigger] s.samples[i]).sequence_id == id;
                assert(t.samples[i].sequence_id == id);
            }
        }
    }
}

/// Emitting a probe keeps the books balanced.
pub proof fn lemma_emit_keeps_inv(s: SessionState, now: u128)
    requires
        inv(s),
    ensures
        inv(emit_of(s, now)),
{
    let t = emit_of(s, now);
    if can_emit(s) {
        let id = s.sent_count as u64;
        assert(!s.pending.contains_key(id));
        assert(t.pending.dom() =~= s.pending.dom().insert(id));
    }
}

/// Every event keeps the books balanced.
pub proof fn lemma_apply_keeps_inv(s: SessionState, event: Event)
    requires
        inv(s),
    ensures
        inv(apply(s, event)),
{
    match event {
        Event::Echo { sequence_id, now } => lemma_echo_keeps_inv(s, sequence_id, now),
        Event::ProbeDue { now } => lemma_emit_keeps_inv(s, now),
        _ => {},
    }
}

/// Whatever happens to a session, in whatever order, its books balance.
pub proof fn lemma_replay_keeps_inv(s: SessionState, events: Seq<Event>)
    requires
        inv(s),
    ensures
        inv(replay(s, events)),
    decreases events.len(),
{
    if events.len() > 0 {
        lemma_replay_keeps_inv(s, events.drop_last());
        lemma_apply_keeps_inv(replay(s, events.drop_last()), events.last());
    }
}

/// After any history of events, a session has no more samples than probes
/// sent, and its loss is exactly the number of probes still unanswered.
pub proof fn lemma_samples_never_exceed_sent(
    delivery: Delivery,
    tick_period: u64,
    duration: u128,
    started_at: u128,
    events: Seq<Event>,
)
    ensures
        ({
            let s = replay(initial_state(delivery, tick_period, duration, started_at), events);
            &&& s.samples.len() <= s.sent_count
            &&& loss_of(s) >= 0
            &&& loss_of(s) == s.pending.len()
        }),
{
    let start = initial_state(delivery, tick_period, duration, started_at);
    lemma_initial_inv(delivery, tick_period, duration, started_at);
    lemma_replay_keeps_inv(start, events);
}

/// The correlation table holds exactly the unanswered probes: a probe is
/// pending if and only if it was sent and no sample has been recorded for it.
pub proof fn lemma_pending_iff_unanswered(s: SessionState)
    requires
        inv(s),
    ensures
        forall|id: u64|
            #[trigger] s.pending.contains_key(id) <==> id < s.sent_count && !has_sample(s, id),
{
    assert forall|id: u64|
        #[trigger] s.pending.contains_key(id) <==> id < s.sent_count && !has_sample(s, id) by {
        if s.pending.contains_key(id) && has_sample(s, id) {
            let i = choose|i: int|
                0 <= i < s.samples.len() && (#[trigger] s.samples[i]).sequence_id == id;
            assert(!s.pending.contains_key(s.samples[i].sequence_id));
        }
    }
}

/// The same holds after any history of events: whatever was sent, echoed,
/// duplicated, reordered or lost, the table holds exactly the probes that
/// were sent and have no sample.
pub proof fn lemma_table_tracks_unanswered(
    delivery: Delivery,
    tick_period: u64,
    duration: u128,
    started_at: u128,
    events: Seq<Event>,
)
    ensures
        ({
            let s = replay(initial_state(delivery, tick_period, duration, started_at), events);
            forall|id: u64|
                #[trigger] s.pending.contains_key(id) <==> id < s.sent_count && !has_sample(s, id)
        }),
{
    let start = initial_state(delivery, tick_period, duration, started_at);
    lemma_initial_inv(delivery, tick_period, duration, started_at);
    lemma_replay_keeps_inv(start, events);
    lemma_pending_iff_unanswered(replay(start, events));
}

/// A duplicate echo adds nothing: right after an echo for an id, a second
/// echo for the same id leaves the session exactly as it is, whenever it
/// arrives.
pub proof fn lemma_duplicate_echo_ignored(s: SessionState, sequence_id: u64, first: u128, again: u128)
    ensures
        sample_of(echo_of(s, sequence_id, first), sequence_id, again) is None,
        echo_of(echo_of(s, sequence_id, first), sequence_id, again) == echo_of(
            s,
            sequence_id,
            first,
        ),
{
}

/// Once a probe has its sample, no echo for it is ever matched again: in a
/// session whose books balance, an echo for a sampled id changes nothing.
pub proof fn lemma_sampled_id_never_matches(s: SessionState, sequence_id: u64, now: u128)
    requires
        inv(s),
        has_sample(s, sequence_id),
    ensures
        sample_of(s, sequence_id, now) is None,
        echo_of(s, sequence_id, now) == s,
{
    let i = choose|i: int|
        0 <= i < s.samples.len() && (#[trigger] s.samples[i]).sequence_id == sequence_id;
    assert(!s.pending.contains_key(s.samples[i].sequence_id));
}

/// An echo that is matched records exactly one sample, for that id, and
/// touches no other id: others stay pending or sampled as they were.
pub proof fn lemma_match_records_one_sample(s: SessionState, sequence_id: u64, now: u128)
    requires
        sample_of(s, sequence_id, now) is Some,
    ensures
        echo_of(s, sequence_id, now).samples.len() == s.samples.len() + 1,
        echo_of(s, sequence_id, now).samples.last().sequence_id == sequence_id,
        has_sample(echo_of(s, sequence_id, now), sequence_id),
        forall|other: u64|
            other != sequence_id ==> (#[trigger] echo_of(s, sequence_id, now).pending.contains_key(
                other,
            ) <==> s.pending.contains_key(other)),
        echo_of(s, sequence_id, now).sent_count == s.sent_count,
{
    let t = echo_of(s, sequence_id, now);
    assert(t.samples[s.samples.len() as int].sequence_id == sequence_id);
}

/// Which probes a single echo leaves sampled and pending.
proof fn lemma_echo_outcome(s: SessionState, sequence_id: u64, now: u128)
    requires
        !s.finished,
    ensures
        echo_of(s, sequence_id, now).pending == s.pending.remove(sequence_id),
        !echo_of(s, sequence_id, now).finished,
        echo_of(s, sequence_id, now).sent_count == s.sent_count,
        forall|id: u64|
            has_sample(echo_of(s, sequence_id, now), id) <==> has_sample(s, id) || (id
                == sequence_id && s.pending.contains_key(id)),
{
    let t = echo_of(s, sequence_id, now);
    assert(t.pending =~= s.pending.remove(sequence_id));
    assert forall|id: u64|
        has_sample(t, id) <==> has_sample(s, id) || (id == sequence_id && s.pending.contains_key(
            id,
        )) by {
        if has_sample(s, id) {
            let i = choose|i: int|
                0 <= i < s.samples.len() && (#[trigger] s.samples[i]).sequence_id == id;
            assert(t.samples[i].sequence_id == id);
        }
        if id == sequence_id && s.pending.contains_key(id) {
            assert(t.samples[s.samples.len() as int].sequence_id == id);
        }
        if has_sample(t, id) {
            let i = choose|i: int|
                0 <= i < t.samples.len() && (#[trigger] t.samples[i]).sequence_id == id;
            if i < s.samples.len() {
                assert(s.samples[i].sequence_id == id);
            }
        }
    }
}

/// Echoes may arrive in any order and any number of times: which probes end
/// up sampled and which stay pending depends only on which ids were echoed
/// at all. A probe is sampled afterwards exactly if it was sampled before, or
/// was pending and echoed at least once; the others stay pending.
pub proof fn lemma_echo_order_is_irrelevant(s: SessionState, events: Seq<Event>)
    requires
        !s.finished,
        only_echoes(events),
    ensures
        !replay(s, events).finished,
        replay(s, events).sent_count == s.sent_count,
        replay(s, events).pending == s.pending.remove_keys(echoed_ids(events)),
        forall|id: u64|
            has_sample(replay(s, events), id) <==> has_sample(s, id) || (s.pending.contains_key(
                id,
            ) && echoed_ids(events).contains(id)),
    decreases events.len(),
{
    if events.len() == 0 {
        assert(s.pending.remove_keys(echoed_ids(events)) =~= s.pending);
    } else {
        let earlier = events.drop_last();
        let before = replay(s, earlier);
        let after = replay(s, events);
        lemma_echo_order_is_irrelevant(s, earlier);
        match events.last() {
            Event::Echo { sequence_id, now } => {
                lemma_echo_outcome(before, sequence_id, now);
                assert(is_echo_for(events[events.len() - 1], sequence_id));
                assert forall|id: u64|
                    echoed_ids(events).contains(id) <==> echoed_ids(earlier).contains(id) || id
                        == sequence_id by {
                    if echoed_ids(earlier).contains(id) {
                        let k = choose|k: int|
                            0 <= k < earlier.len() && #[trigger] is_echo_for(earlier[k], id);
                        assert(is_echo_for(events[k], id));
                    }
                    if echoed_ids(events).contains(id) && id != sequence_id {
                        let k = choose|k: int|
                            0 <= k < events.len() && #[trigger] is_echo_for(events[k], id);
                        assert(is_echo_for(earlier[k], id));
                    }
                }
                assert(after.pending =~= s.pending.remove_keys(echoed_ids(events)));
            },
            _ => {
                assert(events[events.len() - 1] is Echo);
            },
        }
    }
}

/// Records are only ever added: after an event, the samples recorded before
/// it are still there, in the same order, and neither the count of probes
/// sent nor the count of overruns has gone down. A session that is over
/// stays over.
pub proof fn lemma_event_only_adds(s: SessionState, event: Event)
    ensures
        s.samples.is_prefix_of(apply(s, event).samples),
        s.sent_count <= apply(s, event).sent_count <= s.sent_count + 1,
        s.overruns <= apply(s, event).overruns,
        s.finished ==> apply(s, event).finished,
{
}

/// The same over a whole history of events.
pub proof fn lemma_history_only_adds(s: SessionState, events: Seq<Event>)
    ensures
        s.samples.is_prefix_of(replay(s, events).samples),
        s.sent_count <= replay(s, events).sent_count <= s.sent_count + events.len(),
        s.overruns <= replay(s, events).overruns,
        s.finished ==> replay(s, events).finished,
    decreases events.len(),
{
    if events.len() > 0 {
        lemma_history_only_adds(s, events.drop_last());
        lemma_event_only_adds(replay(s, events.drop_last()), events.last());
    }
}

/// A session that is over is final: whatever happens afterwards, it has the
/// same probes sent, the same probes pending and the same samples.
pub proof fn lemma_finished_is_final(s: SessionState, events: Seq<Event>)
    requires
        s.finished,
    ensures
        replay(s, events).finished,
        replay(s, events).sent_count == s.sent_count,
        replay(s, events).pending == s.pending,
        replay(s, events).samples == s.samples,
    decreases events.len(),
{
    if events.len() > 0 {
        lemma_finished_is_final(s, events.drop_last());
    }
}

} // verus!
