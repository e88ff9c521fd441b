//! The correlation table: for every probe that was sent and not yet
//! answered, the instant it was sent.
//!
//! An entry is removed by the first echo that bears its sequence id. A
//! second echo for the same id, or one for an id that was never sent, finds
//! nothing.

use std::collections::HashMap;
use vstd::prelude::*;

verus! {

broadcast use vstd::std_specs::hash::group_hash_axioms;

/// What an echo for `sequence_id` finds in `table`: the send instant of the
/// probe if it is still unanswered, else nothing.
pub open spec fn lookup(table: Map<u64, u128>, sequence_id: u64) -> Option<u128> {
    if table.contains_key(sequence_id) {
        Some(table[sequence_id])
    } else {
        None
    }
}

/// Table of unanswered probes. Its view maps each pending sequence id to
/// the instant the probe was sent.
pub struct Correlator {
    pending: HashMap<u64, u128>,
}

impl View for Correlator {
    type V = Map<u64, u128>;

    closed spec fn view(&self) -> Map<u64, u128> {
        self.pending@
    }
}

impl Correlator {
    /// An empty table.
    pub fn new() -> (table: Self)
        ensures
            table@ == Map::<u64, u128>::empty(),
    {
        Correlator { pending: HashMap::new() }
    }

    /// Records that the probe `sequence_id` was sent at `sent_at`. An entry
    /// already there for that id is replaced.
    pub fn record_sent(&mut self, sequence_id: u64, sent_at: u128)
        ensures
            final(self)@ == old(self)@.insert(sequence_id, sent_at),
    {
        self.pending.insert(sequence_id, sent_at);
    }

    /// Answers an echo for `sequence_id`: if the probe is pending, removes
    /// its entry and returns the instant it was sent; otherwise changes
    /// nothing and returns nothing.
    pub fn match_received(&mut self, sequence_id: u64) -> (sent_at: Option<u128>)
        ensures
            sent_at == lookup(old(self)@, sequence_id),
            final(self)@ == old(self)@.remove(sequence_id),
    {
        self.pending.remove(&sequence_id)
    }

    /// Whether the probe `sequence_id` is still unanswered.
    pub fn is_pending(&self, sequence_id: u64) -> (pending: bool)
        ensures
            pending == self@.contains_key(sequence_id),
    {
        self.pending.contains_key(&sequence_id)
    }

    /// Number of unanswered probes.
    pub fn outstanding(&self) -> (n: usize)
        ensures
            n == self@.len(),
            self@.dom().finite(),
    {
        self.pending.len()
    }
}

/// An echo is answered at most once: after the table has answered an echo
/// for an id, a further echo for that id finds nothing and leaves the table
/// as it is.
pub proof fn lemma_second_echo_finds_nothing(table: Map<u64, u128>, sequence_id: u64)
    ensures
        lookup(table.remove(sequence_id), sequence_id) is None,
        table.remove(sequence_id).remove(sequence_id) == table.remove(sequence_id),
{
    assert(table.remove(sequence_id).remove(sequence_id) =~= table.remove(sequence_id));
}

/// Entries are independent: answering an echo for one id neither removes
/// nor alters the entry of any other id.
pub proof fn lemma_echo_leaves_others(table: Map<u64, u128>, echoed: u64, other: u64)
    requires
        echoed != other,
    ensures
        lookup(table.remove(echoed), other) == lookup(table, other),
{
}

/// A probe that was recorded is found by its first echo, with the instant
/// it was recorded with.
pub proof fn lemma_recorded_is_found(table: Map<u64, u128>, sequence_id: u64, sent_at: u128)
    ensures
        lookup(table.insert(sequence_id, sent_at), sequence_id) == Some(sent_at),
{
}

} // verus!
