//! What the engine needs to know about a transport: how it delivers, how it
//! can fail, and which failures end a session.
//!
//! The transport itself (handshake, sockets, encryption) lives outside this
//! crate; the engine only ever sees these plain values.

use vstd::prelude::*;

verus! {

/// Delivery guarantee of a transport channel.
#[derive(Clone, Copy, Debug, PartialEq, Eq, Structural)]
pub enum Delivery {
    /// Stream-like: ordered and lossless.
    Reliable,
    /// Datagram-like: messages may be dropped, duplicated or reordered.
    BestEffort,
}

/// The kinds of failure a transport reports.
#[derive(Clone, Copy, Debug, PartialEq, Eq, Structural)]
pub enum Fault {
    /// The connection or handshake could not be established.
    Connect,
    /// A message could not be written.
    Send,
    /// A received message could not be decoded.
    Decode,
}

/// Whether `fault` on a transport with the given delivery ends the session.
///
/// Connection failures always do; a failed write does only on a reliable
/// transport; a message that cannot be decoded never does.
pub open spec fn is_fatal(delivery: Delivery, fault: Fault) -> bool {
    match fault {
        Fault::Connect => true,
        Fault::Send => delivery == Delivery::Reliable,
        Fault::Decode => false,
    }
}

/// Decides whether a fault ends the session or is contained in its tick.
pub fn fault_is_fatal(delivery: Delivery, fault: Fault) -> (fatal: bool)
    ensures
        fatal == is_fatal(delivery, fault),
{
    match fault {
        Fault::Connect => true,
        Fault::Send => match delivery {
            Delivery::Reliable => true,
            Delivery::BestEffort => false,
        },
        Fault::Decode => false,
    }
}

/// On a best-effort transport only a failed connection is fatal.
pub proof fn lemma_best_effort_contains_faults(fault: Fault)
    ensures
        is_fatal(Delivery::BestEffort, fault) <==> fault == Fault::Connect,
{
}

} // verus!
