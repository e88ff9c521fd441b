//! Tick-paced round-trip-time measurement.
//!
//! A probing side sends one small probe per tick and matches every echo that
//! comes back to the probe it answers; an echoing side writes back whatever
//! it receives. From the matched pairs come round-trip times, and from those
//! percentiles, a mean and a loss rate.
//!
//! This crate is the engine of such a measurement and nothing else. It owns
//! no socket and no clock: the caller moves the bytes, reads the time, sleeps
//! when told to, and reports what happened. What the engine decides is
//! specified and proved:
//!
//! - [`session`]: the probing side, tick by tick;
//! - [`correlator`]: the table of probes that were sent and not yet answered;
//! - [`responder`] and [`queue`]: the echoing side;
//! - [`pacing`]: tick period, deadline, sleep or overrun;
//! - [`stats`]: percentiles, mean, loss, histogram;
//! - [`wire`]: the probe record as bytes;
//! - [`transport`]: delivery guarantees and which failures are fatal.

pub mod correlator;
pub mod pacing;
pub mod queue;
pub mod responder;
pub mod session;
pub mod stats;
pub mod transport;
pub mod wire;
