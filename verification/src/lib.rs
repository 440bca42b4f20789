//! PowerPulse: a battery monitoring library.
//!
//! The heart of the library is the edge-triggered low-battery notifier in
//! [`notifier`]: it turns a stream of percentage readings into alerts that
//! fire exactly once per downward threshold crossing. The [`timestamp`] and
//! [`history`] modules model the durable reading history: plain-value
//! records together with the textual encoding used by the storage layer,
//! proved to round-trip.

pub mod history;
pub mod notifier;
pub mod timestamp;
