//! Sampling client for the mempool state of a peer-to-peer network.
//!
//! The crate models one peer conversation as an explicit state machine
//! (`session`), selects a random subset of candidate peers (`selector`),
//! and condenses the per-peer outcomes into summary statistics
//! (`aggregate`).  All networking, wire encoding and scheduling live
//! outside the library; the library only decides.

pub mod address;
pub mod aggregate;
pub mod mempool_info;
pub mod message;
pub mod selector;
pub mod session;
