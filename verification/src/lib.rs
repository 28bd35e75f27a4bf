//! Core logic of a cross-chain relayer daemon.
//!
//! The crate models the three subsystems that carry the relayer's real
//! engineering: the event watcher engine that drives per-contract handlers
//! with durable checkpoints, the persistent per-chain transaction queue with
//! its item state machine and drainer, and the proposal signing pipeline that
//! turns leaf insertions into signed cross-chain anchor-update commands.
//!
//! Network transport, the HTTP surface and the async runtime live outside the
//! library; they hand plain values in and take plain values back.

pub mod bytes;
pub mod lookup;
pub mod proposals;
pub mod queue;
pub mod store;
pub mod drainer;
pub mod signing;
pub mod watcher;
pub mod handlers;
pub mod fees;
pub mod api;
pub mod prover;

use vstd::prelude::*;

verus! {

/// Error taxonomy of the relayer core.
#[derive(Clone, Debug, PartialEq, Eq, Structural)]
pub enum RelayerError {
    /// A transient transport failure; callers retry with backoff.
    Transport,
    /// An event or stored value could not be decoded; fatal for its batch.
    Decode,
    /// The persistent store misbehaved; fatal.
    Store,
    /// The configuration is unusable; fatal at start.
    Config,
    /// A chain id that no configuration entry covers.
    ChainNotFound,
    /// A leaf batch does not continue the contiguous index sequence.
    NonContiguousLeaves,
    /// A queue operation named an item key that no queued item carries.
    ItemNotFound,
    /// A signing key that is not a valid secp256k1 scalar.
    InvalidSigningKey,
}

} // verus!
