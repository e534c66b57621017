//! Coordination logic for replicating snapshot datasets across a small fleet
//! of storage servers.
//!
//! One server owns each dataset and the others hold read-only replicas. The
//! library decides what a coordinator does about it: which transfers a
//! request to replicate starts ([`sync`]), how one transfer proceeds
//! ([`replicator`]), when a dataset may change its owner ([`switch`]) and
//! which snapshots have outlived their policy ([`retention`]); what holds of
//! all transfers together is stated in [`flight`]. The library runs no
//! command itself. It names the commands of the snapshot filesystem and
//! reads their output ([`toolkit`]); a caller runs them over a remote shell
//! and reports back ([`remote`]).
//!
//! Every function is verified against a contract over plain values: texts
//! are sequences of characters, and each type has a view that holds the same
//! as plain values.

pub mod api;
pub mod clock;
pub mod config;
pub mod decode;
pub mod error;
pub mod flight;
pub mod pattern;
pub mod registry;
pub mod remote;
pub mod replicator;
pub mod retention;
pub mod snapshot;
pub mod switch;
pub mod sync;
pub mod sync_state;
pub mod text;
pub mod toolkit;
