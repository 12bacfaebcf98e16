//! Decision logic of a periodic agent that mirrors a blockchain node's recent
//! blocks and network metrics into a relational table and a key-value cache.
//!
//! The agent runs in cycles. In each cycle it connects to the node and to
//! both stores, walks the chain backward from the tip over a bounded window
//! of blocks, collects a snapshot of network metrics, writes the window to
//! the table and the snapshot to the cache, and sleeps. A failure is
//! recorded and never ends the loop.
//!
//! This library holds the decisions and leaves the input and output to its
//! caller:
//! - [`scheduler`] is the cycle as a state machine;
//! - [`walker`] is the walk over the chain, one block at a time;
//! - [`metrics`] is the collection of the snapshot, one query at a time;
//! - [`store`] is the statement that writes the window, and what the table
//!   holds after it;
//! - [`cache`] is the set of pairs that publishes a snapshot, and what the
//!   cache holds after it;
//! - [`config`] is the startup configuration and the connection targets;
//! - [`block`], [`text`] and [`error`] are the records, the number format
//!   and the kinds of failure that the others share.

pub mod block;
pub mod cache;
pub mod config;
pub mod error;
pub mod metrics;
pub mod scheduler;
pub mod store;
pub mod text;
pub mod walker;
