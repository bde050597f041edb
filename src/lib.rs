//! Replicates marketplace ledger events into a relational sink: a byte-level
//! decoder for the event catalog, a dispatcher from kind names to table rows,
//! and the cursor and backoff decisions of the polling worker.

pub mod wire;
pub mod events;
pub mod sink;
pub mod dispatch;
pub mod poll;
