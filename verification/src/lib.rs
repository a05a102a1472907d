//! Synchronization and reorg reconciliation for a program-filtered mirror of a
//! proof-of-stake ledger.
//!
//! The library performs no I/O. Every long-running task is a state machine:
//! it hands out an action (a request to the ledger client, to the store or to
//! a channel), and is advanced with the event that answers it.
pub mod batch;
pub mod codec;
pub mod compose;
pub mod error;
pub mod fetcher;
pub mod iterative_holder;
pub mod ix;
pub mod ledger;
pub mod loader;
pub mod reorg;
pub mod rome;
pub mod scan;
pub mod sync;
pub mod transmit_tx;
pub mod util;
