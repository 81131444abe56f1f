//! Reconciliation poller for an append-only ledger of data requests.
//!
//! The library holds the decision logic of the poller: how a reconciliation
//! cycle walks the ledger entries that the local store does not know yet,
//! classifies each one from its resolution marker, and produces the store
//! upserts, aborting the remainder of the cycle on the first read failure.
//! The ledger reads, the store messages and the health probe are I/O owned
//! by the surrounding program, which drives the state machine in
//! [`cycle`] one command at a time.

pub mod cli;
pub mod cycle;
pub mod poller;
pub mod records;
