//! A verified client library for an event-triggered funds-transfer pipeline.
//!
//! The library covers the logic of the pipeline: wire-call encoding and
//! account-state decoding for an on-chain vault program, the vault's own
//! state transitions, transaction assembly and signing, a submission retry
//! policy, the streaming-subscription protocol state machine, the dispatch
//! loop's decision logic, and a bounded-concurrency fan-out executor model.
//! Network transport, configuration loading and key loading live outside the
//! library and hand it plain values.

pub mod addr;
pub mod codec;
pub mod dispatch;
pub mod engine;
pub mod executor;
pub mod pda;
pub mod stream;
pub mod txn;
pub mod vault;
