//! An Ethereum-semantics execution core for a host that grants each
//! invocation a small compute budget: gas accounting, the pending-state
//! overlay, the durable session record and the Begin / Continue / Finalize /
//! Cancel state machine that carries one transaction across invocations.

pub mod account;
pub mod account_storage;
pub mod base58;
pub mod buffer;
pub mod config;
pub mod confirmation;
pub mod deploy;
pub mod emulate;
pub mod error;
pub mod executor;
pub mod holder;
pub mod instruction;
pub mod laws;
pub mod receipt;
pub mod rent;
pub mod session;
pub mod signature;
pub mod transaction;
pub mod types;
pub mod u256;
