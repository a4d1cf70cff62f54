//! The layout of durable account records, and what the host is asked to do
//! for them.

pub mod ether_contract;
pub mod ether_storage;
pub mod program;
