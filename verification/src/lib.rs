//! A replica of a PBFT-style three-phase agreement protocol.
//!
//! The crate holds the per-replica agreement engine: the protocol messages,
//! the membership table, the bounded window of per-sequence voting records
//! and the commit cursor. Every function is verified against a contract
//! stated over the mathematical views of these types.

pub mod client;
pub mod config;
pub mod error;
pub mod event;
pub mod members;
pub mod message;
pub mod pool;
pub mod server;
pub mod slot;
