//! A minimal counter contract: one persisted integer, initialized to zero,
//! incremented by a mutating call, and returned by a read-only query.
//!
//! The host runtime owns the durable bytes; the contract logic here works
//! against an injected key-value store handle ([`store::KvStore`]) holding
//! the serialized state under a fixed key.

pub mod codec;
pub mod contract;
pub mod dec;
pub mod error;
pub mod msg;
pub mod response;
pub mod state;
pub mod store;
