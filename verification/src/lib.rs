//! Verified core of a cloud agent: a wallet-backed identity that receives
//! authenticated envelopes of agent-to-agent protocol messages, forwards
//! `Forward` messages through a shared routing table, and provisions
//! per-relationship sub-identities on demand.
//!
//! Wallet and key operations are performed by an external provider; every
//! workflow that awaits such an operation is modelled as a sequential state
//! machine whose transition functions are verified here, while a thin driver
//! performs the provider calls and feeds their outcomes back in.

pub mod a2a;
pub mod agent;
pub mod agent_connection;
pub mod codec;
pub mod config;
pub mod error;
pub mod rand_util;
pub mod router;
