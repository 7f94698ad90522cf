//! Revocation tracking and justice-transaction bookkeeping for a payment-channel watchtower.
//!
//! A channel participant hands the watchtower the revokeable outputs of each counterparty
//! commitment as it is signed. Once the counterparty revokes a commitment, the watchtower builds
//! the justice transaction that sweeps the revoked output, deducts the relay fee, has it signed,
//! and keeps it ready for lookup by channel and commitment.

pub mod ids;
pub mod fee;
pub mod transaction;
pub mod queue;
pub mod store;
pub mod engine;
pub mod channel;
pub mod builder;
pub mod tower;
