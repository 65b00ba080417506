//! Tamper-evident receipts: canonical hashing, Merkle batches, signatures,
//! a content-addressed ledger and the peer-gated ingestion pipeline.

pub mod anchor;
pub mod crypto;
pub mod digest;
pub mod env_meta;
pub mod gateway;
pub mod identity;
pub mod json;
pub mod ledger;
pub mod merkle;
pub mod receipt;
pub mod schema;
pub mod strmap;
pub mod sync;
pub mod text;
