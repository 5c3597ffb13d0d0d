//! A blockchain indexer's transformation core: block messages in, flat
//! provenance-annotated records out, batched for an ingestion endpoint.

pub mod json;
pub mod text;
pub mod message;
pub mod records;
pub mod actions;
pub mod provenance;
pub mod extract;
pub mod accounts;
pub mod propagate;
pub mod transform;
pub mod genesis;
pub mod batch;
pub mod egress;
pub mod laws;
