//! Inclusion-commitment sidecar: domain-separated BLS signing, per-slot request
//! deduplication, and a local fallback builder with a payload cache.

pub mod api;
pub mod builder;
pub mod crypto;
pub mod dedup;
pub mod lru_cache;
pub mod signing;
