//! Helio kernel: canonical provenance hashing, signing and the deterministic Wasm sandbox.
pub mod proto;
pub mod runtime;
pub mod provenance;
