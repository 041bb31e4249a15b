//! Provenance: canonical serialization, hashing and signing of state transitions.
pub mod unit_order;
pub mod json_text;
pub mod canonical_json;
pub mod canonical_reading;
pub mod merkle_dag;
