//! Wasm execution under deterministic parameters.
pub mod wasm_host;
pub mod wasm_shim;
