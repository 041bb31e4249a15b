//! The message types of the provenance graph and of experiment manifests.
use vstd::prelude::*;

verus! {

/// Hardware limits an experiment runs under.
pub struct HardwareCapability {
    pub allow_network: bool,
    pub allow_gpu: bool,
    pub memory_limits: Vec<String>,
}

/// One step of an experiment: a Wasm program and its instruction budget.
pub struct Task {
    pub id: String,
    pub wasm_logic_hash: String,
    pub fuel_limit: u64,
}

/// An experiment manifest.
pub struct Experiment {
    pub id: String,
    pub tasks: Vec<Task>,
    pub capability: Option<HardwareCapability>,
}

/// A node of the provenance Merkle-DAG.
pub struct StateTransition {
    pub current_state_hash: String,
    pub parent_hash: String,
    pub input_manifest_hash: String,
    pub wasm_logic_hash: String,
    pub telemetry_attestation: String,
}

} // verus!
