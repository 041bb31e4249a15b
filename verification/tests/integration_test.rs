use helio_kernel::proto::StateTransition;
use helio_kernel::provenance::merkle_dag::calculate_transition_hash;

#[test]
fn test_merkle_dag_canonical_hashing() {
    let mut transition1 = StateTransition {
        current_state_hash: "should-be-ignored".to_string(),
        parent_hash: "parent123".to_string(),
        input_manifest_hash: "input456".to_string(),
        wasm_logic_hash: "wasm789".to_string(),
        telemetry_attestation: "telemetry000".to_string(),
    };

    let hash1 = calculate_transition_hash(&transition1);

    // Change the current_state_hash; the result should be identical
    transition1.current_state_hash = "another-value".to_string();
    let hash2 = calculate_transition_hash(&transition1);

    assert_eq!(
        hash1, hash2,
        "Canonical hash should ignore current_state_hash"
    );

    // Change a meaningful field; the result should change
    transition1.parent_hash = "parent999".to_string();
    let hash3 = calculate_transition_hash(&transition1);

    assert_ne!(
        hash1, hash3,
        "Canonical hash should change when parent_hash changes"
    );
}
