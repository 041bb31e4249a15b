# helio_kernel

The kernel of Project Helio: deterministic Wasm execution with cryptographic provenance.

- `src/proto.rs` — the message types (`StateTransition`, `HardwareCapability`, `Task`, `Experiment`).
- `src/provenance/canonical_json.rs` — RFC 8785 canonical JSON text: members sorted by key in
  UTF-16 code-unit order, the last value of a repeated key, no whitespace, integers in their
  shortest decimal form; with its specification and laws.
- `src/provenance/json_text.rs` — JSON string escaping, decimal integers and UTF-16 encoding,
  as spec functions with executable counterparts.
- `src/provenance/unit_order.rs` — the lexicographic order of UTF-16 code-unit sequences.
- `src/provenance/merkle_dag.rs` — transition hashes (SHA-256 of the canonical JSON, in hex) and
  Ed25519 signatures over them.
- `src/runtime/wasm_host.rs` — Wasmtime and WASI objects (configuration, engine, WASI builder,
  store limits, store, linker, instance, function), each held with a ghost model of what has
  been handed to it; a store also keeps a log of each step of a run and whether the call
  succeeded. Only the contracts of the functions that make the Wasmtime calls update a model.
- `src/runtime/wasm_shim.rs` — the deterministic WASI sandbox: engine settings from the hardware
  capability (epoch interruption, fuel, memory reservation), the WASI grants and random seeds,
  the memory limit, the fuel budget of a run, and the deterministic stubs linked in place of
  `env.getrandom`, `env.clock_gettime` and WASI's clock functions; their contracts speak of
  the models above.
- `app/main.rs` — the `helio` command line: runs a payload, signs the transition, writes the
  signed manifest.

Everything under `src/` is verified with Verus. The calls into `sha2`, `hex`, `ed25519-dalek`
and `rand` sit behind small trusted wrappers whose contracts state what those crates compute
(or, for the random generator, what holds of every draw). The calls into `wasmtime` and
`wasmtime-wasi` sit behind wrappers whose contracts state how each call changes the model of
the object it is made on and record what the call returned, and rule out by their
preconditions the inputs on which Wasmtime panics. A run's result follows those records
exactly; why Wasmtime succeeds or fails on a given guest, and what the guest prints, is not
stated.
