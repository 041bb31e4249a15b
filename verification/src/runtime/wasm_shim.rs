//! The deterministic WASI sandbox: Wasm programs run under explicit, reproducible parameters.
use vstd::prelude::*;
use crate::proto::HardwareCapability;
use crate::runtime::wasm_host::{
    config_consume_fuel, config_epoch_interruption, config_memory_reservation, config_new,
    empty_log, engine_new, error_text, func_call, instance_get_func, limits_build,
    limits_memory_size, limits_new, link_clock_gettime, link_clock_res_get, link_clock_time_get,
    link_getrandom, link_wasi, linker_allow_shadowing, linker_instantiate, linker_new, module_new,
    store_limit_memory, store_new, store_set_epoch_deadline, store_set_fuel, wasi_build_p1,
    wasi_builder_new, wasi_inherit_stderr, wasi_inherit_stdout, wasi_insecure_random,
    wasi_insecure_random_seed, wasi_p1_module, wasi_secure_random, HostStub, SandboxEngine,
    SandboxFunc, SandboxInstance, SandboxLinker, SandboxModule, SandboxStore,
};
pub use crate::runtime::wasm_host::{EngineSettings, WasiSetup};

verus! {

/// Epoch ticks granted to a run that may last `timeout_ms` milliseconds.
pub fn epoch_deadline(timeout_ms: u64) -> (ticks: u64)
    requires
        timeout_ms * 1000 <= u64::MAX,
    ensures
        ticks == timeout_ms * 1000,
{
    timeout_ms * 1000
}

/// Ten mebibytes, the reservation that a `10MB` memory limit asks for.
pub const TEN_MIB: u64 = 10485760;

/// The memory reservation, in bytes, that a capability asks for: 10 MiB when one of its
/// memory limits reads `10MB`, none otherwise.
pub open spec fn reservation_for(capability: HardwareCapability) -> Option<u64> {
    if exists|i: int| 0 <= i < capability.memory_limits.len()
        && (#[trigger] capability.memory_limits@[i])@ == "10MB"@ {
        Some(TEN_MIB)
    } else {
        None
    }
}

/// A `10MB` entry anywhere in a capability's memory limits asks for a 10 MiB reservation.
pub proof fn lemma_reservation_from_any_entry(capability: HardwareCapability, i: int)
    requires
        0 <= i < capability.memory_limits.len(),
        capability.memory_limits@[i]@ == "10MB"@,
    ensures
        reservation_for(capability) == Some(TEN_MIB),
{
    assert(capability.memory_limits@[i]@ == "10MB"@);
}

/// Without a `10MB` entry a capability asks for no reservation.
pub proof fn lemma_no_reservation_without_entry(capability: HardwareCapability)
    requires
        forall|i: int| 0 <= i < capability.memory_limits.len() ==> (#[trigger] capability.memory_limits@[i])@ != "10MB"@,
    ensures
        reservation_for(capability) is None,
{
}

/// The reservation depends only on which limits are listed, not on their order or
/// repetition, nor on the network and GPU grants.
pub proof fn lemma_reservation_order_irrelevant(c1: HardwareCapability, c2: HardwareCapability)
    requires
        forall|i: int| 0 <= i < c1.memory_limits.len() ==> exists|j: int|
            0 <= j < c2.memory_limits.len() && (#[trigger] c2.memory_limits@[j])@ == (#[trigger] c1.memory_limits@[i])@,
        forall|j: int| 0 <= j < c2.memory_limits.len() ==> exists|i: int|
            0 <= i < c1.memory_limits.len() && (#[trigger] c1.memory_limits@[i])@ == (#[trigger] c2.memory_limits@[j])@,
    ensures
        reservation_for(c1) == reservation_for(c2),
{
    if exists|i: int| 0 <= i < c1.memory_limits.len() && (#[trigger] c1.memory_limits@[i])@ == "10MB"@ {
        let i = choose|i: int| 0 <= i < c1.memory_limits.len() && (#[trigger] c1.memory_limits@[i])@ == "10MB"@;
        let j = choose|j: int| 0 <= j < c2.memory_limits.len() && (#[trigger] c2.memory_limits@[j])@ == c1.memory_limits@[i]@;
        lemma_reservation_from_any_entry(c1, i);
        lemma_reservation_from_any_entry(c2, j);
    } else if exists|j: int| 0 <= j < c2.memory_limits.len() && (#[trigger] c2.memory_limits@[j])@ == "10MB"@ {
        let j = choose|j: int| 0 <= j < c2.memory_limits.len() && (#[trigger] c2.memory_limits@[j])@ == "10MB"@;
        let i = choose|i: int| 0 <= i < c1.memory_limits.len() && (#[trigger] c1.memory_limits@[i])@ == c2.memory_limits@[j]@;
        assert(c1.memory_limits@[i]@ == "10MB"@);
    }
}

/// A capability's engine settings are epoch interruption and fuel on, with exactly the
/// reservation its memory limits ask for: the network and GPU grants change nothing, so two
/// capabilities with the same memory limits get the same settings.
pub proof fn lemma_settings_from_memory_limits_alone(c1: HardwareCapability, c2: HardwareCapability)
    requires
        c1.memory_limits@ == c2.memory_limits@,
    ensures
        settings_for(c1).epoch_interruption,
        settings_for(c1).consume_fuel,
        settings_for(c1).memory_reservation == reservation_for(c1),
        settings_for(c1) == settings_for(c2),
{
    assert(reservation_for(c1) == reservation_for(c2)) by {
        assert forall|i: int| 0 <= i < c1.memory_limits.len() implies
            c1.memory_limits@[i] == c2.memory_limits@[i] by {}
    }
}

/// Computes `reservation_for`.
pub fn memory_reservation_for(capability: &HardwareCapability) -> (bytes: Option<u64>)
    ensures
        bytes == reservation_for(*capability),
{
    let limit = String::from_str("10MB");
    let mut i: usize = 0;
    while i < capability.memory_limits.len()
        invariant
            i <= capability.memory_limits.len(),
            limit@ == "10MB"@,
            forall|j: int| 0 <= j < i ==> (#[trigger] capability.memory_limits@[j])@ != "10MB"@,
        decreases capability.memory_limits.len() - i,
    {
        if capability.memory_limits[i] == limit {
            return Some(TEN_MIB);
        }
        i = i + 1;
    }
    None
}

/// The deterministic stand-in for `env.getrandom`: reports success and writes nothing.
pub fn deterministic_getrandom(buf_ptr: u32, buf_len: u32, flags: u32) -> (status: i32)
    ensures
        status == 0,
{
    0
}

/// The deterministic stand-in for `env.clock_gettime`: reports success and writes nothing.
pub fn deterministic_clock_gettime(clk_id: i32, tp_ptr: u32) -> (status: i32)
    ensures
        status == 0,
{
    0
}

/// The deterministic stand-in for WASI's `clock_time_get`: reports success and writes
/// nothing, so the guest reads back what its own memory held, whatever the host's clocks say.
pub fn deterministic_clock_time_get(clock_id: i32, precision: i64, time_ptr: i32) -> (status: i32)
    ensures
        status == 0,
{
    0
}

/// The deterministic stand-in for WASI's `clock_res_get`: reports success and writes nothing.
pub fn deterministic_clock_res_get(clock_id: i32, resolution_ptr: i32) -> (status: i32)
    ensures
        status == 0,
{
    0
}

/// Why a sandbox could not be built or a program did not run to completion.
#[derive(Debug)]
pub enum SandboxError {
    /// The engine rejected its configuration.
    Engine(String),
    /// The bytes are not a valid Wasm module.
    Compile(String),
    /// The host functions could not be linked.
    Link(String),
    /// The module could not be instantiated.
    Instantiate(String),
    /// The module exports no `_start` function.
    MissingStart,
    /// `_start` trapped or was interrupted.
    Trap(String),
}

/// The message of a missing `_start` export.
pub open spec fn missing_start_message() -> Seq<char> {
    "Module must export a _start function"@
}

/// The prefix of a linking error's message.
pub open spec fn link_prefix() -> Seq<char> {
    "Linker err: "@
}

/// The prefix of an instantiation error's message.
pub open spec fn instantiate_prefix() -> Seq<char> {
    "Inst err: "@
}

/// The prefix of a trap's message.
pub open spec fn trap_prefix() -> Seq<char> {
    "Call err: "@
}

/// `prefix` followed by `detail`.
fn prefixed(prefix: &str, detail: &String) -> (text: String)
    ensures
        text@ == prefix@ + detail@,
{
    let mut text = String::from_str(prefix);
    text.append(detail.as_str());
    text
}

impl SandboxError {
    /// A human-readable description of the error: the engine's or the compiler's own text,
    /// or the Wasmtime text behind a prefix that names the step that failed.
    pub fn message(&self) -> (text: String)
        ensures
            *self is MissingStart ==> text@ == missing_start_message(),
            *self is Engine ==> text@ == self->Engine_0@,
            *self is Compile ==> text@ == self->Compile_0@,
            *self is Link ==> text@ == link_prefix() + self->Link_0@,
            *self is Instantiate ==> text@ == instantiate_prefix() + self->Instantiate_0@,
            *self is Trap ==> text@ == trap_prefix() + self->Trap_0@,
    {
        match self {
            SandboxError::Engine(m) => m.clone(),
            SandboxError::Compile(m) => m.clone(),
            SandboxError::Link(m) => prefixed("Linker err: ", m),
            SandboxError::Instantiate(m) => prefixed("Inst err: ", m),
            SandboxError::MissingStart => String::from_str("Module must export a _start function"),
            SandboxError::Trap(m) => prefixed("Call err: ", m),
        }
    }
}


/// The message of a run that reached the end of `_start`.
pub open spec fn completed_message() -> Seq<char> {
    "Wasm execution completed"@
}

/// The engine settings for `capability`: epoch interruption and fuel on, and the memory
/// reservation that the capability asks for. Network and GPU grants change nothing.
pub open spec fn settings_for(capability: HardwareCapability) -> EngineSettings {
    EngineSettings { epoch_interruption: true, consume_fuel: true, memory_reservation: reservation_for(capability) }
}

/// The engine settings without a capability: epoch interruption and fuel on, nothing reserved.
pub open spec fn default_settings() -> EngineSettings {
    EngineSettings { epoch_interruption: true, consume_fuel: true, memory_reservation: None }
}

/// Computes `settings_for`.
pub fn engine_settings(capability: &HardwareCapability) -> (settings: EngineSettings)
    ensures
        settings == settings_for(*capability),
{
    EngineSettings { epoch_interruption: true, consume_fuel: true, memory_reservation: memory_reservation_for(capability) }
}

/// The WASI setup of a run seeded with `seed`: standard output and error, and every random
/// generator seeded with `seed`.
pub open spec fn setup_for(seed: u64) -> WasiSetup {
    WasiSetup {
        inherit_stdout: true,
        inherit_stderr: true,
        secure_random: Some(seed),
        insecure_random: Some(seed),
        insecure_random_seed: Some(seed),
    }
}

/// Computes `setup_for`.
pub fn wasi_setup(seed: u64) -> (setup: WasiSetup)
    ensures
        setup == setup_for(seed),
{
    WasiSetup {
        inherit_stdout: true,
        inherit_stderr: true,
        secure_random: Some(seed),
        insecure_random: Some(seed),
        insecure_random_seed: Some(seed),
    }
}

/// The seed of the runs that `run` and `execute` make.
pub const RUN_SEED: u64 = 42;

/// The module of the guest imports that the `env` stubs answer.
pub open spec fn stub_module() -> Seq<char> {
    "env"@
}

/// The name of the import answered by `deterministic_getrandom`.
pub open spec fn getrandom_import() -> Seq<char> {
    "getrandom"@
}

/// The name of the import answered by `deterministic_clock_gettime`.
pub open spec fn clock_gettime_import() -> Seq<char> {
    "clock_gettime"@
}

/// The WASI import answered by `deterministic_clock_time_get`.
pub open spec fn clock_time_get_import() -> Seq<char> {
    "clock_time_get"@
}

/// The WASI import answered by `deterministic_clock_res_get`.
pub open spec fn clock_res_get_import() -> Seq<char> {
    "clock_res_get"@
}

/// The host functions a sandbox's linker defines besides WASI preview 1, in order.
pub open spec fn stub_imports() -> Seq<(Seq<char>, Seq<char>, HostStub)> {
    seq![
        (stub_module(), getrandom_import(), HostStub::GetRandom),
        (stub_module(), clock_gettime_import(), HostStub::ClockGettime),
        (wasi_p1_module(), clock_time_get_import(), HostStub::ClockTimeGet),
        (wasi_p1_module(), clock_res_get_import(), HostStub::ClockResGet),
    ]
}

/// The export that `run` calls.
pub open spec fn start_export() -> Seq<char> {
    "_start"@
}

/// The name of the export that `run` calls.
pub fn start_export_name() -> (name: &'static str)
    ensures
        name@ == start_export(),
{
    "_start"
}

/// A Wasm engine bound to reproducible parameters: epoch interruption, fuel for bounded runs,
/// and the memory reservation and limit that the hardware capability asks for.
pub struct DeterministicSandbox {
    engine: SandboxEngine,
    settings: EngineSettings,
}

impl DeterministicSandbox {
    #[verifier::type_invariant]
    spec fn well_formed(self) -> bool {
        &&& self.settings == self.engine.settings()
        &&& self.settings.consume_fuel
        &&& self.settings.memory_reservation matches Some(b) ==> b <= u32::MAX
        &&& self.engine.epoch() == 0
    }

    /// The settings the sandbox's engine was built with.
    pub closed spec fn configured(&self) -> EngineSettings {
        self.engine.settings()
    }

    /// The identity of the sandbox's engine.
    pub closed spec fn engine_id(&self) -> int {
        self.engine.id()
    }

    /// The settings the sandbox's engine was built with.
    pub fn settings(&self) -> (settings: EngineSettings)
        ensures
            settings == self.configured(),
    {
        proof {
            use_type_invariant(self);
        }
        self.settings
    }

    /// A sandbox under the default capability: epoch interruption and fuel on, no memory
    /// limit. Fails only when the engine rejects its configuration.
    pub fn new() -> (sandbox: Result<DeterministicSandbox, SandboxError>)
        ensures
            sandbox matches Ok(s) ==> s.configured() == default_settings(),
            sandbox matches Err(e) ==> e is Engine,
    {
        let settings = EngineSettings { epoch_interruption: true, consume_fuel: true, memory_reservation: None };
        Self::build(settings)
    }

    /// A sandbox under `capability`: epoch interruption and fuel on and, with a `10MB`
    /// memory limit, 10 MiB reserved for and allowed to each linear memory. Fails only when
    /// the engine rejects its configuration.
    pub fn from_capability(capability: &HardwareCapability) -> (sandbox: Result<DeterministicSandbox, SandboxError>)
        ensures
            sandbox matches Ok(s) ==> s.configured() == settings_for(*capability),
            sandbox matches Err(e) ==> e is Engine,
    {
        Self::build(engine_settings(capability))
    }

    /// An engine configured with `settings`; the only error is the engine's refusal of
    /// that configuration.
    fn build(settings: EngineSettings) -> (sandbox: Result<DeterministicSandbox, SandboxError>)
        requires
            settings.consume_fuel,
            settings.memory_reservation matches Some(b) ==> b <= u32::MAX,
        ensures
            sandbox matches Ok(s) ==> s.configured() == settings,
            sandbox matches Err(e) ==> e is Engine,
    {
        let mut config = config_new();
        config_epoch_interruption(&mut config, settings.epoch_interruption);
        config_consume_fuel(&mut config, settings.consume_fuel);
        match settings.memory_reservation {
            Some(bytes) => config_memory_reservation(&mut config, bytes),
            None => {},
        }
        assert(config.settings() == settings);
        match engine_new(&config) {
            Ok(engine) => Ok(DeterministicSandbox { engine, settings }),
            Err(e) => Err(SandboxError::Engine(error_text(&e))),
        }
    }

    /// A fresh store on this sandbox's engine whose WASI context grants standard output and
    /// error and nothing else, with every random generator seeded with `seed`, and which
    /// enforces the sandbox's memory limit on each linear memory. The guest's WASI clock
    /// calls are answered by the linker's stubs (`create_linker`), not by this context.
    pub fn prepare_sandbox(&self, seed: u64) -> (store: SandboxStore)
        ensures
            store.engine_id() == self.engine_id(),
            store.settings() == self.configured(),
            store.engine_epoch() == 0,
            store.setup() == setup_for(seed),
            store.memory_limit() == self.configured().memory_reservation,
            store.fuel() is None,
            store.deadline() is None,
            store.log() == empty_log(),
    {
        proof {
            use_type_invariant(self);
        }
        let setup = wasi_setup(seed);
        let mut builder = wasi_builder_new();
        if setup.inherit_stdout {
            wasi_inherit_stdout(&mut builder);
        }
        if setup.inherit_stderr {
            wasi_inherit_stderr(&mut builder);
        }
        match setup.secure_random {
            Some(s) => wasi_secure_random(&mut builder, s),
            None => {},
        }
        match setup.insecure_random {
            Some(s) => wasi_insecure_random(&mut builder, s),
            None => {},
        }
        match setup.insecure_random_seed {
            Some(s) => wasi_insecure_random_seed(&mut builder, s),
            None => {},
        }
        assert(builder.setup() == setup);
        let wasi = wasi_build_p1(builder);
        let limits = match self.settings.memory_reservation {
            Some(bytes) => limits_build(limits_memory_size(limits_new(), bytes as usize)),
            None => limits_build(limits_new()),
        };
        let mut store = store_new(&self.engine, wasi, limits);
        store_limit_memory(&mut store);
        store
    }

    /// A linker on this sandbox's engine with WASI preview 1, then, replacing or adding, the
    /// deterministic stubs of `stub_imports`: `env.getrandom`, `env.clock_gettime`, and
    /// WASI's `clock_time_get` and `clock_res_get`. It is always built.
    fn create_linker(&self) -> (linker: Result<SandboxLinker, SandboxError>)
        ensures
            linker matches Ok(l) && l.engine_id() == self.engine_id() && l.defines_wasi()
                && l.host_imports() == stub_imports(),
    {
        let mut linker = linker_new(&self.engine);
        link_wasi(&mut linker);
        linker_allow_shadowing(&mut linker, true);
        link_getrandom(&mut linker, "env", "getrandom");
        link_clock_gettime(&mut linker, "env", "clock_gettime");
        link_clock_time_get(&mut linker, "wasi_snapshot_preview1", "clock_time_get");
        link_clock_res_get(&mut linker, "wasi_snapshot_preview1", "clock_res_get");
        assert(linker.host_imports() =~= stub_imports());
        Ok(linker)
    }

    /// What a run of `wasm_bytes` with budget `timeout_ms` looks like: a store of this
    /// sandbox's engine, with its settings, the WASI setup of `RUN_SEED`, its memory limit,
    /// `timeout_ms` units of fuel and `timeout_ms * 1000` epoch ticks; then, as the store's
    /// log records each call and what it returned, `wasm_bytes` compiled, the module
    /// instantiated through a linker with WASI preview 1 and the `stub_imports`, `_start`
    /// looked up and called, each step taken only after the one before it succeeded; and the
    /// result: success exactly when the call returned normally, else the error of the step
    /// that failed.
    pub open spec fn is_run_of(&self, wasm_bytes: Seq<u8>, timeout_ms: u64, run: SandboxRun) -> bool {
        let log = run.store.log();
        &&& run.store.engine_id() == self.engine_id()
        &&& run.store.settings() == self.configured()
        &&& run.store.setup() == setup_for(RUN_SEED)
        &&& run.store.memory_limit() == self.configured().memory_reservation
        &&& run.store.fuel() == Some(timeout_ms)
        &&& run.store.deadline() == Some((timeout_ms * 1000) as u64)
        // compiling: always attempted on `wasm_bytes`; a module exactly when it succeeded
        &&& log.compiled == Some((wasm_bytes, run.module is Some))
        &&& run.module matches Some(m) ==> m.bytes() == wasm_bytes
        &&& (run.result matches Err(e) && e is Compile) <==> run.module is None
        // linking and instantiating: only after a module, through the sandbox's linker
        &&& run.linker is Some <==> run.module is Some
        &&& run.linker matches Some(l) ==> l.engine_id() == self.engine_id() && l.defines_wasi()
            && l.host_imports() == stub_imports()
        &&& run.module is None ==> log.instantiated is None
        &&& run.module is Some ==> log.instantiated == Some((wasm_bytes, stub_imports(), true, run.instance is Some))
        &&& (run.result matches Err(e) && e is Instantiate) <==> (run.module is Some && run.instance is None)
        &&& run.instance matches Some(i) ==> i.store_id() == run.store.id() && i.module_bytes() == wasm_bytes
        // looking up `_start`: only in an instance
        &&& run.instance is None ==> log.looked_up is None
        &&& run.instance is Some ==> log.looked_up == Some((start_export(), run.start is Some))
        &&& (run.result matches Err(e) && e is MissingStart) <==> (run.instance is Some && run.start is None)
        &&& run.start matches Some(f) ==> f.store_id() == run.store.id() && f.export() == start_export()
        // calling it: only when found; success exactly when the call returned normally
        &&& run.start is None ==> log.called is None
        &&& run.start is Some ==> log.called is Some
        &&& run.result is Ok <==> log.called == Some(true)
        &&& (run.result matches Err(e) && e is Trap) <==> log.called == Some(false)
        &&& run.result matches Ok(m) ==> m@ == completed_message()
        &&& run.result matches Err(e) ==> !(e is Engine) && !(e is Link)
    }

    /// Compiles `wasm_bytes` and runs its `_start` export in a fresh store prepared with
    /// seed `RUN_SEED`, with `timeout_ms` units of fuel (the caller's fuel limit: one unit per
    /// Wasm instruction) and, as epoch deadline, `timeout_ms * 1000` ticks, through a linker
    /// made by `create_linker`. The run, the store and
    /// what was made on the way come back; a failure of each step maps to one error.
    pub fn run(&self, wasm_bytes: &[u8], timeout_ms: u64) -> (run: SandboxRun)
        requires
            timeout_ms * 1000 <= u64::MAX,
        ensures
            self.is_run_of(wasm_bytes@, timeout_ms, run),
    {
        proof {
            use_type_invariant(self);
        }
        let mut store = self.prepare_sandbox(RUN_SEED);
        let budget = epoch_deadline(timeout_ms);
        store_set_epoch_deadline(&mut store, budget);
        store_set_fuel(&mut store, timeout_ms);
        let module = match module_new(&self.engine, &mut store, wasm_bytes) {
            Ok(m) => m,
            Err(e) => {
                let failure = Err(SandboxError::Compile(error_text(&e)));
                return SandboxRun { result: failure, store, module: None, linker: None, instance: None, start: None };
            },
        };
        let linker = match self.create_linker() {
            Ok(l) => l,
            Err(e) => {
                return SandboxRun { result: Err(e), store, module: None, linker: None, instance: None, start: None };
            },
        };
        let instance = match linker_instantiate(&linker, &mut store, &module) {
            Ok(i) => i,
            Err(e) => {
                let failure = Err(SandboxError::Instantiate(error_text(&e)));
                return SandboxRun { result: failure, store, module: Some(module), linker: Some(linker), instance: None, start: None };
            },
        };
        let start = match instance_get_func(&instance, &mut store, start_export_name()) {
            Ok(f) => f,
            Err(_) => {
                let failure = Err(SandboxError::MissingStart);
                return SandboxRun {
                    result: failure,
                    store,
                    module: Some(module),
                    linker: Some(linker),
                    instance: Some(instance),
                    start: None,
                };
            },
        };
        let result = match func_call(&start, &mut store) {
            Ok(()) => Ok(String::from_str("Wasm execution completed")),
            Err(e) => Err(SandboxError::Trap(error_text(&e))),
        };
        SandboxRun { result, store, module: Some(module), linker: Some(linker), instance: Some(instance), start: Some(start) }
    }

    /// Runs `wasm_bytes` as `run` does and gives back its result.
    pub fn execute(&self, wasm_bytes: &[u8], timeout_ms: u64) -> (result: Result<String, SandboxError>)
        requires
            timeout_ms * 1000 <= u64::MAX,
        ensures
            exists|r: SandboxRun| #[trigger] self.is_run_of(wasm_bytes@, timeout_ms, r) && r.result == result,
            result matches Ok(message) ==> message@ == completed_message(),
            result matches Err(e) ==> !(e is Engine) && !(e is Link),
    {
        let run = self.run(wasm_bytes, timeout_ms);
        let ghost whole = run;
        assert(self.is_run_of(wasm_bytes@, timeout_ms, whole));
        run.result
    }
}

/// A finished run: its result, the store it ran in, and the module, linker, instance and `_start`
/// function made on the way, as far as the run got.
pub struct SandboxRun {
    pub result: Result<String, SandboxError>,
    pub store: SandboxStore,
    pub module: Option<SandboxModule>,
    pub linker: Option<SandboxLinker>,
    pub instance: Option<SandboxInstance>,
    pub start: Option<SandboxFunc>,
}

/// Two runs of the same bytes with the same budget, on sandboxes built with the same
/// settings (the same sandbox included, before or after any other runs), hand Wasmtime the
/// same parameters: the same engine settings, WASI grants and random seeds, memory limit,
/// fuel and epoch deadline, the same linked host functions, and the same module bytes; and
/// each run's store starts fresh, so every step of either run is handed the same inputs as
/// the same step of the other.
pub proof fn lemma_runs_share_parameters(
    s1: DeterministicSandbox,
    s2: DeterministicSandbox,
    wasm_bytes: Seq<u8>,
    timeout_ms: u64,
    r1: SandboxRun,
    r2: SandboxRun,
)
    requires
        s1.configured() == s2.configured(),
        s1.is_run_of(wasm_bytes, timeout_ms, r1),
        s2.is_run_of(wasm_bytes, timeout_ms, r2),
    ensures
        r1.store.settings() == r2.store.settings(),
        r1.store.setup() == r2.store.setup(),
        r1.store.memory_limit() == r2.store.memory_limit(),
        r1.store.fuel() == r2.store.fuel(),
        r1.store.deadline() == r2.store.deadline(),
        r1.linker matches Some(l1) ==> (r2.linker matches Some(l2) ==> l1.host_imports() == l2.host_imports()),
        r1.module matches Some(m1) ==> (r2.module matches Some(m2) ==> m1.bytes() == m2.bytes()),
        r1.instance matches Some(i1) ==> (r2.instance matches Some(i2) ==> i1.module_bytes() == i2.module_bytes()),
        r1.store.log().compiled.unwrap().0 == r2.store.log().compiled.unwrap().0,
        r1.store.log().instantiated matches Some(a) ==> (r2.store.log().instantiated matches Some(b)
            ==> a.0 == b.0 && a.1 == b.1 && a.2 == b.2),
        r1.store.log().looked_up matches Some(a) ==> (r2.store.log().looked_up matches Some(b) ==> a.0 == b.0),
{
}

} // verus!
