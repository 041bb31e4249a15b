//! Wasmtime and WASI objects, each held with a ghost model of what has been handed to it.
//! The fields are private to this module: only the contracts of the functions here, each of
//! which makes one Wasmtime or WASI call, say how a model changes.
use vstd::prelude::*;
use crate::runtime::wasm_shim::{
    deterministic_clock_gettime, deterministic_clock_res_get, deterministic_clock_time_get,
    deterministic_getrandom,
};
use wasmtime::{
    Caller, Config, Engine, Instance, Linker, Module, Store, StoreLimits, StoreLimitsBuilder, TypedFunc,
};
use wasmtime_wasi::p1::WasiP1Ctx;
use wasmtime_wasi::WasiCtxBuilder;
use rand::SeedableRng;

verus! {

#[verifier::external_type_specification]
#[verifier::external_body]
pub struct ExEngine(Engine);

#[verifier::external_type_specification]
#[verifier::external_body]
pub struct ExConfig(Config);

#[verifier::external_type_specification]
#[verifier::external_body]
#[verifier::reject_recursive_types(T)]
pub struct ExStore<T: 'static>(Store<T>);

#[verifier::external_type_specification]
#[verifier::external_body]
#[verifier::reject_recursive_types(T)]
pub struct ExLinker<T>(Linker<T>);

#[verifier::external_type_specification]
#[verifier::external_body]
pub struct ExModule(Module);

#[verifier::external_type_specification]
#[verifier::external_body]
pub struct ExInstance(Instance);

#[verifier::external_type_specification]
#[verifier::external_body]
#[verifier::reject_recursive_types(Params)]
#[verifier::reject_recursive_types(Results)]
pub struct ExTypedFunc<Params, Results>(TypedFunc<Params, Results>);

#[verifier::external_type_specification]
#[verifier::external_body]
pub struct ExWasiP1Ctx(WasiP1Ctx);

#[verifier::external_type_specification]
#[verifier::external_body]
pub struct ExWasmError(wasmtime::Error);

#[verifier::external_type_specification]
#[verifier::external_body]
pub struct ExWasiCtxBuilder(WasiCtxBuilder);

#[verifier::external_type_specification]
#[verifier::external_body]
pub struct ExStoreLimits(StoreLimits);

#[verifier::external_type_specification]
#[verifier::external_body]
pub struct ExStoreLimitsBuilder(StoreLimitsBuilder);

/// The settings handed to an engine's configuration.
#[derive(Clone, Copy, Debug)]
pub struct EngineSettings {
    /// Whether compiled code checks an epoch deadline.
    pub epoch_interruption: bool,
    /// Whether compiled code consumes fuel and traps when it runs out.
    pub consume_fuel: bool,
    /// The bytes reserved for each linear memory, when set.
    pub memory_reservation: Option<u64>,
}

/// The settings of a fresh configuration: nothing enabled, nothing reserved.
pub open spec fn unset_settings() -> EngineSettings {
    EngineSettings { epoch_interruption: false, consume_fuel: false, memory_reservation: None }
}

/// What a WASI context grants the guest: standard output and error bound to the host's,
/// and the seeds of its random generators; no stdin, arguments, environment, directories or
/// sockets. Its clocks stay the host's: a sandbox's linker answers `clock_time_get` and
/// `clock_res_get` with stubs, but `poll_oneoff` still waits on the host's clocks.
#[derive(Clone, Copy, Debug)]
pub struct WasiSetup {
    pub inherit_stdout: bool,
    pub inherit_stderr: bool,
    /// The seed of the generator behind `random_get`, when one was set.
    pub secure_random: Option<u64>,
    /// The seed of the generator behind insecure random bytes, when one was set.
    pub insecure_random: Option<u64>,
    /// The insecure random seed, when one was set.
    pub insecure_random_seed: Option<u64>,
}

/// What a fresh WASI builder grants: nothing, and no seed set.
pub open spec fn empty_setup() -> WasiSetup {
    WasiSetup {
        inherit_stdout: false,
        inherit_stderr: false,
        secure_random: None,
        insecure_random: None,
        insecure_random_seed: None,
    }
}

/// The host function behind a linked import.
#[derive(Clone, Copy, Debug, PartialEq, Eq, Structural)]
pub enum HostStub {
    GetRandom,
    ClockGettime,
    ClockTimeGet,
    ClockResGet,
}

/// The module name of WASI preview 1.
pub open spec fn wasi_p1_module() -> Seq<char> {
    "wasi_snapshot_preview1"@
}

/// A Wasmtime configuration with the settings handed to it.
pub struct EngineConfig {
    config: Config,
    model: Ghost<EngineSettings>,
}

impl EngineConfig {
    /// The settings handed to this configuration.
    pub closed spec fn settings(&self) -> EngineSettings {
        self.model@
    }
}

/// An engine with the settings of the configuration it was built from, its identity, and
/// its epoch counter. Nothing in this crate advances the counter, and the engine is not
/// reachable from outside it.
pub struct SandboxEngine {
    engine: Engine,
    settings: Ghost<EngineSettings>,
    id: Ghost<int>,
    epoch: Ghost<int>,
}

impl SandboxEngine {
    /// The settings the engine was built with.
    pub closed spec fn settings(&self) -> EngineSettings {
        self.settings@
    }

    /// The engine's identity.
    pub closed spec fn id(&self) -> int {
        self.id@
    }

    /// The engine's current epoch.
    pub closed spec fn epoch(&self) -> int {
        self.epoch@
    }
}

/// A WASI context builder with what it grants so far.
pub struct WasiBuilder {
    builder: WasiCtxBuilder,
    model: Ghost<WasiSetup>,
}

impl WasiBuilder {
    /// What the builder grants so far.
    pub closed spec fn setup(&self) -> WasiSetup {
        self.model@
    }
}

/// A built WASI preview-1 context with what it grants.
pub struct WasiContext {
    ctx: WasiP1Ctx,
    model: Ghost<WasiSetup>,
}

impl WasiContext {
    /// What the context grants.
    pub closed spec fn setup(&self) -> WasiSetup {
        self.model@
    }
}

/// A builder of store limits with the memory limit set so far.
pub struct LimitsBuilder {
    builder: StoreLimitsBuilder,
    memory: Ghost<Option<u64>>,
}

impl LimitsBuilder {
    /// The limit on each linear memory's size in bytes, when set.
    pub closed spec fn memory_limit(&self) -> Option<u64> {
        self.memory@
    }
}

/// Store limits with their memory limit.
pub struct MemoryLimits {
    limits: StoreLimits,
    memory: Ghost<Option<u64>>,
}

impl MemoryLimits {
    /// The limit on each linear memory's size in bytes, when set.
    pub closed spec fn memory_limit(&self) -> Option<u64> {
        self.memory@
    }
}

/// The data a sandboxed store carries: the WASI preview-1 context and the store's limits.
pub struct SandboxState {
    wasi: WasiP1Ctx,
    limits: StoreLimits,
}

/// What has been done with a store's run so far, as each step's call returned it: the bytes
/// compiled and whether compiling succeeded; the module bytes, the linker's host functions,
/// whether the linker defined WASI, and whether instantiating succeeded; the export looked up
/// and whether it was found; whether the call returned normally.
pub struct RunLog {
    pub compiled: Option<(Seq<u8>, bool)>,
    pub instantiated: Option<(Seq<u8>, Seq<(Seq<char>, Seq<char>, HostStub)>, bool, bool)>,
    pub looked_up: Option<(Seq<char>, bool)>,
    pub called: Option<bool>,
}

/// The log of a store on which nothing has been run.
pub open spec fn empty_log() -> RunLog {
    RunLog { compiled: None, instantiated: None, looked_up: None, called: None }
}

/// A store with models of its engine, its identity, its WASI grants, its limits, the fuel and
/// epoch deadline set on it, and the log of what has been run on it.
pub struct SandboxStore {
    store: Store<SandboxState>,
    engine: Ghost<int>,
    settings: Ghost<EngineSettings>,
    epoch: Ghost<int>,
    id: Ghost<int>,
    setup: Ghost<WasiSetup>,
    limits: Ghost<Option<u64>>,
    limiter: Ghost<bool>,
    fuel: Ghost<Option<u64>>,
    deadline: Ghost<Option<u64>>,
    log: Ghost<RunLog>,
}

impl SandboxStore {
    /// What has been run on the store so far.
    pub closed spec fn log(&self) -> RunLog {
        self.log@
    }

    /// The identity of the store's engine.
    pub closed spec fn engine_id(&self) -> int {
        self.engine@
    }

    /// The settings of the store's engine.
    pub closed spec fn settings(&self) -> EngineSettings {
        self.settings@
    }

    /// The epoch of the store's engine.
    pub closed spec fn engine_epoch(&self) -> int {
        self.epoch@
    }

    /// The store's identity.
    pub closed spec fn id(&self) -> int {
        self.id@
    }

    /// What the store's WASI context grants.
    pub closed spec fn setup(&self) -> WasiSetup {
        self.setup@
    }

    /// The limit on each linear memory's size in bytes that the store enforces, when any.
    pub closed spec fn memory_limit(&self) -> Option<u64> {
        if self.limiter@ {
            self.limits@
        } else {
            None
        }
    }

    /// The memory limit the store holds, enforced or not.
    pub closed spec fn pending_limit(&self) -> Option<u64> {
        self.limits@
    }

    /// The fuel last set on the store, when any.
    pub closed spec fn fuel(&self) -> Option<u64> {
        self.fuel@
    }

    /// The epoch deadline last set on the store, in ticks beyond the epoch then, when any.
    pub closed spec fn deadline(&self) -> Option<u64> {
        self.deadline@
    }

    /// Everything but the models that running code leaves as they were.
    pub open spec fn same_models(&self, other: &SandboxStore) -> bool {
        &&& self.engine_id() == other.engine_id()
        &&& self.settings() == other.settings()
        &&& self.engine_epoch() == other.engine_epoch()
        &&& self.id() == other.id()
        &&& self.setup() == other.setup()
        &&& self.memory_limit() == other.memory_limit()
        &&& self.fuel() == other.fuel()
        &&& self.deadline() == other.deadline()
    }
}

/// A linker with models of its engine, whether WASI preview 1 is defined in it, whether it
/// lets a definition replace an earlier one, and the host functions defined in it as
/// (module, name, function), in the order they were defined.
pub struct SandboxLinker {
    linker: Linker<SandboxState>,
    engine: Ghost<int>,
    wasi: Ghost<bool>,
    shadowing: Ghost<bool>,
    imports: Ghost<Seq<(Seq<char>, Seq<char>, HostStub)>>,
}

impl SandboxLinker {
    /// The identity of the linker's engine.
    pub closed spec fn engine_id(&self) -> int {
        self.engine@
    }

    /// Whether WASI preview 1 is defined.
    pub closed spec fn defines_wasi(&self) -> bool {
        self.wasi@
    }

    /// Whether a definition may replace an earlier one.
    pub closed spec fn shadowing(&self) -> bool {
        self.shadowing@
    }

    /// The host functions defined, in order.
    pub closed spec fn host_imports(&self) -> Seq<(Seq<char>, Seq<char>, HostStub)> {
        self.imports@
    }

    /// Whether `module.name` is defined.
    pub open spec fn defines(&self, module: Seq<char>, name: Seq<char>) -> bool {
        (self.defines_wasi() && module == wasi_p1_module())
            || exists|i: int| 0 <= i < self.host_imports().len()
                && (#[trigger] self.host_imports()[i]).0 == module && self.host_imports()[i].1 == name
    }
}

/// A compiled module with the bytes it was compiled from.
pub struct SandboxModule {
    module: Module,
    bytes: Ghost<Seq<u8>>,
}

impl SandboxModule {
    /// The bytes the module was compiled from.
    pub closed spec fn bytes(&self) -> Seq<u8> {
        self.bytes@
    }
}

/// An instance with the identity of the store that owns it and the bytes of its module.
pub struct SandboxInstance {
    instance: Instance,
    store: Ghost<int>,
    module: Ghost<Seq<u8>>,
}

impl SandboxInstance {
    /// The bytes of the module the instance was made from.
    pub closed spec fn module_bytes(&self) -> Seq<u8> {
        self.module@
    }

    /// The identity of the store that owns the instance.
    pub closed spec fn store_id(&self) -> int {
        self.store@
    }
}

/// A function export with the identity of the store that holds it and its export name.
pub struct SandboxFunc {
    func: TypedFunc<(), ()>,
    store: Ghost<int>,
    export: Ghost<Seq<char>>,
}

impl SandboxFunc {
    /// The identity of the store that holds the function.
    pub closed spec fn store_id(&self) -> int {
        self.store@
    }

    /// The name the function was exported under.
    pub closed spec fn export(&self) -> Seq<char> {
        self.export@
    }
}

/// `wasmtime::Config::new`: a configuration with nothing enabled and nothing reserved.
#[verifier::external_body]
pub(crate) fn config_new() -> (config: EngineConfig)
    ensures
        config.settings() == unset_settings(),
{
    EngineConfig { config: Config::new(), model: Ghost(unset_settings()) }
}

/// `wasmtime::Config::epoch_interruption`: sets whether code checks an epoch deadline.
#[verifier::external_body]
pub(crate) fn config_epoch_interruption(config: &mut EngineConfig, enable: bool)
    ensures
        final(config).settings() == (EngineSettings { epoch_interruption: enable, ..old(config).settings() }),
{
    config.config.epoch_interruption(enable);
}

/// `wasmtime::Config::consume_fuel`: sets whether code consumes fuel.
#[verifier::external_body]
pub(crate) fn config_consume_fuel(config: &mut EngineConfig, enable: bool)
    ensures
        final(config).settings() == (EngineSettings { consume_fuel: enable, ..old(config).settings() }),
{
    config.config.consume_fuel(enable);
}

/// `wasmtime::Config::memory_reservation`: sets the bytes reserved for each linear memory.
#[verifier::external_body]
pub(crate) fn config_memory_reservation(config: &mut EngineConfig, bytes: u64)
    ensures
        final(config).settings() == (EngineSettings { memory_reservation: Some(bytes), ..old(config).settings() }),
{
    config.config.memory_reservation(bytes);
}

/// `wasmtime::Engine::new`: an engine built from `config`, whose epoch counter starts at 0.
/// The engine's identity is left open.
#[verifier::external_body]
pub(crate) fn engine_new(config: &EngineConfig) -> (engine: Result<SandboxEngine, wasmtime::Error>)
    ensures
        engine matches Ok(e) ==> e.settings() == config.settings() && e.epoch() == 0,
{
    match Engine::new(&config.config) {
        Ok(engine) => Ok(SandboxEngine {
            engine,
            settings: Ghost(config.model@),
            id: Ghost(arbitrary()),
            epoch: Ghost(0),
        }),
        Err(e) => Err(e),
    }
}

/// The display text of a Wasmtime error (its outermost message).
#[verifier::external_body]
pub(crate) fn error_text(error: &wasmtime::Error) -> String {
    format!("{}", error)
}

/// `wasmtime_wasi::WasiCtxBuilder::new`: a builder that grants nothing.
#[verifier::external_body]
pub(crate) fn wasi_builder_new() -> (builder: WasiBuilder)
    ensures
        builder.setup() == empty_setup(),
{
    WasiBuilder { builder: WasiCtxBuilder::new(), model: Ghost(empty_setup()) }
}

/// `wasmtime_wasi::WasiCtxBuilder::inherit_stdout`: the guest's stdout is the host's.
#[verifier::external_body]
pub(crate) fn wasi_inherit_stdout(builder: &mut WasiBuilder)
    ensures
        final(builder).setup() == (WasiSetup { inherit_stdout: true, ..old(builder).setup() }),
{
    builder.builder.inherit_stdout();
}

/// `wasmtime_wasi::WasiCtxBuilder::inherit_stderr`: the guest's stderr is the host's.
#[verifier::external_body]
pub(crate) fn wasi_inherit_stderr(builder: &mut WasiBuilder)
    ensures
        final(builder).setup() == (WasiSetup { inherit_stderr: true, ..old(builder).setup() }),
{
    builder.builder.inherit_stderr();
}

/// `wasmtime_wasi::WasiCtxBuilder::secure_random` with `rand::rngs::StdRng::seed_from_u64(seed)`:
/// the bytes `random_get` gives the guest come from that generator.
#[verifier::external_body]
pub(crate) fn wasi_secure_random(builder: &mut WasiBuilder, seed: u64)
    ensures
        final(builder).setup() == (WasiSetup { secure_random: Some(seed), ..old(builder).setup() }),
{
    builder.builder.secure_random(rand::rngs::StdRng::seed_from_u64(seed));
}

/// `wasmtime_wasi::WasiCtxBuilder::insecure_random` with `rand::rngs::StdRng::seed_from_u64(seed)`.
#[verifier::external_body]
pub(crate) fn wasi_insecure_random(builder: &mut WasiBuilder, seed: u64)
    ensures
        final(builder).setup() == (WasiSetup { insecure_random: Some(seed), ..old(builder).setup() }),
{
    builder.builder.insecure_random(rand::rngs::StdRng::seed_from_u64(seed));
}

/// `wasmtime_wasi::WasiCtxBuilder::insecure_random_seed`.
#[verifier::external_body]
pub(crate) fn wasi_insecure_random_seed(builder: &mut WasiBuilder, seed: u64)
    ensures
        final(builder).setup() == (WasiSetup { insecure_random_seed: Some(seed), ..old(builder).setup() }),
{
    builder.builder.insecure_random_seed(seed as u128);
}

/// `wasmtime_wasi::WasiCtxBuilder::build_p1`. Wasmtime panics when a builder is built twice;
/// the builder is consumed here, so each one is built once.
#[verifier::external_body]
pub(crate) fn wasi_build_p1(builder: WasiBuilder) -> (ctx: WasiContext)
    ensures
        ctx.setup() == builder.setup(),
{
    let mut fresh = builder.builder;
    WasiContext { ctx: fresh.build_p1(), model: Ghost(builder.model@) }
}

/// `wasmtime::StoreLimitsBuilder::new`: no memory limit.
#[verifier::external_body]
pub(crate) fn limits_new() -> (limits: LimitsBuilder)
    ensures
        limits.memory_limit() is None,
{
    LimitsBuilder { builder: StoreLimitsBuilder::new(), memory: Ghost(None) }
}

/// `wasmtime::StoreLimitsBuilder::memory_size`: no linear memory may grow beyond `bytes`.
#[verifier::external_body]
pub(crate) fn limits_memory_size(limits: LimitsBuilder, bytes: usize) -> (limited: LimitsBuilder)
    ensures
        limited.memory_limit() == Some(bytes as u64),
{
    LimitsBuilder { builder: limits.builder.memory_size(bytes), memory: Ghost(Some(bytes as u64)) }
}

/// `wasmtime::StoreLimitsBuilder::build`.
#[verifier::external_body]
pub(crate) fn limits_build(limits: LimitsBuilder) -> (built: MemoryLimits)
    ensures
        built.memory_limit() == limits.memory_limit(),
{
    MemoryLimits { limits: limits.builder.build(), memory: Ghost(limits.memory@) }
}

/// `wasmtime::Store::new` on `engine`, with the WASI context and limits as its data; the
/// limits are not enforced until `store_limit_memory`. The store's identity is left open.
#[verifier::external_body]
pub(crate) fn store_new(engine: &SandboxEngine, wasi: WasiContext, limits: MemoryLimits) -> (store: SandboxStore)
    ensures
        store.engine_id() == engine.id(),
        store.settings() == engine.settings(),
        store.engine_epoch() == engine.epoch(),
        store.setup() == wasi.setup(),
        store.memory_limit() is None,
        store.pending_limit() == limits.memory_limit(),
        store.fuel() is None,
        store.deadline() is None,
        store.log() == empty_log(),
{
    SandboxStore {
        store: Store::new(&engine.engine, SandboxState { wasi: wasi.ctx, limits: limits.limits }),
        engine: Ghost(engine.id@),
        settings: Ghost(engine.settings@),
        epoch: Ghost(engine.epoch@),
        id: Ghost(arbitrary()),
        setup: Ghost(wasi.model@),
        limits: Ghost(limits.memory@),
        limiter: Ghost(false),
        fuel: Ghost(None),
        deadline: Ghost(None),
        log: Ghost(empty_log()),
    }
}

/// `wasmtime::Store::limiter` with the store's own limits: from now on the store enforces
/// them.
#[verifier::external_body]
pub(crate) fn store_limit_memory(store: &mut SandboxStore)
    ensures
        final(store).memory_limit() == old(store).pending_limit(),
        final(store).engine_id() == old(store).engine_id(),
        final(store).settings() == old(store).settings(),
        final(store).engine_epoch() == old(store).engine_epoch(),
        final(store).id() == old(store).id(),
        final(store).setup() == old(store).setup(),
        final(store).fuel() == old(store).fuel(),
        final(store).deadline() == old(store).deadline(),
        final(store).log() == old(store).log(),
{
    store.store.limiter(|state: &mut SandboxState| &mut state.limits);
}

/// `wasmtime::Store::set_fuel`. Wasmtime refuses it when the engine does not consume fuel,
/// which `requires` rules out; its documentation names allocation failure as the one other
/// error, where this panics as allocation failures do.
#[verifier::external_body]
pub(crate) fn store_set_fuel(store: &mut SandboxStore, fuel: u64)
    requires
        old(store).settings().consume_fuel,
    ensures
        final(store).fuel() == Some(fuel),
        final(store).engine_id() == old(store).engine_id(),
        final(store).settings() == old(store).settings(),
        final(store).engine_epoch() == old(store).engine_epoch(),
        final(store).id() == old(store).id(),
        final(store).setup() == old(store).setup(),
        final(store).memory_limit() == old(store).memory_limit(),
        final(store).deadline() == old(store).deadline(),
        final(store).log() == old(store).log(),
{
    store.store.set_fuel(fuel).expect("Wasmtime could not allocate");
}

/// `wasmtime::Store::set_epoch_deadline`. Wasmtime adds `ticks` to the engine's epoch
/// unchecked; `requires` keeps the sum in range.
#[verifier::external_body]
pub(crate) fn store_set_epoch_deadline(store: &mut SandboxStore, ticks: u64)
    requires
        old(store).engine_epoch() + ticks <= u64::MAX,
    ensures
        final(store).deadline() == Some(ticks),
        final(store).engine_id() == old(store).engine_id(),
        final(store).settings() == old(store).settings(),
        final(store).engine_epoch() == old(store).engine_epoch(),
        final(store).id() == old(store).id(),
        final(store).setup() == old(store).setup(),
        final(store).memory_limit() == old(store).memory_limit(),
        final(store).fuel() == old(store).fuel(),
        final(store).log() == old(store).log(),
{
    store.store.set_epoch_deadline(ticks);
}

/// `wasmtime::Module::new` on `engine`: the module compiled from `bytes`. The store's log
/// records the bytes and whether compiling succeeded.
#[verifier::external_body]
pub(crate) fn module_new(
    engine: &SandboxEngine,
    store: &mut SandboxStore,
    bytes: &[u8],
) -> (module: Result<SandboxModule, wasmtime::Error>)
    ensures
        module matches Ok(m) ==> m.bytes() == bytes@,
        final(store).same_models(old(store)),
        final(store).log() == (RunLog { compiled: Some((bytes@, module is Ok)), ..old(store).log() }),
{
    match Module::new(&engine.engine, bytes) {
        Ok(module) => Ok(SandboxModule { module, bytes: Ghost(bytes@) }),
        Err(e) => Err(e),
    }
}

/// `wasmtime::Linker::new` on `engine`: nothing defined, no shadowing.
#[verifier::external_body]
pub(crate) fn linker_new(engine: &SandboxEngine) -> (linker: SandboxLinker)
    ensures
        linker.engine_id() == engine.id(),
        !linker.defines_wasi(),
        !linker.shadowing(),
        linker.host_imports() == Seq::<(Seq<char>, Seq<char>, HostStub)>::empty(),
{
    SandboxLinker {
        linker: Linker::new(&engine.engine),
        engine: Ghost(engine.id@),
        wasi: Ghost(false),
        shadowing: Ghost(false),
        imports: Ghost(Seq::empty()),
    }
}

/// `wasmtime_wasi::p1::add_to_linker_sync` over the store's WASI context: defines WASI
/// preview 1. Wasmtime refuses a name defined twice, which `requires` rules out on a linker
/// that defines nothing yet, and otherwise fails only when it cannot allocate, where this
/// panics as allocation failures do.
#[verifier::external_body]
pub(crate) fn link_wasi(linker: &mut SandboxLinker)
    requires
        !old(linker).defines_wasi(),
        old(linker).host_imports().len() == 0,
    ensures
        final(linker).defines_wasi(),
        final(linker).engine_id() == old(linker).engine_id(),
        final(linker).shadowing() == old(linker).shadowing(),
        final(linker).host_imports() == old(linker).host_imports(),
{
    wasmtime_wasi::p1::add_to_linker_sync(&mut linker.linker, |state: &mut SandboxState| &mut state.wasi)
        .expect("Wasmtime could not allocate");
}

/// `wasmtime::Linker::allow_shadowing`.
#[verifier::external_body]
pub(crate) fn linker_allow_shadowing(linker: &mut SandboxLinker, allow: bool)
    ensures
        final(linker).shadowing() == allow,
        final(linker).defines_wasi() == old(linker).defines_wasi(),
        final(linker).engine_id() == old(linker).engine_id(),
        final(linker).host_imports() == old(linker).host_imports(),
{
    linker.linker.allow_shadowing(allow);
}

/// `wasmtime::Linker::func_wrap` of `module.name` as `deterministic_getrandom`. Wasmtime
/// refuses a name already defined unless shadowing is allowed, which `requires` rules out,
/// and otherwise fails only when it cannot allocate, where this panics as allocation
/// failures do.
#[verifier::external_body]
pub(crate) fn link_getrandom(linker: &mut SandboxLinker, module: &str, name: &str)
    requires
        old(linker).shadowing() || !old(linker).defines(module@, name@),
    ensures
        final(linker).host_imports() == old(linker).host_imports().push((module@, name@, HostStub::GetRandom)),
        final(linker).defines_wasi() == old(linker).defines_wasi(),
        final(linker).shadowing() == old(linker).shadowing(),
        final(linker).engine_id() == old(linker).engine_id(),
{
    linker.linker.func_wrap(
        module,
        name,
        |_caller: Caller<'_, SandboxState>, buf_ptr: u32, buf_len: u32, flags: u32| -> i32 {
            deterministic_getrandom(buf_ptr, buf_len, flags)
        },
    ).expect("Wasmtime could not allocate");
}

/// `wasmtime::Linker::func_wrap` of `module.name` as `deterministic_clock_gettime`; refusals
/// as for `link_getrandom`.
#[verifier::external_body]
pub(crate) fn link_clock_gettime(linker: &mut SandboxLinker, module: &str, name: &str)
    requires
        old(linker).shadowing() || !old(linker).defines(module@, name@),
    ensures
        final(linker).host_imports() == old(linker).host_imports().push((module@, name@, HostStub::ClockGettime)),
        final(linker).defines_wasi() == old(linker).defines_wasi(),
        final(linker).shadowing() == old(linker).shadowing(),
        final(linker).engine_id() == old(linker).engine_id(),
{
    linker.linker.func_wrap(
        module,
        name,
        |_caller: Caller<'_, SandboxState>, clk_id: i32, tp_ptr: u32| -> i32 {
            deterministic_clock_gettime(clk_id, tp_ptr)
        },
    ).expect("Wasmtime could not allocate");
}

/// `wasmtime::Linker::func_wrap` of `module.name` as `deterministic_clock_time_get`;
/// refusals as for `link_getrandom`.
#[verifier::external_body]
pub(crate) fn link_clock_time_get(linker: &mut SandboxLinker, module: &str, name: &str)
    requires
        old(linker).shadowing() || !old(linker).defines(module@, name@),
    ensures
        final(linker).host_imports() == old(linker).host_imports().push((module@, name@, HostStub::ClockTimeGet)),
        final(linker).defines_wasi() == old(linker).defines_wasi(),
        final(linker).shadowing() == old(linker).shadowing(),
        final(linker).engine_id() == old(linker).engine_id(),
{
    linker.linker.func_wrap(
        module,
        name,
        |_caller: Caller<'_, SandboxState>, clock_id: i32, precision: i64, time_ptr: i32| -> i32 {
            deterministic_clock_time_get(clock_id, precision, time_ptr)
        },
    ).expect("Wasmtime could not allocate");
}

/// `wasmtime::Linker::func_wrap` of `module.name` as `deterministic_clock_res_get`;
/// refusals as for `link_getrandom`.
#[verifier::external_body]
pub(crate) fn link_clock_res_get(linker: &mut SandboxLinker, module: &str, name: &str)
    requires
        old(linker).shadowing() || !old(linker).defines(module@, name@),
    ensures
        final(linker).host_imports() == old(linker).host_imports().push((module@, name@, HostStub::ClockResGet)),
        final(linker).defines_wasi() == old(linker).defines_wasi(),
        final(linker).shadowing() == old(linker).shadowing(),
        final(linker).engine_id() == old(linker).engine_id(),
{
    linker.linker.func_wrap(
        module,
        name,
        |_caller: Caller<'_, SandboxState>, clock_id: i32, resolution_ptr: i32| -> i32 {
            deterministic_clock_res_get(clock_id, resolution_ptr)
        },
    ).expect("Wasmtime could not allocate");
}

/// `wasmtime::Linker::instantiate`, which runs the module's start function under the store's
/// fuel. Wasmtime panics when the store belongs to another engine than the linker, or when
/// the linker holds items of another store; a `SandboxLinker` holds host functions only,
/// which no store owns. With fuel set, every run of guest code ends. The instance belongs to
/// the store. The store's log records the module bytes, the linker's host functions, whether
/// it defines WASI, and whether instantiating succeeded.
#[verifier::external_body]
pub(crate) fn linker_instantiate(
    linker: &SandboxLinker,
    store: &mut SandboxStore,
    module: &SandboxModule,
) -> (instance: Result<SandboxInstance, wasmtime::Error>)
    requires
        linker.engine_id() == old(store).engine_id(),
        old(store).fuel() is Some,
    ensures
        final(store).same_models(old(store)),
        final(store).log() == (RunLog {
            instantiated: Some((module.bytes(), linker.host_imports(), linker.defines_wasi(), instance is Ok)),
            ..old(store).log()
        }),
        instance matches Ok(i) ==> i.store_id() == old(store).id() && i.module_bytes() == module.bytes(),
{
    match linker.linker.instantiate(&mut store.store, &module.module) {
        Ok(instance) => Ok(SandboxInstance { instance, store: Ghost(store.id@), module: Ghost(module.bytes@) }),
        Err(e) => Err(e),
    }
}

/// `wasmtime::Instance::get_typed_func` for a function of no parameters and no results.
/// Wasmtime panics when the store does not own the instance. The function belongs to the
/// store and is the export named `name`. The store's log records the name and whether the
/// export was found.
#[verifier::external_body]
pub(crate) fn instance_get_func(
    instance: &SandboxInstance,
    store: &mut SandboxStore,
    name: &str,
) -> (func: Result<SandboxFunc, wasmtime::Error>)
    requires
        instance.store_id() == old(store).id(),
    ensures
        final(store).same_models(old(store)),
        final(store).log() == (RunLog { looked_up: Some((name@, func is Ok)), ..old(store).log() }),
        func matches Ok(f) ==> f.store_id() == old(store).id() && f.export() == name@,
{
    match instance.instance.get_typed_func::<(), ()>(&mut store.store, name) {
        Ok(func) => Ok(SandboxFunc { func, store: Ghost(store.id@), export: Ghost(name@) }),
        Err(e) => Err(e),
    }
}

/// `wasmtime::TypedFunc::call` with no arguments, under the store's fuel. Wasmtime panics
/// when the store does not hold the function. With fuel set, the call ends. The store's log
/// records whether the call returned normally.
#[verifier::external_body]
pub(crate) fn func_call(func: &SandboxFunc, store: &mut SandboxStore) -> (done: Result<(), wasmtime::Error>)
    requires
        func.store_id() == old(store).id(),
        old(store).fuel() is Some,
    ensures
        final(store).same_models(old(store)),
        final(store).log() == (RunLog { called: Some(done is Ok), ..old(store).log() }),
{
    func.func.call(&mut store.store, ())
}

} // verus!
