use helio_kernel::proto::HardwareCapability;
use helio_kernel::runtime::wasm_shim::{
    deterministic_clock_gettime, deterministic_clock_res_get, deterministic_clock_time_get,
    deterministic_getrandom, engine_settings, epoch_deadline,
    memory_reservation_for, start_export_name, wasi_setup, DeterministicSandbox, SandboxError,
    RUN_SEED, TEN_MIB,
};
use rand::{RngExt, SeedableRng};

fn capability(limits: &[&str]) -> HardwareCapability {
    HardwareCapability {
        allow_network: false,
        allow_gpu: false,
        memory_limits: limits.iter().map(|l| l.to_string()).collect(),
    }
}

#[test]
fn epoch_deadline_is_thousand_ticks_per_ms() {
    assert_eq!(epoch_deadline(100), 100_000);
    assert_eq!(epoch_deadline(0), 0);
    assert_eq!(epoch_deadline(10_000_000), 10_000_000_000);
}

#[test]
fn memory_reservation_from_capability() {
    assert_eq!(memory_reservation_for(&capability(&["10MB"])), Some(10 * 1024 * 1024));
    assert_eq!(memory_reservation_for(&capability(&["1GB", "10MB"])), Some(TEN_MIB));
    assert_eq!(memory_reservation_for(&capability(&[])), None);
    assert_eq!(memory_reservation_for(&capability(&["10mb", "20MB"])), None);
}

#[test]
fn determinism_stubs_report_success() {
    assert_eq!(deterministic_getrandom(0, 16, 0), 0);
    assert_eq!(deterministic_clock_gettime(1, 8), 0);
    assert_eq!(deterministic_clock_time_get(0, 1, 8), 0);
    assert_eq!(deterministic_clock_res_get(1, 8), 0);
}

#[test]
fn sandbox_from_capability_runs_program() {
    let sandbox = DeterministicSandbox::from_capability(&capability(&["10MB"])).ok().unwrap();
    let wasm = wat::parse_str("(module (func (export \"_start\")))").unwrap();
    assert_eq!(sandbox.execute(&wasm, 100).ok().unwrap(), "Wasm execution completed");
}

#[test]
fn sandbox_reports_missing_start() {
    let sandbox = DeterministicSandbox::new().ok().unwrap();
    let wasm = wat::parse_str("(module (func (export \"main\")))").unwrap();
    match sandbox.execute(&wasm, 100) {
        Err(e) => {
            assert!(matches!(e, SandboxError::MissingStart));
            assert_eq!(e.message(), "Module must export a _start function");
        }
        Ok(_) => panic!("expected an error"),
    }
}

#[test]
fn sandbox_reports_invalid_module() {
    let sandbox = DeterministicSandbox::new().ok().unwrap();
    match sandbox.execute(b"not wasm", 100) {
        Err(e) => assert!(matches!(e, SandboxError::Compile(_))),
        Ok(_) => panic!("expected an error"),
    }
}

#[test]
fn sandbox_reports_trap() {
    let sandbox = DeterministicSandbox::new().ok().unwrap();
    let wasm = wat::parse_str("(module (func (export \"_start\") unreachable))").unwrap();
    match sandbox.execute(&wasm, 100) {
        Err(e) => assert!(matches!(e, SandboxError::Trap(_))),
        Ok(_) => panic!("expected an error"),
    }
}

#[test]
fn sandbox_links_determinism_stubs() {
    let sandbox = DeterministicSandbox::new().ok().unwrap();
    let wasm = wat::parse_str(
        r#"(module
            (import "env" "getrandom" (func $r (param i32 i32 i32) (result i32)))
            (import "env" "clock_gettime" (func $c (param i32 i32) (result i32)))
            (func (export "_start")
                (if (i32.ne (call $r (i32.const 0) (i32.const 4) (i32.const 0)) (i32.const 0)) (then unreachable))
                (if (i32.ne (call $c (i32.const 0) (i32.const 0)) (i32.const 0)) (then unreachable))))"#,
    )
    .unwrap();
    assert_eq!(sandbox.execute(&wasm, 100).ok().unwrap(), "Wasm execution completed");
}

#[test]
fn sandbox_runs_wasi_program_with_memory_under_capability() {
    let wasm_wat = r#"
        (module
            (import "wasi_snapshot_preview1" "args_sizes_get" (func $args_sizes_get (param i32 i32) (result i32)))
            (memory 1)
            (export "memory" (memory 0))
            (func $main
                (drop (call $args_sizes_get (i32.const 0) (i32.const 4)))
            )
            (export "_start" (func $main))
        )
    "#;
    let wasm_bytes = wat::parse_str(wasm_wat).expect("Failed to parse WAT");
    let sandbox = DeterministicSandbox::from_capability(&capability(&["10MB"])).expect("Failed to create engine");
    let result = sandbox.execute(&wasm_bytes, 100);
    assert!(result.is_ok(), "Wasm execution failed: {:?}", result.err());
    assert_eq!(result.unwrap(), "Wasm execution completed");
}

#[test]
fn engine_settings_follow_capability() {
    let limited = engine_settings(&capability(&["10MB"]));
    assert!(limited.epoch_interruption);
    assert!(limited.consume_fuel);
    assert_eq!(limited.memory_reservation, Some(TEN_MIB));
    let mut open = capability(&["20MB"]);
    open.allow_network = true;
    open.allow_gpu = true;
    let unlimited = engine_settings(&open);
    assert!(unlimited.epoch_interruption);
    assert_eq!(unlimited.memory_reservation, None);
}

#[test]
fn sandboxes_record_their_engine_settings() {
    let plain = DeterministicSandbox::new().ok().unwrap();
    assert!(plain.settings().epoch_interruption);
    assert_eq!(plain.settings().memory_reservation, None);
    let limited = DeterministicSandbox::from_capability(&capability(&["10MB"])).ok().unwrap();
    assert!(limited.settings().epoch_interruption);
    assert_eq!(limited.settings().memory_reservation, Some(TEN_MIB));
}

#[test]
fn wasi_setup_grants_output_and_seed_only() {
    let setup = wasi_setup(7);
    assert!(setup.inherit_stdout);
    assert!(setup.inherit_stderr);
    assert_eq!(setup.secure_random, Some(7));
    assert_eq!(setup.insecure_random, Some(7));
    assert_eq!(setup.insecure_random_seed, Some(7));
}

#[test]
fn start_export_is_named_start() {
    assert_eq!(start_export_name(), "_start");
}

#[test]
fn error_messages_name_the_failed_step() {
    assert_eq!(SandboxError::Link("x".to_string()).message(), "Linker err: x");
    assert_eq!(SandboxError::Instantiate("y".to_string()).message(), "Inst err: y");
    assert_eq!(SandboxError::Trap("z".to_string()).message(), "Call err: z");
    assert_eq!(SandboxError::Compile("c".to_string()).message(), "c");
    assert_eq!(SandboxError::Engine("e".to_string()).message(), "e");
}

#[test]
fn sandbox_reports_missing_import_as_instantiation_error() {
    let sandbox = DeterministicSandbox::from_capability(&capability(&["10MB"])).ok().unwrap();
    let wasm = wat::parse_str(
        r#"(module (import "env" "nothing" (func)) (func (export "_start")))"#,
    )
    .unwrap();
    match sandbox.execute(&wasm, 100) {
        Err(e) => {
            assert!(matches!(e, SandboxError::Instantiate(_)));
            assert!(e.message().starts_with("Inst err: "));
        }
        Ok(_) => panic!("expected an error"),
    }
}

#[test]
fn guest_random_bytes_come_from_the_run_seed() {
    let mut rng = rand::rngs::StdRng::seed_from_u64(RUN_SEED);
    let expected: Vec<u8> = (&mut rng).random_iter().take(8).collect();
    let mut word: u64 = 0;
    for (i, b) in expected.iter().enumerate() {
        word |= (*b as u64) << (8 * i);
    }
    let wat_text = format!(
        r#"(module
            (import "wasi_snapshot_preview1" "random_get" (func $random_get (param i32 i32) (result i32)))
            (memory 1)
            (export "memory" (memory 0))
            (func (export "_start")
                (if (i32.ne (call $random_get (i32.const 0) (i32.const 8)) (i32.const 0)) (then unreachable))
                (if (i64.ne (i64.load (i32.const 0)) (i64.const {})) (then unreachable))))"#,
        word as i64
    );
    let wasm = wat::parse_str(&wat_text).unwrap();
    let sandbox = DeterministicSandbox::from_capability(&capability(&["10MB"])).ok().unwrap();
    assert_eq!(sandbox.execute(&wasm, 100).ok().unwrap(), "Wasm execution completed");
    assert_eq!(sandbox.execute(&wasm, 100).ok().unwrap(), "Wasm execution completed");
    let other = DeterministicSandbox::from_capability(&capability(&["10MB"])).ok().unwrap();
    assert_eq!(other.execute(&wasm, 100).ok().unwrap(), "Wasm execution completed");
}

fn ten_mb() -> DeterministicSandbox {
    DeterministicSandbox::from_capability(&capability(&["10MB"])).ok().unwrap()
}

#[test]
fn runaway_guest_is_stopped_by_its_fuel() {
    let wasm = wat::parse_str(r#"(module (func (export "_start") (loop (br 0))))"#).unwrap();
    match ten_mb().execute(&wasm, 100) {
        Err(e) => assert!(matches!(e, SandboxError::Trap(_))),
        Ok(_) => panic!("expected the run to be stopped"),
    }
}

#[test]
fn runaway_start_function_is_stopped_by_its_fuel() {
    let wasm = wat::parse_str(
        r#"(module (func $spin (loop (br 0))) (start $spin) (func (export "_start")))"#,
    )
    .unwrap();
    match ten_mb().execute(&wasm, 100) {
        Err(e) => assert!(matches!(e, SandboxError::Instantiate(_))),
        Ok(_) => panic!("expected the run to be stopped"),
    }
}

#[test]
fn memory_over_the_capability_limit_is_refused() {
    let over = wat::parse_str(r#"(module (memory 161) (func (export "_start")))"#).unwrap();
    match ten_mb().execute(&over, 100) {
        Err(e) => assert!(matches!(e, SandboxError::Instantiate(_))),
        Ok(_) => panic!("expected the memory to be refused"),
    }
    let at = wat::parse_str(r#"(module (memory 160) (func (export "_start")))"#).unwrap();
    assert_eq!(ten_mb().execute(&at, 100).ok().unwrap(), "Wasm execution completed");
    let growing = wat::parse_str(
        r#"(module (memory 160) (func (export "_start")
            (if (i32.ne (memory.grow (i32.const 1)) (i32.const -1)) (then unreachable))))"#,
    )
    .unwrap();
    assert_eq!(ten_mb().execute(&growing, 100).ok().unwrap(), "Wasm execution completed");
}

#[test]
fn guest_clock_calls_are_answered_by_the_stubs() {
    let wasm = wat::parse_str(
        r#"(module
            (import "wasi_snapshot_preview1" "clock_time_get" (func $t (param i32 i64 i32) (result i32)))
            (import "wasi_snapshot_preview1" "clock_res_get" (func $r (param i32 i32) (result i32)))
            (memory 1)
            (export "memory" (memory 0))
            (func (export "_start")
                (i64.store (i32.const 0) (i64.const 77))
                (if (i32.ne (call $t (i32.const 0) (i64.const 1) (i32.const 0)) (i32.const 0)) (then unreachable))
                (if (i64.ne (i64.load (i32.const 0)) (i64.const 77)) (then unreachable))
                (if (i32.ne (call $r (i32.const 1) (i32.const 0)) (i32.const 0)) (then unreachable))))"#,
    )
    .unwrap();
    assert_eq!(ten_mb().execute(&wasm, 100).ok().unwrap(), "Wasm execution completed");
}

#[test]
fn run_reports_how_far_it_got() {
    let sandbox = ten_mb();
    let bad = sandbox.run(b"not wasm", 100);
    assert!(matches!(bad.result, Err(SandboxError::Compile(_))));
    assert!(bad.linker.is_none());
    let no_start = sandbox.run(&wat::parse_str("(module)").unwrap(), 100);
    assert!(matches!(no_start.result, Err(SandboxError::MissingStart)));
    assert!(no_start.linker.is_some() && no_start.instance.is_some() && no_start.start.is_none());
    let good = sandbox.run(&wat::parse_str("(module (func (export \"_start\")))").unwrap(), 100);
    assert_eq!(good.result.ok().unwrap(), "Wasm execution completed");
    assert!(good.start.is_some());
}

#[test]
fn budget_counts_instructions() {
    let wasm = wat::parse_str(
        r#"(module (func (export "_start") (local $i i32)
            (loop $l
                (local.set $i (i32.add (local.get $i) (i32.const 1)))
                (br_if $l (i32.lt_u (local.get $i) (i32.const 1000))))))"#,
    )
    .unwrap();
    let sandbox = ten_mb();
    match sandbox.execute(&wasm, 100) {
        Err(e) => assert!(matches!(e, SandboxError::Trap(_))),
        Ok(_) => panic!("expected the budget to run out"),
    }
    assert_eq!(sandbox.execute(&wasm, 100_000).ok().unwrap(), "Wasm execution completed");
}
