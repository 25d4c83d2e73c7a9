use std::time::{Duration, Instant};

use temper::invocation::{
    call_error, finish_invocation, stage_error, write_context, CallFailure, Stage,
    WasmInvocationResult,
};
use temper::wasm::{MemoryLimiter, Span, WasmEngine, WasmError, WasmResourceLimits};
use wasmtime::{Config, Engine, Linker, ResourceLimiter, Store, Trap};

// Accepts (ptr, len), writes nothing, returns 0.
const WAT_NOOP: &str = r#"
    (module
      (memory (export "memory") 1)
      (func (export "run") (param i32 i32) (result i32)
        i32.const 0
      )
    )
"#;

// Never ends by itself.
const WAT_INFINITE_LOOP: &str = r#"
    (module
      (memory (export "memory") 1)
      (func (export "run") (param i32 i32) (result i32)
        (loop $L
          br $L)
        i32.const 0
      )
    )
"#;

// Tries to grow its memory by 1000 pages.
const WAT_MEMORY_GROW: &str = r#"
    (module
      (memory (export "memory") 1)
      (func (export "run") (param i32 i32) (result i32)
        (memory.grow (i32.const 1000))
        drop
        i32.const 0
      )
    )
"#;

const WAT_TRAP: &str = r#"
    (module
      (memory (export "memory") 1)
      (func (export "run") (param i32 i32) (result i32)
        unreachable
      )
    )
"#;

// Returns the address of a text whose length stands before it.
const WAT_RESULT: &str = r#"
    (module
      (memory (export "memory") 1)
      (data (i32.const 16) "\0e\00\00\00{\"action\":\"A\"}")
      (func (export "run") (param i32 i32) (result i32)
        i32.const 20
      )
    )
"#;

struct Limiter(MemoryLimiter);

impl ResourceLimiter for Limiter {
    fn memory_growing(
        &mut self,
        _current: usize,
        desired: usize,
        _maximum: Option<usize>,
    ) -> Result<bool, wasmtime::Error> {
        Ok(self.0.memory_growing(desired))
    }

    fn table_growing(
        &mut self,
        _current: usize,
        _desired: usize,
        _maximum: Option<usize>,
    ) -> Result<bool, wasmtime::Error> {
        Ok(self.0.table_growing())
    }
}

// An engine like the default one, but for the address space that it reserves.
fn small_engine() -> Result<Engine, String> {
    let mut config = Config::new();
    config.consume_fuel(true);
    config.epoch_interruption(true);
    config.memory_reservation(0);
    config.memory_reservation_for_growth(0);
    config.memory_guard_size(0);
    Engine::new(&config).map_err(|e| e.to_string())
}

fn invoke(wat: &str, limits: WasmResourceLimits) -> Result<WasmInvocationResult, WasmError> {
    let mut wasm = WasmEngine::with_engine(small_engine())?;
    let hash = wasm.compile_and_cache(wat.as_bytes())?;
    let engine = wasm.engine().clone();
    assert!(wasmtime::Engine::same(&engine, wasm.module(&hash)?.module.engine()));
    let start = Instant::now();
    let limiter = Limiter(MemoryLimiter {
        max_memory: limits.max_memory,
    });
    let mut store = Store::new(&engine, limiter);
    store
        .set_fuel(limits.max_fuel)
        .map_err(|e| stage_error(Stage::Fuel, &e.to_string()))?;
    store.limiter(|l| l);
    store.set_epoch_deadline(1);
    let Span { secs, nanos } = limits.max_duration;
    let runtime = tokio::runtime::Runtime::new().unwrap();
    let ticking = engine.clone();
    let timer = runtime.spawn(async move {
        tokio::time::sleep(Duration::new(secs, nanos)).await;
        ticking.increment_epoch();
    });
    let linker = Linker::new(&engine);
    let instance = linker
        .instantiate(&mut store, &wasm.module(&hash)?.module)
        .map_err(|e| stage_error(Stage::Instance, &e.to_string()))?;
    let run = instance
        .get_typed_func::<(i32, i32), i32>(&mut store, "run")
        .map_err(|e| stage_error(Stage::Run, &e.to_string()))?;
    let memory = instance.get_memory(&mut store, "memory").unwrap();
    let arguments = write_context(memory.data_mut(&mut store), "{}")?;
    assert_eq!(arguments, (1024, 2));
    let called = run.call(&mut store, arguments);
    timer.abort();
    let result_ptr = called.map_err(|e| {
        let failure = match e.downcast_ref::<Trap>() {
            Some(&Trap::OutOfFuel) => CallFailure::OutOfFuel,
            Some(&Trap::Interrupt) => CallFailure::Interrupted,
            _ => CallFailure::Other(e.to_string()),
        };
        call_error(failure, limits.max_duration)
    })?;
    let duration_ms = start.elapsed().as_millis() as u64;
    finish_invocation(&None, result_ptr, memory.data(&store), duration_ms)
}

#[test]
fn fuel_exhaustion_returns_error() {
    let limits = WasmResourceLimits {
        max_fuel: 1_000,
        ..WasmResourceLimits::default()
    };
    let result = invoke(WAT_INFINITE_LOOP, limits);
    assert!(matches!(result, Err(WasmError::FuelExhausted)));
}

#[test]
fn timeout_enforced_by_epoch() {
    let limits = WasmResourceLimits {
        max_fuel: u64::MAX,
        max_duration: Span::from_millis(50),
        ..WasmResourceLimits::default()
    };
    let result = invoke(WAT_INFINITE_LOOP, limits);
    assert!(matches!(result, Err(WasmError::Timeout(_))));
}

#[test]
fn wasm_trap_does_not_crash_host() {
    let result = invoke(WAT_TRAP, WasmResourceLimits::default());
    assert!(result.is_err());
    assert!(!matches!(
        result,
        Err(WasmError::FuelExhausted) | Err(WasmError::Timeout(_))
    ));
}

#[test]
fn memory_growth_denied_by_limiter() {
    let limits = WasmResourceLimits {
        max_memory: 64 * 1024,
        ..WasmResourceLimits::default()
    };
    let result = invoke(WAT_MEMORY_GROW, limits);
    assert!(result.is_ok() || matches!(result, Err(WasmError::Invocation(_))));
    assert!(!matches!(
        result,
        Err(WasmError::FuelExhausted) | Err(WasmError::Timeout(_))
    ));
}

#[test]
fn noop_module_completes() {
    let result = invoke(WAT_NOOP, WasmResourceLimits::default());
    assert!(!matches!(
        result,
        Err(WasmError::FuelExhausted)
            | Err(WasmError::Timeout(_))
            | Err(WasmError::MemoryLimitExceeded { .. })
    ));
    let r = match result {
        Ok(r) => r,
        Err(e) => panic!("{}", e.message()),
    };
    assert!(!r.success);
    assert_eq!(r.error.as_deref(), Some("module returned empty result"));
}

#[test]
fn a_result_is_read_from_the_memory_of_a_guest() {
    match invoke(WAT_RESULT, WasmResourceLimits::default()) {
        Ok(r) => {
            assert_eq!(r.callback_action, "A");
            assert!(r.success);
        }
        Err(e) => panic!("{}", e.message()),
    }
}
