//! The engine for guest modules: compiled once, cached by the SHA-256 hash of
//! their bytes, and run under limits.
use sha2::Digest;
use vstd::prelude::*;

use crate::table::Table;
use crate::text::cat2;
use crate::text::cat3;
use crate::text::cat5;
use crate::text::decimal;
use crate::text::decimal_text;

verus! {

/// An engine of `wasmtime`.
#[verifier::external_type_specification]
#[verifier::external_body]
pub struct ExEngine(wasmtime::Engine);

/// A module that `wasmtime` compiled.
#[verifier::external_type_specification]
#[verifier::external_body]
pub struct ExModule(wasmtime::Module);

/// The largest module that is compiled, in bytes.
pub const MAX_MODULE_SIZE: usize = 10_485_760;

/// The address in guest memory at which a run finds its context.
pub const CONTEXT_ADDRESS: i32 = 1024;

/// A span of time.
#[derive(Clone, Copy, Debug, PartialEq, Eq, Structural)]
pub struct Span {
    /// Whole seconds.
    pub secs: u64,
    /// Nanoseconds beyond them.
    pub nanos: u32,
}

impl Span {
    /// Less than a second in nanoseconds.
    pub open spec fn wf(self) -> bool {
        self.nanos < 1_000_000_000
    }

    /// A span of whole seconds.
    pub fn from_secs(secs: u64) -> (r: Span)
        ensures
            r.secs == secs,
            r.nanos == 0,
    {
        Span { secs, nanos: 0 }
    }

    /// A span of milliseconds.
    pub fn from_millis(millis: u64) -> (r: Span)
        ensures
            r.wf(),
            r.secs as int * 1000 + r.nanos as int / 1_000_000 == millis,
            r.nanos % 1_000_000 == 0,
    {
        Span { secs: millis / 1000, nanos: (millis % 1000) as u32 * 1_000_000 }
    }
}

/// The text that the `Debug` format of `std::time::Duration` gives a span.
pub uninterp spec fn span_text(secs: u64, nanos: u32) -> Seq<char>;

/// `std::time::Duration` in its `Debug` format: the text is a function of the
/// seconds and nanoseconds alone.
#[verifier::external_body]
fn show_span(secs: u64, nanos: u32) -> (r: String)
    requires
        nanos < 1_000_000_000,
    ensures
        r@ == span_text(secs, nanos),
{
    format!("{:?}", std::time::Duration::new(secs, nanos))
}

/// What can go wrong with a module.
#[derive(Debug)]
pub enum WasmError {
    /// It is too large.
    ModuleTooLarge {
        /// Its size.
        size: usize,
        /// The largest size.
        max: usize,
    },
    /// It does not compile.
    Compilation(String),
    /// It cannot be instantiated.
    Instantiation(String),
    /// Its run failed.
    Invocation(String),
    /// Its run took too many instructions.
    FuelExhausted,
    /// Its run took too long.
    Timeout(Span),
    /// It asked for too much memory.
    MemoryLimitExceeded {
        /// The limit, in bytes.
        max_bytes: usize,
    },
    /// It is not cached.
    ModuleNotFound(String),
}

/// What can go wrong with a module.
pub enum WasmErrorView {
    /// It is too large: its size, and the largest size.
    ModuleTooLarge(nat, nat),
    /// It does not compile.
    Compilation(Seq<char>),
    /// It cannot be instantiated.
    Instantiation(Seq<char>),
    /// Its run failed.
    Invocation(Seq<char>),
    /// Its run took too many instructions.
    FuelExhausted,
    /// Its run took too long.
    Timeout(Span),
    /// It asked for more memory than the limit.
    MemoryLimitExceeded(nat),
    /// It is not cached.
    ModuleNotFound(Seq<char>),
}

impl View for WasmError {
    type V = WasmErrorView;

    open spec fn view(&self) -> WasmErrorView {
        match *self {
            WasmError::ModuleTooLarge { size, max } => WasmErrorView::ModuleTooLarge(
                size as nat,
                max as nat,
            ),
            WasmError::Compilation(m) => WasmErrorView::Compilation(m@),
            WasmError::Instantiation(m) => WasmErrorView::Instantiation(m@),
            WasmError::Invocation(m) => WasmErrorView::Invocation(m@),
            WasmError::FuelExhausted => WasmErrorView::FuelExhausted,
            WasmError::Timeout(d) => WasmErrorView::Timeout(d),
            WasmError::MemoryLimitExceeded { max_bytes } => WasmErrorView::MemoryLimitExceeded(
                max_bytes as nat,
            ),
            WasmError::ModuleNotFound(h) => WasmErrorView::ModuleNotFound(h@),
        }
    }
}

/// The error in words.
pub open spec fn wasm_message(e: WasmErrorView) -> Seq<char> {
    match e {
        WasmErrorView::ModuleTooLarge(size, max) => "module too large: "@ + decimal(size)
            + " bytes (max "@ + decimal(max) + ")"@,
        WasmErrorView::Compilation(m) => "compilation failed: "@ + m,
        WasmErrorView::Instantiation(m) => "instantiation failed: "@ + m,
        WasmErrorView::Invocation(m) => "invocation failed: "@ + m,
        WasmErrorView::FuelExhausted => "fuel exhausted -- module exceeded instruction budget"@,
        WasmErrorView::Timeout(d) => "execution timeout -- module exceeded time budget of "@
            + span_text(d.secs, d.nanos),
        WasmErrorView::MemoryLimitExceeded(
            max,
        ) => "memory limit exceeded -- module requested more than "@ + decimal(max) + " bytes"@,
        WasmErrorView::ModuleNotFound(h) => "module not found: "@ + h,
    }
}

impl WasmError {
    /// The error in words.
    pub fn message(&self) -> (r: String)
        requires
            self@ is Timeout ==> self@->Timeout_0.wf(),
        ensures
            r@ == wasm_message(self@),
    {
        match self {
            WasmError::ModuleTooLarge { size, max } => {
                let s = decimal_text(*size as u64);
                let m = decimal_text(*max as u64);
                cat5("module too large: ", s.as_str(), " bytes (max ", m.as_str(), ")")
            },
            WasmError::Compilation(m) => cat2("compilation failed: ", m.as_str()),
            WasmError::Instantiation(m) => cat2("instantiation failed: ", m.as_str()),
            WasmError::Invocation(m) => cat2("invocation failed: ", m.as_str()),
            WasmError::FuelExhausted => {
                "fuel exhausted -- module exceeded instruction budget".to_string()
            },
            WasmError::Timeout(d) => {
                let t = show_span(d.secs, d.nanos);
                cat2("execution timeout -- module exceeded time budget of ", t.as_str())
            },
            WasmError::MemoryLimitExceeded { max_bytes } => {
                let m = decimal_text(*max_bytes as u64);
                cat3("memory limit exceeded -- module requested more than ", m.as_str(), " bytes")
            },
            WasmError::ModuleNotFound(h) => cat2("module not found: ", h.as_str()),
        }
    }
}

/// The limits under which a module runs.
#[derive(Clone, Copy, Debug, PartialEq, Eq, Structural)]
pub struct WasmResourceLimits {
    /// The most instructions.
    pub max_fuel: u64,
    /// The most memory, in bytes.
    pub max_memory: usize,
    /// The longest time.
    pub max_duration: Span,
    /// The longest response, in bytes.
    pub max_response_bytes: usize,
}

impl Default for WasmResourceLimits {
    fn default() -> (r: WasmResourceLimits)
        ensures
            r.max_fuel == 1_000_000_000,
            r.max_memory == 16 * 1024 * 1024,
            r.max_duration == (Span { secs: 30, nanos: 0 }),
            r.max_response_bytes == 1024 * 1024,
    {
        WasmResourceLimits {
            max_fuel: 1_000_000_000,
            max_memory: 16 * 1024 * 1024,
            max_duration: Span { secs: 30, nanos: 0 },
            max_response_bytes: 1024 * 1024,
        }
    }
}

/// Holds a module to its memory limit.
#[derive(Clone, Copy, Debug, PartialEq, Eq, Structural)]
pub struct MemoryLimiter {
    /// The most memory, in bytes.
    pub max_memory: usize,
}

impl MemoryLimiter {
    /// Whether the memory may grow to `desired` bytes.
    pub fn memory_growing(&self, desired: usize) -> (r: bool)
        ensures
            r == (desired <= self.max_memory),
    {
        !(desired > self.max_memory)
    }

    /// Whether a table may grow: it always may.
    pub fn table_growing(&self) -> (r: bool)
        ensures
            r,
    {
        true
    }
}

/// The SHA-256 hash of bytes, in lower case hexadecimal digits.
pub uninterp spec fn sha256_hex(b: Seq<u8>) -> Seq<char>;

/// `sha2::Sha256` over the bytes, its digest in lower case hexadecimal digits:
/// a function of the bytes alone.
#[verifier::external_body]
fn sha256(b: &[u8]) -> (r: String)
    ensures
        r@ == sha256_hex(b@),
{
    let mut hasher = sha2::Sha256::new();
    hasher.update(b);
    format!("{:x}", hasher.finalize())
}

/// The SHA-256 hash of bytes, in lower case hexadecimal digits.
pub fn hash_bytes(b: &[u8]) -> (r: String)
    ensures
        r@ == sha256_hex(b@),
{
    sha256(b)
}

/// What an engine of `wasmtime` was made with: fuel, epochs and components, each
/// on or off.
pub uninterp spec fn settings_of(e: wasmtime::Engine) -> (bool, bool, bool);

/// `wasmtime::Engine::new` on a `wasmtime::Config` with the given settings: an
/// engine that it makes has these settings. Whether it makes one depends on the
/// machine, and nothing is claimed of that, nor of the error.
#[verifier::external_body]
fn new_engine(fuel: bool, epochs: bool, components: bool) -> (r: Result<wasmtime::Engine, String>)
    ensures
        r is Ok ==> settings_of(r->Ok_0) == (fuel, epochs, components),
{
    let mut config = wasmtime::Config::new();
    config.consume_fuel(fuel);
    config.epoch_interruption(epochs);
    config.wasm_component_model(components);
    wasmtime::Engine::new(&config).map_err(|e| e.to_string())
}

/// The bytes that a module of `wasmtime` was compiled from.
pub uninterp spec fn module_source(m: wasmtime::Module) -> Seq<u8>;

/// The engine of `wasmtime` that a module was compiled by, which is the only one
/// that can run it.
pub uninterp spec fn module_engine(m: wasmtime::Module) -> wasmtime::Engine;

/// `wasmtime::Module::new`: a module that it returns was compiled from the given
/// bytes by the given engine. Whether it compiles them depends on the machine too, and nothing is
/// claimed of that, nor of the error.
#[verifier::external_body]
fn compile(engine: &wasmtime::Engine, b: &[u8]) -> (r: Result<wasmtime::Module, String>)
    ensures
        r is Ok ==> module_source(r->Ok_0) == b@ && module_engine(r->Ok_0) == *engine,
{
    wasmtime::Module::new(engine, b).map_err(|e| e.to_string())
}

/// A compiled module in the cache.
pub struct CachedModule {
    /// The module.
    pub module: wasmtime::Module,
}

impl CachedModule {
    /// The bytes that the module was compiled from.
    pub open spec fn source(&self) -> Seq<u8> {
        module_source(self.module)
    }

    /// The engine that the module was compiled by.
    pub open spec fn engine(&self) -> wasmtime::Engine {
        module_engine(self.module)
    }
}

/// An engine with its cache of compiled modules.
pub struct WasmEngine {
    engine: wasmtime::Engine,
    cache: Table<CachedModule>,
}

impl WasmEngine {
    /// The cached modules, by the hash of their bytes.
    pub closed spec fn modules(&self) -> Map<Seq<char>, CachedModule> {
        self.cache@
    }

    /// The hashes of the cached modules, in order.
    pub closed spec fn cached(&self) -> Seq<Seq<char>> {
        self.cache.keys()
    }

    /// The table of the cache is well formed.
    pub closed spec fn sound(&self) -> bool {
        self.cache.wf()
    }

    /// The module belongs into the cache under the hash: it is the hash of the
    /// bytes that the module was compiled from, and it was this engine that
    /// compiled them.
    pub open spec fn fits(&self, h: Seq<char>, m: CachedModule) -> bool {
        sha256_hex(m.source()) == h && m.engine() == self.inner()
    }

    /// Every hash is cached once, with a module that belongs under it.
    pub open spec fn wf(&self) -> bool {
        &&& self.sound()
        &&& forall|h: Seq<char>| #[trigger]
            self.modules().contains_key(h) ==> self.fits(h, self.modules()[h])
    }

    /// An engine with fuel, epochs and components, with nothing cached.
    pub fn new() -> (r: Result<WasmEngine, WasmError>)
        ensures
            match r {
                Ok(e) => e.wf() && e.modules() == Map::<Seq<char>, CachedModule>::empty()
                    && settings_of(e.inner()) == (true, true, true),
                Err(e) => e@ is Compilation,
            },
    {
        let made = new_engine(true, true, true);
        WasmEngine::with_engine(made)
    }

    /// The engine that was made, with nothing cached, or the error that came
    /// instead.
    pub fn with_engine(
        made: Result<wasmtime::Engine, String>,
    ) -> (r: Result<WasmEngine, WasmError>)
        ensures
            match made {
                Ok(engine) => r is Ok && r->Ok_0.wf() && r->Ok_0.modules() == Map::<
                    Seq<char>,
                    CachedModule,
                >::empty() && r->Ok_0.inner() == engine,
                Err(m) => r is Err && r->Err_0@ == WasmErrorView::Compilation(m@),
            },
    {
        match made {
            Ok(engine) => Ok(WasmEngine { engine, cache: Table::new() }),
            Err(m) => Err(WasmError::Compilation(m)),
        }
    }

    /// The SHA-256 hash of the bytes of a module.
    pub fn hash_module(wasm_bytes: &[u8]) -> (r: String)
        ensures
            r@ == sha256_hex(wasm_bytes@),
    {
        hash_bytes(wasm_bytes)
    }

    /// Whether a module is cached.
    pub fn is_cached(&self, hash: &str) -> (r: bool)
        requires
            self.wf(),
        ensures
            r == self.modules().contains_key(hash@),
    {
        self.cache.contains_key(hash)
    }

    /// The number of cached modules.
    pub fn cache_size(&self) -> (r: usize)
        requires
            self.wf(),
        ensures
            r == self.cached().len(),
            crate::order::strictly_sorted(self.cached()),
            forall|h: Seq<char>| #[trigger] self.cached().contains(h) == self.modules().contains_key(
                h,
            ),
    {
        proof {
            self.cache.lemma_table();
        }
        self.cache.len()
    }

    /// The engine that compiles and runs the modules.
    pub closed spec fn inner(&self) -> wasmtime::Engine {
        self.engine
    }

    /// The engine that compiles and runs the modules.
    pub fn engine(&self) -> (r: &wasmtime::Engine)
        ensures
            *r == self.inner(),
    {
        &self.engine
    }

    /// The cached module with a hash.
    pub fn module(&self, hash: &str) -> (r: Result<&CachedModule, WasmError>)
        requires
            self.wf(),
        ensures
            match r {
                Ok(m) => self.modules().contains_key(hash@) && *m == self.modules()[hash@]
                    && self.fits(hash@, *m),
                Err(e) => !self.modules().contains_key(hash@) && e@
                    == WasmErrorView::ModuleNotFound(hash@),
            },
    {
        match self.cache.get(hash) {
            Some(m) => Ok(m),
            None => Err(WasmError::ModuleNotFound(hash.to_string())),
        }
    }

    /// Takes in what came of compiling a module: a module is cached under its
    /// hash, an error is passed on.
    pub fn take_in(
        &mut self,
        hash: String,
        compiled: Result<CachedModule, String>,
    ) -> (r: Result<String, WasmError>)
        requires
            old(self).wf(),
            compiled is Ok ==> old(self).fits(hash@, compiled->Ok_0),
        ensures
            final(self).wf(),
            final(self).inner() == old(self).inner(),
            match compiled {
                Ok(m) => r is Ok && r->Ok_0@ == hash@ && final(self).modules() == old(self).modules().insert(hash@, m),
                Err(m) => r is Err && r->Err_0@ == WasmErrorView::Compilation(m@) && final(self).modules() == old(self).modules(),
            },
    {
        match compiled {
            Ok(m) => {
                self.cache.insert(hash.clone(), m);
                proof {
                    assert forall|h: Seq<char>| #[trigger]
                        self.modules().contains_key(h) implies self.fits(
                        h,
                        self.modules()[h],
                    ) by {
                        if h != hash@ {
                            assert(old(self).modules().contains_key(h));
                        }
                    }
                }
                Ok(hash)
            },
            Err(m) => Err(WasmError::Compilation(m)),
        }
    }

    /// Compiles a module, unless it is cached, and caches it under its hash.
    pub fn compile_and_cache(&mut self, wasm_bytes: &[u8]) -> (r: Result<String, WasmError>)
        requires
            old(self).wf(),
        ensures
            final(self).wf(),
            final(self).inner() == old(self).inner(),
            ({
                let h = sha256_hex(wasm_bytes@);
                let was = old(self).modules();
                let now = final(self).modules();
                if wasm_bytes@.len() > MAX_MODULE_SIZE {
                    now == was && r is Err && r->Err_0@ == WasmErrorView::ModuleTooLarge(
                        wasm_bytes@.len(),
                        MAX_MODULE_SIZE as nat,
                    )
                } else if was.contains_key(h) {
                    now == was && r is Ok && r->Ok_0@ == h
                } else {
                    match r {
                        Ok(x) => x@ == h && now.contains_key(h) && now[h].source() == wasm_bytes@
                            && now[h].engine() == old(self).inner() && now == was.insert(
                            h,
                            now[h],
                        ),
                        Err(e) => e@ is Compilation && now == was,
                    }
                }
            }),
    {
        if wasm_bytes.len() > MAX_MODULE_SIZE {
            return Err(
                WasmError::ModuleTooLarge { size: wasm_bytes.len(), max: MAX_MODULE_SIZE },
            );
        }
        let hash = WasmEngine::hash_module(wasm_bytes);
        if self.is_cached(hash.as_str()) {
            return Ok(hash);
        }
        let compiled = match compile(&self.engine, wasm_bytes) {
            Ok(module) => Ok(CachedModule { module }),
            Err(m) => Err(m),
        };
        self.take_in(hash, compiled)
    }

    /// Drops a module from the cache; says whether it was there.
    pub fn evict(&mut self, hash: &str) -> (r: bool)
        requires
            old(self).wf(),
        ensures
            final(self).wf(),
            final(self).inner() == old(self).inner(),
            r == old(self).modules().contains_key(hash@),
            final(self).modules() == old(self).modules().remove(hash@),
    {
        let found = self.cache.remove(hash);
        proof {
            assert forall|h: Seq<char>| #[trigger] self.modules().contains_key(h) implies self.fits(
                h,
                self.modules()[h],
            ) by {
                assert(old(self).modules().contains_key(h));
            }
        }
        found
    }
}

} // verus!
