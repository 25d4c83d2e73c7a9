//! One run of a guest module: what can fail before it, and what is made of its
//! result.
use vstd::prelude::*;
use vstd::utf8::decode_utf8;
use vstd::utf8::valid_utf8;

use crate::guest::guest_length;
use crate::guest::in_range;
use crate::guest::read_exact;
use crate::guest::text_from_utf8;
use crate::guest::utf8_error;
use crate::guest::wrapped;
use crate::guest::write_bytes;
use crate::guest::written;
use crate::json::Json;
use crate::json::JsonView;
use crate::json_text::json_read;
use crate::json_text::parse;
use crate::order::opt_view;
use crate::text::cat2;
use crate::text::cat4;
use crate::wasm::Span;
use crate::wasm::WasmError;
use crate::wasm::WasmErrorView;
use crate::wasm::CONTEXT_ADDRESS;

verus! {

/// What the host offers to guests.
#[derive(Clone, Copy, Debug, PartialEq, Eq, Structural)]
pub enum HostFunction {
    /// Write a line to the log.
    Log,
    /// Read the context of the run.
    GetContext,
    /// Set the result of the run.
    SetResult,
    /// Read a secret.
    GetSecret,
    /// Send a request with a text body.
    HttpCall,
    /// Send a request with a stream as body.
    HttpCallStream,
    /// Ask whether something is cached.
    CacheContains,
    /// Make cached bytes a stream.
    CacheToStream,
    /// Cache the bytes of a stream.
    CacheFromStream,
    /// Hash the bytes of a stream.
    HashStream,
}

/// The name under which guests import a host function.
pub open spec fn import_name(f: HostFunction) -> Seq<char> {
    match f {
        HostFunction::Log => "host_log"@,
        HostFunction::GetContext => "host_get_context"@,
        HostFunction::SetResult => "host_set_result"@,
        HostFunction::GetSecret => "host_get_secret"@,
        HostFunction::HttpCall => "host_http_call"@,
        HostFunction::HttpCallStream => "host_http_call_stream"@,
        HostFunction::CacheContains => "host_cache_contains"@,
        HostFunction::CacheToStream => "host_cache_to_stream"@,
        HostFunction::CacheFromStream => "host_cache_from_stream"@,
        HostFunction::HashStream => "host_hash_stream"@,
    }
}

/// What a host function returns to a guest without memory. The one that reads
/// the context returns its length all the same; those that return nothing are
/// listed with zero.
pub open spec fn answer_without_memory(f: HostFunction, context_len: nat) -> i32 {
    match f {
        HostFunction::Log => 0,
        HostFunction::SetResult => 0,
        HostFunction::CacheContains => 0,
        HostFunction::GetContext => wrapped(context_len),
        _ => (-1) as i32,
    }
}

impl HostFunction {
    /// The name under which guests import it.
    pub fn name(self) -> (r: &'static str)
        ensures
            r@ == import_name(self),
    {
        match self {
            HostFunction::Log => "host_log",
            HostFunction::GetContext => "host_get_context",
            HostFunction::SetResult => "host_set_result",
            HostFunction::GetSecret => "host_get_secret",
            HostFunction::HttpCall => "host_http_call",
            HostFunction::HttpCallStream => "host_http_call_stream",
            HostFunction::CacheContains => "host_cache_contains",
            HostFunction::CacheToStream => "host_cache_to_stream",
            HostFunction::CacheFromStream => "host_cache_from_stream",
            HostFunction::HashStream => "host_hash_stream",
        }
    }

    /// What it returns to a guest without memory.
    pub fn without_memory(self, context: &str) -> (r: i32)
        ensures
            r == answer_without_memory(self, vstd::utf8::encode_utf8(context@).len()),
    {
        match self {
            HostFunction::Log => 0,
            HostFunction::SetResult => 0,
            HostFunction::CacheContains => 0,
            HostFunction::GetContext => guest_length(context.as_bytes().len()),
            HostFunction::GetSecret => -1,
            HostFunction::HttpCall => -1,
            HostFunction::HttpCallStream => -1,
            HostFunction::CacheToStream => -1,
            HostFunction::CacheFromStream => -1,
            HostFunction::HashStream => -1,
        }
    }
}

/// A step before the run at which something can fail.
#[derive(Clone, Copy, Debug, PartialEq, Eq, Structural)]
pub enum Stage {
    /// Putting the context into JSON.
    Context,
    /// Setting the budget of instructions.
    Fuel,
    /// Linking a host function.
    Link(HostFunction),
    /// Instantiating the module.
    Instance,
    /// Finding its function `run`.
    Run,
    /// Finding its memory.
    Memory,
    /// Writing the context to its memory.
    Write,
}

/// The error for a failure at a step.
pub open spec fn stage_failure(stage: Stage, cause: Seq<char>) -> WasmErrorView {
    match stage {
        Stage::Context => WasmErrorView::Invocation("failed to serialize context: "@ + cause),
        Stage::Fuel => WasmErrorView::Invocation("failed to set fuel: "@ + cause),
        Stage::Link(f) => WasmErrorView::Compilation(
            "failed to link "@ + import_name(f) + ": "@ + cause,
        ),
        Stage::Instance => WasmErrorView::Instantiation(cause),
        Stage::Run => WasmErrorView::Invocation("module missing 'run' export: "@ + cause),
        Stage::Memory => WasmErrorView::Invocation("module missing 'memory' export"@),
        Stage::Write => WasmErrorView::Invocation("failed to write context to memory: "@ + cause),
    }
}

/// The error for a failure at a step.
pub fn stage_error(stage: Stage, cause: &str) -> (r: WasmError)
    ensures
        r@ == stage_failure(stage, cause@),
{
    match stage {
        Stage::Context => WasmError::Invocation(cat2("failed to serialize context: ", cause)),
        Stage::Fuel => WasmError::Invocation(cat2("failed to set fuel: ", cause)),
        Stage::Link(f) => WasmError::Compilation(cat4("failed to link ", f.name(), ": ", cause)),
        Stage::Instance => WasmError::Instantiation(cause.to_string()),
        Stage::Run => WasmError::Invocation(cat2("module missing 'run' export: ", cause)),
        Stage::Memory => WasmError::Invocation("module missing 'memory' export".to_string()),
        Stage::Write => WasmError::Invocation(cat2("failed to write context to memory: ", cause)),
    }
}

/// Writes the context of a run to the guest's memory, at the address where the
/// run looks for it. Returns what the run is called with: the address and the
/// length in bytes.
pub fn write_context(mem: &mut [u8], context: &str) -> (r: Result<(i32, i32), WasmError>)
    ensures
        ({
            let b = vstd::utf8::encode_utf8(context@);
            let fits = in_range(old(mem)@, CONTEXT_ADDRESS as int, b.len() as int);
            &&& final(mem)@ == written(old(mem)@, CONTEXT_ADDRESS as int, b)
            &&& r is Ok <==> fits
            &&& fits ==> r->Ok_0 == (CONTEXT_ADDRESS, wrapped(b.len()))
            &&& !fits ==> r->Err_0@ == stage_failure(Stage::Write, "out of bounds memory access"@)
        }),
{
    let b = context.as_bytes();
    let n: i32 = guest_length(b.len());
    if write_bytes(mem, CONTEXT_ADDRESS, b) {
        Ok((CONTEXT_ADDRESS, n))
    } else {
        Err(stage_error(Stage::Write, "out of bounds memory access"))
    }
}

/// Why a run ended without returning.
#[derive(Debug)]
pub enum CallFailure {
    /// It took too many instructions.
    OutOfFuel,
    /// It took too long.
    Interrupted,
    /// Anything else, in words.
    Other(String),
}

/// The error for a run that did not return; `budget` is the time it had.
pub fn call_error(failure: CallFailure, budget: Span) -> (r: WasmError)
    ensures
        r@ == match failure {
            CallFailure::OutOfFuel => WasmErrorView::FuelExhausted,
            CallFailure::Interrupted => WasmErrorView::Timeout(budget),
            CallFailure::Other(m) => WasmErrorView::Invocation(m@),
        },
{
    match failure {
        CallFailure::OutOfFuel => WasmError::FuelExhausted,
        CallFailure::Interrupted => WasmError::Timeout(budget),
        CallFailure::Other(m) => WasmError::Invocation(m),
    }
}

/// The number that four bytes stand for, the lowest first.
pub open spec fn little_endian(b: Seq<u8>) -> nat {
    (b[0] as nat) + (b[1] as nat) * 0x100 + (b[2] as nat) * 0x1_0000 + (b[3] as nat) * 0x100_0000
}

/// What a run left as its result. What it set through the host counts first;
/// else a positive pointer leads to the bytes, with their number in the four
/// bytes before it; else there is nothing.
pub open spec fn result_text(set: Option<Seq<char>>, ptr: i32, mem: Seq<u8>) -> Result<
    Seq<char>,
    Seq<char>,
> {
    if let Some(t) = set {
        Ok(t)
    } else if ptr <= 0 {
        Ok(Seq::empty())
    } else if !in_range(mem, ptr - 4, 4) {
        Err("failed to read result length: "@ + "out of bounds memory access"@)
    } else {
        let n = little_endian(mem.subrange(ptr - 4, ptr as int));
        if !in_range(mem, ptr as int, n as int) {
            Err("failed to read result: "@ + "out of bounds memory access"@)
        } else {
            let b = mem.subrange(ptr as int, ptr + n);
            if valid_utf8(b) {
                Ok(decode_utf8(b))
            } else {
                Err("result is not valid UTF-8: "@ + utf8_error(b))
            }
        }
    }
}

/// What a run left as its result.
pub fn read_result(set: &Option<String>, ptr: i32, mem: &[u8]) -> (r: Result<String, WasmError>)
    ensures
        match result_text(opt_view(*set), ptr, mem@) {
            Ok(t) => r is Ok && r->Ok_0@ == t,
            Err(m) => r is Err && r->Err_0@ == WasmErrorView::Invocation(m),
        },
{
    if let Some(t) = set {
        return Ok(t.clone());
    }
    if ptr <= 0 {
        let t = String::new();
        assert(t@ =~= Seq::empty());
        return Ok(t);
    }
    match read_exact(mem, ptr - 4, 4) {
        None => Err(
            WasmError::Invocation(
                cat2("failed to read result length: ", "out of bounds memory access"),
            ),
        ),
        Some(len) => {
            let n: u64 = len[0] as u64 + (len[1] as u64) * 0x100 + (len[2] as u64) * 0x1_0000 + (
            len[3] as u64) * 0x100_0000;
            assert(n == little_endian(mem@.subrange(ptr - 4, ptr as int)));
            if n > mem.len() as u64 {
                return Err(
                    WasmError::Invocation(
                        cat2("failed to read result: ", "out of bounds memory access"),
                    ),
                );
            }
            match read_exact(mem, ptr, n as usize) {
                None => Err(
                    WasmError::Invocation(
                        cat2("failed to read result: ", "out of bounds memory access"),
                    ),
                ),
                Some(b) => match text_from_utf8(b) {
                    Ok(t) => Ok(t),
                    Err(m) => Err(
                        WasmError::Invocation(cat2("result is not valid UTF-8: ", m.as_str())),
                    ),
                },
            }
        },
    }
}

/// The result of a run.
pub struct ResultView {
    /// The action to call back.
    pub callback_action: Seq<char>,
    /// Its parameters.
    pub callback_params: JsonView,
    /// Whether the run succeeded.
    pub success: bool,
    /// What went wrong.
    pub error: Option<Seq<char>>,
    /// How long it took.
    pub duration_ms: u64,
}

/// The result of a run.
pub struct WasmInvocationResult {
    /// The action to call back.
    pub callback_action: String,
    /// Its parameters.
    pub callback_params: Json,
    /// Whether the run succeeded.
    pub success: bool,
    /// What went wrong.
    pub error: Option<String>,
    /// How long it took.
    pub duration_ms: u64,
}

impl View for WasmInvocationResult {
    type V = ResultView;

    open spec fn view(&self) -> ResultView {
        ResultView {
            callback_action: self.callback_action@,
            callback_params: self.callback_params@,
            success: self.success,
            error: opt_view(self.error),
            duration_ms: self.duration_ms,
        }
    }
}

/// What a result in JSON says. A run that does not say otherwise succeeded.
pub open spec fn decoded(v: JsonView, duration_ms: u64) -> ResultView {
    ResultView {
        callback_action: v.text_or("action"@, ""@),
        callback_params: match v.field("params"@) {
            Some(p) => p,
            None => JsonView::Null,
        },
        success: match v.field("success"@) {
            Some(JsonView::Bool(b)) => b,
            _ => true,
        },
        error: v.text_field("error"@),
        duration_ms,
    }
}

/// What an empty result says: the run failed.
pub open spec fn empty_result(duration_ms: u64) -> ResultView {
    ResultView {
        callback_action: ""@,
        callback_params: JsonView::Null,
        success: false,
        error: Some("module returned empty result"@),
        duration_ms,
    }
}

/// What a result in JSON says.
pub fn decode_result(v: &Json, duration_ms: u64) -> (r: WasmInvocationResult)
    ensures
        r@ == decoded(v@, duration_ms),
{
    WasmInvocationResult {
        callback_action: v.text_or("action", ""),
        callback_params: match v.get("params") {
            Some(p) => p.copy(),
            None => Json::Null,
        },
        success: match v.get("success") {
            Some(Json::Bool(b)) => *b,
            _ => true,
        },
        error: v.text_field("error"),
        duration_ms,
    }
}

/// What is made of the text that a run left as its result.
pub open spec fn outcome(
    text: Seq<char>,
    duration_ms: u64,
    read: Result<JsonView, Seq<char>>,
) -> Result<ResultView, WasmErrorView> {
    if text.len() == 0 {
        Ok(empty_result(duration_ms))
    } else {
        match read {
            Ok(v) => Ok(decoded(v, duration_ms)),
            Err(m) => Err(WasmErrorView::Invocation("failed to parse result JSON: "@ + m)),
        }
    }
}

/// What is made of the text that a run left as its result, where `read` is what
/// it reads as.
pub fn conclude(
    text: &str,
    duration_ms: u64,
    read: Result<Json, String>,
) -> (r: Result<WasmInvocationResult, WasmError>)
    ensures
        match r {
            Ok(x) => outcome(text@, duration_ms, read_view(read)) == Ok::<
                ResultView,
                WasmErrorView,
            >(x@),
            Err(e) => outcome(text@, duration_ms, read_view(read)) == Err::<
                ResultView,
                WasmErrorView,
            >(e@),
        },
{
    if text.is_empty() {
        return Ok(
            WasmInvocationResult {
                callback_action: "".to_string(),
                callback_params: Json::Null,
                success: false,
                error: Some("module returned empty result".to_string()),
                duration_ms,
            },
        );
    }
    match read {
        Ok(v) => Ok(decode_result(&v, duration_ms)),
        Err(m) => Err(WasmError::Invocation(cat2("failed to parse result JSON: ", m.as_str()))),
    }
}

/// What a text reads as, or what is wrong with it.
pub open spec fn read_view(r: Result<Json, String>) -> Result<JsonView, Seq<char>> {
    match r {
        Ok(v) => Ok(v@),
        Err(m) => Err(m@),
    }
}

/// What is made of a run: what it set through the host or left in its memory is
/// read as JSON.
pub fn finish_invocation(
    set: &Option<String>,
    ptr: i32,
    mem: &[u8],
    duration_ms: u64,
) -> (r: Result<WasmInvocationResult, WasmError>)
    ensures
        match result_text(opt_view(*set), ptr, mem@) {
            Ok(t) => match r {
                Ok(x) => outcome(t, duration_ms, json_read(t)) == Ok::<ResultView, WasmErrorView>(
                    x@,
                ),
                Err(e) => outcome(t, duration_ms, json_read(t)) == Err::<
                    ResultView,
                    WasmErrorView,
                >(e@),
            },
            Err(m) => r is Err && r->Err_0@ == WasmErrorView::Invocation(m),
        },
{
    match read_result(set, ptr, mem) {
        Ok(t) => {
            let read = parse(t.as_str());
            conclude(t.as_str(), duration_ms, read)
        },
        Err(e) => Err(e),
    }
}

/// What a run sets through the host counts, whatever pointer it returns and
/// whatever its memory holds.
pub proof fn lemma_set_result_counts(
    set: Seq<char>,
    ptr: i32,
    mem: Seq<u8>,
    other_ptr: i32,
    other: Seq<u8>,
)
    ensures
        result_text(Some(set), ptr, mem) == Ok::<Seq<char>, Seq<char>>(set),
        result_text(Some(set), ptr, mem) == result_text(Some(set), other_ptr, other),
{
}

} // verus!
