//! What a guest reads from its host and leaves to it, and what its run comes to.
use vstd::prelude::*;
use vstd::utf8::decode_utf8;
use vstd::utf8::valid_utf8;

use crate::guest::bytes_at;
use crate::guest::lossy_text;
use crate::guest::offered;
use crate::guest::text_at;
use crate::guest::utf8_error;
use crate::guest::wrapped;
use crate::guest::written;
use crate::host::optional_text;
use crate::host::response_text;
use crate::host::slot_headers;
use crate::host::slot_text;
use crate::host::stream_hash;
use crate::host::Slot;
use crate::invocation::answer_without_memory;
use crate::invocation::import_name;
use crate::invocation::outcome;
use crate::invocation::result_text;
use crate::invocation::stage_failure;
use crate::invocation::HostFunction;
use crate::invocation::Stage;
use crate::json::JsonView;
use crate::json_text::json_read_pairs;
use crate::text::decimal;
use crate::tool_laws::gives;
use crate::tool_laws::lacks;
use crate::wasm::sha256_hex;
use crate::wasm::wasm_message;
use crate::wasm::WasmErrorView;

verus! {

/// A number of bytes comes to a guest as it is, where it fits 32 bits with sign; else
/// it is what it leaves when it is divided.
pub proof fn lemma_lengths(n: nat)
    ensures
        n < 0x8000_0000 ==> wrapped(n) == n,
        (wrapped(n) - n) % 0x1_0000_0000 == 0,
{
    let m = n % 0x1_0000_0000;
    assert(n == (n / 0x1_0000_0000) * 0x1_0000_0000 + m) by (nonlinear_arith)
        requires
            m == n % 0x1_0000_0000,
    ;
    let q = n as int / 0x1_0000_0000;
    assert(wrapped(n) - n == (-q) * 0x1_0000_0000 || wrapped(n) - n == (-q - 1) * 0x1_0000_0000)
        by (nonlinear_arith)
        requires
            n == q * 0x1_0000_0000 + m,
            m < 0x1_0000_0000,
            wrapped(n) == m || wrapped(n) == m - 0x1_0000_0000,
    ;
}

/// What a guest reads lies in its memory byte by byte; what does not lie there reads
/// as zeros. What is no UTF-8 is read with replacement characters.
pub proof fn lemma_reading(mem: Seq<u8>, ptr: int, len: int)
    requires
        0 <= len,
    ensures
        bytes_at(mem, ptr, len).len() == len,
        forall|i: int|
            0 <= i < len ==> #[trigger] bytes_at(mem, ptr, len)[i] == if 0 <= ptr && ptr + len
                <= mem.len() {
                mem[ptr + i]
            } else {
                0u8
            },
        valid_utf8(bytes_at(mem, ptr, len)) ==> text_at(mem, ptr, len) == decode_utf8(
            bytes_at(mem, ptr, len),
        ),
        !valid_utf8(bytes_at(mem, ptr, len)) ==> text_at(mem, ptr, len) == lossy_text(
            bytes_at(mem, ptr, len),
        ),
{
}

/// What is written changes the bytes from the pointer on and no others; what does not
/// fit changes nothing.
pub proof fn lemma_writing(mem: Seq<u8>, ptr: int, b: Seq<u8>, i: int)
    requires
        0 <= i < mem.len(),
    ensures
        written(mem, ptr, b).len() == mem.len(),
        0 <= ptr && ptr + b.len() <= mem.len() ==> written(mem, ptr, b)[i] == if ptr <= i < ptr
            + b.len() {
            b[i - ptr]
        } else {
            mem[i]
        },
        !(0 <= ptr && ptr + b.len() <= mem.len()) ==> written(mem, ptr, b) == mem,
{
}

/// What is larger than the buffer is not written; a negative size is no limit.
pub proof fn lemma_offering(mem: Seq<u8>, b: Seq<u8>, ptr: int, room: int)
    ensures
        0 <= room && room < b.len() ==> offered(mem, b, ptr, room) == mem,
        room < 0 || b.len() <= room ==> offered(mem, b, ptr, room) == written(mem, ptr, b),
{
}

/// A slot holds the text of its bytes; where it may be left out, no bytes are the
/// empty text, and headers that are no pairs are none.
pub proof fn lemma_slots(mem: Seq<u8>, s: Slot)
    ensures
        slot_text(mem, s) == text_at(mem, s.ptr as int, s.len as int),
        s.len > 0 ==> optional_text(mem, s) == slot_text(mem, s),
        s.len <= 0 ==> optional_text(mem, s).len() == 0 && slot_headers(mem, s).len() == 0,
        s.len > 0 ==> match json_read_pairs(bytes_at(mem, s.ptr as int, s.len as int)) {
            Some(h) => slot_headers(mem, s) == h,
            None => slot_headers(mem, s).len() == 0,
        },
{
}

/// A response is its status, a line end, and its body.
pub proof fn lemma_responses(status: u16, body: Seq<char>)
    ensures
        response_text(status, body) == decimal(status as nat) + "\n"@ + body,
{
}

/// A stream is hashed by SHA-256 alone, and only where it is there.
pub proof fn lemma_hashes(streams: Map<Seq<char>, Seq<u8>>, id: Seq<char>, algorithm: Seq<char>)
    ensures
        streams.contains_key(id) && algorithm == "sha256"@ ==> stream_hash(streams, id, algorithm)
            == Some("sha256:"@ + sha256_hex(streams[id])),
        !streams.contains_key(id) || algorithm != "sha256"@ ==> stream_hash(
            streams,
            id,
            algorithm,
        ) is None,
{
}

/// Guests import each host function under a name of its own.
pub proof fn lemma_import_names(f: HostFunction, g: HostFunction)
    ensures
        import_name(f) == import_name(g) ==> f == g,
        import_name(HostFunction::Log) == "host_log"@,
        import_name(HostFunction::GetContext) == "host_get_context"@,
        import_name(HostFunction::SetResult) == "host_set_result"@,
        import_name(HostFunction::GetSecret) == "host_get_secret"@,
        import_name(HostFunction::HttpCall) == "host_http_call"@,
        import_name(HostFunction::HttpCallStream) == "host_http_call_stream"@,
        import_name(HostFunction::CacheContains) == "host_cache_contains"@,
        import_name(HostFunction::CacheToStream) == "host_cache_to_stream"@,
        import_name(HostFunction::CacheFromStream) == "host_cache_from_stream"@,
        import_name(HostFunction::HashStream) == "host_hash_stream"@,
{
    lemma_names_differ();
}

/// Without memory a guest learns how long its context is, and that nothing is cached;
/// whatever else it asks for fails.
pub proof fn lemma_without_memory(n: nat)
    ensures
        answer_without_memory(HostFunction::GetContext, n) == wrapped(n),
        answer_without_memory(HostFunction::CacheContains, n) == 0,
        answer_without_memory(HostFunction::Log, n) == 0,
        answer_without_memory(HostFunction::SetResult, n) == 0,
        answer_without_memory(HostFunction::GetSecret, n) == -1,
        answer_without_memory(HostFunction::HttpCall, n) == -1,
        answer_without_memory(HostFunction::HttpCallStream, n) == -1,
        answer_without_memory(HostFunction::CacheToStream, n) == -1,
        answer_without_memory(HostFunction::CacheFromStream, n) == -1,
        answer_without_memory(HostFunction::HashStream, n) == -1,
{
}

/// A run that fails at a step is told with the step and the cause.
pub proof fn lemma_failures_at_steps(f: HostFunction, cause: Seq<char>)
    ensures
        wasm_message(stage_failure(Stage::Context, cause)) == "invocation failed: "@ + (
        "failed to serialize context: "@ + cause),
        wasm_message(stage_failure(Stage::Fuel, cause)) == "invocation failed: "@ + (
        "failed to set fuel: "@ + cause),
        wasm_message(stage_failure(Stage::Link(f), cause)) == "compilation failed: "@ + (
        "failed to link "@ + import_name(f) + ": "@ + cause),
        wasm_message(stage_failure(Stage::Instance, cause)) == "instantiation failed: "@ + cause,
        wasm_message(stage_failure(Stage::Run, cause)) == "invocation failed: "@ + (
        "module missing 'run' export: "@ + cause),
        wasm_message(stage_failure(Stage::Memory, cause))
            == "invocation failed: "@ + "module missing 'memory' export"@,
        wasm_message(stage_failure(Stage::Write, cause)) == "invocation failed: "@ + (
        "failed to write context to memory: "@ + cause),
{
}

/// What a run left without setting a result: nothing where it returns no pointer; the
/// bytes at the pointer, as many as the four bytes before it say, the lowest first;
/// and an error where these do not lie in the memory or are no text.
pub proof fn lemma_results_are_found(ptr: i32, mem: Seq<u8>, n: int)
    requires
        ptr > 0,
        4 <= ptr && ptr <= mem.len() ==> n == mem[ptr - 4] + 256 * mem[ptr - 3] + 65536 * mem[ptr
            - 2] + 16777216 * mem[ptr - 1],
    ensures
        ({
            let r = result_text(None, ptr, mem);
            let there = 4 <= ptr && ptr <= mem.len();
            &&& !there ==> r == Err::<Seq<char>, Seq<char>>(
                "failed to read result length: "@ + "out of bounds memory access"@,
            )
            &&& there && ptr + n > mem.len() ==> r == Err::<Seq<char>, Seq<char>>(
                "failed to read result: "@ + "out of bounds memory access"@,
            )
            &&& there && ptr + n <= mem.len() ==> {
                let b = mem.subrange(ptr as int, ptr + n);
                &&& valid_utf8(b) ==> r == Ok::<Seq<char>, Seq<char>>(decode_utf8(b))
                &&& !valid_utf8(b) ==> r == Err::<Seq<char>, Seq<char>>(
                    "result is not valid UTF-8: "@ + utf8_error(b),
                )
            }
        }),
        result_text(None, 0, mem) == Ok::<Seq<char>, Seq<char>>(Seq::empty()),
        forall|p: i32| p < 0 ==> #[trigger] result_text(None, p, mem) == Ok::<
            Seq<char>,
            Seq<char>,
        >(Seq::empty()),
{
    if 4 <= ptr && ptr <= mem.len() {
        let four = mem.subrange(ptr - 4, ptr as int);
        assert(four[0] == mem[ptr - 4] && four[1] == mem[ptr - 3] && four[2] == mem[ptr - 2]
            && four[3] == mem[ptr - 1]);
        assert(crate::invocation::little_endian(four) == n);
    }
}

/// A result in JSON says what to call back with what, and succeeds unless it says that
/// it did not; an empty result is a failure, and what is no JSON an error.
pub proof fn lemma_results_are_read(
    t: Seq<char>,
    ms: u64,
    v: JsonView,
    m: Seq<char>,
)
    ensures
        t.len() == 0 ==> outcome(t, ms, Ok(v)) is Ok && {
            let r = outcome(t, ms, Ok(v))->Ok_0;
            &&& !r.success
            &&& r.error == Some("module returned empty result"@)
            &&& r.callback_action == ""@
            &&& r.callback_params == JsonView::Null
            &&& r.duration_ms == ms
        },
        t.len() > 0 ==> outcome(t, ms, Err(m)) == Err::<
            crate::invocation::ResultView,
            WasmErrorView,
        >(WasmErrorView::Invocation("failed to parse result JSON: "@ + m)),
        t.len() > 0 ==> outcome(t, ms, Ok(v)) is Ok && {
            let r = outcome(t, ms, Ok(v))->Ok_0;
            &&& !lacks(v, "action"@) ==> gives(v, "action"@, r.callback_action)
            &&& lacks(v, "action"@) ==> r.callback_action == ""@
            &&& v.field("params"@) is Some ==> r.callback_params == v.field("params"@)->0
            &&& v.field("params"@) is None ==> r.callback_params == JsonView::Null
            &&& r.success <==> v.field("success"@) != Some(JsonView::Bool(false))
            &&& !lacks(v, "error"@) ==> r.error is Some && gives(v, "error"@, r.error->0)
            &&& lacks(v, "error"@) ==> r.error is None
            &&& r.duration_ms == ms
        },
{
}

/// Errors are told in words.
pub proof fn lemma_errors_are_told(e: WasmErrorView)
    ensures
        e matches WasmErrorView::ModuleTooLarge(n, max) ==> wasm_message(e)
            == "module too large: "@ + decimal(n) + " bytes (max "@ + decimal(max) + ")"@,
        e is FuelExhausted ==> wasm_message(e)
            == "fuel exhausted -- module exceeded instruction budget"@,
        e matches WasmErrorView::Timeout(d) ==> wasm_message(e)
            == "execution timeout -- module exceeded time budget of "@
            + crate::wasm::span_text(d.secs, d.nanos),
        e matches WasmErrorView::MemoryLimitExceeded(max) ==> wasm_message(e)
            == "memory limit exceeded -- module requested more than "@ + decimal(max) + " bytes"@,
        e matches WasmErrorView::ModuleNotFound(h) ==> wasm_message(e) == "module not found: "@ + h,
{
}

proof fn lemma_names_differ()
    ensures
        "host_log"@ != "host_get_context"@,
        "host_log"@ != "host_set_result"@,
        "host_log"@ != "host_get_secret"@,
        "host_log"@ != "host_http_call"@,
        "host_log"@ != "host_http_call_stream"@,
        "host_log"@ != "host_cache_contains"@,
        "host_log"@ != "host_cache_to_stream"@,
        "host_log"@ != "host_cache_from_stream"@,
        "host_log"@ != "host_hash_stream"@,
        "host_get_context"@ != "host_set_result"@,
        "host_get_context"@ != "host_get_secret"@,
        "host_get_context"@ != "host_http_call"@,
        "host_get_context"@ != "host_http_call_stream"@,
        "host_get_context"@ != "host_cache_contains"@,
        "host_get_context"@ != "host_cache_to_stream"@,
        "host_get_context"@ != "host_cache_from_stream"@,
        "host_get_context"@ != "host_hash_stream"@,
        "host_set_result"@ != "host_get_secret"@,
        "host_set_result"@ != "host_http_call"@,
        "host_set_result"@ != "host_http_call_stream"@,
        "host_set_result"@ != "host_cache_contains"@,
        "host_set_result"@ != "host_cache_to_stream"@,
        "host_set_result"@ != "host_cache_from_stream"@,
        "host_set_result"@ != "host_hash_stream"@,
        "host_get_secret"@ != "host_http_call"@,
        "host_get_secret"@ != "host_http_call_stream"@,
        "host_get_secret"@ != "host_cache_contains"@,
        "host_get_secret"@ != "host_cache_to_stream"@,
        "host_get_secret"@ != "host_cache_from_stream"@,
        "host_get_secret"@ != "host_hash_stream"@,
        "host_http_call"@ != "host_http_call_stream"@,
        "host_http_call"@ != "host_cache_contains"@,
        "host_http_call"@ != "host_cache_to_stream"@,
        "host_http_call"@ != "host_cache_from_stream"@,
        "host_http_call"@ != "host_hash_stream"@,
        "host_http_call_stream"@ != "host_cache_contains"@,
        "host_http_call_stream"@ != "host_cache_to_stream"@,
        "host_http_call_stream"@ != "host_cache_from_stream"@,
        "host_http_call_stream"@ != "host_hash_stream"@,
        "host_cache_contains"@ != "host_cache_to_stream"@,
        "host_cache_contains"@ != "host_cache_from_stream"@,
        "host_cache_contains"@ != "host_hash_stream"@,
        "host_cache_to_stream"@ != "host_cache_from_stream"@,
        "host_cache_to_stream"@ != "host_hash_stream"@,
        "host_cache_from_stream"@ != "host_hash_stream"@,
{
    reveal_strlit("host_log");
    reveal_strlit("host_get_context");
    reveal_strlit("host_set_result");
    reveal_strlit("host_get_secret");
    reveal_strlit("host_http_call");
    reveal_strlit("host_http_call_stream");
    reveal_strlit("host_cache_contains");
    reveal_strlit("host_cache_to_stream");
    reveal_strlit("host_cache_from_stream");
    reveal_strlit("host_hash_stream");
    assert("host_log"@.len() == 8);
    assert("host_get_context"@.len() == 16);
    assert("host_set_result"@.len() == 15);
    assert("host_get_secret"@.len() == 15);
    assert("host_http_call"@.len() == 14);
    assert("host_http_call_stream"@.len() == 21);
    assert("host_cache_contains"@.len() == 19);
    assert("host_cache_to_stream"@.len() == 20);
    assert("host_cache_from_stream"@.len() == 22);
    assert("host_hash_stream"@.len() == 16);
    assert("host_get_context"@[5] == 'g');
    assert("host_hash_stream"@[5] == 'h');
    assert("host_set_result"@[5] == 's');
    assert("host_get_secret"@[5] == 'g');
}

} // verus!
