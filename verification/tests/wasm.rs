use temper::guest::{offer_text, read_bytes, read_exact, read_text, write_bytes};
use temper::host::{
    give_response, give_secret, host_cache_contains, host_cache_from_stream, host_cache_to_stream,
    host_get_context, host_hash_stream, host_set_result, keep_response, read_http_request,
    read_log_line, read_secret_key, read_stream_request, stream_body, Slot,
};
use temper::install::compile_modules;
use temper::invocation::{
    call_error, finish_invocation, stage_error, write_context, CallFailure, HostFunction, Stage,
};
use temper::streams::StreamRegistry;
use temper::wasm::{
    MemoryLimiter, Span, WasmEngine, WasmError, WasmResourceLimits, MAX_MODULE_SIZE,
};

// Minimal module: accepts (ptr, len), writes nothing, returns 0.
const WAT_NOOP: &str = r#"
        (module
          (memory (export "memory") 1)
          (func (export "run") (param i32 i32) (result i32)
            i32.const 0
          )
        )
    "#;

#[test]
fn hash_module_deterministic() {
    let bytes = b"test wasm bytes";
    let h1 = WasmEngine::hash_module(bytes);
    let h2 = WasmEngine::hash_module(bytes);
    assert_eq!(h1, h2);
    assert!(!h1.is_empty());
}

#[test]
fn engine_creation() {
    let engine = WasmEngine::new();
    assert!(engine.is_ok());
}

#[test]
fn module_too_large_rejected() {
    let mut engine = WasmEngine::new().unwrap_or_else(|e| panic!("{}", e.message()));
    let big = vec![0u8; MAX_MODULE_SIZE + 1];
    let result = engine.compile_and_cache(&big);
    assert!(matches!(result, Err(WasmError::ModuleTooLarge { .. })));
}

#[test]
fn resource_limits_default() {
    let limits = WasmResourceLimits::default();
    assert_eq!(limits.max_fuel, 1_000_000_000);
    assert_eq!(limits.max_memory, 16 * 1024 * 1024);
    assert_eq!(limits.max_duration, Span::from_secs(30));
    assert_eq!(limits.max_response_bytes, 1024 * 1024);
}

#[test]
fn timeout_error_display() {
    let err = WasmError::Timeout(Span::from_secs(5));
    let msg = err.message();
    assert!(msg.contains("timeout"), "expected 'timeout' in: {msg}");
}

#[test]
fn memory_limit_exceeded_display() {
    let err = WasmError::MemoryLimitExceeded { max_bytes: 1024 };
    let msg = err.message();
    assert!(
        msg.contains("memory limit"),
        "expected 'memory limit' in: {msg}"
    );
}

#[test]
fn every_error_has_its_words() {
    for (e, words) in [
        (
            WasmError::ModuleTooLarge { size: 12, max: 10 },
            "module too large: 12 bytes (max 10)",
        ),
        (
            WasmError::Compilation("x".to_string()),
            "compilation failed: x",
        ),
        (
            WasmError::Instantiation("x".to_string()),
            "instantiation failed: x",
        ),
        (
            WasmError::Invocation("x".to_string()),
            "invocation failed: x",
        ),
        (
            WasmError::FuelExhausted,
            "fuel exhausted -- module exceeded instruction budget",
        ),
        (
            WasmError::Timeout(Span::from_secs(5)),
            "execution timeout -- module exceeded time budget of 5s",
        ),
        (
            WasmError::Timeout(Span::from_millis(1_050)),
            "execution timeout -- module exceeded time budget of 1.05s",
        ),
        (
            WasmError::MemoryLimitExceeded { max_bytes: 1024 },
            "memory limit exceeded -- module requested more than 1024 bytes",
        ),
        (
            WasmError::ModuleNotFound("abc".to_string()),
            "module not found: abc",
        ),
    ] {
        assert_eq!(e.message(), words);
    }
}

#[test]
fn hashes_are_sha_256() {
    assert_eq!(
        WasmEngine::hash_module(b"abc"),
        "ba7816bf8f01cfea414140de5dae2223b00361a396177a9cb410ff61f20015ad"
    );
}

#[test]
fn modules_are_compiled_once_and_found_by_their_hash() {
    let mut engine = WasmEngine::new().unwrap_or_else(|e| panic!("{}", e.message()));
    assert_eq!(engine.cache_size(), 0);
    let hash = engine
        .compile_and_cache(WAT_NOOP.as_bytes())
        .unwrap_or_else(|e| panic!("{}", e.message()));
    assert_eq!(hash, WasmEngine::hash_module(WAT_NOOP.as_bytes()));
    assert!(engine.is_cached(&hash));
    assert!(engine.module(&hash).is_ok());
    let again = engine
        .compile_and_cache(WAT_NOOP.as_bytes())
        .unwrap_or_else(|e| panic!("{}", e.message()));
    assert_eq!(again, hash);
    assert_eq!(engine.cache_size(), 1);
    assert!(matches!(
        engine.compile_and_cache(b"no module"),
        Err(WasmError::Compilation(_))
    ));
    assert_eq!(engine.cache_size(), 1);
    assert!(engine.evict(&hash));
    assert!(!engine.evict(&hash));
    assert!(!engine.is_cached(&hash));
    match engine.module(&hash) {
        Err(WasmError::ModuleNotFound(h)) => assert_eq!(h, hash),
        _ => panic!("an evicted module is not found"),
    }
}

#[test]
fn one_module_that_does_not_compile_does_not_stop_the_others() {
    let mut engine = WasmEngine::new().unwrap_or_else(|e| panic!("{}", e.message()));
    let modules = vec![
        temper::catalog::WasmFile {
            name: "bad".to_string(),
            bytes: Some(b"no module".to_vec()),
        },
        temper::catalog::WasmFile {
            name: "good".to_string(),
            bytes: Some(WAT_NOOP.as_bytes().to_vec()),
        },
    ];
    let got = compile_modules(&mut engine, &modules);
    assert!(got[0].is_none());
    assert_eq!(
        got[1].as_deref(),
        Some(WasmEngine::hash_module(WAT_NOOP.as_bytes()).as_str())
    );
}

#[test]
fn memory_grows_up_to_its_limit() {
    let limiter = MemoryLimiter { max_memory: 65_536 };
    assert!(limiter.memory_growing(65_536));
    assert!(!limiter.memory_growing(65_537));
    assert!(limiter.table_growing());
}

#[test]
fn guest_memory_reads_zeros_out_of_range() {
    let mut mem = vec![1u8, 2, 3, 4];
    assert_eq!(read_bytes(&mem, 1, 2), vec![2, 3]);
    assert_eq!(read_bytes(&mem, 3, 2), vec![0, 0]);
    assert_eq!(read_bytes(&mem, -1, 2), vec![0, 0]);
    assert_eq!(read_exact(&mem, 4, 0), Some(vec![]));
    assert_eq!(read_exact(&mem, 4, 1), None);
    assert!(write_bytes(&mut mem, 2, &[9, 8]));
    assert_eq!(mem, vec![1, 2, 9, 8]);
    assert!(!write_bytes(&mut mem, 3, &[7, 7]));
    assert!(!write_bytes(&mut mem, -1, &[7]));
    assert_eq!(mem, vec![1, 2, 9, 8]);
    assert_eq!(read_text(&[0x68, 0xFF, 0x69], 0, 3), "h\u{FFFD}i");
}

#[test]
fn texts_are_offered_to_buffers_that_have_room() {
    let mut mem = vec![0u8; 4];
    assert_eq!(offer_text(&mut mem, "hey", 0, 2), 3);
    assert_eq!(mem, vec![0, 0, 0, 0]);
    assert_eq!(offer_text(&mut mem, "hey", 1, 3), 3);
    assert_eq!(mem, b"\0hey");
    assert_eq!(offer_text(&mut mem, "you", 0, -1), 3);
    assert_eq!(mem, b"youy");
}

fn slot(ptr: i32, len: i32) -> Slot {
    Slot { ptr, len }
}

#[test]
fn host_functions_read_their_arguments() {
    let mut mem = vec![0u8; 128];
    write_bytes(&mut mem, 0, b"GETinfohello");
    write_bytes(&mut mem, 20, b"[[\"a\",\"b\"],[\"c\",\"d\"]]");
    write_bytes(&mut mem, 60, b"http://x");
    let (level, message) = read_log_line(&mem, slot(3, 4), slot(7, 5));
    assert_eq!((level.as_str(), message.as_str()), ("info", "hello"));
    assert_eq!(read_secret_key(&mem, slot(7, 5)), "hello");
    let r = read_http_request(&mem, slot(0, 3), slot(60, 8), slot(20, 21), slot(7, 5));
    assert_eq!(r.method, "GET");
    assert_eq!(r.url, "http://x");
    assert_eq!(
        r.headers,
        vec![
            ("a".to_string(), "b".to_string()),
            ("c".to_string(), "d".to_string())
        ]
    );
    assert_eq!(r.body, "hello");
    let r = read_http_request(&mem, slot(0, 3), slot(60, 8), slot(0, 3), slot(7, 0));
    assert!(r.headers.is_empty());
    assert_eq!(r.body, "");
    let r = read_stream_request(
        &mem,
        slot(0, 3),
        slot(60, 8),
        slot(0, -1),
        slot(3, 4),
        slot(0, 0),
    );
    assert_eq!(r.body_stream_id, "info");
    assert_eq!(r.response_stream_id, "");
    assert!(r.headers.is_empty());
}

#[test]
fn host_functions_answer_with_lengths_and_codes() {
    let mut mem = vec![0u8; 16];
    assert_eq!(host_get_context(&mut mem, "{}", slot(0, 1)), 2);
    assert_eq!(mem[0], 0);
    assert_eq!(host_get_context(&mut mem, "{}", slot(0, 2)), 2);
    assert_eq!(&mem[0..2], b"{}");
    assert_eq!(give_secret(&mut mem, &None, slot(0, 16)), -1);
    assert_eq!(
        give_secret(&mut mem, &Some("key".to_string()), slot(4, 3)),
        3
    );
    assert_eq!(&mem[4..7], b"key");
    assert_eq!(give_response(&mut mem, &None, slot(0, 16)), -1);
    let reply = Some((200, "ok".to_string()));
    assert_eq!(give_response(&mut mem, &reply, slot(8, 5)), -2);
    assert_eq!(give_response(&mut mem, &reply, slot(8, 6)), 6);
    assert_eq!(&mem[8..14], b"200\nok");
}

#[test]
fn results_are_set_from_utf_8_only() {
    let mem = vec![b'h', b'i', 0xFF];
    let mut result = None;
    host_set_result(&mem, slot(0, 3), &mut result);
    assert_eq!(result, None);
    host_set_result(&mem, slot(0, 2), &mut result);
    assert_eq!(result.as_deref(), Some("hi"));
    host_set_result(&mem, slot(2, 1), &mut result);
    assert_eq!(result.as_deref(), Some("hi"));
}

#[test]
fn streams_pass_through_the_cache_unchanged() {
    let mem = b"keyone two".to_vec();
    let (key, one, two) = (slot(0, 3), slot(3, 3), slot(7, 3));
    let mut streams = StreamRegistry::new();
    assert_eq!(host_cache_contains(&mem, &streams, key), 0);
    assert_eq!(host_cache_from_stream(&mem, &mut streams, key, one), -1);
    assert_eq!(host_cache_to_stream(&mem, &mut streams, key, two), -1);
    streams.store_stream("one", vec![1, 2, 3]);
    assert_eq!(host_cache_from_stream(&mem, &mut streams, key, one), 0);
    assert_eq!(host_cache_contains(&mem, &streams, key), 1);
    assert_eq!(host_cache_to_stream(&mem, &mut streams, key, two), 3);
    assert_eq!(stream_body(&streams, "two"), vec![1, 2, 3]);
    assert_eq!(stream_body(&streams, "one"), vec![1, 2, 3]);
    assert!(stream_body(&streams, "").is_empty());
    assert!(stream_body(&streams, "three").is_empty());
    streams.store_stream("one", vec![4]);
    assert_eq!(streams.get_stream("one"), Some(&vec![4]));
}

#[test]
fn responses_become_streams_where_one_is_named() {
    let mut streams = StreamRegistry::new();
    assert_eq!(keep_response(&mut streams, "r", None), -1);
    assert_eq!(keep_response(&mut streams, "r", Some((204, vec![]))), 204);
    assert!(streams.get_stream("r").is_none());
    assert_eq!(keep_response(&mut streams, "", Some((200, vec![1]))), 200);
    assert_eq!(keep_response(&mut streams, "r", Some((200, vec![1]))), 200);
    assert_eq!(streams.get_stream("r"), Some(&vec![1]));
}

#[test]
fn streams_are_hashed_by_a_known_algorithm() {
    let mut mem = vec![0u8; 128];
    write_bytes(&mut mem, 0, b"one");
    write_bytes(&mut mem, 3, b"sha256");
    write_bytes(&mut mem, 9, b"blake3");
    let mut streams = StreamRegistry::new();
    let (id, sha, blake) = (slot(0, 3), slot(3, 6), slot(9, 6));
    assert_eq!(host_hash_stream(&mut mem, &streams, id, sha, slot(20, 100)), -1);
    streams.store_stream("one", b"abc".to_vec());
    assert_eq!(
        host_hash_stream(&mut mem, &streams, id, blake, slot(20, 100)),
        -1
    );
    assert_eq!(host_hash_stream(&mut mem, &streams, id, sha, slot(20, 70)), -1);
    assert_eq!(host_hash_stream(&mut mem, &streams, id, sha, slot(20, 71)), 71);
    assert_eq!(
        &mem[20..91],
        b"sha256:ba7816bf8f01cfea414140de5dae2223b00361a396177a9cb410ff61f20015ad"
    );
}

#[test]
fn a_guest_without_memory_gets_an_answer() {
    assert_eq!(HostFunction::GetContext.without_memory("{}"), 2);
    assert_eq!(HostFunction::CacheContains.without_memory("{}"), 0);
    assert_eq!(HostFunction::HttpCall.without_memory("{}"), -1);
    assert_eq!(HostFunction::HashStream.name(), "host_hash_stream");
}

#[test]
fn the_context_is_written_where_the_run_looks_for_it() {
    let mut mem = vec![0u8; 2048];
    match write_context(&mut mem, "{\"a\":1}") {
        Ok(at) => assert_eq!(at, (1024, 7)),
        Err(e) => panic!("{}", e.message()),
    }
    assert_eq!(&mem[1024..1031], b"{\"a\":1}");
    let mut small = vec![0u8; 1026];
    match write_context(&mut small, "{\"a\":1}") {
        Ok(_) => panic!("it does not fit"),
        Err(e) => assert_eq!(
            e.message(),
            "invocation failed: failed to write context to memory: out of bounds memory access"
        ),
    }
}

#[test]
fn failures_are_told_by_their_stage() {
    for (e, words) in [
        (
            stage_error(Stage::Context, "x"),
            "invocation failed: failed to serialize context: x",
        ),
        (
            stage_error(Stage::Fuel, "x"),
            "invocation failed: failed to set fuel: x",
        ),
        (
            stage_error(Stage::Link(HostFunction::Log), "x"),
            "compilation failed: failed to link host_log: x",
        ),
        (stage_error(Stage::Instance, "x"), "instantiation failed: x"),
        (
            stage_error(Stage::Run, "x"),
            "invocation failed: module missing 'run' export: x",
        ),
        (
            stage_error(Stage::Memory, "x"),
            "invocation failed: module missing 'memory' export",
        ),
        (
            call_error(CallFailure::OutOfFuel, Span::from_secs(1)),
            "fuel exhausted -- module exceeded instruction budget",
        ),
        (
            call_error(CallFailure::Interrupted, Span::from_secs(1)),
            "execution timeout -- module exceeded time budget of 1s",
        ),
        (
            call_error(CallFailure::Other("trap".to_string()), Span::from_secs(1)),
            "invocation failed: trap",
        ),
    ] {
        assert_eq!(e.message(), words);
    }
}

fn fail(set: Option<&str>, ptr: i32, mem: &[u8]) -> String {
    match finish_invocation(&set.map(|s| s.to_string()), ptr, mem, 7) {
        Ok(_) => panic!("it succeeded"),
        Err(e) => e.message(),
    }
}

#[test]
fn results_come_from_the_host_or_from_memory() {
    let set = Some("{\"action\":\"Go\",\"params\":{\"n\":1},\"success\":false,\"error\":\"e\"}".to_string());
    let r = finish_invocation(&set, 3, &[], 7).unwrap_or_else(|e| panic!("{}", e.message()));
    assert_eq!(r.callback_action, "Go");
    assert_eq!(temper::json_text::render(&r.callback_params), "{\"n\":1}");
    assert!(!r.success);
    assert_eq!(r.error.as_deref(), Some("e"));
    assert_eq!(r.duration_ms, 7);

    let mut mem = vec![0u8; 32];
    write_bytes(&mut mem, 4, &[2, 0, 0, 0]);
    write_bytes(&mut mem, 8, b"{}");
    let r = finish_invocation(&None, 8, &mem, 1).unwrap_or_else(|e| panic!("{}", e.message()));
    assert_eq!(r.callback_action, "");
    assert!(r.success);
    assert!(r.error.is_none());

    let r = finish_invocation(&None, 0, &mem, 1).unwrap_or_else(|e| panic!("{}", e.message()));
    assert!(!r.success);
    assert_eq!(r.error.as_deref(), Some("module returned empty result"));

    assert_eq!(
        fail(None, 2, &mem),
        "invocation failed: failed to read result length: out of bounds memory access"
    );
    write_bytes(&mut mem, 12, &[0xFF, 0xFF, 0xFF, 0x7F]);
    assert_eq!(
        fail(None, 16, &mem),
        "invocation failed: failed to read result: out of bounds memory access"
    );
    write_bytes(&mut mem, 20, &[1, 0, 0, 0, 0xFF]);
    assert!(fail(None, 24, &mem).starts_with("invocation failed: result is not valid UTF-8: "));
    assert!(fail(Some("{"), 0, &mem).starts_with("invocation failed: failed to parse result JSON: "));
}

#[test]
fn texts_pass_through_the_memory_unchanged() {
    for text in ["", "plain", "é €"] {
        let mut mem = vec![7u8; 32];
        let n = temper::guest::offer_text(&mut mem, text, 3, 29);
        assert_eq!(n as usize, text.len());
        assert_eq!(temper::guest::read_text(&mem, 3, n), text);
    }
    assert_eq!(temper::guest::read_text(&[0x61, 0xFF, 0x62], 0, 3), "a\u{FFFD}b");
}
