use temper::json::Json;
use temper::json_text::{parse, render};
use temper::llm::{resume_turn, start_turn, LlmState, LlmStep};
use temper::llm_convert::{convert_messages_to_openrouter, convert_tools_to_openrouter};
use temper::llm_providers::{
    detect_anthropic_oauth_mode, extract_openrouter_text, first_non_empty,
    is_unresolved_secret_template, normalize_provider, ModelDefaults,
};
use temper::llm_tools::build_tool_definitions;
use temper::module::{Callback, HttpCall, HttpReply, ModuleContext};
use temper::numerals::url_encode;
use temper::sandbox::{provision_sandbox, resume_sandbox, SandboxStep};
use temper::tool_runner::{resume_run, start_tools, RunnerState, RunnerStep};
use temper::tools::resolve_path;

fn json(text: &str) -> Json {
    match parse(text) {
        Ok(v) => v,
        Err(m) => panic!("{m}"),
    }
}

fn context(fields: &str, params: &str, config: &[(&str, &str)]) -> ModuleContext {
    ModuleContext {
        tenant: "ten".to_string(),
        entity_state: Json::object().set("fields", json(fields)),
        trigger_params: json(params),
        config: config
            .iter()
            .map(|(k, v)| (k.to_string(), v.to_string()))
            .collect(),
    }
}

fn defaults() -> ModelDefaults {
    ModelDefaults {
        model: "model-1".to_string(),
        oauth_system: "You are a tool.".to_string(),
        oauth_agent: "agent/1".to_string(),
    }
}

fn ok(status: u16, body: &str) -> Result<HttpReply, String> {
    Ok(HttpReply {
        status,
        body: body.to_string(),
    })
}

fn sent(step: LlmStep) -> (HttpCall, LlmState) {
    match step {
        LlmStep::Send(c, s) => (c, s),
        LlmStep::Done(c) => panic!("done with {}", c.action),
        LlmStep::Failed(m) => panic!("failed with {m}"),
    }
}

fn done(step: LlmStep) -> Callback {
    match step {
        LlmStep::Done(c) => c,
        LlmStep::Send(c, _) => panic!("sends to {}", c.url),
        LlmStep::Failed(m) => panic!("failed with {m}"),
    }
}

fn failed(step: LlmStep) -> String {
    match step {
        LlmStep::Failed(m) => m,
        LlmStep::Send(c, _) => panic!("sends to {}", c.url),
        LlmStep::Done(c) => panic!("done with {}", c.action),
    }
}

#[test]
fn a_turn_beyond_the_budget_fails() {
    let ctx = context("{\"turn_count\":5,\"max_turns\":\"5\"}", "{}", &[]);
    let c = done(start_turn(&ctx, &defaults()));
    assert_eq!(c.action, "Fail");
    assert_eq!(
        render(&c.params),
        "{\"error_message\":\"turn budget exhausted (5/5)\"}"
    );
    // Without a budget there are twenty turns.
    let ctx = context("{\"turn_count\":20,\"max_turns\":\"many\"}", "{}", &[]);
    assert_eq!(
        done(start_turn(&ctx, &defaults())).params.text_or("error_message", ""),
        "turn budget exhausted (20/20)"
    );
}

#[test]
fn a_turn_needs_a_provider_a_key_and_a_message() {
    let no_key = context("{\"user_message\":\"hi\"}", "{}", &[]);
    assert_eq!(
        failed(start_turn(&no_key, &defaults())),
        "missing API key for provider=anthropic. expected secrets: anthropic_api_key (or api_key) for anthropic, openrouter_api_key (or api_key) for openrouter"
    );
    let template = context("{}", "{}", &[("api_key", "{secret:x}")]);
    assert_eq!(
        failed(start_turn(&template, &defaults())),
        "provider=anthropic api key is unresolved secret template: '{secret:x}'. set tenant secret and retry"
    );
    let other = context("{\"provider\":\" Acme \"}", "{}", &[("api_key", "k")]);
    assert_eq!(
        failed(start_turn(&other, &defaults())),
        "unsupported LLM provider: acme"
    );
    let silent = context("{}", "{}", &[("api_key", "k")]);
    assert_eq!(
        failed(start_turn(&silent, &defaults())),
        "user_message is empty — nothing to send to the LLM"
    );
}

#[test]
fn an_api_key_asks_the_messages_api() {
    let ctx = context(
        "{\"user_message\":\"hi\",\"system_prompt\":\"be kind\",\"tools_enabled\":\"\"}",
        "{}",
        &[("anthropic_api_key", "  "), ("api_key", " k1 ")],
    );
    let (call, _) = sent(start_turn(&ctx, &defaults()));
    assert_eq!(call.method, "POST");
    assert_eq!(call.url, "https://api.anthropic.com/v1/messages");
    assert_eq!(
        call.headers,
        vec![
            ("x-api-key".to_string(), "k1".to_string()),
            ("anthropic-version".to_string(), "2023-06-01".to_string()),
            ("content-type".to_string(), "application/json".to_string()),
        ]
    );
    assert_eq!(
        call.body,
        "{\"max_tokens\":4096,\"messages\":[{\"content\":\"hi\",\"role\":\"user\"}],\"model\":\"model-1\",\"system\":\"be kind\"}"
    );
}

#[test]
fn an_oauth_token_carries_the_instructions_in_the_first_message() {
    let ctx = context(
        "{\"user_message\":\"hi\",\"system_prompt\":\"be kind\",\"tools_enabled\":\"\",\"model\":\"m\"}",
        "{}",
        &[("anthropic_api_key", "sk-ant-oat-1")],
    );
    let (call, _) = sent(start_turn(&ctx, &defaults()));
    assert_eq!(call.headers.len(), 6);
    assert_eq!(call.headers[0].1, "Bearer sk-ant-oat-1");
    assert_eq!(call.headers[4].1, "agent/1");
    assert_eq!(
        call.body,
        "{\"max_tokens\":4096,\"messages\":[{\"content\":\"[System instructions: be kind]\\n\\nhi\",\"role\":\"user\"}],\"model\":\"m\",\"system\":\"You are a tool.\"}"
    );
    assert!(detect_anthropic_oauth_mode("k", " OAuth "));
    assert!(!detect_anthropic_oauth_mode("sk-ant-oat", "api_key"));
    assert!(detect_anthropic_oauth_mode("sk-ant-oat", "auto"));
    assert!(!detect_anthropic_oauth_mode("k", "auto"));
}

#[test]
fn a_provider_in_trouble_is_asked_five_times() {
    let ctx = context("{\"user_message\":\"hi\"}", "{}", &[("api_key", "k")]);
    let (first, mut state) = sent(start_turn(&ctx, &defaults()));
    let replies = [
        ok(500, "oops"),
        ok(529, "busy"),
        ok(400, "{\"message\":\"Error\"}"),
        Err("no route".to_string()),
    ];
    for r in replies {
        let (call, next) = sent(resume_turn(state, r));
        assert_eq!(call.body, first.body);
        assert_eq!(call.url, first.url);
        state = next;
    }
    assert_eq!(
        failed(resume_turn(state, ok(500, "at last"))),
        "Anthropic API failed after 5 attempts: HTTP 500: at last"
    );
    let (_, state) = sent(start_turn(&ctx, &defaults()));
    assert_eq!(
        failed(resume_turn(state, ok(401, "who"))),
        "Anthropic API returned 401: who"
    );
    let (_, state) = sent(start_turn(&ctx, &defaults()));
    assert!(failed(resume_turn(state, ok(200, "{"))).starts_with("failed to parse LLM response: "));
}

#[test]
fn errors_are_cut_after_their_first_bytes() {
    let ctx = context("{\"user_message\":\"hi\"}", "{}", &[("api_key", "k")]);
    let (_, state) = sent(start_turn(&ctx, &defaults()));
    let long = "x".repeat(600);
    assert_eq!(
        failed(resume_turn(state, ok(404, &long))),
        format!("Anthropic API returned 404: {}", "x".repeat(500))
    );
}

#[test]
fn tool_use_is_routed_to_the_tools() {
    let ctx = context("{\"user_message\":\"hi\"}", "{}", &[("api_key", "k")]);
    let (_, state) = sent(start_turn(&ctx, &defaults()));
    let c = done(resume_turn(
        state,
        ok(
            200,
            "{\"stop_reason\":\"tool_use\",\"content\":[{\"type\":\"text\",\"text\":\"a\"},{\"type\":\"tool_use\",\"id\":\"t1\",\"name\":\"bash\",\"input\":{}}],\"usage\":{\"input_tokens\":3,\"output_tokens\":4}}",
        ),
    ));
    assert_eq!(c.action, "ProcessToolCalls");
    assert_eq!(
        c.params.text_or("pending_tool_calls", ""),
        "[{\"id\":\"t1\",\"input\":{},\"name\":\"bash\",\"type\":\"tool_use\"}]"
    );
    assert_eq!(c.params.get("input_tokens").unwrap().as_integer(), Some(3));
    assert_eq!(c.params.get("output_tokens").unwrap().as_integer(), Some(4));
    assert!(c
        .params
        .text_or("conversation", "")
        .starts_with("[{\"content\":\"hi\",\"role\":\"user\"},{\"content\":["));
}

#[test]
fn an_end_of_turn_is_recorded() {
    let ctx = context(
        "{\"user_message\":\"hi\",\"conversation\":\"[]\"}",
        "{}",
        &[("api_key", "k")],
    );
    let (call, state) = sent(start_turn(&ctx, &defaults()));
    // A conversation that is an empty list stays one.
    assert!(call.body.contains("\"messages\":[]"));
    let c = done(resume_turn(
        state,
        ok(
            200,
            "{\"content\":[{\"type\":\"text\",\"text\":\"a\"},{\"type\":\"other\"},{\"type\":\"text\",\"text\":\"b\"}]}",
        ),
    ));
    assert_eq!(c.action, "RecordResult");
    assert_eq!(c.params.text_or("result", ""), "a\nb");
    let (_, state) = sent(start_turn(&ctx, &defaults()));
    let c = done(resume_turn(state, ok(200, "{\"stop_reason\":\"max_tokens\"}")));
    assert_eq!(c.action, "Fail");
    assert_eq!(
        c.params.text_or("error_message", ""),
        "unexpected stop_reason: max_tokens"
    );
}

#[test]
fn a_conversation_in_the_files_is_read_and_stored() {
    let ctx = context(
        "{\"user_message\":\"hi\",\"conversation_file_id\":\"f1\"}",
        "{}",
        &[("api_key", "k")],
    );
    let (call, state) = sent(start_turn(&ctx, &defaults()));
    assert_eq!(call.method, "GET");
    assert_eq!(call.url, "http://127.0.0.1:3000/tdata/Files('f1')/$value");
    assert_eq!(call.headers[0], ("x-tenant-id".to_string(), "ten".to_string()));
    let (call, state) = sent(resume_turn(
        state,
        ok(200, "{\"messages\":[{\"role\":\"user\",\"content\":\"old\"}]}"),
    ));
    assert!(call.body.contains("\"messages\":[{\"content\":\"old\",\"role\":\"user\"}]"));
    let (call, state) = sent(resume_turn(
        state,
        ok(200, "{\"content\":[{\"type\":\"text\",\"text\":\"new\"}]}"),
    ));
    assert_eq!(call.method, "PUT");
    assert_eq!(
        call.body,
        "{\"messages\":[{\"content\":\"old\",\"role\":\"user\"},{\"content\":[{\"text\":\"new\",\"type\":\"text\"}],\"role\":\"assistant\"}]}"
    );
    let c = done(resume_turn(state, ok(204, "")));
    assert_eq!(c.action, "RecordResult");
    assert!(c.params.get("conversation").is_none());

    // Whatever the files say, the turn goes on with the user's message.
    for r in [ok(404, ""), ok(500, "x"), Err("down".to_string()), ok(200, "no json")] {
        let (_, state) = sent(start_turn(&ctx, &defaults()));
        let (call, _) = sent(resume_turn(state, r));
        assert!(call.body.contains("\"messages\":[{\"content\":\"hi\",\"role\":\"user\"}]"));
    }
    // But a store that refuses ends it.
    let (_, state) = sent(start_turn(&ctx, &defaults()));
    let (_, state) = sent(resume_turn(state, ok(404, "")));
    let (_, state) = sent(resume_turn(state, ok(200, "{}")));
    assert_eq!(
        failed(resume_turn(state, ok(403, "no"))),
        "TemperFS $value write failed (HTTP 403): no"
    );
}

#[test]
fn openrouter_is_asked_in_its_own_form() {
    let ctx = context(
        "{\"user_message\":\"hi\",\"provider\":\"Open_Router\",\"system_prompt\":\"s\",\"tools_enabled\":\"bash\",\"sandbox_url\":\"http://box\"}",
        "{}",
        &[("openrouter_api_key", "k"), ("openrouter_site_url", " http://me ")],
    );
    let (call, state) = sent(start_turn(&ctx, &defaults()));
    assert_eq!(call.url, "https://openrouter.ai/api/v1/chat/completions");
    assert_eq!(
        call.headers[2],
        ("HTTP-Referer".to_string(), "http://me".to_string())
    );
    assert_eq!(
        call.headers[3],
        ("X-Title".to_string(), "temper-agent".to_string())
    );
    assert!(call.body.contains("\"messages\":[{\"content\":\"s\",\"role\":\"system\"},{\"content\":\"hi\",\"role\":\"user\"}]"));
    assert!(call.body.contains("\"tool_choice\":\"auto\""));
    let c = done(resume_turn(
        state,
        ok(
            200,
            "{\"choices\":[{\"message\":{\"content\":\"so\",\"tool_calls\":[{\"function\":{\"name\":\"bash\",\"arguments\":\"{\\\"command\\\":\\\"ls\\\"}\"}},{\"id\":\"x\",\"function\":{\"arguments\":\"bad\"}}]}}],\"usage\":{\"prompt_tokens\":1,\"output_tokens\":2}}",
        ),
    ));
    assert_eq!(c.action, "ProcessToolCalls");
    assert_eq!(
        c.params.text_or("pending_tool_calls", ""),
        "[{\"id\":\"or_tool_1\",\"input\":{\"command\":\"ls\"},\"name\":\"bash\",\"type\":\"tool_use\"},{\"id\":\"x\",\"input\":{},\"name\":\"unknown_tool\",\"type\":\"tool_use\"}]"
    );
    assert_eq!(c.params.get("input_tokens").unwrap().as_integer(), Some(1));
    assert_eq!(c.params.get("output_tokens").unwrap().as_integer(), Some(2));
    let (_, state) = sent(start_turn(&ctx, &defaults()));
    let (_, state) = sent(resume_turn(state, ok(429, "slow")));
    assert_eq!(
        failed(resume_turn(state, ok(529, "no"))),
        "OpenRouter API returned 529: no"
    );
}

#[test]
fn messages_are_converted_by_role() {
    let messages = vec![
        json("{\"content\":\"plain\"}"),
        json("{\"role\":\"assistant\",\"content\":[{\"type\":\"text\",\"text\":\"a\"},{\"type\":\"tool_use\",\"name\":\"bash\",\"input\":{\"b\":1,\"a\":2}}]}"),
        json("{\"role\":\"user\",\"content\":[{\"type\":\"text\",\"text\":\"x\"},{\"type\":\"tool_result\",\"tool_use_id\":\"t\",\"content\":[1,2]},{\"type\":\"tool_result\",\"content\":\"r\"},{\"type\":\"text\",\"text\":\"y\"}]}"),
        json("{\"role\":\"system\",\"content\":[1]}"),
        json("{\"role\":\"user\",\"content\":7}"),
    ];
    let got: Vec<String> = convert_messages_to_openrouter(&messages)
        .iter()
        .map(render)
        .collect();
    assert_eq!(
        got,
        vec![
            "{\"content\":\"plain\",\"role\":\"user\"}",
            "{\"content\":\"a\",\"role\":\"assistant\",\"tool_calls\":[{\"function\":{\"arguments\":\"{\\\"a\\\":2,\\\"b\\\":1}\",\"name\":\"bash\"},\"id\":\"tool_2\",\"type\":\"function\"}]}",
            "{\"content\":\"[1,2]\",\"role\":\"tool\",\"tool_call_id\":\"t\"}",
            "{\"content\":\"r\",\"role\":\"tool\",\"tool_call_id\":\"unknown_tool_call\"}",
            "{\"content\":\"x\\ny\",\"role\":\"user\"}",
            "{\"content\":[1],\"role\":\"system\"}",
            "{\"content\":7,\"role\":\"user\"}",
        ]
    );
}

#[test]
fn tools_are_offered_as_enabled() {
    let tools = build_tool_definitions(" bash , read,unknown", "http://box", "/w");
    assert_eq!(tools.len(), 2);
    assert_eq!(tools[0].text_or("name", ""), "read");
    assert_eq!(
        tools[0].text_or("description", ""),
        "Read a file from the sandbox at http://box. Working directory: /w"
    );
    assert_eq!(
        render(tools[1].get("input_schema").unwrap()),
        "{\"properties\":{\"command\":{\"description\":\"Bash command to execute\",\"type\":\"string\"}},\"required\":[\"command\"],\"type\":\"object\"}"
    );
    let all = build_tool_definitions("read,write,edit,bash", "", "");
    let functions = convert_tools_to_openrouter(&all);
    assert_eq!(functions.len(), 4);
    assert_eq!(
        functions[2].get("function").unwrap().text_or("name", ""),
        "edit"
    );
    let odd = convert_tools_to_openrouter(&vec![json("{}"), json("{\"name\":\"n\"}")]);
    assert_eq!(odd.len(), 1);
    assert_eq!(
        render(&odd[0]),
        "{\"function\":{\"description\":\"\",\"name\":\"n\",\"parameters\":{\"properties\":{},\"type\":\"object\"}},\"type\":\"function\"}"
    );
}

#[test]
fn small_helpers_of_the_providers() {
    assert_eq!(normalize_provider(" OPEN_ROUTER "), "openrouter");
    assert_eq!(normalize_provider("Anthropic"), "anthropic");
    assert!(is_unresolved_secret_template("x{secret:a}"));
    assert!(!is_unresolved_secret_template("secret:a"));
    assert_eq!(
        first_non_empty(&vec![None, Some(" ".to_string()), Some(" b ".to_string())]),
        "b"
    );
    assert_eq!(first_non_empty(&vec![]), "");
    assert_eq!(
        extract_openrouter_text(&json("{\"content\":[{\"text\":\"a\"},{\"content\":\"b\"},{}]}")),
        "a\nb"
    );
    assert_eq!(extract_openrouter_text(&json("{\"content\":3}")), "");
}

fn run_sent(step: RunnerStep) -> (HttpCall, RunnerState) {
    match step {
        RunnerStep::Send(c, s) => (c, s),
        RunnerStep::Done(c) => panic!("done with {}", render(&c.params)),
        RunnerStep::Failed(m) => panic!("failed with {m}"),
    }
}

fn run_done(step: RunnerStep) -> Callback {
    match step {
        RunnerStep::Done(c) => c,
        RunnerStep::Send(c, _) => panic!("sends to {}", c.url),
        RunnerStep::Failed(m) => panic!("failed with {m}"),
    }
}

fn run_failed(step: RunnerStep) -> String {
    match step {
        RunnerStep::Failed(m) => m,
        _ => panic!("did not fail"),
    }
}

fn calls(list: &str) -> String {
    render(&Json::object().set("pending_tool_calls", Json::of_text(list)))
}

#[test]
fn tools_run_one_after_the_other() {
    let ctx = context(
        "{\"sandbox_url\":\"http://box\",\"workdir\":\"/w/\"}",
        &calls("[{\"id\":\"1\",\"name\":\"read\",\"input\":{\"path\":\"a b\"}},{\"id\":\"2\",\"name\":\"nope\"},{\"id\":\"3\",\"name\":\"bash\",\"input\":{\"command\":\"ls\"}}]"),
        &[],
    );
    let (call, state) = run_sent(start_tools(&ctx));
    assert_eq!(call.method, "GET");
    assert_eq!(call.url, "http://box/v1/fs/file?path=/w/a%20b");
    // The unknown tool fails at once, and the next tool runs.
    let (call, state) = run_sent(resume_run(state, ok(200, "content")));
    assert_eq!(call.url, "http://box/v1/processes/run");
    assert_eq!(call.body, "{\"command\":\"ls\",\"workdir\":\"/w/\"}");
    let c = run_done(resume_run(
        state,
        ok(200, "{\"stdout\":\"out\",\"stderr\":\"err\",\"exit_code\":2}"),
    ));
    assert_eq!(c.action, "HandleToolResults");
    let results = json(&c.params.text_or("pending_tool_calls", ""));
    let texts: Vec<String> = results
        .as_items()
        .unwrap()
        .iter()
        .map(|r| r.text_or("content", ""))
        .collect();
    assert_eq!(
        texts,
        vec![
            "content",
            "Error: unknown tool: nope",
            "out\nSTDERR: err\n(exit code: 2)"
        ]
    );
    assert!(c
        .params
        .text_or("conversation", "")
        .starts_with("[{\"content\":[{\"content\":\"content\",\"is_error\":false,"));
}

#[test]
fn tools_need_a_sandbox_and_a_list() {
    let ctx = context("{}", "{}", &[]);
    assert_eq!(
        run_failed(start_tools(&ctx)),
        "sandbox_url is empty — cannot execute tools"
    );
    let ctx = context("{\"sandbox_url\":\"http://box\"}", &calls("{"), &[]);
    assert!(run_failed(start_tools(&ctx)).starts_with("failed to parse pending_tool_calls: "));
    let ctx = context("{\"sandbox_url\":\"http://box\"}", "{}", &[]);
    let c = run_done(start_tools(&ctx));
    assert_eq!(c.params.text_or("pending_tool_calls", ""), "[]");
}

#[test]
fn an_edit_reads_replaces_once_and_writes() {
    let ctx = context(
        "{\"sandbox_url\":\"https://x.e2b.app\"}",
        &calls("[{\"name\":\"edit\",\"input\":{\"path\":\"/f\",\"old_string\":\"a\",\"new_string\":\"b\"}}]"),
        &[],
    );
    let (call, state) = run_sent(start_tools(&ctx));
    assert_eq!(call.url, "https://x.e2b.app/files?path=/f");
    let (call, state) = run_sent(resume_run(state, ok(200, "a-a")));
    assert_eq!(call.method, "POST");
    assert!(call.body.contains("\r\n\r\nb-a\r\n--"));
    assert_eq!(
        call.headers[0].1,
        "multipart/form-data; boundary=----TemperWasmBoundary7MA4YWxkTrZu0gW"
    );
    let c = run_done(resume_run(state, ok(200, "")));
    assert!(c
        .params
        .text_or("pending_tool_calls", "")
        .contains("File edited: /f"));

    let (_, state) = run_sent(start_tools(&ctx));
    let c = run_done(resume_run(state, ok(200, "zzz")));
    assert!(c
        .params
        .text_or("pending_tool_calls", "")
        .contains("Error: edit: old_string not found in /f"));
    let (_, state) = run_sent(start_tools(&ctx));
    let c = run_done(resume_run(state, ok(404, "gone")));
    assert!(c
        .params
        .text_or("pending_tool_calls", "")
        .contains("Error: E2B read failed (HTTP 404): gone"));
}

#[test]
fn tools_tell_what_they_miss() {
    for (call, told) in [
        ("{\"name\":\"read\"}", "read: missing 'path' parameter"),
        ("{\"name\":\"write\"}", "write: missing 'path' parameter"),
        (
            "{\"name\":\"write\",\"input\":{\"path\":\"p\"}}",
            "write: missing 'content' parameter",
        ),
        ("{\"name\":\"edit\"}", "edit: missing 'path' parameter"),
        (
            "{\"name\":\"edit\",\"input\":{\"path\":\"p\"}}",
            "edit: missing 'old_string' parameter",
        ),
        (
            "{\"name\":\"edit\",\"input\":{\"path\":\"p\",\"old_string\":\"o\"}}",
            "edit: missing 'new_string' parameter",
        ),
        ("{\"name\":\"bash\"}", "bash: missing 'command' parameter"),
        ("{}", "unknown tool: unknown"),
    ] {
        let ctx = context(
            "{\"sandbox_url\":\"http://box\"}",
            &calls(&format!("[{call}]")),
            &[],
        );
        let c = run_done(start_tools(&ctx));
        let results = json(&c.params.text_or("pending_tool_calls", ""));
        let r = &results.as_items().unwrap()[0];
        assert_eq!(r.text_or("content", ""), format!("Error: {told}"));
        assert_eq!(r.text_or("tool_use_id", ""), "unknown");
    }
}

#[test]
fn results_are_stored_with_a_conversation_in_the_files() {
    let ctx = context(
        "{\"sandbox_url\":\"http://box\",\"conversation_file_id\":\"f\"}",
        "{}",
        &[("temper_api_url", "http://api")],
    );
    let (call, state) = run_sent(start_tools(&ctx));
    assert_eq!(call.url, "http://api/tdata/Files('f')/$value");
    let (call, state) = run_sent(resume_run(state, ok(200, "{\"messages\":[1]}")));
    assert_eq!(
        call.body,
        "{\"messages\":[1,{\"content\":[],\"role\":\"user\"}]}"
    );
    let c = run_done(resume_run(state, ok(200, "")));
    assert!(c.params.get("conversation").is_none());

    let (_, state) = run_sent(start_tools(&ctx));
    assert_eq!(
        run_failed(resume_run(state, ok(500, "x"))),
        "TemperFS conversation read failed (HTTP 500): x"
    );
    let (_, state) = run_sent(start_tools(&ctx));
    assert_eq!(
        run_failed(resume_run(state, Err("down".to_string()))),
        "TemperFS conversation read failed: down"
    );
    let (_, state) = run_sent(start_tools(&ctx));
    assert!(run_failed(resume_run(state, ok(200, "x")))
        .starts_with("TemperFS conversation parse failed: "));
    let (_, state) = run_sent(start_tools(&ctx));
    let (_, state) = run_sent(resume_run(state, ok(200, "{}")));
    assert_eq!(
        run_failed(resume_run(state, ok(500, "x"))),
        "TemperFS conversation write failed (HTTP 500): x"
    );
}

#[test]
fn paths_are_resolved_and_encoded() {
    assert_eq!(resolve_path("/w//", "a/b"), "/w/a/b");
    assert_eq!(resolve_path("/w", "/a"), "/a");
    assert_eq!(url_encode("/a-_.Z9 é%"), "/a-_.Z9%20%C3%A9%25");
}

#[test]
fn a_sandbox_is_found_in_order_of_priority() {
    let params = "{\"sandbox_url\":\"http://trigger\"}";
    let config = [("sandbox_url", "http://config")];
    let find = |fields: &str, params: &str, config: &[(&str, &str)]| {
        match provision_sandbox(&context(fields, params, config), &None) {
            SandboxStep::Done(c) => {
                assert_eq!(c.action, "SandboxReady");
                assert_eq!(c.params.text_or("sandbox_id", ""), "static-sandbox");
                c.params.text_or("sandbox_url", "")
            }
            SandboxStep::Failed(m) => m,
            SandboxStep::Send(c) => c.url,
        }
    };
    assert_eq!(
        find("{\"prompt\":\"p\",\"sandbox_url\":\"http://entity\"}", params, &config),
        "http://entity"
    );
    assert_eq!(
        find("{\"prompt\":\"p\",\"sandbox_url\":\"\"}", params, &config),
        "http://config"
    );
    assert_eq!(find("{\"prompt\":\"p\"}", params, &[]), "http://trigger");
    assert_eq!(
        find("{\"prompt\":\"p\"}", "{}", &[]),
        "no sandbox_url in config and no modal_api_token secret"
    );
    assert_eq!(
        find("{}", params, &config),
        "agent not configured — prompt is empty"
    );
}

#[test]
fn a_broker_makes_a_sandbox() {
    let ctx = context("{\"prompt\":\"p\"}", "{}", &[]);
    match provision_sandbox(&ctx, &Some("tok".to_string())) {
        SandboxStep::Send(c) => {
            assert_eq!(c.url, "http://localhost:8888/create-sandbox");
            assert_eq!(c.headers[0].1, "Bearer tok");
            assert_eq!(c.body, "{\"timeout\":600}");
        }
        _ => panic!("it asks the broker"),
    }
    let told = |r: Result<HttpReply, String>| match resume_sandbox(r) {
        SandboxStep::Done(c) => render(&c.params),
        SandboxStep::Failed(m) => m,
        SandboxStep::Send(c) => c.url,
    };
    assert_eq!(
        told(ok(201, "{\"sandbox_url\":\"http://new\"}")),
        "{\"sandbox_id\":\"unknown\",\"sandbox_url\":\"http://new\"}"
    );
    assert_eq!(told(ok(200, "{}")), "broker response missing sandbox_url");
    assert_eq!(told(ok(500, "x")), "sandbox broker failed (HTTP 500): x");
    assert_eq!(told(Err("down".to_string())), "down");
    assert!(told(ok(200, "x")).starts_with("failed to parse broker response: "));
}

#[test]
fn a_conversation_that_is_handed_on_is_read_back() {
    let config = [("api_key", "k")];
    let ctx = context("{\"user_message\":\"hi\"}", "{}", &config);
    let (_, state) = sent(start_turn(&ctx, &defaults()));
    let c = done(resume_turn(
        state,
        ok(
            200,
            "{\"stop_reason\":\"tool_use\",\"content\":[{\"type\":\"tool_use\",\"id\":\"t1\",\"name\":\"nope\",\"input\":{}}]}",
        ),
    ));
    let fields = Json::object()
        .set("sandbox_url", Json::of_text("http://box"))
        .set("conversation", Json::of_text(&c.params.text_or("conversation", "")));
    let calls = c.params.text_or("pending_tool_calls", "");
    let run = context(&render(&fields), &self::calls(&calls), &[]);
    let r = run_done(start_tools(&run));
    let held = r.params.text_or("conversation", "");
    let next = Json::object()
        .set("user_message", Json::of_text("hi"))
        .set("conversation", Json::of_text(&held));
    let (call, _) = sent(start_turn(&context(&render(&next), "{}", &config), &defaults()));
    assert!(call.body.contains(&format!("\"messages\":{held}")));
    assert_eq!(json(&held).as_items().unwrap().len(), 3);
}

#[test]
fn replies_that_cannot_be_cut_are_told_apart() {
    let ctx = context("{\"user_message\":\"hi\"}", "{}", &[("api_key", "k")]);
    let (_, state) = sent(start_turn(&ctx, &defaults()));
    let long = format!("{}é", "x".repeat(499));
    assert!(!temper::llm::can_resume(&state, &ok(404, &long)));
    assert!(temper::llm::can_resume(&state, &ok(500, &long)));
    assert!(temper::llm::can_resume(&state, &ok(200, &long)));
    assert!(!temper::sandbox::can_conclude(&ok(404, &long)));
    assert!(temper::sandbox::can_conclude(&Err(long)));
    let ctx = context(
        "{\"sandbox_url\":\"http://box\",\"conversation_file_id\":\"f\"}",
        "{}",
        &[],
    );
    let (_, state) = run_sent(start_tools(&ctx));
    let long = format!("{}é", "x".repeat(199));
    assert!(!temper::tool_runner::can_go_on(&state, &ok(404, &long)));
    assert!(temper::tool_runner::can_go_on(&state, &ok(200, &long)));
}
