use temper::frontier_update::{run_frontier_update, update_frontier, Rated};
use temper::json::Json;
use temper::json_text::{parse, render};
use temper::module::{HttpReply, ModuleContext};
use temper::pareto::Scores;
use temper::proposal::{
    build_agent_id, build_user_message, extract_markdown_code_blocks, extract_mutation_payload,
    sanitize_id,
};
use temper::proposer::{resume_proposal, start_proposal, ProposerState, ProposerStep};
use temper::reflective::run_reflective;
use temper::replay::{report_replay, resume_replay, start_replay, ReplayStep};
use temper::score::Score;
use temper::scoring::{read_counts, read_weights};

fn json(text: &str) -> Json {
    match parse(text) {
        Ok(v) => v,
        Err(m) => panic!("{m}"),
    }
}

fn context(state: &str, params: &str, config: &[(&str, &str)]) -> ModuleContext {
    ModuleContext {
        tenant: "ten".to_string(),
        entity_state: json(state),
        trigger_params: json(params),
        config: config
            .iter()
            .map(|(k, v)| (k.to_string(), v.to_string()))
            .collect(),
    }
}

fn ok(status: u16, body: &str) -> Result<HttpReply, String> {
    Ok(HttpReply {
        status,
        body: body.to_string(),
    })
}

fn updated(frontier: &str, candidate: &str) -> String {
    let ctx = context(
        &format!("{{\"pareto_frontier\":{frontier}}}"),
        &format!("{{\"candidate\":{candidate}}}"),
        &[],
    );
    match run_frontier_update(&ctx) {
        Ok(v) => render(&v),
        Err(m) => m,
    }
}

#[test]
fn a_frontier_in_json_is_updated() {
    let a = "{\"id\":\"a\",\"scores\":{\"x\":0.5,\"y\":1}}";
    assert_eq!(
        updated(&format!("[{a}]"), "{\"id\":\"b\",\"scores\":{\"x\":0.4,\"y\":1.0}}"),
        "{\"added\":false,\"frontier_size\":1,\"removed\":[]}"
    );
    assert_eq!(
        updated(&format!("[{a}]"), "{\"id\":\"b\",\"scores\":{\"x\":0.5,\"y\":2}}"),
        "{\"added\":true,\"frontier\":[{\"id\":\"b\",\"scores\":{\"x\":0.5,\"y\":2}}],\"frontier_size\":1,\"removed\":[\"a\"]}"
    );
    assert_eq!(
        updated(&format!("[{a}]"), "{\"id\":\"b\",\"scores\":{\"x\":9}}"),
        "{\"added\":true,\"frontier\":[{\"id\":\"a\",\"scores\":{\"x\":0.5,\"y\":1}},{\"id\":\"b\",\"scores\":{\"x\":9}}],\"frontier_size\":2,\"removed\":[]}"
    );
    assert_eq!(updated("[]", "{}"), "candidate missing 'scores'");
    let none = context("{}", "{}", &[]);
    match run_frontier_update(&none) {
        Ok(_) => panic!("there is no candidate"),
        Err(m) => assert_eq!(m, "trigger_params missing 'candidate'"),
    }
}

#[test]
fn members_without_a_name_leave_when_they_are_beaten() {
    assert_eq!(
        updated("[{\"scores\":{\"x\":1}}]", "{\"id\":\"b\",\"scores\":{\"x\":2}}"),
        "{\"added\":true,\"frontier\":[{\"id\":\"b\",\"scores\":{\"x\":2}}],\"frontier_size\":1,\"removed\":[\"unknown\"]}"
    );
    // What is no number counts as zero; a member without scores stays.
    assert_eq!(
        updated("[{\"id\":\"m\"}]", "{\"id\":\"b\",\"scores\":{\"x\":\"1\"}}"),
        "{\"added\":true,\"frontier\":[{\"id\":\"m\"},{\"id\":\"b\",\"scores\":{\"x\":\"1\"}}],\"frontier_size\":2,\"removed\":[]}"
    );
}

#[test]
fn datasets_put_the_worst_first() {
    let ctx = context(
        "{\"fields\":{\"SkillName\":\"pm\",\"TargetEntityType\":\"Issue\",\"VerificationErrors\":[\"v1\",2,\"v2\"]}}",
        "{\"trajectories\":[{\"trajectory_id\":\"t1\",\"turns\":[{\"decisions\":[{\"action\":\"A\",\"outcome\":\"success\",\"reasoning\":\"r\"}]},{},{\"decisions\":[{\"action\":\"B\",\"outcome\":\"partial_success\"},{\"action\":\"C\",\"error\":\"no\"}]}]},{}]}",
        &[],
    );
    let got = run_reflective(&ctx);
    let d = got.get("reflective_dataset").unwrap();
    assert_eq!(d.get("failure_count").unwrap().as_integer(), Some(1));
    assert_eq!(d.get("success_count").unwrap().as_integer(), Some(2));
    assert_eq!(
        render(d.get("verification_feedback").unwrap()),
        "[\"v1\",\"v2\"]"
    );
    let triplets = d.get("triplets").unwrap().as_items().unwrap();
    assert_eq!(
        render(&triplets[0]),
        "{\"action\":\"C\",\"entity_type\":\"Issue\",\"feedback\":\"Action 'C' failed: no. Consider adding or modifying this action in the spec.\",\"input\":\"\",\"output\":\"C → unknown\",\"score\":0.0,\"trajectory_id\":\"t1\",\"turn_id\":2}"
    );
    assert_eq!(triplets[1].text_or("action", ""), "B");
    assert_eq!(
        render(&triplets[2]),
        "{\"action\":\"A\",\"entity_type\":\"Issue\",\"feedback\":\"Action 'A' succeeded.\",\"input\":\"r\",\"output\":\"A → success\",\"score\":1.0,\"trajectory_id\":\"t1\",\"turn_id\":0}"
    );
}

#[test]
fn trajectories_may_come_as_text() {
    let one = "{\\\"turns\\\":[{\\\"decisions\\\":[{\\\"action\\\":\\\"A\\\"}]}]}";
    for text in [format!("[{one}]"), one.to_string()] {
        let ctx = context("{}", &format!("{{\"ReplayResultJson\":\"{text}\"}}"), &[]);
        let got = run_reflective(&ctx);
        let d = got.get("reflective_dataset").unwrap();
        assert_eq!(d.get("failure_count").unwrap().as_integer(), Some(1));
        assert_eq!(d.text_or("skill_name", ""), "unknown");
    }
    let got = run_reflective(&context("{}", "{\"trajectories\":\"x\"}", &[]));
    let d = got.get("reflective_dataset").unwrap();
    assert_eq!(render(d.get("triplets").unwrap()), "[]");
}

#[test]
fn a_replay_counts_what_each_action_comes_to() {
    let ctx = context(
        "{\"fields\":{\"SpecSource\":\"spec\"}}",
        "{\"TrajectoryActions\":[{\"action\":\"A\",\"params\":{\"n\":1}},{\"action\":\"B\"},{\"action\":\"C\"},{}]}",
        &[],
    );
    let mut step = start_replay(&ctx);
    let answers = [
        "{\"success\":true,\"new_state\":\"S1\"}",
        "{\"success\":false,\"error\":\"action not defined\"}",
        "{\"error\":\"guard failed\"}",
        "{}",
    ];
    let mut asked = Vec::new();
    for a in answers {
        step = match step {
            ReplayStep::Evaluate(e, p, t) => {
                asked.push(format!("{}:{}:{}:{}", e.source, e.state, e.action, e.params));
                resume_replay(p, t, Ok(json(a)))
            }
            _ => panic!("there is an action left"),
        };
    }
    assert_eq!(
        asked,
        vec![
            "spec:Created:A:{\"n\":1}",
            "spec:S1:B:{}",
            "spec:S1:C:{}",
            "spec:S1:unknown:{}"
        ]
    );
    match step {
        ReplayStep::Done(t) => {
            assert_eq!(
                (t.attempted, t.succeeded, t.unknown_actions, t.guard_rejections),
                (4, 1, 1, 1)
            );
            let r = report_replay(t, Json::Decimal("0.25".to_string()));
            assert_eq!(
                render(&r),
                "{\"replay_result\":{\"actions_attempted\":4,\"errors\":[{\"action\":\"B\",\"error_kind\":\"unknown_action\",\"from_state\":\"S1\",\"message\":\"action not defined\"},{\"action\":\"C\",\"error_kind\":\"guard_rejection\",\"from_state\":\"S1\",\"message\":\"guard failed\"},{\"action\":\"unknown\",\"error_kind\":\"invalid_transition\",\"from_state\":\"S1\",\"message\":\"unknown error\"}],\"guard_rejections\":1,\"succeeded\":1,\"success_rate\":0.25,\"unknown_actions\":1}}"
            );
        }
        _ => panic!("the replay is at its end"),
    }
}

#[test]
fn a_replay_needs_a_spec_and_actions() {
    let told = |state: &str, params: &str| match start_replay(&context(state, params, &[])) {
        ReplayStep::Failed(m) => m,
        ReplayStep::Done(t) => format!("done {}", t.attempted),
        ReplayStep::Evaluate(e, _, _) => e.action,
    };
    assert_eq!(told("{}", "{}"), "entity_state.fields missing 'SpecSource'");
    assert_eq!(
        told("{}", "{\"SpecSource\":\"s\"}"),
        "trigger_params missing 'TrajectoryActions'"
    );
    assert_eq!(
        told("{\"TrajectoryActions\":\"[{\\\"action\\\":\\\"Z\\\"}]\"}", "{\"SpecSource\":\"s\"}"),
        "Z"
    );
    assert_eq!(
        told("{\"TrajectoryActions\":\"x\"}", "{\"SpecSource\":\"s\"}"),
        "done 0"
    );
    match start_replay(&context(
        "{}",
        "{\"SpecSource\":\"s\",\"TrajectoryActions\":[{}]}",
        &[],
    )) {
        ReplayStep::Evaluate(_, p, t) => match resume_replay(p, t, Err("host".to_string())) {
            ReplayStep::Failed(m) => assert_eq!(m, "host"),
            _ => panic!("an evaluation that fails ends the replay"),
        },
        _ => panic!("there is an action"),
    }
}

#[test]
fn figures_for_scores_are_read() {
    let ctx = context(
        "{\"scoring_weights\":{\"b\":2,\"a\":\"x\"}}",
        "{\"replay_result\":{\"actions_attempted\":4,\"succeeded\":2,\"guard_rejections\":1,\"unknown_actions\":-1}}",
        &[],
    );
    let c = read_counts(&ctx);
    assert_eq!(
        (c.attempted, c.succeeded, c.guard_rejections, c.unknown_actions),
        (4, 2, 1, 0)
    );
    assert_eq!(c.classified(), 3);
    let w: Vec<(String, f64)> = read_weights(&ctx)
        .into_iter()
        .map(|(k, s)| (k, f64::from_bits(s.bits)))
        .collect();
    assert_eq!(w, vec![("a".to_string(), 0.0), ("b".to_string(), 2.0)]);
    let w: Vec<(String, f64)> = read_weights(&context("{}", "{}", &[]))
        .into_iter()
        .map(|(k, s)| (k, f64::from_bits(s.bits)))
        .collect();
    assert_eq!(
        w,
        vec![
            ("coverage".to_string(), 0.8),
            ("guard_pass_rate".to_string(), 0.6),
            ("success_rate".to_string(), 1.0)
        ]
    );
    assert!(read_weights(&context("{\"scoring_weights\":1}", "{}", &[])).is_empty());
    let top = read_counts(&context("{}", "{\"result\":{\"succeeded\":7}}", &[]));
    assert_eq!(top.succeeded, 7);
}

#[test]
fn agents_get_names_of_a_bounded_length() {
    assert_eq!(sanitize_id("a b/ü_-9"), "a-b--_-9");
    assert_eq!(sanitize_id(""), "id");
    assert_eq!(sanitize_id(&"x".repeat(60)).len(), 48);
    assert_eq!(build_agent_id("e 1", "c", -2, 3), "evo-e-1-c-a-2-r3");
    let long = build_agent_id(&"e".repeat(60), &"c".repeat(60), 1, 0);
    assert_eq!(long.len(), 96);
    assert!(long.starts_with(&format!("evo-{}-", "e".repeat(48))));
    let m = build_user_message("S", "E", "SPEC", "DATA");
    assert!(m.starts_with("Target skill: S\nTarget entity: E\n\nCurrent IOA spec:\nSPEC\n\nReflective dataset JSON:\nDATA\n\nTask:\n1) "));
    assert!(m.ends_with("{\"MutatedSpecSource\":\"...full spec...\",\"MutationSummary\":\"...\"}"));
}

#[test]
fn payloads_are_found_in_results() {
    let found = |t: &str| match extract_mutation_payload(t) {
        Ok((s, m)) => format!("{s}|{m}"),
        Err(m) => m,
    };
    assert_eq!(found(" \n"), "TemperAgent completed with empty result");
    assert_eq!(
        found("no json"),
        "TemperAgent result missing MutatedSpecSource JSON payload"
    );
    assert_eq!(
        found("{\"MutatedSpecSource\":\"S\",\"summary\":\"why\"}"),
        "S|why"
    );
    assert_eq!(
        found("{\"x\":[{\"y\":{\"new_spec\":\"N\"}}]}"),
        "N|Mutation proposed by TemperAgent"
    );
    // The first key that is found anywhere decides, even where it is no text.
    assert_eq!(
        found("{\"a\":{\"MutatedSpecSource\":1},\"new_spec\":\"N\"}"),
        "TemperAgent result missing MutatedSpecSource JSON payload"
    );
    assert_eq!(
        found("Here:\n```json\n{\"spec_source\":\"B\"}\n```\nand\n```\nx\n```"),
        "B|Mutation proposed by TemperAgent"
    );
    assert_eq!(
        extract_markdown_code_blocks("a ```x\n one \n``` b ```\ntwo``` ```three"),
        vec!["one", "two"]
    );
    assert!(extract_markdown_code_blocks("```only").is_empty());
}

fn send(step: ProposerStep) -> (String, ProposerState) {
    match step {
        ProposerStep::Send(c, s) => (format!("{} {} {}", c.method, c.url, c.body), s),
        ProposerStep::Done(v) => panic!("done with {}", render(&v)),
        ProposerStep::Failed(m) => panic!("failed with {m}"),
    }
}

fn proposal_context(config: &[(&str, &str)]) -> ModuleContext {
    context(
        "{\"fields\":{\"Id\":\"e1\",\"mutation_attempts\":\"2\"}}",
        "{\"DatasetJson\":\"D\",\"SpecSource\":\"S\",\"CandidateId\":\"c1\"}",
        config,
    )
}

#[test]
fn a_proposal_makes_configures_provisions_and_asks() {
    let ctx = proposal_context(&[("temper_api_url", "http://t"), ("sandbox_url", "http://s"), ("poll_sleep_ms", "1250")]);
    let (call, state) = send(start_proposal(&ctx, "model-1"));
    assert_eq!(
        call,
        "POST http://t/tdata/TemperAgents {\"TemperAgentId\":\"evo-e1-c1-a2-r0\"}"
    );
    let (call, state) = send(resume_proposal(state, ok(201, "{\"fields\":{\"Id\":\"ag\"}}")));
    assert!(call.starts_with(
        "POST http://t/tdata/TemperAgents('ag')/Temper.Agent.TemperAgent.Configure {\"max_turns\":\"10\",\"model\":\"model-1\","
    ));
    let (call, state) = send(resume_proposal(state, ok(200, "")));
    assert_eq!(
        call,
        "POST http://t/tdata/TemperAgents('ag')/Temper.Agent.TemperAgent.Provision {}"
    );
    let (call, state) = send(resume_proposal(state, ok(200, "{}")));
    assert_eq!(call, "GET http://t/tdata/TemperAgents('ag') ");
    let (call, state) = send(resume_proposal(state, ok(200, "{\"status\":\"Thinking\"}")));
    assert_eq!(
        call,
        "POST http://s/v1/processes/run {\"command\":\"sleep 1.250\",\"workdir\":\"/tmp/workspace\"}"
    );
    // Whatever comes of the sleep, the agent is asked for again.
    let (call, state) = send(resume_proposal(state, Err("down".to_string())));
    assert_eq!(call, "GET http://t/tdata/TemperAgents('ag') ");
    match resume_proposal(
        state,
        ok(200, "{\"fields\":{\"Status\":\"Completed\",\"Result\":\"{\\\"new_spec\\\":\\\"N\\\"}\"}}"),
    ) {
        ProposerStep::Done(v) => assert_eq!(
            render(&v),
            "{\"MutatedSpecSource\":\"N\",\"MutationSummary\":\"Mutation proposed by TemperAgent\",\"ProposerAgentId\":\"ag\",\"ProposerType\":\"temper_agent\"}"
        ),
        _ => panic!("there is a proposal"),
    }
}

fn to_poll(mut step: ProposerStep) -> ProposerState {
    for _ in 0..3 {
        step = resume_proposal(send(step).1, ok(200, "{\"entity_id\":\"ag\"}"));
    }
    send(step).1
}

#[test]
fn an_agent_that_comes_to_nothing_is_followed_by_another() {
    let ctx = proposal_context(&[("max_agent_retries", "2"), ("poll_attempts", "1")]);
    let state = to_poll(start_proposal(&ctx, "m"));
    let step = resume_proposal(
        state,
        ok(200, "{\"status\":\"Failed\",\"fields\":{\"error_message\":\"e\"}}"),
    );
    let (call, state) = send(step);
    assert!(call.ends_with("{\"TemperAgentId\":\"evo-e1-c1-a2-r1\"}"));
    let (call, state) = send(resume_proposal(state, ok(200, "{}")));
    assert!(call.contains("TemperAgents('unknown-agent')"));
    assert!(call.contains("IMPORTANT: previous attempt returned empty/invalid payload."));
    let (_, state) = send(resume_proposal(state, ok(200, "{}")));
    let (_, state) = send(resume_proposal(state, ok(200, "{}")));
    match resume_proposal(state, ok(200, "{}")) {
        ProposerStep::Failed(m) => assert_eq!(
            m,
            "Timed out waiting for TemperAgent completion after 1 polls on retry 1"
        ),
        _ => panic!("there is no other agent"),
    }
    let ctx = proposal_context(&[("max_agent_retries", "0")]);
    let state = to_poll(start_proposal(&ctx, "m"));
    match resume_proposal(state, ok(200, "{\"status\":\"Completed\"}")) {
        ProposerStep::Failed(m) => assert_eq!(
            m,
            "TemperAgent completed with invalid payload on retry 0: TemperAgent completed with empty result"
        ),
        _ => panic!("one agent is tried at least"),
    }
}

#[test]
fn a_proposal_ends_where_a_call_fails() {
    let ctx = proposal_context(&[]);
    let (_, state) = send(start_proposal(&ctx, "m"));
    match resume_proposal(state, ok(500, "x")) {
        ProposerStep::Failed(m) => assert_eq!(
            m,
            "POST http://127.0.0.1:3000/tdata/TemperAgents failed: HTTP 500 body=x"
        ),
        _ => panic!("it failed"),
    }
    let (_, state) = send(start_proposal(&ctx, "m"));
    match resume_proposal(state, ok(200, "{")) {
        ProposerStep::Failed(m) => {
            assert!(m.starts_with("failed to parse HTTP JSON body: "));
            assert!(m.ends_with("; body={"));
        }
        _ => panic!("it failed"),
    }
    let missing = |params: &str| match start_proposal(&context("{}", params, &[]), "m") {
        ProposerStep::Failed(m) => m,
        _ => panic!("something is missing"),
    };
    assert_eq!(missing("{}"), "missing DatasetJson in trigger/state");
    assert_eq!(
        missing("{\"reflective_dataset\":{}}"),
        "missing SpecSource in EvolutionRun state/trigger params"
    );
}

#[test]
fn members_leave_by_the_scores_that_they_are_given() {
    let scores = |x: f64| {
        let mut t = Scores::new();
        t.insert("x".to_string(), Score { bits: x.to_bits() });
        t
    };
    let (a, b, c) = (json("{\"id\":\"a\"}"), json("{\"id\":\"b\"}"), json("{\"id\":\"c\"}"));
    let frontier = vec![
        Rated {
            member: &a,
            scores: Some(scores(0.1)),
        },
        Rated {
            member: &b,
            scores: None,
        },
    ];
    assert_eq!(
        render(&update_frontier(&frontier, &c, &scores(0.2))),
        "{\"added\":true,\"frontier\":[{\"id\":\"b\"},{\"id\":\"c\"}],\"frontier_size\":2,\"removed\":[\"a\"]}"
    );
    assert_eq!(
        render(&update_frontier(&frontier, &c, &scores(0.05))),
        "{\"added\":false,\"frontier_size\":2,\"removed\":[]}"
    );
}
