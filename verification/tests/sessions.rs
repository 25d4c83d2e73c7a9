use temper::blobs::{blob_io_limit, get_blob, put_blob};
use temper::feature_requests::{
    FeatureRequestDisposition, FeatureRequestRecord, PlatformGapCategory,
};
use temper::json::Json;
use temper::json_text::{parse, render};
use temper::mcp::{
    line_for_response, place_arguments, read_identity, record_execute_turn, request_on_line,
    take_arguments,
    Identity, McpConfig, Session,
};
use temper::module::HttpReply;
use temper::observe::{
    build_alert_params, count_status, decision_event, discovery_for_alert, name_disposition,
    name_gap, plan_analysis, plan_update, refs_text, report_rows, report_sentinel, Alert, Refusal, RequestRow,
};
use temper::persistence::{
    entry_not_stored, event_not_stored, open_secrets, plan_secret, read_spec_row,
    secret_not_done, stored_source, stored_status, was_deleted, Backend, DecisionStatus,
    OpenedSecret, SecretAction, SecretPlan, SpecColumns,
};
use temper::trajectory::{TrajectoryEntry, TrajectorySource};
use temper::unmet::UnmetIntent;

fn json(text: &str) -> Json {
    match parse(text) {
        Ok(v) => v,
        Err(m) => panic!("{m}"),
    }
}

fn config(url: Option<&str>, port: Option<u16>, key: Option<&str>) -> McpConfig {
    McpConfig {
        temper_url: url.map(|u| u.to_string()),
        temper_port: port,
        agent_id: Some("me".to_string()),
        agent_type: None,
        session_id: Some("s1".to_string()),
        api_key: key.map(|k| k.to_string()),
    }
}

fn session(key: Option<&str>) -> Session {
    match Session::from_config(&config(Some("http://t"), None, key), &None, &None) {
        Ok(s) => s,
        Err(m) => panic!("{m}"),
    }
}

#[test]
fn sessions_are_set_up_from_their_configuration() {
    let env_key = Some("env".to_string());
    let tenant = Some("acme".to_string());
    let s = match Session::from_config(&config(Some("http://t//"), Some(1), None), &env_key, &tenant) {
        Ok(s) => s,
        Err(m) => panic!("{m}"),
    };
    assert_eq!(s.base_url, "http://t");
    assert_eq!(s.api_key.as_deref(), Some("env"));
    assert_eq!(s.identity_tenant, "acme");
    let blank = Some(" ".to_string());
    let s = match Session::from_config(&config(None, Some(3000), Some("own")), &env_key, &blank) {
        Ok(s) => s,
        Err(m) => panic!("{m}"),
    };
    assert_eq!(s.base_url, "http://127.0.0.1:3000");
    assert_eq!(s.api_key.as_deref(), Some("own"));
    assert_eq!(s.identity_tenant, "default");
    match Session::from_config(&config(None, None, None), &None, &None) {
        Ok(_) => panic!("there is no server"),
        Err(m) => assert_eq!(
            m,
            "Either --url or --port is required. Use --port <n> for a local server or --url <url> for a remote server."
        ),
    }
}

#[test]
fn an_agent_with_a_key_is_who_the_platform_says() {
    let mut s = session(Some("k"));
    let call = s.resolve_credential().unwrap();
    assert_eq!(call.url, "http://t/api/identity/resolve");
    assert_eq!(
        call.body,
        "{\"bearer_token\":\"k\",\"tenant\":\"default\"}"
    );
    let who = read_identity(&Some(HttpReply {
        status: 200,
        body: "{\"agent_instance_id\":\"i\",\"agent_type_name\":\"t\",\"more\":1}".to_string(),
    }));
    assert!(s.apply_client_info(who).is_ok());
    assert_eq!(s.agent_id.as_deref(), Some("i"));
    assert_eq!(s.agent_type.as_deref(), Some("t"));

    // Without an answer the agent is nobody, whatever it calls itself.
    let mut s = session(Some("k"));
    assert!(s.apply_client_info(None).is_err());
    for (status, body) in [(500, "{}"), (200, "x"), (200, "{\"agent_instance_id\":\"i\"}")] {
        assert!(read_identity(&Some(HttpReply {
            status,
            body: body.to_string()
        }))
        .is_none());
    }
    assert!(read_identity(&None).is_none());

    let mut s = session(None);
    assert!(s.resolve_credential().is_none());
    let other = Identity {
        agent_instance_id: "x".to_string(),
        agent_type_name: "y".to_string(),
    };
    assert!(s.apply_client_info(Some(other)).is_ok());
    assert_eq!(s.agent_id.as_deref(), Some("me"));
}

#[test]
fn sessions_are_recorded_and_uploaded() {
    let s = session(Some("k"));
    let call = s.finalize_trajectory("{}".to_string());
    assert_eq!(call.url, "http://t/api/ots/trajectories");
    let names: Vec<&str> = call.headers.iter().map(|h| h.0.as_str()).collect();
    assert_eq!(
        names,
        vec!["Content-Type", "X-Agent-Id", "X-Session-Id", "Authorization"]
    );
    assert_eq!(call.headers[3].1, "Bearer k");
    assert_eq!(s.recorded_agent(), "me");
    let long = "y".repeat(150);
    let t = record_execute_turn(&long, &Err("e".to_string()));
    assert_eq!(t.choice, format!("execute: {}", "y".repeat(100)));
    assert_eq!(t.answered, "e");
    assert_eq!(t.error.as_deref(), Some("e"));
    let t = record_execute_turn("1+1", &Ok("2".to_string()));
    assert_eq!((t.asked.as_str(), t.answered.as_str()), ("1+1", "2"));
    assert!(t.error.is_none());
}

#[test]
fn calls_and_lines_are_taken_apart() {
    assert_eq!(place_arguments("list", 0, 0), Ok((0, 0)));
    assert_eq!(place_arguments("list", 2, 0), Ok((1, 2)));
    assert_eq!(place_arguments("list", 5, 0), Ok((1, 2)));
    assert_eq!(
        place_arguments("list", 2, 1),
        Err("temper.list does not support keyword arguments".to_string())
    );
    assert_eq!(request_on_line("  {} \r"), Some("{}".to_string()));
    assert_eq!(request_on_line(" \t"), None);
    assert_eq!(line_for_response(&json("{\"b\":1,\"a\":[]}")), "{\"a\":[],\"b\":1}\n");
}

#[test]
fn blobs_are_answered_by_what_came_of_them() {
    assert_eq!(blob_io_limit(&None), 32);
    assert_eq!(blob_io_limit(&Some("8".to_string())), 8);
    assert_eq!(blob_io_limit(&Some("0".to_string())), 32);
    assert_eq!(blob_io_limit(&Some("-1".to_string())), 32);
    let a = put_blob(None);
    assert_eq!((a.status, a.body), (503, b"Blob storage requires Turso".to_vec()));
    assert_eq!(put_blob(Some(Ok(()))).status, 204);
    let a = put_blob(Some(Err("disk".to_string())));
    assert_eq!((a.status, a.body), (500, b"disk".to_vec()));
    let a = get_blob(Some(Ok(Some(vec![1, 2]))));
    assert_eq!((a.status, a.is_blob, a.body), (200, true, vec![1, 2]));
    assert_eq!(get_blob(Some(Ok(None))).status, 404);
    assert_eq!(get_blob(Some(Err("x".to_string()))).status, 500);
    assert_eq!(get_blob(None).status, 503);
}

#[test]
fn stored_names_and_errors_are_exact() {
    assert_eq!(stored_source(Some(TrajectorySource::Authz)), Some("Authz"));
    assert_eq!(stored_source(None), None);
    assert_eq!(stored_status(DecisionStatus::Expired), "expired");
    assert_eq!(
        event_not_stored("k", "t", "e", "c"),
        "failed to persist design-time event k for t/e: c"
    );
    let e = TrajectoryEntry {
        timestamp: String::new(),
        tenant: "t".to_string(),
        entity_type: "e".to_string(),
        entity_id: "i".to_string(),
        action: "a".to_string(),
        success: true,
        from_status: None,
        to_status: None,
        error: None,
        agent_id: None,
        session_id: None,
        authz_denied: None,
        denied_resource: None,
        denied_module: None,
        source: None,
        spec_governed: None,
        agent_type: None,
        request_body: None,
        intent: None,
    };
    assert_eq!(
        entry_not_stored(&e, "c"),
        "failed to persist trajectory entry for t/e/i action a: c"
    );
    assert_eq!(
        secret_not_done(SecretAction::Upsert, "t", "k", "c"),
        "failed to upsert secret t/k: c"
    );
    assert_eq!(
        secret_not_done(SecretAction::Load, "t", "", "c"),
        "failed to load secrets for tenant t: c"
    );
    assert!(was_deleted(1));
    assert!(!was_deleted(0));
}

#[test]
fn secrets_are_kept_up_to_the_first_that_is_no_text() {
    let secret = |k: &str, b: Option<&[u8]>| OpenedSecret {
        key_name: k.to_string(),
        plaintext: b.map(|x| x.to_vec()),
    };
    let (kept, error) = open_secrets(vec![
        secret("a", Some(b"one")),
        secret("b", None),
        secret("c", Some(b"two")),
    ]);
    assert_eq!(
        kept,
        vec![
            ("a".to_string(), "one".to_string()),
            ("c".to_string(), "two".to_string())
        ]
    );
    assert_eq!(error, None);
    let (kept, error) = open_secrets(vec![
        secret("a", Some(b"one")),
        secret("bad", Some(&[0xFF])),
        secret("c", Some(b"two")),
    ]);
    assert_eq!(kept.len(), 1);
    assert!(error.unwrap().starts_with("secret bad is not valid UTF-8: "));
    assert_eq!(
        plan_secret(Backend::Database, SecretAction::Load, false),
        SecretPlan::Nothing
    );
    assert_eq!(
        plan_secret(Backend::Ephemeral, SecretAction::Delete, false),
        SecretPlan::Refuse
    );
    assert_eq!(
        plan_secret(Backend::Database, SecretAction::Upsert, false),
        SecretPlan::Execute
    );
    assert_eq!(
        plan_secret(Backend::Missing, SecretAction::Upsert, true),
        SecretPlan::Nothing
    );
}

#[test]
fn spec_rows_are_read_from_their_columns() {
    let row = read_spec_row(SpecColumns {
        tenant: "t".to_string(),
        entity_type: "e".to_string(),
        ioa_source: "s".to_string(),
        csdl_xml: None,
        verification_status: "pending".to_string(),
        verified: 2,
        levels_passed: Some(-1),
        levels_total: Some(0x1_8000_0001),
        verification_result: None,
        updated_at: "now".to_string(),
    });
    assert!(row.verified);
    assert_eq!(row.levels_passed, Some(-1));
    assert_eq!(row.levels_total, Some(0x1_8000_0001i64 as i32));
}

#[test]
fn updates_must_name_a_known_disposition() {
    let body = json("{\"disposition\":\"WontFix\",\"developer_notes\":\"n\"}");
    match plan_update(&body, true) {
        Ok(u) => {
            assert_eq!(u.disposition, "WontFix");
            assert_eq!(u.notes.as_deref(), Some("n"));
        }
        Err(_) => panic!("it is known"),
    }
    assert!(matches!(plan_update(&body, false), Err(Refusal::ServiceUnavailable)));
    assert!(matches!(
        plan_update(&json("{\"disposition\":\"later\"}"), false),
        Err(Refusal::BadRequest)
    ));
    assert!(plan_update(&json("{\"disposition\":\"AC\u{212A}NOWLEDGED\"}"), true).is_ok());
    match plan_update(&json("{}"), true) {
        Ok(u) => assert_eq!(u.disposition, ""),
        Err(_) => panic!("nothing has to change"),
    }
    assert_eq!(Refusal::BadRequest.code(), 400);
    assert_eq!(Refusal::ServiceUnavailable.code(), 503);
    assert_eq!(Refusal::InternalServerError.code(), 500);
}

#[test]
fn the_observe_endpoints_answer_in_json() {
    let a = Alert {
        rule_name: "r".to_string(),
        record_id: "O1".to_string(),
        source: "s".to_string(),
        classification: "ErrorRate".to_string(),
        evidence_query: "q".to_string(),
        context: "{}".to_string(),
    };
    assert_eq!(
        render(&build_alert_params(&a)),
        "{\"classification\":\"ErrorRate\",\"context\":\"{}\",\"evidence_query\":\"q\",\"legacy_record_id\":\"O1\",\"source\":\"s\",\"tenant\":\"temper-system\"}"
    );
    let (reason, context) = discovery_for_alert(&a);
    assert_eq!(reason, "sentinel:r");
    assert_eq!(
        render(&context),
        "{\"classification\":\"ErrorRate\",\"evidence_query\":\"q\",\"observation_record_id\":\"O1\",\"rule_name\":\"r\",\"source\":\"s\"}"
    );
    assert_eq!(
        render(&plan_analysis(None, None, None)),
        "{\"reason\":\"manual\",\"source\":\"developer\",\"trigger_context_json\":\"{}\"}"
    );
    assert_eq!(
        render(&report_sentinel(vec![json("{}")], vec![], vec![])),
        "{\"alerts\":[{}],\"alerts_count\":1,\"insights\":[],\"insights_count\":0,\"intent_discoveries\":[]}"
    );
    let row = RequestRow {
        id: "f".to_string(),
        category: "c".to_string(),
        description: "d".to_string(),
        frequency: 3,
        trajectory_refs: "[\"t\"]".to_string(),
        disposition: "Open".to_string(),
        developer_notes: None,
        created_at: "now".to_string(),
    };
    let odd = RequestRow {
        id: "g".to_string(),
        trajectory_refs: "?".to_string(),
        category: String::new(),
        description: String::new(),
        frequency: -1,
        disposition: String::new(),
        developer_notes: Some("n".to_string()),
        created_at: String::new(),
    };
    assert_eq!(
        render(&report_rows(&vec![row, odd])),
        "{\"feature_requests\":[{\"category\":\"c\",\"created_at\":\"now\",\"description\":\"d\",\"developer_notes\":null,\"disposition\":\"Open\",\"frequency\":3,\"id\":\"f\",\"trajectory_refs\":[\"t\"]},{\"category\":\"\",\"created_at\":\"\",\"description\":\"\",\"developer_notes\":\"n\",\"disposition\":\"\",\"frequency\":-1,\"id\":\"g\",\"trajectory_refs\":null}],\"total\":2}"
    );
    assert_eq!(
        render(&decision_event("d", "a", "r")),
        "{\"action\":\"a\",\"decision_id\":\"d\",\"resource_type\":\"r\",\"status\":\"pending\",\"type\":\"new_decision\"}"
    );
    assert_eq!(name_disposition(FeatureRequestDisposition::WontFix), "WontFix");
    assert_eq!(name_gap(PlatformGapCategory::MissingMethod), "MissingMethod");
}

#[test]
fn unmet_intents_are_counted_by_status() {
    let u = |status: &str| UnmetIntent {
        entity_type: String::new(),
        action: String::new(),
        error_pattern: String::new(),
        failure_count: 1,
        first_seen: String::new(),
        last_seen: String::new(),
        status: status.to_string(),
        resolved_by: None,
        recommendation: String::new(),
        sample_body: None,
        sample_intent: None,
    };
    let v = vec![u("open"), u("resolved"), u("open")];
    assert_eq!(count_status(&v, "open"), 2);
    assert_eq!(count_status(&v, "resolved"), 1);
}

#[test]
fn a_call_names_its_tenant_first() {
    let call = |args: &str| match temper::json_text::parse_list(args) {
        Ok(v) => v,
        Err(m) => panic!("{m}"),
    };
    match take_arguments("list", call("[null,\"ten\",1,2]"), 0) {
        Ok((tenant, rest)) => {
            assert_eq!(tenant, "ten");
            assert_eq!(rest.len(), 2);
            assert_eq!(rest[0].as_integer(), Some(1));
        }
        Err(m) => panic!("{m}"),
    }
    for args in ["[]", "[null]", "[null,7]"] {
        assert_eq!(
            take_arguments("list", call(args), 0).err().as_deref(),
            Some("temper.list expects a string for tenant")
        );
    }
    assert_eq!(
        take_arguments("list", call("[null,\"ten\"]"), 1).err().as_deref(),
        Some("temper.list does not support keyword arguments")
    );
}

#[test]
fn references_are_stored_and_read_back() {
    let f = FeatureRequestRecord {
        category: PlatformGapCategory::MissingMethod,
        description: String::new(),
        frequency: 2,
        trajectory_refs: vec!["t1".to_string(), "\"".to_string()],
        disposition: FeatureRequestDisposition::Open,
        developer_notes: None,
    };
    let text = refs_text(&f);
    assert_eq!(text, "[\"t1\",\"\\\"\"]");
    assert_eq!(render(&json(&text)), text);
}

#[test]
fn an_identity_may_come_as_a_list() {
    let read = |body: &str| {
        read_identity(&Some(HttpReply {
            status: 200,
            body: body.to_string(),
        }))
    };
    let who = read("[\"i\",\"t\"]").unwrap();
    assert_eq!((who.agent_instance_id.as_str(), who.agent_type_name.as_str()), ("i", "t"));
    for body in ["[\"i\"]", "[\"i\",\"t\",\"u\"]", "[\"i\",1]", "\"i\""] {
        assert!(read(body).is_none());
    }
}
