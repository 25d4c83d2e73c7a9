use temper::feature_requests::{
    generate_feature_requests, FeatureRequestDisposition, PlatformGapCategory,
};
use temper::insights::{generate_insights, Assessment, InsightCategory, InsightRecord, InsightSignal};
use temper::intent_evidence::generate_intent_evidence;
use temper::json::Json;
use temper::score::Score;
use temper::trajectory::{
    actor_intent_key, build_logfire_query_hint, categorize_error, derive_intent_key,
    derive_intent_statement, derive_intent_title, derive_issue_title, derive_symptom_title,
    humanize_identifier, normalize_for_key, title_case, TrajectoryEntry, TrajectorySource,
};
use temper::unmet::{
    generate_unmet_intents, generate_unmet_intents_from_aggregated, UnmetIntentAggRow,
};

fn entry(entity_type: &str, action: &str, success: bool) -> TrajectoryEntry {
    TrajectoryEntry {
        timestamp: "2026-01-01T00:00:00Z".to_string(),
        tenant: "test".to_string(),
        entity_type: entity_type.to_string(),
        entity_id: "e1".to_string(),
        action: action.to_string(),
        success,
        from_status: None,
        to_status: None,
        error: None,
        agent_id: None,
        session_id: None,
        authz_denied: None,
        denied_resource: None,
        denied_module: None,
        source: None,
        spec_governed: None,
        agent_type: None,
        request_body: None,
        intent: None,
    }
}

fn failed_entry(entity_type: &str, action: &str, error: &str) -> TrajectoryEntry {
    TrajectoryEntry {
        error: Some(error.to_string()),
        ..entry(entity_type, action, false)
    }
}

fn authz_denied_entry(entity_type: &str, action: &str) -> TrajectoryEntry {
    TrajectoryEntry {
        authz_denied: Some(true),
        ..entry(entity_type, action, false)
    }
}

fn platform_failed_entry(entity_type: &str, action: &str, error: &str) -> TrajectoryEntry {
    TrajectoryEntry {
        source: Some(TrajectorySource::Platform),
        ..failed_entry(entity_type, action, error)
    }
}

fn failed_entry_with_intent(
    entity_type: &str,
    action: &str,
    error: &str,
    intent: &str,
    agent_id: &str,
    session_id: &str,
) -> TrajectoryEntry {
    TrajectoryEntry {
        error: Some(error.to_string()),
        intent: Some(intent.to_string()),
        agent_id: Some(agent_id.to_string()),
        session_id: Some(session_id.to_string()),
        ..entry(entity_type, action, false)
    }
}

fn success_entry_with_intent(
    entity_type: &str,
    action: &str,
    intent: &str,
    agent_id: &str,
    session_id: &str,
) -> TrajectoryEntry {
    TrajectoryEntry {
        intent: Some(intent.to_string()),
        agent_id: Some(agent_id.to_string()),
        session_id: Some(session_id.to_string()),
        ..entry(entity_type, action, true)
    }
}

fn score(x: f64) -> Score {
    Score { bits: x.to_bits() }
}

// A plain judgement: the more failures, the more urgent.
fn assess(signal: &InsightSignal) -> Assessment {
    let rate = signal.successes as f64 / signal.volume as f64;
    Assessment {
        priority: score((1.0 - rate) * (signal.volume as f64 / 20.0).min(1.0)),
        category: InsightCategory::UnmetIntent,
        failure_percent: format!("{:.0}", (1.0 - rate) * 100.0),
        success_percent: format!("{:.0}", rate * 100.0),
    }
}

fn insights(entries: &Vec<TrajectoryEntry>) -> Vec<InsightRecord> {
    generate_insights(entries, assess)
}

fn priority(i: &InsightRecord) -> f64 {
    f64::from_bits(i.priority_score.bits)
}

#[test]
fn empty_input_returns_empty() {
    assert!(insights(&vec![]).is_empty());
    assert!(generate_unmet_intents(&vec![]).is_empty());
    assert!(generate_feature_requests(&vec![]).is_empty());
}

#[test]
fn below_threshold_signals_skipped() {
    // Single entry (total < 2) should produce no insights.
    let entries = vec![entry("Ticket", "Create", true)];
    let insights = insights(&entries);
    assert!(
        insights.is_empty(),
        "signals with total < 2 should be skipped"
    );
}

#[test]
fn entity_set_not_found_open_unmet_intent() {
    let entries = vec![
        failed_entry("Invoice", "Create", "EntitySetNotFound: Invoice"),
        failed_entry("Invoice", "Create", "EntitySetNotFound: Invoice"),
    ];
    let insights = insights(&entries);
    assert!(!insights.is_empty());
    assert!(insights[0].signal.intent.contains("not found"));
    assert!(insights[0].recommendation.contains("Consider creating"));
}

#[test]
fn entity_set_not_found_resolved_by_submit_spec() {
    let entries = vec![
        failed_entry("Invoice", "Create", "EntitySetNotFound: Invoice"),
        failed_entry("Invoice", "Create", "EntitySetNotFound: Invoice"),
        entry("Invoice", "SubmitSpec", true),
    ];
    let insights = insights(&entries);
    assert!(!insights.is_empty());
    let resolved = insights
        .iter()
        .find(|i| i.signal.intent.contains("Invoice"))
        .unwrap();
    assert!(resolved.signal.intent.contains("resolved"));
    assert!(resolved.recommendation.contains("submitted"));
}

#[test]
fn authz_denial_above_threshold_generates_insight() {
    // > 30% authz denials should trigger an insight.
    let mut entries = Vec::new();
    for _ in 0..4 {
        entries.push(authz_denied_entry("Task", "Delete"));
    }
    entries.push(entry("Task", "Delete", true));
    // 4 denials out of 5 = 80% > 30%

    let insights = insights(&entries);
    let denial_insight = insights.iter().find(|i| i.signal.intent.contains("denied"));
    assert!(
        denial_insight.is_some(),
        "should generate authz denial insight"
    );
    assert!(denial_insight
        .unwrap()
        .recommendation
        .contains("Cedar permit"));
}

#[test]
fn authz_denial_below_threshold_no_special_insight() {
    // 1 denial out of 10 = 10% < 30% — no special authz insight.
    let mut entries = Vec::new();
    entries.push(authz_denied_entry("Task", "Delete"));
    for _ in 0..9 {
        entries.push(entry("Task", "Delete", true));
    }

    let insights = insights(&entries);
    let denial_insight = insights.iter().find(|i| i.signal.intent.contains("denied"));
    assert!(
        denial_insight.is_none(),
        "should not generate authz denial insight below threshold"
    );
}

#[test]
fn insights_sorted_by_priority_descending() {
    let mut entries = Vec::new();
    // High failure rate action.
    for _ in 0..20 {
        entries.push(failed_entry("Order", "Process", "guard rejected"));
    }
    // Low failure rate action.
    for _ in 0..2 {
        entries.push(entry("User", "Login", false));
    }

    let insights = insights(&entries);
    for window in insights.windows(2) {
        assert!(
            priority(&window[0]) >= priority(&window[1]),
            "insights should be sorted by priority descending"
        );
    }
}

#[test]
fn feature_requests_empty_for_non_platform_source() {
    let entries = vec![
        failed_entry("Ticket", "Create", "EntitySetNotFound"),
        failed_entry("Ticket", "Create", "EntitySetNotFound"),
        failed_entry("Ticket", "Create", "EntitySetNotFound"),
    ];
    assert!(
        generate_feature_requests(&entries).is_empty(),
        "non-platform source should not generate FRs"
    );
}

#[test]
fn feature_requests_below_threshold_skipped() {
    // 2 failures < FEATURE_REQUEST_THRESHOLD (3)
    let entries = vec![
        platform_failed_entry("Task", "Archive", "EntitySetNotFound"),
        platform_failed_entry("Task", "Archive", "EntitySetNotFound"),
    ];
    assert!(generate_feature_requests(&entries).is_empty());
}

#[test]
fn feature_requests_above_threshold_generated() {
    let entries = vec![
        platform_failed_entry("Report", "Generate", "ActionNotFound: Generate"),
        platform_failed_entry("Report", "Generate", "ActionNotFound: Generate"),
        platform_failed_entry("Report", "Generate", "ActionNotFound: Generate"),
    ];
    let frs = generate_feature_requests(&entries);
    assert_eq!(frs.len(), 1);
    assert!(frs[0].description.contains("Generate"));
    assert_eq!(frs[0].frequency, 3);
}

#[test]
fn unmet_intents_open_vs_resolved() {
    let entries = vec![
        failed_entry("Billing", "Charge", "EntitySetNotFound"),
        failed_entry("Billing", "Charge", "EntitySetNotFound"),
        entry("Billing", "SubmitSpec", true),
    ];
    let intents = generate_unmet_intents(&entries);
    assert!(!intents.is_empty());
    let billing = intents.iter().find(|i| i.entity_type == "Billing").unwrap();
    assert_eq!(billing.status, "resolved");
}

#[test]
fn intent_evidence_prefers_explicit_intent_and_detects_workaround() {
    let entries = vec![
        failed_entry_with_intent(
            "Invoice",
            "GenerateInvoice",
            "EntitySetNotFound: Invoice",
            "Send an invoice to the customer",
            "agent-1",
            "session-1",
        ),
        success_entry_with_intent(
            "InvoiceDraft",
            "CreateDraft",
            "Send an invoice to the customer",
            "agent-1",
            "session-1",
        ),
    ];

    let evidence = generate_intent_evidence(&entries);
    assert_eq!(evidence.intent_candidates.len(), 1);
    assert_eq!(evidence.workaround_patterns.len(), 1);
    assert_eq!(
        evidence.intent_candidates[0].intent_title,
        "Send An Invoice To The Customer"
    );
    assert_eq!(evidence.intent_candidates[0].suggested_kind, "workaround");
    assert_eq!(evidence.intent_candidates[0].workaround_count, 1);
    assert_eq!(evidence.workaround_patterns[0].occurrences, 1);
}

#[test]
fn intent_evidence_marks_abandonment_for_unrecovered_failures() {
    let entries = vec![
        failed_entry_with_intent(
            "Issue",
            "MoveToTodo",
            "Authorization denied",
            "Move issue into active work",
            "worker-1",
            "session-2",
        ),
        failed_entry_with_intent(
            "Issue",
            "MoveToTodo",
            "Authorization denied",
            "Move issue into active work",
            "worker-1",
            "session-2",
        ),
    ];

    let evidence = generate_intent_evidence(&entries);
    assert_eq!(evidence.intent_candidates.len(), 1);
    assert_eq!(evidence.abandonment_patterns.len(), 1);
    assert_eq!(evidence.intent_candidates[0].abandonment_count, 1);
    assert_eq!(
        evidence.intent_candidates[0].suggested_kind,
        "governance_gap"
    );
}

#[test]
fn categorize_error_patterns() {
    assert_eq!(
        categorize_error(Some("EntitySetNotFound: X")),
        "EntitySetNotFound"
    );
    assert_eq!(
        categorize_error(Some("Authorization denied")),
        "AuthzDenied"
    );
    assert_eq!(
        categorize_error(Some("ActionNotFound: Y")),
        "ActionNotFound"
    );
    assert_eq!(categorize_error(Some("guard rejected")), "GuardRejected");
    assert_eq!(categorize_error(Some("something else")), "Other");
    assert_eq!(categorize_error(None), "Unknown");
}

#[test]
fn the_first_pattern_that_applies_decides() {
    assert_eq!(
        categorize_error(Some("entity set not found: Authorization denied")),
        "EntitySetNotFound"
    );
    assert_eq!(
        categorize_error(Some("authorization denied by guard")),
        "AuthzDenied"
    );
    assert_eq!(
        categorize_error(Some("unknown action behind guard")),
        "ActionNotFound"
    );
    assert_eq!(categorize_error(Some("")), "Other");
}

#[test]
fn names_are_made_from_identifiers() {
    assert_eq!(humanize_identifier("GenerateInvoice"), "generate invoice");
    assert_eq!(humanize_identifier("__move_to--Todo"), "move to todo");
    assert_eq!(humanize_identifier("HTTPServer2Go"), "httpserver2go");
    assert_eq!(title_case("  send AN  invoice\tnow "), "Send An Invoice Now");
    assert_eq!(normalize_for_key("  Send, an Invoice! "), "send--an-invoice-");
    assert_eq!(normalize_for_key("Ünder"), "-nder");
}

#[test]
fn intents_are_stated_by_their_actions() {
    assert_eq!(
        derive_intent_statement("InvoiceDraft", "GenerateAll"),
        "Generate invoice draft"
    );
    assert_eq!(derive_intent_statement("Task", "createTask"), "Create task");
    assert_eq!(
        derive_intent_statement("Issue", "MoveToTodo"),
        "Move issue to todo"
    );
    assert_eq!(
        derive_intent_statement("Issue", "moveToInReview"),
        "Move issue to in review"
    );
    assert_eq!(
        derive_intent_statement("PurchaseOrder", "ApproveOrder"),
        "approve order purchase order"
    );
    assert_eq!(
        derive_intent_title(&None, "Issue", "MoveToTodo"),
        "Allow issue to reach todo"
    );
    assert_eq!(
        derive_intent_title(&None, "Report", "generate"),
        "Enable report generation"
    );
    assert_eq!(
        derive_intent_title(&None, "Report", "Create"),
        "Enable report creation"
    );
    assert_eq!(
        derive_intent_title(&Some("  ".to_string()), "Order", "Ship"),
        "Enable order ship workflow"
    );
    assert_eq!(
        derive_issue_title(" ", &Some("pay later".to_string()), "Order", "Ship"),
        "Pay Later"
    );
    assert_eq!(
        derive_issue_title(" ", &None, "Order", "Ship"),
        "Ship Order"
    );
}

#[test]
fn symptoms_are_titled_by_outcome() {
    assert_eq!(
        derive_symptom_title(&entry("InvoiceDraft", "CreateDraft", true)),
        "invoice draft succeeded via create draft"
    );
    assert_eq!(
        derive_symptom_title(&failed_entry("Issue", "MoveToTodo", "Authorization denied")),
        "issue is denied while attempting move to todo"
    );
    assert_eq!(
        derive_symptom_title(&failed_entry("Invoice", "Create", "EntitySetNotFound")),
        "invoice is missing for create"
    );
    assert_eq!(
        derive_symptom_title(&failed_entry("Invoice", "Create", "boom")),
        "invoice fails during create"
    );
}

#[test]
fn the_intent_key_comes_from_what_is_said_first() {
    let body = Json::object()
        .set("goal", Json::of_text("  "))
        .set("title", Json::of_text("Ship It"))
        .set("objective", Json::Unsigned(3));
    let mut e = entry("Order", "Ship", true);
    assert_eq!(derive_intent_key(&e), "ship-order");
    e.request_body = Some(body);
    assert_eq!(derive_intent_key(&e), "ship-it");
    e.intent = Some("Pay Now".to_string());
    assert_eq!(derive_intent_key(&e), "pay-now");
    assert_eq!(actor_intent_key(&e), "anonymous::pay-now");
    e.agent_id = Some("a1".to_string());
    assert_eq!(actor_intent_key(&e), "a1::pay-now");
    e.session_id = Some("s1".to_string());
    assert_eq!(actor_intent_key(&e), "s1::pay-now");
}

#[test]
fn query_hints_leave_out_what_is_blank() {
    let hint = build_logfire_query_hint(
        "workaround",
        &Some("Invoice".to_string()),
        &Some(" ".to_string()),
        &None,
    );
    assert_eq!(
        temper::json_text::render(&hint),
        "{\"entity_type\":\"Invoice\",\"environment\":\"local\",\"limit\":25,\"lookback_minutes\":240,\"query_kind\":\"alternate_success_paths\",\"service_name\":\"temper-platform\",\"tool\":\"logfire_query\"}"
    );
    let hint = build_logfire_query_hint("governance_gap", &None, &None, &None);
    assert_eq!(hint.text_or("query_kind", ""), "intent_failure_cluster");
    let hint = build_logfire_query_hint("friction", &None, &None, &None);
    assert_eq!(hint.text_or("query_kind", ""), "friction");
}

#[test]
fn insight_texts_are_exact() {
    let entries = vec![
        failed_entry("Invoice", "Create", "EntitySetNotFound: Invoice"),
        failed_entry("Invoice", "Create", "entity set not found"),
        authz_denied_entry("Task", "Delete"),
        entry("Task", "Delete", true),
        failed_entry("Order", "Ship", "boom"),
        failed_entry("Order", "Ship", "boom"),
        failed_entry("Order", "Ship", "boom"),
        entry("Order", "Ship", true),
    ];
    let got = insights(&entries);
    assert_eq!(got.len(), 3);
    // A missing entity type stands at one half at least, the others at what they
    // were judged: 0.15 and 0.05.
    let invoice = &got[0];
    assert_eq!(priority(invoice), 0.5);
    assert_eq!(
        invoice.signal.intent,
        "Entity type 'Invoice' — entity type not found (open unmet intent)"
    );
    assert_eq!(
        invoice.recommendation,
        "Consider creating 'Invoice' entity type. 2 attempts, 100% failure rate."
    );
    assert_eq!(invoice.signal.volume, 2);
    assert_eq!(invoice.signal.successes, 0);
    assert_eq!(
        got[2].signal.intent,
        "Action 'Delete' on 'Task' denied 1 times"
    );
    let order = &got[1];
    assert_eq!(order.signal.intent, "Order.Ship");
    assert_eq!(
        order.recommendation,
        "Action 'Ship' on 'Order' has 75% failure rate (4 attempts). Possible missing feature."
    );
}

#[test]
fn denials_are_told_whatever_their_priority() {
    let mut entries = vec![authz_denied_entry("Task", "Delete")];
    for _ in 0..2 {
        entries.push(entry("Task", "Delete", true));
    }
    // One in three is more than three in ten.
    let got = insights(&entries);
    assert_eq!(got.len(), 1);
    assert_eq!(
        got[0].signal.intent,
        "Action 'Delete' on 'Task' denied 1 times"
    );
    assert_eq!(
        got[0].recommendation,
        "Consider adding Cedar permit policy for 'Delete' on 'Task'."
    );
    // Three in ten is not.
    let mut entries = Vec::new();
    for i in 0..10 {
        if i < 3 {
            entries.push(authz_denied_entry("Task", "Delete"));
        } else {
            entries.push(entry("Task", "Delete", true));
        }
    }
    assert!(insights(&entries)
        .iter()
        .all(|i| !i.signal.intent.contains("denied")));
}

#[test]
fn a_submitted_spec_halves_the_priority() {
    let entries = vec![
        failed_entry("Invoice", "Create", "EntitySetNotFound"),
        failed_entry("Invoice", "Create", "EntitySetNotFound"),
        entry("Invoice", "SubmitSpec", false),
    ];
    let got = insights(&entries);
    assert_eq!(got.len(), 1);
    assert_eq!(priority(&got[0]), 0.05);
    assert_eq!(
        got[0].recommendation,
        "Spec for 'Invoice' has been submitted. Monitor for approval."
    );
}

#[test]
fn every_category_has_its_advice() {
    let entries = vec![entry("A", "Do", true), entry("A", "Do", false)];
    for (category, advice) in [
        (
            InsightCategory::UnmetIntent,
            "Action 'Do' on 'A' has f% failure rate (2 attempts). Possible missing feature.",
        ),
        (
            InsightCategory::Friction,
            "Action 'Do' on 'A' has high volume (2 attempts). Consider simplifying.",
        ),
        (
            InsightCategory::Workaround,
            "Pattern detected on 'A.Do' — 2 attempts with s% success. May be a workaround.",
        ),
        (
            InsightCategory::PlatformGap,
            "Platform gap: 'Do' on 'A' failed 2 times. Consider adding this capability.",
        ),
    ] {
        let judge = |_s: &InsightSignal| Assessment {
            priority: score(0.1),
            category,
            failure_percent: "f".to_string(),
            success_percent: "s".to_string(),
        };
        let got = generate_insights(&entries, judge);
        assert_eq!(got.len(), 1);
        assert_eq!(got[0].recommendation, advice);
        let dull = |_s: &InsightSignal| Assessment {
            priority: score(0.0999999),
            category,
            failure_percent: String::new(),
            success_percent: String::new(),
        };
        assert!(generate_insights(&entries, dull).is_empty());
    }
}

#[test]
fn feature_requests_are_exact_and_the_most_frequent_come_first() {
    let mut entries = Vec::new();
    for i in 0..3 {
        let mut e = platform_failed_entry("Report", "Generate", "ActionNotFound: Generate");
        e.timestamp = format!("t{i}");
        entries.push(e);
    }
    for _ in 0..4 {
        entries.push(platform_failed_entry("Task", "Archive", "EntitySetNotFound"));
    }
    // Denials are no feature requests.
    for _ in 0..9 {
        entries.push(platform_failed_entry("Task", "Drop", "Authorization denied"));
    }
    let got = generate_feature_requests(&entries);
    assert_eq!(got.len(), 2);
    assert_eq!(
        got[0].description,
        "Agents tried 'Archive' 4 times — EntitySetNotFound"
    );
    assert_eq!(got[0].category, PlatformGapCategory::MissingCapability);
    assert_eq!(
        got[1].description,
        "Agents tried 'Generate' 3 times — ActionNotFound: Generate"
    );
    assert_eq!(got[1].category, PlatformGapCategory::MissingMethod);
    assert_eq!(got[1].trajectory_refs, vec!["t0", "t1", "t2"]);
    assert_eq!(got[1].disposition, FeatureRequestDisposition::Open);
    assert!(got[1].developer_notes.is_none());
}

#[test]
fn unmet_intents_come_by_type_and_pattern() {
    let mut a = failed_entry("Zeta", "Run", "guard says no");
    a.timestamp = "t1".to_string();
    a.intent = Some("first".to_string());
    let mut b = failed_entry("Zeta", "Walk", "guard says no");
    b.timestamp = "t2".to_string();
    b.request_body = Some(Json::of_text("body"));
    let entries = vec![
        a,
        failed_entry("Alpha", "Run", "EntitySetNotFound"),
        failed_entry("Alpha", "Run", "Authorization denied"),
        authz_denied_entry("Alpha", "Run"),
        entry("Alpha", "Run", true),
        b,
    ];
    let got = generate_unmet_intents(&entries);
    assert_eq!(got.len(), 2);
    assert_eq!(got[0].entity_type, "Alpha");
    assert_eq!(got[0].status, "open");
    assert_eq!(
        got[0].recommendation,
        "Consider creating 'Alpha' entity type."
    );
    assert!(got[0].resolved_by.is_none());
    assert_eq!(got[1].error_pattern, "GuardRejected");
    assert_eq!(got[1].action, "Run");
    assert_eq!(got[1].failure_count, 2);
    assert_eq!(got[1].first_seen, "t1");
    assert_eq!(got[1].last_seen, "t2");
    assert_eq!(got[1].sample_intent.as_deref(), Some("first"));
    assert_eq!(
        got[1].sample_body.as_ref().unwrap().as_text().unwrap(),
        "body"
    );
    assert_eq!(
        got[1].recommendation,
        "Investigate failures for 'Zeta' (pattern: GuardRejected)."
    );
}

fn row(entity_type: &str, error: Option<&str>, count: u64, first: &str, last: &str) -> UnmetIntentAggRow {
    UnmetIntentAggRow {
        entity_type: entity_type.to_string(),
        action: format!("{entity_type}Action"),
        error: error.map(|e| e.to_string()),
        count,
        first_seen: first.to_string(),
        last_seen: last.to_string(),
    }
}

#[test]
fn rows_of_one_pattern_are_counted_together() {
    let rows = vec![
        row("A", Some("EntitySetNotFound: A"), 2, "t5", "t6"),
        row("A", Some("entity set not found"), 3, "t1", "t3"),
        row("A", Some("Authorization denied"), 9, "t0", "t9"),
        row("B", None, 1, "t2", "t2"),
    ];
    let submitted = vec![("B".to_string(), "t8".to_string())];
    let got = generate_unmet_intents_from_aggregated(&rows, &submitted);
    assert_eq!(got.len(), 2);
    assert_eq!(got[0].failure_count, 5);
    assert_eq!(got[0].first_seen, "t1");
    assert_eq!(got[0].last_seen, "t6");
    assert_eq!(got[0].status, "open");
    assert_eq!(got[1].error_pattern, "Unknown");
    assert_eq!(got[1].status, "resolved");
    assert_eq!(got[1].resolved_by.as_deref(), Some("t8"));
    assert_eq!(got[1].recommendation, "Spec for 'B' has been submitted.");
}

fn at(mut e: TrajectoryEntry, t: &str) -> TrajectoryEntry {
    e.timestamp = t.to_string();
    e
}

#[test]
fn evidence_follows_time_not_the_order_of_the_list() {
    // The success came before the failure, so nothing was recovered.
    let entries = vec![
        at(
            failed_entry_with_intent("A", "Try", "boom", "Do it", "a", "s"),
            "t2",
        ),
        at(success_entry_with_intent("A", "Other", "Do it", "a", "s"), "t1"),
    ];
    let got = generate_intent_evidence(&entries);
    assert!(got.workaround_patterns.is_empty());
    assert_eq!(got.abandonment_patterns.len(), 1);
    assert_eq!(got.intent_candidates[0].success_after_failure_count, 0);
    assert_eq!(got.intent_candidates[0].first_seen, "t1");
    assert_eq!(got.intent_candidates[0].last_seen, "t2");
    assert_eq!(got.intent_candidates[0].status, "mixed");
    assert_eq!(got.trajectory_samples.len(), 2);
    assert_eq!(got.trajectory_samples[0].timestamp, "t2");
}

#[test]
fn the_same_action_again_is_a_recovery_but_no_detour() {
    let entries = vec![
        at(
            failed_entry_with_intent("A", "Try", "boom", "Do it", "a", "s"),
            "t1",
        ),
        at(success_entry_with_intent("A", "Try", "Do it", "a", "s"), "t2"),
    ];
    let got = generate_intent_evidence(&entries);
    let c = &got.intent_candidates[0];
    assert_eq!(c.success_after_failure_count, 1);
    assert_eq!(c.workaround_count, 0);
    assert_eq!(c.abandonment_count, 0);
    assert_eq!(c.suggested_kind, "friction");
    assert_eq!(
        c.recommendation,
        "Collapse the repeated multi-step flow behind 'Do It' into a simpler supported path."
    );
    assert_eq!(
        c.problem_statement,
        "The intended outcome 'Do it' is possible, but only after repeated retries or unnecessary extra steps."
    );
    assert_eq!(temper::candidates::score_intent_candidate(c), 6);
}

#[test]
fn another_actor_does_not_recover_a_failure() {
    let entries = vec![
        at(
            failed_entry_with_intent("A", "Try", "boom", "Do it", "a", "s1"),
            "t1",
        ),
        at(success_entry_with_intent("A", "Other", "Do it", "b", "s2"), "t2"),
    ];
    let got = generate_intent_evidence(&entries);
    assert!(got.workaround_patterns.is_empty());
    assert_eq!(got.abandonment_patterns.len(), 1);
    let p = &got.abandonment_patterns[0];
    assert_eq!(p.failed_actions, vec!["Try"]);
    assert_eq!(p.sample_agents, vec!["a"]);
    assert_eq!(p.intent_title, "Do It");
}

#[test]
fn workarounds_of_one_path_are_counted_together() {
    let mut entries = Vec::new();
    for (session, t) in [("s1", "t1"), ("s2", "t3")] {
        entries.push(at(
            failed_entry_with_intent("A", "Try", "boom", "Do it", session, session),
            t,
        ));
        entries.push(at(
            success_entry_with_intent("A", "Other", "Do it", session, session),
            &format!("{t}x"),
        ));
    }
    let got = generate_intent_evidence(&entries);
    assert_eq!(got.workaround_patterns.len(), 1);
    let w = &got.workaround_patterns[0];
    assert_eq!(w.occurrences, 2);
    assert_eq!(w.failed_actions, vec!["Try"]);
    assert_eq!(w.successful_actions, vec!["Other"]);
    assert_eq!(w.sample_agents, vec!["s1", "s2"]);
    assert_eq!(w.last_seen, "t3x");
    assert_eq!(w.intent_key, "do-it");
}

#[test]
fn no_candidate_is_resolved_and_lists_are_bounded() {
    let mut entries = Vec::new();
    for i in 0..30 {
        let intent = format!("Goal {i:02}");
        for _ in 0..(i % 5) {
            entries.push(failed_entry_with_intent("A", "Try", "boom", &intent, "a", "s"));
        }
        entries.push(success_entry_with_intent("A", "Other", &intent, "a", "s"));
    }
    let got = generate_intent_evidence(&entries);
    assert_eq!(got.intent_candidates.len(), 12);
    assert_eq!(got.workaround_patterns.len(), 8);
    assert_eq!(got.abandonment_patterns.len(), 0);
    assert_eq!(got.trajectory_samples.len(), 20);
    for c in &got.intent_candidates {
        assert!(c.failure_count > 0);
        assert!(c.status != "resolved");
        assert_eq!(c.total_count, c.success_count + c.failure_count);
        assert!(c.evidence_examples.len() <= 4);
    }
    for w in got.intent_candidates.windows(2) {
        assert!(
            temper::candidates::score_intent_candidate(&w[0])
                >= temper::candidates::score_intent_candidate(&w[1])
        );
    }
}

#[test]
fn a_missing_set_is_a_missing_capability() {
    let entries = vec![failed_entry("Invoice", "Create", "EntitySetNotFound: Invoice")];
    let got = generate_intent_evidence(&entries);
    let c = &got.intent_candidates[0];
    assert_eq!(c.suggested_kind, "missing_capability");
    assert_eq!(c.status, "open");
    assert_eq!(c.intent_key, "create-invoice");
    assert_eq!(c.intent_title, "Enable invoice creation");
    assert_eq!(
        c.recommendation,
        "Add direct product/spec support for 'Enable invoice creation'."
    );
    assert_eq!(c.failure_patterns, vec!["EntitySetNotFound"]);
    assert_eq!(c.evidence_examples[0].error_pattern.as_deref(), Some("EntitySetNotFound"));
}

#[test]
fn rows_and_entries_show_the_same_intents() {
    let entries = vec![
        at(failed_entry("B", "Run", "guard failed"), "1"),
        at(failed_entry("A", "Go", "EntitySetNotFound"), "2"),
        at(failed_entry("B", "Walk", "guard again"), "3"),
        at(failed_entry("B", "Run", "Authorization denied"), "4"),
        at(entry("A", "SubmitSpec", true), "5"),
    ];
    let rows: Vec<UnmetIntentAggRow> = entries
        .iter()
        .filter(|e| !e.success)
        .map(|e| {
            let mut r = row(&e.entity_type, e.error.as_deref(), 1, &e.timestamp, &e.timestamp);
            r.action = e.action.clone();
            r
        })
        .collect();
    let submitted = vec![("A".to_string(), "5".to_string())];
    let told = |v: Vec<temper::unmet::UnmetIntent>| -> Vec<String> {
        v.iter()
            .map(|u| {
                format!(
                    "{} {} {} {} {} {} {}",
                    u.entity_type,
                    u.action,
                    u.error_pattern,
                    u.failure_count,
                    u.first_seen,
                    u.last_seen,
                    u.status
                )
            })
            .collect()
    };
    let direct = told(generate_unmet_intents(&entries));
    assert_eq!(
        direct,
        vec![
            "A Go EntitySetNotFound 1 2 2 resolved",
            "B Run GuardRejected 2 1 3 open"
        ]
    );
    assert_eq!(
        direct,
        told(generate_unmet_intents_from_aggregated(&rows, &submitted))
    );
}

#[test]
fn unmet_intents_go_by_time_not_by_the_order_of_the_list() {
    let mut late = at(failed_entry("Billing", "Charge", "EntitySetNotFound"), "2026-01-02T00:00:00Z");
    late.intent = Some("late".to_string());
    let mut early = at(failed_entry("Billing", "Charge", "EntitySetNotFound"), "2026-01-01T00:00:00Z");
    early.intent = Some("early".to_string());
    let got = generate_unmet_intents(&vec![late, early]);
    assert_eq!(got.len(), 1);
    assert_eq!(got[0].first_seen, "2026-01-01T00:00:00Z");
    assert_eq!(got[0].last_seen, "2026-01-02T00:00:00Z");
    assert_eq!(got[0].sample_intent.as_deref(), Some("late"));
}

#[test]
fn the_same_entries_in_another_order_show_the_same() {
    let make = |t: &str| match t {
        "1" => at(failed_entry("A", "Go", "guard"), "1"),
        "2" => at(entry("A", "Walk", true), "2"),
        "3" => at(failed_entry("A", "Go", "Authorization denied"), "3"),
        _ => at(failed_entry("B", "Run", "EntitySetNotFound"), "4"),
    };
    let told = |order: [&str; 4]| -> Vec<String> {
        let e = generate_intent_evidence(&order.iter().map(|t| make(t)).collect());
        let mut v: Vec<String> = e
            .intent_candidates
            .iter()
            .map(|c| {
                format!(
                    "{} {} {} {} {} {}",
                    c.intent_key,
                    c.status,
                    c.failure_count,
                    c.abandonment_count,
                    c.first_seen,
                    c.last_seen
                )
            })
            .collect();
        v.extend(e.trajectory_samples.iter().map(|s| s.timestamp.clone()));
        v
    };
    let one = told(["1", "2", "3", "4"]);
    assert_eq!(one, told(["4", "3", "2", "1"]));
    assert_eq!(one, told(["3", "1", "4", "2"]));
}
