use temper::findings::{
    build_issue_description, complexity_from_finding, default_acceptance_criteria,
    finding_intent_title, finding_issue_title, finding_symptom_title,
    insight_category_for_finding, issue_priority_level, observation_class_for_finding,
    severity_from_score, solution_risk_from_score, trend_from_str, AgentFinding, Complexity,
    ObservationClass, Severity, SolutionRisk,
};
use temper::insights::{InsightCategory, Trend};
use temper::json::Json;
use temper::json_text::render;
use temper::materialize::{
    plan_finding, report_materialized, solution_option, summary_or_default, EvolutionRecord,
    FindingForms, FindingIds, MaterializeRequest, Task,
};
use temper::score::Score;

fn score(x: f64) -> Score {
    Score { bits: x.to_bits() }
}

#[test]
fn issue_title_prefers_intent_shaped_fields() {
    let finding = AgentFinding {
        title: "Invoice entity type not implemented".to_string(),
        symptom_title: "GenerateInvoice hits EntitySetNotFound on Invoice".to_string(),
        intent_title: "Enable invoice generation workflow".to_string(),
        recommended_issue_title: "Enable invoice generation workflow".to_string(),
        intent: "Generate invoices for customers".to_string(),
        ..AgentFinding::default()
    };

    assert_eq!(
        finding_issue_title(&finding),
        "Enable invoice generation workflow"
    );
    assert_eq!(
        finding_symptom_title(&finding),
        "GenerateInvoice hits EntitySetNotFound on Invoice"
    );
    assert_eq!(
        finding_intent_title(&finding),
        "Enable invoice generation workflow"
    );
}

#[test]
fn titles_fall_back_in_order() {
    let mut f = AgentFinding::default();
    assert_eq!(finding_issue_title(&f), "Investigate unmet intent");
    assert_eq!(finding_symptom_title(&f), "Observed workflow symptom");
    assert_eq!(finding_intent_title(&f), "Enable unmet intent");
    f.symptom_title = "  s ".to_string();
    assert_eq!(finding_issue_title(&f), "s");
    f.intent = " i".to_string();
    assert_eq!(finding_issue_title(&f), "i");
    f.title = "t".to_string();
    assert_eq!(finding_issue_title(&f), "t");
    assert_eq!(finding_intent_title(&f), "i");
}

#[test]
fn scores_are_graded_at_their_thresholds() {
    for (x, severity, risk, level) in [
        (0.85, Severity::Critical, SolutionRisk::High, 1),
        (0.8499, Severity::High, SolutionRisk::Medium, 2),
        (0.65, Severity::High, SolutionRisk::Medium, 2),
        (0.6499, Severity::Medium, SolutionRisk::Low, 3),
        (0.40, Severity::Medium, SolutionRisk::Low, 3),
        (0.3999, Severity::Low, SolutionRisk::Low, 4),
        (0.35, Severity::Low, SolutionRisk::Low, 4),
        (0.3499, Severity::Low, SolutionRisk::Nothing, 4),
        (-1.0, Severity::Low, SolutionRisk::Nothing, 4),
        (f64::NAN, Severity::Low, SolutionRisk::Nothing, 4),
    ] {
        assert_eq!(severity_from_score(score(x)), severity, "{x}");
        assert_eq!(solution_risk_from_score(score(x)), risk, "{x}");
        assert_eq!(issue_priority_level(score(x)), level, "{x}");
    }
}

#[test]
fn words_stand_for_trends_and_kinds() {
    assert_eq!(trend_from_str(" Declining "), Trend::Declining);
    assert_eq!(trend_from_str("STABLE"), Trend::Stable);
    assert_eq!(trend_from_str("whatever"), Trend::Growing);
    for (kind, complexity, class, category) in [
        (
            " Friction",
            Complexity::Low,
            ObservationClass::Trajectory,
            InsightCategory::Friction,
        ),
        (
            "governance_gap",
            Complexity::Low,
            ObservationClass::AuthzDenied,
            InsightCategory::PlatformGap,
        ),
        (
            "WORKAROUND",
            Complexity::Medium,
            ObservationClass::Trajectory,
            InsightCategory::Workaround,
        ),
        (
            "missing_capability",
            Complexity::Medium,
            ObservationClass::Trajectory,
            InsightCategory::UnmetIntent,
        ),
    ] {
        let f = AgentFinding {
            kind: kind.to_string(),
            ..AgentFinding::default()
        };
        assert_eq!(complexity_from_finding(&f), complexity);
        assert_eq!(observation_class_for_finding(&f), class);
        assert_eq!(insight_category_for_finding(&f), category);
    }
}

#[test]
fn issues_are_described_in_full() {
    let f = AgentFinding {
        title: "T".to_string(),
        recommendation: "R".to_string(),
        evidence: Json::object().set("n", Json::Unsigned(1)),
        ..AgentFinding::default()
    };
    assert_eq!(
        default_acceptance_criteria(&f),
        vec![
            "Agents can complete 'T' without the current failure mode.",
            "Observe metrics show improved completion for the affected workflow."
        ]
    );
    let text = build_issue_description("S", &f, &vec!["r1".to_string(), "r2".to_string()]);
    assert_eq!(
        text,
        "Summary:\nS\n\nIntent Title:\nT\n\nObserved Symptom:\nT\n\nIntent:\nNo explicit intent supplied.\n\nRecommendation:\nR\n\nProblem Statement:\nNo formal problem statement supplied.\n\nRoot Cause:\nNo root cause supplied.\n\nSpec Diff:\nNo spec diff supplied.\n\nAcceptance Criteria:\n- Agents can complete 'T' without the current failure mode.\n- Observe metrics show improved completion for the affected workflow.\n\nEvidence:\n{\n  \"n\": 1\n}\n\nEvolution Records:\nr1, r2"
    );
}

fn ids(n: u32) -> FindingIds {
    FindingIds {
        observation_record: format!("O{n}"),
        observation_entity: format!("OBS{n}"),
        problem_record: format!("P{n}"),
        problem_entity: format!("PRB{n}"),
        analysis_record: format!("A{n}"),
        analysis_entity: format!("ANL{n}"),
        insight_record: format!("I{n}"),
        insight_entity: format!("INS{n}"),
        issue: format!("issue{n}"),
        now: "now".to_string(),
    }
}

fn request() -> MaterializeRequest {
    MaterializeRequest {
        intent_discovery_id: "d1".to_string(),
        tenant: None,
        reason: Some("why".to_string()),
        source: None,
        signal_summary: Json::object(),
        summary: summary_or_default(""),
    }
}

fn forms() -> FindingForms {
    FindingForms {
        finding: Json::object().set("kind", Json::of_text("friction")),
        priority: "0.9000".to_string(),
        options: "[]".to_string(),
    }
}

#[test]
fn a_finding_that_changes_specs_is_stored_in_a_chain() {
    let f = AgentFinding {
        kind: "friction".to_string(),
        title: "T".to_string(),
        priority_score: score(0.9),
        volume: 3,
        requires_spec_change: true,
        dedupe_key: "k".to_string(),
        ..AgentFinding::default()
    };
    let tasks = plan_finding(&request(), "ten", &f, &forms(), &ids(1));
    let mut stored: Vec<(String, Option<String>)> = Vec::new();
    for t in &tasks {
        if let Task::Store(id, from, _) = t {
            stored.push((id.clone(), from.clone()));
        }
    }
    assert_eq!(
        stored,
        vec![
            ("O1".to_string(), None),
            ("P1".to_string(), Some("O1".to_string())),
            ("A1".to_string(), Some("P1".to_string())),
            ("I1".to_string(), Some("A1".to_string())),
        ]
    );
    assert_eq!(tasks.len(), 13);
    match &tasks[0] {
        Task::Store(_, _, EvolutionRecord::Observation(source, class, query, n, context)) => {
            assert_eq!(source, "intent-discovery:friction");
            assert_eq!(*class, ObservationClass::Trajectory);
            assert_eq!(query, "intent discovery d1 -> symptom=T intent=T");
            assert_eq!(*n, 3);
            assert_eq!(
                render(context),
                "{\"finding\":{\"kind\":\"friction\"},\"reason\":\"why\",\"signal_summary\":{},\"source\":null,\"tenant\":\"ten\"}"
            );
        }
        _ => panic!("the observation comes first"),
    }
    match &tasks[2] {
        Task::Store(_, _, EvolutionRecord::Problem(statement, _, constraints, _, severity, trend)) => {
            assert_eq!(statement, "T blocks intended workflow completion.");
            assert_eq!(constraints, &vec!["dedupe_key=k".to_string()]);
            assert_eq!(*severity, Severity::Critical);
            assert_eq!(*trend, Trend::Growing);
        }
        _ => panic!("the problem comes third"),
    }
    match &tasks[9] {
        Task::OpenIssue(id, fields) => {
            assert_eq!(id, "issue1");
            assert_eq!(fields.text_or("Title", ""), "T");
            assert_eq!(fields.get("Priority").unwrap().as_integer(), Some(1));
            assert!(fields
                .text_or("Description", "")
                .ends_with("Evolution Records:\nO1, P1, A1, I1"));
        }
        _ => panic!("the issue is opened after the records"),
    }
    for (i, t) in tasks.iter().enumerate() {
        let required = matches!(t, Task::Store(..) | Task::Act(..) | Task::OpenIssue(..));
        assert!(t.goes_on(true), "task {i}");
        assert_eq!(t.goes_on(false), !required, "task {i}");
    }
}

#[test]
fn a_finding_without_change_has_an_insight_only() {
    let f = AgentFinding {
        kind: "workaround".to_string(),
        intent: "Pay".to_string(),
        ..AgentFinding::default()
    };
    let tasks = plan_finding(&request(), "ten", &f, &forms(), &ids(2));
    assert_eq!(tasks.len(), 6);
    match &tasks[0] {
        Task::Store(id, None, EvolutionRecord::Insight(category, intent, ..)) => {
            assert_eq!(id, "I2");
            assert_eq!(*category, InsightCategory::Workaround);
            assert_eq!(intent, "Pay");
        }
        _ => panic!("the insight derives from nothing"),
    }
    match &tasks[1] {
        Task::Announce(kind, id, action, params) => {
            assert_eq!((kind.as_str(), id.as_str(), action.as_str()), ("Insight", "INS2", "CreateInsight"));
            assert_eq!(
                render(params),
                "{\"category\":\"Workaround\",\"legacy_record_id\":\"I2\",\"observation_id\":\"\",\"priority_score\":\"0.9000\",\"recommendation\":\"\",\"signal\":\"Pay\"}"
            );
        }
        _ => panic!("the insight is announced"),
    }
    let o = solution_option(&f);
    assert_eq!(o.spec_diff, "No explicit spec diff supplied.");
    assert_eq!(o.risk, SolutionRisk::Nothing);
    assert_eq!(o.complexity, Complexity::Medium);
}

#[test]
fn what_was_done_is_reported() {
    let a = AgentFinding {
        requires_spec_change: true,
        title: "A".to_string(),
        ..AgentFinding::default()
    };
    let b = AgentFinding {
        title: "B".to_string(),
        ..AgentFinding::default()
    };
    let r = report_materialized(&request(), "ten", &vec![a, b], &vec![ids(1), ids(2)]);
    assert_eq!(r.get("records_created_count").unwrap().as_integer(), Some(5));
    assert_eq!(r.get("issues_created_count").unwrap().as_integer(), Some(2));
    assert_eq!(r.text_or("tenant", ""), "ten");
    assert_eq!(
        render(r.get("record_ids").unwrap()),
        "[\"O1\",\"P1\",\"A1\",\"I1\",\"I2\"]"
    );
    assert_eq!(
        render(&r.get("findings").unwrap().as_items().unwrap()[1]),
        "{\"intent_title\":\"B\",\"issue_id\":\"issue2\",\"kind\":\"\",\"record_ids\":[\"I2\"],\"symptom_title\":\"B\",\"title\":\"B\"}"
    );
}

#[test]
fn requests_are_read_as_they_come() {
    let payload = |signals: &str, summary: &str| temper::materialize::MaterializePayload {
        intent_discovery_id: "d".to_string(),
        tenant: None,
        reason: Some("r".to_string()),
        source: None,
        signal_summary_json: signals.to_string(),
        summary: summary.to_string(),
    };
    let q = temper::materialize::read_request(payload("{\"n\": 1}", "s"));
    assert_eq!(temper::json_text::render(&q.signal_summary), "{\"n\":1}");
    assert_eq!(q.summary, "s");
    assert_eq!(q.reason.as_deref(), Some("r"));
    let q = temper::materialize::read_request(payload("no json", ""));
    assert_eq!(temper::json_text::render(&q.signal_summary), "{}");
    assert_eq!(q.summary, "IntentDiscovery produced structured findings.");
}
