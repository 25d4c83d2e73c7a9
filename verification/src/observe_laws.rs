//! What is answered of alerts, insights and feature requests, and what may become of
//! a feature request.
use vstd::prelude::*;

use crate::feature_requests::FeatureRequestDisposition;
use crate::feature_requests::PlatformGapCategory;
use crate::json::lemma_with_keeps;
use crate::json::lemma_with_reads;
use crate::json::JsonView;
use crate::json_text::rendered;
use crate::observe::alert_context;
use crate::observe::alert_params;
use crate::observe::alert_report;
use crate::observe::disposition_name;
use crate::observe::gap_name;
use crate::observe::insight_params;
use crate::observe::insight_report;
use crate::observe::known_disposition;
use crate::observe::lower_case;
use crate::observe::row_report;
use crate::observe::sentinel_report;
use crate::observe::trigger_params;
use crate::observe::value_or_null;
use crate::observe::AlertView;
use crate::observe::RequestRowView;
use crate::text::lowered;
use crate::tool_laws::gives;

verus! {

/// An alert is created, answered and looked into with what it holds.
pub proof fn lemma_alerts_are_told(
    a: AlertView,
    entity: Seq<char>,
    class: JsonView,
    threshold: JsonView,
    observed: JsonView,
)
    requires
        class.wf(),
        threshold.wf(),
        observed.wf(),
    ensures
        ({
            let p = alert_params(a);
            &&& gives(p, "source"@, a.source)
            &&& gives(p, "classification"@, a.classification)
            &&& gives(p, "evidence_query"@, a.evidence_query)
            &&& gives(p, "context"@, a.context)
            &&& gives(p, "tenant"@, "temper-system"@)
            &&& gives(p, "legacy_record_id"@, a.record_id)
        }),
        ({
            let r = alert_report(a, entity, class, threshold, observed);
            &&& gives(r, "rule"@, a.rule_name)
            &&& gives(r, "record_id"@, a.record_id)
            &&& gives(r, "entity_id"@, entity)
            &&& gives(r, "source"@, a.source)
            &&& r.field("classification"@) == Some(class)
            &&& r.field("threshold"@) == Some(threshold)
            &&& r.field("observed"@) == Some(observed)
        }),
        ({
            let c = alert_context(a);
            &&& gives(c, "rule_name"@, a.rule_name)
            &&& gives(c, "observation_record_id"@, a.record_id)
            &&& gives(c, "source"@, a.source)
            &&& gives(c, "classification"@, a.classification)
            &&& gives(c, "evidence_query"@, a.evidence_query)
        }),
{
    broadcast use {lemma_with_reads, lemma_with_keeps};

    lemma_alert_keys();
}

/// A discovery is triggered for the reason and from the source that are given, with
/// the text of its context.
pub proof fn lemma_triggers(reason: Seq<char>, source: Seq<char>, context: JsonView)
    ensures
        gives(trigger_params(reason, source, context), "reason"@, reason),
        gives(trigger_params(reason, source, context), "source"@, source),
        gives(trigger_params(reason, source, context), "trigger_context_json"@, rendered(context)),
{
    broadcast use {lemma_with_reads, lemma_with_keeps};

    lemma_trigger_keys();
}

/// An insight is created and answered with what it holds; it is of no observation.
pub proof fn lemma_insights_are_told(
    category: Seq<char>,
    intent: Seq<char>,
    recommendation: Seq<char>,
    text: Seq<char>,
    id: Seq<char>,
    entity: Seq<char>,
    priority: JsonView,
)
    requires
        priority.wf(),
    ensures
        ({
            let p = insight_params(category, intent, recommendation, text, id);
            &&& gives(p, "observation_id"@, Seq::empty())
            &&& gives(p, "category"@, category)
            &&& gives(p, "signal"@, intent)
            &&& gives(p, "recommendation"@, recommendation)
            &&& gives(p, "priority_score"@, text)
            &&& gives(p, "legacy_record_id"@, id)
        }),
        ({
            let r = insight_report(id, entity, category, intent, priority, recommendation);
            &&& gives(r, "record_id"@, id)
            &&& gives(r, "entity_id"@, entity)
            &&& gives(r, "category"@, category)
            &&& gives(r, "intent"@, intent)
            &&& r.field("priority_score"@) == Some(priority)
            &&& gives(r, "recommendation"@, recommendation)
        }),
{
    broadcast use {lemma_with_reads, lemma_with_keeps};

    lemma_insight_keys();
    reveal_strlit("");
    assert(""@ =~= Seq::<char>::empty());
}

/// A check by the rules is answered with all that it found, and how much that is.
pub proof fn lemma_checks_are_told(
    alerts: Seq<JsonView>,
    discoveries: Seq<JsonView>,
    insights: Seq<JsonView>,
)
    requires
        JsonView::List(alerts).wf(),
        JsonView::List(discoveries).wf(),
        JsonView::List(insights).wf(),
    ensures
        ({
            let r = sentinel_report(alerts, discoveries, insights);
            &&& r.field("alerts"@) == Some(JsonView::List(alerts))
            &&& r.field("alerts_count"@) == Some(JsonView::Unsigned(alerts.len() as u64))
            &&& r.field("intent_discoveries"@) == Some(JsonView::List(discoveries))
            &&& r.field("insights"@) == Some(JsonView::List(insights))
            &&& r.field("insights_count"@) == Some(JsonView::Unsigned(insights.len() as u64))
        }),
{
    broadcast use {lemma_with_reads, lemma_with_keeps};

    lemma_check_keys();
}

/// A stored feature request is answered with what was stored; times that are no JSON
/// are answered as `null`.
pub proof fn lemma_rows_are_told(w: RequestRowView, read: Result<JsonView, Seq<char>>)
    requires
        read is Ok ==> read->Ok_0.wf(),
    ensures
        ({
            let r = row_report(w, value_or_null(read));
            &&& gives(r, "id"@, w.id)
            &&& gives(r, "category"@, w.category)
            &&& gives(r, "description"@, w.description)
            &&& w.frequency >= 0 ==> r.field("frequency"@) == Some(
                JsonView::Unsigned(w.frequency as u64),
            )
            &&& w.frequency < 0 ==> r.field("frequency"@) == Some(JsonView::Negative(w.frequency))
            &&& read is Ok ==> r.field("trajectory_refs"@) == Some(read->Ok_0)
            &&& read is Err ==> r.field("trajectory_refs"@) == Some(JsonView::Null)
            &&& gives(r, "disposition"@, w.disposition)
            &&& w.developer_notes is Some ==> gives(r, "developer_notes"@, w.developer_notes->0)
            &&& w.developer_notes is None ==> r.field("developer_notes"@) == Some(JsonView::Null)
            &&& gives(r, "created_at"@, w.created_at)
        }),
{
    broadcast use {lemma_with_reads, lemma_with_keeps};

    lemma_row_keys();
}

/// Whatever became of a feature request, its name in small letters is known, as is
/// the one other way to write that nothing will be done; nothing else is.
pub proof fn lemma_dispositions(d: FeatureRequestDisposition, word: Seq<char>)
    ensures
        known_disposition(lower_case(disposition_name(d))),
        known_disposition("wont_fix"@),
        known_disposition(word) ==> word == "wont_fix"@ || exists|e: FeatureRequestDisposition|
            word == lower_case(#[trigger] disposition_name(e)),
        forall|e: FeatureRequestDisposition|
            disposition_name(d) == #[trigger] disposition_name(e) ==> d == e,
        gap_name(PlatformGapCategory::MissingCapability) != gap_name(
            PlatformGapCategory::MissingMethod,
        ),
{
    lemma_disposition_words();
    lemma_lowered_names();
    if known_disposition(word) && word != "wont_fix"@ {
        let e = if word == "open"@ {
            FeatureRequestDisposition::Open
        } else if word == "acknowledged"@ {
            FeatureRequestDisposition::Acknowledged
        } else if word == "planned"@ {
            FeatureRequestDisposition::Planned
        } else if word == "wontfix"@ {
            FeatureRequestDisposition::WontFix
        } else {
            FeatureRequestDisposition::Resolved
        };
        assert(word == lower_case(disposition_name(e)));
    }
}

proof fn lemma_lowered_names()
    ensures
        lower_case("Open"@) == "open"@,
        lower_case("Acknowledged"@) == "acknowledged"@,
        lower_case("Planned"@) == "planned"@,
        lower_case("WontFix"@) == "wontfix"@,
        lower_case("Resolved"@) == "resolved"@,
{
    reveal_strlit("Open");
    reveal_strlit("open");
    assert(lowered("Open"@) =~= "open"@);
    reveal_strlit("Acknowledged");
    reveal_strlit("acknowledged");
    assert(lowered("Acknowledged"@) =~= "acknowledged"@);
    reveal_strlit("Planned");
    reveal_strlit("planned");
    assert(lowered("Planned"@) =~= "planned"@);
    reveal_strlit("WontFix");
    reveal_strlit("wontfix");
    assert(lowered("WontFix"@) =~= "wontfix"@);
    reveal_strlit("Resolved");
    reveal_strlit("resolved");
    assert(lowered("Resolved"@) =~= "resolved"@);
}

proof fn lemma_alert_keys()
    ensures
        "source"@ != "classification"@,
        "source"@ != "evidence_query"@,
        "source"@ != "context"@,
        "source"@ != "tenant"@,
        "source"@ != "legacy_record_id"@,
        "source"@ != "rule"@,
        "source"@ != "record_id"@,
        "source"@ != "entity_id"@,
        "source"@ != "threshold"@,
        "source"@ != "observed"@,
        "source"@ != "rule_name"@,
        "source"@ != "observation_record_id"@,
        "classification"@ != "evidence_query"@,
        "classification"@ != "context"@,
        "classification"@ != "tenant"@,
        "classification"@ != "legacy_record_id"@,
        "classification"@ != "rule"@,
        "classification"@ != "record_id"@,
        "classification"@ != "entity_id"@,
        "classification"@ != "threshold"@,
        "classification"@ != "observed"@,
        "classification"@ != "rule_name"@,
        "classification"@ != "observation_record_id"@,
        "evidence_query"@ != "context"@,
        "evidence_query"@ != "tenant"@,
        "evidence_query"@ != "legacy_record_id"@,
        "evidence_query"@ != "rule"@,
        "evidence_query"@ != "record_id"@,
        "evidence_query"@ != "entity_id"@,
        "evidence_query"@ != "threshold"@,
        "evidence_query"@ != "observed"@,
        "evidence_query"@ != "rule_name"@,
        "evidence_query"@ != "observation_record_id"@,
        "context"@ != "tenant"@,
        "context"@ != "legacy_record_id"@,
        "context"@ != "rule"@,
        "context"@ != "record_id"@,
        "context"@ != "entity_id"@,
        "context"@ != "threshold"@,
        "context"@ != "observed"@,
        "context"@ != "rule_name"@,
        "context"@ != "observation_record_id"@,
        "tenant"@ != "legacy_record_id"@,
        "tenant"@ != "rule"@,
        "tenant"@ != "record_id"@,
        "tenant"@ != "entity_id"@,
        "tenant"@ != "threshold"@,
        "tenant"@ != "observed"@,
        "tenant"@ != "rule_name"@,
        "tenant"@ != "observation_record_id"@,
        "legacy_record_id"@ != "rule"@,
        "legacy_record_id"@ != "record_id"@,
        "legacy_record_id"@ != "entity_id"@,
        "legacy_record_id"@ != "threshold"@,
        "legacy_record_id"@ != "observed"@,
        "legacy_record_id"@ != "rule_name"@,
        "legacy_record_id"@ != "observation_record_id"@,
        "rule"@ != "record_id"@,
        "rule"@ != "entity_id"@,
        "rule"@ != "threshold"@,
        "rule"@ != "observed"@,
        "rule"@ != "rule_name"@,
        "rule"@ != "observation_record_id"@,
        "record_id"@ != "entity_id"@,
        "record_id"@ != "threshold"@,
        "record_id"@ != "observed"@,
        "record_id"@ != "rule_name"@,
        "record_id"@ != "observation_record_id"@,
        "entity_id"@ != "threshold"@,
        "entity_id"@ != "observed"@,
        "entity_id"@ != "rule_name"@,
        "entity_id"@ != "observation_record_id"@,
        "threshold"@ != "observed"@,
        "threshold"@ != "rule_name"@,
        "threshold"@ != "observation_record_id"@,
        "observed"@ != "rule_name"@,
        "observed"@ != "observation_record_id"@,
        "rule_name"@ != "observation_record_id"@,
{
    reveal_strlit("source");
    reveal_strlit("classification");
    reveal_strlit("evidence_query");
    reveal_strlit("context");
    reveal_strlit("tenant");
    reveal_strlit("legacy_record_id");
    reveal_strlit("rule");
    reveal_strlit("record_id");
    reveal_strlit("entity_id");
    reveal_strlit("threshold");
    reveal_strlit("observed");
    reveal_strlit("rule_name");
    reveal_strlit("observation_record_id");
    assert("source"@.len() == 6);
    assert("classification"@.len() == 14);
    assert("evidence_query"@.len() == 14);
    assert("context"@.len() == 7);
    assert("tenant"@.len() == 6);
    assert("legacy_record_id"@.len() == 16);
    assert("rule"@.len() == 4);
    assert("record_id"@.len() == 9);
    assert("entity_id"@.len() == 9);
    assert("threshold"@.len() == 9);
    assert("observed"@.len() == 8);
    assert("rule_name"@.len() == 9);
    assert("observation_record_id"@.len() == 21);
    assert("source"@[0] == 's');
    assert("tenant"@[0] == 't');
    assert("classification"@[0] == 'c');
    assert("evidence_query"@[0] == 'e');
    assert("record_id"@[0] == 'r');
    assert("entity_id"@[0] == 'e');
    assert("threshold"@[0] == 't');
    assert("record_id"@[1] == 'e');
    assert("rule_name"@[1] == 'u');
    assert("rule_name"@[0] == 'r');
}

proof fn lemma_trigger_keys()
    ensures
        "reason"@ != "source"@,
        "reason"@ != "trigger_context_json"@,
        "source"@ != "trigger_context_json"@,
{
    reveal_strlit("reason");
    reveal_strlit("source");
    reveal_strlit("trigger_context_json");
    assert("reason"@.len() == 6);
    assert("source"@.len() == 6);
    assert("trigger_context_json"@.len() == 20);
    assert("reason"@[0] == 'r');
    assert("source"@[0] == 's');
}

proof fn lemma_insight_keys()
    ensures
        "observation_id"@ != "category"@,
        "observation_id"@ != "signal"@,
        "observation_id"@ != "recommendation"@,
        "observation_id"@ != "priority_score"@,
        "observation_id"@ != "legacy_record_id"@,
        "observation_id"@ != "record_id"@,
        "observation_id"@ != "entity_id"@,
        "observation_id"@ != "intent"@,
        "category"@ != "signal"@,
        "category"@ != "recommendation"@,
        "category"@ != "priority_score"@,
        "category"@ != "legacy_record_id"@,
        "category"@ != "record_id"@,
        "category"@ != "entity_id"@,
        "category"@ != "intent"@,
        "signal"@ != "recommendation"@,
        "signal"@ != "priority_score"@,
        "signal"@ != "legacy_record_id"@,
        "signal"@ != "record_id"@,
        "signal"@ != "entity_id"@,
        "signal"@ != "intent"@,
        "recommendation"@ != "priority_score"@,
        "recommendation"@ != "legacy_record_id"@,
        "recommendation"@ != "record_id"@,
        "recommendation"@ != "entity_id"@,
        "recommendation"@ != "intent"@,
        "priority_score"@ != "legacy_record_id"@,
        "priority_score"@ != "record_id"@,
        "priority_score"@ != "entity_id"@,
        "priority_score"@ != "intent"@,
        "legacy_record_id"@ != "record_id"@,
        "legacy_record_id"@ != "entity_id"@,
        "legacy_record_id"@ != "intent"@,
        "record_id"@ != "entity_id"@,
        "record_id"@ != "intent"@,
        "entity_id"@ != "intent"@,
{
    reveal_strlit("observation_id");
    reveal_strlit("category");
    reveal_strlit("signal");
    reveal_strlit("recommendation");
    reveal_strlit("priority_score");
    reveal_strlit("legacy_record_id");
    reveal_strlit("record_id");
    reveal_strlit("entity_id");
    reveal_strlit("intent");
    assert("observation_id"@.len() == 14);
    assert("category"@.len() == 8);
    assert("signal"@.len() == 6);
    assert("recommendation"@.len() == 14);
    assert("priority_score"@.len() == 14);
    assert("legacy_record_id"@.len() == 16);
    assert("record_id"@.len() == 9);
    assert("entity_id"@.len() == 9);
    assert("intent"@.len() == 6);
    assert("observation_id"@[0] == 'o');
    assert("recommendation"@[0] == 'r');
    assert("priority_score"@[0] == 'p');
    assert("signal"@[0] == 's');
    assert("intent"@[0] == 'i');
    assert("record_id"@[0] == 'r');
    assert("entity_id"@[0] == 'e');
}

proof fn lemma_check_keys()
    ensures
        "alerts"@ != "alerts_count"@,
        "alerts"@ != "intent_discoveries"@,
        "alerts"@ != "insights"@,
        "alerts"@ != "insights_count"@,
        "alerts_count"@ != "intent_discoveries"@,
        "alerts_count"@ != "insights"@,
        "alerts_count"@ != "insights_count"@,
        "intent_discoveries"@ != "insights"@,
        "intent_discoveries"@ != "insights_count"@,
        "insights"@ != "insights_count"@,
{
    reveal_strlit("alerts");
    reveal_strlit("alerts_count");
    reveal_strlit("intent_discoveries");
    reveal_strlit("insights");
    reveal_strlit("insights_count");
    assert("alerts"@.len() == 6);
    assert("alerts_count"@.len() == 12);
    assert("intent_discoveries"@.len() == 18);
    assert("insights"@.len() == 8);
    assert("insights_count"@.len() == 14);
}

proof fn lemma_row_keys()
    ensures
        "id"@ != "category"@,
        "id"@ != "description"@,
        "id"@ != "frequency"@,
        "id"@ != "trajectory_refs"@,
        "id"@ != "disposition"@,
        "id"@ != "developer_notes"@,
        "id"@ != "created_at"@,
        "category"@ != "description"@,
        "category"@ != "frequency"@,
        "category"@ != "trajectory_refs"@,
        "category"@ != "disposition"@,
        "category"@ != "developer_notes"@,
        "category"@ != "created_at"@,
        "description"@ != "frequency"@,
        "description"@ != "trajectory_refs"@,
        "description"@ != "disposition"@,
        "description"@ != "developer_notes"@,
        "description"@ != "created_at"@,
        "frequency"@ != "trajectory_refs"@,
        "frequency"@ != "disposition"@,
        "frequency"@ != "developer_notes"@,
        "frequency"@ != "created_at"@,
        "trajectory_refs"@ != "disposition"@,
        "trajectory_refs"@ != "developer_notes"@,
        "trajectory_refs"@ != "created_at"@,
        "disposition"@ != "developer_notes"@,
        "disposition"@ != "created_at"@,
        "developer_notes"@ != "created_at"@,
{
    reveal_strlit("id");
    reveal_strlit("category");
    reveal_strlit("description");
    reveal_strlit("frequency");
    reveal_strlit("trajectory_refs");
    reveal_strlit("disposition");
    reveal_strlit("developer_notes");
    reveal_strlit("created_at");
    assert("id"@.len() == 2);
    assert("category"@.len() == 8);
    assert("description"@.len() == 11);
    assert("frequency"@.len() == 9);
    assert("trajectory_refs"@.len() == 15);
    assert("disposition"@.len() == 11);
    assert("developer_notes"@.len() == 15);
    assert("created_at"@.len() == 10);
    assert("description"@[1] == 'e');
    assert("disposition"@[1] == 'i');
    assert("trajectory_refs"@[0] == 't');
    assert("developer_notes"@[0] == 'd');
}

proof fn lemma_disposition_words()
    ensures
        "Open"@ != "Acknowledged"@,
        "Open"@ != "Planned"@,
        "Open"@ != "WontFix"@,
        "Open"@ != "Resolved"@,
        "Open"@ != "MissingCapability"@,
        "Open"@ != "MissingMethod"@,
        "Acknowledged"@ != "Planned"@,
        "Acknowledged"@ != "WontFix"@,
        "Acknowledged"@ != "Resolved"@,
        "Acknowledged"@ != "MissingCapability"@,
        "Acknowledged"@ != "MissingMethod"@,
        "Planned"@ != "WontFix"@,
        "Planned"@ != "Resolved"@,
        "Planned"@ != "MissingCapability"@,
        "Planned"@ != "MissingMethod"@,
        "WontFix"@ != "Resolved"@,
        "WontFix"@ != "MissingCapability"@,
        "WontFix"@ != "MissingMethod"@,
        "Resolved"@ != "MissingCapability"@,
        "Resolved"@ != "MissingMethod"@,
        "MissingCapability"@ != "MissingMethod"@,
{
    reveal_strlit("Open");
    reveal_strlit("Acknowledged");
    reveal_strlit("Planned");
    reveal_strlit("WontFix");
    reveal_strlit("Resolved");
    reveal_strlit("MissingCapability");
    reveal_strlit("MissingMethod");
    assert("Open"@.len() == 4);
    assert("Acknowledged"@.len() == 12);
    assert("Planned"@.len() == 7);
    assert("WontFix"@.len() == 7);
    assert("Resolved"@.len() == 8);
    assert("MissingCapability"@.len() == 17);
    assert("MissingMethod"@.len() == 13);
    assert("Planned"@[0] == 'P');
    assert("WontFix"@[0] == 'W');
}

} // verus!
