//! What is made of a finding: its titles, how it is judged, and what is stored,
//! announced and opened for it.
use vstd::prelude::*;

use crate::findings::complexity;
use crate::findings::criteria;
use crate::findings::description_with;
use crate::findings::evidence_text;
use crate::findings::finding_category;
use crate::findings::intent_title;
use crate::findings::issue_title;
use crate::findings::observation_class;
use crate::findings::preferred;
use crate::findings::priority_level;
use crate::findings::severity;
use crate::findings::solution_risk;
use crate::findings::symptom_title;
use crate::findings::trend;
use crate::findings::Complexity;
use crate::findings::FindingView;
use crate::findings::ObservationClass;
use crate::findings::Severity;
use crate::findings::SolutionRisk;
use crate::insights::InsightCategory;
use crate::insights::Trend;
use crate::json::empty_object;
use crate::json::lemma_texts_wf;
use crate::json::lemma_with_keeps;
use crate::json::lemma_with_reads;
use crate::json::text_list;
use crate::json::JsonView;
use crate::json_text::rendered;
use crate::materialize::finding_report;
use crate::materialize::finding_tasks;
use crate::materialize::insight_tasks;
use crate::materialize::issue_tasks;
use crate::materialize::materialize_report;
use crate::materialize::request_of;
use crate::materialize::spec_change_tasks;
use crate::materialize::FormsView;
use crate::materialize::IdsView;
use crate::materialize::PayloadView;
use crate::materialize::RecordView;
use crate::materialize::RequestView;
use crate::materialize::TaskView;
use crate::score::Score;
use crate::text::blank;
use crate::text::joined;
use crate::text::lowered;
use crate::text::trimmed;
use crate::tool_laws::gives;

verus! {

proof fn lemma_first_spoken(c: Seq<Seq<char>>, fallback: Seq<char>, k: int)
    requires
        0 <= k <= c.len(),
        forall|j: int| 0 <= j < k ==> blank(#[trigger] c[j]),
    ensures
        k == c.len() ==> preferred(c, fallback) == fallback,
        k < c.len() && !blank(c[k]) ==> preferred(c, fallback) == trimmed(c[k]),
    decreases c.len(),
{
    if c.len() > 0 && k > 0 {
        assert(blank(c[0]));
        let rest = c.drop_first();
        assert forall|j: int| 0 <= j < k - 1 implies blank(#[trigger] rest[j]) by {
            assert(rest[j] == c[j + 1]);
        }
        lemma_first_spoken(rest, fallback, k - 1);
        if k < c.len() {
            assert(rest[k - 1] == c[k]);
        }
    }
}

/// The title of an issue is the first that is not blank of the title that was
/// recommended, that of the intent, the finding's own, the intent, and that of the
/// symptom.
pub proof fn lemma_issue_title(f: FindingView)
    ensures
        !blank(f.recommended_issue_title) ==> issue_title(f) == trimmed(f.recommended_issue_title),
        blank(f.recommended_issue_title) && !blank(f.intent_title) ==> issue_title(f) == trimmed(
            f.intent_title,
        ),
        blank(f.recommended_issue_title) && blank(f.intent_title) && !blank(f.title)
            ==> issue_title(f) == trimmed(f.title),
        blank(f.recommended_issue_title) && blank(f.intent_title) && blank(f.title) && !blank(
            f.intent,
        ) ==> issue_title(f) == trimmed(f.intent),
        blank(f.recommended_issue_title) && blank(f.intent_title) && blank(f.title) && blank(
            f.intent,
        ) && !blank(f.symptom_title) ==> issue_title(f) == trimmed(f.symptom_title),
        blank(f.recommended_issue_title) && blank(f.intent_title) && blank(f.title) && blank(
            f.intent,
        ) && blank(f.symptom_title) ==> issue_title(f) == "Investigate unmet intent"@,
{
    let c = seq![f.recommended_issue_title, f.intent_title, f.title, f.intent, f.symptom_title];
    let d = "Investigate unmet intent"@;
    if !blank(c[0]) {
        lemma_first_spoken(c, d, 0);
    } else if !blank(c[1]) {
        lemma_first_spoken(c, d, 1);
    } else if !blank(c[2]) {
        lemma_first_spoken(c, d, 2);
    } else if !blank(c[3]) {
        lemma_first_spoken(c, d, 3);
    } else if !blank(c[4]) {
        lemma_first_spoken(c, d, 4);
    } else {
        lemma_first_spoken(c, d, 5);
    }
}

/// An intent is called by its own title before its words and the finding's title;
/// a symptom by its own before the finding's title and the statement of the problem.
pub proof fn lemma_other_titles(f: FindingView)
    ensures
        !blank(f.intent_title) ==> intent_title(f) == trimmed(f.intent_title),
        blank(f.intent_title) && !blank(f.intent) ==> intent_title(f) == trimmed(f.intent),
        blank(f.intent_title) && blank(f.intent) && !blank(f.title) ==> intent_title(f) == trimmed(
            f.title,
        ),
        blank(f.intent_title) && blank(f.intent) && blank(f.title) ==> intent_title(f)
            == "Enable unmet intent"@,
        !blank(f.symptom_title) ==> symptom_title(f) == trimmed(f.symptom_title),
        blank(f.symptom_title) && !blank(f.title) ==> symptom_title(f) == trimmed(f.title),
        blank(f.symptom_title) && blank(f.title) && !blank(f.problem_statement) ==> symptom_title(f)
            == trimmed(f.problem_statement),
        blank(f.symptom_title) && blank(f.title) && blank(f.problem_statement) ==> symptom_title(f)
            == "Observed workflow symptom"@,
{
    let c = seq![f.intent_title, f.intent, f.title];
    let d = "Enable unmet intent"@;
    if !blank(c[0]) {
        lemma_first_spoken(c, d, 0);
    } else if !blank(c[1]) {
        lemma_first_spoken(c, d, 1);
    } else if !blank(c[2]) {
        lemma_first_spoken(c, d, 2);
    } else {
        lemma_first_spoken(c, d, 3);
    }
    let s = seq![f.symptom_title, f.title, f.problem_statement];
    let e = "Observed workflow symptom"@;
    if !blank(s[0]) {
        lemma_first_spoken(s, e, 0);
    } else if !blank(s[1]) {
        lemma_first_spoken(s, e, 1);
    } else if !blank(s[2]) {
        lemma_first_spoken(s, e, 2);
    } else {
        lemma_first_spoken(s, e, 3);
    }
}

/// Frictions and gaps of governance are little work, and only the latter are seen
/// in denials; the words count whatever their case and the white space round them.
pub proof fn lemma_kinds_of_findings(f: FindingView)
    ensures
        ({
            let kind = lowered(trimmed(f.kind));
            &&& kind == "friction"@ ==> complexity(f) == Complexity::Low && observation_class(f)
                == ObservationClass::Trajectory && finding_category(f) == InsightCategory::Friction
            &&& kind == "governance_gap"@ ==> complexity(f) == Complexity::Low && observation_class(
                f,
            ) == ObservationClass::AuthzDenied && finding_category(f)
                == InsightCategory::PlatformGap
            &&& kind == "workaround"@ ==> complexity(f) == Complexity::Medium && observation_class(
                f,
            ) == ObservationClass::Trajectory && finding_category(f) == InsightCategory::Workaround
            &&& kind != "friction"@ && kind != "governance_gap"@ && kind != "workaround"@
                ==> complexity(f) == Complexity::Medium && observation_class(f)
                == ObservationClass::Trajectory && finding_category(f)
                == InsightCategory::UnmetIntent
        }),
        lowered(trimmed(f.trend)) == "declining"@ ==> trend(f.trend) == Trend::Declining,
        lowered(trimmed(f.trend)) == "stable"@ ==> trend(f.trend) == Trend::Stable,
        lowered(trimmed(f.trend)) != "declining"@ && lowered(trimmed(f.trend)) != "stable"@
            ==> trend(f.trend) == Trend::Growing,
{
    lemma_words();
}

/// The severity, the risk and the priority of a finding change at the same scores, but
/// for the least of them.
pub proof fn lemma_judged_alike(s: Score)
    ensures
        severity(s) == Severity::Critical <==> priority_level(s) == 1,
        severity(s) == Severity::Critical <==> solution_risk(s) == SolutionRisk::High,
        severity(s) == Severity::High <==> priority_level(s) == 2,
        severity(s) == Severity::High <==> solution_risk(s) == SolutionRisk::Medium,
        severity(s) == Severity::Medium <==> priority_level(s) == 3,
        severity(s) == Severity::Low <==> priority_level(s) == 4,
        severity(s) == Severity::Medium ==> solution_risk(s) == SolutionRisk::Low,
        severity(s) == Severity::Critical <==> s.ge(Score { bits: 0x3FEB_3333_3333_3333 }),
        severity(s) != Severity::Medium && severity(s) != Severity::Low <==> s.ge(
            Score { bits: 0x3FE4_CCCC_CCCC_CCCD },
        ),
        severity(s) != Severity::Low <==> s.ge(Score { bits: 0x3FD9_9999_9999_999A }),
        solution_risk(s) != SolutionRisk::Nothing <==> s.ge(Score { bits: 0x3FD6_6666_6666_6666 }),
{
}

/// A finding is solved by its own criteria where it has any; else by two, the first
/// of which names its issue.
pub proof fn lemma_criteria(f: FindingView)
    ensures
        f.acceptance_criteria.len() > 0 ==> criteria(f) == f.acceptance_criteria,
        f.acceptance_criteria.len() == 0 ==> criteria(f).len() == 2 && criteria(f)[0]
            == "Agents can complete '"@ + issue_title(f) + "' without the current failure mode."@
            && criteria(f)[1]
            == "Observe metrics show improved completion for the affected workflow."@,
{
}

/// A text, or what is said in place of an empty one.
pub open spec fn said_or(t: Seq<char>, otherwise: Seq<char>) -> Seq<char> {
    if t == Seq::<char>::empty() {
        otherwise
    } else {
        t
    }
}

/// The description of an issue says all that is known of its finding, and what is
/// not.
pub proof fn lemma_description(
    summary: Seq<char>,
    f: FindingView,
    evidence: Seq<char>,
    ids: Seq<Seq<char>>,
)
    ensures
        description_with(summary, f, evidence, ids) == "Summary:\n"@ + summary
            + "\n\nIntent Title:\n"@ + intent_title(f) + "\n\nObserved Symptom:\n"@
            + symptom_title(f) + "\n\nIntent:\n"@ + said_or(
            f.intent,
            "No explicit intent supplied."@,
        ) + "\n\nRecommendation:\n"@ + f.recommendation + "\n\nProblem Statement:\n"@ + said_or(
            f.problem_statement,
            "No formal problem statement supplied."@,
        ) + "\n\nRoot Cause:\n"@ + said_or(f.root_cause, "No root cause supplied."@)
            + "\n\nSpec Diff:\n"@ + said_or(f.spec_diff, "No spec diff supplied."@)
            + "\n\nAcceptance Criteria:\n"@ + joined(
            Seq::new(criteria(f).len(), |i: int| "- "@ + criteria(f)[i]),
            "\n"@,
        ) + "\n\nEvidence:\n"@ + evidence + "\n\nEvolution Records:\n"@ + joined(ids, ", "@),
{
    let d = Seq::new(criteria(f).len(), |i: int| "- "@ + criteria(f)[i]);
    assert(crate::findings::dashed(criteria(f)) =~= d);
    lemma_filled(f.intent, "No explicit intent supplied."@);
    lemma_filled(f.problem_statement, "No formal problem statement supplied."@);
    lemma_filled(f.root_cause, "No root cause supplied."@);
    lemma_filled(f.spec_diff, "No spec diff supplied."@);
    lemma_sections(
        "Summary:\n"@ + summary + "\n\nIntent Title:\n"@ + intent_title(f)
            + "\n\nObserved Symptom:\n"@ + symptom_title(f) + "\n\nIntent:\n"@,
        said_or(f.intent, "No explicit intent supplied."@),
        "\n\nRecommendation:\n"@,
        f.recommendation,
        "\n\nProblem Statement:\n"@,
        said_or(f.problem_statement, "No formal problem statement supplied."@),
        "\n\nRoot Cause:\n"@,
        said_or(f.root_cause, "No root cause supplied."@),
        "\n\nSpec Diff:\n"@,
        said_or(f.spec_diff, "No spec diff supplied."@),
        "\n\nAcceptance Criteria:\n"@,
        joined(d, "\n"@),
        "\n\nEvidence:\n"@,
        evidence,
        "\n\nEvolution Records:\n"@,
    );
}

proof fn lemma_filled(t: Seq<char>, otherwise: Seq<char>)
    ensures
        crate::findings::filled(t, otherwise) == said_or(t, otherwise),
{
    if t.len() == 0 {
        assert(t =~= Seq::<char>::empty());
    }
}

proof fn lemma_sections(
    a: Seq<char>,
    b: Seq<char>,
    c: Seq<char>,
    d: Seq<char>,
    e: Seq<char>,
    f: Seq<char>,
    g: Seq<char>,
    h: Seq<char>,
    i: Seq<char>,
    j: Seq<char>,
    k: Seq<char>,
    l: Seq<char>,
    m: Seq<char>,
    n: Seq<char>,
    o: Seq<char>,
)
    ensures
        a + (b + c + d + e + f + g + h) + (i + j + k + l + m + n + o) == a + b + c + d + e + f + g
            + h + i + j + k + l + m + n + o,
{
    assert(a + (b + c + d + e + f + g + h) =~= a + b + c + d + e + f + g + h);
    let x = a + b + c + d + e + f + g + h;
    assert(x + (i + j + k + l + m + n + o) =~= x + i + j + k + l + m + n + o);
}

/// What is done for a finding that needs a spec to change, before its insight.
pub proof fn lemma_spec_change_is_recorded(
    q: RequestView,
    tenant: Seq<char>,
    f: FindingView,
    forms: FormsView,
    ids: IdsView,
)
    requires
        f.requires_spec_change,
        q.signal_summary.wf(),
        forms.finding.wf(),
    ensures
        ({
            let t = finding_tasks(q, tenant, f, forms, ids);
            let source = "intent-discovery:"@ + said_or(f.kind, "analysis"@);
            let query = "intent discovery "@ + q.intent_discovery_id + " -> symptom="@
                + symptom_title(f) + " intent="@ + intent_title(f);
            let problem = said_or(
                f.problem_statement,
                intent_title(f) + " blocks intended workflow completion."@,
            );
            let cause = said_or(
                f.root_cause,
                "IntentDiscovery inferred a missing platform capability."@,
            );
            &&& t.len() == 13
            &&& t[0] matches TaskView::Store(id, None, RecordView::Observation(s, c, e, n, v))
            &&& id == ids.observation_record && s == source && c == observation_class(f) && e
                == query && n == f.volume
            &&& gives(v, "tenant"@, tenant)
            &&& v.field("reason"@) == (match q.reason {
                Some(r) => Some(JsonView::Text(r)),
                None => Some(JsonView::Null),
            })
            &&& v.field("source"@) == (match q.source {
                Some(r) => Some(JsonView::Text(r)),
                None => Some(JsonView::Null),
            })
            &&& v.field("signal_summary"@) == Some(q.signal_summary)
            &&& v.field("finding"@) == Some(forms.finding)
            &&& t[1] matches TaskView::Announce(k1, id1, a1, p1)
            &&& k1 == "Observation"@ && id1 == ids.observation_entity && a1
                == "CreateObservation"@
            &&& gives(p1, "source"@, source)
            &&& gives(
                p1,
                "classification"@,
                if observation_class(f) == ObservationClass::AuthzDenied {
                    "AuthzDenied"@
                } else {
                    "Trajectory"@
                },
            )
            &&& gives(p1, "evidence_query"@, query)
            &&& gives(p1, "context"@, rendered(v))
            &&& gives(p1, "tenant"@, tenant)
            &&& gives(p1, "legacy_record_id"@, ids.observation_record)
            &&& t[2] matches TaskView::Store(id2, Some(from2), RecordView::Problem(s2, i2, c2, n2, v2, t2))
            &&& id2 == ids.problem_record && from2 == ids.observation_record && s2 == problem && i2
                == criteria(f) && n2 == f.volume && v2 == severity(f.priority_score) && t2 == trend(
                f.trend,
            )
            &&& f.dedupe_key.len() == 0 ==> c2.len() == 0
            &&& f.dedupe_key.len() > 0 ==> c2 == seq!["dedupe_key="@ + f.dedupe_key]
            &&& t[3] matches TaskView::Act(k3, id3, a3, p3)
            &&& k3 == "Problem"@ && id3 == ids.problem_entity && a3 == "CreateProblem"@
            &&& gives(p3, "observation_id"@, ids.observation_entity)
            &&& gives(p3, "problem_statement"@, problem)
            &&& gives(
                p3,
                "severity"@,
                match severity(f.priority_score) {
                    Severity::Critical => "critical"@,
                    Severity::High => "high"@,
                    Severity::Medium => "medium"@,
                    Severity::Low => "low"@,
                },
            )
            &&& gives(p3, "invariants"@, rendered(text_list(criteria(f))))
            &&& t[4] == TaskView::Act(
                "Problem"@,
                ids.problem_entity,
                "MarkReviewed"@,
                empty_object(),
            )
            &&& t[5] matches TaskView::Store(id5, Some(from5), RecordView::Analysis(c5, o5))
            &&& id5 == ids.analysis_record && from5 == ids.problem_record && c5 == cause
            &&& o5.description == f.recommendation && o5.tla_impact == "NONE"@ && o5.risk
                == solution_risk(f.priority_score) && o5.complexity == complexity(f)
            &&& o5.spec_diff == said_or(f.spec_diff, "No explicit spec diff supplied."@)
            &&& t[6] matches TaskView::Act(k6, id6, a6, p6)
            &&& k6 == "Analysis"@ && id6 == ids.analysis_entity && a6 == "CreateAnalysis"@
            &&& gives(p6, "problem_id"@, ids.problem_entity)
            &&& gives(p6, "root_cause"@, cause)
            &&& gives(p6, "options"@, forms.options)
            &&& gives(p6, "recommendation"@, "0"@)
        }),
{
    broadcast use {lemma_with_reads, lemma_with_keeps};

    lemma_keys();
    lemma_filled(f.kind, "analysis"@);
    lemma_filled(
        f.problem_statement,
        intent_title(f) + " blocks intended workflow completion."@,
    );
    lemma_filled(f.root_cause, "IntentDiscovery inferred a missing platform capability."@);
    lemma_filled(f.spec_diff, "No explicit spec diff supplied."@);
    let t = finding_tasks(q, tenant, f, forms, ids);
    let s = spec_change_tasks(q, tenant, f, forms, ids);
    assert(t[0] == s[0] && t[1] == s[1] && t[2] == s[2] && t[3] == s[3] && t[4] == s[4] && t[5]
        == s[5] && t[6] == s[6]);
}

/// The insight of a finding is stored and announced, whatever it needs.
pub proof fn lemma_insight_is_recorded(
    q: RequestView,
    tenant: Seq<char>,
    f: FindingView,
    forms: FormsView,
    ids: IdsView,
)
    ensures
        ({
            let t = finding_tasks(q, tenant, f, forms, ids);
            let at = if f.requires_spec_change {
                7int
            } else {
                0int
            };
            let said = said_or(f.intent, intent_title(f));
            &&& t.len() == at + 6
            &&& t[at] == TaskView::Store(
                ids.insight_record,
                if f.requires_spec_change {
                    Some(ids.analysis_record)
                } else {
                    None
                },
                RecordView::Insight(
                    finding_category(f),
                    said,
                    f.volume,
                    f.success_rate,
                    trend(f.trend),
                    f.recommendation,
                    f.priority_score,
                ),
            )
            &&& t[at + 1] matches TaskView::Announce(k, id, a, p)
            &&& k == "Insight"@ && id == ids.insight_entity && a == "CreateInsight"@
            &&& gives(
                p,
                "observation_id"@,
                if f.requires_spec_change {
                    ids.observation_entity
                } else {
                    Seq::empty()
                },
            )
            &&& gives(
                p,
                "category"@,
                match finding_category(f) {
                    InsightCategory::UnmetIntent => "UnmetIntent"@,
                    InsightCategory::Friction => "Friction"@,
                    InsightCategory::Workaround => "Workaround"@,
                    InsightCategory::PlatformGap => "PlatformGap"@,
                },
            )
            &&& gives(p, "signal"@, said)
            &&& gives(p, "recommendation"@, f.recommendation)
            &&& gives(p, "priority_score"@, forms.priority)
            &&& gives(p, "legacy_record_id"@, ids.insight_record)
        }),
{
    broadcast use {lemma_with_reads, lemma_with_keeps};

    lemma_keys();
    lemma_filled(f.intent, intent_title(f));
    reveal_strlit("");
    assert(""@ =~= Seq::<char>::empty());
    let t = finding_tasks(q, tenant, f, forms, ids);
    let a = insight_tasks(f, forms, ids);
    if f.requires_spec_change {
        assert(t[7] == a[0] && t[8] == a[1]);
    } else {
        assert(t[0] == a[0] && t[1] == a[1]);
    }
}

/// At the end the issue of a finding is opened with what is known of it, given its
/// priority, and moved to the work to be done.
pub proof fn lemma_issue_is_opened(
    q: RequestView,
    tenant: Seq<char>,
    f: FindingView,
    forms: FormsView,
    ids: IdsView,
)
    ensures
        ({
            let t = finding_tasks(q, tenant, f, forms, ids);
            let at = t.len() - 4;
            let records = if f.requires_spec_change {
                seq![
                    ids.observation_record,
                    ids.problem_record,
                    ids.analysis_record,
                    ids.insight_record,
                ]
            } else {
                seq![ids.insight_record]
            };
            &&& t.len() >= 4
            &&& t[at] matches TaskView::OpenIssue(id, p)
            &&& id == ids.issue
            &&& gives(p, "Id"@, ids.issue)
            &&& gives(p, "Title"@, issue_title(f))
            &&& gives(
                p,
                "Description"@,
                description_with(q.summary, f, evidence_text(f.evidence), records),
            )
            &&& gives(p, "AcceptanceCriteria"@, joined(criteria(f), "\n"@))
            &&& p.field("Priority"@) == Some(JsonView::Unsigned(priority_level(f.priority_score)))
            &&& gives(p, "CreatedAt"@, ids.now)
            &&& gives(p, "UpdatedAt"@, ids.now)
            &&& t[at + 1] matches TaskView::MoveIssue(id1, a1, p1)
            &&& id1 == ids.issue && a1 == "SetPriority"@
            &&& p1.field("level"@) == Some(JsonView::Unsigned(priority_level(f.priority_score)))
            &&& t[at + 2] == TaskView::MoveIssue(ids.issue, "MoveToTriage"@, empty_object())
            &&& t[at + 3] == TaskView::MoveIssue(ids.issue, "MoveToTodo"@, empty_object())
        }),
{
    broadcast use {lemma_with_reads, lemma_with_keeps};

    lemma_issue_keys();
    let t = finding_tasks(q, tenant, f, forms, ids);
    let b = issue_tasks(q, f, ids);
    let at = t.len() - 4;
    assert(t[at] == b[0] && t[at + 1] == b[1] && t[at + 2] == b[2] && t[at + 3] == b[3]);
}

/// All the issues are reported, with as many records as were stored, for the tenant
/// that was named or else the one that asked.
pub proof fn lemma_findings_are_reported(
    q: RequestView,
    tenant: Seq<char>,
    f: Seq<FindingView>,
    ids: Seq<IdsView>,
)
    requires
        f.len() == ids.len(),
    ensures
        ({
            let r = materialize_report(q, tenant, f, ids);
            &&& gives(r, "intent_discovery_id"@, q.intent_discovery_id)
            &&& q.tenant is Some ==> gives(r, "tenant"@, q.tenant->0)
            &&& q.tenant is None ==> gives(r, "tenant"@, tenant)
            &&& r.field("issues_created_count"@) == Some(JsonView::Unsigned(f.len() as u64))
            &&& r.field("issue_ids"@) == Some(text_list(Seq::new(ids.len(), |i: int| ids[i].issue)))
            &&& r.field("record_ids"@) matches Some(JsonView::List(l))
            &&& r.field("records_created_count"@) == Some(JsonView::Unsigned(l.len() as u64))
            &&& r.field("findings"@) matches Some(JsonView::List(told))
            &&& told.len() == f.len()
            &&& forall|i: int| 0 <= i < f.len() ==> #[trigger] told[i] == finding_report(f[i], ids[i])
        }),
        forall|i: int|
            0 <= i < f.len() ==> reports(#[trigger] finding_report(f[i], ids[i]), f[i], ids[i]),
{
    broadcast use {lemma_with_reads, lemma_with_keeps};

    lemma_report_keys();
    let r = materialize_report(q, tenant, f, ids);
    lemma_texts_wf(crate::materialize::all_records(f, ids));
    lemma_texts_wf(crate::materialize::all_issues(ids));
    let told = crate::materialize::all_reports(f, ids);
    assert forall|i: int| 0 <= i < told.len() implies (#[trigger] told[i]).wf() by {
        lemma_reported(f[i], ids[i]);
    }
    assert(JsonView::List(told).wf());
    assert forall|i: int| 0 <= i < f.len() implies reports(
        #[trigger] finding_report(f[i], ids[i]),
        f[i],
        ids[i],
    ) by {
        lemma_reported(f[i], ids[i]);
    }
    assert(crate::materialize::all_issues(ids) =~= Seq::new(ids.len(), |i: int| ids[i].issue));
}

/// The report tells of the finding.
pub open spec fn reports(r: JsonView, f: FindingView, ids: IdsView) -> bool {
    &&& gives(r, "title"@, issue_title(f))
    &&& gives(r, "intent_title"@, intent_title(f))
    &&& gives(r, "symptom_title"@, symptom_title(f))
    &&& gives(r, "kind"@, f.kind)
    &&& gives(r, "issue_id"@, ids.issue)
    &&& r.field("record_ids"@) == Some(
        text_list(
            if f.requires_spec_change {
                seq![
                    ids.observation_record,
                    ids.problem_record,
                    ids.analysis_record,
                    ids.insight_record,
                ]
            } else {
                seq![ids.insight_record]
            },
        ),
    )
}

proof fn lemma_reported(f: FindingView, ids: IdsView)
    ensures
        reports(finding_report(f, ids), f, ids),
        finding_report(f, ids).wf(),
{
    broadcast use {lemma_with_reads, lemma_with_keeps};

    lemma_report_keys();
    lemma_texts_wf(crate::materialize::stored_records(f, ids));
}

/// A request keeps what it came with; signals that cannot be read are none, and an
/// empty summary is said in other words.
pub proof fn lemma_requests_are_read(p: PayloadView, read: Result<JsonView, Seq<char>>)
    ensures
        ({
            let q = request_of(p, read);
            &&& q.intent_discovery_id == p.intent_discovery_id
            &&& q.tenant == p.tenant
            &&& q.reason == p.reason
            &&& q.source == p.source
            &&& read is Ok ==> q.signal_summary == read->Ok_0
            &&& read is Err ==> q.signal_summary == empty_object()
            &&& q.summary == said_or(p.summary, "IntentDiscovery produced structured findings."@)
        }),
{
    lemma_filled(p.summary, "IntentDiscovery produced structured findings."@);
}

proof fn lemma_words()
    ensures
        "friction"@ != "governance_gap"@,
        "friction"@ != "workaround"@,
        "friction"@ != "declining"@,
        "friction"@ != "stable"@,
        "governance_gap"@ != "workaround"@,
        "governance_gap"@ != "declining"@,
        "governance_gap"@ != "stable"@,
        "workaround"@ != "declining"@,
        "workaround"@ != "stable"@,
        "declining"@ != "stable"@,
{
    reveal_strlit("friction");
    reveal_strlit("governance_gap");
    reveal_strlit("workaround");
    reveal_strlit("declining");
    reveal_strlit("stable");
    assert("friction"@.len() == 8);
    assert("governance_gap"@.len() == 14);
    assert("workaround"@.len() == 10);
    assert("declining"@.len() == 9);
    assert("stable"@.len() == 6);
}

proof fn lemma_keys()
    ensures
        "tenant"@ != "reason"@,
        "tenant"@ != "source"@,
        "tenant"@ != "signal_summary"@,
        "tenant"@ != "finding"@,
        "tenant"@ != "classification"@,
        "tenant"@ != "evidence_query"@,
        "tenant"@ != "context"@,
        "tenant"@ != "legacy_record_id"@,
        "tenant"@ != "observation_id"@,
        "tenant"@ != "problem_statement"@,
        "tenant"@ != "severity"@,
        "tenant"@ != "invariants"@,
        "tenant"@ != "problem_id"@,
        "tenant"@ != "root_cause"@,
        "tenant"@ != "options"@,
        "tenant"@ != "recommendation"@,
        "tenant"@ != "category"@,
        "tenant"@ != "signal"@,
        "tenant"@ != "priority_score"@,
        "reason"@ != "source"@,
        "reason"@ != "signal_summary"@,
        "reason"@ != "finding"@,
        "reason"@ != "classification"@,
        "reason"@ != "evidence_query"@,
        "reason"@ != "context"@,
        "reason"@ != "legacy_record_id"@,
        "reason"@ != "observation_id"@,
        "reason"@ != "problem_statement"@,
        "reason"@ != "severity"@,
        "reason"@ != "invariants"@,
        "reason"@ != "problem_id"@,
        "reason"@ != "root_cause"@,
        "reason"@ != "options"@,
        "reason"@ != "recommendation"@,
        "reason"@ != "category"@,
        "reason"@ != "signal"@,
        "reason"@ != "priority_score"@,
        "source"@ != "signal_summary"@,
        "source"@ != "finding"@,
        "source"@ != "classification"@,
        "source"@ != "evidence_query"@,
        "source"@ != "context"@,
        "source"@ != "legacy_record_id"@,
        "source"@ != "observation_id"@,
        "source"@ != "problem_statement"@,
        "source"@ != "severity"@,
        "source"@ != "invariants"@,
        "source"@ != "problem_id"@,
        "source"@ != "root_cause"@,
        "source"@ != "options"@,
        "source"@ != "recommendation"@,
        "source"@ != "category"@,
        "source"@ != "signal"@,
        "source"@ != "priority_score"@,
        "signal_summary"@ != "finding"@,
        "signal_summary"@ != "classification"@,
        "signal_summary"@ != "evidence_query"@,
        "signal_summary"@ != "context"@,
        "signal_summary"@ != "legacy_record_id"@,
        "signal_summary"@ != "observation_id"@,
        "signal_summary"@ != "problem_statement"@,
        "signal_summary"@ != "severity"@,
        "signal_summary"@ != "invariants"@,
        "signal_summary"@ != "problem_id"@,
        "signal_summary"@ != "root_cause"@,
        "signal_summary"@ != "options"@,
        "signal_summary"@ != "recommendation"@,
        "signal_summary"@ != "category"@,
        "signal_summary"@ != "signal"@,
        "signal_summary"@ != "priority_score"@,
        "finding"@ != "classification"@,
        "finding"@ != "evidence_query"@,
        "finding"@ != "context"@,
        "finding"@ != "legacy_record_id"@,
        "finding"@ != "observation_id"@,
        "finding"@ != "problem_statement"@,
        "finding"@ != "severity"@,
        "finding"@ != "invariants"@,
        "finding"@ != "problem_id"@,
        "finding"@ != "root_cause"@,
        "finding"@ != "options"@,
        "finding"@ != "recommendation"@,
        "finding"@ != "category"@,
        "finding"@ != "signal"@,
        "finding"@ != "priority_score"@,
        "classification"@ != "evidence_query"@,
        "classification"@ != "context"@,
        "classification"@ != "legacy_record_id"@,
        "classification"@ != "observation_id"@,
        "classification"@ != "problem_statement"@,
        "classification"@ != "severity"@,
        "classification"@ != "invariants"@,
        "classification"@ != "problem_id"@,
        "classification"@ != "root_cause"@,
        "classification"@ != "options"@,
        "classification"@ != "recommendation"@,
        "classification"@ != "category"@,
        "classification"@ != "signal"@,
        "classification"@ != "priority_score"@,
        "evidence_query"@ != "context"@,
        "evidence_query"@ != "legacy_record_id"@,
        "evidence_query"@ != "observation_id"@,
        "evidence_query"@ != "problem_statement"@,
        "evidence_query"@ != "severity"@,
        "evidence_query"@ != "invariants"@,
        "evidence_query"@ != "problem_id"@,
        "evidence_query"@ != "root_cause"@,
        "evidence_query"@ != "options"@,
        "evidence_query"@ != "recommendation"@,
        "evidence_query"@ != "category"@,
        "evidence_query"@ != "signal"@,
        "evidence_query"@ != "priority_score"@,
        "context"@ != "legacy_record_id"@,
        "context"@ != "observation_id"@,
        "context"@ != "problem_statement"@,
        "context"@ != "severity"@,
        "context"@ != "invariants"@,
        "context"@ != "problem_id"@,
        "context"@ != "root_cause"@,
        "context"@ != "options"@,
        "context"@ != "recommendation"@,
        "context"@ != "category"@,
        "context"@ != "signal"@,
        "context"@ != "priority_score"@,
        "legacy_record_id"@ != "observation_id"@,
        "legacy_record_id"@ != "problem_statement"@,
        "legacy_record_id"@ != "severity"@,
        "legacy_record_id"@ != "invariants"@,
        "legacy_record_id"@ != "problem_id"@,
        "legacy_record_id"@ != "root_cause"@,
        "legacy_record_id"@ != "options"@,
        "legacy_record_id"@ != "recommendation"@,
        "legacy_record_id"@ != "category"@,
        "legacy_record_id"@ != "signal"@,
        "legacy_record_id"@ != "priority_score"@,
        "observation_id"@ != "problem_statement"@,
        "observation_id"@ != "severity"@,
        "observation_id"@ != "invariants"@,
        "observation_id"@ != "problem_id"@,
        "observation_id"@ != "root_cause"@,
        "observation_id"@ != "options"@,
        "observation_id"@ != "recommendation"@,
        "observation_id"@ != "category"@,
        "observation_id"@ != "signal"@,
        "observation_id"@ != "priority_score"@,
        "problem_statement"@ != "severity"@,
        "problem_statement"@ != "invariants"@,
        "problem_statement"@ != "problem_id"@,
        "problem_statement"@ != "root_cause"@,
        "problem_statement"@ != "options"@,
        "problem_statement"@ != "recommendation"@,
        "problem_statement"@ != "category"@,
        "problem_statement"@ != "signal"@,
        "problem_statement"@ != "priority_score"@,
        "severity"@ != "invariants"@,
        "severity"@ != "problem_id"@,
        "severity"@ != "root_cause"@,
        "severity"@ != "options"@,
        "severity"@ != "recommendation"@,
        "severity"@ != "category"@,
        "severity"@ != "signal"@,
        "severity"@ != "priority_score"@,
        "invariants"@ != "problem_id"@,
        "invariants"@ != "root_cause"@,
        "invariants"@ != "options"@,
        "invariants"@ != "recommendation"@,
        "invariants"@ != "category"@,
        "invariants"@ != "signal"@,
        "invariants"@ != "priority_score"@,
        "problem_id"@ != "root_cause"@,
        "problem_id"@ != "options"@,
        "problem_id"@ != "recommendation"@,
        "problem_id"@ != "category"@,
        "problem_id"@ != "signal"@,
        "problem_id"@ != "priority_score"@,
        "root_cause"@ != "options"@,
        "root_cause"@ != "recommendation"@,
        "root_cause"@ != "category"@,
        "root_cause"@ != "signal"@,
        "root_cause"@ != "priority_score"@,
        "options"@ != "recommendation"@,
        "options"@ != "category"@,
        "options"@ != "signal"@,
        "options"@ != "priority_score"@,
        "recommendation"@ != "category"@,
        "recommendation"@ != "signal"@,
        "recommendation"@ != "priority_score"@,
        "category"@ != "signal"@,
        "category"@ != "priority_score"@,
        "signal"@ != "priority_score"@,
{
    reveal_strlit("tenant");
    reveal_strlit("reason");
    reveal_strlit("source");
    reveal_strlit("signal_summary");
    reveal_strlit("finding");
    reveal_strlit("classification");
    reveal_strlit("evidence_query");
    reveal_strlit("context");
    reveal_strlit("legacy_record_id");
    reveal_strlit("observation_id");
    reveal_strlit("problem_statement");
    reveal_strlit("severity");
    reveal_strlit("invariants");
    reveal_strlit("problem_id");
    reveal_strlit("root_cause");
    reveal_strlit("options");
    reveal_strlit("recommendation");
    reveal_strlit("category");
    reveal_strlit("signal");
    reveal_strlit("priority_score");
    assert("tenant"@.len() == 6);
    assert("reason"@.len() == 6);
    assert("source"@.len() == 6);
    assert("signal_summary"@.len() == 14);
    assert("finding"@.len() == 7);
    assert("classification"@.len() == 14);
    assert("evidence_query"@.len() == 14);
    assert("context"@.len() == 7);
    assert("legacy_record_id"@.len() == 16);
    assert("observation_id"@.len() == 14);
    assert("problem_statement"@.len() == 17);
    assert("severity"@.len() == 8);
    assert("invariants"@.len() == 10);
    assert("problem_id"@.len() == 10);
    assert("root_cause"@.len() == 10);
    assert("options"@.len() == 7);
    assert("recommendation"@.len() == 14);
    assert("category"@.len() == 8);
    assert("signal"@.len() == 6);
    assert("priority_score"@.len() == 14);
    assert("tenant"@[0] == 't');
    assert("reason"@[0] == 'r');
    assert("source"@[0] == 's');
    assert("signal"@[0] == 's');
    assert("source"@[1] == 'o');
    assert("signal"@[1] == 'i');
    assert("signal_summary"@[0] == 's');
    assert("classification"@[0] == 'c');
    assert("evidence_query"@[0] == 'e');
    assert("observation_id"@[0] == 'o');
    assert("recommendation"@[0] == 'r');
    assert("priority_score"@[0] == 'p');
    assert("finding"@[0] == 'f');
    assert("context"@[0] == 'c');
    assert("options"@[0] == 'o');
    assert("severity"@[0] == 's');
    assert("category"@[0] == 'c');
    assert("invariants"@[0] == 'i');
    assert("problem_id"@[0] == 'p');
    assert("root_cause"@[0] == 'r');
}

proof fn lemma_issue_keys()
    ensures
        "Id"@ != "Title"@,
        "Id"@ != "Description"@,
        "Id"@ != "AcceptanceCriteria"@,
        "Id"@ != "Priority"@,
        "Id"@ != "CreatedAt"@,
        "Id"@ != "UpdatedAt"@,
        "Title"@ != "Description"@,
        "Title"@ != "AcceptanceCriteria"@,
        "Title"@ != "Priority"@,
        "Title"@ != "CreatedAt"@,
        "Title"@ != "UpdatedAt"@,
        "Description"@ != "AcceptanceCriteria"@,
        "Description"@ != "Priority"@,
        "Description"@ != "CreatedAt"@,
        "Description"@ != "UpdatedAt"@,
        "AcceptanceCriteria"@ != "Priority"@,
        "AcceptanceCriteria"@ != "CreatedAt"@,
        "AcceptanceCriteria"@ != "UpdatedAt"@,
        "Priority"@ != "CreatedAt"@,
        "Priority"@ != "UpdatedAt"@,
        "CreatedAt"@ != "UpdatedAt"@,
{
    reveal_strlit("Id");
    reveal_strlit("Title");
    reveal_strlit("Description");
    reveal_strlit("AcceptanceCriteria");
    reveal_strlit("Priority");
    reveal_strlit("CreatedAt");
    reveal_strlit("UpdatedAt");
    assert("Id"@.len() == 2);
    assert("Title"@.len() == 5);
    assert("Description"@.len() == 11);
    assert("AcceptanceCriteria"@.len() == 18);
    assert("Priority"@.len() == 8);
    assert("CreatedAt"@.len() == 9);
    assert("UpdatedAt"@.len() == 9);
    assert("CreatedAt"@[0] == 'C');
    assert("UpdatedAt"@[0] == 'U');
}

proof fn lemma_report_keys()
    ensures
        "intent_discovery_id"@ != "tenant"@,
        "intent_discovery_id"@ != "records_created_count"@,
        "intent_discovery_id"@ != "issues_created_count"@,
        "intent_discovery_id"@ != "record_ids"@,
        "intent_discovery_id"@ != "issue_ids"@,
        "intent_discovery_id"@ != "findings"@,
        "intent_discovery_id"@ != "title"@,
        "intent_discovery_id"@ != "intent_title"@,
        "intent_discovery_id"@ != "symptom_title"@,
        "intent_discovery_id"@ != "kind"@,
        "intent_discovery_id"@ != "issue_id"@,
        "tenant"@ != "records_created_count"@,
        "tenant"@ != "issues_created_count"@,
        "tenant"@ != "record_ids"@,
        "tenant"@ != "issue_ids"@,
        "tenant"@ != "findings"@,
        "tenant"@ != "title"@,
        "tenant"@ != "intent_title"@,
        "tenant"@ != "symptom_title"@,
        "tenant"@ != "kind"@,
        "tenant"@ != "issue_id"@,
        "records_created_count"@ != "issues_created_count"@,
        "records_created_count"@ != "record_ids"@,
        "records_created_count"@ != "issue_ids"@,
        "records_created_count"@ != "findings"@,
        "records_created_count"@ != "title"@,
        "records_created_count"@ != "intent_title"@,
        "records_created_count"@ != "symptom_title"@,
        "records_created_count"@ != "kind"@,
        "records_created_count"@ != "issue_id"@,
        "issues_created_count"@ != "record_ids"@,
        "issues_created_count"@ != "issue_ids"@,
        "issues_created_count"@ != "findings"@,
        "issues_created_count"@ != "title"@,
        "issues_created_count"@ != "intent_title"@,
        "issues_created_count"@ != "symptom_title"@,
        "issues_created_count"@ != "kind"@,
        "issues_created_count"@ != "issue_id"@,
        "record_ids"@ != "issue_ids"@,
        "record_ids"@ != "findings"@,
        "record_ids"@ != "title"@,
        "record_ids"@ != "intent_title"@,
        "record_ids"@ != "symptom_title"@,
        "record_ids"@ != "kind"@,
        "record_ids"@ != "issue_id"@,
        "issue_ids"@ != "findings"@,
        "issue_ids"@ != "title"@,
        "issue_ids"@ != "intent_title"@,
        "issue_ids"@ != "symptom_title"@,
        "issue_ids"@ != "kind"@,
        "issue_ids"@ != "issue_id"@,
        "findings"@ != "title"@,
        "findings"@ != "intent_title"@,
        "findings"@ != "symptom_title"@,
        "findings"@ != "kind"@,
        "findings"@ != "issue_id"@,
        "title"@ != "intent_title"@,
        "title"@ != "symptom_title"@,
        "title"@ != "kind"@,
        "title"@ != "issue_id"@,
        "intent_title"@ != "symptom_title"@,
        "intent_title"@ != "kind"@,
        "intent_title"@ != "issue_id"@,
        "symptom_title"@ != "kind"@,
        "symptom_title"@ != "issue_id"@,
        "kind"@ != "issue_id"@,
{
    reveal_strlit("intent_discovery_id");
    reveal_strlit("tenant");
    reveal_strlit("records_created_count");
    reveal_strlit("issues_created_count");
    reveal_strlit("record_ids");
    reveal_strlit("issue_ids");
    reveal_strlit("findings");
    reveal_strlit("title");
    reveal_strlit("intent_title");
    reveal_strlit("symptom_title");
    reveal_strlit("kind");
    reveal_strlit("issue_id");
    assert("intent_discovery_id"@.len() == 19);
    assert("tenant"@.len() == 6);
    assert("records_created_count"@.len() == 21);
    assert("issues_created_count"@.len() == 20);
    assert("record_ids"@.len() == 10);
    assert("issue_ids"@.len() == 9);
    assert("findings"@.len() == 8);
    assert("title"@.len() == 5);
    assert("intent_title"@.len() == 12);
    assert("symptom_title"@.len() == 13);
    assert("kind"@.len() == 4);
    assert("issue_id"@.len() == 8);
    assert("findings"@[0] == 'f');
    assert("issue_id"@[0] == 'i');
}

} // verus!
