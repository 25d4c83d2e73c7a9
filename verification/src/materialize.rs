//! What is to be done for the findings of an analysis: the records to store, the
//! entities to create and the issues to open, in order.
use vstd::prelude::*;

use crate::findings::complexity;
use crate::findings::complexity_from_finding;
use crate::findings::criteria;
use crate::findings::default_acceptance_criteria;
use crate::findings::describe_issue;
use crate::findings::description_with;
use crate::findings::evidence_text;
use crate::findings::fill;
use crate::findings::filled;
use crate::findings::finding_category;
use crate::findings::finding_intent_title;
use crate::findings::finding_issue_title;
use crate::findings::finding_symptom_title;
use crate::findings::insight_category_for_finding;
use crate::findings::intent_title;
use crate::findings::issue_priority_level;
use crate::findings::issue_title;
use crate::findings::observation_class;
use crate::findings::observation_class_for_finding;
use crate::findings::priority_level;
use crate::findings::severity;
use crate::findings::severity_from_score;
use crate::findings::solution_risk;
use crate::findings::solution_risk_from_score;
use crate::findings::symptom_title;
use crate::findings::trend;
use crate::findings::trend_from_str;
use crate::findings::AgentFinding;
use crate::findings::Complexity;
use crate::findings::FindingView;
use crate::findings::ObservationClass;
use crate::findings::Severity;
use crate::findings::SolutionRisk;
use crate::insights::InsightCategory;
use crate::insights::Trend;
use crate::json::empty_object;
use crate::json::text_list;
use crate::json::Json;
use crate::json::JsonView;
use crate::json_text::json_read;
use crate::json_text::parse;
use crate::json_text::render;
use crate::json_text::render_pretty;
use crate::json_text::rendered;
use crate::llm_convert::array;
use crate::order::opt_view;
use crate::order::views;
use crate::score::Score;
use crate::text::cat2;
use crate::text::cat6;
use crate::text::join;
use crate::text::joined;

verus! {

/// What was asked to be materialized.
pub struct RequestView {
    /// The run of discovery.
    pub intent_discovery_id: Seq<char>,
    /// The tenant that was named.
    pub tenant: Option<Seq<char>>,
    /// Why it ran.
    pub reason: Option<Seq<char>>,
    /// Who asked.
    pub source: Option<Seq<char>>,
    /// The signals it started from.
    pub signal_summary: JsonView,
    /// What it came to.
    pub summary: Seq<char>,
}

/// What was asked to be materialized.
pub struct MaterializeRequest {
    /// The run of discovery.
    pub intent_discovery_id: String,
    /// The tenant that was named.
    pub tenant: Option<String>,
    /// Why it ran.
    pub reason: Option<String>,
    /// Who asked.
    pub source: Option<String>,
    /// The signals it started from.
    pub signal_summary: Json,
    /// What it came to.
    pub summary: String,
}

impl View for MaterializeRequest {
    type V = RequestView;

    open spec fn view(&self) -> RequestView {
        RequestView {
            intent_discovery_id: self.intent_discovery_id@,
            tenant: opt_view(self.tenant),
            reason: opt_view(self.reason),
            source: opt_view(self.source),
            signal_summary: self.signal_summary@,
            summary: self.summary@,
        }
    }
}

/// The names that are given to what is made for a finding, and the time.
pub struct IdsView {
    /// The record of the observation.
    pub observation_record: Seq<char>,
    /// The entity of the observation.
    pub observation_entity: Seq<char>,
    /// The record of the problem.
    pub problem_record: Seq<char>,
    /// The entity of the problem.
    pub problem_entity: Seq<char>,
    /// The record of the analysis.
    pub analysis_record: Seq<char>,
    /// The entity of the analysis.
    pub analysis_entity: Seq<char>,
    /// The record of the insight.
    pub insight_record: Seq<char>,
    /// The entity of the insight.
    pub insight_entity: Seq<char>,
    /// The issue.
    pub issue: Seq<char>,
    /// The time.
    pub now: Seq<char>,
}

/// The names that are given to what is made for a finding, and the time.
pub struct FindingIds {
    /// The record of the observation.
    pub observation_record: String,
    /// The entity of the observation.
    pub observation_entity: String,
    /// The record of the problem.
    pub problem_record: String,
    /// The entity of the problem.
    pub problem_entity: String,
    /// The record of the analysis.
    pub analysis_record: String,
    /// The entity of the analysis.
    pub analysis_entity: String,
    /// The record of the insight.
    pub insight_record: String,
    /// The entity of the insight.
    pub insight_entity: String,
    /// The issue.
    pub issue: String,
    /// The time.
    pub now: String,
}

impl View for FindingIds {
    type V = IdsView;

    open spec fn view(&self) -> IdsView {
        IdsView {
            observation_record: self.observation_record@,
            observation_entity: self.observation_entity@,
            problem_record: self.problem_record@,
            problem_entity: self.problem_entity@,
            analysis_record: self.analysis_record@,
            analysis_entity: self.analysis_entity@,
            insight_record: self.insight_record@,
            insight_entity: self.insight_entity@,
            issue: self.issue@,
            now: self.now@,
        }
    }
}

/// The forms of a finding in text: itself in JSON, its priority to four digits,
/// and its solutions in JSON.
pub struct FormsView {
    /// The finding.
    pub finding: JsonView,
    /// Its priority.
    pub priority: Seq<char>,
    /// Its solutions.
    pub options: Seq<char>,
}

/// The forms of a finding in text: itself in JSON, its priority to four digits,
/// and its solutions in JSON.
pub struct FindingForms {
    /// The finding.
    pub finding: Json,
    /// Its priority.
    pub priority: String,
    /// Its solutions.
    pub options: String,
}

impl View for FindingForms {
    type V = FormsView;

    open spec fn view(&self) -> FormsView {
        FormsView {
            finding: self.finding@,
            priority: self.priority@,
            options: self.options@,
        }
    }
}

/// What is stored for a finding.
pub enum RecordView {
    /// What was observed: where, of what kind, how to see it again, how often, and
    /// around what.
    Observation(Seq<char>, ObservationClass, Seq<char>, u64, JsonView),
    /// What the problem is: its statement, what must hold, what is given, how many
    /// it affects, how seriously, and where that is heading.
    Problem(Seq<char>, Seq<Seq<char>>, Seq<Seq<char>>, u64, Severity, Trend),
    /// Where it comes from, and what could be done.
    Analysis(Seq<char>, OptionView),
    /// What is to be learnt: about what, the intent, how often, how often with
    /// success, where that is heading, what is advised, and how urgent it is.
    Insight(InsightCategory, Seq<char>, u64, Score, Trend, Seq<char>, Score),
}

/// What could be done about a finding.
pub struct OptionView {
    /// What.
    pub description: Seq<char>,
    /// How the spec would change.
    pub spec_diff: Seq<char>,
    /// What it means for the model.
    pub tla_impact: Seq<char>,
    /// What it puts at risk.
    pub risk: SolutionRisk,
    /// How much work it is.
    pub complexity: Complexity,
}

/// What could be done about a finding.
#[derive(Debug)]
pub struct SolutionOption {
    /// What.
    pub description: String,
    /// How the spec would change.
    pub spec_diff: String,
    /// What it means for the model.
    pub tla_impact: String,
    /// What it puts at risk.
    pub risk: SolutionRisk,
    /// How much work it is.
    pub complexity: Complexity,
}

impl View for SolutionOption {
    type V = OptionView;

    open spec fn view(&self) -> OptionView {
        OptionView {
            description: self.description@,
            spec_diff: self.spec_diff@,
            tla_impact: self.tla_impact@,
            risk: self.risk,
            complexity: self.complexity,
        }
    }
}

/// What is stored for a finding.
pub enum EvolutionRecord {
    /// What was observed: where, of what kind, how to see it again, how often, and
    /// around what.
    Observation(String, ObservationClass, String, u64, Json),
    /// What the problem is: its statement, what must hold, what is given, how many
    /// it affects, how seriously, and where that is heading.
    Problem(String, Vec<String>, Vec<String>, u64, Severity, Trend),
    /// Where it comes from, and what could be done.
    Analysis(String, SolutionOption),
    /// What is to be learnt: about what, the intent, how often, how often with
    /// success, where that is heading, what is advised, and how urgent it is.
    Insight(InsightCategory, String, u64, Score, Trend, String, Score),
}

impl View for EvolutionRecord {
    type V = RecordView;

    open spec fn view(&self) -> RecordView {
        match *self {
            EvolutionRecord::Observation(s, c, q, n, x) => RecordView::Observation(
                s@,
                c,
                q@,
                n,
                x@,
            ),
            EvolutionRecord::Problem(s, i, c, n, v, t) => RecordView::Problem(
                s@,
                views(i@),
                views(c@),
                n,
                v,
                t,
            ),
            EvolutionRecord::Analysis(s, o) => RecordView::Analysis(s@, o@),
            EvolutionRecord::Insight(c, i, n, r, t, a, p) => RecordView::Insight(
                c,
                i@,
                n,
                r,
                t,
                a@,
                p,
            ),
        }
    }
}

/// One thing to be done.
pub enum TaskView {
    /// Store a record: its name, what it derives from, and what it holds. It must
    /// succeed.
    Store(Seq<char>, Option<Seq<char>>, RecordView),
    /// Have an entity of the system take an action: its type, its name, the action
    /// and its parameters. It may fail.
    Announce(Seq<char>, Seq<char>, Seq<char>, JsonView),
    /// Have an entity of the system take an action. It must succeed.
    Act(Seq<char>, Seq<char>, Seq<char>, JsonView),
    /// Open an issue with its fields. It must succeed.
    OpenIssue(Seq<char>, JsonView),
    /// Have an issue take an action. It may fail.
    MoveIssue(Seq<char>, Seq<char>, JsonView),
}

/// One thing to be done.
pub enum Task {
    /// Store a record: its name, what it derives from, and what it holds. It must
    /// succeed.
    Store(String, Option<String>, EvolutionRecord),
    /// Have an entity of the system take an action: its type, its name, the action
    /// and its parameters. It may fail.
    Announce(String, String, String, Json),
    /// Have an entity of the system take an action. It must succeed.
    Act(String, String, String, Json),
    /// Open an issue with its fields. It must succeed.
    OpenIssue(String, Json),
    /// Have an issue take an action. It may fail.
    MoveIssue(String, String, Json),
}

impl View for Task {
    type V = TaskView;

    open spec fn view(&self) -> TaskView {
        match *self {
            Task::Store(id, from, r) => TaskView::Store(id@, opt_view(from), r@),
            Task::Announce(t, id, a, p) => TaskView::Announce(t@, id@, a@, p@),
            Task::Act(t, id, a, p) => TaskView::Act(t@, id@, a@, p@),
            Task::OpenIssue(id, f) => TaskView::OpenIssue(id@, f@),
            Task::MoveIssue(id, a, p) => TaskView::MoveIssue(id@, a@, p@),
        }
    }
}

/// A task that must succeed, or nothing after it is done.
pub open spec fn is_required(t: TaskView) -> bool {
    match t {
        TaskView::Store(_, _, _) => true,
        TaskView::Announce(_, _, _, _) => false,
        TaskView::Act(_, _, _, _) => true,
        TaskView::OpenIssue(_, _) => true,
        TaskView::MoveIssue(_, _, _) => false,
    }
}

impl Task {
    /// Whether to go on after the task: it succeeded, or it may fail.
    pub fn goes_on(&self, succeeded: bool) -> (r: bool)
        ensures
            r == (succeeded || !is_required(self@)),
    {
        match self {
            Task::Store(_, _, _) => succeeded,
            Task::Announce(_, _, _, _) => true,
            Task::Act(_, _, _, _) => succeeded,
            Task::OpenIssue(_, _) => succeeded,
            Task::MoveIssue(_, _, _) => true,
        }
    }
}

/// The name of a class of observations.
pub open spec fn class_name(c: ObservationClass) -> Seq<char> {
    match c {
        ObservationClass::AuthzDenied => "AuthzDenied"@,
        ObservationClass::Trajectory => "Trajectory"@,
    }
}

/// The name of a degree of severity.
pub open spec fn severity_name(s: Severity) -> Seq<char> {
    match s {
        Severity::Critical => "critical"@,
        Severity::High => "high"@,
        Severity::Medium => "medium"@,
        Severity::Low => "low"@,
    }
}

/// The name of a category of insights.
pub open spec fn category_name(c: InsightCategory) -> Seq<char> {
    match c {
        InsightCategory::UnmetIntent => "UnmetIntent"@,
        InsightCategory::Friction => "Friction"@,
        InsightCategory::Workaround => "Workaround"@,
        InsightCategory::PlatformGap => "PlatformGap"@,
    }
}

/// The name of a class of observations.
pub fn name_class(c: ObservationClass) -> (r: &'static str)
    ensures
        r@ == class_name(c),
{
    match c {
        ObservationClass::AuthzDenied => "AuthzDenied",
        ObservationClass::Trajectory => "Trajectory",
    }
}

/// The name of a degree of severity.
pub fn name_severity(s: Severity) -> (r: &'static str)
    ensures
        r@ == severity_name(s),
{
    match s {
        Severity::Critical => "critical",
        Severity::High => "high",
        Severity::Medium => "medium",
        Severity::Low => "low",
    }
}

/// The name of a category of insights.
pub fn name_category(c: InsightCategory) -> (r: &'static str)
    ensures
        r@ == category_name(c),
{
    match c {
        InsightCategory::UnmetIntent => "UnmetIntent",
        InsightCategory::Friction => "Friction",
        InsightCategory::Workaround => "Workaround",
        InsightCategory::PlatformGap => "PlatformGap",
    }
}

/// A text, or `null` where there is none.
pub open spec fn text_or_null(t: Option<Seq<char>>) -> JsonView {
    match t {
        Some(x) => JsonView::Text(x),
        None => JsonView::Null,
    }
}

/// A text, or `null` where there is none.
pub fn nullable(t: &Option<String>) -> (r: Json)
    ensures
        r@ == text_or_null(opt_view(*t)),
        r@.wf(),
{
    match t {
        Some(x) => Json::of_text(x.as_str()),
        None => Json::Null,
    }
}

/// What surrounds an observation.
pub open spec fn observed_context(
    q: RequestView,
    tenant: Seq<char>,
    forms: FormsView,
) -> JsonView {
    empty_object().with("tenant"@, JsonView::Text(tenant)).with(
        "reason"@,
        text_or_null(q.reason),
    ).with("source"@, text_or_null(q.source)).with("signal_summary"@, q.signal_summary).with(
        "finding"@,
        forms.finding,
    )
}

/// Where an observation was made.
pub open spec fn observed_source(f: FindingView) -> Seq<char> {
    "intent-discovery:"@ + filled(f.kind, "analysis"@)
}

/// How to see an observation again.
pub open spec fn evidence_query(q: RequestView, f: FindingView) -> Seq<char> {
    "intent discovery "@ + q.intent_discovery_id + " -> symptom="@ + symptom_title(f)
        + " intent="@ + intent_title(f)
}

/// The statement of the problem.
pub open spec fn problem_text(f: FindingView) -> Seq<char> {
    filled(f.problem_statement, intent_title(f) + " blocks intended workflow completion."@)
}

/// What is given with the problem.
pub open spec fn constraints(f: FindingView) -> Seq<Seq<char>> {
    if f.dedupe_key.len() == 0 {
        Seq::empty()
    } else {
        seq!["dedupe_key="@ + f.dedupe_key]
    }
}

/// Where the problem comes from.
pub open spec fn cause_text(f: FindingView) -> Seq<char> {
    filled(f.root_cause, "IntentDiscovery inferred a missing platform capability."@)
}

/// What could be done.
pub open spec fn solution(f: FindingView) -> OptionView {
    OptionView {
        description: f.recommendation,
        spec_diff: filled(f.spec_diff, "No explicit spec diff supplied."@),
        tla_impact: "NONE"@,
        risk: solution_risk(f.priority_score),
        complexity: complexity(f),
    }
}

/// What could be done.
pub fn solution_option(f: &AgentFinding) -> (r: SolutionOption)
    ensures
        r@ == solution(f@),
{
    SolutionOption {
        description: f.recommendation.clone(),
        spec_diff: fill(f.spec_diff.as_str(), "No explicit spec diff supplied."),
        tla_impact: "NONE".to_string(),
        risk: solution_risk_from_score(f.priority_score),
        complexity: complexity_from_finding(f),
    }
}

/// What is done for a finding that needs a spec to change: observation, problem
/// and analysis are stored, each derived from the one before, and announced.
pub open spec fn spec_change_tasks(
    q: RequestView,
    tenant: Seq<char>,
    f: FindingView,
    forms: FormsView,
    ids: IdsView,
) -> Seq<TaskView> {
    let context = observed_context(q, tenant, forms);
    let class = observation_class(f);
    seq![
        TaskView::Store(
            ids.observation_record,
            None,
            RecordView::Observation(
                observed_source(f),
                class,
                evidence_query(q, f),
                f.volume,
                context,
            ),
        ),
        TaskView::Announce(
            "Observation"@,
            ids.observation_entity,
            "CreateObservation"@,
            empty_object().with("source"@, JsonView::Text(observed_source(f))).with(
                "classification"@,
                JsonView::Text(class_name(class)),
            ).with("evidence_query"@, JsonView::Text(evidence_query(q, f))).with(
                "context"@,
                JsonView::Text(rendered(context)),
            ).with("tenant"@, JsonView::Text(tenant)).with(
                "legacy_record_id"@,
                JsonView::Text(ids.observation_record),
            ),
        ),
        TaskView::Store(
            ids.problem_record,
            Some(ids.observation_record),
            RecordView::Problem(
                problem_text(f),
                criteria(f),
                constraints(f),
                f.volume,
                severity(f.priority_score),
                trend(f.trend),
            ),
        ),
        TaskView::Act(
            "Problem"@,
            ids.problem_entity,
            "CreateProblem"@,
            empty_object().with("observation_id"@, JsonView::Text(ids.observation_entity)).with(
                "problem_statement"@,
                JsonView::Text(problem_text(f)),
            ).with("severity"@, JsonView::Text(severity_name(severity(f.priority_score)))).with(
                "invariants"@,
                JsonView::Text(rendered(text_list(criteria(f)))),
            ),
        ),
        TaskView::Act("Problem"@, ids.problem_entity, "MarkReviewed"@, empty_object()),
        TaskView::Store(
            ids.analysis_record,
            Some(ids.problem_record),
            RecordView::Analysis(cause_text(f), solution(f)),
        ),
        TaskView::Act(
            "Analysis"@,
            ids.analysis_entity,
            "CreateAnalysis"@,
            empty_object().with("problem_id"@, JsonView::Text(ids.problem_entity)).with(
                "root_cause"@,
                JsonView::Text(cause_text(f)),
            ).with("options"@, JsonView::Text(forms.options)).with(
                "recommendation"@,
                JsonView::Text("0"@),
            ),
        ),
    ]
}

/// The records that are stored for a finding, in order.
pub open spec fn stored_records(f: FindingView, ids: IdsView) -> Seq<Seq<char>> {
    if f.requires_spec_change {
        seq![
            ids.observation_record,
            ids.problem_record,
            ids.analysis_record,
            ids.insight_record,
        ]
    } else {
        seq![ids.insight_record]
    }
}

/// What is done for every finding: the insight is stored and announced.
pub open spec fn insight_tasks(f: FindingView, forms: FormsView, ids: IdsView) -> Seq<TaskView> {
    let said = filled(f.intent, intent_title(f));
    let category = finding_category(f);
    seq![
        TaskView::Store(
            ids.insight_record,
            if f.requires_spec_change {
                Some(ids.analysis_record)
            } else {
                None
            },
            RecordView::Insight(
                category,
                said,
                f.volume,
                f.success_rate,
                trend(f.trend),
                f.recommendation,
                f.priority_score,
            ),
        ),
        TaskView::Announce(
            "Insight"@,
            ids.insight_entity,
            "CreateInsight"@,
            empty_object().with(
                "observation_id"@,
                JsonView::Text(
                    if f.requires_spec_change {
                        ids.observation_entity
                    } else {
                        ""@
                    },
                ),
            ).with("category"@, JsonView::Text(category_name(category))).with(
                "signal"@,
                JsonView::Text(said),
            ).with("recommendation"@, JsonView::Text(f.recommendation)).with(
                "priority_score"@,
                JsonView::Text(forms.priority),
            ).with("legacy_record_id"@, JsonView::Text(ids.insight_record)),
        ),
    ]
}

/// The fields of the issue for a finding.
pub open spec fn issue_fields(q: RequestView, f: FindingView, ids: IdsView) -> JsonView {
    empty_object().with("Id"@, JsonView::Text(ids.issue)).with(
        "Title"@,
        JsonView::Text(issue_title(f)),
    ).with(
        "Description"@,
        JsonView::Text(
            description_with(
                q.summary,
                f,
                evidence_text(f.evidence),
                stored_records(f, ids),
            ),
        ),
    ).with("AcceptanceCriteria"@, JsonView::Text(joined(criteria(f), "\n"@))).with(
        "Priority"@,
        JsonView::Unsigned(priority_level(f.priority_score)),
    ).with("CreatedAt"@, JsonView::Text(ids.now)).with("UpdatedAt"@, JsonView::Text(ids.now))
}

/// What is done for every finding at its end: its issue is opened and moved to
/// the work to be done.
pub open spec fn issue_tasks(q: RequestView, f: FindingView, ids: IdsView) -> Seq<TaskView> {
    seq![
        TaskView::OpenIssue(ids.issue, issue_fields(q, f, ids)),
        TaskView::MoveIssue(
            ids.issue,
            "SetPriority"@,
            empty_object().with("level"@, JsonView::Unsigned(priority_level(f.priority_score))),
        ),
        TaskView::MoveIssue(ids.issue, "MoveToTriage"@, empty_object()),
        TaskView::MoveIssue(ids.issue, "MoveToTodo"@, empty_object()),
    ]
}

/// All that is done for a finding.
pub open spec fn finding_tasks(
    q: RequestView,
    tenant: Seq<char>,
    f: FindingView,
    forms: FormsView,
    ids: IdsView,
) -> Seq<TaskView> {
    let first = if f.requires_spec_change {
        spec_change_tasks(q, tenant, f, forms, ids)
    } else {
        Seq::empty()
    };
    first + insight_tasks(f, forms, ids) + issue_tasks(q, f, ids)
}

fn make_context(q: &MaterializeRequest, tenant: &str, forms: &FindingForms) -> (r: Json)
    requires
        q.signal_summary@.wf(),
        forms.finding@.wf(),
    ensures
        r@ == observed_context(q@, tenant@, forms@),
        r@.wf(),
{
    Json::object().set("tenant", Json::of_text(tenant)).set("reason", nullable(&q.reason)).set(
        "source",
        nullable(&q.source),
    ).set("signal_summary", q.signal_summary.copy()).set("finding", forms.finding.copy())
}

fn make_problem_text(f: &AgentFinding) -> (r: String)
    ensures
        r@ == problem_text(f@),
{
    let title = finding_intent_title(f);
    let otherwise = cat2(title.as_str(), " blocks intended workflow completion.");
    fill(f.problem_statement.as_str(), otherwise.as_str())
}

fn make_constraints(f: &AgentFinding) -> (r: Vec<String>)
    ensures
        views(r@) == constraints(f@),
{
    let mut r: Vec<String> = Vec::new();
    if !f.dedupe_key.as_str().is_empty() {
        r.push(cat2("dedupe_key=", f.dedupe_key.as_str()));
    }
    assert(views(r@) =~= constraints(f@));
    r
}

fn plan_spec_change(
    q: &MaterializeRequest,
    tenant: &str,
    f: &AgentFinding,
    forms: &FindingForms,
    ids: &FindingIds,
) -> (r: Vec<Task>)
    requires
        q.signal_summary@.wf(),
        forms.finding@.wf(),
    ensures
        views(r@) == spec_change_tasks(q@, tenant@, f@, forms@, ids@),
{
    let context = make_context(q, tenant, forms);
    let class = observation_class_for_finding(f);
    let kind = fill(f.kind.as_str(), "analysis");
    let source = cat2("intent-discovery:", kind.as_str());
    let symptom = finding_symptom_title(f);
    let intent = finding_intent_title(f);
    let query = cat6(
        "intent discovery ",
        q.intent_discovery_id.as_str(),
        " -> symptom=",
        symptom.as_str(),
        " intent=",
        intent.as_str(),
    );
    let level = severity_from_score(f.priority_score);
    let statement = make_problem_text(f);
    let invariants = default_acceptance_criteria(f);
    let invariants_json = Json::of_texts(&invariants);
    let invariants_text = render(&invariants_json);
    let cause = fill(
        f.root_cause.as_str(),
        "IntentDiscovery inferred a missing platform capability.",
    );
    let context_text = render(&context);
    let observation_params = Json::object().set("source", Json::of_text(source.as_str())).set(
        "classification",
        Json::of_text(name_class(class)),
    ).set("evidence_query", Json::of_text(query.as_str())).set(
        "context",
        Json::Text(context_text),
    ).set("tenant", Json::of_text(tenant)).set(
        "legacy_record_id",
        Json::of_text(ids.observation_record.as_str()),
    );
    let problem_params = Json::object().set(
        "observation_id",
        Json::of_text(ids.observation_entity.as_str()),
    ).set("problem_statement", Json::of_text(statement.as_str())).set(
        "severity",
        Json::of_text(name_severity(level)),
    ).set("invariants", Json::Text(invariants_text));
    let analysis_params = Json::object().set(
        "problem_id",
        Json::of_text(ids.problem_entity.as_str()),
    ).set("root_cause", Json::of_text(cause.as_str())).set(
        "options",
        Json::of_text(forms.options.as_str()),
    ).set("recommendation", Json::of_text("0"));
    let mut r: Vec<Task> = Vec::new();
    r.push(
        Task::Store(
            ids.observation_record.clone(),
            None,
            EvolutionRecord::Observation(source, class, query, f.volume, context),
        ),
    );
    r.push(
        Task::Announce(
            "Observation".to_string(),
            ids.observation_entity.clone(),
            "CreateObservation".to_string(),
            observation_params,
        ),
    );
    r.push(
        Task::Store(
            ids.problem_record.clone(),
            Some(ids.observation_record.clone()),
            EvolutionRecord::Problem(
                statement,
                invariants,
                make_constraints(f),
                f.volume,
                level,
                trend_from_str(f.trend.as_str()),
            ),
        ),
    );
    r.push(
        Task::Act(
            "Problem".to_string(),
            ids.problem_entity.clone(),
            "CreateProblem".to_string(),
            problem_params,
        ),
    );
    r.push(
        Task::Act(
            "Problem".to_string(),
            ids.problem_entity.clone(),
            "MarkReviewed".to_string(),
            Json::object(),
        ),
    );
    r.push(
        Task::Store(
            ids.analysis_record.clone(),
            Some(ids.problem_record.clone()),
            EvolutionRecord::Analysis(cause, solution_option(f)),
        ),
    );
    r.push(
        Task::Act(
            "Analysis".to_string(),
            ids.analysis_entity.clone(),
            "CreateAnalysis".to_string(),
            analysis_params,
        ),
    );
    assert(views(r@) =~= spec_change_tasks(q@, tenant@, f@, forms@, ids@));
    r
}

/// The records that are stored for a finding, in order.
pub fn list_records(f: &AgentFinding, ids: &FindingIds) -> (r: Vec<String>)
    ensures
        views(r@) == stored_records(f@, ids@),
{
    let mut r: Vec<String> = Vec::new();
    if f.requires_spec_change {
        r.push(ids.observation_record.clone());
        r.push(ids.problem_record.clone());
        r.push(ids.analysis_record.clone());
    }
    r.push(ids.insight_record.clone());
    assert(views(r@) =~= stored_records(f@, ids@));
    r
}

fn plan_insight(f: &AgentFinding, forms: &FindingForms, ids: &FindingIds) -> (r: Vec<Task>)
    ensures
        views(r@) == insight_tasks(f@, forms@, ids@),
{
    let title = finding_intent_title(f);
    let said = fill(f.intent.as_str(), title.as_str());
    let category = insight_category_for_finding(f);
    let (from, observation) = if f.requires_spec_change {
        (Some(ids.analysis_record.clone()), ids.observation_entity.clone())
    } else {
        (None, "".to_string())
    };
    let params = Json::object().set("observation_id", Json::Text(observation)).set(
        "category",
        Json::of_text(name_category(category)),
    ).set("signal", Json::of_text(said.as_str())).set(
        "recommendation",
        Json::of_text(f.recommendation.as_str()),
    ).set("priority_score", Json::of_text(forms.priority.as_str())).set(
        "legacy_record_id",
        Json::of_text(ids.insight_record.as_str()),
    );
    let mut r: Vec<Task> = Vec::new();
    r.push(
        Task::Store(
            ids.insight_record.clone(),
            from,
            EvolutionRecord::Insight(
                category,
                said,
                f.volume,
                f.success_rate,
                trend_from_str(f.trend.as_str()),
                f.recommendation.clone(),
                f.priority_score,
            ),
        ),
    );
    r.push(
        Task::Announce(
            "Insight".to_string(),
            ids.insight_entity.clone(),
            "CreateInsight".to_string(),
            params,
        ),
    );
    assert(views(r@) =~= insight_tasks(f@, forms@, ids@));
    r
}

fn plan_issue(q: &MaterializeRequest, f: &AgentFinding, ids: &FindingIds) -> (r: Vec<Task>)
    requires
        f.evidence@.wf(),
    ensures
        views(r@) == issue_tasks(q@, f@, ids@),
{
    let records = list_records(f, ids);
    let evidence = render_pretty(&f.evidence);
    let description = describe_issue(q.summary.as_str(), f, evidence.as_str(), &records);
    let list = default_acceptance_criteria(f);
    let level: u64 = issue_priority_level(f.priority_score);
    let fields = Json::object().set("Id", Json::of_text(ids.issue.as_str())).set(
        "Title",
        Json::Text(finding_issue_title(f)),
    ).set("Description", Json::Text(description)).set(
        "AcceptanceCriteria",
        Json::Text(join(&list, "\n")),
    ).set("Priority", Json::Unsigned(level)).set(
        "CreatedAt",
        Json::of_text(ids.now.as_str()),
    ).set("UpdatedAt", Json::of_text(ids.now.as_str()));
    let mut r: Vec<Task> = Vec::new();
    r.push(Task::OpenIssue(ids.issue.clone(), fields));
    r.push(
        Task::MoveIssue(
            ids.issue.clone(),
            "SetPriority".to_string(),
            Json::object().set("level", Json::Unsigned(level)),
        ),
    );
    r.push(Task::MoveIssue(ids.issue.clone(), "MoveToTriage".to_string(), Json::object()));
    r.push(Task::MoveIssue(ids.issue.clone(), "MoveToTodo".to_string(), Json::object()));
    assert(views(r@) =~= issue_tasks(q@, f@, ids@));
    r
}

/// All that is done for a finding, in order.
pub fn plan_finding(
    q: &MaterializeRequest,
    tenant: &str,
    f: &AgentFinding,
    forms: &FindingForms,
    ids: &FindingIds,
) -> (r: Vec<Task>)
    requires
        q.signal_summary@.wf(),
        forms.finding@.wf(),
        f.evidence@.wf(),
    ensures
        views(r@) == finding_tasks(q@, tenant@, f@, forms@, ids@),
{
    let mut r: Vec<Task> = if f.requires_spec_change {
        plan_spec_change(q, tenant, f, forms, ids)
    } else {
        let none: Vec<Task> = Vec::new();
        assert(views(none@) =~= Seq::<TaskView>::empty());
        none
    };
    let ghost a = r@;
    let mut more = plan_insight(f, forms, ids);
    let ghost b = more@;
    r.append(&mut more);
    let mut last = plan_issue(q, f, ids);
    let ghost c = last@;
    r.append(&mut last);
    proof {
        assert(r@ == a + b + c);
        assert(views(r@) =~= views(a) + views(b) + views(c));
    }
    r
}

/// What is reported of a finding.
pub open spec fn finding_report(f: FindingView, ids: IdsView) -> JsonView {
    empty_object().with("title"@, JsonView::Text(issue_title(f))).with(
        "intent_title"@,
        JsonView::Text(intent_title(f)),
    ).with("symptom_title"@, JsonView::Text(symptom_title(f))).with(
        "kind"@,
        JsonView::Text(f.kind),
    ).with("record_ids"@, text_list(stored_records(f, ids))).with(
        "issue_id"@,
        JsonView::Text(ids.issue),
    )
}

fn report_finding(f: &AgentFinding, ids: &FindingIds) -> (r: Json)
    ensures
        r@ == finding_report(f@, ids@),
        r@.wf(),
{
    let records = list_records(f, ids);
    Json::object().set("title", Json::Text(finding_issue_title(f))).set(
        "intent_title",
        Json::Text(finding_intent_title(f)),
    ).set("symptom_title", Json::Text(finding_symptom_title(f))).set(
        "kind",
        Json::of_text(f.kind.as_str()),
    ).set("record_ids", Json::of_texts(&records)).set(
        "issue_id",
        Json::of_text(ids.issue.as_str()),
    )
}

/// The records that are stored for findings.
pub open spec fn all_records(f: Seq<FindingView>, ids: Seq<IdsView>) -> Seq<Seq<char>>
    decreases f.len(),
{
    if f.len() == 0 {
        Seq::empty()
    } else {
        all_records(f.drop_last(), ids.drop_last()) + stored_records(f.last(), ids.last())
    }
}

/// The issues that are opened for findings.
pub open spec fn all_issues(ids: Seq<IdsView>) -> Seq<Seq<char>> {
    Seq::new(ids.len(), |i: int| ids[i].issue)
}

/// The reports of findings.
pub open spec fn all_reports(f: Seq<FindingView>, ids: Seq<IdsView>) -> Seq<JsonView> {
    Seq::new(f.len(), |i: int| finding_report(f[i], ids[i]))
}

/// What is reported once all is done. The tenant that was named counts before
/// the one that the request came from.
pub open spec fn materialize_report(
    q: RequestView,
    tenant: Seq<char>,
    f: Seq<FindingView>,
    ids: Seq<IdsView>,
) -> JsonView {
    let records = all_records(f, ids);
    empty_object().with("intent_discovery_id"@, JsonView::Text(q.intent_discovery_id)).with(
        "tenant"@,
        JsonView::Text(
            match q.tenant {
                Some(t) => t,
                None => tenant,
            },
        ),
    ).with("records_created_count"@, JsonView::Unsigned(records.len() as u64)).with(
        "issues_created_count"@,
        JsonView::Unsigned(ids.len() as u64),
    ).with("record_ids"@, text_list(records)).with("issue_ids"@, text_list(all_issues(ids))).with(
        "findings"@,
        JsonView::List(all_reports(f, ids)),
    )
}

/// What is reported once all is done.
pub fn report_materialized(
    q: &MaterializeRequest,
    tenant: &str,
    findings: &Vec<AgentFinding>,
    ids: &Vec<FindingIds>,
) -> (r: Json)
    requires
        findings@.len() == ids@.len(),
    ensures
        r@ == materialize_report(q@, tenant@, views(findings@), views(ids@)),
{
    let ghost fs = views(findings@);
    let ghost is = views(ids@);
    let mut records: Vec<String> = Vec::new();
    let mut issues: Vec<String> = Vec::new();
    let mut reports: Vec<Json> = Vec::new();
    let mut i: usize = 0;
    assert(fs.take(0) =~= Seq::<FindingView>::empty());
    assert(views(records@) =~= Seq::<Seq<char>>::empty());
    while i < findings.len()
        invariant
            i <= findings@.len(),
            findings@.len() == ids@.len(),
            fs == views(findings@),
            is == views(ids@),
            views(records@) == all_records(fs.take(i as int), is.take(i as int)),
            issues@.len() == i,
            forall|j: int| 0 <= j < i ==> (#[trigger] issues@[j])@ == is[j].issue,
            reports@.len() == i,
            forall|j: int|
                0 <= j < i ==> (#[trigger] reports@[j])@ == finding_report(fs[j], is[j])
                    && reports@[j]@.wf(),
        decreases findings@.len() - i,
    {
        proof {
            crate::order::lemma_take_step(fs, i as int);
            crate::order::lemma_take_step(is, i as int);
            assert(fs[i as int] == findings@[i as int]@);
            assert(is[i as int] == ids@[i as int]@);
        }
        let mut more = list_records(&findings[i], &ids[i]);
        let ghost was = records@;
        let ghost ms = more@;
        records.append(&mut more);
        proof {
            assert(records@ == was + ms);
            assert(views(records@) =~= views(was) + views(ms));
        }
        issues.push(ids[i].issue.clone());
        reports.push(report_finding(&findings[i], &ids[i]));
        i = i + 1;
    }
    proof {
        assert(fs.take(i as int) =~= fs);
        assert(is.take(i as int) =~= is);
        assert(views(issues@) =~= all_issues(is));
        assert(views(reports@) =~= all_reports(fs, is));
    }
    let named = match &q.tenant {
        Some(t) => t.clone(),
        None => tenant.to_string(),
    };
    let stored: usize = records.len();
    let opened: usize = issues.len();
    Json::object().set(
        "intent_discovery_id",
        Json::of_text(q.intent_discovery_id.as_str()),
    ).set("tenant", Json::Text(named)).set(
        "records_created_count",
        Json::Unsigned(stored as u64),
    ).set("issues_created_count", Json::Unsigned(opened as u64)).set(
        "record_ids",
        Json::of_texts(&records),
    ).set("issue_ids", Json::of_texts(&issues)).set("findings", array(reports))
}

/// What the summary of an analysis says, where it says nothing.
pub open spec fn summary_text(summary: Seq<char>) -> Seq<char> {
    filled(summary, "IntentDiscovery produced structured findings."@)
}

/// What the summary of an analysis says, where it says nothing.
pub fn summary_or_default(summary: &str) -> (r: String)
    ensures
        r@ == summary_text(summary@),
{
    fill(summary, "IntentDiscovery produced structured findings.")
}

/// The signals that a discovery started from, in a text that reads as `read`; the
/// empty object where it cannot be read.
pub open spec fn signals(read: Result<JsonView, Seq<char>>) -> JsonView {
    match read {
        Ok(v) => v,
        Err(_) => empty_object(),
    }
}

/// The signals that a discovery started from, from their text.
pub fn read_signal_summary(text: &str) -> (r: Json)
    ensures
        r@ == signals(json_read(text@)),
        r@.wf(),
{
    match parse(text) {
        Ok(v) => v,
        Err(_) => Json::object(),
    }
}

/// What was asked to be materialized, as it comes.
pub struct PayloadView {
    /// The run of discovery.
    pub intent_discovery_id: Seq<char>,
    /// The tenant that was named.
    pub tenant: Option<Seq<char>>,
    /// Why it ran.
    pub reason: Option<Seq<char>>,
    /// Who asked.
    pub source: Option<Seq<char>>,
    /// The signals it started from, in JSON.
    pub signal_summary_json: Seq<char>,
    /// What it came to.
    pub summary: Seq<char>,
}

/// What was asked to be materialized, as it comes.
#[derive(Debug)]
pub struct MaterializePayload {
    /// The run of discovery.
    pub intent_discovery_id: String,
    /// The tenant that was named.
    pub tenant: Option<String>,
    /// Why it ran.
    pub reason: Option<String>,
    /// Who asked.
    pub source: Option<String>,
    /// The signals it started from, in JSON.
    pub signal_summary_json: String,
    /// What it came to.
    pub summary: String,
}

impl View for MaterializePayload {
    type V = PayloadView;

    open spec fn view(&self) -> PayloadView {
        PayloadView {
            intent_discovery_id: self.intent_discovery_id@,
            tenant: opt_view(self.tenant),
            reason: opt_view(self.reason),
            source: opt_view(self.source),
            signal_summary_json: self.signal_summary_json@,
            summary: self.summary@,
        }
    }
}

/// What was asked to be materialized, where the signals read as `read`.
pub open spec fn request_of(p: PayloadView, read: Result<JsonView, Seq<char>>) -> RequestView {
    RequestView {
        intent_discovery_id: p.intent_discovery_id,
        tenant: p.tenant,
        reason: p.reason,
        source: p.source,
        signal_summary: signals(read),
        summary: summary_text(p.summary),
    }
}

/// What was asked to be materialized.
pub fn read_request(p: MaterializePayload) -> (r: MaterializeRequest)
    ensures
        r@ == request_of(p@, json_read(p.signal_summary_json@)),
        r.signal_summary@.wf(),
{
    let signal_summary = read_signal_summary(p.signal_summary_json.as_str());
    let summary = summary_or_default(p.summary.as_str());
    MaterializeRequest {
        intent_discovery_id: p.intent_discovery_id,
        tenant: p.tenant,
        reason: p.reason,
        source: p.source,
        signal_summary,
        summary,
    }
}

/// The record that a task stores.
pub open spec fn stored_by(t: TaskView) -> Option<Seq<char>> {
    match t {
        TaskView::Store(id, _, _) => Some(id),
        _ => None,
    }
}

/// What is stored for a finding derives from nothing, or from what was stored
/// for it before; and nothing is stored after its issue is opened.
pub proof fn lemma_derived_from_earlier(
    q: RequestView,
    tenant: Seq<char>,
    f: FindingView,
    forms: FormsView,
    ids: IdsView,
)
    ensures
        ({
            let t = finding_tasks(q, tenant, f, forms, ids);
            &&& forall|i: int|
                0 <= i < t.len() ==> (#[trigger] t[i] matches TaskView::Store(_, Some(from), _)
                    ==> exists|j: int|
                    0 <= j < i && stored_by(#[trigger] t[j]) == Some(from))
            &&& forall|i: int, j: int|
                #![trigger t[i], t[j]]
                0 <= i < j < t.len() && t[i] is OpenIssue ==> !(t[j] is Store)
        }),
{
    let t = finding_tasks(q, tenant, f, forms, ids);
    let s = spec_change_tasks(q, tenant, f, forms, ids);
    let a = insight_tasks(f, forms, ids);
    let b = issue_tasks(q, f, ids);
    if f.requires_spec_change {
        assert(t.len() == 13);
        assert(t[0] == s[0] && t[2] == s[2] && t[5] == s[5]);
        assert(stored_by(t[0]) == Some(ids.observation_record));
        assert(stored_by(t[2]) == Some(ids.problem_record));
        assert(stored_by(t[5]) == Some(ids.analysis_record));
        assert forall|i: int| 0 <= i < t.len() implies (
        #[trigger] t[i] matches TaskView::Store(_, Some(from), _) ==> exists|j: int|
            0 <= j < i && stored_by(#[trigger] t[j]) == Some(from)) by {
            if i < 7 {
                assert(t[i] == s[i]);
            } else if i < 9 {
                assert(t[i] == a[i - 7]);
            } else {
                assert(t[i] == b[i - 9]);
            }
        }
        assert forall|i: int, j: int|
            #![trigger t[i], t[j]]
            0 <= i < j < t.len() && t[i] is OpenIssue implies !(t[j] is Store) by {
            if i < 7 {
                assert(t[i] == s[i]);
            } else if i < 9 {
                assert(t[i] == a[i - 7]);
            }
            if j >= 9 {
                assert(t[j] == b[j - 9]);
            }
        }
    } else {
        assert(t.len() == 6);
        assert forall|i: int| 0 <= i < t.len() implies (
        #[trigger] t[i] matches TaskView::Store(_, Some(from), _) ==> exists|j: int|
            0 <= j < i && stored_by(#[trigger] t[j]) == Some(from)) by {
            if i < 2 {
                assert(t[i] == a[i]);
            } else {
                assert(t[i] == b[i - 2]);
            }
        }
        assert forall|i: int, j: int|
            #![trigger t[i], t[j]]
            0 <= i < j < t.len() && t[i] is OpenIssue implies !(t[j] is Store) by {
            if i < 2 {
                assert(t[i] == a[i]);
            }
            if j >= 2 {
                assert(t[j] == b[j - 2]);
            }
        }
    }
}

/// The names of the records that tasks store, in order.
pub open spec fn names_stored(t: Seq<TaskView>) -> Seq<Seq<char>>
    decreases t.len(),
{
    if t.len() == 0 {
        Seq::empty()
    } else {
        match stored_by(t[0]) {
            Some(id) => seq![id] + names_stored(t.drop_first()),
            None => names_stored(t.drop_first()),
        }
    }
}

proof fn lemma_names_stored(t: Seq<TaskView>, u: Seq<TaskView>)
    ensures
        names_stored(t + u) == names_stored(t) + names_stored(u),
    decreases t.len(),
{
    if t.len() == 0 {
        assert(t + u =~= u);
        assert(names_stored(t) + names_stored(u) =~= names_stored(u));
    } else {
        assert((t + u).drop_first() =~= t.drop_first() + u);
        lemma_names_stored(t.drop_first(), u);
        assert(names_stored(t + u) =~= names_stored(t) + names_stored(u));
    }
}

proof fn lemma_stores_nothing(t: Seq<TaskView>)
    requires
        forall|i: int| 0 <= i < t.len() ==> stored_by(#[trigger] t[i]) is None,
    ensures
        names_stored(t) == Seq::<Seq<char>>::empty(),
    decreases t.len(),
{
    if t.len() > 0 {
        assert forall|i: int| 0 <= i < t.drop_first().len() implies stored_by(
            #[trigger] t.drop_first()[i],
        ) is None by {
            assert(t.drop_first()[i] == t[i + 1]);
        }
        lemma_stores_nothing(t.drop_first());
    }
}

/// The records that a finding is reported with are those that are stored for it,
/// in the order in which they are stored.
pub proof fn lemma_reports_what_is_stored(
    q: RequestView,
    tenant: Seq<char>,
    f: FindingView,
    forms: FormsView,
    ids: IdsView,
)
    ensures
        names_stored(finding_tasks(q, tenant, f, forms, ids)) == stored_records(f, ids),
{
    let s = spec_change_tasks(q, tenant, f, forms, ids);
    let a = insight_tasks(f, forms, ids);
    let b = issue_tasks(q, f, ids);
    lemma_stores_nothing(b);
    assert(names_stored(a) == seq![ids.insight_record]) by {
        let rest = a.drop_first();
        assert(rest[0] == a[1]);
        lemma_stores_nothing(rest);
        assert(names_stored(a) =~= seq![ids.insight_record]);
    }
    lemma_names_stored(a, b);
    if f.requires_spec_change {
        let x = s.subrange(0, 2);
        let y = s.subrange(2, 5);
        let z = s.subrange(5, 7);
        assert(s =~= x + (y + z));
        assert(names_stored(x) =~= seq![ids.observation_record]) by {
            assert(x[0] == s[0] && x.drop_first()[0] == s[1]);
            lemma_stores_nothing(x.drop_first());
        }
        assert(names_stored(y) =~= seq![ids.problem_record]) by {
            assert(y[0] == s[2] && y.drop_first()[0] == s[3] && y.drop_first()[1] == s[4]);
            lemma_stores_nothing(y.drop_first());
        }
        assert(names_stored(z) =~= seq![ids.analysis_record]) by {
            assert(z[0] == s[5] && z.drop_first()[0] == s[6]);
            lemma_stores_nothing(z.drop_first());
        }
        lemma_names_stored(y, z);
        lemma_names_stored(x, y + z);
        lemma_names_stored(s, a + b);
        lemma_names_stored(s, a);
        lemma_names_stored(s + a, b);
        assert(s + (a + b) =~= s + a + b);
    } else {
        assert(Seq::<TaskView>::empty() + a + b =~= a + b);
        assert(finding_tasks(q, tenant, f, forms, ids) =~= a + b);
    }
    assert(names_stored(finding_tasks(q, tenant, f, forms, ids)) =~= stored_records(f, ids));
}

} // verus!
