//! Findings of an analysis agent: how serious they are, what they are called,
//! and the issue that they make.
use vstd::prelude::*;

use crate::insights::InsightCategory;
use crate::insights::Trend;
use crate::json::Json;
use crate::json::JsonView;
use crate::json_text::json_pretty;
use crate::json_text::render_pretty;
use crate::json_text::settled;
use crate::order::views;
use crate::score::Score;
use crate::text::blank;
use crate::text::cat2;
use crate::text::cat3;
use crate::text::cat7;
use crate::text::copy_list;
use crate::text::is_blank;
use crate::text::join;
use crate::text::joined;
use crate::text::lower_text;
use crate::text::lowered;
use crate::text::same;
use crate::text::trim;
use crate::text::trimmed;

verus! {

/// The bit pattern of 0.85.
pub const VERY_HIGH: u64 = 0x3FEB_3333_3333_3333;

/// The bit pattern of 0.65.
pub const HIGH: u64 = 0x3FE4_CCCC_CCCC_CCCD;

/// The bit pattern of 0.4.
pub const MIDDLING: u64 = 0x3FD9_9999_9999_999A;

/// The bit pattern of 0.35.
pub const SLIGHT: u64 = 0x3FD6_6666_6666_6666;

/// How serious a problem is.
#[derive(Clone, Copy, Debug, PartialEq, Eq, Structural)]
pub enum Severity {
    /// It must be dealt with at once.
    Critical,
    /// It is serious.
    High,
    /// It is of some weight.
    Medium,
    /// It is slight.
    Low,
}

/// What a solution puts at risk.
#[derive(Clone, Copy, Debug, PartialEq, Eq, Structural)]
pub enum SolutionRisk {
    /// Nothing.
    Nothing,
    /// Little.
    Low,
    /// Something.
    Medium,
    /// Much.
    High,
}

/// How much work a solution is.
#[derive(Clone, Copy, Debug, PartialEq, Eq, Structural)]
pub enum Complexity {
    /// Little.
    Low,
    /// Some.
    Medium,
    /// Much.
    High,
}

/// What an observation is of.
#[derive(Clone, Copy, Debug, PartialEq, Eq, Structural)]
pub enum ObservationClass {
    /// Authorization refused something.
    AuthzDenied,
    /// The course of actions.
    Trajectory,
}

/// The score is at least the one with that bit pattern.
pub open spec fn reaches(s: Score, bits: u64) -> bool {
    s.ge(Score { bits })
}

/// How serious a problem with that score is.
pub open spec fn severity(s: Score) -> Severity {
    if reaches(s, VERY_HIGH) {
        Severity::Critical
    } else if reaches(s, HIGH) {
        Severity::High
    } else if reaches(s, MIDDLING) {
        Severity::Medium
    } else {
        Severity::Low
    }
}

/// How serious a problem with that score is.
pub fn severity_from_score(score: Score) -> (r: Severity)
    ensures
        r == severity(score),
{
    if score.at_least(Score { bits: VERY_HIGH }) {
        Severity::Critical
    } else if score.at_least(Score { bits: HIGH }) {
        Severity::High
    } else if score.at_least(Score { bits: MIDDLING }) {
        Severity::Medium
    } else {
        Severity::Low
    }
}

/// What a solution for a problem with that score puts at risk.
pub open spec fn solution_risk(s: Score) -> SolutionRisk {
    if reaches(s, VERY_HIGH) {
        SolutionRisk::High
    } else if reaches(s, HIGH) {
        SolutionRisk::Medium
    } else if reaches(s, SLIGHT) {
        SolutionRisk::Low
    } else {
        SolutionRisk::Nothing
    }
}

/// What a solution for a problem with that score puts at risk.
pub fn solution_risk_from_score(score: Score) -> (r: SolutionRisk)
    ensures
        r == solution_risk(score),
{
    if score.at_least(Score { bits: VERY_HIGH }) {
        SolutionRisk::High
    } else if score.at_least(Score { bits: HIGH }) {
        SolutionRisk::Medium
    } else if score.at_least(Score { bits: SLIGHT }) {
        SolutionRisk::Low
    } else {
        SolutionRisk::Nothing
    }
}

/// The priority of the issue for a problem with that score: 1 is the highest.
pub open spec fn priority_level(s: Score) -> u64 {
    if reaches(s, VERY_HIGH) {
        1
    } else if reaches(s, HIGH) {
        2
    } else if reaches(s, MIDDLING) {
        3
    } else {
        4
    }
}

/// The priority of the issue for a problem with that score.
pub fn issue_priority_level(score: Score) -> (r: u64)
    ensures
        r == priority_level(score),
{
    if score.at_least(Score { bits: VERY_HIGH }) {
        1
    } else if score.at_least(Score { bits: HIGH }) {
        2
    } else if score.at_least(Score { bits: MIDDLING }) {
        3
    } else {
        4
    }
}

/// A higher score never makes an issue less urgent, a problem less serious.
pub proof fn lemma_priority_monotone(a: Score, b: Score)
    requires
        a.lt(b),
    ensures
        priority_level(b) <= priority_level(a),
        severity(a) == Severity::Critical ==> severity(b) == Severity::Critical,
        severity(b) == Severity::Low ==> severity(a) == Severity::Low,
{
}

/// A word without white space at its ends, in lower case.
pub open spec fn plain_word(s: Seq<char>) -> Seq<char> {
    lowered(trimmed(s))
}

fn plain(s: &str) -> (r: String)
    ensures
        r@ == plain_word(s@),
{
    let t = trim(s);
    lower_text(t.as_str())
}

/// The trend that a word stands for; what is not known counts as growing.
pub open spec fn trend(s: Seq<char>) -> Trend {
    if plain_word(s) == "declining"@ {
        Trend::Declining
    } else if plain_word(s) == "stable"@ {
        Trend::Stable
    } else {
        Trend::Growing
    }
}

/// The trend that a word stands for.
pub fn trend_from_str(value: &str) -> (r: Trend)
    ensures
        r == trend(value@),
{
    let w = plain(value);
    if same(w.as_str(), "declining") {
        Trend::Declining
    } else if same(w.as_str(), "stable") {
        Trend::Stable
    } else {
        Trend::Growing
    }
}

/// A finding of an analysis agent.
pub struct AgentFinding {
    /// The kind of gap.
    pub kind: String,
    /// Its title.
    pub title: String,
    /// What shows from outside.
    pub symptom_title: String,
    /// The title of the intent.
    pub intent_title: String,
    /// The title for its issue.
    pub recommended_issue_title: String,
    /// The intent.
    pub intent: String,
    /// What is advised.
    pub recommendation: String,
    /// Its priority.
    pub priority_score: Score,
    /// How often it was seen.
    pub volume: u64,
    /// The share of successes.
    pub success_rate: Score,
    /// Where the volume is heading.
    pub trend: String,
    /// Whether a spec has to change.
    pub requires_spec_change: bool,
    /// What the problem is.
    pub problem_statement: String,
    /// Where it comes from.
    pub root_cause: String,
    /// How the spec would change.
    pub spec_diff: String,
    /// When it counts as solved.
    pub acceptance_criteria: Vec<String>,
    /// What tells it from others.
    pub dedupe_key: String,
    /// What it rests on.
    pub evidence: Json,
}

/// A finding of an analysis agent.
pub struct FindingView {
    /// The kind of gap.
    pub kind: Seq<char>,
    /// Its title.
    pub title: Seq<char>,
    /// What shows from outside.
    pub symptom_title: Seq<char>,
    /// The title of the intent.
    pub intent_title: Seq<char>,
    /// The title for its issue.
    pub recommended_issue_title: Seq<char>,
    /// The intent.
    pub intent: Seq<char>,
    /// What is advised.
    pub recommendation: Seq<char>,
    /// Its priority.
    pub priority_score: Score,
    /// How often it was seen.
    pub volume: u64,
    /// The share of successes.
    pub success_rate: Score,
    /// Where the volume is heading.
    pub trend: Seq<char>,
    /// Whether a spec has to change.
    pub requires_spec_change: bool,
    /// What the problem is.
    pub problem_statement: Seq<char>,
    /// Where it comes from.
    pub root_cause: Seq<char>,
    /// How the spec would change.
    pub spec_diff: Seq<char>,
    /// When it counts as solved.
    pub acceptance_criteria: Seq<Seq<char>>,
    /// What tells it from others.
    pub dedupe_key: Seq<char>,
    /// What it rests on.
    pub evidence: JsonView,
}

impl View for AgentFinding {
    type V = FindingView;

    open spec fn view(&self) -> FindingView {
        FindingView {
            kind: self.kind@,
            title: self.title@,
            symptom_title: self.symptom_title@,
            intent_title: self.intent_title@,
            recommended_issue_title: self.recommended_issue_title@,
            intent: self.intent@,
            recommendation: self.recommendation@,
            priority_score: self.priority_score,
            volume: self.volume,
            success_rate: self.success_rate,
            trend: self.trend@,
            requires_spec_change: self.requires_spec_change,
            problem_statement: self.problem_statement@,
            root_cause: self.root_cause@,
            spec_diff: self.spec_diff@,
            acceptance_criteria: views(self.acceptance_criteria@),
            dedupe_key: self.dedupe_key@,
            evidence: self.evidence@,
        }
    }
}

/// A finding that says nothing.
pub open spec fn empty_finding() -> FindingView {
    FindingView {
        kind: ""@,
        title: ""@,
        symptom_title: ""@,
        intent_title: ""@,
        recommended_issue_title: ""@,
        intent: ""@,
        recommendation: ""@,
        priority_score: Score { bits: 0 },
        volume: 0,
        success_rate: Score { bits: 0 },
        trend: ""@,
        requires_spec_change: false,
        problem_statement: ""@,
        root_cause: ""@,
        spec_diff: ""@,
        acceptance_criteria: Seq::empty(),
        dedupe_key: ""@,
        evidence: JsonView::Null,
    }
}

impl Default for AgentFinding {
    fn default() -> (r: AgentFinding)
        ensures
            r@ == empty_finding(),
    {
        let criteria: Vec<String> = Vec::new();
        assert(views(criteria@) =~= Seq::empty());
        AgentFinding {
            kind: "".to_string(),
            title: "".to_string(),
            symptom_title: "".to_string(),
            intent_title: "".to_string(),
            recommended_issue_title: "".to_string(),
            intent: "".to_string(),
            recommendation: "".to_string(),
            priority_score: Score { bits: 0 },
            volume: 0,
            success_rate: Score { bits: 0 },
            trend: "".to_string(),
            requires_spec_change: false,
            problem_statement: "".to_string(),
            root_cause: "".to_string(),
            spec_diff: "".to_string(),
            acceptance_criteria: criteria,
            dedupe_key: "".to_string(),
            evidence: Json::Null,
        }
    }
}

/// How much work a finding is.
pub open spec fn complexity(f: FindingView) -> Complexity {
    if plain_word(f.kind) == "friction"@ || plain_word(f.kind) == "governance_gap"@ {
        Complexity::Low
    } else {
        Complexity::Medium
    }
}

/// How much work a finding is.
pub fn complexity_from_finding(f: &AgentFinding) -> (r: Complexity)
    ensures
        r == complexity(f@),
{
    let kind = plain(f.kind.as_str());
    if same(kind.as_str(), "friction") || same(kind.as_str(), "governance_gap") {
        Complexity::Low
    } else {
        Complexity::Medium
    }
}

/// What the observation behind a finding is of.
pub open spec fn observation_class(f: FindingView) -> ObservationClass {
    if plain_word(f.kind) == "governance_gap"@ {
        ObservationClass::AuthzDenied
    } else {
        ObservationClass::Trajectory
    }
}

/// What the observation behind a finding is of.
pub fn observation_class_for_finding(f: &AgentFinding) -> (r: ObservationClass)
    ensures
        r == observation_class(f@),
{
    let kind = plain(f.kind.as_str());
    if same(kind.as_str(), "governance_gap") {
        ObservationClass::AuthzDenied
    } else {
        ObservationClass::Trajectory
    }
}

/// What the insight from a finding is about.
pub open spec fn finding_category(f: FindingView) -> InsightCategory {
    let kind = plain_word(f.kind);
    if kind == "friction"@ {
        InsightCategory::Friction
    } else if kind == "workaround"@ {
        InsightCategory::Workaround
    } else if kind == "governance_gap"@ {
        InsightCategory::PlatformGap
    } else {
        InsightCategory::UnmetIntent
    }
}

/// What the insight from a finding is about.
pub fn insight_category_for_finding(f: &AgentFinding) -> (r: InsightCategory)
    ensures
        r == finding_category(f@),
{
    let kind = plain(f.kind.as_str());
    if same(kind.as_str(), "friction") {
        InsightCategory::Friction
    } else if same(kind.as_str(), "workaround") {
        InsightCategory::Workaround
    } else if same(kind.as_str(), "governance_gap") {
        InsightCategory::PlatformGap
    } else {
        InsightCategory::UnmetIntent
    }
}

/// The first of the texts that is not blank, without white space at its ends; the
/// fallback where all are.
pub open spec fn preferred(candidates: Seq<Seq<char>>, fallback: Seq<char>) -> Seq<char>
    decreases candidates.len(),
{
    if candidates.len() == 0 {
        fallback
    } else if blank(candidates[0]) {
        preferred(candidates.drop_first(), fallback)
    } else {
        trimmed(candidates[0])
    }
}

/// The texts behind references.
pub open spec fn str_views(s: Seq<&str>) -> Seq<Seq<char>> {
    Seq::new(s.len(), |i: int| s[i]@)
}

/// The first of the texts that is not blank.
pub fn preferred_title(candidates: &Vec<&str>, fallback: &str) -> (r: String)
    ensures
        r@ == preferred(str_views(candidates@), fallback@),
{
    let ghost all = str_views(candidates@);
    let mut i: usize = 0;
    assert(all.skip(0) =~= all);
    while i < candidates.len()
        invariant
            i <= candidates@.len(),
            all == str_views(candidates@),
            preferred(all, fallback@) == preferred(all.skip(i as int), fallback@),
        decreases candidates@.len() - i,
    {
        assert(all.skip(i as int)[0] == candidates@[i as int]@);
        assert(all.skip(i as int).drop_first() =~= all.skip(i + 1));
        if !is_blank(candidates[i]) {
            return trim(candidates[i]);
        }
        i = i + 1;
    }
    fallback.to_string()
}

/// What shows of a finding from outside, as a title.
pub open spec fn symptom_title(f: FindingView) -> Seq<char> {
    preferred(
        seq![f.symptom_title, f.title, f.problem_statement],
        "Observed workflow symptom"@,
    )
}

/// The intent behind a finding, as a title.
pub open spec fn intent_title(f: FindingView) -> Seq<char> {
    preferred(seq![f.intent_title, f.intent, f.title], "Enable unmet intent"@)
}

/// The title of the issue for a finding. What is shaped by the intent comes
/// before what is shaped by the symptom.
pub open spec fn issue_title(f: FindingView) -> Seq<char> {
    preferred(
        seq![f.recommended_issue_title, f.intent_title, f.title, f.intent, f.symptom_title],
        "Investigate unmet intent"@,
    )
}

/// What shows of a finding from outside, as a title.
pub fn finding_symptom_title(f: &AgentFinding) -> (r: String)
    ensures
        r@ == symptom_title(f@),
{
    let mut v: Vec<&str> = Vec::new();
    v.push(f.symptom_title.as_str());
    v.push(f.title.as_str());
    v.push(f.problem_statement.as_str());
    assert(str_views(v@) =~= seq![f@.symptom_title, f@.title, f@.problem_statement]);
    preferred_title(&v, "Observed workflow symptom")
}

/// The intent behind a finding, as a title.
pub fn finding_intent_title(f: &AgentFinding) -> (r: String)
    ensures
        r@ == intent_title(f@),
{
    let mut v: Vec<&str> = Vec::new();
    v.push(f.intent_title.as_str());
    v.push(f.intent.as_str());
    v.push(f.title.as_str());
    assert(str_views(v@) =~= seq![f@.intent_title, f@.intent, f@.title]);
    preferred_title(&v, "Enable unmet intent")
}

/// The title of the issue for a finding.
pub fn finding_issue_title(f: &AgentFinding) -> (r: String)
    ensures
        r@ == issue_title(f@),
{
    let mut v: Vec<&str> = Vec::new();
    v.push(f.recommended_issue_title.as_str());
    v.push(f.intent_title.as_str());
    v.push(f.title.as_str());
    v.push(f.intent.as_str());
    v.push(f.symptom_title.as_str());
    assert(str_views(v@) =~= seq![
        f@.recommended_issue_title,
        f@.intent_title,
        f@.title,
        f@.intent,
        f@.symptom_title,
    ]);
    preferred_title(&v, "Investigate unmet intent")
}

/// When a finding counts as solved: by its own criteria, or by two that always
/// hold.
pub open spec fn criteria(f: FindingView) -> Seq<Seq<char>> {
    if f.acceptance_criteria.len() > 0 {
        f.acceptance_criteria
    } else {
        seq![
            "Agents can complete '"@ + issue_title(f) + "' without the current failure mode."@,
            "Observe metrics show improved completion for the affected workflow."@,
        ]
    }
}

/// When a finding counts as solved.
pub fn default_acceptance_criteria(f: &AgentFinding) -> (r: Vec<String>)
    ensures
        views(r@) == criteria(f@),
{
    if f.acceptance_criteria.len() > 0 {
        return copy_list(&f.acceptance_criteria);
    }
    let title = finding_issue_title(f);
    let mut r: Vec<String> = Vec::new();
    r.push(
        cat3(
            "Agents can complete '",
            title.as_str(),
            "' without the current failure mode.",
        ),
    );
    r.push("Observe metrics show improved completion for the affected workflow.".to_string());
    assert(views(r@) =~= criteria(f@));
    r
}

/// The text, or the other one where it is empty.
pub open spec fn filled(t: Seq<char>, otherwise: Seq<char>) -> Seq<char> {
    if t.len() == 0 {
        otherwise
    } else {
        t
    }
}

/// The text, or the other one where it is empty.
pub fn fill(t: &str, otherwise: &str) -> (r: String)
    ensures
        r@ == filled(t@, otherwise@),
{
    if t.is_empty() {
        otherwise.to_string()
    } else {
        t.to_string()
    }
}

/// Each text with a dash before it.
pub open spec fn dashed(s: Seq<Seq<char>>) -> Seq<Seq<char>> {
    Seq::new(s.len(), |i: int| "- "@ + s[i])
}

fn dash(v: &Vec<String>) -> (r: Vec<String>)
    ensures
        views(r@) == dashed(views(v@)),
{
    let mut r: Vec<String> = Vec::new();
    let mut i: usize = 0;
    while i < v.len()
        invariant
            i <= v@.len(),
            r@.len() == i,
            forall|j: int| 0 <= j < i ==> (#[trigger] r@[j])@ == "- "@ + v@[j]@,
        decreases v@.len() - i,
    {
        r.push(cat2("- ", v[i].as_str()));
        i = i + 1;
    }
    assert(views(r@) =~= dashed(views(v@)));
    r
}

/// The evidence in indented JSON.
pub open spec fn evidence_text(v: JsonView) -> Seq<char> {
    match json_pretty(settled(v)) {
        Some(t) => t,
        None => "{}"@,
    }
}

/// The description of the issue for a finding, with its evidence as text.
pub open spec fn description_with(
    summary: Seq<char>,
    f: FindingView,
    evidence: Seq<char>,
    record_ids: Seq<Seq<char>>,
) -> Seq<char> {
    ("Summary:\n"@ + summary + "\n\nIntent Title:\n"@ + intent_title(f)
        + "\n\nObserved Symptom:\n"@ + symptom_title(f) + "\n\nIntent:\n"@) + (filled(
        f.intent,
        "No explicit intent supplied."@,
    ) + "\n\nRecommendation:\n"@ + f.recommendation + "\n\nProblem Statement:\n"@ + filled(
        f.problem_statement,
        "No formal problem statement supplied."@,
    ) + "\n\nRoot Cause:\n"@ + filled(f.root_cause, "No root cause supplied."@)) + (
    "\n\nSpec Diff:\n"@ + filled(f.spec_diff, "No spec diff supplied."@)
        + "\n\nAcceptance Criteria:\n"@ + joined(dashed(criteria(f)), "\n"@)
        + "\n\nEvidence:\n"@ + evidence + "\n\nEvolution Records:\n"@) + joined(
        record_ids,
        ", "@,
    )
}

/// The description of the issue for a finding, with its evidence as text.
pub fn describe_issue(
    summary: &str,
    f: &AgentFinding,
    evidence: &str,
    record_ids: &Vec<String>,
) -> (r: String)
    ensures
        r@ == description_with(summary@, f@, evidence@, views(record_ids@)),
{
    let intent = finding_intent_title(f);
    let symptom = finding_symptom_title(f);
    let a = cat7(
        "Summary:\n",
        summary,
        "\n\nIntent Title:\n",
        intent.as_str(),
        "\n\nObserved Symptom:\n",
        symptom.as_str(),
        "\n\nIntent:\n",
    );
    let said = fill(f.intent.as_str(), "No explicit intent supplied.");
    let statement = fill(f.problem_statement.as_str(), "No formal problem statement supplied.");
    let cause = fill(f.root_cause.as_str(), "No root cause supplied.");
    let b = cat7(
        said.as_str(),
        "\n\nRecommendation:\n",
        f.recommendation.as_str(),
        "\n\nProblem Statement:\n",
        statement.as_str(),
        "\n\nRoot Cause:\n",
        cause.as_str(),
    );
    let diff = fill(f.spec_diff.as_str(), "No spec diff supplied.");
    let list = default_acceptance_criteria(f);
    let list = dash(&list);
    let list = join(&list, "\n");
    let c = cat7(
        "\n\nSpec Diff:\n",
        diff.as_str(),
        "\n\nAcceptance Criteria:\n",
        list.as_str(),
        "\n\nEvidence:\n",
        evidence,
        "\n\nEvolution Records:\n",
    );
    let records = join(record_ids, ", ");
    crate::text::cat4(a.as_str(), b.as_str(), c.as_str(), records.as_str())
}

/// The description of the issue for a finding.
pub fn build_issue_description(
    summary: &str,
    f: &AgentFinding,
    record_ids: &Vec<String>,
) -> (r: String)
    requires
        f.evidence@.wf(),
    ensures
        r@ == description_with(summary@, f@, evidence_text(f.evidence@), views(record_ids@)),
{
    let evidence = render_pretty(&f.evidence);
    describe_issue(summary, f, evidence.as_str(), record_ids)
}

} // verus!
