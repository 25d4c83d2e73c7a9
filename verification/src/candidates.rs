//! Intent candidates, workaround patterns and abandonment patterns: what the
//! evidence on an intent amounts to.
use vstd::prelude::*;

use crate::evidence::IntentTally;
use crate::evidence::TallyView;
use crate::json::Json;
use crate::json::JsonView;
use crate::keys::arrange;
use crate::keys::has_text;
use crate::order::arranged;
use crate::order::keep;
use crate::order::opt_view;
use crate::order::text_lt;
use crate::order::views;
use crate::text::cat3;
use crate::text::less;
use crate::text::same;
use crate::trajectory::build_logfire_query_hint;
use crate::trajectory::intent_title;
use crate::trajectory::query_hint;
use crate::trajectory::TrajectorySample;

verus! {

/// The kind of gap that a tally suggests. Denials decide where they are as many
/// as the failures in excess of the successes; then detours; then the absence
/// of what was asked for.
pub open spec fn suggested_kind(t: TallyView) -> Seq<char> {
    if t.authz_denials > 0 && t.authz_denials + t.success_count >= t.failure_count {
        "governance_gap"@
    } else if t.workaround_count > 0 {
        "workaround"@
    } else if t.failure_patterns.contains("EntitySetNotFound"@) || t.failure_patterns.contains(
        "ActionNotFound"@,
    ) {
        "missing_capability"@
    } else {
        "friction"@
    }
}

/// Where an intent stands.
pub open spec fn intent_status(t: TallyView) -> Seq<char> {
    if t.failure_count == 0 {
        "resolved"@
    } else if t.workaround_count > 0 {
        "workaround"@
    } else if t.success_count > 0 {
        "mixed"@
    } else {
        "open"@
    }
}

/// What is advised for a gap of that kind.
pub open spec fn advice(kind: Seq<char>, title: Seq<char>) -> Seq<char> {
    if kind == "governance_gap"@ {
        "Align policy with the intended '"@ + title
            + "' workflow and keep the scope limited to the minimum required principals/resources."@
    } else if kind == "workaround"@ {
        "Promote the successful workaround into a first-class capability for '"@ + title
            + "', so users stop relying on alternate action chains."@
    } else if kind == "friction"@ {
        "Collapse the repeated multi-step flow behind '"@ + title
            + "' into a simpler supported path."@
    } else {
        "Add direct product/spec support for '"@ + title + "'."@
    }
}

/// What the problem is, for a gap of that kind.
pub open spec fn problem(kind: Seq<char>, said: Seq<char>) -> Seq<char> {
    if kind == "governance_gap"@ {
        "The intended outcome '"@ + said
            + "' is blocked by repeated authorization denials across the current workflow."@
    } else if kind == "workaround"@ {
        "Users and agents are trying to achieve '"@ + said
            + "' and are only succeeding through alternate action paths rather than a direct capability."@
    } else if kind == "friction"@ {
        "The intended outcome '"@ + said
            + "' is possible, but only after repeated retries or unnecessary extra steps."@
    } else {
        "The intended outcome '"@ + said
            + "' is not directly supported by the current product/spec surface."@
    }
}

/// The first of a list.
pub open spec fn first_of<A>(s: Seq<A>) -> Option<A> {
    if s.len() > 0 {
        Some(s[0])
    } else {
        None
    }
}

/// An intent and what its tally amounts to.
pub struct CandidateView {
    /// All that was seen of the intent.
    pub seen: TallyView,
    /// The kind of gap.
    pub suggested_kind: Seq<char>,
    /// Where the intent stands.
    pub status: Seq<char>,
    /// What is advised.
    pub recommendation: Seq<char>,
    /// What the problem is.
    pub problem_statement: Seq<char>,
    /// Where to look further.
    pub logfire_query_hint: JsonView,
}

/// What a tally amounts to.
pub open spec fn candidate(t: TallyView) -> CandidateView {
    let kind = suggested_kind(t);
    CandidateView {
        seen: t,
        suggested_kind: kind,
        status: intent_status(t),
        recommendation: advice(kind, t.intent_title),
        problem_statement: problem(kind, t.intent_statement),
        logfire_query_hint: query_hint(
            kind,
            first_of(t.entity_types),
            first_of(t.attempted_actions),
            t.sample_intent,
        ),
    }
}

/// An intent that was not met without trouble.
pub struct IntentCandidate {
    /// The key of the intent.
    pub intent_key: String,
    /// Its title.
    pub intent_title: String,
    /// Its statement.
    pub intent_statement: String,
    /// The title of its issue.
    pub recommended_issue_title: String,
    /// What its first entry shows.
    pub symptom_title: String,
    /// The kind of gap.
    pub suggested_kind: String,
    /// Where the intent stands.
    pub status: String,
    /// The entity types, in text order.
    pub entity_types: Vec<String>,
    /// The actions, in text order.
    pub attempted_actions: Vec<String>,
    /// The actions that succeeded, in text order.
    pub successful_actions: Vec<String>,
    /// The patterns of the errors, in text order.
    pub failure_patterns: Vec<String>,
    /// The number of entries.
    pub total_count: u64,
    /// The number of failures.
    pub failure_count: u64,
    /// The number of successes.
    pub success_count: u64,
    /// The number of failures that authorization caused.
    pub authz_denials: u64,
    /// The number of detours.
    pub workaround_count: u64,
    /// The number of actors that gave up.
    pub abandonment_count: u64,
    /// The number of recoveries.
    pub success_after_failure_count: u64,
    /// When it was first seen.
    pub first_seen: String,
    /// When it was last seen.
    pub last_seen: String,
    /// The last thing that a caller said they wanted.
    pub sample_intent: Option<String>,
    /// The last request body.
    pub sample_body: Option<Json>,
    /// The agents, in text order.
    pub sample_agents: Vec<String>,
    /// What is advised.
    pub recommendation: String,
    /// What the problem is.
    pub problem_statement: String,
    /// Where to look further.
    pub logfire_query_hint: Json,
    /// The first entries, in short.
    pub evidence_examples: Vec<TrajectorySample>,
}

impl View for IntentCandidate {
    type V = CandidateView;

    open spec fn view(&self) -> CandidateView {
        CandidateView {
            seen: TallyView {
                intent_key: self.intent_key@,
                intent_title: self.intent_title@,
                intent_statement: self.intent_statement@,
                recommended_issue_title: self.recommended_issue_title@,
                symptom_title: self.symptom_title@,
                entity_types: views(self.entity_types@),
                attempted_actions: views(self.attempted_actions@),
                successful_actions: views(self.successful_actions@),
                failure_patterns: views(self.failure_patterns@),
                sample_intent: opt_view(self.sample_intent),
                sample_body: opt_view(self.sample_body),
                sample_agents: views(self.sample_agents@),
                total_count: self.total_count as nat,
                failure_count: self.failure_count as nat,
                success_count: self.success_count as nat,
                authz_denials: self.authz_denials as nat,
                workaround_count: self.workaround_count as nat,
                abandonment_count: self.abandonment_count as nat,
                success_after_failure_count: self.success_after_failure_count as nat,
                first_seen: self.first_seen@,
                last_seen: self.last_seen@,
                evidence_examples: views(self.evidence_examples@),
            },
            suggested_kind: self.suggested_kind@,
            status: self.status@,
            recommendation: self.recommendation@,
            problem_statement: self.problem_statement@,
            logfire_query_hint: self.logfire_query_hint@,
        }
    }
}

fn kind_of(t: &IntentTally) -> (r: String)
    ensures
        r@ == suggested_kind(t@),
{
    if t.authz_denials > 0 && t.authz_denials >= t.failure_count.saturating_sub(t.success_count) {
        "governance_gap".to_string()
    } else if t.workaround_count > 0 {
        "workaround".to_string()
    } else if has_text(&t.failure_patterns, "EntitySetNotFound") || has_text(
        &t.failure_patterns,
        "ActionNotFound",
    ) {
        "missing_capability".to_string()
    } else {
        "friction".to_string()
    }
}

fn status_of(t: &IntentTally) -> (r: String)
    ensures
        r@ == intent_status(t@),
{
    if t.failure_count == 0 {
        "resolved".to_string()
    } else if t.workaround_count > 0 {
        "workaround".to_string()
    } else if t.success_count > 0 {
        "mixed".to_string()
    } else {
        "open".to_string()
    }
}

fn advise(kind: &str, title: &str) -> (r: String)
    ensures
        r@ == advice(kind@, title@),
{
    if same(kind, "governance_gap") {
        cat3(
            "Align policy with the intended '",
            title,
            "' workflow and keep the scope limited to the minimum required principals/resources.",
        )
    } else if same(kind, "workaround") {
        cat3(
            "Promote the successful workaround into a first-class capability for '",
            title,
            "', so users stop relying on alternate action chains.",
        )
    } else if same(kind, "friction") {
        cat3(
            "Collapse the repeated multi-step flow behind '",
            title,
            "' into a simpler supported path.",
        )
    } else {
        cat3("Add direct product/spec support for '", title, "'.")
    }
}

fn state_problem(kind: &str, said: &str) -> (r: String)
    ensures
        r@ == problem(kind@, said@),
{
    if same(kind, "governance_gap") {
        cat3(
            "The intended outcome '",
            said,
            "' is blocked by repeated authorization denials across the current workflow.",
        )
    } else if same(kind, "workaround") {
        cat3(
            "Users and agents are trying to achieve '",
            said,
            "' and are only succeeding through alternate action paths rather than a direct capability.",
        )
    } else if same(kind, "friction") {
        cat3(
            "The intended outcome '",
            said,
            "' is possible, but only after repeated retries or unnecessary extra steps.",
        )
    } else {
        cat3(
            "The intended outcome '",
            said,
            "' is not directly supported by the current product/spec surface.",
        )
    }
}

/// The first of a list of texts.
pub fn first_text(v: &Vec<String>) -> (r: Option<String>)
    ensures
        opt_view(r) == first_of(views(v@)),
{
    if v.len() > 0 {
        assert(views(v@)[0] == v@[0]@);
        Some(v[0].clone())
    } else {
        None
    }
}

/// What a tally amounts to.
pub fn finalize_intent_candidate(t: IntentTally) -> (r: IntentCandidate)
    ensures
        r@ == candidate(t@),
{
    let kind = kind_of(&t);
    let status = status_of(&t);
    let recommendation = advise(kind.as_str(), t.intent_title.as_str());
    let problem_statement = state_problem(kind.as_str(), t.intent_statement.as_str());
    let hint = build_logfire_query_hint(
        kind.as_str(),
        &first_text(&t.entity_types),
        &first_text(&t.attempted_actions),
        &t.sample_intent,
    );
    IntentCandidate {
        intent_key: t.intent_key,
        intent_title: t.intent_title,
        intent_statement: t.intent_statement,
        recommended_issue_title: t.recommended_issue_title,
        symptom_title: t.symptom_title,
        suggested_kind: kind,
        status,
        entity_types: t.entity_types,
        attempted_actions: t.attempted_actions,
        successful_actions: t.successful_actions,
        failure_patterns: t.failure_patterns,
        total_count: t.total_count,
        failure_count: t.failure_count,
        success_count: t.success_count,
        authz_denials: t.authz_denials,
        workaround_count: t.workaround_count,
        abandonment_count: t.abandonment_count,
        success_after_failure_count: t.success_after_failure_count,
        first_seen: t.first_seen,
        last_seen: t.last_seen,
        sample_intent: t.sample_intent,
        sample_body: t.sample_body,
        sample_agents: t.sample_agents,
        recommendation,
        problem_statement,
        logfire_query_hint: hint,
        evidence_examples: t.evidence_examples,
    }
}

/// `n`, or the largest number of 64 bits where `n` is larger.
pub open spec fn capped(n: nat) -> nat {
    if n <= u64::MAX {
        n
    } else {
        u64::MAX as nat
    }
}

/// The weight of a candidate: each count by its factor.
pub open spec fn weight(t: TallyView) -> nat {
    capped(t.failure_count * 4) + capped(t.workaround_count * 5) + capped(
        t.abandonment_count * 4,
    ) + capped(t.authz_denials * 3) + capped(t.success_after_failure_count * 2)
}

fn times(n: u64, k: u64) -> (r: u128)
    requires
        k <= 5,
    ensures
        r == capped((n * k) as nat),
        r <= u64::MAX,
{
    assert(0 <= n * k <= u64::MAX * 5) by (nonlinear_arith)
        requires
            0 <= n <= u64::MAX,
            0 <= k <= 5,
    ;
    let p: u128 = (n as u128) * (k as u128);
    if p <= u64::MAX as u128 {
        p
    } else {
        u64::MAX as u128
    }
}

fn weigh(c: &IntentCandidate) -> (r: u128)
    ensures
        r == weight(c@.seen),
{
    times(c.failure_count, 4) + times(c.workaround_count, 5) + times(c.abandonment_count, 4)
        + times(c.authz_denials, 3) + times(c.success_after_failure_count, 2)
}

/// The weight of a candidate, where it fits 64 bits.
pub fn score_intent_candidate(candidate: &IntentCandidate) -> (r: u64)
    requires
        weight(candidate@.seen) <= u64::MAX,
    ensures
        r == weight(candidate@.seen),
{
    weigh(candidate) as u64
}

/// The first candidate is listed before the second: it weighs more, or as much
/// and was seen later.
pub open spec fn outweighs() -> spec_fn(CandidateView, CandidateView) -> bool {
    |a: CandidateView, b: CandidateView|
        weight(a.seen) > weight(b.seen) || (weight(a.seen) == weight(b.seen) && text_lt(
            b.seen.last_seen,
            a.seen.last_seen,
        ))
}

/// The candidates, the heaviest first.
pub fn rank_candidates(v: Vec<IntentCandidate>) -> (r: Vec<IntentCandidate>)
    ensures
        views(r@) == arranged(views(v@), outweighs()),
{
    let ghost all = v@;
    let ghost order = |a: IntentCandidate, b: IntentCandidate| outweighs()(a@, b@);
    let before = |a: &IntentCandidate, b: &IntentCandidate| -> (d: bool)
        ensures
            d == order(*a, *b),
        {
            let x: u128 = weigh(a);
            let y: u128 = weigh(b);
            x > y || (x == y && less(b.last_seen.as_str(), a.last_seen.as_str()))
        };
    proof {
        crate::keys::lemma_arranged_views(all, order, outweighs());
    }
    arrange(v, before, Ghost(order))
}

} // verus!
