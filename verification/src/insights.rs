//! Insights: what the volume and the outcome of each action say about the
//! platform.
use vstd::prelude::*;

use crate::keys::arrange;
use crate::keys::sorted_pairs;
use crate::order::arranged;
use crate::order::keep;
use crate::order::lemma_take_step;
use crate::order::sorted_keys;
use crate::order::views;
use crate::score::Score;
use crate::score::HALF;
use crate::score::TENTH;
use crate::text::cat3;
use crate::text::cat4;
use crate::text::cat5;
use crate::text::cat7;
use crate::text::decimal;
use crate::text::decimal_text;
use crate::text::same;
use crate::trajectory::is_missing_set;
use crate::trajectory::names_missing_set;
use crate::trajectory::EntryView;
use crate::trajectory::TrajectoryEntry;

verus! {

/// What an insight is about.
#[derive(Clone, Copy, Debug, PartialEq, Eq, Structural)]
pub enum InsightCategory {
    /// Something is wanted and not there.
    UnmetIntent,
    /// Something is harder than it need be.
    Friction,
    /// Something is reached by a detour.
    Workaround,
    /// The platform lacks something.
    PlatformGap,
}

/// Where a volume is heading.
#[derive(Clone, Copy, Debug, PartialEq, Eq, Structural)]
pub enum Trend {
    /// Upwards.
    Growing,
    /// Nowhere.
    Stable,
    /// Downwards.
    Declining,
}

/// The figures behind an insight.
pub struct SignalView {
    /// What is attempted.
    pub intent: Seq<char>,
    /// How often.
    pub volume: nat,
    /// How often with success.
    pub successes: nat,
    /// Where the volume is heading.
    pub trend: Trend,
}

/// The figures behind an insight.
pub struct InsightSignal {
    /// What is attempted.
    pub intent: String,
    /// How often.
    pub volume: u64,
    /// How often with success.
    pub successes: u64,
    /// Where the volume is heading.
    pub trend: Trend,
}

impl View for InsightSignal {
    type V = SignalView;

    open spec fn view(&self) -> SignalView {
        SignalView {
            intent: self.intent@,
            volume: self.volume as nat,
            successes: self.successes as nat,
            trend: self.trend,
        }
    }
}

/// How a signal is judged.
pub struct AssessmentView {
    /// Its priority.
    pub priority: Score,
    /// What it is about.
    pub category: InsightCategory,
    /// The share of failures, in percent.
    pub failure_percent: Seq<char>,
    /// The share of successes, in percent.
    pub success_percent: Seq<char>,
}

/// How a signal is judged.
pub struct Assessment {
    /// Its priority.
    pub priority: Score,
    /// What it is about.
    pub category: InsightCategory,
    /// The share of failures, in percent.
    pub failure_percent: String,
    /// The share of successes, in percent.
    pub success_percent: String,
}

impl View for Assessment {
    type V = AssessmentView;

    open spec fn view(&self) -> AssessmentView {
        AssessmentView {
            priority: self.priority,
            category: self.category,
            failure_percent: self.failure_percent@,
            success_percent: self.success_percent@,
        }
    }
}

/// Why an action on an entity type stands out.
#[derive(Clone, Copy, Debug, PartialEq, Eq, Structural)]
pub enum Reason {
    /// The entity type does not exist.
    Missing,
    /// The entity type did not exist, and a spec for it was submitted.
    Submitted,
    /// Authorization refuses it often.
    Denied,
    /// By its figures alone.
    Figures,
}

/// An action on an entity type, before it is judged.
pub struct DraftView {
    /// The type of the entity.
    pub entity_type: Seq<char>,
    /// The action.
    pub action: Seq<char>,
    /// Why it stands out.
    pub reason: Reason,
    /// Its figures.
    pub signal: SignalView,
}

/// An action on an entity type, before it is judged.
pub struct InsightDraft {
    /// The type of the entity.
    pub entity_type: String,
    /// The action.
    pub action: String,
    /// Why it stands out.
    pub reason: Reason,
    /// Its figures.
    pub signal: InsightSignal,
}

impl View for InsightDraft {
    type V = DraftView;

    open spec fn view(&self) -> DraftView {
        DraftView {
            entity_type: self.entity_type@,
            action: self.action@,
            reason: self.reason,
            signal: self.signal@,
        }
    }
}

/// The entity type and the action of each entry.
pub open spec fn attempts(s: Seq<EntryView>) -> Seq<(Seq<char>, Seq<char>)> {
    Seq::new(s.len(), |i: int| (s[i].entity_type, s[i].action))
}

/// The test for entries of one action on one entity type.
pub open spec fn attempting(p: (Seq<char>, Seq<char>)) -> spec_fn(EntryView) -> bool {
    |e: EntryView| e.entity_type == p.0 && e.action == p.1
}

/// The test for success.
pub open spec fn well() -> spec_fn(EntryView) -> bool {
    |e: EntryView| e.success
}

/// The test for entries that authorization refused.
pub open spec fn refused() -> spec_fn(EntryView) -> bool {
    |e: EntryView| e.authz_denied == Some(true)
}

/// The entry says that an entity set does not exist.
pub open spec fn lacks_set(e: EntryView) -> bool {
    match e.error {
        Some(t) => names_missing_set(t),
        None => false,
    }
}

/// The test for entries that say that an entity set does not exist.
pub open spec fn lacking() -> spec_fn(EntryView) -> bool {
    |e: EntryView| lacks_set(e)
}

/// The test for submissions of a spec for an entity type.
pub open spec fn submitting(entity_type: Seq<char>) -> spec_fn(EntryView) -> bool {
    |e: EntryView| e.entity_type == entity_type && e.action == "SubmitSpec"@
}

/// Why an action on an entity type stands out among the entries `s`, of which
/// `m` are its own: its type is missing, or more than three in ten attempts are
/// refused.
pub open spec fn reason(s: Seq<EntryView>, m: Seq<EntryView>, entity_type: Seq<char>) -> Reason {
    if keep(m, lacking()).len() > 0 {
        if keep(s, submitting(entity_type)).len() > 0 {
            Reason::Submitted
        } else {
            Reason::Missing
        }
    } else if 10 * keep(m, refused()).len() > 3 * m.len() {
        Reason::Denied
    } else {
        Reason::Figures
    }
}

/// What is attempted, in words.
pub open spec fn attempt_title(
    reason: Reason,
    entity_type: Seq<char>,
    action: Seq<char>,
    refusals: nat,
) -> Seq<char> {
    match reason {
        Reason::Submitted => "Entity type '"@ + entity_type + "' — "@
            + "spec submitted (resolved)"@,
        Reason::Missing => "Entity type '"@ + entity_type + "' — "@
            + "entity type not found (open unmet intent)"@,
        Reason::Denied => "Action '"@ + action + "' on '"@ + entity_type + "' denied "@ + decimal(
            refusals,
        ) + " times"@,
        Reason::Figures => entity_type + "."@ + action,
    }
}

/// The draft for one action on one entity type.
pub open spec fn draft(s: Seq<EntryView>, p: (Seq<char>, Seq<char>)) -> DraftView {
    let m = keep(s, attempting(p));
    let why = reason(s, m, p.0);
    DraftView {
        entity_type: p.0,
        action: p.1,
        reason: why,
        signal: SignalView {
            intent: attempt_title(why, p.0, p.1, keep(m, refused()).len()),
            volume: m.len(),
            successes: keep(m, well()).len(),
            trend: Trend::Stable,
        },
    }
}

/// The drafts for those of the given actions that occur more than once.
pub open spec fn drafts_among(
    s: Seq<EntryView>,
    of: Seq<(Seq<char>, Seq<char>)>,
) -> Seq<DraftView>
    decreases of.len(),
{
    if of.len() == 0 {
        Seq::empty()
    } else {
        let rest = drafts_among(s, of.drop_last());
        if keep(s, attempting(of.last())).len() >= 2 {
            rest.push(draft(s, of.last()))
        } else {
            rest
        }
    }
}

/// The drafts for all actions that occur more than once, by entity type, then by
/// action.
pub open spec fn drafts(s: Seq<EntryView>) -> Seq<DraftView> {
    drafts_among(s, sorted_keys(attempts(s)))
}

fn attempts_of<'a>(
    entries: &'a Vec<TrajectoryEntry>,
    p: &(String, String),
) -> (r: Vec<&'a TrajectoryEntry>)
    ensures
        views(r@) == keep(views(entries@), attempting(p@)),
{
    let ghost all = views(entries@);
    let mut r: Vec<&'a TrajectoryEntry> = Vec::new();
    let mut i: usize = 0;
    assert(all.take(0) =~= Seq::<EntryView>::empty());
    assert(views(r@) =~= Seq::<EntryView>::empty());
    while i < entries.len()
        invariant
            i <= entries@.len(),
            all == views(entries@),
            views(r@) == keep(all.take(i as int), attempting(p@)),
        decreases entries@.len() - i,
    {
        proof {
            lemma_take_step(all, i as int);
            assert(all[i as int] == entries@[i as int]@);
        }
        if same(entries[i].entity_type.as_str(), p.0.as_str()) && same(
            entries[i].action.as_str(),
            p.1.as_str(),
        ) {
            let ghost was = views(r@);
            r.push(&entries[i]);
            assert(views(r@) =~= was.push(all[i as int]));
        }
        i = i + 1;
    }
    assert(all.take(i as int) =~= all);
    r
}

fn is_submitted(entries: &Vec<TrajectoryEntry>, entity_type: &str) -> (r: bool)
    ensures
        r == (keep(views(entries@), submitting(entity_type@)).len() > 0),
{
    let ghost all = views(entries@);
    let mut found = false;
    let mut i: usize = 0;
    assert(all.take(0) =~= Seq::<EntryView>::empty());
    while i < entries.len()
        invariant
            i <= entries@.len(),
            all == views(entries@),
            found == (keep(all.take(i as int), submitting(entity_type@)).len() > 0),
        decreases entries@.len() - i,
    {
        proof {
            lemma_take_step(all, i as int);
            assert(all[i as int] == entries@[i as int]@);
        }
        if same(entries[i].entity_type.as_str(), entity_type) && same(
            entries[i].action.as_str(),
            "SubmitSpec",
        ) {
            found = true;
        }
        i = i + 1;
    }
    assert(all.take(i as int) =~= all);
    found
}

/// The successes, the refusals and the reports of a missing entity set.
fn count_outcomes(m: &Vec<&TrajectoryEntry>) -> (r: (u64, u64, u64))
    ensures
        r.0 == keep(views(m@), well()).len(),
        r.1 == keep(views(m@), refused()).len(),
        r.2 == keep(views(m@), lacking()).len(),
{
    let ghost all = views(m@);
    let mut good: u64 = 0;
    let mut denied: u64 = 0;
    let mut missing: u64 = 0;
    let mut i: usize = 0;
    assert(all.take(0) =~= Seq::<EntryView>::empty());
    while i < m.len()
        invariant
            i <= m@.len(),
            all == views(m@),
            good <= i,
            denied <= i,
            missing <= i,
            good == keep(all.take(i as int), well()).len(),
            denied == keep(all.take(i as int), refused()).len(),
            missing == keep(all.take(i as int), lacking()).len(),
        decreases m@.len() - i,
    {
        proof {
            lemma_take_step(all, i as int);
            assert(all[i as int] == m@[i as int]@);
        }
        if m[i].success {
            good = good + 1;
        }
        if let Some(d) = m[i].authz_denied {
            if d {
                denied = denied + 1;
            }
        }
        if let Some(e) = &m[i].error {
            if is_missing_set(e.as_str()) {
                missing = missing + 1;
            }
        }
        i = i + 1;
    }
    assert(all.take(i as int) =~= all);
    (good, denied, missing)
}

fn title_attempt(reason: Reason, entity_type: &str, action: &str, refusals: u64) -> (r: String)
    ensures
        r@ == attempt_title(reason, entity_type@, action@, refusals as nat),
{
    match reason {
        Reason::Submitted => cat4(
            "Entity type '",
            entity_type,
            "' — ",
            "spec submitted (resolved)",
        ),
        Reason::Missing => cat4(
            "Entity type '",
            entity_type,
            "' — ",
            "entity type not found (open unmet intent)",
        ),
        Reason::Denied => {
            let n = decimal_text(refusals);
            cat7("Action '", action, "' on '", entity_type, "' denied ", n.as_str(), " times")
        },
        Reason::Figures => cat3(entity_type, ".", action),
    }
}

/// The drafts for all actions that occur more than once, by entity type, then by
/// action.
pub fn draft_insights(entries: &Vec<TrajectoryEntry>) -> (r: Vec<InsightDraft>)
    ensures
        views(r@) == drafts(views(entries@)),
{
    let ghost s = views(entries@);
    let mut pairs: Vec<(String, String)> = Vec::new();
    let mut i: usize = 0;
    while i < entries.len()
        invariant
            i <= entries@.len(),
            pairs@.len() == i,
            forall|j: int|
                0 <= j < i ==> (#[trigger] pairs@[j])@ == (
                    entries@[j]@.entity_type,
                    entries@[j]@.action,
                ),
        decreases entries@.len() - i,
    {
        pairs.push((entries[i].entity_type.clone(), entries[i].action.clone()));
        i = i + 1;
    }
    assert(views(pairs@) =~= attempts(s));
    let of = sorted_pairs(&pairs);
    let ghost ofs = views(of@);
    let mut r: Vec<InsightDraft> = Vec::new();
    let mut i: usize = 0;
    assert(ofs.take(0) =~= Seq::<(Seq<char>, Seq<char>)>::empty());
    assert(views(r@) =~= Seq::<DraftView>::empty());
    while i < of.len()
        invariant
            i <= of@.len(),
            s == views(entries@),
            ofs == views(of@),
            views(r@) == drafts_among(s, ofs.take(i as int)),
        decreases of@.len() - i,
    {
        proof {
            lemma_take_step(ofs, i as int);
            assert(ofs[i as int] == of@[i as int]@);
        }
        let m = attempts_of(entries, &of[i]);
        if m.len() >= 2 {
            let (good, denied, missing) = count_outcomes(&m);
            let total: u64 = m.len() as u64;
            let why = if missing > 0 {
                if is_submitted(entries, of[i].0.as_str()) {
                    Reason::Submitted
                } else {
                    Reason::Missing
                }
            } else if 10 * (denied as u128) > 3 * (total as u128) {
                Reason::Denied
            } else {
                Reason::Figures
            };
            let ghost was = views(r@);
            let made = InsightDraft {
                entity_type: of[i].0.clone(),
                action: of[i].1.clone(),
                reason: why,
                signal: InsightSignal {
                    intent: title_attempt(why, of[i].0.as_str(), of[i].1.as_str(), denied),
                    volume: total,
                    successes: good,
                    trend: Trend::Stable,
                },
            };
            assert(made@ == draft(s, ofs[i as int]));
            r.push(made);
            assert(views(r@) =~= was.push(draft(s, ofs[i as int])));
        }
        i = i + 1;
    }
    assert(ofs.take(i as int) =~= ofs);
    r
}

/// An insight.
pub struct InsightView {
    /// What it is about.
    pub category: InsightCategory,
    /// The figures behind it.
    pub signal: SignalView,
    /// What is advised.
    pub recommendation: Seq<char>,
    /// Its priority.
    pub priority_score: Score,
}

/// An insight.
pub struct InsightRecord {
    /// What it is about.
    pub category: InsightCategory,
    /// The figures behind it.
    pub signal: InsightSignal,
    /// What is advised.
    pub recommendation: String,
    /// Its priority.
    pub priority_score: Score,
}

impl View for InsightRecord {
    type V = InsightView;

    open spec fn view(&self) -> InsightView {
        InsightView {
            category: self.category,
            signal: self.signal@,
            recommendation: self.recommendation@,
            priority_score: self.priority_score,
        }
    }
}

/// What is advised for a judged draft.
pub open spec fn advice(d: DraftView, a: AssessmentView) -> Seq<char> {
    match d.reason {
        Reason::Submitted => "Spec for '"@ + d.entity_type
            + "' has been submitted. Monitor for approval."@,
        Reason::Missing => "Consider creating '"@ + d.entity_type + "' entity type. "@ + decimal(
            d.signal.volume,
        ) + " attempts, "@ + a.failure_percent + "% failure rate."@,
        Reason::Denied => "Consider adding Cedar permit policy for '"@ + d.action + "' on '"@
            + d.entity_type + "'."@,
        Reason::Figures => match a.category {
            InsightCategory::UnmetIntent => "Action '"@ + d.action + "' on '"@ + d.entity_type
                + "' has "@ + a.failure_percent + "% failure rate ("@ + (decimal(d.signal.volume)
                + " attempts). Possible missing feature."@),
            InsightCategory::Friction => "Action '"@ + d.action + "' on '"@ + d.entity_type
                + "' has high volume ("@ + decimal(d.signal.volume)
                + " attempts). Consider simplifying."@,
            InsightCategory::Workaround => "Pattern detected on '"@ + d.entity_type + "."@
                + d.action + "' — "@ + decimal(d.signal.volume) + " attempts with "@ + (
            a.success_percent + "% success. May be a workaround."@),
            InsightCategory::PlatformGap => "Platform gap: '"@ + d.action + "' on '"@
                + d.entity_type + "' failed "@ + decimal(d.signal.volume)
                + " times. Consider adding this capability."@,
        },
    }
}

/// The priority of a judged draft: half of what it was judged at once a spec is
/// submitted, and at least one half while an entity type is missing.
pub open spec fn priority(d: DraftView, a: AssessmentView) -> Score {
    match d.reason {
        Reason::Submitted => a.priority.halved(),
        Reason::Missing => a.priority.larger(Score { bits: HALF }),
        _ => a.priority,
    }
}

/// Whether a judged draft is worth telling: by its figures alone it is not where
/// its priority is below one tenth.
pub open spec fn worth_telling(d: DraftView, a: AssessmentView) -> bool {
    d.reason == Reason::Figures ==> !a.priority.lt(Score { bits: TENTH })
}

/// The insight that a judged draft gives.
pub open spec fn insight(d: DraftView, a: AssessmentView) -> InsightView {
    InsightView {
        category: a.category,
        signal: d.signal,
        recommendation: advice(d, a),
        priority_score: priority(d, a),
    }
}

/// The insights of judged drafts that are worth telling, in order.
pub open spec fn insights_told(d: Seq<DraftView>, a: Seq<AssessmentView>) -> Seq<InsightView>
    decreases d.len(),
{
    if d.len() == 0 {
        Seq::empty()
    } else {
        let rest = insights_told(d.drop_last(), a.drop_last());
        if worth_telling(d.last(), a.last()) {
            rest.push(insight(d.last(), a.last()))
        } else {
            rest
        }
    }
}

/// The first insight is listed before the second: its priority is higher.
pub open spec fn more_urgent() -> spec_fn(InsightView, InsightView) -> bool {
    |a: InsightView, b: InsightView| b.priority_score.lt(a.priority_score)
}

/// The insights of judged drafts, the most urgent first.
pub open spec fn insights(d: Seq<DraftView>, a: Seq<AssessmentView>) -> Seq<InsightView> {
    arranged(insights_told(d, a), more_urgent())
}

fn advise(d: &InsightDraft, a: &Assessment) -> (r: String)
    ensures
        r@ == advice(d@, a@),
{
    let entity = d.entity_type.as_str();
    let action = d.action.as_str();
    let n = decimal_text(d.signal.volume);
    match d.reason {
        Reason::Submitted => cat3(
            "Spec for '",
            entity,
            "' has been submitted. Monitor for approval.",
        ),
        Reason::Missing => cat7(
            "Consider creating '",
            entity,
            "' entity type. ",
            n.as_str(),
            " attempts, ",
            a.failure_percent.as_str(),
            "% failure rate.",
        ),
        Reason::Denied => cat5(
            "Consider adding Cedar permit policy for '",
            action,
            "' on '",
            entity,
            "'.",
        ),
        Reason::Figures => match a.category {
            InsightCategory::UnmetIntent => {
                let rest = crate::text::cat2(n.as_str(), " attempts). Possible missing feature.");
                let head = cat7(
                    "Action '",
                    action,
                    "' on '",
                    entity,
                    "' has ",
                    a.failure_percent.as_str(),
                    "% failure rate (",
                );
                crate::text::cat2(head.as_str(), rest.as_str())
            },
            InsightCategory::Friction => cat7(
                "Action '",
                action,
                "' on '",
                entity,
                "' has high volume (",
                n.as_str(),
                " attempts). Consider simplifying.",
            ),
            InsightCategory::Workaround => {
                let rest = crate::text::cat2(
                    a.success_percent.as_str(),
                    "% success. May be a workaround.",
                );
                let head = cat7(
                    "Pattern detected on '",
                    entity,
                    ".",
                    action,
                    "' — ",
                    n.as_str(),
                    " attempts with ",
                );
                crate::text::cat2(head.as_str(), rest.as_str())
            },
            InsightCategory::PlatformGap => cat7(
                "Platform gap: '",
                action,
                "' on '",
                entity,
                "' failed ",
                n.as_str(),
                " times. Consider adding this capability.",
            ),
        },
    }
}

fn prioritize(d: &InsightDraft, a: &Assessment) -> (r: Score)
    ensures
        r == priority(d@, a@),
{
    match d.reason {
        Reason::Submitted => a.priority.halve(),
        Reason::Missing => a.priority.max_with(Score { bits: HALF }),
        Reason::Denied => a.priority,
        Reason::Figures => a.priority,
    }
}

/// The insight that a judged draft gives.
pub fn build_insight(d: InsightDraft, a: &Assessment) -> (r: InsightRecord)
    ensures
        r@ == insight(d@, a@),
{
    let recommendation = advise(&d, a);
    let priority_score = prioritize(&d, a);
    InsightRecord { category: a.category, signal: d.signal, recommendation, priority_score }
}

fn rank_insights(v: Vec<InsightRecord>) -> (r: Vec<InsightRecord>)
    ensures
        views(r@) == arranged(views(v@), more_urgent()),
{
    let ghost all = v@;
    let ghost order = |a: InsightRecord, b: InsightRecord| more_urgent()(a@, b@);
    let before = |a: &InsightRecord, b: &InsightRecord| -> (d: bool)
        ensures
            d == order(*a, *b),
        { b.priority_score.is_less(a.priority_score) };
    proof {
        crate::keys::lemma_arranged_views(all, order, more_urgent());
    }
    arrange(v, before, Ghost(order))
}

/// The insights of drafts, each with its judgement, the most urgent first.
pub fn finish_insights(
    drafts: Vec<InsightDraft>,
    judged: &Vec<Assessment>,
) -> (r: Vec<InsightRecord>)
    requires
        drafts@.len() == judged@.len(),
    ensures
        views(r@) == insights(views(drafts@), views(judged@)),
{
    let ghost ds = views(drafts@);
    let ghost js = views(judged@);
    let mut rest = drafts;
    let mut told: Vec<InsightRecord> = Vec::new();
    let mut i: usize = 0;
    assert(ds.take(0) =~= Seq::<DraftView>::empty());
    assert(views(told@) =~= Seq::<InsightView>::empty());
    while i < judged.len()
        invariant
            i <= judged@.len(),
            ds.len() == judged@.len(),
            js == views(judged@),
            rest@.len() == ds.len() - i,
            forall|j: int| 0 <= j < rest@.len() ==> (#[trigger] rest@[j])@ == ds[j + i],
            views(told@) == insights_told(ds.take(i as int), js.take(i as int)),
        decreases judged@.len() - i,
    {
        proof {
            lemma_take_step(ds, i as int);
            lemma_take_step(js, i as int);
            assert(js[i as int] == judged@[i as int]@);
        }
        let d = rest.remove(0);
        assert(d@ == ds[i as int]);
        let a = &judged[i];
        let dull = match d.reason {
            Reason::Figures => a.priority.is_less(Score { bits: TENTH }),
            _ => false,
        };
        if !dull {
            let ghost was = views(told@);
            told.push(build_insight(d, a));
            assert(views(told@) =~= was.push(insight(ds[i as int], js[i as int])));
        }
        i = i + 1;
    }
    assert(ds.take(i as int) =~= ds);
    assert(js.take(i as int) =~= js);
    rank_insights(told)
}

/// `judged` holds what `assess` returned for each draft.
pub open spec fn judged_by<F: Fn(&InsightSignal) -> Assessment>(
    assess: F,
    drafts: Seq<InsightDraft>,
    judged: Seq<Assessment>,
) -> bool {
    &&& drafts.len() == judged.len()
    &&& forall|i: int|
        0 <= i < drafts.len() ==> call_ensures(
            assess,
            (&drafts[i].signal,),
            #[trigger] judged[i],
        )
}

/// The insights that a list of entries gives, the most urgent first, where
/// `assess` judges each signal.
pub fn generate_insights<F: Fn(&InsightSignal) -> Assessment>(
    entries: &Vec<TrajectoryEntry>,
    assess: F,
) -> (r: Vec<InsightRecord>)
    requires
        forall|s: &InsightSignal| #[trigger] call_requires(assess, (s,)),
    ensures
        exists|d: Seq<InsightDraft>, a: Seq<Assessment>|
            views(d) == drafts(views(entries@)) && #[trigger] judged_by(assess, d, a) && views(r@)
                == insights(views(d), views(a)),
{
    let d = draft_insights(entries);
    let ghost made = d@;
    let mut judged: Vec<Assessment> = Vec::new();
    let mut i: usize = 0;
    while i < d.len()
        invariant
            i <= d@.len(),
            made == d@,
            judged@.len() == i,
            forall|s: &InsightSignal| #[trigger] call_requires(assess, (s,)),
            forall|j: int|
                0 <= j < i ==> call_ensures(assess, (&made[j].signal,), #[trigger] judged@[j]),
        decreases d@.len() - i,
    {
        let a = assess(&d[i].signal);
        judged.push(a);
        i = i + 1;
    }
    assert(judged_by(assess, made, judged@));
    finish_insights(d, &judged)
}

/// Once a spec is submitted for an entity type that was missing, the insight
/// never ranks above the one it would be otherwise.
pub proof fn lemma_submitted_ranks_lower(d: DraftView, e: DraftView, a: AssessmentView)
    requires
        d.reason == Reason::Submitted,
        e.reason == Reason::Missing,
        !a.priority.negative(),
    ensures
        !priority(e, a).lt(priority(d, a)),
{
    crate::score::lemma_halved_less(a.priority);
}

proof fn lemma_more_urgent_weak(s: Seq<InsightView>)
    requires
        forall|i: int| 0 <= i < s.len() ==> (#[trigger] s[i]).priority_score.place() is Some,
    ensures
        arranged(s, more_urgent()) == arranged(s, by_place()),
    decreases s.len(),
{
    if s.len() > 0 {
        lemma_more_urgent_weak(s.drop_last());
        lemma_by_place_weak();
        crate::order::lemma_arranged(s.drop_last(), by_place());
        let t = arranged(s.drop_last(), by_place());
        assert forall|i: int| 0 <= i < t.len() implies (#[trigger] t[i]).priority_score.place()
            is Some by {
            crate::order::lemma_arranged_member(s.drop_last(), by_place(), i);
        }
        lemma_placed_same(t, s.last());
    }
}

proof fn lemma_placed_same(t: Seq<InsightView>, x: InsightView)
    requires
        x.priority_score.place() is Some,
        forall|i: int| 0 <= i < t.len() ==> (#[trigger] t[i]).priority_score.place() is Some,
    ensures
        crate::order::placed(t, x, more_urgent()) == crate::order::placed(t, x, by_place()),
    decreases t.len(),
{
    if t.len() > 0 {
        assert(t.last() == t[t.len() - 1]);
        lemma_placed_same(t.drop_last(), x);
    }
}

/// The order of insights by the place of their priorities.
spec fn by_place() -> spec_fn(InsightView, InsightView) -> bool {
    |a: InsightView, b: InsightView|
        b.priority_score.place().unwrap_or(0) < a.priority_score.place().unwrap_or(0)
}

proof fn lemma_by_place_weak()
    ensures
        crate::order::weak_order(by_place()),
{
}

/// Where every priority is a number, the insights come with the highest priority
/// first, and none is lost or added.
pub proof fn lemma_insights_sorted(d: Seq<DraftView>, a: Seq<AssessmentView>)
    requires
        forall|i: int|
            0 <= i < insights_told(d, a).len() ==> (#[trigger] insights_told(
                d,
                a,
            )[i]).priority_score.place() is Some,
    ensures
        forall|i: int, j: int|
            #![trigger insights(d, a)[i], insights(d, a)[j]]
            0 <= i < j < insights(d, a).len() ==> insights(d, a)[i].priority_score.ge(
                insights(d, a)[j].priority_score,
            ),
        insights(d, a).to_multiset() == insights_told(d, a).to_multiset(),
{
    let told = insights_told(d, a);
    let all = insights(d, a);
    lemma_more_urgent_weak(told);
    lemma_by_place_weak();
    crate::order::lemma_arranged(told, by_place());
    assert forall|i: int, j: int|
        #![trigger all[i], all[j]]
        0 <= i < j < all.len() implies all[i].priority_score.ge(all[j].priority_score) by {
        crate::order::lemma_arranged_member(told, by_place(), i);
        crate::order::lemma_arranged_member(told, by_place(), j);
    }
}

} // verus!
