//! The summary of evidence on unmet intents.
use vstd::prelude::*;

use crate::candidates::candidate;
use crate::candidates::finalize_intent_candidate;
use crate::candidates::first_of;
use crate::candidates::first_text;
use crate::candidates::outweighs;
use crate::candidates::rank_candidates;
use crate::candidates::CandidateView;
use crate::candidates::IntentCandidate;
use crate::evidence::at_most;
use crate::evidence::entries_of;
use crate::evidence::given;
use crate::evidence::of_intent;
use crate::evidence::tally;
use crate::evidence::tally_intent;
use crate::evidence::TallyView;
use crate::json::Json;
use crate::json::JsonView;
use crate::keys::arrange;
use crate::keys::sorted_texts;
use crate::order::arranged;
use crate::order::keep;
use crate::order::lemma_take_step;
use crate::order::sorted_keys;
use crate::order::text_lt;
use crate::order::views;
use crate::text::cat3;
use crate::text::copy_list;
use crate::text::less;
use crate::text::same;
use crate::timeline::detour_key;
use crate::timeline::detour_with;
use crate::timeline::detours;
use crate::timeline::find_pendings;
use crate::timeline::find_recoveries;
use crate::timeline::in_time_order;
use crate::timeline::pending_of;
use crate::timeline::pending_among;
use crate::timeline::pendings;
use crate::timeline::pursuits;
use crate::timeline::recoveries;
use crate::timeline::tagged;
use crate::timeline::timeline;
use crate::timeline::Pending;
use crate::timeline::PendingView;
use crate::timeline::Recovery;
use crate::timeline::RecoveryView;
use crate::timeline::Tagged;
use crate::trajectory::build_logfire_query_hint;
use crate::trajectory::derive_intent_title;
use crate::trajectory::intent_key;
use crate::trajectory::intent_title;
use crate::trajectory::query_hint;
use crate::trajectory::sample;
use crate::trajectory::sample_from_entry;
use crate::trajectory::stated;
use crate::trajectory::stated_text;
use crate::trajectory::EntryView;
use crate::trajectory::SampleView;
use crate::trajectory::TrajectoryEntry;
use crate::trajectory::TrajectorySample;

verus! {

/// Like detours, counted together.
pub struct WorkaroundView {
    /// The key of the intent.
    pub intent_key: Seq<char>,
    /// Its title.
    pub intent_title: Seq<char>,
    /// The actions that failed, in text order.
    pub failed_actions: Seq<Seq<char>>,
    /// The actions that succeeded, in text order.
    pub successful_actions: Seq<Seq<char>>,
    /// How often it happened.
    pub occurrences: nat,
    /// The agents, in text order.
    pub sample_agents: Seq<Seq<char>>,
    /// When it last happened.
    pub last_seen: Seq<char>,
    /// What is advised.
    pub recommendation: Seq<char>,
    /// Where to look further.
    pub logfire_query_hint: JsonView,
}

/// The agents of detours, where they are not blank: of each detour the one that
/// failed first and the one that succeeded.
pub open spec fn detour_agents(d: Seq<RecoveryView>) -> Seq<Option<Seq<char>>>
    decreases d.len(),
{
    if d.len() == 0 {
        Seq::empty()
    } else {
        detour_agents(d.drop_last()).push(stated(d.last().first_agent)).push(
            stated(d.last().agent_id),
        )
    }
}

/// The actions by which detours succeeded.
pub open spec fn detour_actions(d: Seq<RecoveryView>) -> Seq<Seq<char>> {
    Seq::new(d.len(), |i: int| d[i].action)
}

/// Like detours, counted together.
pub open spec fn workaround(d: Seq<RecoveryView>) -> WorkaroundView {
    WorkaroundView {
        intent_key: d[0].intent_key,
        intent_title: d[0].intent_title,
        failed_actions: d[0].failed_actions,
        successful_actions: sorted_keys(detour_actions(d)),
        occurrences: d.len(),
        sample_agents: sorted_keys(given(detour_agents(d))),
        last_seen: d.last().timestamp,
        recommendation: "Inspect '"@ + d[0].intent_title
            + "' and graduate the successful alternate path into a supported single-step workflow."@,
        logfire_query_hint: query_hint(
            "alternate_success_paths"@,
            None,
            first_of(d[0].failed_actions),
            Some(d[0].intent_title),
        ),
    }
}

/// A way to an intent that agents take in place of the direct one.
pub struct WorkaroundPattern {
    /// The key of the intent.
    pub intent_key: String,
    /// Its title.
    pub intent_title: String,
    /// The actions that failed, in text order.
    pub failed_actions: Vec<String>,
    /// The actions that succeeded, in text order.
    pub successful_actions: Vec<String>,
    /// How often it happened.
    pub occurrences: u64,
    /// The agents, in text order.
    pub sample_agents: Vec<String>,
    /// When it last happened.
    pub last_seen: String,
    /// What is advised.
    pub recommendation: String,
    /// Where to look further.
    pub logfire_query_hint: Json,
}

impl View for WorkaroundPattern {
    type V = WorkaroundView;

    open spec fn view(&self) -> WorkaroundView {
        WorkaroundView {
            intent_key: self.intent_key@,
            intent_title: self.intent_title@,
            failed_actions: views(self.failed_actions@),
            successful_actions: views(self.successful_actions@),
            occurrences: self.occurrences as nat,
            sample_agents: views(self.sample_agents@),
            last_seen: self.last_seen@,
            recommendation: self.recommendation@,
            logfire_query_hint: self.logfire_query_hint@,
        }
    }
}

fn detour_agent_set(d: &Vec<&Recovery>) -> (r: Vec<String>)
    ensures
        views(r@) == sorted_keys(given(detour_agents(views(d@)))),
{
    let ghost ds = views(d@);
    let mut all: Vec<String> = Vec::new();
    let mut i: usize = 0;
    assert(ds.take(0) =~= Seq::empty());
    assert(views(all@) =~= Seq::empty());
    while i < d.len()
        invariant
            i <= d@.len(),
            ds == views(d@),
            views(all@) == given(detour_agents(ds.take(i as int))),
        decreases d@.len() - i,
    {
        let ghost was = detour_agents(ds.take(i as int));
        let ghost a = stated(ds[i as int].first_agent);
        let ghost b = stated(ds[i as int].agent_id);
        proof {
            lemma_take_step(ds, i as int);
            assert(ds[i as int] == d@[i as int]@);
            assert(was.push(a).drop_last() =~= was);
            assert(was.push(a).push(b).drop_last() =~= was.push(a));
            assert(detour_agents(ds.take(i + 1)) == was.push(a).push(b));
        }
        if let Some(t) = stated_text(&d[i].first_agent) {
            let ghost so = views(all@);
            all.push(t.clone());
            assert(views(all@) =~= so.push(t@));
        }
        assert(views(all@) == given(was.push(a)));
        if let Some(t) = stated_text(&d[i].agent_id) {
            let ghost so = views(all@);
            all.push(t.clone());
            assert(views(all@) =~= so.push(t@));
        }
        i = i + 1;
    }
    assert(ds.take(i as int) =~= ds);
    sorted_texts(&all)
}

fn detour_action_set(d: &Vec<&Recovery>) -> (r: Vec<String>)
    ensures
        views(r@) == sorted_keys(detour_actions(views(d@))),
{
    let mut all: Vec<String> = Vec::new();
    let mut i: usize = 0;
    while i < d.len()
        invariant
            i <= d@.len(),
            all@.len() == i,
            forall|j: int| 0 <= j < i ==> (#[trigger] all@[j])@ == d@[j]@.action,
        decreases d@.len() - i,
    {
        all.push(d[i].action.clone());
        i = i + 1;
    }
    assert(views(all@) =~= detour_actions(views(d@)));
    sorted_texts(&all)
}

/// What like detours amount to.
fn finalize_workaround_pattern(d: &Vec<&Recovery>) -> (r: WorkaroundPattern)
    requires
        d@.len() > 0,
    ensures
        r@ == workaround(views(d@)),
{
    let first = d[0];
    assert(views(d@)[0] == first@);
    assert(views(d@).last() == d@[d@.len() - 1]@);
    let title = Some(first.intent_title.clone());
    let r = WorkaroundPattern {
        intent_key: first.intent_key.clone(),
        intent_title: first.intent_title.clone(),
        failed_actions: copy_list(&first.failed_actions),
        successful_actions: detour_action_set(d),
        occurrences: d.len() as u64,
        sample_agents: detour_agent_set(d),
        last_seen: d[d.len() - 1].timestamp.clone(),
        recommendation: cat3(
            "Inspect '",
            first.intent_title.as_str(),
            "' and graduate the successful alternate path into a supported single-step workflow.",
        ),
        logfire_query_hint: build_logfire_query_hint(
            "alternate_success_paths",
            &None,
            &first_text(&first.failed_actions),
            &title,
        ),
    };
    r
}

/// The keys of detours.
pub open spec fn detour_keys(d: Seq<RecoveryView>) -> Seq<Seq<char>> {
    Seq::new(d.len(), |i: int| detour_key(d[i]))
}

/// The workarounds among detours, in key order.
pub open spec fn workarounds(d: Seq<RecoveryView>) -> Seq<WorkaroundView> {
    let ks = sorted_keys(detour_keys(d));
    Seq::new(ks.len(), |i: int| workaround(keep(d, detour_with(ks[i]))))
}

fn find_workarounds(back: &Vec<Recovery>) -> (r: Vec<WorkaroundPattern>)
    ensures
        views(r@) == workarounds(keep(views(back@), detours())),
{
    let ghost all = views(back@);
    let mut d: Vec<&Recovery> = Vec::new();
    let mut keys: Vec<String> = Vec::new();
    let mut i: usize = 0;
    assert(all.take(0) =~= Seq::<RecoveryView>::empty());
    assert(views(d@) =~= Seq::<RecoveryView>::empty());
    while i < back.len()
        invariant
            i <= back@.len(),
            all == views(back@),
            views(d@) == keep(all.take(i as int), detours()),
            keys@.len() == d@.len(),
            forall|j: int| 0 <= j < d@.len() ==> (#[trigger] keys@[j])@ == detour_key(d@[j]@),
        decreases back@.len() - i,
    {
        proof {
            lemma_take_step(all, i as int);
            assert(all[i as int] == back@[i as int]@);
        }
        if back[i].by_detour() {
            let ghost was = views(d@);
            keys.push(back[i].key());
            d.push(&back[i]);
            assert(views(d@) =~= was.push(all[i as int]));
        }
        i = i + 1;
    }
    assert(all.take(i as int) =~= all);
    let ghost ds = views(d@);
    assert(views(keys@) =~= detour_keys(ds));
    let ks = sorted_texts(&keys);
    let ghost kss = views(ks@);
    let mut r: Vec<WorkaroundPattern> = Vec::new();
    let mut i: usize = 0;
    while i < ks.len()
        invariant
            i <= ks@.len(),
            ds == views(d@),
            kss == views(ks@),
            kss == sorted_keys(detour_keys(ds)),
            keys@.len() == d@.len(),
            forall|j: int| 0 <= j < d@.len() ==> (#[trigger] keys@[j])@ == detour_key(d@[j]@),
            r@.len() == i,
            forall|j: int|
                0 <= j < i ==> (#[trigger] r@[j])@ == workaround(keep(ds, detour_with(kss[j]))),
        decreases ks@.len() - i,
    {
        let ghost k = kss[i as int];
        let mut g: Vec<&Recovery> = Vec::new();
        let mut j: usize = 0;
        assert(k == ks@[i as int]@);
        assert(ds.take(0) =~= Seq::<RecoveryView>::empty());
        assert(views(g@) =~= Seq::<RecoveryView>::empty());
        while j < d.len()
            invariant
                j <= d@.len(),
                i < ks@.len(),
                ds == views(d@),
                k == ks@[i as int]@,
                keys@.len() == d@.len(),
                forall|j: int| 0 <= j < d@.len() ==> (#[trigger] keys@[j])@ == detour_key(d@[j]@),
                views(g@) == keep(ds.take(j as int), detour_with(k)),
            decreases d@.len() - j,
        {
            proof {
                lemma_take_step(ds, j as int);
                assert(ds[j as int] == d@[j as int]@);
            }
            if same(keys[j].as_str(), ks[i].as_str()) {
                let ghost was = views(g@);
                g.push(d[j]);
                assert(views(g@) =~= was.push(ds[j as int]));
            }
            j = j + 1;
        }
        proof {
            assert(ds.take(j as int) =~= ds);
            crate::order::lemma_sorted_keys(detour_keys(ds));
            assert(kss[i as int] == k);
            assert(kss.contains(k));
            assert(detour_keys(ds).contains(k));
            let at = choose|at: int| 0 <= at < detour_keys(ds).len() && detour_keys(ds)[at] == k;
            crate::order::lemma_keep(ds, detour_with(k));
            assert(detour_with(k)(ds[at]));
            assert(keep(ds, detour_with(k)).contains(ds[at]));
        }
        r.push(finalize_workaround_pattern(&g));
        i = i + 1;
    }
    assert(views(r@) =~= workarounds(ds));
    r
}

/// The first workaround is listed before the second: it happened more often, or
/// as often and later.
pub open spec fn more_common() -> spec_fn(WorkaroundView, WorkaroundView) -> bool {
    |a: WorkaroundView, b: WorkaroundView|
        a.occurrences > b.occurrences || (a.occurrences == b.occurrences && text_lt(
            b.last_seen,
            a.last_seen,
        ))
}

fn rank_workarounds(v: Vec<WorkaroundPattern>) -> (r: Vec<WorkaroundPattern>)
    ensures
        views(r@) == arranged(views(v@), more_common()),
{
    let ghost all = v@;
    let ghost order = |a: WorkaroundPattern, b: WorkaroundPattern| more_common()(a@, b@);
    let before = |a: &WorkaroundPattern, b: &WorkaroundPattern| -> (d: bool)
        ensures
            d == order(*a, *b),
        {
            a.occurrences > b.occurrences || (a.occurrences == b.occurrences && less(
                b.last_seen.as_str(),
                a.last_seen.as_str(),
            ))
        };
    proof {
        crate::keys::lemma_arranged_views(all, order, more_common());
    }
    arrange(v, before, Ghost(order))
}

/// The pending failures of one intent, taken together.
pub struct AbandonmentView {
    /// The key of the intent.
    pub intent_key: Seq<char>,
    /// Its title.
    pub intent_title: Seq<char>,
    /// The actions that failed, in text order.
    pub failed_actions: Seq<Seq<char>>,
    /// The number of actors that gave up.
    pub abandonment_count: nat,
    /// The agents, in text order.
    pub sample_agents: Seq<Seq<char>>,
    /// When the first failure happened.
    pub first_seen: Seq<char>,
    /// When the last failure happened of the actor that comes last.
    pub last_seen: Seq<char>,
    /// What is advised.
    pub recommendation: Seq<char>,
    /// Where to look further.
    pub logfire_query_hint: JsonView,
}

/// The failed actions of all that is pending.
pub open spec fn pending_actions(p: Seq<PendingView>) -> Seq<Seq<char>>
    decreases p.len(),
{
    if p.len() == 0 {
        Seq::empty()
    } else {
        pending_actions(p.drop_last()) + p.last().failed_actions
    }
}

/// The agents of all that is pending, where they are not blank.
pub open spec fn pending_agents(p: Seq<PendingView>) -> Seq<Option<Seq<char>>> {
    Seq::new(p.len(), |i: int| stated(p[i].agent_id))
}

/// The earliest first failure of all that is pending.
pub open spec fn earliest(p: Seq<PendingView>) -> Seq<char>
    decreases p.len(),
{
    if p.len() <= 1 {
        p[0].first_seen
    } else {
        let t = earliest(p.drop_last());
        if text_lt(p.last().first_seen, t) {
            p.last().first_seen
        } else {
            t
        }
    }
}

/// What is pending of one intent, taken together.
pub open spec fn abandonment(
    title: Seq<char>,
    key: Seq<char>,
    p: Seq<PendingView>,
) -> AbandonmentView {
    AbandonmentView {
        intent_key: key,
        intent_title: title,
        failed_actions: sorted_keys(pending_actions(p)),
        abandonment_count: p.len(),
        sample_agents: sorted_keys(given(pending_agents(p))),
        first_seen: earliest(p),
        last_seen: p.last().last_seen,
        recommendation: "Investigate why '"@ + title
            + "' never reaches a successful outcome after the observed failed attempts."@,
        logfire_query_hint: query_hint(
            "intent_abandonment"@,
            None,
            first_of(sorted_keys(pending_actions(p))),
            Some(title),
        ),
    }
}

/// An intent on which actors gave up.
pub struct AbandonmentPattern {
    /// The key of the intent.
    pub intent_key: String,
    /// Its title.
    pub intent_title: String,
    /// The actions that failed, in text order.
    pub failed_actions: Vec<String>,
    /// The number of actors that gave up.
    pub abandonment_count: u64,
    /// The agents, in text order.
    pub sample_agents: Vec<String>,
    /// When the first failure happened.
    pub first_seen: String,
    /// When the last failure happened of the actor that comes last.
    pub last_seen: String,
    /// What is advised.
    pub recommendation: String,
    /// Where to look further.
    pub logfire_query_hint: Json,
}

impl View for AbandonmentPattern {
    type V = AbandonmentView;

    open spec fn view(&self) -> AbandonmentView {
        AbandonmentView {
            intent_key: self.intent_key@,
            intent_title: self.intent_title@,
            failed_actions: views(self.failed_actions@),
            abandonment_count: self.abandonment_count as nat,
            sample_agents: views(self.sample_agents@),
            first_seen: self.first_seen@,
            last_seen: self.last_seen@,
            recommendation: self.recommendation@,
            logfire_query_hint: self.logfire_query_hint@,
        }
    }
}

fn pending_action_set(p: &Vec<&Pending>) -> (r: Vec<String>)
    ensures
        views(r@) == sorted_keys(pending_actions(views(p@))),
{
    let ghost ps = views(p@);
    let mut all: Vec<String> = Vec::new();
    let mut i: usize = 0;
    assert(ps.take(0) =~= Seq::empty());
    assert(views(all@) =~= Seq::empty());
    while i < p.len()
        invariant
            i <= p@.len(),
            ps == views(p@),
            views(all@) == pending_actions(ps.take(i as int)),
        decreases p@.len() - i,
    {
        proof {
            lemma_take_step(ps, i as int);
            assert(ps[i as int] == p@[i as int]@);
        }
        let ghost was = views(all@);
        let ghost more = ps[i as int].failed_actions;
        let mut j: usize = 0;
        assert(was + more.take(0) =~= was);
        while j < p[i].failed_actions.len()
            invariant
                i < p@.len(),
                more == views(p@[i as int].failed_actions@),
                j <= more.len(),
                views(all@) == was + more.take(j as int),
            decreases more.len() - j,
        {
            let ghost so = views(all@);
            all.push(p[i].failed_actions[j].clone());
            assert(views(all@) =~= so.push(more[j as int]));
            assert(was + more.take(j + 1) =~= so.push(more[j as int]));
            j = j + 1;
        }
        assert(more.take(j as int) =~= more);
        i = i + 1;
    }
    assert(ps.take(i as int) =~= ps);
    sorted_texts(&all)
}

fn pending_agent_set(p: &Vec<&Pending>) -> (r: Vec<String>)
    ensures
        views(r@) == sorted_keys(given(pending_agents(views(p@)))),
{
    let ghost agents = pending_agents(views(p@));
    let mut all: Vec<String> = Vec::new();
    let mut i: usize = 0;
    assert(agents.take(0) =~= Seq::empty());
    assert(views(all@) =~= Seq::empty());
    while i < p.len()
        invariant
            i <= p@.len(),
            agents == pending_agents(views(p@)),
            views(all@) == given(agents.take(i as int)),
        decreases p@.len() - i,
    {
        proof {
            lemma_take_step(agents, i as int);
            assert(agents[i as int] == stated(p@[i as int]@.agent_id));
        }
        if let Some(a) = stated_text(&p[i].agent_id) {
            let ghost was = views(all@);
            all.push(a.clone());
            assert(views(all@) =~= was.push(a@));
        }
        i = i + 1;
    }
    assert(agents.take(i as int) =~= agents);
    sorted_texts(&all)
}

fn earliest_of(p: &Vec<&Pending>) -> (r: String)
    requires
        p@.len() > 0,
    ensures
        r@ == earliest(views(p@)),
{
    let ghost ps = views(p@);
    let mut t = p[0].first_seen.clone();
    let mut i: usize = 1;
    assert(ps.take(1)[0] == p@[0]@);
    while i < p.len()
        invariant
            1 <= i <= p@.len(),
            ps == views(p@),
            t@ == earliest(ps.take(i as int)),
        decreases p@.len() - i,
    {
        proof {
            lemma_take_step(ps, i as int);
            assert(ps[i as int] == p@[i as int]@);
        }
        if less(p[i].first_seen.as_str(), t.as_str()) {
            t = p[i].first_seen.clone();
        }
        i = i + 1;
    }
    assert(ps.take(i as int) =~= ps);
    t
}

/// What is pending of one intent, taken together.
fn finalize_abandonment_pattern(
    title: String,
    key: &str,
    p: &Vec<&Pending>,
) -> (r: AbandonmentPattern)
    requires
        p@.len() > 0,
    ensures
        r@ == abandonment(title@, key@, views(p@)),
{
    assert(views(p@).last() == p@[p@.len() - 1]@);
    let failed = pending_action_set(p);
    let named = Some(title.clone());
    let hint = build_logfire_query_hint("intent_abandonment", &None, &first_text(&failed), &named);
    AbandonmentPattern {
        intent_key: key.to_string(),
        recommendation: cat3(
            "Investigate why '",
            title.as_str(),
            "' never reaches a successful outcome after the observed failed attempts.",
        ),
        intent_title: title,
        failed_actions: failed,
        abandonment_count: p.len() as u64,
        sample_agents: pending_agent_set(p),
        first_seen: earliest_of(p),
        last_seen: p[p.len() - 1].last_seen.clone(),
        logfire_query_hint: hint,
    }
}

/// The intents of all that is pending.
pub open spec fn pending_keys(p: Seq<PendingView>) -> Seq<Seq<char>> {
    Seq::new(p.len(), |i: int| p[i].intent_key)
}

/// The title of an intent in a timeline: that of its first entry.
pub open spec fn title_in(s: Seq<EntryView>, key: Seq<char>) -> Seq<char> {
    tally(s, key).intent_title
}

/// The abandonments in a timeline, by intent.
pub open spec fn abandonments(s: Seq<EntryView>) -> Seq<AbandonmentView> {
    let ks = sorted_keys(pending_keys(pendings(s)));
    Seq::new(
        ks.len(),
        |i: int| abandonment(title_in(s, ks[i]), ks[i], keep(pendings(s), pending_of(ks[i]))),
    )
}

/// The first abandonment is listed before the second: more actors gave up, or as
/// many and later.
pub open spec fn more_abandoned() -> spec_fn(AbandonmentView, AbandonmentView) -> bool {
    |a: AbandonmentView, b: AbandonmentView|
        a.abandonment_count > b.abandonment_count || (a.abandonment_count == b.abandonment_count
            && text_lt(b.last_seen, a.last_seen))
}

fn rank_abandonments(v: Vec<AbandonmentPattern>) -> (r: Vec<AbandonmentPattern>)
    ensures
        views(r@) == arranged(views(v@), more_abandoned()),
{
    let ghost all = v@;
    let ghost order = |a: AbandonmentPattern, b: AbandonmentPattern| more_abandoned()(a@, b@);
    let before = |a: &AbandonmentPattern, b: &AbandonmentPattern| -> (d: bool)
        ensures
            d == order(*a, *b),
        {
            a.abandonment_count > b.abandonment_count || (a.abandonment_count
                == b.abandonment_count && less(b.last_seen.as_str(), a.last_seen.as_str()))
        };
    proof {
        crate::keys::lemma_arranged_views(all, order, more_abandoned());
    }
    arrange(v, before, Ghost(order))
}

/// The intents of entries.
pub open spec fn intent_keys(s: Seq<EntryView>) -> Seq<Seq<char>> {
    Seq::new(s.len(), |i: int| intent_key(s[i]))
}

/// The tallies of all intents in a timeline, by key.
pub open spec fn tallies(s: Seq<EntryView>) -> Seq<TallyView> {
    let ks = sorted_keys(intent_keys(s));
    Seq::new(ks.len(), |i: int| tally(s, ks[i]))
}

/// The test for intents that met with trouble.
pub open spec fn troubled() -> spec_fn(TallyView) -> bool {
    |t: TallyView| t.failure_count > 0 || t.workaround_count > 0 || t.abandonment_count > 0
}

/// What tallies amount to.
pub open spec fn candidates_of(t: Seq<TallyView>) -> Seq<CandidateView> {
    Seq::new(t.len(), |i: int| candidate(t[i]))
}

/// The evidence on unmet intents.
pub struct EvidenceView {
    /// Intents that met with trouble, the heaviest first.
    pub intent_candidates: Seq<CandidateView>,
    /// Detours, the most common first.
    pub workaround_patterns: Seq<WorkaroundView>,
    /// Intents that were given up, by how many.
    pub abandonment_patterns: Seq<AbandonmentView>,
    /// The newest entries, the newest first.
    pub trajectory_samples: Seq<SampleView>,
}

/// The newest entries of a timeline in short, the newest first.
pub open spec fn newest(s: Seq<EntryView>, n: nat) -> Seq<SampleView> {
    Seq::new(
        if s.len() <= n {
            s.len()
        } else {
            n
        },
        |i: int| sample(s[s.len() - 1 - i]),
    )
}

/// The evidence in a list of entries: at most 12 candidates, 8 workarounds, 8
/// abandonments and 20 samples.
pub open spec fn evidence(entries: Seq<EntryView>) -> EvidenceView {
    let s = timeline(entries);
    EvidenceView {
        intent_candidates: at_most(
            arranged(candidates_of(keep(tallies(s), troubled())), outweighs()),
            12,
        ),
        workaround_patterns: at_most(
            arranged(workarounds(keep(recoveries(s), detours())), more_common()),
            8,
        ),
        abandonment_patterns: at_most(arranged(abandonments(s), more_abandoned()), 8),
        trajectory_samples: newest(s, 20),
    }
}

/// The evidence on unmet intents.
pub struct IntentEvidenceSummary {
    /// Intents that met with trouble, the heaviest first.
    pub intent_candidates: Vec<IntentCandidate>,
    /// Detours, the most common first.
    pub workaround_patterns: Vec<WorkaroundPattern>,
    /// Intents that were given up, by how many.
    pub abandonment_patterns: Vec<AbandonmentPattern>,
    /// The newest entries, the newest first.
    pub trajectory_samples: Vec<TrajectorySample>,
}

impl View for IntentEvidenceSummary {
    type V = EvidenceView;

    open spec fn view(&self) -> EvidenceView {
        EvidenceView {
            intent_candidates: views(self.intent_candidates@),
            workaround_patterns: views(self.workaround_patterns@),
            abandonment_patterns: views(self.abandonment_patterns@),
            trajectory_samples: views(self.trajectory_samples@),
        }
    }
}

/// An intent that occurs among the keys has an entry.
proof fn lemma_has_entry(s: Seq<EntryView>, key: Seq<char>)
    requires
        intent_keys(s).contains(key),
    ensures
        keep(s, of_intent(key)).len() > 0,
{
    let at = choose|at: int| 0 <= at < intent_keys(s).len() && intent_keys(s)[at] == key;
    crate::order::lemma_keep(s, of_intent(key));
    assert(of_intent(key)(s[at]));
    assert(keep(s, of_intent(key)).contains(s[at]));
}

fn find_candidates(
    v: &Vec<Tagged<'_>>,
    back: &Vec<Recovery>,
    pending: &Vec<Pending>,
) -> (r: Vec<IntentCandidate>)
    requires
        tagged(v@),
        views(back@) == recoveries(views(v@)),
        views(pending@) == pendings(views(v@)),
    ensures
        views(r@) == candidates_of(keep(tallies(views(v@)), troubled())),
{
    let ghost s = views(v@);
    let mut keys: Vec<String> = Vec::new();
    let mut i: usize = 0;
    while i < v.len()
        invariant
            i <= v@.len(),
            tagged(v@),
            keys@.len() == i,
            forall|j: int| 0 <= j < i ==> (#[trigger] keys@[j])@ == intent_key(v@[j]@),
        decreases v@.len() - i,
    {
        keys.push(v[i].key.clone());
        i = i + 1;
    }
    assert(views(keys@) =~= intent_keys(s));
    let ks = sorted_texts(&keys);
    let ghost kss = views(ks@);
    let ghost ts = tallies(s);
    let mut r: Vec<IntentCandidate> = Vec::new();
    let mut i: usize = 0;
    assert(ts.take(0) =~= Seq::<TallyView>::empty());
    assert(views(r@) =~= candidates_of(keep(ts.take(0), troubled())));
    while i < ks.len()
        invariant
            i <= ks@.len(),
            tagged(v@),
            s == views(v@),
            views(back@) == recoveries(s),
            views(pending@) == pendings(s),
            kss == views(ks@),
            kss == sorted_keys(intent_keys(s)),
            ts == tallies(s),
            views(r@) == candidates_of(keep(ts.take(i as int), troubled())),
        decreases ks@.len() - i,
    {
        proof {
            lemma_take_step(ts, i as int);
            crate::order::lemma_sorted_keys(intent_keys(s));
            assert(kss[i as int] == ks@[i as int]@);
            assert(kss.contains(kss[i as int]));
            assert(intent_keys(s).contains(kss[i as int]));
            lemma_has_entry(s, kss[i as int]);
        }
        let t = tally_intent(v, back, pending, ks[i].as_str());
        assert(t@ == ts[i as int]);
        if t.failure_count > 0 || t.workaround_count > 0 || t.abandonment_count > 0 {
            let ghost was = views(r@);
            let ghost kept = keep(ts.take(i as int), troubled());
            r.push(finalize_intent_candidate(t));
            assert(views(r@) =~= was.push(candidate(ts[i as int])));
            assert(candidates_of(kept.push(ts[i as int])) =~= candidates_of(kept).push(
                candidate(ts[i as int]),
            ));
        }
        i = i + 1;
    }
    assert(ts.take(i as int) =~= ts);
    r
}

/// What is pending on an intent that occurs has the key of some entry.
proof fn lemma_pending_key(s: Seq<EntryView>, of: Seq<(Seq<char>, Seq<char>)>, at: int)
    requires
        0 <= at < pending_among(s, of).len(),
    ensures
        exists|i: int|
            0 <= i < of.len() && (#[trigger] of[i]).1 == pending_among(s, of)[at].intent_key,
    decreases of.len(),
{
    if of.len() > 0 {
        let front = of.drop_last();
        let rest = pending_among(s, front);
        if at < rest.len() {
            lemma_pending_key(s, front, at);
            let i = choose|i: int|
                0 <= i < front.len() && (#[trigger] front[i]).1 == rest[at].intent_key;
            assert(of[i].1 == rest[at].intent_key);
        } else {
            assert(of[of.len() - 1].1 == pending_among(s, of)[at].intent_key);
        }
    }
}

/// The intent of what is pending is the intent of some entry.
proof fn lemma_pending_intent(s: Seq<EntryView>, key: Seq<char>)
    requires
        pending_keys(pendings(s)).contains(key),
    ensures
        intent_keys(s).contains(key),
{
    let ps = pendings(s);
    let at = choose|at: int| 0 <= at < pending_keys(ps).len() && pending_keys(ps)[at] == key;
    let of = sorted_keys(pursuits(s));
    lemma_pending_key(s, of, at);
    let i = choose|i: int| 0 <= i < of.len() && (#[trigger] of[i]).1 == ps[at].intent_key;
    crate::order::lemma_sorted_keys(pursuits(s));
    assert(of.contains(of[i]));
    assert(pursuits(s).contains(of[i]));
    let j = choose|j: int| 0 <= j < pursuits(s).len() && pursuits(s)[j] == of[i];
    assert(intent_keys(s)[j] == key);
}

fn find_abandonments(v: &Vec<Tagged<'_>>, pending: &Vec<Pending>) -> (r: Vec<AbandonmentPattern>)
    requires
        tagged(v@),
        views(pending@) == pendings(views(v@)),
    ensures
        views(r@) == abandonments(views(v@)),
{
    let ghost s = views(v@);
    let ghost ps = views(pending@);
    let mut keys: Vec<String> = Vec::new();
    let mut i: usize = 0;
    while i < pending.len()
        invariant
            i <= pending@.len(),
            keys@.len() == i,
            forall|j: int| 0 <= j < i ==> (#[trigger] keys@[j])@ == pending@[j]@.intent_key,
        decreases pending@.len() - i,
    {
        keys.push(pending[i].intent_key.clone());
        i = i + 1;
    }
    assert(views(keys@) =~= pending_keys(ps));
    let ks = sorted_texts(&keys);
    let ghost kss = views(ks@);
    let mut r: Vec<AbandonmentPattern> = Vec::new();
    let mut i: usize = 0;
    while i < ks.len()
        invariant
            i <= ks@.len(),
            tagged(v@),
            s == views(v@),
            ps == views(pending@),
            ps == pendings(s),
            kss == views(ks@),
            kss == sorted_keys(pending_keys(ps)),
            r@.len() == i,
            forall|j: int|
                0 <= j < i ==> (#[trigger] r@[j])@ == abandonment(
                    title_in(s, kss[j]),
                    kss[j],
                    keep(ps, pending_of(kss[j])),
                ),
        decreases ks@.len() - i,
    {
        let ghost k = kss[i as int];
        assert(k == ks@[i as int]@);
        let mut g: Vec<&Pending> = Vec::new();
        let mut j: usize = 0;
        assert(ps.take(0) =~= Seq::<PendingView>::empty());
        assert(views(g@) =~= Seq::<PendingView>::empty());
        while j < pending.len()
            invariant
                j <= pending@.len(),
                i < ks@.len(),
                ps == views(pending@),
                k == ks@[i as int]@,
                views(g@) == keep(ps.take(j as int), pending_of(k)),
            decreases pending@.len() - j,
        {
            proof {
                lemma_take_step(ps, j as int);
                assert(ps[j as int] == pending@[j as int]@);
            }
            if same(pending[j].intent_key.as_str(), ks[i].as_str()) {
                let ghost was = views(g@);
                g.push(&pending[j]);
                assert(views(g@) =~= was.push(ps[j as int]));
            }
            j = j + 1;
        }
        proof {
            assert(ps.take(j as int) =~= ps);
            crate::order::lemma_sorted_keys(pending_keys(ps));
            assert(kss[i as int] == k);
            assert(kss.contains(k));
            assert(pending_keys(ps).contains(k));
            let at = choose|at: int|
                0 <= at < pending_keys(ps).len() && pending_keys(ps)[at] == k;
            crate::order::lemma_keep(ps, pending_of(k));
            assert(pending_of(k)(ps[at]));
            assert(keep(ps, pending_of(k)).contains(ps[at]));
            lemma_pending_intent(s, k);
            lemma_has_entry(s, k);
        }
        let title = title_of(v, ks[i].as_str());
        r.push(finalize_abandonment_pattern(title, ks[i].as_str(), &g));
        i = i + 1;
    }
    assert(views(r@) =~= abandonments(s));
    r
}

fn title_of(v: &Vec<Tagged<'_>>, key: &str) -> (r: String)
    requires
        tagged(v@),
        keep(views(v@), of_intent(key@)).len() > 0,
    ensures
        r@ == title_in(views(v@), key@),
{
    let m = entries_of(v, key);
    assert(views(m@)[0] == m@[0]@);
    derive_intent_title(&m[0].intent, m[0].entity_type.as_str(), m[0].action.as_str())
}

fn newest_samples(v: &Vec<Tagged<'_>>) -> (r: Vec<TrajectorySample>)
    ensures
        views(r@) == newest(views(v@), 20),
{
    let ghost s = views(v@);
    let mut r: Vec<TrajectorySample> = Vec::new();
    let mut i: usize = 0;
    while i < v.len() && i < 20
        invariant
            i <= v@.len(),
            i <= 20,
            s == views(v@),
            r@.len() == i,
            forall|j: int| 0 <= j < i ==> (#[trigger] r@[j])@ == sample(s[s.len() - 1 - j]),
        decreases v@.len() - i,
    {
        assert(s[s.len() - 1 - i] == v@[v@.len() - 1 - i]@);
        r.push(sample_from_entry(v[v.len() - 1 - i].entry));
        i = i + 1;
    }
    assert(views(r@) =~= newest(s, 20));
    r
}

/// The evidence on unmet intents in a list of entries.
pub fn generate_intent_evidence(entries: &Vec<TrajectoryEntry>) -> (r: IntentEvidenceSummary)
    ensures
        r@ == evidence(views(entries@)),
{
    let v = in_time_order(entries);
    let back = find_recoveries(&v);
    let pending = find_pendings(&v);
    let found = find_candidates(&v, &back, &pending);
    let mut intent_candidates = rank_candidates(found);
    let ghost c = views(intent_candidates@);
    intent_candidates.truncate(12);
    assert(views(intent_candidates@) =~= at_most(c, 12));
    let found = find_workarounds(&back);
    let mut workaround_patterns = rank_workarounds(found);
    let ghost w = views(workaround_patterns@);
    workaround_patterns.truncate(8);
    assert(views(workaround_patterns@) =~= at_most(w, 8));
    let found = find_abandonments(&v, &pending);
    let mut abandonment_patterns = rank_abandonments(found);
    let ghost a = views(abandonment_patterns@);
    abandonment_patterns.truncate(8);
    assert(views(abandonment_patterns@) =~= at_most(a, 8));
    let trajectory_samples = newest_samples(&v);
    IntentEvidenceSummary {
        intent_candidates,
        workaround_patterns,
        abandonment_patterns,
        trajectory_samples,
    }
}

} // verus!
