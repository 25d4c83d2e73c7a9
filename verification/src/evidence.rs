//! Evidence of unmet intents in a list of trajectory entries: what was wanted
//! and failed, what was reached by a detour, and what was given up.
use vstd::prelude::*;

use crate::json::Json;
use crate::json::JsonView;
use crate::keys::sorted_texts;
use crate::order::keep;
use crate::order::lemma_take_step;
use crate::order::opt_view;
use crate::order::sorted_keys;
use crate::order::views;
use crate::text::same;
use crate::timeline::action_set;
use crate::timeline::actions_of;
use crate::timeline::detours;
use crate::timeline::pending_of;
use crate::timeline::pendings;
use crate::timeline::recoveries;
use crate::timeline::recovery_of;
use crate::timeline::tagged;
use crate::timeline::Pending;
use crate::timeline::PendingView;
use crate::timeline::Recovery;
use crate::timeline::RecoveryView;
use crate::timeline::Tagged;
use crate::trajectory::derive_intent_title;
use crate::trajectory::error_pattern;
use crate::trajectory::intent_key;
use crate::trajectory::intent_title;
use crate::trajectory::pattern_of;
use crate::trajectory::sample;
use crate::trajectory::sample_from_entry;
use crate::trajectory::stated;
use crate::trajectory::stated_text;
use crate::trajectory::EntryView;
use crate::trajectory::SampleView;
use crate::trajectory::TrajectoryEntry;
use crate::trajectory::TrajectorySample;

verus! {

/// The test for entries of one intent.
pub open spec fn of_intent(key: Seq<char>) -> spec_fn(EntryView) -> bool {
    |e: EntryView| intent_key(e) == key
}

/// The test for success.
pub open spec fn succeeded() -> spec_fn(EntryView) -> bool {
    |e: EntryView| e.success
}

/// The test for failure.
pub open spec fn failed() -> spec_fn(EntryView) -> bool {
    |e: EntryView| !e.success
}

/// A failure that authorization caused.
pub open spec fn is_denied(e: EntryView) -> bool {
    !e.success && (e.authz_denied == Some(true) || error_pattern(e.error) == "AuthzDenied"@)
}

/// The test for failures that authorization caused.
pub open spec fn denied() -> spec_fn(EntryView) -> bool {
    |e: EntryView| is_denied(e)
}

/// The last value that is given.
pub open spec fn latest<A>(s: Seq<Option<A>>) -> Option<A>
    decreases s.len(),
{
    if s.len() == 0 {
        None
    } else if s.last() is Some {
        s.last()
    } else {
        latest(s.drop_last())
    }
}

/// The values that are given, in order.
pub open spec fn given<A>(s: Seq<Option<A>>) -> Seq<A>
    decreases s.len(),
{
    if s.len() == 0 {
        Seq::empty()
    } else {
        match s.last() {
            Some(x) => given(s.drop_last()).push(x),
            None => given(s.drop_last()),
        }
    }
}

/// The first `n` elements, or all where there are fewer.
pub open spec fn at_most<A>(s: Seq<A>, n: nat) -> Seq<A> {
    if s.len() <= n {
        s
    } else {
        s.take(n as int)
    }
}

/// All that was seen of one intent.
pub struct TallyView {
    /// The key of the intent.
    pub intent_key: Seq<char>,
    /// Its title, by its first entry.
    pub intent_title: Seq<char>,
    /// Its statement, by its first entry.
    pub intent_statement: Seq<char>,
    /// The title of its issue, by its first entry.
    pub recommended_issue_title: Seq<char>,
    /// What its first entry shows.
    pub symptom_title: Seq<char>,
    /// The entity types, in text order.
    pub entity_types: Seq<Seq<char>>,
    /// The actions, in text order.
    pub attempted_actions: Seq<Seq<char>>,
    /// The actions that succeeded, in text order.
    pub successful_actions: Seq<Seq<char>>,
    /// The patterns of the errors, in text order.
    pub failure_patterns: Seq<Seq<char>>,
    /// The last thing that a caller said they wanted.
    pub sample_intent: Option<Seq<char>>,
    /// The last request body.
    pub sample_body: Option<JsonView>,
    /// The agents, in text order.
    pub sample_agents: Seq<Seq<char>>,
    /// The number of entries.
    pub total_count: nat,
    /// The number of failures.
    pub failure_count: nat,
    /// The number of successes.
    pub success_count: nat,
    /// The number of failures that authorization caused.
    pub authz_denials: nat,
    /// The number of detours.
    pub workaround_count: nat,
    /// The number of actors that gave up.
    pub abandonment_count: nat,
    /// The number of recoveries.
    pub success_after_failure_count: nat,
    /// When it was first seen.
    pub first_seen: Seq<char>,
    /// When it was last seen.
    pub last_seen: Seq<char>,
    /// The first entries, in short.
    pub evidence_examples: Seq<SampleView>,
}

/// The entries in short.
pub open spec fn samples(s: Seq<EntryView>) -> Seq<SampleView> {
    Seq::new(s.len(), |i: int| sample(s[i]))
}

/// All that a timeline shows of one intent.
pub open spec fn tally(s: Seq<EntryView>, key: Seq<char>) -> TallyView {
    let m = keep(s, of_intent(key));
    let title = intent_title(m[0].intent, m[0].entity_type, m[0].action);
    let back = keep(recoveries(s), recovery_of(key));
    TallyView {
        intent_key: key,
        intent_title: title,
        intent_statement: crate::trajectory::statement(m[0]),
        recommended_issue_title: crate::trajectory::issue_title(
            title,
            m[0].intent,
            m[0].entity_type,
            m[0].action,
        ),
        symptom_title: crate::trajectory::symptom_title(m[0]),
        entity_types: sorted_keys(types_of(m)),
        attempted_actions: sorted_keys(actions_of(m)),
        successful_actions: sorted_keys(actions_of(keep(m, succeeded()))),
        failure_patterns: sorted_keys(patterns_of(keep(m, failed()))),
        sample_intent: latest(intents_of(m)),
        sample_body: latest(bodies_of(m)),
        sample_agents: sorted_keys(given(agents_of(m))),
        total_count: m.len(),
        failure_count: keep(m, failed()).len(),
        success_count: keep(m, succeeded()).len(),
        authz_denials: keep(m, denied()).len(),
        workaround_count: keep(back, detours()).len(),
        abandonment_count: keep(pendings(s), pending_of(key)).len(),
        success_after_failure_count: back.len(),
        first_seen: m[0].timestamp,
        last_seen: m.last().timestamp,
        evidence_examples: samples(at_most(m, 4)),
    }
}

/// The entity types of entries.
pub open spec fn types_of(s: Seq<EntryView>) -> Seq<Seq<char>> {
    Seq::new(s.len(), |i: int| s[i].entity_type)
}

/// The patterns of the errors of entries.
pub open spec fn patterns_of(s: Seq<EntryView>) -> Seq<Seq<char>> {
    Seq::new(s.len(), |i: int| error_pattern(s[i].error))
}

/// What the callers of entries said, where it is not blank.
pub open spec fn intents_of(s: Seq<EntryView>) -> Seq<Option<Seq<char>>> {
    Seq::new(s.len(), |i: int| stated(s[i].intent))
}

/// The request bodies of entries.
pub open spec fn bodies_of(s: Seq<EntryView>) -> Seq<Option<JsonView>> {
    Seq::new(s.len(), |i: int| s[i].request_body)
}

/// The agents of entries, where they are not blank.
pub open spec fn agents_of(s: Seq<EntryView>) -> Seq<Option<Seq<char>>> {
    Seq::new(s.len(), |i: int| stated(s[i].agent_id))
}

/// All that was seen of one intent.
pub struct IntentTally {
    /// The key of the intent.
    pub intent_key: String,
    /// Its title, by its first entry.
    pub intent_title: String,
    /// Its statement, by its first entry.
    pub intent_statement: String,
    /// The title of its issue, by its first entry.
    pub recommended_issue_title: String,
    /// What its first entry shows.
    pub symptom_title: String,
    /// The entity types, in text order.
    pub entity_types: Vec<String>,
    /// The actions, in text order.
    pub attempted_actions: Vec<String>,
    /// The actions that succeeded, in text order.
    pub successful_actions: Vec<String>,
    /// The patterns of the errors, in text order.
    pub failure_patterns: Vec<String>,
    /// The last thing that a caller said they wanted.
    pub sample_intent: Option<String>,
    /// The last request body.
    pub sample_body: Option<Json>,
    /// The agents, in text order.
    pub sample_agents: Vec<String>,
    /// The number of entries.
    pub total_count: u64,
    /// The number of failures.
    pub failure_count: u64,
    /// The number of successes.
    pub success_count: u64,
    /// The number of failures that authorization caused.
    pub authz_denials: u64,
    /// The number of detours.
    pub workaround_count: u64,
    /// The number of actors that gave up.
    pub abandonment_count: u64,
    /// The number of recoveries.
    pub success_after_failure_count: u64,
    /// When it was first seen.
    pub first_seen: String,
    /// When it was last seen.
    pub last_seen: String,
    /// The first entries, in short.
    pub evidence_examples: Vec<TrajectorySample>,
}

impl View for IntentTally {
    type V = TallyView;

    open spec fn view(&self) -> TallyView {
        TallyView {
            intent_key: self.intent_key@,
            intent_title: self.intent_title@,
            intent_statement: self.intent_statement@,
            recommended_issue_title: self.recommended_issue_title@,
            symptom_title: self.symptom_title@,
            entity_types: views(self.entity_types@),
            attempted_actions: views(self.attempted_actions@),
            successful_actions: views(self.successful_actions@),
            failure_patterns: views(self.failure_patterns@),
            sample_intent: opt_view(self.sample_intent),
            sample_body: opt_view(self.sample_body),
            sample_agents: views(self.sample_agents@),
            total_count: self.total_count as nat,
            failure_count: self.failure_count as nat,
            success_count: self.success_count as nat,
            authz_denials: self.authz_denials as nat,
            workaround_count: self.workaround_count as nat,
            abandonment_count: self.abandonment_count as nat,
            success_after_failure_count: self.success_after_failure_count as nat,
            first_seen: self.first_seen@,
            last_seen: self.last_seen@,
            evidence_examples: views(self.evidence_examples@),
        }
    }
}

/// The entries of one intent, in order.
pub fn entries_of<'a>(v: &Vec<Tagged<'a>>, key: &str) -> (r: Vec<&'a TrajectoryEntry>)
    requires
        tagged(v@),
    ensures
        views(r@) == keep(views(v@), of_intent(key@)),
{
    let ghost all = views(v@);
    let mut r: Vec<&'a TrajectoryEntry> = Vec::new();
    let mut i: usize = 0;
    assert(all.take(0) =~= Seq::<EntryView>::empty());
    assert(views(r@) =~= Seq::<EntryView>::empty());
    while i < v.len()
        invariant
            i <= v@.len(),
            tagged(v@),
            all == views(v@),
            views(r@) == keep(all.take(i as int), of_intent(key@)),
        decreases v@.len() - i,
    {
        proof {
            lemma_take_step(all, i as int);
            assert(all[i as int] == v@[i as int]@);
        }
        if same(v[i].key.as_str(), key) {
            let ghost was = views(r@);
            r.push(v[i].entry);
            assert(views(r@) =~= was.push(all[i as int]));
        }
        i = i + 1;
    }
    assert(all.take(i as int) =~= all);
    r
}

fn by_outcome<'a>(m: &Vec<&'a TrajectoryEntry>, success: bool) -> (r: Vec<&'a TrajectoryEntry>)
    ensures
        views(r@) == if success {
            keep(views(m@), succeeded())
        } else {
            keep(views(m@), failed())
        },
{
    let ghost all = views(m@);
    let mut r: Vec<&'a TrajectoryEntry> = Vec::new();
    let mut i: usize = 0;
    assert(all.take(0) =~= Seq::<EntryView>::empty());
    assert(views(r@) =~= Seq::<EntryView>::empty());
    while i < m.len()
        invariant
            i <= m@.len(),
            all == views(m@),
            views(r@) == if success {
                keep(all.take(i as int), succeeded())
            } else {
                keep(all.take(i as int), failed())
            },
        decreases m@.len() - i,
    {
        proof {
            lemma_take_step(all, i as int);
            assert(all[i as int] == m@[i as int]@);
        }
        if m[i].success == success {
            let ghost was = views(r@);
            r.push(m[i]);
            assert(views(r@) =~= was.push(all[i as int]));
        }
        i = i + 1;
    }
    assert(all.take(i as int) =~= all);
    r
}

/// Whether authorization caused the failure that the entry records.
pub fn was_denied(e: &TrajectoryEntry) -> (r: bool)
    ensures
        r == is_denied(e@),
{
    if e.success {
        return false;
    }
    if let Some(d) = e.authz_denied {
        if d {
            return true;
        }
    }
    let p = pattern_of(&e.error);
    same(p.as_str(), "AuthzDenied")
}

fn count_denied(m: &Vec<&TrajectoryEntry>) -> (r: u64)
    ensures
        r == keep(views(m@), denied()).len(),
{
    let ghost all = views(m@);
    let mut n: u64 = 0;
    let mut i: usize = 0;
    assert(all.take(0) =~= Seq::<EntryView>::empty());
    while i < m.len()
        invariant
            i <= m@.len(),
            all == views(m@),
            n <= i,
            n == keep(all.take(i as int), denied()).len(),
        decreases m@.len() - i,
    {
        proof {
            lemma_take_step(all, i as int);
            assert(all[i as int] == m@[i as int]@);
        }
        if was_denied(m[i]) {
            n = n + 1;
        }
        i = i + 1;
    }
    assert(all.take(i as int) =~= all);
    n
}

fn type_set(m: &Vec<&TrajectoryEntry>) -> (r: Vec<String>)
    ensures
        views(r@) == sorted_keys(types_of(views(m@))),
{
    let mut all: Vec<String> = Vec::new();
    let mut i: usize = 0;
    while i < m.len()
        invariant
            i <= m@.len(),
            all@.len() == i,
            forall|j: int| 0 <= j < i ==> (#[trigger] all@[j])@ == m@[j]@.entity_type,
        decreases m@.len() - i,
    {
        all.push(m[i].entity_type.clone());
        i = i + 1;
    }
    assert(views(all@) =~= types_of(views(m@)));
    sorted_texts(&all)
}

fn pattern_set(m: &Vec<&TrajectoryEntry>) -> (r: Vec<String>)
    ensures
        views(r@) == sorted_keys(patterns_of(views(m@))),
{
    let mut all: Vec<String> = Vec::new();
    let mut i: usize = 0;
    while i < m.len()
        invariant
            i <= m@.len(),
            all@.len() == i,
            forall|j: int| 0 <= j < i ==> (#[trigger] all@[j])@ == error_pattern(m@[j]@.error),
        decreases m@.len() - i,
    {
        all.push(pattern_of(&m[i].error));
        i = i + 1;
    }
    assert(views(all@) =~= patterns_of(views(m@)));
    sorted_texts(&all)
}

fn agent_set(m: &Vec<&TrajectoryEntry>) -> (r: Vec<String>)
    ensures
        views(r@) == sorted_keys(given(agents_of(views(m@)))),
{
    let ghost agents = agents_of(views(m@));
    let mut all: Vec<String> = Vec::new();
    let mut i: usize = 0;
    assert(agents.take(0) =~= Seq::empty());
    assert(views(all@) =~= Seq::empty());
    while i < m.len()
        invariant
            i <= m@.len(),
            agents == agents_of(views(m@)),
            views(all@) == given(agents.take(i as int)),
        decreases m@.len() - i,
    {
        proof {
            lemma_take_step(agents, i as int);
            assert(agents[i as int] == stated(m@[i as int]@.agent_id));
        }
        if let Some(a) = stated_text(&m[i].agent_id) {
            let ghost was = views(all@);
            all.push(a.clone());
            assert(views(all@) =~= was.push(a@));
        }
        i = i + 1;
    }
    assert(agents.take(i as int) =~= agents);
    sorted_texts(&all)
}

fn last_intent(m: &Vec<&TrajectoryEntry>) -> (r: Option<String>)
    ensures
        opt_view(r) == latest(intents_of(views(m@))),
{
    let ghost all = intents_of(views(m@));
    let mut n: usize = m.len();
    assert(all.take(n as int) =~= all);
    while n > 0
        invariant
            n <= m@.len(),
            all == intents_of(views(m@)),
            latest(all) == latest(all.take(n as int)),
        decreases n,
    {
        proof {
            lemma_take_step(all, n - 1);
            assert(all[n - 1] == stated(m@[n - 1]@.intent));
        }
        if let Some(t) = stated_text(&m[n - 1].intent) {
            return Some(t.clone());
        }
        n = n - 1;
    }
    None
}

/// The last request body of entries.
pub fn last_body(m: &Vec<&TrajectoryEntry>) -> (r: Option<Json>)
    ensures
        opt_view(r) == latest(bodies_of(views(m@))),
{
    let ghost all = bodies_of(views(m@));
    let mut n: usize = m.len();
    assert(all.take(n as int) =~= all);
    while n > 0
        invariant
            n <= m@.len(),
            all == bodies_of(views(m@)),
            latest(all) == latest(all.take(n as int)),
        decreases n,
    {
        proof {
            lemma_take_step(all, n - 1);
            assert(all[n - 1] == m@[n - 1]@.request_body);
        }
        if let Some(b) = &m[n - 1].request_body {
            return Some(b.copy());
        }
        n = n - 1;
    }
    None
}

fn first_samples(m: &Vec<&TrajectoryEntry>) -> (r: Vec<TrajectorySample>)
    ensures
        views(r@) == samples(at_most(views(m@), 4)),
{
    let mut r: Vec<TrajectorySample> = Vec::new();
    let mut i: usize = 0;
    while i < m.len() && i < 4
        invariant
            i <= m@.len(),
            i <= 4,
            r@.len() == i,
            forall|j: int| 0 <= j < i ==> (#[trigger] r@[j])@ == sample(m@[j]@),
        decreases m@.len() - i,
    {
        r.push(sample_from_entry(m[i]));
        i = i + 1;
    }
    assert(views(r@) =~= samples(at_most(views(m@), 4)));
    r
}

fn recoveries_of(back: &Vec<Recovery>, key: &str) -> (r: (u64, u64))
    ensures
        r.0 == keep(views(back@), recovery_of(key@)).len(),
        r.1 == keep(keep(views(back@), recovery_of(key@)), detours()).len(),
{
    let ghost all = views(back@);
    let mut n: u64 = 0;
    let mut d: u64 = 0;
    let mut i: usize = 0;
    assert(all.take(0) =~= Seq::<RecoveryView>::empty());
    while i < back.len()
        invariant
            i <= back@.len(),
            all == views(back@),
            n <= i,
            d <= i,
            n == keep(all.take(i as int), recovery_of(key@)).len(),
            d == keep(keep(all.take(i as int), recovery_of(key@)), detours()).len(),
        decreases back@.len() - i,
    {
        proof {
            lemma_take_step(all, i as int);
            assert(all[i as int] == back@[i as int]@);
        }
        if same(back[i].intent_key.as_str(), key) {
            proof {
                let was = keep(all.take(i as int), recovery_of(key@));
                assert(was.push(all[i as int]).drop_last() =~= was);
            }
            n = n + 1;
            if back[i].by_detour() {
                d = d + 1;
            }
        }
        i = i + 1;
    }
    assert(all.take(i as int) =~= all);
    (n, d)
}

fn pendings_of(pending: &Vec<Pending>, key: &str) -> (r: u64)
    ensures
        r == keep(views(pending@), pending_of(key@)).len(),
{
    let ghost all = views(pending@);
    let mut n: u64 = 0;
    let mut i: usize = 0;
    assert(all.take(0) =~= Seq::<PendingView>::empty());
    while i < pending.len()
        invariant
            i <= pending@.len(),
            all == views(pending@),
            n <= i,
            n == keep(all.take(i as int), pending_of(key@)).len(),
        decreases pending@.len() - i,
    {
        proof {
            lemma_take_step(all, i as int);
            assert(all[i as int] == pending@[i as int]@);
        }
        if same(pending[i].intent_key.as_str(), key) {
            n = n + 1;
        }
        i = i + 1;
    }
    assert(all.take(i as int) =~= all);
    n
}

/// All that a timeline shows of an intent that occurs in it.
pub fn tally_intent(
    v: &Vec<Tagged<'_>>,
    back: &Vec<Recovery>,
    pending: &Vec<Pending>,
    key: &str,
) -> (r: IntentTally)
    requires
        tagged(v@),
        views(back@) == recoveries(views(v@)),
        views(pending@) == pendings(views(v@)),
        keep(views(v@), of_intent(key@)).len() > 0,
    ensures
        r@ == tally(views(v@), key@),
{
    let m = entries_of(v, key);
    let first = m[0];
    let ghost ms = views(m@);
    assert(ms[0] == first@);
    assert(ms.last() == m@[m@.len() - 1]@);
    let title = derive_intent_title(
        &first.intent,
        first.entity_type.as_str(),
        first.action.as_str(),
    );
    let issue = crate::trajectory::derive_issue_title(
        title.as_str(),
        &first.intent,
        first.entity_type.as_str(),
        first.action.as_str(),
    );
    let good = by_outcome(&m, true);
    let bad = by_outcome(&m, false);
    let (recovered, detoured) = recoveries_of(back, key);
    IntentTally {
        intent_key: key.to_string(),
        intent_title: title,
        intent_statement: crate::trajectory::derive_statement(first),
        recommended_issue_title: issue,
        symptom_title: crate::trajectory::derive_symptom_title(first),
        entity_types: type_set(&m),
        attempted_actions: action_set(&m),
        successful_actions: action_set(&good),
        failure_patterns: pattern_set(&bad),
        sample_intent: last_intent(&m),
        sample_body: last_body(&m),
        sample_agents: agent_set(&m),
        total_count: m.len() as u64,
        failure_count: bad.len() as u64,
        success_count: good.len() as u64,
        authz_denials: count_denied(&m),
        workaround_count: detoured,
        abandonment_count: pendings_of(pending, key),
        success_after_failure_count: recovered,
        first_seen: first.timestamp.clone(),
        last_seen: m[m.len() - 1].timestamp.clone(),
        evidence_examples: first_samples(&m),
    }
}

} // verus!
