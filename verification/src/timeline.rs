//! Trajectory entries in time order: runs of failures, the successes that end
//! them, and the failures that nothing ends.
use vstd::prelude::*;

use crate::keys::arrange;
use crate::keys::sorted_pairs;
use crate::keys::sorted_texts;
use crate::order::arranged;
use crate::order::lemma_take_step;
use crate::order::opt_view;
use crate::order::sorted_keys;
use crate::order::text_lt;
use crate::order::views;
use crate::text::copy_opt;
use crate::text::join;
use crate::text::joined;
use crate::text::less;
use crate::text::same;
use crate::trajectory::actor_intent_key;
use crate::trajectory::actor_key;
use crate::trajectory::derive_intent_key;
use crate::trajectory::derive_intent_title;
use crate::trajectory::intent_key;
use crate::trajectory::intent_title;
use crate::trajectory::key_form;
use crate::trajectory::normalize_for_key;
use crate::trajectory::EntryView;
use crate::trajectory::TrajectoryEntry;

verus! {

/// The first entry is older than the second.
pub open spec fn earlier() -> spec_fn(EntryView, EntryView) -> bool {
    |a: EntryView, b: EntryView| text_lt(a.timestamp, b.timestamp)
}

/// The entries from the oldest to the newest.
pub open spec fn timeline(s: Seq<EntryView>) -> Seq<EntryView> {
    arranged(s, earlier())
}

/// The failures of an actor on an intent since its last success on it.
pub open spec fn open_failures(s: Seq<EntryView>, who: Seq<char>, key: Seq<char>) -> Seq<EntryView>
    decreases s.len(),
{
    if s.len() == 0 {
        Seq::empty()
    } else {
        let rest = open_failures(s.drop_last(), who, key);
        let e = s.last();
        if actor_key(e) != who || intent_key(e) != key {
            rest
        } else if e.success {
            Seq::empty()
        } else {
            rest.push(e)
        }
    }
}

/// The actions of entries.
pub open spec fn actions_of(s: Seq<EntryView>) -> Seq<Seq<char>> {
    Seq::new(s.len(), |i: int| s[i].action)
}

/// A success that ends a run of failures.
pub struct RecoveryView {
    /// The key of the intent.
    pub intent_key: Seq<char>,
    /// The title of the intent, by the entry that succeeded.
    pub intent_title: Seq<char>,
    /// The actions that failed before, in text order.
    pub failed_actions: Seq<Seq<char>>,
    /// The agent of the first failure.
    pub first_agent: Option<Seq<char>>,
    /// The action that succeeded.
    pub action: Seq<char>,
    /// The agent that succeeded.
    pub agent_id: Option<Seq<char>>,
    /// When it succeeded.
    pub timestamp: Seq<char>,
}

/// The recovery of entry `e` from the failures `failed`.
pub open spec fn recovery(e: EntryView, failed: Seq<EntryView>) -> RecoveryView {
    RecoveryView {
        intent_key: intent_key(e),
        intent_title: intent_title(e.intent, e.entity_type, e.action),
        failed_actions: sorted_keys(actions_of(failed)),
        first_agent: failed[0].agent_id,
        action: e.action,
        agent_id: e.agent_id,
        timestamp: e.timestamp,
    }
}

/// The recoveries in a timeline, in order.
pub open spec fn recoveries(s: Seq<EntryView>) -> Seq<RecoveryView>
    decreases s.len(),
{
    if s.len() == 0 {
        Seq::empty()
    } else {
        let e = s.last();
        let failed = open_failures(s.drop_last(), actor_key(e), intent_key(e));
        if e.success && failed.len() > 0 {
            recoveries(s.drop_last()).push(recovery(e, failed))
        } else {
            recoveries(s.drop_last())
        }
    }
}

/// The success came by another action than some failure before it.
pub open spec fn is_detour(r: RecoveryView) -> bool {
    exists|i: int| 0 <= i < r.failed_actions.len() && #[trigger] r.failed_actions[i] != r.action
}

/// The test for detours.
pub open spec fn detours() -> spec_fn(RecoveryView) -> bool {
    |r: RecoveryView| is_detour(r)
}

/// The test for recoveries of one intent.
pub open spec fn recovery_of(key: Seq<char>) -> spec_fn(RecoveryView) -> bool {
    |r: RecoveryView| r.intent_key == key
}

/// The key under which like detours are counted together.
pub open spec fn detour_key(r: RecoveryView) -> Seq<char> {
    r.intent_key + "::"@ + key_form(joined(r.failed_actions, ","@) + "->"@ + r.action)
}

/// The test for detours with one key.
pub open spec fn detour_with(key: Seq<char>) -> spec_fn(RecoveryView) -> bool {
    |r: RecoveryView| detour_key(r) == key
}

/// Failures of one actor on one intent with no success after them.
pub struct PendingView {
    /// The key of the intent.
    pub intent_key: Seq<char>,
    /// The actions that failed, in text order.
    pub failed_actions: Seq<Seq<char>>,
    /// The agent of the first failure.
    pub agent_id: Option<Seq<char>>,
    /// When the first failure happened.
    pub first_seen: Seq<char>,
    /// When the last failure happened.
    pub last_seen: Seq<char>,
}

/// The failures `failed` on an intent, taken together.
pub open spec fn pending(key: Seq<char>, failed: Seq<EntryView>) -> PendingView {
    PendingView {
        intent_key: key,
        failed_actions: sorted_keys(actions_of(failed)),
        agent_id: failed[0].agent_id,
        first_seen: failed[0].timestamp,
        last_seen: failed.last().timestamp,
    }
}

/// Each entry's actor and intent.
pub open spec fn pursuits(s: Seq<EntryView>) -> Seq<(Seq<char>, Seq<char>)> {
    Seq::new(s.len(), |i: int| (actor_key(s[i]), intent_key(s[i])))
}

/// What is pending in `s` of the given pursuits.
pub open spec fn pending_among(
    s: Seq<EntryView>,
    of: Seq<(Seq<char>, Seq<char>)>,
) -> Seq<PendingView>
    decreases of.len(),
{
    if of.len() == 0 {
        Seq::empty()
    } else {
        let rest = pending_among(s, of.drop_last());
        let failed = open_failures(s, of.last().0, of.last().1);
        if failed.len() > 0 {
            rest.push(pending(of.last().1, failed))
        } else {
            rest
        }
    }
}

/// What is pending at the end of a timeline, by actor, then by intent.
pub open spec fn pendings(s: Seq<EntryView>) -> Seq<PendingView> {
    pending_among(s, sorted_keys(pursuits(s)))
}

/// The test for what is pending on one intent.
pub open spec fn pending_of(key: Seq<char>) -> spec_fn(PendingView) -> bool {
    |p: PendingView| p.intent_key == key
}

/// An entry with its keys.
pub struct Tagged<'a> {
    /// The entry.
    pub entry: &'a TrajectoryEntry,
    /// The key of its intent.
    pub key: String,
    /// The key of its actor at work on the intent.
    pub actor: String,
}

impl<'a> View for Tagged<'a> {
    type V = EntryView;

    open spec fn view(&self) -> EntryView {
        self.entry@
    }
}

/// Each entry carries its own keys.
pub open spec fn tagged(v: Seq<Tagged<'_>>) -> bool {
    forall|i: int|
        0 <= i < v.len() ==> (#[trigger] v[i]).key@ == intent_key(v[i]@) && v[i].actor@
            == actor_key(v[i]@)
}

/// Entries from the oldest to the newest, those of one time in the order given.
pub fn sort_by_time<'a>(refs: Vec<&'a TrajectoryEntry>) -> (r: Vec<&'a TrajectoryEntry>)
    ensures
        views(r@) == timeline(views(refs@)),
{
    let ghost order = |a: &TrajectoryEntry, b: &TrajectoryEntry|
        text_lt(a.timestamp@, b.timestamp@);
    let ghost all = refs@;
    let before = |a: &&TrajectoryEntry, b: &&TrajectoryEntry| -> (d: bool)
        ensures
            d == order(*a, *b),
        { less(a.timestamp.as_str(), b.timestamp.as_str()) };
    proof {
        crate::keys::lemma_arranged_views(all, order, earlier());
    }
    arrange(refs, before, Ghost(order))
}

/// The entries from the oldest to the newest, those of one time in the order
/// given, each with its keys.
pub fn in_time_order<'a>(entries: &'a Vec<TrajectoryEntry>) -> (r: Vec<Tagged<'a>>)
    ensures
        views(r@) == timeline(views(entries@)),
        tagged(r@),
{
    let mut refs: Vec<&'a TrajectoryEntry> = Vec::new();
    let mut i: usize = 0;
    while i < entries.len()
        invariant
            i <= entries@.len(),
            refs@.len() == i,
            forall|j: int| 0 <= j < i ==> (#[trigger] refs@[j])@ == entries@[j]@,
        decreases entries@.len() - i,
    {
        refs.push(&entries[i]);
        i = i + 1;
    }
    assert(views(refs@) =~= views(entries@));
    let sorted = sort_by_time(refs);
    let mut r: Vec<Tagged<'a>> = Vec::new();
    let mut i: usize = 0;
    while i < sorted.len()
        invariant
            i <= sorted@.len(),
            r@.len() == i,
            forall|j: int| 0 <= j < i ==> (#[trigger] r@[j])@ == sorted@[j]@,
            tagged(r@),
        decreases sorted@.len() - i,
    {
        let entry = sorted[i];
        let key = derive_intent_key(entry);
        let actor = actor_intent_key(entry);
        r.push(Tagged { entry, key, actor });
        i = i + 1;
    }
    assert(views(r@) =~= views(sorted@));
    r
}

/// The failures of an actor on an intent among the first `n` entries, since its
/// last success on it.
pub fn open_before<'a>(
    v: &Vec<Tagged<'a>>,
    n: usize,
    who: &str,
    key: &str,
) -> (r: Vec<&'a TrajectoryEntry>)
    requires
        n <= v@.len(),
        tagged(v@),
    ensures
        views(r@) == open_failures(views(v@).take(n as int), who@, key@),
{
    let ghost all = views(v@);
    let mut r: Vec<&'a TrajectoryEntry> = Vec::new();
    let mut i: usize = 0;
    assert(all.take(0) =~= Seq::<EntryView>::empty());
    assert(views(r@) =~= Seq::<EntryView>::empty());
    while i < n
        invariant
            i <= n <= v@.len(),
            tagged(v@),
            all == views(v@),
            views(r@) == open_failures(all.take(i as int), who@, key@),
        decreases n - i,
    {
        proof {
            lemma_take_step(all, i as int);
            assert(all[i as int] == v@[i as int]@);
        }
        if same(v[i].actor.as_str(), who) && same(v[i].key.as_str(), key) {
            if v[i].entry.success {
                r = Vec::new();
                assert(views(r@) =~= Seq::<EntryView>::empty());
            } else {
                let ghost was = views(r@);
                r.push(v[i].entry);
                assert(views(r@) =~= was.push(all[i as int]));
            }
        }
        i = i + 1;
    }
    r
}

/// The actions of entries, each once, in text order.
pub fn action_set(m: &Vec<&TrajectoryEntry>) -> (r: Vec<String>)
    ensures
        views(r@) == sorted_keys(actions_of(views(m@))),
{
    let mut all: Vec<String> = Vec::new();
    let mut i: usize = 0;
    while i < m.len()
        invariant
            i <= m@.len(),
            all@.len() == i,
            forall|j: int| 0 <= j < i ==> (#[trigger] all@[j])@ == m@[j]@.action,
        decreases m@.len() - i,
    {
        all.push(m[i].action.clone());
        i = i + 1;
    }
    assert(views(all@) =~= actions_of(views(m@)));
    sorted_texts(&all)
}

/// A success that ends a run of failures.
pub struct Recovery {
    /// The key of the intent.
    pub intent_key: String,
    /// The title of the intent, by the entry that succeeded.
    pub intent_title: String,
    /// The actions that failed before, in text order.
    pub failed_actions: Vec<String>,
    /// The agent of the first failure.
    pub first_agent: Option<String>,
    /// The action that succeeded.
    pub action: String,
    /// The agent that succeeded.
    pub agent_id: Option<String>,
    /// When it succeeded.
    pub timestamp: String,
}

impl View for Recovery {
    type V = RecoveryView;

    open spec fn view(&self) -> RecoveryView {
        RecoveryView {
            intent_key: self.intent_key@,
            intent_title: self.intent_title@,
            failed_actions: views(self.failed_actions@),
            first_agent: opt_view(self.first_agent),
            action: self.action@,
            agent_id: opt_view(self.agent_id),
            timestamp: self.timestamp@,
        }
    }
}

impl Recovery {
    /// Whether the success came by another action than some failure before it.
    pub fn by_detour(&self) -> (r: bool)
        ensures
            r == is_detour(self@),
    {
        let mut i: usize = 0;
        while i < self.failed_actions.len()
            invariant
                i <= self.failed_actions@.len(),
                forall|j: int|
                    0 <= j < i ==> #[trigger] self@.failed_actions[j] == self@.action,
            decreases self.failed_actions@.len() - i,
        {
            if !same(self.failed_actions[i].as_str(), self.action.as_str()) {
                assert(self@.failed_actions[i as int] != self@.action);
                return true;
            }
            assert(self@.failed_actions[i as int] == self@.action);
            i = i + 1;
        }
        false
    }

    /// The key under which like detours are counted together.
    pub fn key(&self) -> (r: String)
        ensures
            r@ == detour_key(self@),
    {
        let failed = join(&self.failed_actions, ",");
        let path = crate::text::cat3(failed.as_str(), "->", self.action.as_str());
        let path = normalize_for_key(path.as_str());
        crate::text::cat3(self.intent_key.as_str(), "::", path.as_str())
    }
}

/// The recoveries in a timeline, in order.
pub fn find_recoveries(v: &Vec<Tagged<'_>>) -> (r: Vec<Recovery>)
    requires
        tagged(v@),
    ensures
        views(r@) == recoveries(views(v@)),
{
    let ghost all = views(v@);
    let mut r: Vec<Recovery> = Vec::new();
    let mut i: usize = 0;
    assert(all.take(0) =~= Seq::<EntryView>::empty());
    assert(views(r@) =~= Seq::<RecoveryView>::empty());
    while i < v.len()
        invariant
            i <= v@.len(),
            tagged(v@),
            all == views(v@),
            views(r@) == recoveries(all.take(i as int)),
        decreases v@.len() - i,
    {
        proof {
            lemma_take_step(all, i as int);
            assert(all[i as int] == v@[i as int]@);
        }
        let entry = v[i].entry;
        if entry.success {
            let failed = open_before(v, i, v[i].actor.as_str(), v[i].key.as_str());
            if failed.len() > 0 {
                let ghost was = views(r@);
                assert(views(failed@)[0] == failed@[0]@);
                let found = Recovery {
                    intent_key: v[i].key.clone(),
                    intent_title: derive_intent_title(
                        &entry.intent,
                        entry.entity_type.as_str(),
                        entry.action.as_str(),
                    ),
                    failed_actions: action_set(&failed),
                    first_agent: copy_opt(&failed[0].agent_id),
                    action: entry.action.clone(),
                    agent_id: copy_opt(&entry.agent_id),
                    timestamp: entry.timestamp.clone(),
                };
                assert(found@ == recovery(entry@, views(failed@)));
                r.push(found);
                assert(views(r@) =~= was.push(recovery(entry@, views(failed@))));
            }
        }
        i = i + 1;
    }
    assert(all.take(i as int) =~= all);
    r
}

/// Failures of one actor on one intent with no success after them.
pub struct Pending {
    /// The key of the intent.
    pub intent_key: String,
    /// The actions that failed, in text order.
    pub failed_actions: Vec<String>,
    /// The agent of the first failure.
    pub agent_id: Option<String>,
    /// When the first failure happened.
    pub first_seen: String,
    /// When the last failure happened.
    pub last_seen: String,
}

impl View for Pending {
    type V = PendingView;

    open spec fn view(&self) -> PendingView {
        PendingView {
            intent_key: self.intent_key@,
            failed_actions: views(self.failed_actions@),
            agent_id: opt_view(self.agent_id),
            first_seen: self.first_seen@,
            last_seen: self.last_seen@,
        }
    }
}

/// What is pending at the end of a timeline, by actor, then by intent.
pub fn find_pendings(v: &Vec<Tagged<'_>>) -> (r: Vec<Pending>)
    requires
        tagged(v@),
    ensures
        views(r@) == pendings(views(v@)),
{
    let ghost all = views(v@);
    let mut pairs: Vec<(String, String)> = Vec::new();
    let mut i: usize = 0;
    while i < v.len()
        invariant
            i <= v@.len(),
            tagged(v@),
            pairs@.len() == i,
            forall|j: int|
                0 <= j < i ==> (#[trigger] pairs@[j])@ == (actor_key(v@[j]@), intent_key(v@[j]@)),
        decreases v@.len() - i,
    {
        pairs.push((v[i].actor.clone(), v[i].key.clone()));
        i = i + 1;
    }
    assert(views(pairs@) =~= pursuits(all));
    let of = sorted_pairs(&pairs);
    let ghost ofs = views(of@);
    let mut r: Vec<Pending> = Vec::new();
    let mut i: usize = 0;
    assert(ofs.take(0) =~= Seq::<(Seq<char>, Seq<char>)>::empty());
    assert(views(r@) =~= Seq::<PendingView>::empty());
    assert(all.take(v@.len() as int) =~= all);
    while i < of.len()
        invariant
            i <= of@.len(),
            tagged(v@),
            all == views(v@),
            all.take(v@.len() as int) == all,
            ofs == views(of@),
            views(r@) == pending_among(all, ofs.take(i as int)),
        decreases of@.len() - i,
    {
        proof {
            lemma_take_step(ofs, i as int);
            assert(ofs[i as int] == of@[i as int]@);
        }
        let failed = open_before(v, v.len(), of[i].0.as_str(), of[i].1.as_str());
        if failed.len() > 0 {
            let ghost was = views(r@);
            assert(views(failed@)[0] == failed@[0]@);
            assert(views(failed@).last() == failed@[failed@.len() - 1]@);
            let found = Pending {
                intent_key: of[i].1.clone(),
                failed_actions: action_set(&failed),
                agent_id: copy_opt(&failed[0].agent_id),
                first_seen: failed[0].timestamp.clone(),
                last_seen: failed[failed.len() - 1].timestamp.clone(),
            };
            assert(found@ == pending(ofs[i as int].1, views(failed@)));
            r.push(found);
            assert(views(r@) =~= was.push(pending(ofs[i as int].1, views(failed@))));
        }
        i = i + 1;
    }
    assert(ofs.take(i as int) =~= ofs);
    r
}

} // verus!
