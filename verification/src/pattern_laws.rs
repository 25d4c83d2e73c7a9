//! What the evidence says of recoveries, detours and intents that were given up.
use vstd::prelude::*;

use crate::evidence::given;
use crate::evidence::latest;
use crate::evidence::of_intent;
use crate::intent_evidence::abandonments;
use crate::intent_evidence::earliest;
use crate::intent_evidence::evidence;
use crate::intent_evidence::more_abandoned;
use crate::intent_evidence::more_common;
use crate::intent_evidence::pending_actions;
use crate::intent_evidence::pending_keys;
use crate::intent_evidence::workarounds;
use crate::intent_evidence::AbandonmentView;
use crate::intent_evidence::WorkaroundView;
use crate::intent_laws::is_open_at;
use crate::intent_laws::lemma_listed_from;
use crate::intent_laws::lemma_open;
use crate::intent_laws::lemma_recovers_longer;
use crate::intent_laws::listed;
use crate::intent_laws::recovers;
use crate::order::arranged;
use crate::order::keep;
use crate::order::lemma_arranged_keeps;
use crate::order::lemma_keep;
use crate::order::lemma_sorted_keys;
use crate::order::sorted_keys;
use crate::order::strictly_sorted;
use crate::order::text_lt;
use crate::order::KeyOrder;
use crate::text::blank;
use crate::timeline::actions_of;
use crate::timeline::detour_key;
use crate::timeline::detour_with;
use crate::timeline::detours;
use crate::timeline::is_detour;
use crate::timeline::open_failures;
use crate::timeline::pending;
use crate::timeline::pending_among;
use crate::timeline::pending_of;
use crate::timeline::pendings;
use crate::timeline::pursuits;
use crate::timeline::recoveries;
use crate::timeline::recovery;
use crate::timeline::recovery_of;
use crate::timeline::timeline;
use crate::timeline::PendingView;
use crate::timeline::RecoveryView;
use crate::trajectory::actor_key;
use crate::trajectory::error_pattern;
use crate::trajectory::intent_key;
use crate::trajectory::EntryView;

verus! {

/// The text stands in the list if and only if it stands in the other.
pub open spec fn same_members(a: Seq<Seq<char>>, b: Seq<Seq<char>>) -> bool {
    forall|x: Seq<char>| #[trigger] a.contains(x) <==> b.contains(x)
}

/// The list is in text order, and each text stands in it once.
pub open spec fn is_ordered(a: Seq<Seq<char>>) -> bool {
    forall|i: int, j: int| 0 <= i < j < a.len() ==> text_lt(#[trigger] a[i], #[trigger] a[j])
}

proof fn lemma_sorted(s: Seq<Seq<char>>)
    ensures
        is_ordered(sorted_keys(s)),
        same_members(sorted_keys(s), s),
{
    lemma_sorted_keys(s);
    let k = sorted_keys(s);
    assert forall|i: int, j: int| 0 <= i < j < k.len() implies text_lt(
        #[trigger] k[i],
        #[trigger] k[j],
    ) by {
        assert(k[i].precedes(k[j]));
    }
}

/// The last value that is given is the one after which none is.
pub proof fn lemma_latest<A>(s: Seq<Option<A>>, j: int)
    requires
        0 <= j < s.len(),
        s[j] is Some,
        forall|k: int| j < k < s.len() ==> (#[trigger] s[k]) is None,
    ensures
        latest(s) == s[j],
    decreases s.len(),
{
    if j < s.len() - 1 {
        let f = s.drop_last();
        assert(s[s.len() - 1] is None);
        assert forall|k: int| j < k < f.len() implies (#[trigger] f[k]) is None by {
            assert(f[k] == s[k]);
        }
        assert(f[j] == s[j]);
        lemma_latest(f, j);
    }
}

proof fn lemma_given<A>(s: Seq<Option<A>>)
    ensures
        forall|x: A| #[trigger] given(s).contains(x) <==> s.contains(Some(x)),
    decreases s.len(),
{
    if s.len() > 0 {
        let f = s.drop_last();
        lemma_given(f);
        assert forall|x: A| #[trigger] given(s).contains(x) <==> s.contains(Some(x)) by {
            if given(s).contains(x) {
                let i = choose|i: int| 0 <= i < given(s).len() && given(s)[i] == x;
                if i < given(f).len() {
                    assert(given(f)[i] == x);
                    assert(given(f).contains(x));
                    assert(f.contains(Some(x)));
                    let j = choose|j: int| 0 <= j < f.len() && f[j] == Some(x);
                    assert(s[j] == Some(x));
                } else {
                    assert(s[s.len() - 1] == Some(x));
                }
            }
            if s.contains(Some(x)) {
                let j = choose|j: int| 0 <= j < s.len() && s[j] == Some(x);
                if j < f.len() {
                    assert(f[j] == Some(x));
                    assert(f.contains(Some(x)));
                    assert(given(f).contains(x));
                    let i = choose|i: int| 0 <= i < given(f).len() && given(f)[i] == x;
                    assert(given(s)[i] == x);
                } else {
                    assert(given(s)[given(s).len() - 1] == x);
                }
            }
        }
    }
}

/// The entries of an intent, in the order of time.
pub open spec fn on_intent(entries: Seq<EntryView>, key: Seq<char>) -> Seq<EntryView> {
    keep(timeline(entries), |e: EntryView| intent_key(e) == key)
}

proof fn lemma_on_intent(entries: Seq<EntryView>, key: Seq<char>)
    ensures
        on_intent(entries, key) == keep(timeline(entries), of_intent(key)),
{
    lemma_keep_alike(
        timeline(entries),
        |e: EntryView| intent_key(e) == key,
        of_intent(key),
    );
}

proof fn lemma_keep_alike<A>(s: Seq<A>, a: spec_fn(A) -> bool, b: spec_fn(A) -> bool)
    requires
        forall|i: int| 0 <= i < s.len() ==> a(#[trigger] s[i]) == b(s[i]),
    ensures
        keep(s, a) == keep(s, b),
    decreases s.len(),
{
    if s.len() > 0 {
        let f = s.drop_last();
        assert forall|i: int| 0 <= i < f.len() implies a(#[trigger] f[i]) == b(f[i]) by {
            assert(f[i] == s[i]);
        }
        lemma_keep_alike(f, a, b);
        assert(a(s[s.len() - 1]) == b(s[s.len() - 1]));
    }
}

/// The text stands in one of the entries.
pub open spec fn in_some(
    m: Seq<EntryView>,
    of: spec_fn(EntryView) -> Option<Seq<char>>,
    t: Seq<char>,
) -> bool {
    exists|i: int| 0 <= i < m.len() && of(#[trigger] m[i]) == Some(t)
}

proof fn lemma_list_of(
    m: Seq<EntryView>,
    all: Seq<Option<Seq<char>>>,
    of: spec_fn(EntryView) -> Option<Seq<char>>,
)
    requires
        all.len() == m.len(),
        forall|i: int| 0 <= i < m.len() ==> #[trigger] all[i] == of(m[i]),
    ensures
        is_ordered(sorted_keys(given(all))),
        forall|t: Seq<char>| #[trigger] sorted_keys(given(all)).contains(t) <==> in_some(m, of, t),
{
    lemma_sorted(given(all));
    lemma_given(all);
    assert forall|t: Seq<char>| #[trigger] sorted_keys(given(all)).contains(t) <==> in_some(
        m,
        of,
        t,
    ) by {
        if sorted_keys(given(all)).contains(t) {
            assert(given(all).contains(t));
            let i = choose|i: int| 0 <= i < all.len() && all[i] == Some(t);
            assert(of(m[i]) == Some(t));
        }
        if in_some(m, of, t) {
            let i = choose|i: int| 0 <= i < m.len() && of(#[trigger] m[i]) == Some(t);
            assert(all[i] == Some(t));
            assert(all.contains(Some(t)));
            assert(given(all).contains(t));
        }
    }
}

proof fn lemma_plain_list(
    m: Seq<EntryView>,
    all: Seq<Seq<char>>,
    k: Seq<EntryView>,
    of: spec_fn(EntryView) -> Option<Seq<char>>,
    f: spec_fn(EntryView) -> bool,
    text: spec_fn(EntryView) -> Seq<char>,
)
    requires
        k == keep(m, f),
        all.len() == k.len(),
        forall|i: int| 0 <= i < k.len() ==> #[trigger] all[i] == text(k[i]),
        forall|e: EntryView| #[trigger] of(e) == if f(e) {
            Some(text(e))
        } else {
            None
        },
    ensures
        is_ordered(sorted_keys(all)),
        forall|t: Seq<char>| #[trigger] sorted_keys(all).contains(t) <==> in_some(m, of, t),
{
    lemma_sorted(all);
    lemma_keep(m, f);
    assert forall|t: Seq<char>| #[trigger] sorted_keys(all).contains(t) <==> in_some(m, of, t) by {
        if sorted_keys(all).contains(t) {
            assert(all.contains(t));
            let i = choose|i: int| 0 <= i < all.len() && all[i] == t;
            assert(f(k[i]) && m.contains(k[i]));
            let j = choose|j: int| 0 <= j < m.len() && m[j] == k[i];
            assert(of(m[j]) == Some(t));
        }
        if in_some(m, of, t) {
            let j = choose|j: int| 0 <= j < m.len() && of(#[trigger] m[j]) == Some(t);
            assert(f(m[j]));
            assert(k.contains(m[j]));
            let i = choose|i: int| 0 <= i < k.len() && k[i] == m[j];
            assert(all[i] == t);
            assert(all.contains(t));
        }
    }
}

/// A candidate lists what its entries name, each once and in text order: the types, the
/// actions that were attempted, those that succeeded, the patterns of failures, and
/// the agents.
pub proof fn lemma_candidates_list(entries: Seq<EntryView>, i: int)
    requires
        0 <= i < listed(entries).len(),
    ensures
        ({
            let c = listed(entries)[i].seen;
            let m = on_intent(entries, c.intent_key);
            &&& is_ordered(c.entity_types) && is_ordered(c.attempted_actions) && is_ordered(
                c.successful_actions,
            ) && is_ordered(c.failure_patterns) && is_ordered(c.sample_agents)
            &&& forall|t: Seq<char>| #[trigger]
                c.entity_types.contains(t) <==> in_some(m, |e: EntryView| Some(e.entity_type), t)
            &&& forall|t: Seq<char>| #[trigger]
                c.attempted_actions.contains(t) <==> in_some(m, |e: EntryView| Some(e.action), t)
            &&& forall|t: Seq<char>| #[trigger]
                c.successful_actions.contains(t) <==> in_some(
                    m,
                    |e: EntryView|
                        if e.success {
                            Some(e.action)
                        } else {
                            None
                        },
                    t,
                )
            &&& forall|t: Seq<char>| #[trigger]
                c.failure_patterns.contains(t) <==> in_some(
                    m,
                    |e: EntryView|
                        if !e.success {
                            Some(error_pattern(e.error))
                        } else {
                            None
                        },
                    t,
                )
            &&& forall|t: Seq<char>| #[trigger]
                c.sample_agents.contains(t) <==> in_some(
                    m,
                    |e: EntryView|
                        if e.agent_id is Some && !blank(e.agent_id->0) {
                            e.agent_id
                        } else {
                            None
                        },
                    t,
                )
        }),
{
    lemma_listed_from(entries, i);
    let c = listed(entries)[i].seen;
    let m = on_intent(entries, c.intent_key);
    lemma_on_intent(entries, c.intent_key);
    let any = |e: EntryView| true;
    lemma_keep_all(m);
    lemma_plain_list(
        m,
        crate::evidence::types_of(m),
        m,
        |e: EntryView| Some(e.entity_type),
        any,
        |e: EntryView| e.entity_type,
    );
    lemma_plain_list(
        m,
        actions_of(m),
        m,
        |e: EntryView| Some(e.action),
        any,
        |e: EntryView| e.action,
    );
    let k = keep(m, crate::evidence::succeeded());
    lemma_plain_list(
        m,
        actions_of(k),
        k,
        |e: EntryView|
            if e.success {
                Some(e.action)
            } else {
                None
            },
        crate::evidence::succeeded(),
        |e: EntryView| e.action,
    );
    let l = keep(m, crate::evidence::failed());
    lemma_plain_list(
        m,
        crate::evidence::patterns_of(l),
        l,
        |e: EntryView|
            if !e.success {
                Some(error_pattern(e.error))
            } else {
                None
            },
        crate::evidence::failed(),
        |e: EntryView| error_pattern(e.error),
    );
    lemma_list_of(
        m,
        crate::evidence::agents_of(m),
        |e: EntryView|
            if e.agent_id is Some && !blank(e.agent_id->0) {
                e.agent_id
            } else {
                None
            },
    );
}

proof fn lemma_keep_all(m: Seq<EntryView>)
    ensures
        keep(m, |e: EntryView| true) == m,
    decreases m.len(),
{
    let f = |e: EntryView| true;
    if m.len() > 0 {
        lemma_keep_all(m.drop_last());
        assert(keep(m, f) =~= m);
    } else {
        assert(keep(m, f) =~= m);
    }
}

/// A candidate is titled after its first entry; it was seen first with that and last
/// with its last; what was last said of it and sent for it is its sample; and its
/// first four entries are its examples.
pub proof fn lemma_candidates_are_told(entries: Seq<EntryView>, i: int, j: int)
    requires
        0 <= i < listed(entries).len(),
        0 <= j < on_intent(entries, listed(entries)[i].seen.intent_key).len(),
    ensures
        ({
            let c = listed(entries)[i].seen;
            let m = on_intent(entries, c.intent_key);
            &&& c.first_seen == m[0].timestamp
            &&& c.last_seen == m[m.len() - 1].timestamp
            &&& c.intent_title == crate::trajectory::intent_title(
                m[0].intent,
                m[0].entity_type,
                m[0].action,
            )
            &&& c.intent_statement == crate::trajectory::statement(m[0])
            &&& c.symptom_title == crate::trajectory::symptom_title(m[0])
            &&& c.evidence_examples.len() == if m.len() <= 4 {
                m.len()
            } else {
                4
            }
            &&& j < 4 ==> c.evidence_examples[j] == crate::trajectory::sample(m[j])
            &&& m[j].request_body is Some && (forall|k: int|
                j < k < m.len() ==> (#[trigger] m[k]).request_body is None) ==> c.sample_body
                == m[j].request_body
            &&& m[j].intent is Some && !blank(m[j].intent->0) && (forall|k: int|
                j < k < m.len() ==> (#[trigger] m[k]).intent is None || blank(m[k].intent->0))
                ==> c.sample_intent == m[j].intent
        }),
{
    lemma_listed_from(entries, i);
    let c = listed(entries)[i].seen;
    let m = on_intent(entries, c.intent_key);
    lemma_on_intent(entries, c.intent_key);
    if m[j].request_body is Some && (forall|k: int|
        j < k < m.len() ==> (#[trigger] m[k]).request_body is None) {
        let b = crate::evidence::bodies_of(m);
        assert forall|k: int| j < k < b.len() implies (#[trigger] b[k]) is None by {
            assert(m[k].request_body is None);
        }
        lemma_latest(b, j);
    }
    if m[j].intent is Some && !blank(m[j].intent->0) && (forall|k: int|
        j < k < m.len() ==> (#[trigger] m[k]).intent is None || blank(m[k].intent->0)) {
        let b = crate::evidence::intents_of(m);
        assert forall|k: int| j < k < b.len() implies (#[trigger] b[k]) is None by {
            assert(m[k].intent is None || blank(m[k].intent->0));
        }
        lemma_latest(b, j);
    }
}

/// The positions before `n`.
pub open spec fn positions(n: nat) -> Seq<int> {
    Seq::new(n, |i: int| i)
}

/// The test for positions at which someone who had failed on the intent succeeded.
pub open spec fn recovering(s: Seq<EntryView>, key: Seq<char>) -> spec_fn(int) -> bool {
    |b: int| exists|a: int| #[trigger] recovers(s, a, b) && intent_key(s[b]) == key
}

/// The test for positions at which someone who had failed on the intent succeeded on it
/// by another action than one that had failed.
pub open spec fn going_round(s: Seq<EntryView>, key: Seq<char>) -> spec_fn(int) -> bool {
    |b: int|
        exists|a: int| #[trigger]
            recovers(s, a, b) && intent_key(s[b]) == key && s[a].action != s[b].action
}

/// The recovery tells of the success at a position, and of the failures before it.
pub open spec fn is_recovery_at(r: RecoveryView, s: Seq<EntryView>, b: int) -> bool {
    &&& 0 <= b < s.len()
    &&& s[b].success
    &&& r.intent_key == intent_key(s[b])
    &&& r.intent_title == crate::trajectory::intent_title(
        s[b].intent,
        s[b].entity_type,
        s[b].action,
    )
    &&& r.action == s[b].action
    &&& r.agent_id == s[b].agent_id
    &&& r.timestamp == s[b].timestamp
    &&& is_ordered(r.failed_actions)
    &&& forall|x: Seq<char>| #[trigger]
        r.failed_actions.contains(x) <==> failed_by(s, b, x)
    &&& exists|a: int| #[trigger]
        recovers(s, a, b) && r.first_agent == s[a].agent_id && forall|k: int| #[trigger]
            recovers(s, k, b) ==> a <= k
}

/// One of the failures that the success at a position came after was of the action.
pub open spec fn failed_by(s: Seq<EntryView>, b: int, x: Seq<char>) -> bool {
    exists|a: int| #[trigger] recovers(s, a, b) && s[a].action == x
}

proof fn lemma_first_open(s: Seq<EntryView>, who: Seq<char>, key: Seq<char>)
    requires
        open_failures(s, who, key).len() > 0,
    ensures
        exists|a: int| #[trigger]
            is_open_at(s, who, key, a) && s[a] == open_failures(s, who, key)[0] && forall|k: int|
                #[trigger] is_open_at(s, who, key, k) ==> a <= k,
    decreases s.len(),
{
    if s.len() > 0 {
        let f = s.drop_last();
        let e = s.last();
        let n = f.len() as int;
        let open = open_failures(s, who, key);
        let rest = open_failures(f, who, key);
        assert(s[n] == e);
        lemma_open(f, who, key);
        if rest.len() > 0 {
            lemma_first_open(f, who, key);
            let a = choose|a: int| #[trigger]
                is_open_at(f, who, key, a) && f[a] == rest[0] && forall|k: int| #[trigger]
                    is_open_at(f, who, key, k) ==> a <= k;
            assert(f[a] == s[a]);
            assert forall|k: int|
                a < k < s.len() && actor_key(#[trigger] s[k]) == who && intent_key(s[k])
                    == key implies !s[k].success by {
                if k < n {
                    assert(f[k] == s[k]);
                }
            }
            assert(is_open_at(s, who, key, a));
            assert(open[0] == rest[0]);
            assert forall|k: int| #[trigger] is_open_at(s, who, key, k) implies a <= k by {
                if k < n {
                    assert(f[k] == s[k]);
                    assert forall|l: int|
                        k < l < f.len() && actor_key(#[trigger] f[l]) == who && intent_key(f[l])
                            == key implies !f[l].success by {
                        assert(f[l] == s[l]);
                    }
                    assert(is_open_at(f, who, key, k));
                }
            }
        } else {
            assert(open[0] == e);
            assert(is_open_at(s, who, key, n));
            assert forall|k: int| #[trigger] is_open_at(s, who, key, k) implies n <= k by {
                if k < n {
                    assert(f[k] == s[k]);
                    assert forall|l: int|
                        k < l < f.len() && actor_key(#[trigger] f[l]) == who && intent_key(f[l])
                            == key implies !f[l].success by {
                        assert(f[l] == s[l]);
                    }
                    assert(is_open_at(f, who, key, k));
                    assert(rest.contains(f[k]));
                }
            }
        }
    }
}

proof fn lemma_recovery_at_end(s: Seq<EntryView>)
    requires
        s.len() > 0,
        s.last().success,
        open_failures(s.drop_last(), actor_key(s.last()), intent_key(s.last())).len() > 0,
    ensures
        is_recovery_at(
            recovery(
                s.last(),
                open_failures(s.drop_last(), actor_key(s.last()), intent_key(s.last())),
            ),
            s,
            s.len() - 1,
        ),
{
    let f = s.drop_last();
    let e = s.last();
    let n = f.len() as int;
    let who = actor_key(e);
    let key = intent_key(e);
    let open = open_failures(f, who, key);
    let r = recovery(e, open);
    assert(s.take(n) =~= f);
    assert(s[n] == e);
    lemma_sorted(actions_of(open));
    lemma_open(f, who, key);
    lemma_first_open(f, who, key);
    let a = choose|a: int| #[trigger]
        is_open_at(f, who, key, a) && f[a] == open[0] && forall|k: int| #[trigger]
            is_open_at(f, who, key, k) ==> a <= k;
    assert(f[a] == s[a]);
    assert(recovers(s, a, n));
    assert forall|k: int| #[trigger] recovers(s, k, n) implies a <= k by {
        assert(is_open_at(f, who, key, k));
    }
    assert forall|x: Seq<char>| #[trigger] r.failed_actions.contains(x) <==> failed_by(
        s,
        n,
        x,
    ) by {
        if r.failed_actions.contains(x) {
            assert(actions_of(open).contains(x));
            let j = choose|j: int| 0 <= j < actions_of(open).len() && actions_of(open)[j] == x;
            assert(open.contains(open[j]));
            let b = choose|b: int| #[trigger] is_open_at(f, who, key, b) && f[b] == open[j];
            assert(f[b] == s[b]);
            assert(recovers(s, b, n));
        }
        if failed_by(s, n, x) {
            let b = choose|b: int| #[trigger] recovers(s, b, n) && s[b].action == x;
            assert(is_open_at(f, who, key, b));
            assert(f[b] == s[b]);
            assert(open.contains(f[b]));
            let j = choose|j: int| 0 <= j < open.len() && open[j] == f[b];
            assert(actions_of(open)[j] == x);
            assert(actions_of(open).contains(x));
        }
    }
}

proof fn lemma_recovery_stays(r: RecoveryView, s: Seq<EntryView>, b: int)
    requires
        s.len() > 0,
        is_recovery_at(r, s.drop_last(), b),
    ensures
        is_recovery_at(r, s, b),
{
    let f = s.drop_last();
    assert(f[b] == s[b]);
    assert forall|x: Seq<char>| #[trigger] r.failed_actions.contains(x) <==> failed_by(
        s,
        b,
        x,
    ) by {
        if failed_by(f, b, x) {
            let a = choose|a: int| #[trigger] recovers(f, a, b) && f[a].action == x;
            lemma_recovers_longer(s, a, b);
            assert(f[a] == s[a]);
            assert(recovers(s, a, b) && s[a].action == x);
        }
        if failed_by(s, b, x) {
            let a = choose|a: int| #[trigger] recovers(s, a, b) && s[a].action == x;
            lemma_recovers_longer(s, a, b);
            assert(f[a] == s[a]);
            assert(recovers(f, a, b) && f[a].action == x);
        }
    }
    let a = choose|a: int| #[trigger]
        recovers(f, a, b) && r.first_agent == f[a].agent_id && forall|k: int| #[trigger]
            recovers(f, k, b) ==> a <= k;
    lemma_recovers_longer(s, a, b);
    assert(f[a] == s[a]);
    assert forall|k: int| #[trigger] recovers(s, k, b) implies a <= k by {
        lemma_recovers_longer(s, k, b);
    }
}

/// Every recovery tells of a success of someone who had failed on the intent, and of
/// the failures since their last success on it.
pub proof fn lemma_recoveries_are_told(s: Seq<EntryView>, i: int)
    requires
        0 <= i < recoveries(s).len(),
    ensures
        exists|b: int| #[trigger] is_recovery_at(recoveries(s)[i], s, b),
    decreases s.len(),
{
    if s.len() > 0 {
        let f = s.drop_last();
        let e = s.last();
        let open = open_failures(f, actor_key(e), intent_key(e));
        if i < recoveries(f).len() {
            assert(recoveries(s)[i] == recoveries(f)[i]);
            lemma_recoveries_are_told(f, i);
            let b = choose|b: int| #[trigger] is_recovery_at(recoveries(f)[i], f, b);
            lemma_recovery_stays(recoveries(f)[i], s, b);
        } else {
            lemma_recovery_at_end(s);
            assert(is_recovery_at(recoveries(s)[i], s, s.len() - 1));
        }
    }
}

proof fn lemma_positions_alike(s: Seq<EntryView>, key: Seq<char>)
    requires
        s.len() > 0,
    ensures
        keep(positions((s.len() - 1) as nat), recovering(s, key)) == keep(
            positions((s.len() - 1) as nat),
            recovering(s.drop_last(), key),
        ),
        keep(positions((s.len() - 1) as nat), going_round(s, key)) == keep(
            positions((s.len() - 1) as nat),
            going_round(s.drop_last(), key),
        ),
{
    let f = s.drop_last();
    let n = (s.len() - 1) as nat;
    let p = positions(n);
    assert forall|i: int| 0 <= i < p.len() implies recovering(s, key)(#[trigger] p[i]) == recovering(
        f,
        key,
    )(p[i]) && going_round(s, key)(p[i]) == going_round(f, key)(p[i]) by {
        let b = p[i];
        assert(b == i);
        assert(f[b] == s[b]);
        assert forall|a: int| #[trigger] recovers(s, a, b) == recovers(f, a, b) by {
            lemma_recovers_longer(s, a, b);
        }
        if recovering(s, key)(b) {
            let a = choose|a: int| #[trigger] recovers(s, a, b) && intent_key(s[b]) == key;
            assert(recovers(f, a, b));
        }
        if recovering(f, key)(b) {
            let a = choose|a: int| #[trigger] recovers(f, a, b) && intent_key(f[b]) == key;
            assert(recovers(s, a, b));
        }
        if going_round(s, key)(b) {
            let a = choose|a: int| #[trigger]
                recovers(s, a, b) && intent_key(s[b]) == key && s[a].action != s[b].action;
            assert(recovers(f, a, b));
            assert(f[a] == s[a]);
        }
        if going_round(f, key)(b) {
            let a = choose|a: int| #[trigger]
                recovers(f, a, b) && intent_key(f[b]) == key && f[a].action != f[b].action;
            assert(recovers(s, a, b));
            assert(f[a] == s[a]);
        }
    }
    lemma_keep_alike(p, recovering(s, key), recovering(f, key));
    lemma_keep_alike(p, going_round(s, key), going_round(f, key));
}

proof fn lemma_fares(s: Seq<EntryView>, key: Seq<char>)
    ensures
        keep(recoveries(s), recovery_of(key)).len() == keep(
            positions(s.len()),
            recovering(s, key),
        ).len(),
        keep(keep(recoveries(s), recovery_of(key)), detours()).len() == keep(
            positions(s.len()),
            going_round(s, key),
        ).len(),
    decreases s.len(),
{
    if s.len() > 0 {
        let f = s.drop_last();
        let e = s.last();
        let n = f.len() as int;
        let who = actor_key(e);
        let k = intent_key(e);
        let open = open_failures(f, who, k);
        let r = recovery(e, open);
        lemma_fares(f, key);
        lemma_positions_alike(s, key);
        assert(positions(s.len()).drop_last() =~= positions(f.len()));
        assert(positions(s.len()).last() == n);
        assert(s[n] == e);
        assert(s.take(n) =~= f);
        if e.success && open.len() > 0 {
            lemma_recovery_at_end(s);
            assert(recoveries(s).drop_last() =~= recoveries(f));
            let a = choose|a: int| #[trigger]
                recovers(s, a, n) && r.first_agent == s[a].agent_id && forall|j: int| #[trigger]
                    recovers(s, j, n) ==> a <= j;
            assert(recovers(s, a, n));
            assert(recovering(s, key)(n) == (k == key));
            if k == key {
                assert(keep(recoveries(s), recovery_of(key)).drop_last() =~= keep(
                    recoveries(f),
                    recovery_of(key),
                ));
            }
            if is_detour(r) {
                let i = choose|i: int|
                    0 <= i < r.failed_actions.len() && #[trigger] r.failed_actions[i] != r.action;
                assert(r.failed_actions.contains(r.failed_actions[i]));
                assert(failed_by(s, n, r.failed_actions[i]));
                let b = choose|b: int| #[trigger]
                    recovers(s, b, n) && s[b].action == r.failed_actions[i];
                assert(going_round(s, key)(n) == (k == key));
            }
            if going_round(s, key)(n) {
                let b = choose|b: int| #[trigger]
                    recovers(s, b, n) && intent_key(s[n]) == key && s[b].action != s[n].action;
                assert(failed_by(s, n, s[b].action));
                assert(r.failed_actions.contains(s[b].action));
                let i = choose|i: int|
                    0 <= i < r.failed_actions.len() && r.failed_actions[i] == s[b].action;
                assert(r.failed_actions[i] != r.action);
            }
        } else {
            assert(!recovering(s, key)(n) && !going_round(s, key)(n)) by {
                if exists|a: int| #[trigger] recovers(s, a, n) {
                    let a = choose|a: int| #[trigger] recovers(s, a, n);
                    lemma_open(f, who, k);
                    assert(is_open_at(f, who, k, a));
                    assert(open.contains(f[a]));
                }
            }
        }
    }
}

/// The actors who failed on an intent and did not succeed on it since.
pub open spec fn gave_up(s: Seq<EntryView>, key: Seq<char>) -> Set<Seq<char>> {
    Set::new(|who: Seq<char>| exists|a: int| #[trigger] is_open_at(s, who, key, a))
}

spec fn gave_up_of(
    s: Seq<EntryView>,
    of: Seq<(Seq<char>, Seq<char>)>,
    key: Seq<char>,
) -> Set<Seq<char>> {
    Set::new(
        |who: Seq<char>| of.contains((who, key)) && open_failures(s, who, key).len() > 0,
    )
}

proof fn lemma_gave_up_of(s: Seq<EntryView>, of: Seq<(Seq<char>, Seq<char>)>, key: Seq<char>)
    requires
        of.no_duplicates(),
    ensures
        gave_up_of(s, of, key).finite(),
        gave_up_of(s, of, key).len() == keep(pending_among(s, of), pending_of(key)).len(),
    decreases of.len(),
{
    let all = gave_up_of(s, of, key);
    if of.len() == 0 {
        assert(all =~= Set::empty());
        assert(keep(pending_among(s, of), pending_of(key)) =~= Seq::empty());
    } else {
        let f = of.drop_last();
        let p = of.last();
        let rest = gave_up_of(s, f, key);
        lemma_gave_up_of(s, f, key);
        let open = open_failures(s, p.0, p.1);
        if open.len() > 0 {
            assert(pending_among(s, of).drop_last() =~= pending_among(s, f));
        }
        if p.1 == key && open.len() > 0 {
            assert(!f.contains(p)) by {
                if f.contains(p) {
                    let i = choose|i: int| 0 <= i < f.len() && f[i] == p;
                    assert(of[i] == of[of.len() - 1]);
                }
            }
            assert(!rest.contains(p.0)) by {
                if rest.contains(p.0) {
                    assert(f.contains((p.0, key)));
                }
            }
            assert(all =~= rest.insert(p.0)) by {
                assert forall|who: Seq<char>| all.contains(who) <==> rest.insert(p.0).contains(
                    who,
                ) by {
                    lemma_contains_last(of, (who, key));
                }
            }
        } else {
            assert(all =~= rest) by {
                assert forall|who: Seq<char>| all.contains(who) <==> rest.contains(who) by {
                    lemma_contains_last(of, (who, key));
                }
            }
        }
    }
}

proof fn lemma_contains_last(of: Seq<(Seq<char>, Seq<char>)>, x: (Seq<char>, Seq<char>))
    requires
        of.len() > 0,
    ensures
        of.contains(x) <==> of.drop_last().contains(x) || of.last() == x,
{
    let f = of.drop_last();
    if of.contains(x) {
        let i = choose|i: int| 0 <= i < of.len() && of[i] == x;
        if i < f.len() {
            assert(f[i] == x);
        }
    }
    if f.contains(x) {
        let i = choose|i: int| 0 <= i < f.len() && f[i] == x;
        assert(of[i] == x);
    }
    if of.last() == x {
        assert(of[of.len() - 1] == x);
    }
}

/// A candidate counts how its actors fared, in the order of time: each success of one
/// who had failed on the intent since they last succeeded; each such success by another
/// action than one that had failed; and each actor who failed and did not succeed
/// since.
pub proof fn lemma_fares_are_counted(entries: Seq<EntryView>, i: int)
    requires
        0 <= i < listed(entries).len(),
    ensures
        ({
            let c = listed(entries)[i].seen;
            let s = timeline(entries);
            &&& c.success_after_failure_count == keep(
                positions(s.len()),
                recovering(s, c.intent_key),
            ).len()
            &&& c.workaround_count == keep(positions(s.len()), going_round(s, c.intent_key)).len()
            &&& gave_up(s, c.intent_key).finite()
            &&& c.abandonment_count == gave_up(s, c.intent_key).len()
        }),
{
    lemma_listed_from(entries, i);
    let s = timeline(entries);
    let key = listed(entries)[i].seen.intent_key;
    lemma_fares(s, key);
    lemma_gave_up(s, key);
}

proof fn lemma_gave_up(s: Seq<EntryView>, key: Seq<char>)
    ensures
        gave_up(s, key).finite(),
        gave_up(s, key).len() == keep(pendings(s), pending_of(key)).len(),
{
    let of = sorted_keys(pursuits(s));
    lemma_sorted_keys(pursuits(s));
    assert(of.no_duplicates()) by {
        assert forall|i: int, j: int| 0 <= i < of.len() && 0 <= j < of.len() && i != j implies of[i]
            != of[j] by {
            lemma_distinct(of, i, j);
        }
    }
    lemma_gave_up_of(s, of, key);
    assert(gave_up(s, key) =~= gave_up_of(s, of, key)) by {
        assert forall|who: Seq<char>| gave_up(s, key).contains(who) <==> gave_up_of(
            s,
            of,
            key,
        ).contains(who) by {
            lemma_open(s, who, key);
            let open = open_failures(s, who, key);
            if gave_up(s, key).contains(who) {
                let a = choose|a: int| #[trigger] is_open_at(s, who, key, a);
                assert(open.contains(s[a]));
                assert(pursuits(s)[a] == (who, key));
                assert(pursuits(s).contains((who, key)));
                assert(of.contains((who, key)));
            }
            if gave_up_of(s, of, key).contains(who) {
                assert(open.contains(open[0]));
                let a = choose|a: int| #[trigger] is_open_at(s, who, key, a) && s[a] == open[0];
                assert(is_open_at(s, who, key, a));
            }
        }
    }
}

proof fn lemma_distinct(of: Seq<(Seq<char>, Seq<char>)>, i: int, j: int)
    requires
        strictly_sorted(of),
        0 <= i < of.len(),
        0 <= j < of.len(),
        i != j,
    ensures
        of[i] != of[j],
{
    <(Seq<char>, Seq<char>) as KeyOrder>::irreflexive(of[i]);
    if i < j {
        assert(of[i].precedes(of[j]));
    } else {
        assert(of[j].precedes(of[i]));
    }
}

/// The test for recoveries that are detours of one sort: by another action than some
/// that failed, with one intent, one list of failed actions and one action, as far as
/// a key tells them apart.
pub open spec fn detours_like(key: Seq<char>) -> spec_fn(RecoveryView) -> bool {
    |r: RecoveryView|
        detour_key(r) == key && exists|x: Seq<char>| #[trigger]
            r.failed_actions.contains(x) && x != r.action
}

proof fn lemma_detours_like(s: Seq<RecoveryView>, key: Seq<char>)
    ensures
        keep(keep(s, detours()), detour_with(key)) == keep(s, detours_like(key)),
    decreases s.len(),
{
    if s.len() > 0 {
        let f = s.drop_last();
        let r = s.last();
        lemma_detours_like(f, key);
        if is_detour(r) {
            let i = choose|i: int|
                0 <= i < r.failed_actions.len() && #[trigger] r.failed_actions[i] != r.action;
            assert(r.failed_actions.contains(r.failed_actions[i]));
            assert(keep(s, detours()).drop_last() =~= keep(f, detours()));
        }
        if exists|x: Seq<char>| #[trigger] r.failed_actions.contains(x) && x != r.action {
            let x = choose|x: Seq<char>| #[trigger] r.failed_actions.contains(x) && x != r.action;
            let i = choose|i: int| 0 <= i < r.failed_actions.len() && r.failed_actions[i] == x;
            assert(r.failed_actions[i] != r.action);
        }
        assert(detours_like(key)(r) == (detours()(r) && detour_with(key)(r)));
    }
}

/// The workaround tells of detours of one sort.
pub open spec fn tells_detours(w: WorkaroundView, s: Seq<EntryView>, key: Seq<char>) -> bool {
    let d = keep(recoveries(s), detours_like(key));
    &&& d.len() > 0
    &&& w.occurrences == d.len()
    &&& w.intent_key == d[0].intent_key
    &&& w.intent_title == d[0].intent_title
    &&& w.failed_actions == d[0].failed_actions
    &&& w.last_seen == d[d.len() - 1].timestamp
    &&& w.recommendation == "Inspect '"@ + d[0].intent_title
        + "' and graduate the successful alternate path into a supported single-step workflow."@
    &&& is_ordered(w.successful_actions) && is_ordered(w.sample_agents)
    &&& forall|t: Seq<char>| #[trigger]
        w.successful_actions.contains(t) <==> exists|i: int|
            0 <= i < d.len() && (#[trigger] d[i]).action == t
    &&& forall|t: Seq<char>| #[trigger]
        w.sample_agents.contains(t) <==> exists|i: int|
            0 <= i < d.len() && named_in(#[trigger] d[i], t)
}

/// The agent failed first in a detour or succeeded in it, and has a name.
pub open spec fn named_in(r: RecoveryView, t: Seq<char>) -> bool {
    !blank(t) && (r.first_agent == Some(t) || r.agent_id == Some(t))
}

proof fn lemma_detour_agents(d: Seq<RecoveryView>, t: Seq<char>)
    ensures
        crate::intent_evidence::detour_agents(d).contains(Some(t)) <==> exists|i: int|
            0 <= i < d.len() && named_in(#[trigger] d[i], t),
    decreases d.len(),
{
    let a = crate::intent_evidence::detour_agents(d);
    if d.len() > 0 {
        let f = d.drop_last();
        let b = crate::intent_evidence::detour_agents(f);
        let n = b.len() as int;
        lemma_detour_agents(f, t);
        assert(a.len() == n + 2);
        assert(a[n] == crate::trajectory::stated(d.last().first_agent));
        assert(a[n + 1] == crate::trajectory::stated(d.last().agent_id));
        if a.contains(Some(t)) {
            let i = choose|i: int| 0 <= i < a.len() && a[i] == Some(t);
            if i < n {
                assert(b[i] == Some(t));
                assert(b.contains(Some(t)));
                let j = choose|j: int| 0 <= j < f.len() && named_in(#[trigger] f[j], t);
                assert(named_in(d[j], t));
            } else {
                assert(named_in(d[d.len() - 1], t));
            }
        }
        if exists|i: int| 0 <= i < d.len() && named_in(#[trigger] d[i], t) {
            let i = choose|i: int| 0 <= i < d.len() && named_in(#[trigger] d[i], t);
            if i < f.len() {
                assert(named_in(f[i], t));
                assert(b.contains(Some(t)));
                let j = choose|j: int| 0 <= j < b.len() && b[j] == Some(t);
                assert(a[j] == Some(t));
            } else if d.last().first_agent == Some(t) {
                assert(a[n] == Some(t));
            } else {
                assert(a[n + 1] == Some(t));
            }
        }
    }
}

proof fn lemma_tells_detours(s: Seq<EntryView>, key: Seq<char>)
    requires
        keep(recoveries(s), detours_like(key)).len() > 0,
    ensures
        tells_detours(
            crate::intent_evidence::workaround(keep(recoveries(s), detours_like(key))),
            s,
            key,
        ),
{
    let d = keep(recoveries(s), detours_like(key));
    let w = crate::intent_evidence::workaround(d);
    let acts = crate::intent_evidence::detour_actions(d);
    let ags = crate::intent_evidence::detour_agents(d);
    lemma_sorted(acts);
    lemma_sorted(given(ags));
    lemma_given(ags);
    assert forall|t: Seq<char>| #[trigger] w.successful_actions.contains(t) <==> exists|i: int|
        0 <= i < d.len() && (#[trigger] d[i]).action == t by {
        if w.successful_actions.contains(t) {
            assert(acts.contains(t));
            let i = choose|i: int| 0 <= i < acts.len() && acts[i] == t;
            assert(d[i].action == t);
        }
        if exists|i: int| 0 <= i < d.len() && (#[trigger] d[i]).action == t {
            let i = choose|i: int| 0 <= i < d.len() && (#[trigger] d[i]).action == t;
            assert(acts[i] == t);
            assert(acts.contains(t));
        }
    }
    assert forall|t: Seq<char>| #[trigger] w.sample_agents.contains(t) <==> exists|i: int|
        0 <= i < d.len() && named_in(#[trigger] d[i], t) by {
        lemma_detour_agents(d, t);
        assert(w.sample_agents.contains(t) <==> given(ags).contains(t));
    }
}

/// Every workaround of the evidence tells of detours of one sort, how many they were
/// and when the last was; those that happened more often come first.
pub proof fn lemma_detours_are_told(entries: Seq<EntryView>, i: int, j: int)
    requires
        0 <= i < evidence(entries).workaround_patterns.len(),
    ensures
        ({
            let s = timeline(entries);
            let all = evidence(entries).workaround_patterns;
            &&& exists|key: Seq<char>| #[trigger] tells_detours(all[i], s, key)
            &&& i < j < all.len() ==> all[i].occurrences >= all[j].occurrences
        }),
{
    let s = timeline(entries);
    let d = keep(recoveries(s), detours());
    let ws = workarounds(d);
    let all = arranged(ws, more_common());
    let w = evidence(entries).workaround_patterns[i];
    lemma_arranged_keeps(ws, more_common(), |x: WorkaroundView| true);
    assert(all[i] == w);
    assert(all.contains(w));
    assert(ws.contains(w));
    let n = choose|n: int| 0 <= n < ws.len() && ws[n] == w;
    let dk = crate::intent_evidence::detour_keys(d);
    let ks = sorted_keys(dk);
    lemma_sorted_keys(dk);
    lemma_detours_like(recoveries(s), ks[n]);
    assert(ks.contains(ks[n]));
    assert(dk.contains(ks[n]));
    let m = choose|m: int| 0 <= m < dk.len() && dk[m] == ks[n];
    lemma_keep(d, detour_with(ks[n]));
    assert(detour_with(ks[n])(d[m]));
    assert(keep(d, detour_with(ks[n])).contains(d[m]));
    lemma_tells_detours(s, ks[n]);
    assert(tells_detours(w, s, ks[n]));
    crate::evidence_laws::lemma_evidence_lists(entries);
    let l = evidence(entries).workaround_patterns;
    if i < j < l.len() {
        assert(!more_common()(l[j], l[i]));
    }
}

/// Every detour is told, unless eight workarounds are listed already.
pub proof fn lemma_detours_are_listed(entries: Seq<EntryView>, b: int)
    requires
        0 <= b < recoveries(timeline(entries)).len(),
        is_detour(recoveries(timeline(entries))[b]),
    ensures
        evidence(entries).workaround_patterns.len() == 8 || exists|i: int|
            0 <= i < evidence(entries).workaround_patterns.len() && tells_detours(
                #[trigger] evidence(entries).workaround_patterns[i],
                timeline(entries),
                detour_key(recoveries(timeline(entries))[b]),
            ),
{
    let s = timeline(entries);
    let r = recoveries(s)[b];
    let key = detour_key(r);
    let d = keep(recoveries(s), detours());
    let ws = workarounds(d);
    let all = arranged(ws, more_common());
    let dk = crate::intent_evidence::detour_keys(d);
    let ks = sorted_keys(dk);
    lemma_arranged_keeps(ws, more_common(), |x: WorkaroundView| true);
    lemma_keep(recoveries(s), detours());
    assert(detours()(recoveries(s)[b]));
    assert(d.contains(recoveries(s)[b]));
    let m = choose|m: int| 0 <= m < d.len() && d[m] == r;
    assert(dk[m] == key);
    assert(dk.contains(key));
    lemma_sorted_keys(dk);
    let n = choose|n: int| 0 <= n < ks.len() && ks[n] == key;
    lemma_detours_like(recoveries(s), key);
    lemma_keep(d, detour_with(key));
    assert(detour_with(key)(d[m]));
    assert(keep(d, detour_with(key)).contains(d[m]));
    lemma_tells_detours(s, key);
    let w = ws[n];
    assert(ws.contains(w));
    assert(all.contains(w));
    let i = choose|i: int| 0 <= i < all.len() && all[i] == w;
    if all.len() <= 8 {
        assert(tells_detours(evidence(entries).workaround_patterns[i], s, key));
    }
}

/// What is pending tells of the failures of one actor on an intent since they last
/// succeeded on it.
pub open spec fn is_pending(
    p: PendingView,
    s: Seq<EntryView>,
    who: Seq<char>,
    key: Seq<char>,
) -> bool {
    &&& p.intent_key == key
    &&& is_ordered(p.failed_actions)
    &&& forall|x: Seq<char>| #[trigger]
        p.failed_actions.contains(x) <==> exists|a: int| #[trigger]
            is_open_at(s, who, key, a) && s[a].action == x
    &&& exists|a: int| #[trigger]
        is_open_at(s, who, key, a) && p.agent_id == s[a].agent_id && p.first_seen == s[a].timestamp
            && forall|k: int| #[trigger] is_open_at(s, who, key, k) ==> a <= k
    &&& exists|a: int| #[trigger]
        is_open_at(s, who, key, a) && p.last_seen == s[a].timestamp && forall|k: int| #[trigger]
            is_open_at(s, who, key, k) ==> k <= a
}

proof fn lemma_last_open(s: Seq<EntryView>, who: Seq<char>, key: Seq<char>)
    requires
        open_failures(s, who, key).len() > 0,
    ensures
        exists|a: int| #[trigger]
            is_open_at(s, who, key, a) && s[a] == open_failures(s, who, key).last() && forall|k: int|
                #[trigger] is_open_at(s, who, key, k) ==> k <= a,
    decreases s.len(),
{
    if s.len() > 0 {
        let f = s.drop_last();
        let e = s.last();
        let n = f.len() as int;
        let open = open_failures(s, who, key);
        let rest = open_failures(f, who, key);
        assert(s[n] == e);
        if actor_key(e) != who || intent_key(e) != key {
            lemma_last_open(f, who, key);
            let a = choose|a: int| #[trigger]
                is_open_at(f, who, key, a) && f[a] == rest.last() && forall|k: int| #[trigger]
                    is_open_at(f, who, key, k) ==> k <= a;
            assert(f[a] == s[a]);
            assert forall|k: int|
                a < k < s.len() && actor_key(#[trigger] s[k]) == who && intent_key(s[k])
                    == key implies !s[k].success by {
                if k < n {
                    assert(f[k] == s[k]);
                }
            }
            assert(is_open_at(s, who, key, a));
            assert forall|k: int| #[trigger] is_open_at(s, who, key, k) implies k <= a by {
                if k < n {
                    assert(f[k] == s[k]);
                    assert forall|l: int|
                        k < l < f.len() && actor_key(#[trigger] f[l]) == who && intent_key(f[l])
                            == key implies !f[l].success by {
                        assert(f[l] == s[l]);
                    }
                    assert(is_open_at(f, who, key, k));
                }
            }
        } else {
            assert(open.last() == e);
            assert(is_open_at(s, who, key, n));
        }
    }
}

proof fn lemma_is_pending(s: Seq<EntryView>, who: Seq<char>, key: Seq<char>)
    requires
        open_failures(s, who, key).len() > 0,
    ensures
        is_pending(pending(key, open_failures(s, who, key)), s, who, key),
{
    let open = open_failures(s, who, key);
    let p = pending(key, open);
    lemma_sorted(actions_of(open));
    lemma_open(s, who, key);
    lemma_first_open(s, who, key);
    lemma_last_open(s, who, key);
    assert forall|x: Seq<char>| #[trigger] p.failed_actions.contains(x) <==> exists|a: int|
        #[trigger] is_open_at(s, who, key, a) && s[a].action == x by {
        if p.failed_actions.contains(x) {
            assert(actions_of(open).contains(x));
            let j = choose|j: int| 0 <= j < actions_of(open).len() && actions_of(open)[j] == x;
            assert(open.contains(open[j]));
            let a = choose|a: int| #[trigger] is_open_at(s, who, key, a) && s[a] == open[j];
            assert(s[a].action == x);
        }
        if exists|a: int| #[trigger] is_open_at(s, who, key, a) && s[a].action == x {
            let a = choose|a: int| #[trigger] is_open_at(s, who, key, a) && s[a].action == x;
            assert(open.contains(s[a]));
            let j = choose|j: int| 0 <= j < open.len() && open[j] == s[a];
            assert(actions_of(open)[j] == x);
            assert(actions_of(open).contains(x));
        }
    }
}

/// All that is pending tells of an actor who gave up on an intent.
pub proof fn lemma_pendings_are_told(s: Seq<EntryView>, i: int)
    requires
        0 <= i < pendings(s).len(),
    ensures
        exists|who: Seq<char>| #[trigger]
            is_pending(pendings(s)[i], s, who, pendings(s)[i].intent_key),
{
    lemma_pending_one(s, sorted_keys(pursuits(s)), i);
}

proof fn lemma_pending_one(s: Seq<EntryView>, of: Seq<(Seq<char>, Seq<char>)>, i: int)
    requires
        0 <= i < pending_among(s, of).len(),
    ensures
        exists|who: Seq<char>| #[trigger]
            is_pending(pending_among(s, of)[i], s, who, pending_among(s, of)[i].intent_key),
    decreases of.len(),
{
    if of.len() > 0 {
        let f = of.drop_last();
        let rest = pending_among(s, f);
        if i < rest.len() {
            assert(pending_among(s, of)[i] == rest[i]);
            lemma_pending_one(s, f, i);
            let who = choose|who: Seq<char>| #[trigger]
                is_pending(rest[i], s, who, rest[i].intent_key);
            assert(is_pending(pending_among(s, of)[i], s, who, pending_among(s, of)[i].intent_key));
        } else {
            lemma_is_pending(s, of.last().0, of.last().1);
            assert(is_pending(
                pending_among(s, of)[i],
                s,
                of.last().0,
                pending_among(s, of)[i].intent_key,
            ));
        }
    }
}

proof fn lemma_earliest(p: Seq<PendingView>)
    requires
        p.len() > 0,
    ensures
        exists|i: int| 0 <= i < p.len() && (#[trigger] p[i]).first_seen == earliest(p),
        forall|i: int| 0 <= i < p.len() ==> !text_lt((#[trigger] p[i]).first_seen, earliest(p)),
    decreases p.len(),
{
    let f = p.drop_last();
    if p.len() == 1 {
        assert(p[0].first_seen == earliest(p));
        <Seq<char> as KeyOrder>::irreflexive(p[0].first_seen);
    } else {
        lemma_earliest(f);
        let i = choose|i: int| 0 <= i < f.len() && (#[trigger] f[i]).first_seen == earliest(f);
        assert(p[i] == f[i]);
        let l = p.last().first_seen;
        <Seq<char> as KeyOrder>::irreflexive(l);
        assert(p[p.len() - 1].first_seen == l);
        assert forall|k: int| 0 <= k < p.len() implies !text_lt(
            (#[trigger] p[k]).first_seen,
            earliest(p),
        ) by {
            if k < f.len() {
                assert(f[k] == p[k]);
                crate::evidence_laws::lemma_text_weak(f[k].first_seen, earliest(f), l);
                crate::evidence_laws::lemma_text_weak(l, earliest(f), l);
            }
        }
    }
}

proof fn lemma_pending_actions(p: Seq<PendingView>, x: Seq<char>)
    ensures
        pending_actions(p).contains(x) <==> exists|i: int|
            0 <= i < p.len() && (#[trigger] p[i]).failed_actions.contains(x),
    decreases p.len(),
{
    let a = pending_actions(p);
    if p.len() > 0 {
        let f = p.drop_last();
        let b = pending_actions(f);
        let l = p.last().failed_actions;
        lemma_pending_actions(f, x);
        if a.contains(x) {
            let i = choose|i: int| 0 <= i < a.len() && a[i] == x;
            if i < b.len() {
                assert(b[i] == x);
                assert(b.contains(x));
                let j = choose|j: int| 0 <= j < f.len() && (#[trigger] f[j]).failed_actions.contains(x);
                assert(p[j] == f[j]);
            } else {
                assert(l[i - b.len()] == x);
                assert(p[p.len() - 1].failed_actions.contains(x));
            }
        }
        if exists|i: int| 0 <= i < p.len() && (#[trigger] p[i]).failed_actions.contains(x) {
            let i = choose|i: int| 0 <= i < p.len() && (#[trigger] p[i]).failed_actions.contains(x);
            if i < f.len() {
                assert(f[i] == p[i]);
                assert(b.contains(x));
                let j = choose|j: int| 0 <= j < b.len() && b[j] == x;
                assert(a[j] == x);
            } else {
                let j = choose|j: int| 0 <= j < l.len() && l[j] == x;
                assert(a[b.len() + j] == x);
            }
        }
    }
}

/// The abandonment tells of all who gave up on an intent.
pub open spec fn tells_giving_up(w: AbandonmentView, s: Seq<EntryView>) -> bool {
    let p = keep(pendings(s), |x: PendingView| x.intent_key == w.intent_key);
    let m = keep(s, |e: EntryView| intent_key(e) == w.intent_key);
    &&& p.len() > 0
    &&& w.abandonment_count == p.len()
    &&& w.intent_title == crate::trajectory::intent_title(
        m[0].intent,
        m[0].entity_type,
        m[0].action,
    )
    &&& w.recommendation == "Investigate why '"@ + w.intent_title
        + "' never reaches a successful outcome after the observed failed attempts."@
    &&& w.last_seen == p[p.len() - 1].last_seen
    &&& exists|i: int| 0 <= i < p.len() && (#[trigger] p[i]).first_seen == w.first_seen
    &&& forall|i: int| 0 <= i < p.len() ==> !text_lt((#[trigger] p[i]).first_seen, w.first_seen)
    &&& is_ordered(w.failed_actions) && is_ordered(w.sample_agents)
    &&& forall|x: Seq<char>| #[trigger]
        w.failed_actions.contains(x) <==> exists|i: int|
            0 <= i < p.len() && (#[trigger] p[i]).failed_actions.contains(x)
    &&& forall|x: Seq<char>| #[trigger]
        w.sample_agents.contains(x) <==> !blank(x) && exists|i: int|
            0 <= i < p.len() && (#[trigger] p[i]).agent_id == Some(x)
}

proof fn lemma_tells_giving_up(s: Seq<EntryView>, key: Seq<char>)
    requires
        keep(pendings(s), pending_of(key)).len() > 0,
    ensures
        tells_giving_up(
            crate::intent_evidence::abandonment(
                crate::intent_evidence::title_in(s, key),
                key,
                keep(pendings(s), pending_of(key)),
            ),
            s,
        ),
{
    let p = keep(pendings(s), pending_of(key));
    let w = crate::intent_evidence::abandonment(
        crate::intent_evidence::title_in(s, key),
        key,
        p,
    );
    lemma_keep_alike(pendings(s), |x: PendingView| x.intent_key == w.intent_key, pending_of(key));
    lemma_keep_alike(s, |e: EntryView| intent_key(e) == w.intent_key, of_intent(key));
    lemma_earliest(p);
    lemma_sorted(pending_actions(p));
    let ags = crate::intent_evidence::pending_agents(p);
    lemma_sorted(given(ags));
    lemma_given(ags);
    assert forall|x: Seq<char>| #[trigger] w.failed_actions.contains(x) <==> exists|i: int|
        0 <= i < p.len() && (#[trigger] p[i]).failed_actions.contains(x) by {
        lemma_pending_actions(p, x);
        assert(w.failed_actions.contains(x) <==> pending_actions(p).contains(x));
    }
    assert forall|x: Seq<char>| #[trigger] w.sample_agents.contains(x) <==> !blank(x) && exists|i: int|
        0 <= i < p.len() && (#[trigger] p[i]).agent_id == Some(x) by {
        assert(w.sample_agents.contains(x) <==> given(ags).contains(x));
        if given(ags).contains(x) {
            let i = choose|i: int| 0 <= i < ags.len() && ags[i] == Some(x);
            assert(p[i].agent_id == Some(x));
        }
        if !blank(x) && exists|i: int| 0 <= i < p.len() && (#[trigger] p[i]).agent_id == Some(x) {
            let i = choose|i: int| 0 <= i < p.len() && (#[trigger] p[i]).agent_id == Some(x);
            assert(ags[i] == Some(x));
            assert(ags.contains(Some(x)));
        }
    }
}

/// Every abandonment of the evidence tells of all who gave up on one intent; those on
/// which more gave up come first.
pub proof fn lemma_giving_up_is_told(entries: Seq<EntryView>, i: int, j: int)
    requires
        0 <= i < evidence(entries).abandonment_patterns.len(),
    ensures
        ({
            let all = evidence(entries).abandonment_patterns;
            &&& tells_giving_up(all[i], timeline(entries))
            &&& i < j < all.len() ==> all[i].abandonment_count >= all[j].abandonment_count
        }),
{
    let s = timeline(entries);
    let ws = abandonments(s);
    let all = arranged(ws, more_abandoned());
    let w = evidence(entries).abandonment_patterns[i];
    lemma_arranged_keeps(ws, more_abandoned(), |x: AbandonmentView| true);
    assert(all[i] == w);
    assert(all.contains(w));
    assert(ws.contains(w));
    let n = choose|n: int| 0 <= n < ws.len() && ws[n] == w;
    let pk = pending_keys(pendings(s));
    let ks = sorted_keys(pk);
    lemma_sorted_keys(pk);
    assert(ks.contains(ks[n]));
    assert(pk.contains(ks[n]));
    let m = choose|m: int| 0 <= m < pk.len() && pk[m] == ks[n];
    lemma_keep(pendings(s), pending_of(ks[n]));
    assert(pending_of(ks[n])(pendings(s)[m]));
    assert(keep(pendings(s), pending_of(ks[n])).contains(pendings(s)[m]));
    lemma_tells_giving_up(s, ks[n]);
    crate::evidence_laws::lemma_evidence_lists(entries);
    let l = evidence(entries).abandonment_patterns;
    if i < j < l.len() {
        assert(!more_abandoned()(l[j], l[i]));
    }
}

/// Every intent that someone gave up on is told, unless eight others are listed.
pub proof fn lemma_giving_up_is_listed(
    entries: Seq<EntryView>,
    who: Seq<char>,
    key: Seq<char>,
    a: int,
)
    requires
        is_open_at(timeline(entries), who, key, a),
    ensures
        evidence(entries).abandonment_patterns.len() == 8 || exists|i: int|
            0 <= i < evidence(entries).abandonment_patterns.len() && (
            #[trigger] evidence(entries).abandonment_patterns[i]).intent_key == key,
{
    let s = timeline(entries);
    let ws = abandonments(s);
    let all = arranged(ws, more_abandoned());
    lemma_arranged_keeps(ws, more_abandoned(), |x: AbandonmentView| true);
    lemma_gave_up(s, key);
    assert(gave_up(s, key).contains(who));
    let p = keep(pendings(s), pending_of(key));
    assert(p.len() > 0) by {
        if p.len() == 0 {
            assert(gave_up(s, key) =~= Set::empty());
        }
    }
    lemma_keep(pendings(s), pending_of(key));
    assert(pending_of(key)(p[0]) && pendings(s).contains(p[0]));
    let m = choose|m: int| 0 <= m < pendings(s).len() && pendings(s)[m] == p[0];
    let pk = pending_keys(pendings(s));
    assert(pk[m] == key);
    assert(pk.contains(key));
    lemma_sorted_keys(pk);
    let ks = sorted_keys(pk);
    let n = choose|n: int| 0 <= n < ks.len() && ks[n] == key;
    let w = ws[n];
    assert(ws.contains(w));
    assert(all.contains(w));
    let i = choose|i: int| 0 <= i < all.len() && all[i] == w;
    if all.len() <= 8 {
        assert(evidence(entries).abandonment_patterns[i].intent_key == key);
    }
}

} // verus!
