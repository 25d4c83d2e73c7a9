//! What holds of every summary of evidence.
use vstd::prelude::*;

use crate::candidates::intent_status;
use crate::candidates::outweighs;
use crate::candidates::CandidateView;
use crate::evidence::at_most;
use crate::evidence::denied;
use crate::evidence::failed;
use crate::evidence::of_intent;
use crate::evidence::succeeded;
use crate::evidence::tally;
use crate::evidence::TallyView;
use crate::intent_evidence::abandonments;
use crate::intent_evidence::candidates_of;
use crate::intent_evidence::evidence;
use crate::intent_evidence::more_abandoned;
use crate::intent_evidence::more_common;
use crate::intent_evidence::tallies;
use crate::intent_evidence::troubled;
use crate::intent_evidence::workarounds;
use crate::intent_evidence::AbandonmentView;
use crate::intent_evidence::WorkaroundView;
use crate::order::arranged;
use crate::order::in_order;
use crate::order::keep;
use crate::order::lemma_arranged;
use crate::order::lemma_keep;
use crate::order::sorted_keys;
use crate::order::text_lt;
use crate::order::weak_order;
use crate::order::KeyOrder;
use crate::timeline::detours;
use crate::timeline::earlier;
use crate::timeline::open_failures;
use crate::timeline::pending_among;
use crate::timeline::pending_of;
use crate::timeline::pursuits;
use crate::timeline::recoveries;
use crate::timeline::recovery_of;
use crate::timeline::timeline;
use crate::trajectory::actor_key;
use crate::trajectory::intent_key;
use crate::trajectory::EntryView;

verus! {

/// The entries of an actor at work on an intent.
pub open spec fn pursuit(who: Seq<char>, key: Seq<char>) -> spec_fn(EntryView) -> bool {
    |e: EntryView| actor_key(e) == who && intent_key(e) == key
}

/// Failures are open exactly while the last thing the actor did on the intent
/// failed; they are the latest entries of the pursuit, and all failures.
pub proof fn lemma_open_failures(s: Seq<EntryView>, who: Seq<char>, key: Seq<char>)
    ensures
        ({
            let all = keep(s, pursuit(who, key));
            let open = open_failures(s, who, key);
            &&& open.len() > 0 <==> all.len() > 0 && !all.last().success
            &&& open.len() <= all.len()
            &&& open == all.skip(all.len() - open.len())
            &&& forall|i: int| 0 <= i < open.len() ==> !(#[trigger] open[i]).success
            &&& open.len() < all.len() ==> all[all.len() - open.len() - 1].success
        }),
    decreases s.len(),
{
    let all = keep(s, pursuit(who, key));
    let open = open_failures(s, who, key);
    if s.len() > 0 {
        let front = s.drop_last();
        lemma_open_failures(front, who, key);
        let fall = keep(front, pursuit(who, key));
        let fopen = open_failures(front, who, key);
        if pursuit(who, key)(s.last()) && !s.last().success {
            assert(fall.push(s.last()).skip(all.len() - open.len()) =~= fall.skip(
                fall.len() - fopen.len(),
            ).push(s.last()));
        }
    }
    assert(open =~= all.skip(all.len() - open.len()));
}

/// The entries come in the order of their times, and none is lost or added.
pub proof fn lemma_timeline(entries: Seq<EntryView>)
    ensures
        in_order(timeline(entries), earlier()),
        timeline(entries).to_multiset() == entries.to_multiset(),
{
    assert forall|a: EntryView, b: EntryView, c: EntryView|
        !(#[trigger] earlier()(a, b)) && !(#[trigger] earlier()(b, c)) implies !earlier()(a, c) by {
        lemma_text_weak(a.timestamp, b.timestamp, c.timestamp);
    }
    assert forall|a: EntryView, b: EntryView| #[trigger] earlier()(a, b) implies !earlier()(
        b,
        a,
    ) by {
        lemma_text_weak(a.timestamp, b.timestamp, b.timestamp);
    }
    lemma_arranged(entries, earlier());
}

/// No two entries have the same time.
pub open spec fn times_differ(s: Seq<EntryView>) -> bool {
    forall|i: int, j: int|
        #![trigger s[i], s[j]]
        0 <= i < j < s.len() ==> s[i].timestamp != s[j].timestamp
}

proof fn lemma_times_differ(s: Seq<EntryView>, t: Seq<EntryView>)
    requires
        times_differ(s),
        s.to_multiset() == t.to_multiset(),
    ensures
        times_differ(t),
{
    broadcast use vstd::seq_lib::group_to_multiset_ensures;

    assert(s.no_duplicates()) by {
        assert forall|i: int, j: int| 0 <= i < s.len() && 0 <= j < s.len() && i != j implies s[i]
            != s[j] by {
            if i < j {
                assert(s[i].timestamp != s[j].timestamp);
            } else {
                assert(s[j].timestamp != s[i].timestamp);
            }
        }
    }
    s.lemma_multiset_has_no_duplicates();
    t.lemma_multiset_has_no_duplicates_conv();
    assert forall|i: int, j: int|
        #![trigger t[i], t[j]]
        0 <= i < j < t.len() implies t[i].timestamp != t[j].timestamp by {
        assert(t[i] != t[j]);
        assert(t.to_multiset().contains(t[i]) && t.to_multiset().contains(t[j]));
        assert(s.contains(t[i]) && s.contains(t[j]));
        let p = choose|p: int| 0 <= p < s.len() && s[p] == t[i];
        let q = choose|q: int| 0 <= q < s.len() && s[q] == t[j];
        if p < q {
            assert(s[p].timestamp != s[q].timestamp);
        } else {
            assert(s[q].timestamp != s[p].timestamp);
        }
    }
}

proof fn lemma_one_order(t: Seq<EntryView>, u: Seq<EntryView>)
    requires
        times_differ(t),
        in_order(t, earlier()),
        in_order(u, earlier()),
        t.to_multiset() == u.to_multiset(),
    ensures
        t == u,
    decreases t.len(),
{
    broadcast use vstd::seq_lib::group_to_multiset_ensures;

    assert(t.len() == t.to_multiset().len());
    assert(u.len() == u.to_multiset().len());
    if t.len() == 0 {
        assert(t =~= u);
    } else {
        let n = t.len() as int;
        let a = t[n - 1];
        let b = u[n - 1];
        assert(a == b) by {
            assert(t.contains(b)) by {
                assert(u.contains(b));
                assert(u.to_multiset().contains(b));
            }
            assert(u.contains(a)) by {
                assert(t.contains(a));
                assert(t.to_multiset().contains(a));
            }
            let i = choose|i: int| 0 <= i < n && t[i] == b;
            let j = choose|j: int| 0 <= j < n && u[j] == a;
            if i < n - 1 {
                assert(!earlier()(t[n - 1], t[i]));
                assert(t[i].timestamp != t[n - 1].timestamp);
                <Seq<char> as KeyOrder>::total(a.timestamp, b.timestamp);
                if j < n - 1 {
                    assert(!earlier()(u[n - 1], u[j]));
                }
            }
        }
        let tf = t.drop_last();
        let uf = u.drop_last();
        assert(t =~= tf.push(a));
        assert(u =~= uf.push(b));
        assert(tf.to_multiset() =~= t.to_multiset().remove(a));
        assert(uf.to_multiset() =~= u.to_multiset().remove(a));
        assert forall|i: int, j: int|
            #![trigger tf[i], tf[j]]
            0 <= i < j < tf.len() implies tf[i].timestamp != tf[j].timestamp && !earlier()(
            tf[j],
            tf[i],
        ) by {
            assert(tf[i] == t[i] && tf[j] == t[j]);
        }
        assert forall|i: int, j: int|
            #![trigger uf[i], uf[j]]
            0 <= i < j < uf.len() implies !earlier()(uf[j], uf[i]) by {
            assert(uf[i] == u[i] && uf[j] == u[j]);
        }
        lemma_one_order(tf, uf);
    }
}

/// Only the times of entries decide what they show: the same entries in another
/// order give the same evidence, where no two have the same time.
pub proof fn lemma_order_of_entries(es: Seq<EntryView>, ps: Seq<EntryView>)
    requires
        times_differ(es),
        ps.to_multiset() == es.to_multiset(),
    ensures
        timeline(ps) == timeline(es),
        evidence(ps) == evidence(es),
{
    lemma_timeline(es);
    lemma_timeline(ps);
    lemma_times_differ(es, timeline(es));
    lemma_one_order(timeline(es), timeline(ps));
}

/// Text order, as an order in which equal texts stand level.
pub proof fn lemma_text_weak(a: Seq<char>, b: Seq<char>, c: Seq<char>)
    ensures
        text_lt(a, b) ==> !text_lt(b, a),
        !text_lt(a, b) && !text_lt(b, c) ==> !text_lt(a, c),
{
    if text_lt(a, b) && text_lt(b, a) {
        <Seq<char> as KeyOrder>::transitive(a, b, a);
        <Seq<char> as KeyOrder>::irreflexive(a);
    }
    if !text_lt(a, b) && !text_lt(b, c) && text_lt(a, c) {
        <Seq<char> as KeyOrder>::total(a, b);
        <Seq<char> as KeyOrder>::total(b, c);
        if text_lt(b, a) {
            <Seq<char> as KeyOrder>::transitive(b, a, c);
        }
    }
}

proof fn lemma_keep_has<A>(s: Seq<A>, keeps: spec_fn(A) -> bool, x: A)
    requires
        s.contains(x),
        keeps(x),
    ensures
        keep(s, keeps).contains(x),
{
    lemma_keep(s, keeps);
    let i = choose|i: int| 0 <= i < s.len() && s[i] == x;
    assert(keep(s, keeps).contains(s[i]));
}

proof fn lemma_open_entry(s: Seq<EntryView>, who: Seq<char>, key: Seq<char>)
    requires
        open_failures(s, who, key).len() > 0,
    ensures
        exists|i: int|
            0 <= i < s.len() && intent_key(#[trigger] s[i]) == key && !s[i].success,
{
    let all = keep(s, pursuit(who, key));
    lemma_open_failures(s, who, key);
    lemma_keep(s, pursuit(who, key));
    assert(s.contains(all[all.len() - 1]));
    let i = choose|i: int| 0 <= i < s.len() && s[i] == all.last();
    assert(intent_key(s[i]) == key && !s[i].success);
}

proof fn lemma_recovery_entry(s: Seq<EntryView>, key: Seq<char>)
    requires
        keep(recoveries(s), recovery_of(key)).len() > 0,
    ensures
        exists|i: int|
            0 <= i < s.len() && intent_key(#[trigger] s[i]) == key && !s[i].success,
    decreases s.len(),
{
    if s.len() > 0 {
        let front = s.drop_last();
        let rest = recoveries(front);
        let e = s.last();
        let open = open_failures(front, actor_key(e), intent_key(e));
        if e.success && open.len() > 0 {
            assert(recoveries(s).drop_last() =~= rest);
        }
        if keep(rest, recovery_of(key)).len() > 0 {
            lemma_recovery_entry(front, key);
        } else {
            lemma_open_entry(front, actor_key(e), intent_key(e));
        }
        let i = choose|i: int|
            0 <= i < front.len() && intent_key(#[trigger] front[i]) == key && !front[i].success;
        assert(intent_key(s[i]) == key && !s[i].success);
    }
}

proof fn lemma_pending_entry(s: Seq<EntryView>, of: Seq<(Seq<char>, Seq<char>)>, key: Seq<char>)
    requires
        keep(pending_among(s, of), pending_of(key)).len() > 0,
    ensures
        exists|i: int|
            0 <= i < s.len() && intent_key(#[trigger] s[i]) == key && !s[i].success,
    decreases of.len(),
{
    if of.len() > 0 {
        let rest = pending_among(s, of.drop_last());
        let open = open_failures(s, of.last().0, of.last().1);
        if open.len() > 0 {
            assert(pending_among(s, of).drop_last() =~= rest);
        }
        if keep(rest, pending_of(key)).len() > 0 {
            lemma_pending_entry(s, of.drop_last(), key);
        } else {
            lemma_open_entry(s, of.last().0, of.last().1);
        }
    }
}

/// How the counts of an intent relate: every entry succeeded or failed, denials
/// are failures, a detour is a recovery, and where there is a recovery or
/// something pending there is a failure.
pub proof fn lemma_tally(s: Seq<EntryView>, key: Seq<char>)
    ensures
        ({
            let t = tally(s, key);
            &&& t.total_count == t.success_count + t.failure_count
            &&& t.authz_denials <= t.failure_count
            &&& t.workaround_count <= t.success_after_failure_count
            &&& t.success_after_failure_count <= t.success_count
            &&& t.success_after_failure_count > 0 ==> t.failure_count > 0
            &&& t.abandonment_count > 0 ==> t.failure_count > 0
        }),
{
    let t = tally(s, key);
    let m = keep(s, of_intent(key));
    lemma_outcomes(m);
    lemma_keep(keep(recoveries(s), recovery_of(key)), detours());
    lemma_recovery_count(s, key);
    if t.success_after_failure_count > 0 || t.abandonment_count > 0 {
        if t.success_after_failure_count > 0 {
            lemma_recovery_entry(s, key);
        } else {
            lemma_pending_entry(s, sorted_keys(pursuits(s)), key);
        }
        let i = choose|i: int|
            0 <= i < s.len() && intent_key(#[trigger] s[i]) == key && !s[i].success;
        lemma_keep_has(s, of_intent(key), s[i]);
        lemma_keep_has(m, failed(), s[i]);
    }
}

proof fn lemma_outcomes(m: Seq<EntryView>)
    ensures
        m.len() == keep(m, succeeded()).len() + keep(m, failed()).len(),
        keep(m, denied()).len() <= keep(m, failed()).len(),
    decreases m.len(),
{
    if m.len() > 0 {
        lemma_outcomes(m.drop_last());
    }
}

proof fn lemma_recovery_count(s: Seq<EntryView>, key: Seq<char>)
    ensures
        keep(recoveries(s), recovery_of(key)).len() <= keep(
            keep(s, of_intent(key)),
            succeeded(),
        ).len(),
    decreases s.len(),
{
    if s.len() > 0 {
        let front = s.drop_last();
        lemma_recovery_count(front, key);
        let e = s.last();
        let open = open_failures(front, actor_key(e), intent_key(e));
        if e.success && open.len() > 0 {
            assert(recoveries(s).drop_last() =~= recoveries(front));
        }
        if intent_key(e) == key {
            assert(keep(s, of_intent(key)).drop_last() =~= keep(front, of_intent(key)));
        }
    }
}

proof fn lemma_listed<A>(s: Seq<A>, before: spec_fn(A, A) -> bool, n: nat)
    requires
        weak_order(before),
    ensures
        at_most(arranged(s, before), n).len() <= n,
        in_order(at_most(arranged(s, before), n), before),
        forall|i: int|
            0 <= i < at_most(arranged(s, before), n).len() ==> s.contains(
                #[trigger] at_most(arranged(s, before), n)[i],
            ),
{
    broadcast use vstd::seq_lib::group_to_multiset_ensures;

    lemma_arranged(s, before);
    let all = arranged(s, before);
    let some = at_most(all, n);
    assert forall|i: int| 0 <= i < some.len() implies s.contains(#[trigger] some[i]) by {
        assert(all[i] == some[i]);
        assert(all.contains(some[i]));
        assert(all.to_multiset().count(some[i]) > 0);
        assert(s.to_multiset().count(some[i]) > 0);
    }
    assert forall|i: int, j: int|
        #![trigger some[i], some[j]]
        0 <= i < j < some.len() implies !before(some[j], some[i]) by {
        assert(all[i] == some[i] && all[j] == some[j]);
    }
}

proof fn lemma_outweighs_weak()
    ensures
        weak_order(outweighs()),
{
    assert forall|a: CandidateView, b: CandidateView, c: CandidateView|
        !(#[trigger] outweighs()(a, b)) && !(#[trigger] outweighs()(b, c)) implies !outweighs()(
        a,
        c,
    ) by {
        lemma_text_weak(c.seen.last_seen, b.seen.last_seen, a.seen.last_seen);
    }
    assert forall|a: CandidateView, b: CandidateView| #[trigger]
        outweighs()(a, b) implies !outweighs()(b, a) by {
        lemma_text_weak(b.seen.last_seen, a.seen.last_seen, a.seen.last_seen);
    }
}

proof fn lemma_more_common_weak()
    ensures
        weak_order(more_common()),
{
    assert forall|a: WorkaroundView, b: WorkaroundView, c: WorkaroundView|
        !(#[trigger] more_common()(a, b)) && !(#[trigger] more_common()(b, c)) implies !more_common()(
        a,
        c,
    ) by {
        lemma_text_weak(c.last_seen, b.last_seen, a.last_seen);
    }
    assert forall|a: WorkaroundView, b: WorkaroundView| #[trigger]
        more_common()(a, b) implies !more_common()(b, a) by {
        lemma_text_weak(b.last_seen, a.last_seen, a.last_seen);
    }
}

proof fn lemma_more_abandoned_weak()
    ensures
        weak_order(more_abandoned()),
{
    assert forall|a: AbandonmentView, b: AbandonmentView, c: AbandonmentView|
        !(#[trigger] more_abandoned()(a, b)) && !(#[trigger] more_abandoned()(
            b,
            c,
        )) implies !more_abandoned()(a, c) by {
        lemma_text_weak(c.last_seen, b.last_seen, a.last_seen);
    }
    assert forall|a: AbandonmentView, b: AbandonmentView| #[trigger]
        more_abandoned()(a, b) implies !more_abandoned()(b, a) by {
        lemma_text_weak(b.last_seen, a.last_seen, a.last_seen);
    }
}

/// A summary lists at most 12 candidates, 8 workarounds, 8 abandonments and 20
/// samples, each list in its order.
pub proof fn lemma_evidence_lists(entries: Seq<EntryView>)
    ensures
        evidence(entries).intent_candidates.len() <= 12,
        evidence(entries).workaround_patterns.len() <= 8,
        evidence(entries).abandonment_patterns.len() <= 8,
        evidence(entries).trajectory_samples.len() <= 20,
        in_order(evidence(entries).intent_candidates, outweighs()),
        in_order(evidence(entries).workaround_patterns, more_common()),
        in_order(evidence(entries).abandonment_patterns, more_abandoned()),
{
    let s = timeline(entries);
    lemma_outweighs_weak();
    lemma_more_common_weak();
    lemma_more_abandoned_weak();
    lemma_listed(candidates_of(keep(tallies(s), troubled())), outweighs(), 12);
    lemma_listed(workarounds(keep(recoveries(s), detours())), more_common(), 8);
    lemma_listed(abandonments(s), more_abandoned(), 8);
}

proof fn lemma_status(t: TallyView)
    requires
        t.failure_count > 0,
    ensures
        intent_status(t) != "resolved"@,
{
    reveal_strlit("resolved");
    reveal_strlit("workaround");
    reveal_strlit("mixed");
    reveal_strlit("open");
    assert("resolved"@.len() == 8);
    assert("workaround"@.len() == 10);
    assert("mixed"@.len() == 5);
    assert("open"@.len() == 4);
}

proof fn lemma_troubled(s: Seq<EntryView>, key: Seq<char>)
    requires
        troubled()(tally(s, key)),
    ensures
        tally(s, key).failure_count > 0,
{
    lemma_tally(s, key);
}

/// Every candidate that a summary lists has failed at least once, so none of
/// them stands as resolved.
pub proof fn lemma_candidates_failed(entries: Seq<EntryView>)
    ensures
        forall|i: int|
            0 <= i < evidence(entries).intent_candidates.len() ==> {
                let c = #[trigger] evidence(entries).intent_candidates[i];
                c.seen.failure_count > 0 && c.status != "resolved"@
            },
{
    let s = timeline(entries);
    let ts = keep(tallies(s), troubled());
    lemma_outweighs_weak();
    lemma_listed(candidates_of(ts), outweighs(), 12);
    lemma_keep(tallies(s), troubled());
    let listed = evidence(entries).intent_candidates;
    assert forall|i: int| 0 <= i < listed.len() implies (#[trigger] listed[i]).seen.failure_count
        > 0 && listed[i].status != "resolved"@ by {
        let c = listed[i];
        assert(candidates_of(ts).contains(c));
        let j = choose|j: int| 0 <= j < candidates_of(ts).len() && candidates_of(ts)[j] == c;
        assert(tallies(s).contains(ts[j]) && troubled()(ts[j]));
        let k = choose|k: int| 0 <= k < tallies(s).len() && tallies(s)[k] == ts[j];
        let key = sorted_keys(crate::intent_evidence::intent_keys(s))[k];
        assert(ts[j] == tally(s, key));
        lemma_troubled(s, key);
        lemma_status(ts[j]);
        assert(c.seen == ts[j]);
    }
}

} // verus!
