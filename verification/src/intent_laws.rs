//! What the evidence on intents says of the entries that it was drawn from.
use vstd::prelude::*;

use crate::candidates::candidate;
use crate::candidates::outweighs;
use crate::candidates::weight;
use crate::candidates::CandidateView;
use crate::evidence::denied;
use crate::evidence::failed;
use crate::evidence::of_intent;
use crate::evidence::succeeded;
use crate::evidence::tally;
use crate::evidence::TallyView;
use crate::intent_evidence::candidates_of;
use crate::intent_evidence::evidence;
use crate::intent_evidence::intent_keys;
use crate::intent_evidence::tallies;
use crate::intent_evidence::troubled;
use crate::order::arranged;
use crate::order::keep;
use crate::order::lemma_arranged_keeps;
use crate::order::lemma_keep;
use crate::order::sorted_keys;
use crate::text::has;
use crate::timeline::actions_of;
use crate::timeline::detours;
use crate::timeline::earlier;
use crate::timeline::open_failures;
use crate::timeline::pending;
use crate::timeline::pending_among;
use crate::timeline::pending_of;
use crate::timeline::pendings;
use crate::timeline::pursuits;
use crate::timeline::recoveries;
use crate::timeline::recovery;
use crate::timeline::recovery_of;
use crate::timeline::timeline;
use crate::trajectory::actor_key;
use crate::trajectory::error_pattern;
use crate::trajectory::intent_key;
use crate::trajectory::EntryView;

verus! {

/// The error says that an entity set does not exist.
pub open spec fn tells_missing_set(e: Seq<char>) -> bool {
    has(e, "EntitySetNotFound"@) || has(e, "entity set not found"@)
}

/// The error says that authorization was denied, and not that an entity set does
/// not exist.
pub open spec fn tells_denial(e: Seq<char>) -> bool {
    !tells_missing_set(e) && (has(e, "Authorization denied"@) || has(e, "authorization denied"@))
}

/// The error says that an action does not exist, and neither of these.
pub open spec fn tells_missing_action(e: Seq<char>) -> bool {
    !tells_missing_set(e) && !tells_denial(e) && (has(e, "ActionNotFound"@) || has(
        e,
        "unknown action"@,
    ))
}

/// The pattern of an error is decided by what it says: that a set is missing
/// before that something was denied, that before a missing action, and that before
/// a guard.
pub proof fn lemma_error_patterns(e: Seq<char>)
    ensures
        tells_missing_set(e) ==> error_pattern(Some(e)) == "EntitySetNotFound"@,
        tells_denial(e) ==> error_pattern(Some(e)) == "AuthzDenied"@,
        tells_missing_action(e) ==> error_pattern(Some(e)) == "ActionNotFound"@,
        !tells_missing_set(e) && !tells_denial(e) && !tells_missing_action(e) && has(e, "guard"@)
            ==> error_pattern(Some(e)) == "GuardRejected"@,
        !tells_missing_set(e) && !tells_denial(e) && !tells_missing_action(e) && !(has(e, "guard"@))
            ==> error_pattern(Some(e)) == "Other"@,
        error_pattern(None) == "Unknown"@,
{
}

proof fn lemma_patterns_differ()
    ensures
        "EntitySetNotFound"@ != "AuthzDenied"@,
        "EntitySetNotFound"@ != "ActionNotFound"@,
        "EntitySetNotFound"@ != "GuardRejected"@,
        "EntitySetNotFound"@ != "Other"@,
        "EntitySetNotFound"@ != "Unknown"@,
        "AuthzDenied"@ != "ActionNotFound"@,
        "AuthzDenied"@ != "GuardRejected"@,
        "AuthzDenied"@ != "Other"@,
        "AuthzDenied"@ != "Unknown"@,
        "ActionNotFound"@ != "GuardRejected"@,
        "ActionNotFound"@ != "Other"@,
        "ActionNotFound"@ != "Unknown"@,
        "GuardRejected"@ != "Other"@,
        "GuardRejected"@ != "Unknown"@,
        "Other"@ != "Unknown"@,
{
    reveal_strlit("EntitySetNotFound");
    reveal_strlit("AuthzDenied");
    reveal_strlit("ActionNotFound");
    reveal_strlit("GuardRejected");
    reveal_strlit("Other");
    reveal_strlit("Unknown");
    assert("EntitySetNotFound"@.len() == 17);
    assert("AuthzDenied"@.len() == 11);
    assert("ActionNotFound"@.len() == 14);
    assert("GuardRejected"@.len() == 13);
    assert("Other"@.len() == 5);
    assert("Unknown"@.len() == 7);
}

proof fn lemma_gap_kinds_differ()
    ensures
        "governance_gap"@ != "workaround"@,
        "governance_gap"@ != "missing_capability"@,
        "governance_gap"@ != "friction"@,
        "workaround"@ != "missing_capability"@,
        "workaround"@ != "friction"@,
        "missing_capability"@ != "friction"@,
{
    reveal_strlit("governance_gap");
    reveal_strlit("workaround");
    reveal_strlit("missing_capability");
    reveal_strlit("friction");
    assert("governance_gap"@.len() == 14);
    assert("workaround"@.len() == 10);
    assert("missing_capability"@.len() == 18);
    assert("friction"@.len() == 8);
}

/// A failure that shows that something asked for does not exist.
pub open spec fn shows_absence(e: EntryView) -> bool {
    !e.success && e.error is Some && (tells_missing_set(e.error->0) || tells_missing_action(
        e.error->0,
    ))
}

/// A failure that authorization caused, by its mark or by its error.
pub open spec fn was_refused(e: EntryView) -> bool {
    !e.success && (e.authz_denied == Some(true) || (e.error is Some && tells_denial(e.error->0)))
}

/// The test for failures on an intent.
pub open spec fn failing(key: Seq<char>) -> spec_fn(EntryView) -> bool {
    |e: EntryView| intent_key(e) == key && !e.success
}

/// The test for successes on an intent.
pub open spec fn succeeding(key: Seq<char>) -> spec_fn(EntryView) -> bool {
    |e: EntryView| intent_key(e) == key && e.success
}

/// The test for failures on an intent that authorization caused.
pub open spec fn refusing(key: Seq<char>) -> spec_fn(EntryView) -> bool {
    |e: EntryView| intent_key(e) == key && was_refused(e)
}

proof fn lemma_keep_twice<A>(
    s: Seq<A>,
    a: spec_fn(A) -> bool,
    b: spec_fn(A) -> bool,
    both: spec_fn(A) -> bool,
)
    requires
        forall|x: A| #[trigger] both(x) == (a(x) && b(x)),
    ensures
        keep(keep(s, a), b) == keep(s, both),
    decreases s.len(),
{
    if s.len() > 0 {
        let front = s.drop_last();
        lemma_keep_twice(front, a, b, both);
        if a(s.last()) {
            assert(keep(s, a).drop_last() =~= keep(front, a));
        }
        assert(both(s.last()) == (a(s.last()) && b(s.last())));
    }
}

proof fn lemma_counts_over(entries: Seq<EntryView>, key: Seq<char>)
    ensures
        ({
            let t = tally(timeline(entries), key);
            &&& t.failure_count == keep(entries, failing(key)).len()
            &&& t.success_count == keep(entries, succeeding(key)).len()
            &&& t.authz_denials == keep(entries, refusing(key)).len()
            &&& t.total_count == t.failure_count + t.success_count
        }),
{
    let s = timeline(entries);
    lemma_patterns_differ();
    lemma_keep_twice(s, of_intent(key), failed(), failing(key));
    lemma_keep_twice(s, of_intent(key), succeeded(), succeeding(key));
    assert forall|e: EntryView| #[trigger] refusing(key)(e) == (of_intent(key)(e) && denied()(
        e,
    )) by {}
    lemma_keep_twice(s, of_intent(key), denied(), refusing(key));
    lemma_arranged_keeps(entries, earlier(), failing(key));
    lemma_arranged_keeps(entries, earlier(), succeeding(key));
    lemma_arranged_keeps(entries, earlier(), refusing(key));
    crate::evidence_laws::lemma_tally(s, key);
}

/// The candidates of the evidence.
pub open spec fn listed(entries: Seq<EntryView>) -> Seq<CandidateView> {
    evidence(entries).intent_candidates
}

/// A candidate is what the timeline shows of its intent.
pub proof fn lemma_listed_from(entries: Seq<EntryView>, i: int)
    requires
        0 <= i < listed(entries).len(),
    ensures
        ({
            let c = listed(entries)[i];
            let key = c.seen.intent_key;
            &&& c.seen == tally(timeline(entries), key)
            &&& c == candidate(c.seen)
            &&& troubled()(c.seen)
            &&& sorted_keys(intent_keys(timeline(entries))).contains(key)
        }),
{
    let s = timeline(entries);
    let ts = keep(tallies(s), troubled());
    let cs = candidates_of(ts);
    lemma_arranged_keeps(cs, outweighs(), |c: CandidateView| true);
    lemma_keep(tallies(s), troubled());
    let all = arranged(cs, outweighs());
    let c = listed(entries)[i];
    assert(all[i] == c);
    assert(all.contains(c));
    assert(cs.contains(c));
    let j = choose|j: int| 0 <= j < cs.len() && cs[j] == c;
    assert(tallies(s).contains(ts[j]) && troubled()(ts[j]));
    let k = choose|k: int| 0 <= k < tallies(s).len() && tallies(s)[k] == ts[j];
    let ks = sorted_keys(intent_keys(s));
    assert(ts[j] == tally(s, ks[k]));
    assert(ks.contains(ks[k]));
    assert(c.seen.intent_key == ks[k]);
}

/// A candidate counts the entries of its intent: those that failed, those that
/// succeeded, and among the former those that authorization caused.
pub proof fn lemma_candidates_count(entries: Seq<EntryView>, i: int)
    requires
        0 <= i < listed(entries).len(),
    ensures
        ({
            let c = listed(entries)[i].seen;
            &&& c.failure_count == keep(entries, failing(c.intent_key)).len()
            &&& c.success_count == keep(entries, succeeding(c.intent_key)).len()
            &&& c.authz_denials == keep(entries, refusing(c.intent_key)).len()
            &&& c.total_count == c.failure_count + c.success_count
            &&& c.failure_count > 0
        }),
{
    lemma_listed_from(entries, i);
    let key = listed(entries)[i].seen.intent_key;
    lemma_counts_over(entries, key);
    crate::evidence_laws::lemma_tally(timeline(entries), key);
}

/// A candidate says what kind of gap it is, and what to do about it.
pub open spec fn says(
    c: CandidateView,
    kind: Seq<char>,
    advice_before: Seq<char>,
    advice_after: Seq<char>,
    problem_after: Seq<char>,
) -> bool {
    &&& c.suggested_kind == kind
    &&& c.recommendation == advice_before + c.seen.intent_title + advice_after
    &&& has(c.problem_statement, c.seen.intent_statement + problem_after)
}

/// A failure of the intent shows that something asked for does not exist.
pub open spec fn absence_shown(entries: Seq<EntryView>, key: Seq<char>) -> bool {
    exists|j: int|
        0 <= j < entries.len() && intent_key(#[trigger] entries[j]) == key && shows_absence(
            entries[j],
        )
}

proof fn lemma_pattern_listed(entries: Seq<EntryView>, key: Seq<char>)
    ensures
        ({
            let p = tally(timeline(entries), key).failure_patterns;
            (p.contains("EntitySetNotFound"@) || p.contains("ActionNotFound"@)) <==> absence_shown(
                entries,
                key,
            )
        }),
{
    let s = timeline(entries);
    let m = keep(s, of_intent(key));
    let f = keep(m, failed());
    let ps = crate::evidence::patterns_of(f);
    let p = tally(s, key).failure_patterns;
    lemma_patterns_differ();
    crate::order::lemma_sorted_keys(ps);
    lemma_keep(s, of_intent(key));
    lemma_keep(m, failed());
    lemma_arranged_keeps(entries, earlier(), failing(key));
    if absence_shown(entries, key) {
        let j = choose|j: int|
            0 <= j < entries.len() && intent_key(#[trigger] entries[j]) == key && shows_absence(
                entries[j],
            );
        let e = entries[j];
        assert(entries.contains(e));
        assert(s.contains(e));
        let a = choose|a: int| 0 <= a < s.len() && s[a] == e;
        assert(of_intent(key)(s[a]));
        assert(m.contains(s[a]));
        let b = choose|b: int| 0 <= b < m.len() && m[b] == e;
        assert(failed()(m[b]));
        assert(f.contains(m[b]));
        let c = choose|c: int| 0 <= c < f.len() && f[c] == e;
        assert(ps[c] == error_pattern(e.error));
        assert(ps.contains(ps[c]));
        assert(p.contains(ps[c]));
    }
    if p.contains("EntitySetNotFound"@) || p.contains("ActionNotFound"@) {
        let w = if p.contains("EntitySetNotFound"@) {
            "EntitySetNotFound"@
        } else {
            "ActionNotFound"@
        };
        assert(ps.contains(w));
        let c = choose|c: int| 0 <= c < ps.len() && ps[c] == w;
        let e = f[c];
        assert(error_pattern(e.error) == w);
        assert(failed()(f[c]) && m.contains(f[c]));
        let b = choose|b: int| 0 <= b < m.len() && m[b] == e;
        assert(of_intent(key)(m[b]) && s.contains(m[b]));
        assert(entries.contains(e));
        let j = choose|j: int| 0 <= j < entries.len() && entries[j] == e;
        assert(shows_absence(entries[j]));
    }
}

/// The kind of gap that a candidate stands for. Denials decide where they are as
/// many as the failures in excess of the successes; then detours; then failures
/// that show that something asked for does not exist; and what is left is
/// friction.
pub proof fn lemma_kinds(entries: Seq<EntryView>, i: int)
    requires
        0 <= i < listed(entries).len(),
    ensures
        ({
            let c = listed(entries)[i];
            let key = c.seen.intent_key;
            let refusals = keep(entries, refusing(key)).len();
            let governed = refusals > 0 && refusals + keep(entries, succeeding(key)).len() >= keep(
                entries,
                failing(key),
            ).len();
            &&& governed ==> says(
                c,
                "governance_gap"@,
                "Align policy with the intended '"@,
                "' workflow and keep the scope limited to the minimum required principals/resources."@,
                "' is blocked by repeated authorization denials across the current workflow."@,
            )
            &&& !governed && c.seen.workaround_count > 0 ==> says(
                c,
                "workaround"@,
                "Promote the successful workaround into a first-class capability for '"@,
                "', so users stop relying on alternate action chains."@,
                "' and are only succeeding through alternate action paths rather than a direct capability."@,
            )
            &&& !governed && c.seen.workaround_count == 0 && absence_shown(entries, key) ==> says(
                c,
                "missing_capability"@,
                "Add direct product/spec support for '"@,
                "'."@,
                "' is not directly supported by the current product/spec surface."@,
            )
            &&& !governed && c.seen.workaround_count == 0 && !absence_shown(entries, key) ==> says(
                c,
                "friction"@,
                "Collapse the repeated multi-step flow behind '"@,
                "' into a simpler supported path."@,
                "' is possible, but only after repeated retries or unnecessary extra steps."@,
            )
        }),
{
    lemma_listed_from(entries, i);
    let c = listed(entries)[i];
    let key = c.seen.intent_key;
    lemma_counts_over(entries, key);
    lemma_pattern_listed(entries, key);
    lemma_gap_kinds_differ();
    let said = c.seen.intent_statement;
    lemma_says(
        "The intended outcome '"@,
        said,
        "' is blocked by repeated authorization denials across the current workflow."@,
    );
    lemma_says(
        "Users and agents are trying to achieve '"@,
        said,
        "' and are only succeeding through alternate action paths rather than a direct capability."@,
    );
    lemma_says(
        "The intended outcome '"@,
        said,
        "' is not directly supported by the current product/spec surface."@,
    );
    lemma_says(
        "The intended outcome '"@,
        said,
        "' is possible, but only after repeated retries or unnecessary extra steps."@,
    );
}

proof fn lemma_says(a: Seq<char>, b: Seq<char>, c: Seq<char>)
    ensures
        has(a + b + c, b + c),
{
    let n = a.len() as int;
    assert((a + b + c).subrange(n, n + (b + c).len()) =~= b + c);
    assert(crate::text::occurs_at(a + b + c, b + c, n));
}

/// Where an intent stands: some got there by a detour; some got there, and some
/// failed; or none got there.
pub proof fn lemma_standing(entries: Seq<EntryView>, i: int)
    requires
        0 <= i < listed(entries).len(),
    ensures
        ({
            let c = listed(entries)[i];
            let successes = keep(entries, succeeding(c.seen.intent_key)).len();
            &&& c.seen.workaround_count > 0 ==> c.status == "workaround"@
            &&& c.seen.workaround_count == 0 && successes > 0 ==> c.status == "mixed"@
            &&& c.seen.workaround_count == 0 && successes == 0 ==> c.status == "open"@
        }),
{
    lemma_listed_from(entries, i);
    lemma_candidates_count(entries, i);
}

/// The failure at `a` is still open at the end of `s`: the actor did not succeed
/// on the intent since.
pub open spec fn is_open_at(s: Seq<EntryView>, who: Seq<char>, key: Seq<char>, a: int) -> bool {
    &&& 0 <= a < s.len()
    &&& actor_key(s[a]) == who && intent_key(s[a]) == key && !s[a].success
    &&& forall|k: int|
        a < k < s.len() && actor_key(#[trigger] s[k]) == who && intent_key(s[k]) == key
            ==> !s[k].success
}

/// The failures that are open are those that no success of the actor on the intent followed.
pub proof fn lemma_open(s: Seq<EntryView>, who: Seq<char>, key: Seq<char>)
    ensures
        forall|x: EntryView| #[trigger]
            open_failures(s, who, key).contains(x) ==> exists|a: int| #[trigger]
                is_open_at(s, who, key, a) && s[a] == x,
        forall|a: int| #[trigger]
            is_open_at(s, who, key, a) ==> open_failures(s, who, key).contains(s[a]),
    decreases s.len(),
{
    if s.len() > 0 {
        let front = s.drop_last();
        let e = s.last();
        let n = front.len() as int;
        assert(s[n] == e);
        lemma_open(front, who, key);
        let open = open_failures(s, who, key);
        let before = open_failures(front, who, key);
        let mine = actor_key(e) == who && intent_key(e) == key;
        assert forall|a: int| 0 <= a < n && (!mine || !e.success) && #[trigger] is_open_at(
            front,
            who,
            key,
            a,
        ) implies is_open_at(s, who, key, a) by {
            assert(front[a] == s[a]);
            assert forall|k: int|
                a < k < s.len() && actor_key(#[trigger] s[k]) == who && intent_key(s[k])
                    == key implies !s[k].success by {
                if k < n {
                    assert(front[k] == s[k]);
                }
            }
        }
        assert forall|x: EntryView| #[trigger] open.contains(x) implies exists|a: int| #[trigger]
            is_open_at(s, who, key, a) && s[a] == x by {
            if mine && x == e && !e.success {
                assert(is_open_at(s, who, key, n));
            } else {
                if mine {
                    let i = choose|i: int| 0 <= i < open.len() && open[i] == x;
                    assert(open == before.push(e));
                    assert(before[i] == x);
                }
                assert(before.contains(x));
                let a = choose|a: int| #[trigger]
                    is_open_at(front, who, key, a) && front[a] == x;
                assert(is_open_at(s, who, key, a));
                assert(s[a] == x);
            }
        }
        assert forall|a: int| #[trigger] is_open_at(s, who, key, a) implies open.contains(
            s[a],
        ) by {
            if a < n {
                if mine {
                    assert(!s[n].success);
                }
                assert(is_open_at(front, who, key, a)) by {
                    assert(front[a] == s[a]);
                    assert forall|k: int|
                        a < k < front.len() && actor_key(#[trigger] front[k]) == who && intent_key(
                            front[k],
                        ) == key implies !front[k].success by {
                        assert(front[k] == s[k]);
                    }
                }
                assert(before.contains(front[a]));
                let i = choose|i: int| 0 <= i < before.len() && before[i] == s[a];
                assert(open[i] == s[a]);
            } else {
                assert(open[open.len() - 1] == e);
            }
        }
    } else {
        assert(open_failures(s, who, key).len() == 0);
    }
}

/// The success at `b` came after the failure at `a`, of the same actor on the same
/// intent, with no success of theirs on it between the two.
pub open spec fn recovers(s: Seq<EntryView>, a: int, b: int) -> bool {
    &&& 0 <= a < b < s.len()
    &&& s[b].success
    &&& is_open_at(s.take(b), actor_key(s[b]), intent_key(s[b]), a)
}

/// Someone who failed on the intent came to succeed on it.
pub open spec fn some_recovered(s: Seq<EntryView>, key: Seq<char>) -> bool {
    exists|a: int, b: int| #[trigger] recovers(s, a, b) && intent_key(s[b]) == key
}

/// Someone who failed on the intent came to succeed on it by another action.
pub open spec fn some_went_round(s: Seq<EntryView>, key: Seq<char>) -> bool {
    exists|a: int, b: int| #[trigger]
        recovers(s, a, b) && intent_key(s[b]) == key && s[a].action != s[b].action
}

/// Someone who failed on the intent did not succeed on it since.
pub open spec fn some_gave_up(s: Seq<EntryView>, key: Seq<char>) -> bool {
    exists|a: int|
        0 <= a < s.len() && #[trigger] is_open_at(s, actor_key(s[a]), key, a)
}

/// What came back does not depend on what happened later.
pub proof fn lemma_recovers_longer(s: Seq<EntryView>, a: int, b: int)
    requires
        s.len() > 0,
        b < s.len() - 1,
    ensures
        recovers(s, a, b) == recovers(s.drop_last(), a, b),
{
    let front = s.drop_last();
    if 0 <= b {
        assert(front.take(b) =~= s.take(b));
        assert(front[b] == s[b]);
    }
}

/// The last entry is a recovery, by another action or by whichever.
spec fn last_recovers(s: Seq<EntryView>, otherwise: bool) -> bool {
    exists|a: int| #[trigger]
        recovers(s, a, s.len() - 1) && (otherwise ==> s[a].action != s.last().action)
}

proof fn lemma_last_recovers(s: Seq<EntryView>)
    requires
        s.len() > 0,
    ensures
        ({
            let e = s.last();
            let open = open_failures(s.drop_last(), actor_key(e), intent_key(e));
            &&& last_recovers(s, false) <==> e.success && open.len() > 0
            &&& last_recovers(s, true) <==> e.success && open.len() > 0
                && crate::timeline::is_detour(recovery(e, open))
        }),
{
    let front = s.drop_last();
    let n = front.len() as int;
    let e = s.last();
    let who = actor_key(e);
    let key = intent_key(e);
    let open = open_failures(front, who, key);
    let r = recovery(e, open);
    assert(s.take(n) =~= front);
    lemma_open(front, who, key);
    crate::order::lemma_sorted_keys(actions_of(open));
    if e.success && open.len() > 0 {
        assert(open.contains(open[0]));
        let a = choose|a: int| #[trigger] is_open_at(front, who, key, a) && front[a] == open[0];
        assert(recovers(s, a, n));
        if crate::timeline::is_detour(r) {
            let i = choose|i: int|
                0 <= i < r.failed_actions.len() && #[trigger] r.failed_actions[i] != r.action;
            let x = r.failed_actions[i];
            assert(r.failed_actions.contains(x));
            assert(actions_of(open).contains(x));
            let j = choose|j: int| 0 <= j < actions_of(open).len() && actions_of(open)[j] == x;
            assert(open.contains(open[j]));
            let b = choose|b: int| #[trigger]
                is_open_at(front, who, key, b) && front[b] == open[j];
            assert(front[b] == s[b]);
            assert(recovers(s, b, n));
        }
    }
    if last_recovers(s, true) {
        let a = choose|a: int| #[trigger]
            recovers(s, a, s.len() - 1) && s[a].action != s.last().action;
        assert(is_open_at(front, who, key, a));
        assert(front[a] == s[a]);
        assert(open.contains(front[a]));
        let j = choose|j: int| 0 <= j < open.len() && open[j] == front[a];
        assert(actions_of(open)[j] == s[a].action);
        assert(actions_of(open).contains(s[a].action));
        assert(r.failed_actions.contains(s[a].action));
        let i = choose|i: int|
            0 <= i < r.failed_actions.len() && r.failed_actions[i] == s[a].action;
        assert(r.failed_actions[i] != r.action);
    }
    if last_recovers(s, false) {
        let a = choose|a: int| #[trigger] recovers(s, a, s.len() - 1);
        assert(is_open_at(front, who, key, a));
        assert(open.contains(front[a]));
    }
}

/// Someone recovered on the intent, by another action or by whichever.
spec fn recovered_so(s: Seq<EntryView>, key: Seq<char>, otherwise: bool) -> bool {
    exists|a: int, b: int| #[trigger]
        recovers(s, a, b) && intent_key(s[b]) == key && (otherwise ==> s[a].action != s[b].action)
}

proof fn lemma_one_more(s: Seq<EntryView>, key: Seq<char>, otherwise: bool)
    requires
        s.len() > 0,
        recovered_so(s, key, otherwise),
    ensures
        recovered_so(s.drop_last(), key, otherwise) || (intent_key(s.last()) == key
            && last_recovers(s, otherwise)),
{
    let front = s.drop_last();
    let n = front.len() as int;
    let (a, b) = choose|a: int, b: int| #[trigger]
        recovers(s, a, b) && intent_key(s[b]) == key && (otherwise ==> s[a].action != s[b].action);
    if b < n {
        lemma_recovers_longer(s, a, b);
        assert(front[b] == s[b] && front[a] == s[a]);
        assert(recovers(front, a, b));
    } else {
        assert(s[n] == s.last());
        assert(recovers(s, a, s.len() - 1));
    }
}

proof fn lemma_one_before(s: Seq<EntryView>, key: Seq<char>, otherwise: bool)
    requires
        s.len() > 0,
        recovered_so(s.drop_last(), key, otherwise) || (intent_key(s.last()) == key
            && last_recovers(s, otherwise)),
    ensures
        recovered_so(s, key, otherwise),
{
    let front = s.drop_last();
    let n = front.len() as int;
    if recovered_so(front, key, otherwise) {
        let (a, b) = choose|a: int, b: int| #[trigger]
            recovers(front, a, b) && intent_key(front[b]) == key && (otherwise ==> front[a].action
                != front[b].action);
        lemma_recovers_longer(s, a, b);
        assert(front[b] == s[b] && front[a] == s[a]);
        assert(recovers(s, a, b));
    } else {
        let a = choose|a: int| #[trigger]
            recovers(s, a, s.len() - 1) && (otherwise ==> s[a].action != s.last().action);
        assert(recovers(s, a, n));
        assert(s[n] == s.last());
    }
}

proof fn lemma_either_way(s: Seq<EntryView>, key: Seq<char>, otherwise: bool)
    requires
        s.len() > 0,
    ensures
        recovered_so(s, key, otherwise) <==> recovered_so(s.drop_last(), key, otherwise) || (
        intent_key(s.last()) == key && last_recovers(s, otherwise)),
{
    if recovered_so(s, key, otherwise) {
        lemma_one_more(s, key, otherwise);
    }
    if recovered_so(s.drop_last(), key, otherwise) || (intent_key(s.last()) == key
        && last_recovers(s, otherwise)) {
        lemma_one_before(s, key, otherwise);
    }
}

proof fn lemma_so(s: Seq<EntryView>, key: Seq<char>)
    ensures
        recovered_so(s, key, false) == some_recovered(s, key),
        recovered_so(s, key, true) == some_went_round(s, key),
{
}

proof fn lemma_recoveries(s: Seq<EntryView>, key: Seq<char>)
    ensures
        keep(recoveries(s), recovery_of(key)).len() > 0 <==> some_recovered(s, key),
        keep(keep(recoveries(s), recovery_of(key)), detours()).len() > 0 <==> some_went_round(
            s,
            key,
        ),
    decreases s.len(),
{
    if s.len() > 0 {
        let front = s.drop_last();
        let e = s.last();
        lemma_recoveries(front, key);
        lemma_last_recovers(s);
        lemma_either_way(s, key, false);
        lemma_either_way(s, key, true);
        lemma_so(s, key);
        lemma_so(front, key);
        let open = open_failures(front, actor_key(e), intent_key(e));
        let r = recovery(e, open);
        let rs = keep(recoveries(s), recovery_of(key));
        let frs = keep(recoveries(front), recovery_of(key));
        if e.success && open.len() > 0 {
            assert(recoveries(s) == recoveries(front).push(r));
            assert(recoveries(s).drop_last() =~= recoveries(front));
            assert(recovery_of(key)(r) == (intent_key(e) == key));
            if intent_key(e) == key {
                assert(rs == frs.push(r));
                assert(rs.drop_last() =~= frs);
                assert(detours()(r) == crate::timeline::is_detour(r));
            }
        }
    } else {
        assert(!some_recovered(s, key));
    }
}

proof fn lemma_pending_has(
    s: Seq<EntryView>,
    of: Seq<(Seq<char>, Seq<char>)>,
    p: (Seq<char>, Seq<char>),
)
    requires
        of.contains(p),
        open_failures(s, p.0, p.1).len() > 0,
    ensures
        keep(pending_among(s, of), pending_of(p.1)).len() > 0,
    decreases of.len(),
{
    let front = of.drop_last();
    let rest = pending_among(s, front);
    let open = open_failures(s, of.last().0, of.last().1);
    if open.len() > 0 {
        assert(pending_among(s, of).drop_last() =~= rest);
    }
    if of.last() != p {
        let i = choose|i: int| 0 <= i < of.len() && of[i] == p;
        assert(front[i] == p);
        lemma_pending_has(s, front, p);
    } else {
        let x = pending(p.1, open);
        assert(pending_among(s, of).last() == x);
        assert(pending_of(p.1)(x));
    }
}

proof fn lemma_pending_from(s: Seq<EntryView>, of: Seq<(Seq<char>, Seq<char>)>, key: Seq<char>)
    requires
        keep(pending_among(s, of), pending_of(key)).len() > 0,
    ensures
        some_gave_up(s, key),
    decreases of.len(),
{
    if of.len() > 0 {
        let rest = pending_among(s, of.drop_last());
        let p = of.last();
        let open = open_failures(s, p.0, p.1);
        if open.len() > 0 {
            assert(pending_among(s, of).drop_last() =~= rest);
        }
        if keep(rest, pending_of(key)).len() > 0 {
            lemma_pending_from(s, of.drop_last(), key);
        } else {
            assert(open.len() > 0 && p.1 == key);
            lemma_open(s, p.0, p.1);
            assert(open.contains(open[0]));
            let a = choose|a: int| #[trigger] is_open_at(s, p.0, p.1, a) && s[a] == open[0];
            assert(is_open_at(s, actor_key(s[a]), key, a));
        }
    }
}

/// What a candidate says of how its actors fared, in the order of time: that some
/// recovered, that some got round what stopped them, or that some gave up. None of
/// it is said without such entries, and all of it is said where there are.
pub proof fn lemma_how_actors_fared(entries: Seq<EntryView>, i: int)
    requires
        0 <= i < listed(entries).len(),
    ensures
        ({
            let c = listed(entries)[i].seen;
            let s = timeline(entries);
            &&& c.success_after_failure_count > 0 <==> some_recovered(s, c.intent_key)
            &&& c.workaround_count > 0 <==> some_went_round(s, c.intent_key)
            &&& c.abandonment_count > 0 <==> some_gave_up(s, c.intent_key)
        }),
{
    lemma_listed_from(entries, i);
    let s = timeline(entries);
    let key = listed(entries)[i].seen.intent_key;
    lemma_recoveries(s, key);
    let of = sorted_keys(pursuits(s));
    crate::order::lemma_sorted_keys(pursuits(s));
    if some_gave_up(s, key) {
        let a = choose|a: int|
            0 <= a < s.len() && #[trigger] is_open_at(s, actor_key(s[a]), key, a);
        let p = (actor_key(s[a]), key);
        assert(pursuits(s)[a] == p);
        assert(pursuits(s).contains(p));
        lemma_open(s, p.0, p.1);
        lemma_pending_has(s, of, p);
    }
    if keep(pendings(s), pending_of(key)).len() > 0 {
        lemma_pending_from(s, of, key);
    }
}

/// Every intent on which an entry failed is listed, unless twelve others are.
pub proof fn lemma_failures_are_listed(entries: Seq<EntryView>, j: int)
    requires
        0 <= j < entries.len(),
        !entries[j].success,
    ensures
        listed(entries).len() == 12 || exists|i: int|
            0 <= i < listed(entries).len() && (#[trigger] listed(entries)[i]).seen.intent_key
                == intent_key(entries[j]),
{
    let s = timeline(entries);
    let e = entries[j];
    let key = intent_key(e);
    let ts = keep(tallies(s), troubled());
    let cs = candidates_of(ts);
    let all = arranged(cs, outweighs());
    lemma_arranged_keeps(entries, earlier(), failing(key));
    lemma_arranged_keeps(cs, outweighs(), |c: CandidateView| true);
    lemma_counts_over(entries, key);
    lemma_keep(entries, failing(key));
    assert(failing(key)(entries[j]));
    assert(keep(entries, failing(key)).contains(entries[j]));
    assert(troubled()(tally(s, key)));
    assert(entries.contains(e));
    assert(s.contains(e));
    let a = choose|a: int| 0 <= a < s.len() && s[a] == e;
    assert(intent_keys(s)[a] == key);
    assert(intent_keys(s).contains(key));
    crate::order::lemma_sorted_keys(intent_keys(s));
    let ks = sorted_keys(intent_keys(s));
    let k = choose|k: int| 0 <= k < ks.len() && ks[k] == key;
    assert(tallies(s)[k] == tally(s, key));
    lemma_keep(tallies(s), troubled());
    assert(ts.contains(tallies(s)[k]));
    let b = choose|b: int| 0 <= b < ts.len() && ts[b] == tally(s, key);
    assert(cs[b] == candidate(ts[b]));
    assert(cs.contains(cs[b]));
    assert(all.contains(cs[b]));
    let i = choose|i: int| 0 <= i < all.len() && all[i] == cs[b];
    if all.len() <= 12 {
        assert(listed(entries)[i].seen.intent_key == key);
    }
}

/// A candidate weighs by its counts: a failure and a giving up four each, a detour
/// five, a denial three, a recovery two; the heavier is listed first.
pub proof fn lemma_heavier_first(entries: Seq<EntryView>, i: int, j: int)
    requires
        0 <= i < j < listed(entries).len(),
        entries.len() <= 0x1_0000_0000,
    ensures
        points(listed(entries)[i].seen) >= points(listed(entries)[j].seen),
{
    crate::evidence_laws::lemma_evidence_lists(entries);
    lemma_few(entries, i);
    lemma_few(entries, j);
    let a = listed(entries)[i];
    let b = listed(entries)[j];
    assert(!outweighs()(b, a));
}

/// The points of a candidate.
pub open spec fn points(t: TallyView) -> nat {
    4 * t.failure_count + 4 * t.abandonment_count + 5 * t.workaround_count + 3 * t.authz_denials + 2
        * t.success_after_failure_count
}

proof fn lemma_pending_few(s: Seq<EntryView>, of: Seq<(Seq<char>, Seq<char>)>)
    ensures
        pending_among(s, of).len() <= of.len(),
    decreases of.len(),
{
    if of.len() > 0 {
        lemma_pending_few(s, of.drop_last());
    }
}

proof fn lemma_sorted_few<K: crate::order::KeyOrder>(s: Seq<K>)
    ensures
        sorted_keys(s).len() <= s.len(),
    decreases s.len(),
{
    if s.len() > 0 {
        lemma_sorted_few(s.drop_last());
        crate::order::lemma_sorted_keys(s.drop_last());
        crate::order::lemma_rank(sorted_keys(s.drop_last()), s.last());
    }
}

proof fn lemma_few(entries: Seq<EntryView>, i: int)
    requires
        0 <= i < listed(entries).len(),
        entries.len() <= 0x1_0000_0000,
    ensures
        weight(listed(entries)[i].seen) == points(listed(entries)[i].seen),
{
    lemma_listed_from(entries, i);
    let s = timeline(entries);
    let t = listed(entries)[i].seen;
    let key = t.intent_key;
    lemma_arranged_keeps(entries, earlier(), failing(key));
    crate::evidence_laws::lemma_tally(s, key);
    lemma_keep(s, of_intent(key));
    assert(t.total_count <= entries.len());
    let of = sorted_keys(pursuits(s));
    lemma_pending_few(s, of);
    lemma_sorted_few(pursuits(s));
    lemma_keep(pendings(s), pending_of(key));
    assert(t.abandonment_count <= entries.len());
}

/// The samples of the evidence are the newest entries, the newest first, each as
/// it was.
pub proof fn lemma_samples(entries: Seq<EntryView>, i: int)
    requires
        0 <= i < evidence(entries).trajectory_samples.len(),
    ensures
        ({
            let s = timeline(entries);
            let e = s[s.len() - 1 - i];
            let x = evidence(entries).trajectory_samples[i];
            &&& evidence(entries).trajectory_samples.len() == if entries.len() <= 20 {
                entries.len()
            } else {
                20
            }
            &&& x.timestamp == e.timestamp
            &&& x.entity_type == e.entity_type
            &&& x.action == e.action
            &&& x.success == e.success
            &&& x.error == e.error
            &&& x.intent == e.intent
            &&& x.agent_id == e.agent_id
            &&& x.session_id == e.session_id
            &&& e.success ==> x.error_pattern is None
            &&& !e.success ==> x.error_pattern == Some(error_pattern(e.error))
        }),
{
    lemma_arranged_keeps(entries, earlier(), |e: EntryView| true);
}

} // verus!
