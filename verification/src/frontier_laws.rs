//! Who dominates whom, who is a member of a frontier, and what is told of it.
use vstd::prelude::*;

use crate::frontier_update::beating;
use crate::frontier_update::frontier_update;
use crate::frontier_update::held_frontier;
use crate::frontier_update::losing;
use crate::frontier_update::member_scores;
use crate::frontier_update::rated;
use crate::frontier_update::score_map;
use crate::frontier_update::standing;
use crate::frontier_update::RatedView;
use crate::json::lemma_place;
use crate::json::lemma_texts_wf;
use crate::json::lemma_with_keeps;
use crate::json::lemma_with_reads;
use crate::json::place;
use crate::json::text_list;
use crate::json::JsonView;
use crate::json_text::number_of;
use crate::module::all_wf;
use crate::module::lemma_field_wf;
use crate::module::ContextView;
use crate::order::keep;
use crate::order::lemma_keep;
use crate::pareto::added;
use crate::pareto::better;
use crate::pareto::dominated_by;
use crate::pareto::score_on;
use crate::pareto::scored;
use crate::pareto::weakest;
use crate::pareto::Candidate;
use crate::score::Score;
use crate::scoring::counts_in;
use crate::scoring::replay_in;
use crate::scoring::weights;
use crate::tool_laws::lacks;

verus! {

/// The score on an objective; zero where there is none.
pub open spec fn on(s: Map<Seq<char>, Score>, k: Seq<char>) -> Score {
    if s.contains_key(k) {
        s[k]
    } else {
        Score { bits: 0 }
    }
}

/// To dominate is to have scores, over another that has some, to be worse on no
/// objective of either, and to be better on one; a score that is missing is zero.
pub proof fn lemma_who_dominates(a: Map<Seq<char>, Score>, b: Map<Seq<char>, Score>)
    ensures
        dominated_by(b, a) <==> {
            &&& a != Map::<Seq<char>, Score>::empty()
            &&& b != Map::<Seq<char>, Score>::empty()
            &&& forall|k: Seq<char>| !(#[trigger] on(a, k)).lt(on(b, k))
            &&& exists|k: Seq<char>| on(b, k).lt(#[trigger] on(a, k))
        },
{
    lemma_some_scores(a);
    lemma_some_scores(b);
    assert forall|k: Seq<char>| on(a, k) == score_on(a, k) && on(b, k) == #[trigger] score_on(
        b,
        k,
    ) by {}
    if dominated_by(b, a) {
        assert forall|k: Seq<char>| !(#[trigger] on(a, k)).lt(on(b, k)) by {
            if scored(a, b, k) {
                assert(!score_on(a, k).lt(score_on(b, k)));
            }
        }
        let k = choose|k: Seq<char>| #[trigger]
            scored(a, b, k) && score_on(b, k).lt(score_on(a, k));
        assert(on(b, k).lt(on(a, k)));
    }
    if (forall|k: Seq<char>| !(#[trigger] on(a, k)).lt(on(b, k))) && (exists|k: Seq<char>|
        on(b, k).lt(#[trigger] on(a, k))) {
        assert forall|k: Seq<char>| #[trigger] scored(a, b, k) implies !score_on(a, k).lt(
            score_on(b, k),
        ) by {
            assert(!on(a, k).lt(on(b, k)));
        }
        let k = choose|k: Seq<char>| on(b, k).lt(#[trigger] on(a, k));
        if !scored(a, b, k) {
            assert(on(a, k) == on(b, k));
        }
        assert(scored(a, b, k) && score_on(b, k).lt(score_on(a, k)));
    }
}

proof fn lemma_some_scores(a: Map<Seq<char>, Score>)
    ensures
        crate::pareto::has_scores(a) <==> a != Map::<Seq<char>, Score>::empty(),
{
    if !crate::pareto::has_scores(a) {
        assert(a =~= Map::<Seq<char>, Score>::empty());
    } else {
        let k = choose|k: Seq<char>| #[trigger] a.contains_key(k);
        assert(a.contains_key(k));
    }
}

/// A candidate that no member dominates becomes a member under its name, in place of
/// one of that name and of all that it dominates; no other member leaves, and
/// nothing changes where a member dominates it.
pub proof fn lemma_who_is_a_member(m: Map<Seq<char>, Candidate>, c: Candidate, k: Seq<char>)
    ensures
        ({
            let covered = exists|j: Seq<char>| #[trigger]
                m.contains_key(j) && dominated_by(c.scores@, m[j].scores@);
            let now = added(m, c);
            &&& covered ==> now == m
            &&& !covered ==> now.contains_key(c.id@) && now[c.id@] == c
            &&& !covered && k != c.id@ ==> (now.contains_key(k) <==> m.contains_key(k)
                && !dominated_by(m[k].scores@, c.scores@))
            &&& !covered && k != c.id@ && now.contains_key(k) ==> now[k] == m[k]
        }),
{
}

/// Of several that are weakest on an objective the first counts: each before it is
/// better.
pub proof fn lemma_weakest_is_first(s: Seq<Candidate>, objective: Seq<char>)
    requires
        s.len() > 0,
        forall|i: int| 0 <= i < s.len() ==> (#[trigger] s[i]).scores@[objective].place() is Some,
    ensures
        exists|i: int|
            0 <= i < s.len() && #[trigger] s[i] == weakest(s, objective) && (forall|j: int|
                0 <= j < i ==> s[i].scores@[objective].lt((#[trigger] s[j]).scores@[objective]))
                && forall|j: int|
                i < j < s.len() ==> !(#[trigger] s[j]).scores@[objective].lt(
                    s[i].scores@[objective],
                ),
    decreases s.len(),
{
    let f = s.drop_last();
    let n = s.len() - 1;
    if s.len() == 1 {
        assert(s[0] == weakest(s, objective));
    } else {
        assert forall|i: int| 0 <= i < f.len() implies (
        #[trigger] f[i]).scores@[objective].place() is Some by {
            assert(f[i] == s[i]);
        }
        lemma_weakest_is_first(f, objective);
        let i = choose|i: int|
            0 <= i < f.len() && #[trigger] f[i] == weakest(f, objective) && (forall|j: int|
                0 <= j < i ==> f[i].scores@[objective].lt((#[trigger] f[j]).scores@[objective]))
                && forall|j: int|
                i < j < f.len() ==> !(#[trigger] f[j]).scores@[objective].lt(
                    f[i].scores@[objective],
                );
        assert(f[i] == s[i]);
        if s[n].scores@[objective].lt(s[i].scores@[objective]) {
            assert(s[n] == weakest(s, objective));
            assert forall|j: int| 0 <= j < n implies s[n].scores@[objective].lt(
                (#[trigger] s[j]).scores@[objective],
            ) by {
                assert(f[j] == s[j]);
            }
        } else {
            assert(s[i] == weakest(s, objective));
            assert forall|j: int| 0 <= j < i implies s[i].scores@[objective].lt(
                (#[trigger] s[j]).scores@[objective],
            ) by {
                assert(f[j] == s[j]);
            }
            assert forall|j: int| i < j < s.len() implies !(
            #[trigger] s[j]).scores@[objective].lt(s[i].scores@[objective]) by {
                if j < n {
                    assert(f[j] == s[j]);
                }
            }
        }
    }
}

/// The scores are those in the fields of an object; what is no number is zero.
pub open spec fn are_scores(s: Map<Seq<char>, Score>, v: JsonView) -> bool {
    forall|k: Seq<char>|
        {
            &&& #[trigger] s.contains_key(k) <==> v.field(k) is Some
            &&& s.contains_key(k) ==> s[k] == match number_of(v.field(k)->0) {
                Some(n) => n,
                None => Score { bits: 0 },
            }
        }
}

proof fn lemma_scores(f: Seq<(Seq<char>, JsonView)>, k: Seq<char>)
    requires
        forall|i: int, j: int| 0 <= i < j < f.len() ==> (#[trigger] f[i]).0 != (#[trigger] f[j]).0,
    ensures
        score_map(f).contains_key(k) <==> place(f, k) < f.len(),
        place(f, k) < f.len() ==> score_map(f)[k] == match number_of(f[place(f, k) as int].1) {
            Some(n) => n,
            None => Score { bits: 0 },
        },
    decreases f.len(),
{
    lemma_place(f, k);
    if f.len() > 0 {
        let front = f.drop_last();
        assert forall|i: int, j: int| 0 <= i < j < front.len() implies (#[trigger] front[i]).0 != (
        #[trigger] front[j]).0 by {
            assert(front[i] == f[i] && front[j] == f[j]);
        }
        lemma_scores(front, k);
        lemma_place(front, k);
        if place(front, k) < front.len() {
            let p = place(front, k) as int;
            assert(front[p] == f[p]);
            assert(f[p].0 != f[f.len() - 1].0);
        }
    }
}

proof fn lemma_member_scores(m: JsonView)
    requires
        m.wf(),
    ensures
        m.field("scores"@) is Some && m.field("scores"@)->0 is Object <==> member_scores(m) is Some,
        member_scores(m) is Some ==> are_scores(member_scores(m)->0, m.field("scores"@)->0),
{
    lemma_field_wf(m, "scores"@);
    if member_scores(m) is Some {
        let v = m.field("scores"@)->0;
        let f = v->Object_0;
        let s = score_map(f);
        let ks = crate::json::field_keys(f);
        assert forall|i: int, j: int| 0 <= i < j < f.len() implies (#[trigger] f[i]).0 != (
        #[trigger] f[j]).0 by {
            assert(crate::order::text_lt(ks[i], ks[j]));
            <Seq<char> as crate::order::KeyOrder>::irreflexive(ks[i]);
        }
        assert forall|k: Seq<char>|
            {
                &&& #[trigger] s.contains_key(k) <==> v.field(k) is Some
                &&& s.contains_key(k) ==> s[k] == match number_of(v.field(k)->0) {
                    Some(n) => n,
                    None => Score { bits: 0 },
                }
            } by {
            lemma_scores(f, k);
        }
    }
}

/// A member with scores `s` stands in the frontier at position `i`.
pub open spec fn is_rated(held: Seq<JsonView>, i: int, s: Map<Seq<char>, Score>) -> bool {
    &&& 0 <= i < held.len()
    &&& held[i].field("scores"@) is Some && held[i].field("scores"@)->0 is Object
    &&& are_scores(s, held[i].field("scores"@)->0)
}

/// Some member of the frontier is better than a candidate with the scores.
pub open spec fn outdone(held: Seq<JsonView>, c: Map<Seq<char>, Score>) -> bool {
    exists|i: int, s: Map<Seq<char>, Score>| #[trigger] is_rated(held, i, s) && better(s, c)
}

/// The candidate with the scores is better than the member.
pub open spec fn outdoes(c: Map<Seq<char>, Score>) -> spec_fn(JsonView) -> bool {
    |m: JsonView|
        exists|s: Map<Seq<char>, Score>|
            m.field("scores"@) is Some && m.field("scores"@)->0 is Object && #[trigger] are_scores(
                s,
                m.field("scores"@)->0,
            ) && better(c, s)
}

/// The candidate with the scores is not better than the member.
pub open spec fn spares(c: Map<Seq<char>, Score>) -> spec_fn(JsonView) -> bool {
    |m: JsonView| !outdoes(c)(m)
}

/// The name of a member.
pub open spec fn name_of(m: JsonView) -> Seq<char> {
    if lacks(m, "id"@) {
        "unknown"@
    } else {
        m.field("id"@)->0->Text_0
    }
}

proof fn lemma_same_scores(s: Map<Seq<char>, Score>, t: Map<Seq<char>, Score>, v: JsonView)
    requires
        are_scores(s, v),
        are_scores(t, v),
    ensures
        s == t,
{
    assert forall|k: Seq<char>| #[trigger] s.contains_key(k) <==> t.contains_key(k) by {}
    assert forall|k: Seq<char>| #[trigger] s.contains_key(k) implies s[k] == t[k] by {
        assert(t.contains_key(k));
    }
    assert(s =~= t);
}

proof fn lemma_outdoes(m: JsonView, c: Map<Seq<char>, Score>)
    requires
        m.wf(),
    ensures
        outdoes(c)(m) <==> member_scores(m) is Some && better(c, member_scores(m)->0),
{
    lemma_member_scores(m);
    if outdoes(c)(m) {
        let s = choose|s: Map<Seq<char>, Score>|
            m.field("scores"@) is Some && m.field("scores"@)->0 is Object && #[trigger] are_scores(
                s,
                m.field("scores"@)->0,
            ) && better(c, s);
        lemma_same_scores(s, member_scores(m)->0, m.field("scores"@)->0);
    }
}

proof fn lemma_kept(held: Seq<JsonView>, c: Map<Seq<char>, Score>)
    requires
        all_wf(held),
    ensures
        crate::frontier_update::members_of(keep(rated(held), standing(c))) == keep(
            held,
            spares(c),
        ),
        crate::frontier_update::members_of(keep(rated(held), losing(c))) == keep(held, outdoes(c)),
    decreases held.len(),
{
    let r = rated(held);
    if held.len() > 0 {
        let front = held.drop_last();
        let m = held.last();
        assert(m.wf());
        lemma_kept(front, c);
        assert(r.drop_last() =~= rated(front));
        lemma_outdoes(m, c);
        assert(r.last() == (RatedView { member: m, scores: member_scores(m) }));
        assert(standing(c)(r.last()) == spares(c)(m));
        assert(losing(c)(r.last()) == outdoes(c)(m));
    }
    assert(crate::frontier_update::members_of(keep(r, standing(c))) =~= keep(held, spares(c)));
    assert(crate::frontier_update::members_of(keep(r, losing(c))) =~= keep(held, outdoes(c)));
}

proof fn lemma_outdone(held: Seq<JsonView>, c: Map<Seq<char>, Score>)
    requires
        all_wf(held),
    ensures
        outdone(held, c) <==> keep(rated(held), beating(c)).len() > 0,
{
    let r = rated(held);
    let k = keep(r, beating(c));
    lemma_keep(r, beating(c));
    if k.len() > 0 {
        assert(beating(c)(k[0]) && r.contains(k[0]));
        let i = choose|i: int| 0 <= i < r.len() && r[i] == k[0];
        assert(held[i].wf());
        lemma_member_scores(held[i]);
        assert(is_rated(held, i, member_scores(held[i])->0));
    }
    if outdone(held, c) {
        let (i, s) = choose|i: int, s: Map<Seq<char>, Score>| #[trigger]
            is_rated(held, i, s) && better(s, c);
        assert(held[i].wf());
        lemma_member_scores(held[i]);
        lemma_same_scores(s, member_scores(held[i])->0, held[i].field("scores"@)->0);
        assert(beating(c)(r[i]));
        assert(k.contains(r[i]));
    }
}

/// A candidate that a member is better than is not added, and the frontier stays;
/// any other is added at its end, and those that it is better than leave, by name. A
/// member without scores neither stops a candidate nor leaves.
pub proof fn lemma_frontier_is_updated(
    ctx: ContextView,
    held: Seq<JsonView>,
    candidate: JsonView,
    c: Map<Seq<char>, Score>,
)
    requires
        ctx.trigger_params.wf(),
        all_wf(held),
        ctx.entity_state.field("pareto_frontier"@) == Some(JsonView::List(held)) || (held.len()
            == 0 && ctx.entity_state.field("pareto_frontier"@) is None),
        ctx.trigger_params.field("candidate"@) == Some(candidate),
        candidate.field("scores"@) is Some && candidate.field("scores"@)->0 is Object,
        are_scores(c, candidate.field("scores"@)->0),
    ensures
        ({
            let r = frontier_update(ctx)->Ok_0;
            let stay = keep(held, spares(c));
            let gone = keep(held, outdoes(c));
            &&& frontier_update(ctx) is Ok
            &&& outdone(held, c) ==> {
                &&& r.field("added"@) == Some(JsonView::Bool(false))
                &&& r.field("frontier"@) is None
                &&& r.field("frontier_size"@) == Some(JsonView::Unsigned(held.len() as u64))
                &&& r.field("removed"@) == Some(text_list(Seq::empty()))
            }
            &&& !outdone(held, c) ==> {
                &&& r.field("added"@) == Some(JsonView::Bool(true))
                &&& r.field("frontier"@) == Some(JsonView::List(stay.push(candidate)))
                &&& r.field("frontier_size"@) == Some(JsonView::Unsigned((stay.len() + 1) as u64))
                &&& r.field("removed"@) == Some(
                    text_list(Seq::new(gone.len(), |i: int| name_of(gone[i]))),
                )
            }
        }),
{
    broadcast use {lemma_with_reads, lemma_with_keeps, lemma_texts_wf};

    lemma_report_keys();
    lemma_field_wf(ctx.trigger_params, "candidate"@);
    lemma_member_scores(candidate);
    lemma_same_scores(c, member_scores(candidate)->0, candidate.field("scores"@)->0);
    assert(held_frontier(ctx) =~= held);
    lemma_kept(held, c);
    lemma_outdone(held, c);
    let stay = keep(held, spares(c));
    let gone = keep(held, outdoes(c));
    lemma_keep(held, spares(c));
    let now = stay.push(candidate);
    assert forall|i: int| 0 <= i < now.len() implies (#[trigger] now[i]).wf() by {
        if i < stay.len() {
            assert(held.contains(stay[i]));
        }
    }
    assert(JsonView::List(now).wf());
    let g = keep(rated(held), losing(c));
    assert forall|i: int| 0 <= i < g.len() implies (#[trigger] g[i]).member == gone[i] by {
        assert(crate::frontier_update::members_of(g)[i] == g[i].member);
    }
    assert(crate::frontier_update::member_ids(g) =~= Seq::new(
        gone.len(),
        |i: int| name_of(gone[i]),
    ));
    assert(crate::json::empty_object().field("frontier"@) is None);
}

/// Without a candidate, or with one without scores, there is no update.
pub proof fn lemma_no_update(ctx: ContextView)
    ensures
        ctx.trigger_params.field("candidate"@) is None ==> frontier_update(ctx) == Err::<
            JsonView,
            Seq<char>,
        >("trigger_params missing 'candidate'"@),
        ctx.trigger_params.field("candidate"@) matches Some(c) ==> !(c.field("scores"@) is Some
            && c.field("scores"@)->0 is Object) ==> frontier_update(ctx) == Err::<
            JsonView,
            Seq<char>,
        >("candidate missing 'scores'"@),
{
}

/// What a replay counted is read from the result of the replay, else from the result
/// of the trigger, else from the trigger; what is no count is none.
pub proof fn lemma_counts_are_read(g: JsonView, v: JsonView)
    requires
        g.field("replay_result"@) == Some(v) || (g.field("replay_result"@) is None && g.field(
            "result"@,
        ) == Some(v)) || (g.field("replay_result"@) is None && g.field("result"@) is None && v
            == g),
    ensures
        ({
            let c = counts_in(replay_in(g));
            &&& is_counted(v, "actions_attempted"@, c.attempted)
            &&& is_counted(v, "succeeded"@, c.succeeded)
            &&& is_counted(v, "guard_rejections"@, c.guard_rejections)
            &&& is_counted(v, "unknown_actions"@, c.unknown_actions)
        }),
{
}

/// The number is the count in a field; what is no count is none.
pub open spec fn is_counted(v: JsonView, key: Seq<char>, n: u64) -> bool {
    &&& v.field(key) matches Some(JsonView::Unsigned(m)) ==> n == m
    &&& !(v.field(key) is Some && v.field(key)->0 is Unsigned) ==> n == 0
}

/// The weights are those of the entity, name by name; without any, success weighs one,
/// coverage four fifths, and guards three fifths.
pub proof fn lemma_weights(state: JsonView)
    ensures
        state.field("scoring_weights"@) is None ==> weights(state) == seq![
            ("coverage"@, Score { bits: 0x3FE9_9999_9999_999A }),
            ("guard_pass_rate"@, Score { bits: 0x3FE3_3333_3333_3333 }),
            ("success_rate"@, Score { bits: 0x3FF0_0000_0000_0000 }),
        ],
        state.field("scoring_weights"@) matches Some(JsonView::Object(f)) ==> weights(state).len()
            == f.len() && forall|i: int|
            0 <= i < f.len() ==> (#[trigger] weights(state)[i]).0 == f[i].0 && (number_of(
                f[i].1,
            ) is Some ==> weights(state)[i].1 == number_of(f[i].1)->0) && (number_of(
                f[i].1,
            ) is None ==> weights(state)[i].1 == (Score { bits: 0 })),
        state.field("scoring_weights"@) is Some && !(state.field("scoring_weights"@)->0 is Object)
            ==> weights(state).len() == 0,
{
}

proof fn lemma_report_keys()
    ensures
        "added"@ != "frontier"@,
        "added"@ != "frontier_size"@,
        "added"@ != "removed"@,
        "frontier"@ != "frontier_size"@,
        "frontier"@ != "removed"@,
        "frontier_size"@ != "removed"@,
{
    reveal_strlit("added");
    reveal_strlit("frontier");
    reveal_strlit("frontier_size");
    reveal_strlit("removed");
    assert("added"@.len() == 5);
    assert("frontier"@.len() == 8);
    assert("frontier_size"@.len() == 13);
    assert("removed"@.len() == 7);
}

} // verus!
