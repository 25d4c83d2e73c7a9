//! What a reflective dataset says of the decisions that it was built from.
use vstd::prelude::*;

use crate::json::empty_object;
use crate::json::lemma_with_keeps;
use crate::json::lemma_with_reads;
use crate::json::JsonView;
use crate::module::all_wf;
use crate::order::arranged;
use crate::order::keep;
use crate::order::lemma_arranged_keeps;
use crate::reflective::all_triplets;
use crate::reflective::dataset_for;
use crate::reflective::failures;
use crate::reflective::triplet;
use crate::reflective::triplet_values;
use crate::reflective::turn_triplets;
use crate::reflective::turns_triplets;
use crate::reflective::worse;
use crate::reflective::TripletView;

verus! {

/// A decision, with the trajectory and the turn in which it was taken.
pub struct DecisionView {
    /// The trajectory.
    pub trajectory: JsonView,
    /// The turn, counted from zero.
    pub turn: nat,
    /// The decision.
    pub decision: JsonView,
}

/// The values that a field lists.
pub open spec fn values_in(v: JsonView, key: Seq<char>) -> Seq<JsonView> {
    if v.field(key) is Some && v.field(key)->0 is List {
        v.field(key)->0->List_0
    } else {
        Seq::empty()
    }
}

/// The decisions of the first `n` turns of a trajectory, in order.
pub open spec fn decisions_in(trajectory: JsonView, n: nat) -> Seq<DecisionView>
    decreases n,
{
    if n == 0 {
        Seq::empty()
    } else {
        let turn = (n - 1) as nat;
        let taken = values_in(values_in(trajectory, "turns"@)[turn as int], "decisions"@);
        decisions_in(trajectory, turn) + Seq::new(
            taken.len(),
            |i: int| DecisionView { trajectory, turn, decision: taken[i] },
        )
    }
}

/// The decisions of trajectories, in order.
pub open spec fn decisions(s: Seq<JsonView>) -> Seq<DecisionView>
    decreases s.len(),
{
    if s.len() == 0 {
        Seq::empty()
    } else {
        decisions(s.drop_last()) + decisions_in(
            s.last(),
            values_in(s.last(), "turns"@).len(),
        )
    }
}

/// The text in a field, or another one.
pub open spec fn said(v: JsonView, key: Seq<char>, otherwise: Seq<char>) -> Seq<char> {
    if v.field(key) is Some && v.field(key)->0 is Text {
        v.field(key)->0->Text_0
    } else {
        otherwise
    }
}

/// The test for decisions that went wrong: those with any other outcome than
/// `success` or `partial_success`.
pub open spec fn gone_wrong() -> spec_fn(DecisionView) -> bool {
    |d: DecisionView|
        said(d.decision, "outcome"@, "unknown"@) != "success"@ && said(
            d.decision,
            "outcome"@,
            "unknown"@,
        ) != "partial_success"@
}

/// The score of a triplet.
pub open spec fn score_of(v: JsonView) -> Option<JsonView> {
    v.field("score"@)
}

/// The value says of a decision what happened and what is to be learnt from it:
/// nothing but its being gone wrong makes the score zero and the feedback say so.
pub open spec fn tells_of(v: JsonView, d: DecisionView, entity_type: Seq<char>) -> bool {
    let action = said(d.decision, "action"@, "unknown"@);
    let outcome = said(d.decision, "outcome"@, "unknown"@);
    &&& v.field("input"@) == Some(JsonView::Text(said(d.decision, "reasoning"@, ""@)))
    &&& v.field("output"@) == Some(JsonView::Text(action + " → "@ + outcome))
    &&& v.field("trajectory_id"@) == Some(
        JsonView::Text(said(d.trajectory, "trajectory_id"@, "unknown"@)),
    )
    &&& v.field("turn_id"@) == Some(JsonView::Unsigned(d.turn as u64))
    &&& v.field("entity_type"@) == Some(JsonView::Text(entity_type))
    &&& v.field("action"@) == Some(JsonView::Text(action))
    &&& outcome == "success"@ ==> score_of(v) == Some(JsonView::Decimal("1.0"@))
    &&& outcome == "partial_success"@ ==> score_of(v) == Some(JsonView::Decimal("0.5"@))
    &&& gone_wrong()(d) ==> score_of(v) == Some(JsonView::Decimal("0.0"@)) && v.field("feedback"@)
        == Some(
        JsonView::Text(
            "Action '"@ + action + "' failed: "@ + said(d.decision, "error"@, "action failed"@)
                + ". Consider adding or modifying this action in the spec."@,
        ),
    )
    &&& !gone_wrong()(d) ==> v.field("feedback"@) == Some(
        JsonView::Text("Action '"@ + action + "' succeeded."@),
    )
}

proof fn lemma_triplet_keys()
    ensures
        "input"@ != "output"@,
        "input"@ != "feedback"@,
        "input"@ != "score"@,
        "input"@ != "trajectory_id"@,
        "input"@ != "turn_id"@,
        "input"@ != "entity_type"@,
        "input"@ != "action"@,
        "output"@ != "feedback"@,
        "output"@ != "score"@,
        "output"@ != "trajectory_id"@,
        "output"@ != "turn_id"@,
        "output"@ != "entity_type"@,
        "output"@ != "action"@,
        "feedback"@ != "score"@,
        "feedback"@ != "trajectory_id"@,
        "feedback"@ != "turn_id"@,
        "feedback"@ != "entity_type"@,
        "feedback"@ != "action"@,
        "score"@ != "trajectory_id"@,
        "score"@ != "turn_id"@,
        "score"@ != "entity_type"@,
        "score"@ != "action"@,
        "trajectory_id"@ != "turn_id"@,
        "trajectory_id"@ != "entity_type"@,
        "trajectory_id"@ != "action"@,
        "turn_id"@ != "entity_type"@,
        "turn_id"@ != "action"@,
        "entity_type"@ != "action"@,
{
    reveal_strlit("input");
    reveal_strlit("output");
    reveal_strlit("feedback");
    reveal_strlit("score");
    reveal_strlit("trajectory_id");
    reveal_strlit("turn_id");
    reveal_strlit("entity_type");
    reveal_strlit("action");
    assert("input"@.len() == 5);
    assert("output"@.len() == 6);
    assert("feedback"@.len() == 8);
    assert("score"@.len() == 5);
    assert("trajectory_id"@.len() == 13);
    assert("turn_id"@.len() == 7);
    assert("entity_type"@.len() == 11);
    assert("action"@.len() == 6);
    assert("input"@[0] == 'i');
    assert("score"@[0] == 's');
    assert("output"@[0] == 'o');
    assert("action"@[0] == 'a');
}

proof fn lemma_dataset_keys()
    ensures
        "skill_name"@ != "entity_type"@,
        "skill_name"@ != "triplets"@,
        "skill_name"@ != "verification_feedback"@,
        "skill_name"@ != "failure_count"@,
        "skill_name"@ != "success_count"@,
        "entity_type"@ != "triplets"@,
        "entity_type"@ != "verification_feedback"@,
        "entity_type"@ != "failure_count"@,
        "entity_type"@ != "success_count"@,
        "triplets"@ != "verification_feedback"@,
        "triplets"@ != "failure_count"@,
        "triplets"@ != "success_count"@,
        "verification_feedback"@ != "failure_count"@,
        "verification_feedback"@ != "success_count"@,
        "failure_count"@ != "success_count"@,
{
    reveal_strlit("skill_name");
    reveal_strlit("entity_type");
    reveal_strlit("triplets");
    reveal_strlit("verification_feedback");
    reveal_strlit("failure_count");
    reveal_strlit("success_count");
    assert("skill_name"@.len() == 10);
    assert("entity_type"@.len() == 11);
    assert("triplets"@.len() == 8);
    assert("verification_feedback"@.len() == 21);
    assert("failure_count"@.len() == 13);
    assert("success_count"@.len() == 13);
    assert("failure_count"@[0] == 'f');
    assert("success_count"@[0] == 's');
}

proof fn lemma_outcomes_differ()
    ensures
        "success"@ != "partial_success"@,
{
    reveal_strlit("success");
    reveal_strlit("partial_success");
    assert("success"@.len() == 7);
    assert("partial_success"@.len() == 15);
}

proof fn lemma_scores_differ()
    ensures
        "0.0"@ != "0.5"@,
        "0.0"@ != "1.0"@,
        "0.5"@ != "1.0"@,
{
    reveal_strlit("0.0");
    reveal_strlit("0.5");
    reveal_strlit("1.0");
    assert("0.0"@.len() == 3);
    assert("0.5"@.len() == 3);
    assert("1.0"@.len() == 3);
    assert("0.0"@[2] == '0');
    assert("0.5"@[2] == '5');
    assert("0.0"@[0] == '0');
    assert("1.0"@[0] == '1');
    assert("0.5"@[0] == '0');
}

/// The triplet was made for the decision.
spec fn made_for(t: TripletView, d: DecisionView, entity_type: Seq<char>) -> bool {
    t == triplet(
        said(d.trajectory, "trajectory_id"@, "unknown"@),
        d.turn,
        entity_type,
        d.decision,
    )
}

proof fn lemma_triplet_tells(t: TripletView, d: DecisionView, entity_type: Seq<char>)
    requires
        made_for(t, d, entity_type),
    ensures
        tells_of(t.value, d, entity_type),
        t.value.wf(),
        failures()(t) == gone_wrong()(d),
{
    broadcast use {lemma_with_reads, lemma_with_keeps};

    lemma_triplet_keys();
    lemma_outcomes_differ();
}

proof fn lemma_turns(trajectory: JsonView, entity_type: Seq<char>, n: nat)
    requires
        n <= values_in(trajectory, "turns"@).len(),
    ensures
        ({
            let ds = decisions_in(trajectory, n);
            let ts = turns_triplets(
                said(trajectory, "trajectory_id"@, "unknown"@),
                entity_type,
                values_in(trajectory, "turns"@).take(n as int),
            );
            &&& ds.len() == ts.len()
            &&& forall|i: int|
                0 <= i < ds.len() ==> made_for(#[trigger] ts[i], ds[i], entity_type)
        }),
    decreases n,
{
    let turns = values_in(trajectory, "turns"@);
    let id = said(trajectory, "trajectory_id"@, "unknown"@);
    if n > 0 {
        let m = (n - 1) as nat;
        lemma_turns(trajectory, entity_type, m);
        assert(turns.take(n as int).drop_last() =~= turns.take(m as int));
        assert(turns.take(n as int).last() == turns[m as int]);
        let ds = decisions_in(trajectory, n);
        let ts = turns_triplets(id, entity_type, turns.take(n as int));
        let da = decisions_in(trajectory, m);
        let ta = turns_triplets(id, entity_type, turns.take(m as int));
        let taken = values_in(turns[m as int], "decisions"@);
        let tb = turn_triplets(id, m, entity_type, taken);
        assert(ts == ta + tb);
        assert forall|i: int| 0 <= i < ds.len() implies made_for(
            #[trigger] ts[i],
            ds[i],
            entity_type,
        ) by {
            if i < da.len() {
                assert(ts[i] == ta[i] && ds[i] == da[i]);
            } else {
                assert(ts[i] == tb[i - ta.len()]);
            }
        }
    }
}

proof fn lemma_all(entity_type: Seq<char>, s: Seq<JsonView>)
    ensures
        decisions(s).len() == all_triplets(entity_type, s).len(),
        forall|i: int|
            0 <= i < decisions(s).len() ==> made_for(
                #[trigger] all_triplets(entity_type, s)[i],
                decisions(s)[i],
                entity_type,
            ),
    decreases s.len(),
{
    if s.len() > 0 {
        let front = s.drop_last();
        let t = s.last();
        lemma_all(entity_type, front);
        let turns = values_in(t, "turns"@);
        lemma_turns(t, entity_type, turns.len());
        assert(turns.take(turns.len() as int) =~= turns);
        let ds = decisions(s);
        let ts = all_triplets(entity_type, s);
        let da = decisions(front);
        let ta = all_triplets(entity_type, front);
        let db = decisions_in(t, turns.len());
        let tb = turns_triplets(said(t, "trajectory_id"@, "unknown"@), entity_type, turns);
        assert(ts == ta + tb);
        assert forall|i: int| 0 <= i < ds.len() implies made_for(
            #[trigger] ts[i],
            ds[i],
            entity_type,
        ) by {
            if i < da.len() {
                assert(ts[i] == ta[i] && ds[i] == da[i]);
            } else {
                assert(ts[i] == tb[i - ta.len()] && ds[i] == db[i - da.len()]);
            }
        }
    }
}

proof fn lemma_wrong_counted(entity_type: Seq<char>, ts: Seq<TripletView>, ds: Seq<DecisionView>)
    requires
        ts.len() == ds.len(),
        forall|i: int| 0 <= i < ds.len() ==> made_for(#[trigger] ts[i], ds[i], entity_type),
    ensures
        keep(ts, failures()).len() == keep(ds, gone_wrong()).len(),
    decreases ts.len(),
{
    if ts.len() > 0 {
        let n = ts.len() - 1;
        assert forall|i: int| 0 <= i < n implies made_for(
            #[trigger] ts.drop_last()[i],
            ds.drop_last()[i],
            entity_type,
        ) by {
            assert(made_for(ts[i], ds[i], entity_type));
        }
        lemma_wrong_counted(entity_type, ts.drop_last(), ds.drop_last());
        assert(made_for(ts[n], ds[n], entity_type));
        lemma_triplet_tells(ts[n], ds[n], entity_type);
    }
}

proof fn lemma_dataset_reads(
    skill: Seq<char>,
    entity_type: Seq<char>,
    t: Seq<JsonView>,
    notes: Seq<Seq<char>>,
    failed: u64,
    good: u64,
)
    requires
        all_wf(t),
    ensures
        ({
            let inner = empty_object().with("skill_name"@, JsonView::Text(skill)).with(
                "entity_type"@,
                JsonView::Text(entity_type),
            ).with("triplets"@, JsonView::List(t)).with(
                "verification_feedback"@,
                crate::json::text_list(notes),
            ).with("failure_count"@, JsonView::Unsigned(failed)).with(
                "success_count"@,
                JsonView::Unsigned(good),
            );
            let d = empty_object().with("reflective_dataset"@, inner);
            &&& d.field("reflective_dataset"@) == Some(inner)
            &&& inner.field("skill_name"@) == Some(JsonView::Text(skill))
            &&& inner.field("entity_type"@) == Some(JsonView::Text(entity_type))
            &&& inner.field("triplets"@) == Some(JsonView::List(t))
            &&& inner.field("verification_feedback"@) == Some(crate::json::text_list(notes))
            &&& inner.field("failure_count"@) == Some(JsonView::Unsigned(failed))
            &&& inner.field("success_count"@) == Some(JsonView::Unsigned(good))
        }),
{
    broadcast use {lemma_with_reads, lemma_with_keeps};

    lemma_dataset_keys();
    assert(JsonView::List(t).wf());
    let list = crate::json::text_list(notes);
    assert(list.wf()) by {
        assert forall|i: int| 0 <= i < notes.len() implies (#[trigger] list->List_0[i]).wf() by {
            assert(list->List_0[i] == JsonView::Text(notes[i]));
        }
    }
}

/// One of the values tells of the decision.
pub open spec fn is_told(d: DecisionView, t: Seq<JsonView>, entity_type: Seq<char>) -> bool {
    exists|j: int| 0 <= j < t.len() && tells_of(#[trigger] t[j], d, entity_type)
}

/// The value tells of one of the decisions.
pub open spec fn tells_something(
    v: JsonView,
    all: Seq<DecisionView>,
    entity_type: Seq<char>,
) -> bool {
    exists|i: int| 0 <= i < all.len() && tells_of(v, #[trigger] all[i], entity_type)
}

/// The dataset for trajectories, as an object.
pub open spec fn dataset(fields: JsonView, trajectories: Seq<JsonView>) -> JsonView {
    dataset_for(fields, trajectories).field("reflective_dataset"@)->0
}

/// What a dataset tells, in order.
pub open spec fn told(fields: JsonView, trajectories: Seq<JsonView>) -> Seq<JsonView> {
    dataset(fields, trajectories).field("triplets"@)->0->List_0
}

spec fn is_made(t: TripletView, all: Seq<DecisionView>, entity_type: Seq<char>) -> bool {
    exists|i: int| 0 <= i < all.len() && made_for(t, #[trigger] all[i], entity_type)
}

proof fn lemma_sorted(fields: JsonView, trajectories: Seq<JsonView>)
    ensures
        ({
            let entity_type = said(fields, "TargetEntityType"@, "unknown"@);
            let sorted = arranged(all_triplets(entity_type, trajectories), worse());
            let all = decisions(trajectories);
            &&& sorted.len() == all.len()
            &&& crate::order::in_order(sorted, worse())
            &&& keep(sorted, failures()).len() == keep(all, gone_wrong()).len()
            &&& forall|j: int|
                0 <= j < sorted.len() ==> is_made(#[trigger] sorted[j], all, entity_type)
            &&& all_wf(triplet_values(sorted))
        }),
{
    let entity_type = said(fields, "TargetEntityType"@, "unknown"@);
    let all = decisions(trajectories);
    let ts = all_triplets(entity_type, trajectories);
    let sorted = arranged(ts, worse());
    lemma_all(entity_type, trajectories);
    lemma_wrong_counted(entity_type, ts, all);
    lemma_arranged_keeps(ts, worse(), failures());
    crate::reflective::lemma_worst_first(entity_type, trajectories);
    let t = triplet_values(sorted);
    assert forall|j: int| 0 <= j < sorted.len() implies is_made(
        #[trigger] sorted[j],
        all,
        entity_type,
    ) && t[j].wf() by {
        assert(sorted.contains(sorted[j]));
        assert(ts.contains(sorted[j]));
        let i = choose|i: int| 0 <= i < ts.len() && ts[i] == sorted[j];
        assert(made_for(ts[i], all[i], entity_type));
        lemma_triplet_tells(ts[i], all[i], entity_type);
    }
    assert forall|j: int| 0 <= j < t.len() implies (#[trigger] t[j]).wf() by {
        assert(is_made(sorted[j], all, entity_type));
    }
}

proof fn lemma_told(fields: JsonView, trajectories: Seq<JsonView>)
    ensures
        ({
            let d = dataset(fields, trajectories);
            let entity_type = said(fields, "TargetEntityType"@, "unknown"@);
            let sorted = arranged(all_triplets(entity_type, trajectories), worse());
            let all = decisions(trajectories);
            let wrong = keep(all, gone_wrong()).len();
            &&& dataset_for(fields, trajectories).field("reflective_dataset"@) is Some
            &&& d.field("triplets"@) == Some(JsonView::List(told(fields, trajectories)))
            &&& told(fields, trajectories) == triplet_values(sorted)
            &&& d.field("skill_name"@) == Some(
                JsonView::Text(said(fields, "SkillName"@, "unknown"@)),
            )
            &&& d.field("entity_type"@) == Some(JsonView::Text(entity_type))
            &&& d.field("failure_count"@) == Some(JsonView::Unsigned(wrong as u64))
            &&& d.field("success_count"@) == Some(JsonView::Unsigned((all.len() - wrong) as u64))
            &&& d.field("verification_feedback"@) == Some(
                crate::json::text_list(
                    crate::reflective::strings(
                        crate::reflective::items_in(fields, "VerificationErrors"@),
                    ),
                ),
            )
        }),
{
    let entity_type = said(fields, "TargetEntityType"@, "unknown"@);
    let sorted = arranged(all_triplets(entity_type, trajectories), worse());
    lemma_sorted(fields, trajectories);
    let t = triplet_values(sorted);
    let failed = keep(sorted, failures()).len();
    lemma_dataset_reads(
        said(fields, "SkillName"@, "unknown"@),
        entity_type,
        t,
        crate::reflective::strings(crate::reflective::items_in(fields, "VerificationErrors"@)),
        failed as u64,
        (t.len() - failed) as u64,
    );
}

/// A dataset counts the decisions: `failure_count` is the number of those with any
/// other outcome than success or partial success, `success_count` that of the
/// others; and there is one triplet for each.
pub proof fn lemma_decisions_are_counted(fields: JsonView, trajectories: Seq<JsonView>)
    ensures
        ({
            let d = dataset(fields, trajectories);
            let all = decisions(trajectories);
            let wrong = keep(all, gone_wrong()).len();
            &&& dataset_for(fields, trajectories).field("reflective_dataset"@) is Some
            &&& d.field("triplets"@) == Some(JsonView::List(told(fields, trajectories)))
            &&& told(fields, trajectories).len() == all.len()
            &&& d.field("skill_name"@) == Some(
                JsonView::Text(said(fields, "SkillName"@, "unknown"@)),
            )
            &&& d.field("entity_type"@) == Some(
                JsonView::Text(said(fields, "TargetEntityType"@, "unknown"@)),
            )
            &&& d.field("failure_count"@) == Some(JsonView::Unsigned(wrong as u64))
            &&& d.field("success_count"@) == Some(JsonView::Unsigned((all.len() - wrong) as u64))
        }),
{
    lemma_told(fields, trajectories);
    lemma_sorted(fields, trajectories);
}

/// A dataset tells of every decision, and of nothing else. Each decision with any
/// other outcome than success or partial success has a score of zero and is told
/// to have failed.
pub proof fn lemma_decisions_are_told(fields: JsonView, trajectories: Seq<JsonView>)
    ensures
        ({
            let t = told(fields, trajectories);
            let all = decisions(trajectories);
            let entity_type = said(fields, "TargetEntityType"@, "unknown"@);
            &&& forall|i: int| 0 <= i < all.len() ==> is_told(#[trigger] all[i], t, entity_type)
            &&& forall|j: int|
                0 <= j < t.len() ==> tells_something(#[trigger] t[j], all, entity_type)
        }),
{
    let entity_type = said(fields, "TargetEntityType"@, "unknown"@);
    let all = decisions(trajectories);
    let ts = all_triplets(entity_type, trajectories);
    let sorted = arranged(ts, worse());
    let t = told(fields, trajectories);
    lemma_told(fields, trajectories);
    lemma_sorted(fields, trajectories);
    lemma_all(entity_type, trajectories);
    lemma_arranged_keeps(ts, worse(), failures());
    assert forall|i: int| 0 <= i < all.len() implies is_told(
        #[trigger] all[i],
        t,
        entity_type,
    ) by {
        assert(made_for(ts[i], all[i], entity_type));
        assert(ts.contains(ts[i]));
        assert(sorted.contains(ts[i]));
        let j = choose|j: int| 0 <= j < sorted.len() && sorted[j] == ts[i];
        lemma_triplet_tells(sorted[j], all[i], entity_type);
        assert(t[j] == sorted[j].value);
    }
    assert forall|j: int| 0 <= j < t.len() implies tells_something(
        #[trigger] t[j],
        all,
        entity_type,
    ) by {
        assert(is_made(sorted[j], all, entity_type));
        let i = choose|i: int|
            0 <= i < all.len() && made_for(sorted[j], #[trigger] all[i], entity_type);
        lemma_triplet_tells(sorted[j], all[i], entity_type);
    }
}

/// The test for texts.
pub open spec fn is_text() -> spec_fn(JsonView) -> bool {
    |v: JsonView| v is Text
}

proof fn lemma_strings(s: Seq<JsonView>)
    ensures
        ({
            let k = keep(s, is_text());
            crate::reflective::strings(s) == Seq::new(k.len(), |i: int| k[i]->Text_0)
        }),
    decreases s.len(),
{
    let k = keep(s, is_text());
    if s.len() > 0 {
        lemma_strings(s.drop_last());
        let kf = keep(s.drop_last(), is_text());
        if is_text()(s.last()) {
            assert(k == kf.push(s.last()));
        }
    }
    assert(crate::reflective::strings(s) =~= Seq::new(k.len(), |i: int| k[i]->Text_0));
}

/// A dataset hands on the errors of verification that are texts, in order.
pub proof fn lemma_verification_is_told(fields: JsonView, trajectories: Seq<JsonView>)
    ensures
        ({
            let k = keep(values_in(fields, "VerificationErrors"@), is_text());
            dataset(fields, trajectories).field("verification_feedback"@) == Some(
                crate::json::text_list(Seq::new(k.len(), |i: int| k[i]->Text_0)),
            )
        }),
{
    lemma_told(fields, trajectories);
    lemma_strings(values_in(fields, "VerificationErrors"@));
    assert(crate::reflective::items_in(fields, "VerificationErrors"@) =~= values_in(
        fields,
        "VerificationErrors"@,
    ));
}

/// In a dataset those that failed come first, then those that succeeded in part.
pub proof fn lemma_failures_come_first(fields: JsonView, trajectories: Seq<JsonView>)
    ensures
        ({
            let t = told(fields, trajectories);
            &&& forall|j: int, k: int|
                #![trigger t[j], t[k]]
                0 <= j < k < t.len() && score_of(t[k]) == Some(JsonView::Decimal("0.0"@))
                    ==> score_of(t[j]) == Some(JsonView::Decimal("0.0"@))
            &&& forall|j: int, k: int|
                #![trigger t[j], t[k]]
                0 <= j < k < t.len() && score_of(t[j]) == Some(JsonView::Decimal("1.0"@))
                    ==> score_of(t[k]) == Some(JsonView::Decimal("1.0"@))
        }),
{
    let entity_type = said(fields, "TargetEntityType"@, "unknown"@);
    let sorted = arranged(all_triplets(entity_type, trajectories), worse());
    lemma_told(fields, trajectories);
    lemma_sorted(fields, trajectories);
    lemma_scores_by_grade(sorted, decisions(trajectories), entity_type);
}

proof fn lemma_scores_by_grade(
    sorted: Seq<TripletView>,
    all: Seq<DecisionView>,
    entity_type: Seq<char>,
)
    requires
        crate::order::in_order(sorted, worse()),
        forall|j: int|
            0 <= j < sorted.len() ==> is_made(#[trigger] sorted[j], all, entity_type),
    ensures
        ({
            let t = triplet_values(sorted);
            &&& forall|j: int, k: int|
                #![trigger t[j], t[k]]
                0 <= j < k < t.len() && score_of(t[k]) == Some(JsonView::Decimal("0.0"@))
                    ==> score_of(t[j]) == Some(JsonView::Decimal("0.0"@))
            &&& forall|j: int, k: int|
                #![trigger t[j], t[k]]
                0 <= j < k < t.len() && score_of(t[j]) == Some(JsonView::Decimal("1.0"@))
                    ==> score_of(t[k]) == Some(JsonView::Decimal("1.0"@))
        }),
{
    let t = triplet_values(sorted);
    lemma_scores_differ();
    assert forall|j: int| 0 <= j < sorted.len() implies score_of(#[trigger] t[j]) == Some(
        JsonView::Decimal(crate::reflective::grade_score(sorted[j].grade)),
    ) by {
        assert(is_made(sorted[j], all, entity_type));
        let i = choose|i: int|
            0 <= i < all.len() && made_for(sorted[j], #[trigger] all[i], entity_type);
        lemma_score(sorted[j], all[i], entity_type);
    }
    assert forall|j: int, k: int|
        #![trigger t[j], t[k]]
        0 <= j < k < t.len() implies !worse()(sorted[k], sorted[j]) by {
        assert(t[j] == sorted[j].value && t[k] == sorted[k].value);
    }
}

proof fn lemma_score(t: TripletView, d: DecisionView, entity_type: Seq<char>)
    requires
        made_for(t, d, entity_type),
    ensures
        score_of(t.value) == Some(JsonView::Decimal(crate::reflective::grade_score(t.grade))),
{
    broadcast use {lemma_with_reads, lemma_with_keeps};

    lemma_triplet_keys();
}

} // verus!
