//! The reflective dataset: what was decided in trajectories, what came of it,
//! and what to learn from it, the worst first.
use vstd::prelude::*;

use crate::json::empty_object;
use crate::json::text_list;
use crate::json::Json;
use crate::json::JsonView;
use crate::json_text::json_read;
use crate::json_text::parse;
use crate::keys::arrange;
use crate::llm_convert::array;
use crate::llm_convert::get_or;
use crate::module::copy_values;
use crate::module::ModuleContext;
use crate::order::arranged;
use crate::order::keep;
use crate::order::lemma_take_step;
use crate::order::views;
use crate::proposer::run_fields;
use crate::text::cat3;
use crate::text::cat5;
use crate::text::same;

verus! {

/// How good an outcome was: bad, partly good or good.
#[derive(Clone, Copy, Debug, PartialEq, Eq, Structural)]
pub enum Grade {
    /// It failed.
    Failed,
    /// It succeeded in part.
    Partial,
    /// It succeeded.
    Succeeded,
}

/// The grade of an outcome.
pub open spec fn grade(outcome: Seq<char>) -> Grade {
    if outcome == "success"@ {
        Grade::Succeeded
    } else if outcome == "partial_success"@ {
        Grade::Partial
    } else {
        Grade::Failed
    }
}

/// The grade as a score.
pub open spec fn grade_score(g: Grade) -> Seq<char> {
    match g {
        Grade::Failed => "0.0"@,
        Grade::Partial => "0.5"@,
        Grade::Succeeded => "1.0"@,
    }
}

/// The grade as a number, the worst lowest.
pub open spec fn grade_rank(g: Grade) -> nat {
    match g {
        Grade::Failed => 0,
        Grade::Partial => 1,
        Grade::Succeeded => 2,
    }
}

/// One decision, with what is to be learnt from it.
pub struct TripletView {
    /// How good its outcome was.
    pub grade: Grade,
    /// What it says.
    pub value: JsonView,
}

/// One decision, with what is to be learnt from it.
pub struct Triplet {
    /// How good its outcome was.
    pub grade: Grade,
    /// What it says.
    pub value: Json,
}

impl View for Triplet {
    type V = TripletView;

    open spec fn view(&self) -> TripletView {
        TripletView { grade: self.grade, value: self.value@ }
    }
}

/// What is to be learnt from a decision.
pub open spec fn feedback(decision: JsonView, action: Seq<char>, g: Grade) -> Seq<char> {
    if g == Grade::Failed {
        "Action '"@ + action + "' failed: "@ + decision.text_or("error"@, "action failed"@)
            + ". Consider adding or modifying this action in the spec."@
    } else {
        "Action '"@ + action + "' succeeded."@
    }
}

/// The triplet for a decision.
pub open spec fn triplet(
    trajectory_id: Seq<char>,
    turn: nat,
    entity_type: Seq<char>,
    decision: JsonView,
) -> TripletView {
    let action = decision.text_or("action"@, "unknown"@);
    let outcome = decision.text_or("outcome"@, "unknown"@);
    let g = grade(outcome);
    TripletView {
        grade: g,
        value: empty_object().with(
            "input"@,
            JsonView::Text(decision.text_or("reasoning"@, ""@)),
        ).with("output"@, JsonView::Text(action + " → "@ + outcome)).with(
            "feedback"@,
            JsonView::Text(feedback(decision, action, g)),
        ).with("score"@, JsonView::Decimal(grade_score(g))).with(
            "trajectory_id"@,
            JsonView::Text(trajectory_id),
        ).with("turn_id"@, JsonView::Unsigned(turn as u64)).with(
            "entity_type"@,
            JsonView::Text(entity_type),
        ).with("action"@, JsonView::Text(action)),
    }
}

/// The items of a list in a field; none where it holds no list.
pub open spec fn items_in(v: JsonView, key: Seq<char>) -> Seq<JsonView> {
    match v.field(key) {
        Some(JsonView::List(s)) => s,
        _ => Seq::empty(),
    }
}

/// The triplets for the decisions of a turn.
pub open spec fn turn_triplets(
    trajectory_id: Seq<char>,
    turn: nat,
    entity_type: Seq<char>,
    decisions: Seq<JsonView>,
) -> Seq<TripletView> {
    Seq::new(decisions.len(), |i: int| triplet(trajectory_id, turn, entity_type, decisions[i]))
}

/// The triplets for the turns of a trajectory.
pub open spec fn turns_triplets(
    trajectory_id: Seq<char>,
    entity_type: Seq<char>,
    turns: Seq<JsonView>,
) -> Seq<TripletView>
    decreases turns.len(),
{
    if turns.len() == 0 {
        Seq::empty()
    } else {
        turns_triplets(trajectory_id, entity_type, turns.drop_last()) + turn_triplets(
            trajectory_id,
            (turns.len() - 1) as nat,
            entity_type,
            items_in(turns.last(), "decisions"@),
        )
    }
}

/// The triplets for trajectories.
pub open spec fn all_triplets(entity_type: Seq<char>, s: Seq<JsonView>) -> Seq<TripletView>
    decreases s.len(),
{
    if s.len() == 0 {
        Seq::empty()
    } else {
        all_triplets(entity_type, s.drop_last()) + turns_triplets(
            s.last().text_or("trajectory_id"@, "unknown"@),
            entity_type,
            items_in(s.last(), "turns"@),
        )
    }
}

/// The first triplet comes before the second: its outcome was worse.
pub open spec fn worse() -> spec_fn(TripletView, TripletView) -> bool {
    |a: TripletView, b: TripletView| grade_rank(a.grade) < grade_rank(b.grade)
}

/// The test for triplets of failures.
pub open spec fn failures() -> spec_fn(TripletView) -> bool {
    |t: TripletView| t.grade == Grade::Failed
}

/// The trajectories in a value that may be a list, or a text that reads as
/// `read`: as a list, or as one trajectory.
pub open spec fn trajectories_in(
    v: Option<JsonView>,
    read: Result<JsonView, Seq<char>>,
) -> Seq<JsonView> {
    match v {
        Some(JsonView::List(s)) => s,
        Some(JsonView::Text(_)) => match read {
            Ok(JsonView::List(s)) => s,
            Ok(x) => seq![x],
            Err(_) => Seq::empty(),
        },
        _ => Seq::empty(),
    }
}

/// The value that holds the trajectories.
pub open spec fn trajectories_value(params: JsonView) -> Option<JsonView> {
    match params.field("trajectories"@) {
        Some(v) => Some(v),
        None => params.field("ReplayResultJson"@),
    }
}

/// What the text of a value reads as.
pub open spec fn text_read(v: Option<JsonView>) -> Result<JsonView, Seq<char>> {
    match v {
        Some(JsonView::Text(t)) => json_read(t),
        _ => Err(Seq::empty()),
    }
}

/// The strings among values.
pub open spec fn strings(s: Seq<JsonView>) -> Seq<Seq<char>>
    decreases s.len(),
{
    if s.len() == 0 {
        Seq::empty()
    } else {
        match s.last().text() {
            Some(t) => strings(s.drop_last()).push(t),
            None => strings(s.drop_last()),
        }
    }
}

/// What triplets say.
pub open spec fn triplet_values(s: Seq<TripletView>) -> Seq<JsonView> {
    Seq::new(s.len(), |i: int| s[i].value)
}

/// The dataset for trajectories: the triplets, the worst first, with how many
/// failed.
pub open spec fn dataset_for(fields: JsonView, trajectories: Seq<JsonView>) -> JsonView {
    let entity_type = fields.text_or("TargetEntityType"@, "unknown"@);
    let t = arranged(all_triplets(entity_type, trajectories), worse());
    let failed = keep(t, failures()).len();
    empty_object().with(
        "reflective_dataset"@,
        empty_object().with(
            "skill_name"@,
            JsonView::Text(fields.text_or("SkillName"@, "unknown"@)),
        ).with("entity_type"@, JsonView::Text(entity_type)).with(
            "triplets"@,
            JsonView::List(triplet_values(t)),
        ).with(
            "verification_feedback"@,
            text_list(strings(items_in(fields, "VerificationErrors"@))),
        ).with("failure_count"@, JsonView::Unsigned(failed as u64)).with(
            "success_count"@,
            JsonView::Unsigned((t.len() - failed) as u64),
        ),
    )
}

fn grade_of(outcome: &str) -> (r: Grade)
    ensures
        r == grade(outcome@),
{
    if same(outcome, "success") {
        Grade::Succeeded
    } else if same(outcome, "partial_success") {
        Grade::Partial
    } else {
        Grade::Failed
    }
}

fn make_triplet(
    trajectory_id: &str,
    turn: usize,
    entity_type: &str,
    decision: &Json,
) -> (r: Triplet)
    ensures
        r@ == triplet(trajectory_id@, turn as nat, entity_type@, decision@),
        r@.value.wf(),
{
    let action = decision.text_or("action", "unknown");
    let outcome = decision.text_or("outcome", "unknown");
    let g = grade_of(outcome.as_str());
    let score: &str = match g {
        Grade::Failed => "0.0",
        Grade::Partial => "0.5",
        Grade::Succeeded => "1.0",
    };
    let said = match g {
        Grade::Failed => {
            let error = decision.text_or("error", "action failed");
            cat5(
                "Action '",
                action.as_str(),
                "' failed: ",
                error.as_str(),
                ". Consider adding or modifying this action in the spec.",
            )
        },
        _ => cat3("Action '", action.as_str(), "' succeeded."),
    };
    let output = cat3(action.as_str(), " → ", outcome.as_str());
    Triplet {
        grade: g,
        value: Json::object().set("input", Json::Text(decision.text_or("reasoning", ""))).set(
            "output",
            Json::Text(output),
        ).set("feedback", Json::Text(said)).set("score", Json::Decimal(score.to_string())).set(
            "trajectory_id",
            Json::of_text(trajectory_id),
        ).set("turn_id", Json::Unsigned(turn as u64)).set(
            "entity_type",
            Json::of_text(entity_type),
        ).set("action", Json::Text(action)),
    }
}

/// All triplets are well formed.
pub open spec fn triplets_wf(s: Seq<TripletView>) -> bool {
    forall|i: int| 0 <= i < s.len() ==> (#[trigger] s[i]).value.wf()
}

fn add_turn(
    out: &mut Vec<Triplet>,
    trajectory_id: &str,
    turn: usize,
    entity_type: &str,
    value: &Json,
)
    requires
        triplets_wf(views(old(out)@)),
    ensures
        views(final(out)@) == views(old(out)@) + turn_triplets(
            trajectory_id@,
            turn as nat,
            entity_type@,
            items_in(value@, "decisions"@),
        ),
        triplets_wf(views(final(out)@)),
{
    let ghost was = views(out@);
    let ghost decisions = items_in(value@, "decisions"@);
    let ghost all = turn_triplets(trajectory_id@, turn as nat, entity_type@, decisions);
    if let Some(Json::List(d)) = value.get("decisions") {
        proof {
            Json::lemma_list(*d);
        }
        let mut i: usize = 0;
        assert(was + all.take(0) =~= was);
        while i < d.len()
            invariant
                i <= d@.len(),
                decisions == views(d@),
                all == turn_triplets(trajectory_id@, turn as nat, entity_type@, decisions),
                views(out@) == was + all.take(i as int),
                triplets_wf(views(out@)),
            decreases d@.len() - i,
        {
            let ghost before = views(out@);
            assert(decisions[i as int] == d@[i as int]@);
            let t = make_triplet(trajectory_id, turn, entity_type, &d[i]);
            let ghost tv = t@;
            out.push(t);
            proof {
                lemma_take_step(all, i as int);
                assert(views(out@) =~= before.push(tv));
                assert(views(out@) =~= was + all.take(i + 1));
            }
            i = i + 1;
        }
        assert(all.take(i as int) =~= all);
    } else {
        assert(was + all =~= was);
    }
}

fn add_trajectory(out: &mut Vec<Triplet>, entity_type: &str, value: &Json)
    requires
        triplets_wf(views(old(out)@)),
    ensures
        views(final(out)@) == views(old(out)@) + turns_triplets(
            value@.text_or("trajectory_id"@, "unknown"@),
            entity_type@,
            items_in(value@, "turns"@),
        ),
        triplets_wf(views(final(out)@)),
{
    let ghost was = views(out@);
    let id = value.text_or("trajectory_id", "unknown");
    let ghost turns = items_in(value@, "turns"@);
    if let Some(Json::List(t)) = value.get("turns") {
        proof {
            Json::lemma_list(*t);
        }
        let mut i: usize = 0;
        assert(turns.take(0) =~= Seq::<JsonView>::empty());
        assert(was + turns_triplets(id@, entity_type@, turns.take(0)) =~= was);
        while i < t.len()
            invariant
                i <= t@.len(),
                turns == views(t@),
                views(out@) == was + turns_triplets(id@, entity_type@, turns.take(i as int)),
                triplets_wf(views(out@)),
            decreases t@.len() - i,
        {
            let ghost done = turns_triplets(id@, entity_type@, turns.take(i as int));
            let ghost more = turn_triplets(
                id@,
                i as nat,
                entity_type@,
                items_in(turns[i as int], "decisions"@),
            );
            proof {
                lemma_take_step(turns, i as int);
                assert(turns[i as int] == t@[i as int]@);
                assert((was + done) + more =~= was + (done + more));
            }
            add_turn(out, id.as_str(), i, entity_type, &t[i]);
            i = i + 1;
        }
        assert(turns.take(i as int) =~= turns);
    } else {
        assert(was + turns_triplets(id@, entity_type@, turns) =~= was);
    }
}

fn make_triplets(entity_type: &str, trajectories: &Vec<Json>) -> (r: Vec<Triplet>)
    ensures
        views(r@) == all_triplets(entity_type@, views(trajectories@)),
        triplets_wf(views(r@)),
{
    let ghost all = views(trajectories@);
    let mut r: Vec<Triplet> = Vec::new();
    let mut i: usize = 0;
    assert(all.take(0) =~= Seq::<JsonView>::empty());
    assert(views(r@) =~= Seq::<TripletView>::empty());
    while i < trajectories.len()
        invariant
            i <= trajectories@.len(),
            all == views(trajectories@),
            views(r@) == all_triplets(entity_type@, all.take(i as int)),
            triplets_wf(views(r@)),
        decreases trajectories@.len() - i,
    {
        proof {
            lemma_take_step(all, i as int);
            assert(all[i as int] == trajectories@[i as int]@);
        }
        add_trajectory(&mut r, entity_type, &trajectories[i]);
        i = i + 1;
    }
    assert(all.take(i as int) =~= all);
    r
}

fn rank_grade(g: Grade) -> (r: u8)
    ensures
        r == grade_rank(g),
{
    match g {
        Grade::Failed => 0,
        Grade::Partial => 1,
        Grade::Succeeded => 2,
    }
}

proof fn lemma_worse_weak()
    ensures
        crate::order::weak_order(worse()),
{
}

fn rank_triplets(v: Vec<Triplet>) -> (r: Vec<Triplet>)
    requires
        triplets_wf(views(v@)),
    ensures
        views(r@) == arranged(views(v@), worse()),
        triplets_wf(views(r@)),
{
    let ghost all = v@;
    let ghost order = |a: Triplet, b: Triplet| worse()(a@, b@);
    let before = |a: &Triplet, b: &Triplet| -> (d: bool)
        ensures
            d == order(*a, *b),
        { rank_grade(a.grade) < rank_grade(b.grade) };
    proof {
        crate::keys::lemma_arranged_views(all, order, worse());
        lemma_worse_weak();
        let s = arranged(views(all), worse());
        assert forall|i: int| 0 <= i < s.len() implies (#[trigger] s[i]).value.wf() by {
            crate::order::lemma_arranged_member(views(all), worse(), i);
            let j = choose|j: int| 0 <= j < views(all).len() && views(all)[j] == s[i];
            assert(views(all)[j].value.wf());
        }
    }
    arrange(v, before, Ghost(order))
}

fn read_strings(fields: &Json) -> (r: Vec<String>)
    ensures
        views(r@) == strings(items_in(fields@, "VerificationErrors"@)),
{
    let mut r: Vec<String> = Vec::new();
    assert(views(r@) =~= Seq::<Seq<char>>::empty());
    if let Some(Json::List(v)) = fields.get("VerificationErrors") {
        proof {
            Json::lemma_list(*v);
        }
        let ghost all = views(v@);
        let mut i: usize = 0;
        assert(all.take(0) =~= Seq::<JsonView>::empty());
        while i < v.len()
            invariant
                i <= v@.len(),
                all == views(v@),
                views(r@) == strings(all.take(i as int)),
            decreases v@.len() - i,
        {
            proof {
                lemma_take_step(all, i as int);
                assert(all[i as int] == v@[i as int]@);
            }
            if let Some(t) = v[i].as_text() {
                let ghost was = views(r@);
                r.push(t.clone());
                assert(views(r@) =~= was.push(t@));
            }
            i = i + 1;
        }
        assert(all.take(i as int) =~= all);
    }
    r
}

fn read_trajectories(params: &Json) -> (r: Vec<Json>)
    ensures
        views(r@) == trajectories_in(
            trajectories_value(params@),
            text_read(trajectories_value(params@)),
        ),
{
    let value = match params.get("trajectories") {
        Some(v) => Some(v),
        None => params.get("ReplayResultJson"),
    };
    let mut r: Vec<Json> = Vec::new();
    assert(views(r@) =~= Seq::<JsonView>::empty());
    match value {
        Some(Json::List(s)) => {
            proof {
                Json::lemma_list(*s);
            }
            copy_values(s)
        },
        Some(Json::Text(t)) => match parse(t.as_str()) {
            Ok(Json::List(s)) => {
                proof {
                    Json::lemma_list(s);
                }
                s
            },
            Ok(x) => {
                let ghost xv = x@;
                r.push(x);
                assert(views(r@) =~= seq![xv]);
                r
            },
            Err(_) => r,
        },
        _ => r,
    }
}

/// The dataset for trajectories.
pub fn build_dataset(fields: &Json, trajectories: &Vec<Json>) -> (r: Json)
    ensures
        r@ == dataset_for(fields@, views(trajectories@)),
{
    let entity_type = fields.text_or("TargetEntityType", "unknown");
    let made = make_triplets(entity_type.as_str(), trajectories);
    let t = rank_triplets(made);
    let ghost ts = views(t@);
    let mut values: Vec<Json> = Vec::new();
    let mut failed: u64 = 0;
    let mut i: usize = 0;
    assert(ts.take(0) =~= Seq::<TripletView>::empty());
    while i < t.len()
        invariant
            i <= t@.len(),
            ts == views(t@),
            triplets_wf(ts),
            values@.len() == i,
            forall|j: int|
                0 <= j < i ==> (#[trigger] values@[j])@ == ts[j].value && values@[j]@.wf(),
            failed <= i,
            failed == keep(ts.take(i as int), failures()).len(),
        decreases t@.len() - i,
    {
        proof {
            lemma_take_step(ts, i as int);
            assert(ts[i as int] == t@[i as int]@);
            assert(ts[i as int].value.wf());
        }
        values.push(t[i].value.copy());
        if let Grade::Failed = t[i].grade {
            failed = failed + 1;
        }
        i = i + 1;
    }
    assert(ts.take(i as int) =~= ts);
    assert(views(values@) =~= triplet_values(ts));
    let good: u64 = t.len() as u64 - failed;
    let notes = read_strings(fields);
    let inner = Json::object().set(
        "skill_name",
        Json::Text(fields.text_or("SkillName", "unknown")),
    ).set("entity_type", Json::Text(entity_type)).set("triplets", array(values)).set(
        "verification_feedback",
        Json::of_texts(&notes),
    ).set("failure_count", Json::Unsigned(failed)).set("success_count", Json::Unsigned(good));
    Json::object().set("reflective_dataset", inner)
}

/// The dataset for the trajectories of a trigger.
pub fn run_reflective(ctx: &ModuleContext) -> (r: Json)
    ensures
        r@ == dataset_for(
            run_fields(ctx@),
            trajectories_in(
                trajectories_value(ctx@.trigger_params),
                text_read(trajectories_value(ctx@.trigger_params)),
            ),
        ),
{
    let fields = get_or(&ctx.entity_state, "fields", ctx.entity_state.copy());
    let trajectories = read_trajectories(&ctx.trigger_params);
    build_dataset(&fields, &trajectories)
}

/// The triplets of a dataset come with the worst first, and none is lost or
/// added.
pub proof fn lemma_worst_first(entity_type: Seq<char>, trajectories: Seq<JsonView>)
    ensures
        ({
            let all = all_triplets(entity_type, trajectories);
            let t = arranged(all, worse());
            &&& crate::order::in_order(t, worse())
            &&& t.to_multiset() == all.to_multiset()
        }),
{
    lemma_worse_weak();
    crate::order::lemma_arranged(all_triplets(entity_type, trajectories), worse());
}

} // verus!
