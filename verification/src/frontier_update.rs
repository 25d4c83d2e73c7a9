//! The update of a frontier that is kept as JSON.
use vstd::prelude::*;

use crate::json::empty_object;
use crate::json::text_list;
use crate::json::Json;
use crate::json::JsonView;
use crate::json_text::number_of;
use crate::json_text::read_number;
use crate::llm_convert::array;
use crate::module::all_wf;
use crate::module::lemma_field_wf;
use crate::module::result_view;
use crate::module::ContextView;
use crate::module::ModuleContext;
use crate::order::keep;
use crate::order::lemma_take_step;
use crate::order::views;
use crate::pareto::better;
use crate::pareto::is_better;
use crate::pareto::Scores;
use crate::score::Score;
use crate::table::Table;

verus! {

/// The number in a field, or zero where it is no number.
pub open spec fn number_or_zero(v: JsonView) -> Score {
    match number_of(v) {
        Some(s) => s,
        None => Score { bits: 0 },
    }
}

/// The fields of an object as scores.
pub open spec fn score_map(f: Seq<(Seq<char>, JsonView)>) -> Map<Seq<char>, Score>
    decreases f.len(),
{
    if f.len() == 0 {
        Map::empty()
    } else {
        score_map(f.drop_last()).insert(f.last().0, number_or_zero(f.last().1))
    }
}

/// The scores of a member, where it has any.
pub open spec fn member_scores(m: JsonView) -> Option<Map<Seq<char>, Score>> {
    match m.field("scores"@) {
        Some(JsonView::Object(f)) => Some(score_map(f)),
        _ => None,
    }
}

/// A member of a frontier, with its scores where it has any.
pub struct RatedView {
    /// The member.
    pub member: JsonView,
    /// Its scores.
    pub scores: Option<Map<Seq<char>, Score>>,
}

/// A member is better than a candidate with the scores `c`.
pub open spec fn beats(m: RatedView, c: Map<Seq<char>, Score>) -> bool {
    match m.scores {
        Some(s) => better(s, c),
        None => false,
    }
}

/// A candidate with the scores `c` is better than a member.
pub open spec fn beaten(m: RatedView, c: Map<Seq<char>, Score>) -> bool {
    match m.scores {
        Some(s) => better(c, s),
        None => false,
    }
}

/// The test for members that are better than a candidate.
pub open spec fn beating(c: Map<Seq<char>, Score>) -> spec_fn(RatedView) -> bool {
    |m: RatedView| beats(m, c)
}

/// The test for members that a candidate is better than.
pub open spec fn losing(c: Map<Seq<char>, Score>) -> spec_fn(RatedView) -> bool {
    |m: RatedView| beaten(m, c)
}

/// The test for members that a candidate is not better than.
pub open spec fn standing(c: Map<Seq<char>, Score>) -> spec_fn(RatedView) -> bool {
    |m: RatedView| !beaten(m, c)
}

/// The members themselves.
pub open spec fn members_of(s: Seq<RatedView>) -> Seq<JsonView> {
    Seq::new(s.len(), |i: int| s[i].member)
}

/// The names of members.
pub open spec fn member_ids(s: Seq<RatedView>) -> Seq<Seq<char>> {
    Seq::new(s.len(), |i: int| s[i].member.text_or("id"@, "unknown"@))
}

/// The members of a frontier with the scores that they hold.
pub open spec fn rated(s: Seq<JsonView>) -> Seq<RatedView> {
    Seq::new(s.len(), |i: int| RatedView { member: s[i], scores: member_scores(s[i]) })
}

/// What the update reports: whether the candidate was added, the frontier after
/// it, and who left. A candidate that a member is better than is not added.
pub open spec fn update_report(
    frontier: Seq<RatedView>,
    candidate: JsonView,
    c: Map<Seq<char>, Score>,
) -> JsonView {
    if keep(frontier, beating(c)).len() > 0 {
        empty_object().with("added"@, JsonView::Bool(false)).with(
            "frontier_size"@,
            JsonView::Unsigned(frontier.len() as u64),
        ).with("removed"@, text_list(Seq::empty()))
    } else {
        let now = members_of(keep(frontier, standing(c))).push(candidate);
        empty_object().with("added"@, JsonView::Bool(true)).with(
            "frontier"@,
            JsonView::List(now),
        ).with("frontier_size"@, JsonView::Unsigned(now.len() as u64)).with(
            "removed"@,
            text_list(member_ids(keep(frontier, losing(c)))),
        )
    }
}

/// The frontier of an entity.
pub open spec fn held_frontier(ctx: ContextView) -> Seq<JsonView> {
    match ctx.entity_state.field("pareto_frontier"@) {
        Some(JsonView::List(v)) => v,
        _ => Seq::empty(),
    }
}

/// What the update of an entity's frontier by the candidate of the trigger
/// reports, or why there is none.
pub open spec fn frontier_update(ctx: ContextView) -> Result<JsonView, Seq<char>> {
    match ctx.trigger_params.field("candidate"@) {
        None => Err("trigger_params missing 'candidate'"@),
        Some(c) => match member_scores(c) {
            None => Err("candidate missing 'scores'"@),
            Some(s) => Ok(update_report(rated(held_frontier(ctx)), c, s)),
        },
    }
}

fn read_scores(m: &Json) -> (r: Option<Scores>)
    requires
        m@.wf(),
    ensures
        match r {
            Some(s) => s.wf() && member_scores(m@) == Some(s@),
            None => member_scores(m@) is None,
        },
{
    proof {
        lemma_field_wf(m@, "scores"@);
    }
    match m.get("scores") {
        Some(Json::Object(f)) => {
            let ghost o = m@.field("scores"@)->0;
            let ghost all = o->Object_0;
            let mut t: Scores = Table::new();
            let mut i: usize = 0;
            assert(all.take(0) =~= Seq::empty());
            while i < f.len()
                invariant
                    i <= f@.len(),
                    o == Json::Object(*f)@,
                    o.wf(),
                    all == o->Object_0,
                    all.len() == f@.len(),
                    t.wf(),
                    t@ == score_map(all.take(i as int)),
                decreases f@.len() - i,
            {
                proof {
                    lemma_take_step(all, i as int);
                    assert(all[i as int] == (f@[i as int].0@, f@[i as int].1@));
                    assert(all[i as int].1.wf());
                }
                let s = match read_number(&f[i].1) {
                    Some(s) => s,
                    None => Score { bits: 0 },
                };
                t.insert(f[i].0.clone(), s);
                i = i + 1;
            }
            assert(all.take(i as int) =~= all);
            Some(t)
        },
        _ => None,
    }
}

/// A member of a frontier, with its scores where it has any.
pub struct Rated<'a> {
    /// The member.
    pub member: &'a Json,
    /// Its scores.
    pub scores: Option<Scores>,
}

impl<'a> View for Rated<'a> {
    type V = RatedView;

    open spec fn view(&self) -> RatedView {
        RatedView {
            member: self.member@,
            scores: match self.scores {
                Some(s) => Some(s@),
                None => None,
            },
        }
    }
}

impl<'a> Rated<'a> {
    /// The member and its scores are well formed.
    pub open spec fn wf(&self) -> bool {
        self.member@.wf() && (self.scores is Some ==> self.scores->0.wf())
    }
}

/// What the update of a frontier by a candidate reports.
pub fn update_frontier(frontier: &Vec<Rated<'_>>, candidate: &Json, scores: &Scores) -> (r: Json)
    requires
        forall|i: int| 0 <= i < frontier@.len() ==> (#[trigger] frontier@[i]).wf(),
        candidate@.wf(),
        scores.wf(),
    ensures
        r@ == update_report(views(frontier@), candidate@, scores@),
        r@.wf(),
{
    let ghost all = views(frontier@);
    let ghost c = scores@;
    let mut stay: Vec<Json> = Vec::new();
    let mut left: Vec<String> = Vec::new();
    let mut i: usize = 0;
    assert(all.take(0) =~= Seq::<RatedView>::empty());
    assert(views(stay@) =~= members_of(Seq::<RatedView>::empty()));
    assert(views(left@) =~= member_ids(Seq::<RatedView>::empty()));
    while i < frontier.len()
        invariant
            i <= frontier@.len(),
            all == views(frontier@),
            forall|k: int| 0 <= k < frontier@.len() ==> (#[trigger] frontier@[k]).wf(),
            scores.wf(),
            c == scores@,
            views(stay@) == members_of(keep(all.take(i as int), standing(c))),
            all_wf(views(stay@)),
            views(left@) == member_ids(keep(all.take(i as int), losing(c))),
            keep(all.take(i as int), beating(c)).len() == 0,
        decreases frontier@.len() - i,
    {
        proof {
            lemma_take_step(all, i as int);
            assert(all[i as int] == frontier@[i as int]@);
            assert(frontier@[i as int].wf());
        }
        let m = &frontier[i];
        let mut lost = false;
        if let Some(s) = &m.scores {
            if is_better(s, scores) {
                proof {
                    crate::order::lemma_keep(all, beating(c));
                    assert(beating(c)(all[i as int]));
                    assert(keep(all, beating(c)).contains(all[i as int]));
                }
                let none: Vec<String> = Vec::new();
                assert(views(none@) =~= Seq::empty());
                return Json::object().set("added", Json::Bool(false)).set(
                    "frontier_size",
                    Json::Unsigned(frontier.len() as u64),
                ).set("removed", Json::of_texts(&none));
            }
            lost = is_better(scores, s);
        }
        if lost {
            let ghost was = views(left@);
            let ghost kept = keep(all.take(i as int), losing(c));
            left.push(m.member.text_or("id", "unknown"));
            proof {
                assert(views(left@) =~= was.push(all[i as int].member.text_or("id"@, "unknown"@)));
                assert(member_ids(kept.push(all[i as int])) =~= member_ids(kept).push(
                    all[i as int].member.text_or("id"@, "unknown"@),
                ));
            }
        } else {
            let ghost was = views(stay@);
            let ghost kept = keep(all.take(i as int), standing(c));
            stay.push(m.member.copy());
            proof {
                assert(views(stay@) =~= was.push(all[i as int].member));
                assert(members_of(kept.push(all[i as int])) =~= members_of(kept).push(
                    all[i as int].member,
                ));
            }
        }
        i = i + 1;
    }
    assert(all.take(i as int) =~= all);
    let ghost was = views(stay@);
    stay.push(candidate.copy());
    assert(views(stay@) =~= was.push(candidate@));
    let n: usize = stay.len();
    Json::object().set("added", Json::Bool(true)).set("frontier", array(stay)).set(
        "frontier_size",
        Json::Unsigned(n as u64),
    ).set("removed", Json::of_texts(&left))
}

fn rate<'a>(v: &'a Vec<Json>) -> (r: Vec<Rated<'a>>)
    requires
        all_wf(views(v@)),
    ensures
        views(r@) == rated(views(v@)),
        forall|i: int| 0 <= i < r@.len() ==> (#[trigger] r@[i]).wf(),
{
    let mut r: Vec<Rated<'a>> = Vec::new();
    let mut i: usize = 0;
    while i < v.len()
        invariant
            i <= v@.len(),
            r@.len() == i,
            all_wf(views(v@)),
            forall|k: int| 0 <= k < i ==> (#[trigger] r@[k]).wf() && r@[k]@ == rated(views(v@))[k],
        decreases v@.len() - i,
    {
        assert(views(v@)[i as int] == v@[i as int]@);
        r.push(Rated { member: &v[i], scores: read_scores(&v[i]) });
        i = i + 1;
    }
    assert(views(r@) =~= rated(views(v@)));
    r
}

/// What the update of an entity's frontier by the candidate of the trigger
/// reports.
pub fn run_frontier_update(ctx: &ModuleContext) -> (r: Result<Json, String>)
    requires
        ctx.entity_state@.wf(),
        ctx.trigger_params@.wf(),
    ensures
        result_view(r) == frontier_update(ctx@),
{
    proof {
        lemma_field_wf(ctx.entity_state@, "pareto_frontier"@);
        lemma_field_wf(ctx.trigger_params@, "candidate"@);
    }
    let candidate = match ctx.trigger_params.get("candidate") {
        Some(c) => c,
        None => {
            return Err("trigger_params missing 'candidate'".to_string());
        },
    };
    let scores = match read_scores(candidate) {
        Some(s) => s,
        None => {
            return Err("candidate missing 'scores'".to_string());
        },
    };
    match ctx.entity_state.get("pareto_frontier") {
        Some(Json::List(v)) => {
            proof {
                Json::lemma_list(*v);
                lemma_field_wf(Json::List(*v)@, ""@);
            }
            Ok(update_frontier(&rate(v), candidate, &scores))
        },
        _ => {
            let none: Vec<Rated<'_>> = Vec::new();
            assert(views(none@) =~= rated(Seq::empty()));
            Ok(update_frontier(&none, candidate, &scores))
        },
    }
}

/// A frontier never loses a member that the candidate is not better than, and
/// never keeps one that it is better than.
pub proof fn lemma_update_keeps(frontier: Seq<RatedView>, c: Map<Seq<char>, Score>, i: int)
    requires
        0 <= i < frontier.len(),
    ensures
        keep(frontier, standing(c)).contains(frontier[i]) <==> !beaten(frontier[i], c),
{
    crate::order::lemma_keep(frontier, standing(c));
    if keep(frontier, standing(c)).contains(frontier[i]) {
        let k = keep(frontier, standing(c));
        let j = choose|j: int| 0 <= j < k.len() && k[j] == frontier[i];
        assert(standing(c)(k[j]));
    }
    if !beaten(frontier[i], c) {
        assert(standing(c)(frontier[i]));
    }
}

} // verus!
