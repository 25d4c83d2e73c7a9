//! The replay of trajectory actions against a spec, as steps: each step has one
//! action evaluated.
use vstd::prelude::*;

use crate::json::empty_object;
use crate::json::Json;
use crate::json::JsonView;
use crate::json_text::json_read_list;
use crate::json_text::parse_list;
use crate::json_text::render;
use crate::json_text::rendered;
use crate::llm_convert::array;
use crate::llm_convert::field_or;
use crate::llm_convert::get_or;
use crate::module::all_wf;
use crate::module::copy_values;
use crate::module::lemma_field_wf;
use crate::module::result_view;
use crate::module::ContextView;
use crate::module::ModuleContext;
use crate::order::views;
use crate::proposer::read_run_text;
use crate::proposer::run_fields;
use crate::proposer::run_text;
use crate::text::contains;
use crate::text::has;

verus! {

/// What a replay goes by.
pub struct ReplayPlanView {
    /// The spec.
    pub source: Seq<char>,
    /// The actions.
    pub actions: Seq<JsonView>,
    /// The state to start from.
    pub initial_state: Seq<char>,
}

/// What a replay goes by.
pub struct ReplayPlan {
    /// The spec.
    pub source: String,
    /// The actions.
    pub actions: Vec<Json>,
    /// The state to start from.
    pub initial_state: String,
}

impl View for ReplayPlan {
    type V = ReplayPlanView;

    open spec fn view(&self) -> ReplayPlanView {
        ReplayPlanView {
            source: self.source@,
            actions: views(self.actions@),
            initial_state: self.initial_state@,
        }
    }
}

/// The value that holds the actions.
pub open spec fn actions_value(ctx: ContextView) -> Option<JsonView> {
    match ctx.trigger_params.field("TrajectoryActions"@) {
        Some(v) => Some(v),
        None => run_fields(ctx).field("TrajectoryActions"@),
    }
}

/// The actions in a value: a list, or a text that reads as `read`; what reads as
/// no list holds none.
pub open spec fn actions_in(
    v: Option<JsonView>,
    read: Result<Seq<JsonView>, Seq<char>>,
) -> Option<Seq<JsonView>> {
    match v {
        Some(JsonView::List(s)) => Some(s),
        Some(JsonView::Text(_)) => match read {
            Ok(s) => Some(s),
            Err(_) => Some(Seq::empty()),
        },
        _ => None,
    }
}

/// What the text of a value reads as.
pub open spec fn list_read(v: Option<JsonView>) -> Result<Seq<JsonView>, Seq<char>> {
    match v {
        Some(JsonView::Text(t)) => json_read_list(t),
        _ => Err(Seq::empty()),
    }
}

/// The plan for a replay, or what is missing for one.
pub open spec fn replay_plan(ctx: ContextView) -> Result<ReplayPlanView, Seq<char>> {
    match run_text(ctx, "SpecSource"@) {
        None => Err("entity_state.fields missing 'SpecSource'"@),
        Some(source) => match actions_in(actions_value(ctx), list_read(actions_value(ctx))) {
            None => Err("trigger_params missing 'TrajectoryActions'"@),
            Some(actions) => Ok(
                ReplayPlanView {
                    source,
                    actions,
                    initial_state: ctx.trigger_params.text_or("initial_state"@, "Created"@),
                },
            ),
        },
    }
}

/// How a replay went so far.
pub struct ReplayTallyView {
    /// The state it is in.
    pub state: Seq<char>,
    /// The actions that were attempted.
    pub attempted: nat,
    /// Those that succeeded.
    pub succeeded: nat,
    /// Those that a guard rejected.
    pub guard_rejections: nat,
    /// Those that the spec does not know.
    pub unknown_actions: nat,
    /// What went wrong.
    pub errors: Seq<JsonView>,
}

/// How a replay went so far.
pub struct ReplayTally {
    /// The state it is in.
    pub state: String,
    /// The actions that were attempted.
    pub attempted: usize,
    /// Those that succeeded.
    pub succeeded: usize,
    /// Those that a guard rejected.
    pub guard_rejections: usize,
    /// Those that the spec does not know.
    pub unknown_actions: usize,
    /// What went wrong.
    pub errors: Vec<Json>,
}

impl View for ReplayTally {
    type V = ReplayTallyView;

    open spec fn view(&self) -> ReplayTallyView {
        ReplayTallyView {
            state: self.state@,
            attempted: self.attempted as nat,
            succeeded: self.succeeded as nat,
            guard_rejections: self.guard_rejections as nat,
            unknown_actions: self.unknown_actions as nat,
            errors: views(self.errors@),
        }
    }
}

impl ReplayTallyView {
    /// Every action that was attempted succeeded or went wrong, and the kinds of
    /// what went wrong are counted among them.
    pub open spec fn wf(self) -> bool {
        &&& self.attempted == self.succeeded + self.errors.len()
        &&& self.guard_rejections + self.unknown_actions <= self.errors.len()
        &&& all_wf(self.errors)
    }
}

/// A replay at its start.
pub open spec fn fresh(state: Seq<char>) -> ReplayTallyView {
    ReplayTallyView {
        state,
        attempted: 0,
        succeeded: 0,
        guard_rejections: 0,
        unknown_actions: 0,
        errors: Seq::empty(),
    }
}

/// The kind of an error.
pub open spec fn error_kind(message: Seq<char>) -> Seq<char> {
    if has(message, "not defined"@) || has(message, "unknown action"@) {
        "unknown_action"@
    } else if has(message, "guard"@) {
        "guard_rejection"@
    } else {
        "invalid_transition"@
    }
}

/// An error as it is reported.
pub open spec fn error_entry(
    action: Seq<char>,
    state: Seq<char>,
    kind: Seq<char>,
    message: Seq<char>,
) -> JsonView {
    empty_object().with("action"@, JsonView::Text(action)).with(
        "from_state"@,
        JsonView::Text(state),
    ).with("error_kind"@, JsonView::Text(kind)).with("message"@, JsonView::Text(message))
}

/// The evaluation says that the action succeeded.
pub open spec fn says_success(v: JsonView) -> bool {
    v.field("success"@) == Some(JsonView::Bool(true))
}

/// The replay after an action was evaluated. On success it goes to the new state,
/// where one is named.
pub open spec fn counted(t: ReplayTallyView, action: Seq<char>, v: JsonView) -> ReplayTallyView {
    if says_success(v) {
        ReplayTallyView {
            state: match v.text_field("new_state"@) {
                Some(s) => s,
                None => t.state,
            },
            attempted: t.attempted + 1,
            succeeded: t.succeeded + 1,
            ..t
        }
    } else {
        let message = v.text_or("error"@, "unknown error"@);
        let kind = error_kind(message);
        ReplayTallyView {
            attempted: t.attempted + 1,
            unknown_actions: if kind == "unknown_action"@ {
                t.unknown_actions + 1
            } else {
                t.unknown_actions
            },
            guard_rejections: if kind == "guard_rejection"@ {
                t.guard_rejections + 1
            } else {
                t.guard_rejections
            },
            errors: t.errors.push(error_entry(action, t.state, kind, message)),
            ..t
        }
    }
}

/// The name of an action.
pub open spec fn action_name(v: JsonView) -> Seq<char> {
    v.text_or("action"@, "unknown"@)
}

/// What is to be evaluated: the spec, the state, the action, and its parameters
/// in JSON.
pub struct EvaluationView {
    /// The spec.
    pub source: Seq<char>,
    /// The state.
    pub state: Seq<char>,
    /// The action.
    pub action: Seq<char>,
    /// Its parameters.
    pub params: Seq<char>,
}

/// What is to be evaluated: the spec, the state, the action, and its parameters
/// in JSON.
pub struct Evaluation {
    /// The spec.
    pub source: String,
    /// The state.
    pub state: String,
    /// The action.
    pub action: String,
    /// Its parameters.
    pub params: String,
}

impl View for Evaluation {
    type V = EvaluationView;

    open spec fn view(&self) -> EvaluationView {
        EvaluationView {
            source: self.source@,
            state: self.state@,
            action: self.action@,
            params: self.params@,
        }
    }
}

/// What a replay does next.
pub enum ReplayStepView {
    /// It has an action evaluated; how it went before.
    Evaluate(EvaluationView, ReplayPlanView, ReplayTallyView),
    /// It is at its end; how it went.
    Done(ReplayTallyView),
    /// It ends with an error.
    Failed(Seq<char>),
}

/// What a replay does next.
pub enum ReplayStep {
    /// It has an action evaluated; how it went before.
    Evaluate(Evaluation, ReplayPlan, ReplayTally),
    /// It is at its end; how it went.
    Done(ReplayTally),
    /// It ends with an error.
    Failed(String),
}

impl View for ReplayStep {
    type V = ReplayStepView;

    open spec fn view(&self) -> ReplayStepView {
        match *self {
            ReplayStep::Evaluate(e, p, t) => ReplayStepView::Evaluate(e@, p@, t@),
            ReplayStep::Done(t) => ReplayStepView::Done(t@),
            ReplayStep::Failed(m) => ReplayStepView::Failed(m@),
        }
    }
}

/// The step when so many actions were attempted: the next is evaluated, or the
/// replay is at its end.
pub open spec fn step_at(p: ReplayPlanView, t: ReplayTallyView) -> ReplayStepView {
    if t.attempted < p.actions.len() {
        let a = p.actions[t.attempted as int];
        ReplayStepView::Evaluate(
            EvaluationView {
                source: p.source,
                state: t.state,
                action: action_name(a),
                params: rendered(field_or(a, "params"@, empty_object())),
            },
            p,
            t,
        )
    } else {
        ReplayStepView::Done(t)
    }
}

/// The first step of a replay.
pub open spec fn first_replay_step(ctx: ContextView) -> ReplayStepView {
    match replay_plan(ctx) {
        Err(m) => ReplayStepView::Failed(m),
        Ok(p) => step_at(p, fresh(p.initial_state)),
    }
}

/// The step after an evaluation.
pub open spec fn next_replay_step(
    p: ReplayPlanView,
    t: ReplayTallyView,
    r: Result<JsonView, Seq<char>>,
) -> ReplayStepView {
    match r {
        Err(m) => ReplayStepView::Failed(m),
        Ok(v) => step_at(p, counted(t, action_name(p.actions[t.attempted as int]), v)),
    }
}

fn read_actions(ctx: &ModuleContext, fields: &Json) -> (r: Option<Vec<Json>>)
    requires
        fields@ == run_fields(ctx@),
        fields@.wf(),
        ctx.trigger_params@.wf(),
    ensures
        match r {
            Some(v) => actions_in(actions_value(ctx@), list_read(actions_value(ctx@))) == Some(
                views(v@),
            ) && all_wf(views(v@)),
            None => actions_in(actions_value(ctx@), list_read(actions_value(ctx@))) is None,
        },
{
    proof {
        lemma_field_wf(ctx.trigger_params@, "TrajectoryActions"@);
        lemma_field_wf(fields@, "TrajectoryActions"@);
    }
    let value = match ctx.trigger_params.get("TrajectoryActions") {
        Some(v) => Some(v),
        None => fields.get("TrajectoryActions"),
    };
    match value {
        Some(Json::List(s)) => {
            proof {
                Json::lemma_list(*s);
                lemma_field_wf(Json::List(*s)@, ""@);
            }
            Some(copy_values(s))
        },
        Some(Json::Text(t)) => match parse_list(t.as_str()) {
            Ok(s) => Some(s),
            Err(_) => {
                let none: Vec<Json> = Vec::new();
                assert(views(none@) =~= Seq::empty());
                Some(none)
            },
        },
        _ => None,
    }
}

/// The plan for a replay, or what is missing for one.
pub fn plan_replay(ctx: &ModuleContext) -> (r: Result<ReplayPlan, String>)
    requires
        ctx.entity_state@.wf(),
        ctx.trigger_params@.wf(),
    ensures
        result_view(r) == replay_plan(ctx@),
        r is Ok ==> all_wf(r->Ok_0@.actions),
{
    let fields = get_or(&ctx.entity_state, "fields", ctx.entity_state.copy());
    let source = match read_run_text(ctx, &fields, "SpecSource") {
        Some(s) => s,
        None => {
            return Err("entity_state.fields missing 'SpecSource'".to_string());
        },
    };
    match read_actions(ctx, &fields) {
        Some(actions) => Ok(
            ReplayPlan {
                source,
                actions,
                initial_state: ctx.trigger_params.text_or("initial_state", "Created"),
            },
        ),
        None => Err("trigger_params missing 'TrajectoryActions'".to_string()),
    }
}

fn make_step(p: ReplayPlan, t: ReplayTally) -> (r: ReplayStep)
    requires
        all_wf(p@.actions),
    ensures
        r@ == step_at(p@, t@),
{
    if t.attempted < p.actions.len() {
        let a = &p.actions[t.attempted];
        proof {
            assert(p@.actions[t.attempted as int] == a@);
            assert(p@.actions[t.attempted as int].wf());
        }
        let params = get_or(a, "params", Json::object());
        let e = Evaluation {
            source: p.source.clone(),
            state: t.state.clone(),
            action: a.text_or("action", "unknown"),
            params: render(&params),
        };
        ReplayStep::Evaluate(e, p, t)
    } else {
        ReplayStep::Done(t)
    }
}

/// The first step of a replay.
pub fn start_replay(ctx: &ModuleContext) -> (r: ReplayStep)
    requires
        ctx.entity_state@.wf(),
        ctx.trigger_params@.wf(),
    ensures
        r@ == first_replay_step(ctx@),
        r@ matches ReplayStepView::Evaluate(_, p, t) ==> all_wf(p.actions) && t.wf()
            && t.attempted < p.actions.len(),
        r@ matches ReplayStepView::Done(t) ==> t.wf(),
{
    match plan_replay(ctx) {
        Err(m) => ReplayStep::Failed(m),
        Ok(p) => {
            let errors: Vec<Json> = Vec::new();
            assert(views(errors@) =~= Seq::empty());
            let t = ReplayTally {
                state: p.initial_state.clone(),
                attempted: 0,
                succeeded: 0,
                guard_rejections: 0,
                unknown_actions: 0,
                errors,
            };
            make_step(p, t)
        },
    }
}

/// The replay after an action was evaluated.
pub fn count_evaluation(t: ReplayTally, action: &str, v: &Json) -> (r: ReplayTally)
    requires
        t@.wf(),
        t.attempted < usize::MAX,
    ensures
        r@ == counted(t@, action@, v@),
        r@.wf(),
{
    let mut t = t;
    let success = match v.get("success") {
        Some(Json::Bool(b)) => *b,
        _ => false,
    };
    t.attempted = t.attempted + 1;
    if success {
        t.succeeded = t.succeeded + 1;
        if let Some(s) = v.text_field("new_state") {
            t.state = s;
        }
        return t;
    }
    proof {
        reveal_strlit("unknown_action");
        reveal_strlit("guard_rejection");
        reveal_strlit("invalid_transition");
        assert("unknown_action"@.len() == 14);
        assert("guard_rejection"@.len() == 15);
        assert("invalid_transition"@.len() == 18);
    }
    let message = v.text_or("error", "unknown error");
    let kind: &str = if contains(message.as_str(), "not defined") || contains(
        message.as_str(),
        "unknown action",
    ) {
        t.unknown_actions = t.unknown_actions + 1;
        "unknown_action"
    } else if contains(message.as_str(), "guard") {
        t.guard_rejections = t.guard_rejections + 1;
        "guard_rejection"
    } else {
        "invalid_transition"
    };
    let ghost was = views(t.errors@);
    let entry = Json::object().set("action", Json::of_text(action)).set(
        "from_state",
        Json::of_text(t.state.as_str()),
    ).set("error_kind", Json::of_text(kind)).set("message", Json::Text(message));
    let ghost ev = entry@;
    t.errors.push(entry);
    assert(views(t.errors@) =~= was.push(ev));
    t
}

/// The step after an evaluation.
pub fn resume_replay(p: ReplayPlan, t: ReplayTally, result: Result<Json, String>) -> (r: ReplayStep)
    requires
        all_wf(p@.actions),
        t@.wf(),
        t.attempted < p.actions@.len(),
    ensures
        r@ == next_replay_step(p@, t@, result_view(result)),
        r@ matches ReplayStepView::Evaluate(_, q, u) ==> all_wf(q.actions) && u.wf() && u.attempted
            < q.actions.len(),
        r@ matches ReplayStepView::Done(u) ==> u.wf(),
{
    match result {
        Err(m) => ReplayStep::Failed(m),
        Ok(v) => {
            assert(t.attempted < p.actions.len());
            assert(p@.actions[t.attempted as int] == p.actions@[t.attempted as int]@);
            let action = p.actions[t.attempted].text_or("action", "unknown");
            let t = count_evaluation(t, action.as_str(), &v);
            make_step(p, t)
        },
    }
}

/// What a replay reports. `success_rate` is the share of successes.
pub open spec fn replay_report(t: ReplayTallyView, success_rate: JsonView) -> JsonView {
    empty_object().with(
        "replay_result"@,
        empty_object().with("actions_attempted"@, JsonView::Unsigned(t.attempted as u64)).with(
            "succeeded"@,
            JsonView::Unsigned(t.succeeded as u64),
        ).with("guard_rejections"@, JsonView::Unsigned(t.guard_rejections as u64)).with(
            "unknown_actions"@,
            JsonView::Unsigned(t.unknown_actions as u64),
        ).with("success_rate"@, success_rate).with("errors"@, JsonView::List(t.errors)),
    )
}

/// What a replay reports.
pub fn report_replay(t: ReplayTally, success_rate: Json) -> (r: Json)
    requires
        t@.wf(),
        success_rate@.wf(),
    ensures
        r@ == replay_report(t@, success_rate@),
{
    let inner = Json::object().set(
        "actions_attempted",
        Json::Unsigned(t.attempted as u64),
    ).set("succeeded", Json::Unsigned(t.succeeded as u64)).set(
        "guard_rejections",
        Json::Unsigned(t.guard_rejections as u64),
    ).set("unknown_actions", Json::Unsigned(t.unknown_actions as u64)).set(
        "success_rate",
        success_rate,
    ).set("errors", array(t.errors));
    Json::object().set("replay_result", inner)
}

/// A replay that came to its end attempted all actions, once each.
pub proof fn lemma_replay_complete(
    p: ReplayPlanView,
    t: ReplayTallyView,
    r: Result<JsonView, Seq<char>>,
)
    requires
        t.attempted < p.actions.len(),
    ensures
        match next_replay_step(p, t, r) {
            ReplayStepView::Evaluate(_, q, u) => q == p && u.attempted == t.attempted + 1,
            ReplayStepView::Done(u) => u.attempted == p.actions.len(),
            ReplayStepView::Failed(_) => r is Err,
        },
{
}

} // verus!
