//! What a replay counts, and what it hands to each evaluation.
use vstd::prelude::*;

use crate::json::lemma_with_keeps;
use crate::json::lemma_with_reads;
use crate::json::JsonView;
use crate::module::ContextView;
use crate::replay::counted;
use crate::replay::first_replay_step;
use crate::replay::next_replay_step;
use crate::replay::replay_report;
use crate::replay::step_at;
use crate::replay::ReplayPlanView;
use crate::replay::ReplayStepView;
use crate::replay::ReplayTallyView;
use crate::text::has;

verus! {

/// The evaluation failed, and this is what it says.
pub open spec fn failed_with(v: JsonView, message: Seq<char>) -> bool {
    &&& v.field("success"@) != Some(JsonView::Bool(true))
    &&& message == if v.field("error"@) is Some && v.field("error"@)->0 is Text {
        v.field("error"@)->0->Text_0
    } else {
        "unknown error"@
    }
}

/// The last error of a tally says what kind it is of, by which action, in which
/// state, and what was said.
pub open spec fn last_error_is(
    t: ReplayTallyView,
    kind: Seq<char>,
    action: Seq<char>,
    state: Seq<char>,
    message: Seq<char>,
) -> bool {
    &&& t.errors.len() > 0
    &&& t.errors.last().field("error_kind"@) == Some(JsonView::Text(kind))
    &&& t.errors.last().field("action"@) == Some(JsonView::Text(action))
    &&& t.errors.last().field("from_state"@) == Some(JsonView::Text(state))
    &&& t.errors.last().field("message"@) == Some(JsonView::Text(message))
}

proof fn lemma_error_keys()
    ensures
        "action"@ != "from_state"@,
        "action"@ != "error_kind"@,
        "action"@ != "message"@,
        "from_state"@ != "error_kind"@,
        "from_state"@ != "message"@,
        "error_kind"@ != "message"@,
{
    reveal_strlit("action");
    reveal_strlit("from_state");
    reveal_strlit("error_kind");
    reveal_strlit("message");
    assert("action"@.len() == 6);
    assert("from_state"@.len() == 10);
    assert("error_kind"@.len() == 10);
    assert("message"@.len() == 7);
    assert("from_state"@[0] == 'f');
    assert("error_kind"@[0] == 'e');
}

proof fn lemma_kinds_differ()
    ensures
        "unknown_action"@ != "guard_rejection"@,
        "unknown_action"@ != "invalid_transition"@,
        "guard_rejection"@ != "invalid_transition"@,
{
    reveal_strlit("unknown_action");
    reveal_strlit("guard_rejection");
    reveal_strlit("invalid_transition");
    assert("unknown_action"@.len() == 14);
    assert("guard_rejection"@.len() == 15);
    assert("invalid_transition"@.len() == 18);
}

proof fn lemma_report_keys()
    ensures
        "actions_attempted"@ != "succeeded"@,
        "actions_attempted"@ != "guard_rejections"@,
        "actions_attempted"@ != "unknown_actions"@,
        "actions_attempted"@ != "success_rate"@,
        "actions_attempted"@ != "errors"@,
        "succeeded"@ != "guard_rejections"@,
        "succeeded"@ != "unknown_actions"@,
        "succeeded"@ != "success_rate"@,
        "succeeded"@ != "errors"@,
        "guard_rejections"@ != "unknown_actions"@,
        "guard_rejections"@ != "success_rate"@,
        "guard_rejections"@ != "errors"@,
        "unknown_actions"@ != "success_rate"@,
        "unknown_actions"@ != "errors"@,
        "success_rate"@ != "errors"@,
{
    reveal_strlit("actions_attempted");
    reveal_strlit("succeeded");
    reveal_strlit("guard_rejections");
    reveal_strlit("unknown_actions");
    reveal_strlit("success_rate");
    reveal_strlit("errors");
    assert("actions_attempted"@.len() == 17);
    assert("succeeded"@.len() == 9);
    assert("guard_rejections"@.len() == 16);
    assert("unknown_actions"@.len() == 15);
    assert("success_rate"@.len() == 12);
    assert("errors"@.len() == 6);
}

/// An action that is evaluated is one attempt more, whatever comes of it. One that
/// succeeds is one success more, moves on to the state that the evaluation names,
/// if it names one, and leaves the rest as it was.
pub proof fn lemma_success_is_counted(t: ReplayTallyView, action: Seq<char>, v: JsonView)
    ensures
        ({
            let now = counted(t, action, v);
            &&& now.attempted == t.attempted + 1
            &&& v.field("success"@) == Some(JsonView::Bool(true)) ==> {
                &&& now.succeeded == t.succeeded + 1
                &&& now.guard_rejections == t.guard_rejections
                &&& now.unknown_actions == t.unknown_actions
                &&& now.errors == t.errors
                &&& (v.field("new_state"@) matches Some(JsonView::Text(s)) ==> now.state == s)
                &&& !(v.field("new_state"@) is Some && v.field("new_state"@)->0 is Text)
                    ==> now.state == t.state
            }
        }),
{
}

/// An action that fails leaves the state and the successes as they were and adds
/// one error, the last. Where its message speaks of something not defined or of an
/// unknown action, it is one unknown action more; else, where it speaks of a
/// guard, one rejection more; else neither.
pub proof fn lemma_failure_is_counted(
    t: ReplayTallyView,
    action: Seq<char>,
    v: JsonView,
    message: Seq<char>,
)
    requires
        failed_with(v, message),
    ensures
        ({
            let now = counted(t, action, v);
            let unknown = has(message, "not defined"@) || has(message, "unknown action"@);
            let guarded = !unknown && has(message, "guard"@);
            &&& now.state == t.state
            &&& now.succeeded == t.succeeded
            &&& now.errors.len() == t.errors.len() + 1
            &&& now.errors.drop_last() == t.errors
            &&& unknown ==> now.unknown_actions == t.unknown_actions + 1 && now.guard_rejections
                == t.guard_rejections && last_error_is(
                now,
                "unknown_action"@,
                action,
                t.state,
                message,
            )
            &&& guarded ==> now.guard_rejections == t.guard_rejections + 1 && now.unknown_actions
                == t.unknown_actions && last_error_is(
                now,
                "guard_rejection"@,
                action,
                t.state,
                message,
            )
            &&& !unknown && !guarded ==> now.guard_rejections == t.guard_rejections
                && now.unknown_actions == t.unknown_actions && last_error_is(
                now,
                "invalid_transition"@,
                action,
                t.state,
                message,
            )
        }),
{
    broadcast use {lemma_with_reads, lemma_with_keeps};

    lemma_error_keys();
    lemma_kinds_differ();
    assert(counted(t, action, v).errors.drop_last() =~= t.errors);
}

/// The action at a position of a plan, as it is recorded.
pub open spec fn recorded_action(p: ReplayPlanView, i: nat) -> Seq<char> {
    let a = p.actions[i as int].field("action"@);
    if a is Some && a->0 is Text {
        a->0->Text_0
    } else {
        "unknown"@
    }
}

/// Every action of a plan is evaluated in its turn, in the state that those before
/// it led to; and a replay is done when all were, with the tally that they led to.
pub proof fn lemma_evaluated_in_turn(
    p: ReplayPlanView,
    t: ReplayTallyView,
    r: Result<JsonView, Seq<char>>,
)
    requires
        t.attempted < p.actions.len(),
    ensures
        ({
            let e = step_at(p, t)->Evaluate_0;
            &&& step_at(p, t) is Evaluate
            &&& e.source == p.source
            &&& e.state == t.state
            &&& e.action == recorded_action(p, t.attempted)
        }),
        r is Err ==> next_replay_step(p, t, r) == ReplayStepView::Failed(r->Err_0),
        r is Ok ==> {
            let now = counted(t, recorded_action(p, t.attempted), r->Ok_0);
            if now.attempted < p.actions.len() {
                next_replay_step(p, t, r) is Evaluate && next_replay_step(p, t, r)->Evaluate_2
                    == now && next_replay_step(p, t, r)->Evaluate_1 == p
            } else {
                next_replay_step(p, t, r) == ReplayStepView::Done(now)
            }
        },
{
}

/// A replay starts with nothing counted, in the state that the trigger names, or
/// else in `Created`; it needs a spec, which the fields of the run give before the
/// trigger does.
pub proof fn lemma_replay_starts(ctx: ContextView)
    ensures
        match first_replay_step(ctx) {
            ReplayStepView::Failed(m) => m == "entity_state.fields missing 'SpecSource'"@ || m
                == "trigger_params missing 'TrajectoryActions'"@,
            ReplayStepView::Done(t) => t.attempted == 0 && t.succeeded == 0 && t.unknown_actions
                == 0 && t.guard_rejections == 0 && t.errors.len() == 0,
            ReplayStepView::Evaluate(e, p, t) => {
                &&& t.attempted == 0 && t.succeeded == 0 && t.unknown_actions == 0
                    && t.guard_rejections == 0 && t.errors.len() == 0
                &&& ctx.trigger_params.field("initial_state"@) matches Some(JsonView::Text(s))
                    ==> e.state == s
                &&& !(ctx.trigger_params.field("initial_state"@) is Some
                    && ctx.trigger_params.field("initial_state"@)->0 is Text) ==> e.state
                    == "Created"@
                &&& ctx.trigger_params.field("TrajectoryActions"@) matches Some(JsonView::List(s))
                    ==> p.actions == s
                &&& e.source == p.source
            },
        },
{
}

/// What a replay reports is what was counted.
pub proof fn lemma_counts_are_reported(t: ReplayTallyView, rate: JsonView)
    requires
        t.wf(),
        rate.wf(),
    ensures
        ({
            let r = replay_report(t, rate).field("replay_result"@)->0;
            &&& replay_report(t, rate).field("replay_result"@) is Some
            &&& r.field("actions_attempted"@) == Some(JsonView::Unsigned(t.attempted as u64))
            &&& r.field("succeeded"@) == Some(JsonView::Unsigned(t.succeeded as u64))
            &&& r.field("guard_rejections"@) == Some(
                JsonView::Unsigned(t.guard_rejections as u64),
            )
            &&& r.field("unknown_actions"@) == Some(JsonView::Unsigned(t.unknown_actions as u64))
            &&& r.field("success_rate"@) == Some(rate)
            &&& r.field("errors"@) == Some(JsonView::List(t.errors))
        }),
{
    broadcast use {lemma_with_reads, lemma_with_keeps};

    lemma_report_keys();
    assert(JsonView::List(t.errors).wf());
}

} // verus!
