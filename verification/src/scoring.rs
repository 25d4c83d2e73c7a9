//! The figures behind the scores of a candidate: what a replay counted, and how
//! much each score weighs.
use vstd::prelude::*;

use crate::frontier_update::number_or_zero;
use crate::json::Json;
use crate::json::JsonView;
use crate::json_text::read_number;
use crate::module::lemma_field_wf;
use crate::module::ModuleContext;
use crate::score::Score;

verus! {

/// The bit pattern of 1.0.
pub const WHOLE: u64 = 0x3FF0_0000_0000_0000;

/// The bit pattern of 0.8.
pub const FOUR_FIFTHS: u64 = 0x3FE9_9999_9999_999A;

/// The bit pattern of 0.6.
pub const THREE_FIFTHS: u64 = 0x3FE3_3333_3333_3333;

/// What a replay counted.
#[derive(Clone, Copy, Debug, PartialEq, Eq, Structural)]
pub struct ReplayCounts {
    /// The actions that were attempted.
    pub attempted: u64,
    /// Those that succeeded.
    pub succeeded: u64,
    /// Those that a guard rejected.
    pub guard_rejections: u64,
    /// Those that the spec does not know.
    pub unknown_actions: u64,
}

/// The count in a field, or zero.
pub open spec fn count_in(v: JsonView, key: Seq<char>) -> u64 {
    match v.field(key) {
        Some(JsonView::Unsigned(n)) => n,
        _ => 0,
    }
}

/// What the replay in a value counted.
pub open spec fn counts_in(v: JsonView) -> ReplayCounts {
    ReplayCounts {
        attempted: count_in(v, "actions_attempted"@),
        succeeded: count_in(v, "succeeded"@),
        guard_rejections: count_in(v, "guard_rejections"@),
        unknown_actions: count_in(v, "unknown_actions"@),
    }
}

/// The replay that a trigger reports.
pub open spec fn replay_in(params: JsonView) -> JsonView {
    match params.field("replay_result"@) {
        Some(v) => v,
        None => match params.field("result"@) {
            Some(v) => v,
            None => params,
        },
    }
}

fn read_count(v: &Json, key: &str) -> (r: u64)
    ensures
        r == count_in(v@, key@),
{
    match v.get(key) {
        Some(Json::Unsigned(n)) => *n,
        _ => 0,
    }
}

/// What the replay that a trigger reports counted.
pub fn read_counts(ctx: &ModuleContext) -> (r: ReplayCounts)
    ensures
        r == counts_in(replay_in(ctx@.trigger_params)),
{
    let replay = match ctx.trigger_params.get("replay_result") {
        Some(v) => v,
        None => match ctx.trigger_params.get("result") {
            Some(v) => v,
            None => &ctx.trigger_params,
        },
    };
    ReplayCounts {
        attempted: read_count(replay, "actions_attempted"),
        succeeded: read_count(replay, "succeeded"),
        guard_rejections: read_count(replay, "guard_rejections"),
        unknown_actions: read_count(replay, "unknown_actions"),
    }
}

impl ReplayCounts {
    /// The actions over which the known ones are counted.
    pub fn classified(&self) -> (r: u128)
        ensures
            r == self.succeeded + self.guard_rejections + self.unknown_actions,
    {
        self.succeeded as u128 + self.guard_rejections as u128 + self.unknown_actions as u128
    }
}

/// A weight as it is seen from outside.
pub open spec fn weight_view(w: (String, Score)) -> (Seq<char>, Score) {
    (w.0@, w.1)
}

/// Weights as they are seen from outside.
pub open spec fn weight_views(s: Seq<(String, Score)>) -> Seq<(Seq<char>, Score)> {
    Seq::new(s.len(), |i: int| weight_view(s[i]))
}

/// The weights of the scores, in the order of their names: those of the entity,
/// where it has any; what is no number weighs nothing.
pub open spec fn weights(state: JsonView) -> Seq<(Seq<char>, Score)> {
    match state.field("scoring_weights"@) {
        None => seq![
            ("coverage"@, Score { bits: FOUR_FIFTHS }),
            ("guard_pass_rate"@, Score { bits: THREE_FIFTHS }),
            ("success_rate"@, Score { bits: WHOLE }),
        ],
        Some(JsonView::Object(f)) => Seq::new(
            f.len(),
            |i: int| (f[i].0, number_or_zero(f[i].1)),
        ),
        Some(_) => Seq::empty(),
    }
}

/// The weights of the scores.
pub fn read_weights(ctx: &ModuleContext) -> (r: Vec<(String, Score)>)
    requires
        ctx.entity_state@.wf(),
    ensures
        weight_views(r@) == weights(ctx@.entity_state),
{
    proof {
        lemma_field_wf(ctx.entity_state@, "scoring_weights"@);
    }
    let mut r: Vec<(String, Score)> = Vec::new();
    match ctx.entity_state.get("scoring_weights") {
        None => {
            r.push(("coverage".to_string(), Score { bits: FOUR_FIFTHS }));
            r.push(("guard_pass_rate".to_string(), Score { bits: THREE_FIFTHS }));
            r.push(("success_rate".to_string(), Score { bits: WHOLE }));
            assert(weight_views(r@) =~= weights(ctx@.entity_state));
        },
        Some(Json::Object(f)) => {
            let ghost o = Json::Object(*f)@;
            let ghost all = o->Object_0;
            let mut i: usize = 0;
            while i < f.len()
                invariant
                    i <= f@.len(),
                    o == Json::Object(*f)@,
                    o.wf(),
                    all == o->Object_0,
                    all.len() == f@.len(),
                    r@.len() == i,
                    forall|j: int|
                        0 <= j < i ==> weight_view(#[trigger] r@[j]) == (
                            all[j].0,
                            number_or_zero(all[j].1),
                        ),
                decreases f@.len() - i,
            {
                proof {
                    assert(all[i as int] == (f@[i as int].0@, f@[i as int].1@));
                    assert(all[i as int].1.wf());
                }
                let s = match read_number(&f[i].1) {
                    Some(s) => s,
                    None => Score { bits: 0 },
                };
                r.push((f[i].0.clone(), s));
                i = i + 1;
            }
            assert(weight_views(r@) =~= weights(ctx@.entity_state));
        },
        Some(_) => {
            assert(weight_views(r@) =~= weights(ctx@.entity_state));
        },
    }
    r
}

} // verus!
