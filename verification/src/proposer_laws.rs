//! What a proposer is asked for, what is taken from its answers, and how long it is
//! waited for.
use vstd::prelude::*;
use vstd::utf8::encode_utf8;

use crate::json::empty_object;
use crate::json::lemma_with_keeps;
use crate::json::lemma_with_reads;
use crate::json::JsonView;
use crate::json_text::json_read;
use crate::json_text::rendered;
use crate::keys::listed;
use crate::module::CallView;
use crate::module::ContextView;
use crate::module::ReplyView;
use crate::numerals::signed_number;
use crate::numerals::unsigned_number;
use crate::proposal::agent_id;
use crate::proposal::code_blocks;
use crate::proposal::first_found;
use crate::proposal::first_payload;
use crate::proposal::found_in_fields;
use crate::proposal::found_in_items;
use crate::proposal::found_inside;
use crate::proposal::id_part;
use crate::proposal::mutation_in;
use crate::proposal::payload;
use crate::proposal::task;
use crate::proposer::first_proposer_step;
use crate::proposer::next_proposer_step;
use crate::proposer::proposal_plan;
use crate::proposer::ProposalView;
use crate::proposer::ProposerStateView;
use crate::proposer::ProposerStepView;
use crate::provider_laws::set_or;
use crate::text::blank;
use crate::text::decimal;
use crate::text::find_at;
use crate::text::lemma_find_at;
use crate::text::occurs_at;
use crate::text::signed;
use crate::text::trimmed;
use crate::tool_laws::gives;
use crate::tool_laws::lacks;

verus! {

/// The text is a part of a name for another: letters, digits, hyphens and
/// underscores stay as they are, and hyphens stand for all else.
pub open spec fn is_part(a: Seq<char>, s: Seq<char>) -> bool {
    &&& s.len() == 0 ==> a == "id"@
    &&& s.len() > 0 ==> a.len() == if s.len() <= 48 {
        s.len()
    } else {
        48
    }
    &&& s.len() > 0 ==> forall|i: int|
        0 <= i < a.len() ==> {
            let c = s[i];
            let stays = ('a' <= c && c <= 'z') || ('A' <= c && c <= 'Z') || ('0' <= c && c <= '9')
                || c == '-' || c == '_';
            #[trigger] a[i] == if stays {
                c
            } else {
                '-'
            }
        }
}

/// The name of a proposer's agent is made of those of the run and the candidate, of
/// the attempt and of the retry; it is cut after 96 characters where it is longer.
pub proof fn lemma_names_of_agents(
    evo: Seq<char>,
    candidate: Seq<char>,
    attempt: int,
    retry: nat,
)
    ensures
        exists|a: Seq<char>, b: Seq<char>| #[trigger]
            is_part(a, evo) && #[trigger] is_part(b, candidate) && {
                let full = "evo-"@ + a + "-"@ + b + "-a"@ + signed(attempt) + "-r"@ + decimal(
                    retry,
                );
                &&& encode_utf8(full).len() <= 96 ==> agent_id(evo, candidate, attempt, retry)
                    == full
                &&& encode_utf8(full).len() > 96 && full.len() > 96 ==> agent_id(
                    evo,
                    candidate,
                    attempt,
                    retry,
                ) == full.take(96)
                &&& full.len() <= 96 ==> agent_id(evo, candidate, attempt, retry) == full
            },
{
    let a = id_part(evo);
    let b = id_part(candidate);
    assert(is_part(a, evo));
    assert(is_part(b, candidate));
}

/// Nothing inside the fields before the position has the key.
pub open spec fn no_field_before(f: Seq<(Seq<char>, JsonView)>, n: int, key: Seq<char>) -> bool {
    forall|j: int| 0 <= j < n ==> found_inside((#[trigger] f[j]).1, key) is None
}

/// Nothing inside the items before the position has the key.
pub open spec fn no_item_before(s: Seq<JsonView>, n: int, key: Seq<char>) -> bool {
    forall|j: int| 0 <= j < n ==> found_inside(#[trigger] s[j], key) is None
}

proof fn lemma_in_fields(f: Seq<(Seq<char>, JsonView)>, key: Seq<char>, i: int)
    requires
        0 <= i <= f.len(),
        no_field_before(f, i, key),
    ensures
        i == f.len() ==> found_in_fields(f, key) is None,
        i < f.len() && found_inside(f[i].1, key) is Some ==> found_in_fields(f, key)
            == found_inside(f[i].1, key),
    decreases f.len(),
{
    if f.len() > 0 {
        let front = f.drop_last();
        if i == f.len() {
            assert(no_field_before(front, i - 1, key)) by {
                assert forall|j: int| 0 <= j < i - 1 implies found_inside(
                    (#[trigger] front[j]).1,
                    key,
                ) is None by {
                    assert(front[j] == f[j]);
                }
            }
            lemma_in_fields(front, key, i - 1);
            assert(found_inside(f[i - 1].1, key) is None);
        } else {
            assert(no_field_before(front, i, key)) by {
                assert forall|j: int| 0 <= j < i implies found_inside(
                    (#[trigger] front[j]).1,
                    key,
                ) is None by {
                    assert(front[j] == f[j]);
                }
            }
            lemma_in_fields(front, key, i);
            if i < front.len() {
                assert(front[i] == f[i]);
            }
        }
    }
}

proof fn lemma_in_items(s: Seq<JsonView>, key: Seq<char>, i: int)
    requires
        0 <= i <= s.len(),
        no_item_before(s, i, key),
    ensures
        i == s.len() ==> found_in_items(s, key) is None,
        i < s.len() && found_inside(s[i], key) is Some ==> found_in_items(s, key) == found_inside(
            s[i],
            key,
        ),
    decreases s.len(),
{
    if s.len() > 0 {
        let front = s.drop_last();
        if i == s.len() {
            assert(no_item_before(front, i - 1, key)) by {
                assert forall|j: int| 0 <= j < i - 1 implies found_inside(
                    #[trigger] front[j],
                    key,
                ) is None by {
                    assert(front[j] == s[j]);
                }
            }
            lemma_in_items(front, key, i - 1);
            assert(found_inside(s[i - 1], key) is None);
        } else {
            assert(no_item_before(front, i, key)) by {
                assert forall|j: int| 0 <= j < i implies found_inside(
                    #[trigger] front[j],
                    key,
                ) is None by {
                    assert(front[j] == s[j]);
                }
            }
            lemma_in_items(front, key, i);
            if i < front.len() {
                assert(front[i] == s[i]);
            }
        }
    }
}

/// A key is looked for in an object itself, then inside its fields, and inside the
/// items of a list, always the first before the next; no other value has keys.
pub proof fn lemma_keys_are_found(v: JsonView, key: Seq<char>, i: int)
    ensures
        v.field(key) is Some ==> found_inside(v, key) == v.field(key),
        v matches JsonView::Object(f) ==> v.field(key) is None ==> {
            &&& 0 <= i < f.len() && no_field_before(f, i, key) && found_inside(f[i].1, key) is Some
                ==> found_inside(v, key) == found_inside(f[i].1, key)
            &&& no_field_before(f, f.len() as int, key) ==> found_inside(v, key) is None
        },
        v matches JsonView::List(s) ==> {
            &&& 0 <= i < s.len() && no_item_before(s, i, key) && found_inside(s[i], key) is Some
                ==> found_inside(v, key) == found_inside(s[i], key)
            &&& no_item_before(s, s.len() as int, key) ==> found_inside(v, key) is None
        },
        !(v is Object) && !(v is List) ==> found_inside(v, key) is None,
{
    match v {
        JsonView::Object(f) => {
            if 0 <= i < f.len() && no_field_before(f, i, key) {
                lemma_in_fields(f, key, i);
            }
            if no_field_before(f, f.len() as int, key) {
                lemma_in_fields(f, key, f.len() as int);
            }
        },
        JsonView::List(s) => {
            if 0 <= i < s.len() && no_item_before(s, i, key) {
                lemma_in_items(s, key, i);
            }
            if no_item_before(s, s.len() as int, key) {
                lemma_in_items(s, key, s.len() as int);
            }
        },
        _ => {},
    }
}

proof fn lemma_first_of(v: JsonView, keys: Seq<Seq<char>>, i: int)
    requires
        0 <= i <= keys.len(),
        forall|j: int| 0 <= j < i ==> found_inside(v, #[trigger] keys[j]) is None,
    ensures
        i == keys.len() ==> first_found(v, keys) is None,
        i < keys.len() && found_inside(v, keys[i]) is Some ==> first_found(v, keys) == found_inside(
            v,
            keys[i],
        ),
    decreases keys.len(),
{
    if i > 0 {
        assert(found_inside(v, keys[0]) is None);
        let rest = keys.drop_first();
        assert forall|j: int| 0 <= j < i - 1 implies found_inside(v, #[trigger] rest[j]) is None by {
            assert(rest[j] == keys[j + 1]);
        }
        lemma_first_of(v, rest, i - 1);
        if i < keys.len() {
            assert(rest[i - 1] == keys[i]);
        }
    }
}

/// The names under which a spec may come, in the order in which they count.
pub open spec fn names_of_specs() -> Seq<Seq<char>> {
    seq![
        "MutatedSpecSource"@,
        "mutated_spec_source"@,
        "SpecSource"@,
        "spec_source"@,
        "new_spec"@,
    ]
}

/// The names under which a summary may come, in the order in which they count.
pub open spec fn names_of_summaries() -> Seq<Seq<char>> {
    seq![
        "MutationSummary"@,
        "mutation_summary"@,
        "summary"@,
        "rationale"@,
        "change_summary"@,
    ]
}

/// The value has something under the name at the position, and nothing under those
/// before it.
pub open spec fn comes_under(v: JsonView, names: Seq<Seq<char>>, i: int) -> bool {
    &&& 0 <= i < names.len()
    &&& found_inside(v, names[i]) is Some
    &&& forall|j: int| 0 <= j < i ==> found_inside(v, #[trigger] names[j]) is None
}

/// What an agent answers in JSON proposes the spec under the first of its names, with
/// the summary under the first of its own; what is no text proposes nothing, and a
/// summary that is none is said in other words.
pub proof fn lemma_what_is_proposed(t: Seq<char>, v: JsonView, i: int, j: int)
    requires
        !blank(t),
        json_read(t) == Ok::<JsonView, Seq<char>>(v),
        comes_under(v, names_of_specs(), i),
        comes_under(v, names_of_summaries(), j) || (j == 5 && forall|k: int|
            0 <= k < 5 ==> found_inside(v, #[trigger] names_of_summaries()[k]) is None),
        found_inside(v, names_of_specs()[i])->0 is Text,
    ensures
        payload(t) is Ok,
        payload(t)->Ok_0.0 == found_inside(v, names_of_specs()[i])->0->Text_0,
        j < 5 && found_inside(v, names_of_summaries()[j])->0 is Text ==> payload(t)->Ok_0.1
            == found_inside(v, names_of_summaries()[j])->0->Text_0,
        !(j < 5 && found_inside(v, names_of_summaries()[j])->0 is Text) ==> payload(t)->Ok_0.1
            == "Mutation proposed by TemperAgent"@,
{
    assert(names_of_specs() =~= crate::proposal::spec_keys());
    assert(names_of_summaries() =~= crate::proposal::summary_keys());
    lemma_first_of(v, names_of_specs(), i);
    lemma_first_of(v, names_of_summaries(), j);
    let all = seq![t] + code_blocks(t, 0);
    assert(all[0] == t);
    assert(mutation_in(v) is Some);
}

/// A value without a spec that is a text proposes nothing; nor does what is blank, or
/// no JSON and without a block of code.
pub proof fn lemma_what_is_no_proposal(t: Seq<char>)
    ensures
        blank(t) ==> payload(t) == Err::<(Seq<char>, Seq<char>), Seq<char>>(
            "TemperAgent completed with empty result"@,
        ),
        !blank(t) && code_blocks(t, 0).len() == 0 && (json_read(t) is Err || forall|k: int|
            0 <= k < 5 ==> found_inside(
                json_read(t)->Ok_0,
                #[trigger] names_of_specs()[k],
            ) is None) ==> payload(t) == Err::<(Seq<char>, Seq<char>), Seq<char>>(
            "TemperAgent result missing MutatedSpecSource JSON payload"@,
        ),
{
    assert(names_of_specs() =~= crate::proposal::spec_keys());
    if !blank(t) && code_blocks(t, 0).len() == 0 {
        let all = seq![t] + code_blocks(t, 0);
        assert(all[0] == t);
        assert(all.drop_first() =~= Seq::<Seq<char>>::empty());
        assert(first_payload(all.drop_first()) is None);
        if json_read(t) is Ok && forall|k: int|
            0 <= k < 5 ==> found_inside(json_read(t)->Ok_0, #[trigger] names_of_specs()[k]) is None {
            lemma_first_of(json_read(t)->Ok_0, names_of_specs(), 5);
        }
    }
}

/// The marks of a block of code: the first mark from a position on, the end of its
/// line, and the next mark.
pub open spec fn marks(t: Seq<char>, from: int, i: int, e: int, j: int) -> bool {
    &&& from <= i && occurs_at(t, "```"@, i)
    &&& forall|k: int| from <= k < i ==> !occurs_at(t, "```"@, k)
    &&& i + 3 <= e && occurs_at(t, "\n"@, e)
    &&& forall|k: int| i + 3 <= k < e ==> !occurs_at(t, "\n"@, k)
    &&& e + 1 <= j && occurs_at(t, "```"@, j)
    &&& forall|k: int| e + 1 <= k < j ==> !occurs_at(t, "```"@, k)
}

/// What stands between the marks of a block of code, without white space at its ends,
/// is the first block; the others are those after it.
pub proof fn lemma_code_blocks(t: Seq<char>, from: int, i: int, e: int, j: int)
    requires
        0 <= from,
        marks(t, from, i, e, j),
    ensures
        code_blocks(t, from) == seq![trimmed(t.subrange(e + 1, j))] + code_blocks(t, j + 3),
{
    reveal_strlit("```");
    assert("```"@.len() == 3);
    reveal_strlit("\n");
    assert("\n"@.len() == 1);
    lemma_find_at(t, "```"@, from);
    lemma_find_at(t, "\n"@, i + 3);
    lemma_find_at(t, "```"@, e + 1);
    let a = find_at(t, "```"@, from);
    assert(a is Some && a->0 == i) by {
        if a is Some && a->0 > i {
            assert(!occurs_at(t, "```"@, i));
        }
        if a is Some && a->0 < i {
            assert(!occurs_at(t, "```"@, a->0));
        }
    }
    let b = find_at(t, "\n"@, i + 3);
    assert(b is Some && b->0 == e) by {
        if b is Some && b->0 > e {
            assert(!occurs_at(t, "\n"@, e));
        }
        if b is Some && b->0 < e {
            assert(!occurs_at(t, "\n"@, b->0));
        }
    }
    let c = find_at(t, "```"@, e + 1);
    assert(c is Some && c->0 == j) by {
        if c is Some && c->0 > j {
            assert(!occurs_at(t, "```"@, j));
        }
        if c is Some && c->0 < j {
            assert(!occurs_at(t, "```"@, c->0));
        }
    }
}

/// An answer that is no JSON as a whole proposes what its first block of code does,
/// where that proposes anything.
pub proof fn lemma_code_proposes(t: Seq<char>, i: int, e: int, j: int)
    requires
        !blank(t),
        json_read(t) is Err,
        marks(t, 0, i, e, j),
        !blank(trimmed(t.subrange(e + 1, j))),
        json_read(trimmed(t.subrange(e + 1, j))) is Ok,
        payload(trimmed(t.subrange(e + 1, j))) is Ok,
        mutation_in(json_read(trimmed(t.subrange(e + 1, j)))->Ok_0) is Some,
    ensures
        payload(t) == payload(trimmed(t.subrange(e + 1, j))),
{
    let b = trimmed(t.subrange(e + 1, j));
    lemma_code_blocks(t, 0, i, e, j);
    let all = seq![t] + code_blocks(t, 0);
    let rest = all.drop_first();
    assert(all[0] == t);
    assert(rest =~= code_blocks(t, 0));
    assert(rest[0] == b);
    let inner = seq![b] + code_blocks(b, 0);
    assert(inner[0] == b);
    assert(first_payload(inner) == mutation_in(json_read(b)->Ok_0));
    assert(first_payload(rest) == mutation_in(json_read(b)->Ok_0));
    assert(first_payload(all) == first_payload(rest));
}

/// The value holds the fields of the run: those of the entity's state, or the state
/// itself where it has none.
pub open spec fn holds_run(ctx: ContextView, f: JsonView) -> bool {
    &&& ctx.entity_state.field("fields"@) is Some ==> f == ctx.entity_state.field("fields"@)->0
    &&& ctx.entity_state.field("fields"@) is None ==> f == ctx.entity_state
}

/// The text is the one in a field of the first value, else of the second, else
/// another.
pub open spec fn first_text(
    t: Seq<char>,
    a: JsonView,
    b: JsonView,
    key: Seq<char>,
    otherwise: Seq<char>,
) -> bool {
    &&& forall|x: Seq<char>| #[trigger] gives(a, key, x) ==> t == x
    &&& lacks(a, key) ==> forall|x: Seq<char>| #[trigger] gives(b, key, x) ==> t == x
    &&& lacks(a, key) && lacks(b, key) ==> t == otherwise
}

/// The text is the dataset in a value, as text or in JSON.
pub open spec fn dataset_of(v: JsonView, t: Seq<char>) -> bool {
    gives(v, "DatasetJson"@, t) || (lacks(v, "DatasetJson"@) && v.field(
        "reflective_dataset"@,
    ) is Some && t == rendered(v.field("reflective_dataset"@)->0))
}

/// The value has no dataset.
pub open spec fn no_dataset(v: JsonView) -> bool {
    lacks(v, "DatasetJson"@) && v.field("reflective_dataset"@) is None
}

/// The number is that of a setting, or another where it is none.
pub open spec fn number_set(ctx: ContextView, key: Seq<char>, n: u64, otherwise: u64) -> bool {
    let t = listed(ctx.config, key);
    &&& t is Some && unsigned_number(t->0) is Some ==> n == unsigned_number(t->0)->0
    &&& !(t is Some && unsigned_number(t->0) is Some) ==> n == otherwise
}

/// A proposal is planned with the dataset of the trigger, else that of the run, and
/// the spec of the run, else that of the trigger; without either there is none.
pub proof fn lemma_what_is_asked_for(ctx: ContextView, default_model: Seq<char>, f: JsonView)
    requires
        holds_run(ctx, f),
    ensures
        ({
            let g = ctx.trigger_params;
            let r = proposal_plan(ctx, default_model);
            let p = r->Ok_0;
            &&& no_dataset(g) && no_dataset(f) ==> r == Err::<ProposalView, Seq<char>>(
                "missing DatasetJson in trigger/state"@,
            )
            &&& !(no_dataset(g) && no_dataset(f)) && lacks(f, "SpecSource"@) && lacks(
                g,
                "SpecSource"@,
            ) ==> r == Err::<ProposalView, Seq<char>>(
                "missing SpecSource in EvolutionRun state/trigger params"@,
            )
            &&& r is Err ==> (no_dataset(g) && no_dataset(f)) || (lacks(f, "SpecSource"@) && lacks(
                g,
                "SpecSource"@,
            ))
            &&& r is Ok ==> exists|d: Seq<char>, s: Seq<char>, k: Seq<char>, e: Seq<char>|
                (dataset_of(g, d) || (no_dataset(g) && dataset_of(f, d))) && (gives(
                    f,
                    "SpecSource"@,
                    s,
                ) || (lacks(f, "SpecSource"@) && gives(g, "SpecSource"@, s))) && (gives(
                    f,
                    "SkillName"@,
                    k,
                ) || (lacks(f, "SkillName"@) && k == "unknown-skill"@)) && (gives(
                    f,
                    "TargetEntityType"@,
                    e,
                ) || (lacks(f, "TargetEntityType"@) && e == "unknown-entity"@)) && p.user_message
                    == #[trigger] asks(k, e, s, d)
            &&& r is Ok ==> {
                &&& first_text(p.evo_id, f, JsonView::Null, "Id"@, "evolution-run"@)
                &&& first_text(p.candidate_id, f, g, "CandidateId"@, "candidate"@)
                &&& number_set(ctx, "poll_attempts"@, p.poll_attempts, 240)
                &&& number_set(ctx, "poll_sleep_ms"@, p.poll_sleep_ms, 250)
                &&& exists|n: u64| #[trigger]
                    number_set(ctx, "max_agent_retries"@, n, 3) && (n > 0 ==> p.max_agent_retries
                        == n) && (n == 0 ==> p.max_agent_retries == 1)
                &&& p.tenant == ctx.tenant
                &&& set_or(ctx, "temper_api_url"@, p.base_url, "http://127.0.0.1:3000"@)
                &&& set_or(ctx, "sandbox_url"@, p.sandbox_url, "http://127.0.0.1:9999"@)
                &&& set_or(ctx, "model"@, p.model, default_model)
                &&& set_or(ctx, "provider"@, p.provider, "anthropic"@)
                &&& set_or(ctx, "max_turns"@, p.max_turns, "10"@)
                &&& set_or(ctx, "workdir"@, p.workdir, "/tmp/workspace"@)
                &&& set_or(ctx, "tools_enabled"@, p.tools_enabled, "read,write,edit,bash"@)
            }
        }),
{
    let g = ctx.trigger_params;
    let r = proposal_plan(ctx, default_model);
    let p = r->Ok_0;
    assert(f == crate::proposer::run_fields(ctx));
    if r is Ok {
        let d = crate::proposer::dataset(ctx)->Ok_0;
        let s = crate::proposer::run_text(ctx, "SpecSource"@)->0;
        let k = f.text_or("SkillName"@, "unknown-skill"@);
        let e = f.text_or("TargetEntityType"@, "unknown-entity"@);
        assert("Target skill: "@ + k + "\nTarget entity: "@ + e + "\n\nCurrent IOA spec:\n"@ + s
            + "\n\nReflective dataset JSON:\n"@ + (d + task()) =~= asks(k, e, s, d));
        assert(p.user_message == asks(k, e, s, d));
        let n = crate::proposer::number_setting(ctx, "max_agent_retries"@, 3);
        assert(number_set(ctx, "max_agent_retries"@, n, 3));
    }
}

/// What an agent is asked.
pub open spec fn asks(
    skill: Seq<char>,
    entity: Seq<char>,
    spec_source: Seq<char>,
    dataset: Seq<char>,
) -> Seq<char> {
    "Target skill: "@ + skill + "\nTarget entity: "@ + entity + "\n\nCurrent IOA spec:\n"@
        + spec_source + "\n\nReflective dataset JSON:\n"@ + dataset + task()
}

/// How often a mutation was attempted is read as a number, or as the text of one; else
/// it was never.
pub proof fn lemma_attempts(ctx: ContextView, default_model: Seq<char>, f: JsonView)
    requires
        holds_run(ctx, f),
        proposal_plan(ctx, default_model) is Ok,
    ensures
        ({
            let n = proposal_plan(ctx, default_model)->Ok_0.attempt;
            let v = f.field("mutation_attempts"@);
            &&& v matches Some(JsonView::Unsigned(m)) ==> m <= i64::MAX ==> n == m
            &&& v matches Some(JsonView::Negative(m)) ==> n == m
            &&& v matches Some(JsonView::Text(t)) ==> (signed_number(t) is Some ==> n
                == signed_number(t)->0) && (signed_number(t) is None ==> n == 0)
            &&& v is None ==> n == 0
        }),
{
}

/// The call goes to an address under the headers of a proposer.
pub open spec fn posts(c: CallView, p: ProposalView, url: Seq<char>, v: JsonView) -> bool {
    &&& c.method == "POST"@
    &&& c.url == url
    &&& of_proposer(c, p)
    &&& c.body == rendered(v)
}

/// The call is a proposer's, in the name of its tenant.
pub open spec fn of_proposer(c: CallView, p: ProposalView) -> bool {
    &&& c.headers.contains(("Content-Type"@, "application/json"@))
    &&& c.headers.contains(("X-Tenant-Id"@, p.tenant))
    &&& c.headers.contains(("x-temper-principal-kind"@, "agent"@))
    &&& c.headers.contains(("x-temper-principal-id"@, "gepa-proposer-agent"@))
    &&& c.headers.contains(("x-temper-agent-type"@, "supervisor"@))
}

proof fn lemma_headers(p: ProposalView)
    ensures
        ({
            let h = crate::proposer::entity_headers(p.tenant);
            &&& h.contains(("Content-Type"@, "application/json"@))
            &&& h.contains(("X-Tenant-Id"@, p.tenant))
            &&& h.contains(("x-temper-principal-kind"@, "agent"@))
            &&& h.contains(("x-temper-principal-id"@, "gepa-proposer-agent"@))
            &&& h.contains(("x-temper-agent-type"@, "supervisor"@))
        }),
{
    let h = crate::proposer::entity_headers(p.tenant);
    assert(h[0] == ("Content-Type"@, "application/json"@));
    assert(h[1] == ("X-Tenant-Id"@, p.tenant));
    assert(h[2] == ("x-temper-principal-kind"@, "agent"@));
    assert(h[3] == ("x-temper-principal-id"@, "gepa-proposer-agent"@));
    assert(h[4] == ("x-temper-agent-type"@, "supervisor"@));
}

/// The step has an agent made at a retry.
pub open spec fn makes(s: ProposerStepView, p: ProposalView, n: nat) -> bool {
    &&& s matches ProposerStepView::Send(c, t)
    &&& t == ProposerStateView::Creating(p, n)
    &&& makes_agent(c, p, n)
}

/// The call has an agent made, under its name.
pub open spec fn makes_agent(c: CallView, p: ProposalView, n: nat) -> bool {
    exists|v: JsonView| #[trigger] creates(c, p, n, v)
}

/// The call has an agent made, under its name, by posting a value.
pub open spec fn creates(c: CallView, p: ProposalView, n: nat, v: JsonView) -> bool {
    &&& posts(c, p, p.base_url + "/tdata/TemperAgents"@, v)
    &&& gives(v, "TemperAgentId"@, agent_id(p.evo_id, p.candidate_id, p.attempt as int, n))
}

proof fn lemma_makes(p: ProposalView, n: nat)
    ensures
        makes(
            ProposerStepView::Send(
                crate::proposer::create_call(p, n),
                ProposerStateView::Creating(p, n),
            ),
            p,
            n,
        ),
{
    broadcast use {lemma_with_reads, lemma_with_keeps};

    lemma_headers(p);
    let v = empty_object().with(
        "TemperAgentId"@,
        JsonView::Text(agent_id(p.evo_id, p.candidate_id, p.attempt as int, n)),
    );
    assert(creates(crate::proposer::create_call(p, n), p, n, v));
    assert(makes_agent(crate::proposer::create_call(p, n), p, n));
}

/// A proposal begins with its first agent, or fails with what is missing.
pub proof fn lemma_first_agent(ctx: ContextView, default_model: Seq<char>)
    ensures
        match proposal_plan(ctx, default_model) {
            Ok(p) => makes(first_proposer_step(ctx, default_model), p, 0),
            Err(m) => first_proposer_step(ctx, default_model) == ProposerStepView::Failed(m),
        },
{
    if proposal_plan(ctx, default_model) is Ok {
        lemma_makes(proposal_plan(ctx, default_model)->Ok_0, 0);
    }
}

/// The reply is one of success whose body reads as a value, or is blank and stands for
/// the empty object.
pub open spec fn replies(r: Result<ReplyView, Seq<char>>, v: JsonView) -> bool {
    &&& r is Ok
    &&& 200 <= r->Ok_0.status < 300
    &&& blank(r->Ok_0.body) ==> v == empty_object()
    &&& !blank(r->Ok_0.body) ==> json_read(r->Ok_0.body) == Ok::<JsonView, Seq<char>>(v)
}

/// The fields in a value.
pub open spec fn fields_of(v: JsonView) -> JsonView {
    if v.field("fields"@) is Some {
        v.field("fields"@)->0
    } else {
        JsonView::Null
    }
}

/// The text is in a field of a value, else in a field of its fields, else another.
pub open spec fn own_or_inner(
    v: JsonView,
    key: Seq<char>,
    inner: Seq<char>,
    t: Seq<char>,
    otherwise: Seq<char>,
) -> bool {
    let g = fields_of(v);
    &&& forall|x: Seq<char>| #[trigger] gives(v, key, x) ==> t == x
    &&& lacks(v, key) ==> forall|x: Seq<char>| #[trigger] gives(g, inner, x) ==> t == x
    &&& lacks(v, key) && lacks(g, inner) ==> t == otherwise
}

/// The call configures an agent.
pub open spec fn configures_agent(c: CallView, p: ProposalView, n: nat, id: Seq<char>) -> bool {
    exists|b: JsonView| #[trigger] configures(c, p, n, id, b)
}

/// The call configures an agent with what it is to do.
pub open spec fn configures(
    c: CallView,
    p: ProposalView,
    n: nat,
    id: Seq<char>,
    b: JsonView,
) -> bool {
    &&& posts(
        c,
        p,
        p.base_url + "/tdata/TemperAgents('"@ + id + "')/Temper.Agent.TemperAgent."@
            + "Configure"@,
        b,
    )
    &&& gives(b, "system_prompt"@, p.system_prompt)
    &&& n == 0 ==> gives(b, "user_message"@, p.user_message)
    &&& n > 0 ==> gives(
        b,
        "user_message"@,
        p.user_message
            + "\n\nIMPORTANT: previous attempt returned empty/invalid payload. Return valid compact JSON in one line with non-empty MutatedSpecSource and MutationSummary."@,
    )
    &&& gives(b, "model"@, p.model)
    &&& gives(b, "provider"@, p.provider)
    &&& gives(b, "max_turns"@, p.max_turns)
    &&& gives(b, "tools_enabled"@, p.tools_enabled)
    &&& gives(b, "workdir"@, p.workdir)
    &&& gives(b, "sandbox_url"@, p.sandbox_url)
}

/// An agent that was made is configured with what it is to do, under the name that it
/// was given; at a retry it is told to mind the form of its answer.
pub proof fn lemma_agents_are_configured(
    p: ProposalView,
    n: nat,
    r: Result<ReplyView, Seq<char>>,
    v: JsonView,
)
    requires
        replies(r, v),
    ensures
        next_proposer_step(ProposerStateView::Creating(p, n), r) matches ProposerStepView::Send(
            c,
            ProposerStateView::Configuring(q, k, id),
        ) && {
            &&& q == p && k == n
            &&& own_or_inner(v, "entity_id"@, "Id"@, id, "unknown-agent"@)
            &&& configures_agent(c, p, n, id)
        },
{
    broadcast use {lemma_with_reads, lemma_with_keeps};

    lemma_configuration_keys();
    lemma_headers(p);
    let id = crate::module::text_or_else(crate::proposer::entity_id(v), "unknown-agent"@);
    let c = crate::proposer::configure_call(p, n, id);
    assert(own_or_inner(v, "entity_id"@, "Id"@, id, "unknown-agent"@));
    let b = empty_object().with("system_prompt"@, JsonView::Text(p.system_prompt)).with(
        "user_message"@,
        JsonView::Text(crate::proposer::asked(p, n)),
    ).with("model"@, JsonView::Text(p.model)).with("provider"@, JsonView::Text(p.provider)).with(
        "max_turns"@,
        JsonView::Text(p.max_turns),
    ).with("tools_enabled"@, JsonView::Text(p.tools_enabled)).with(
        "workdir"@,
        JsonView::Text(p.workdir),
    ).with("sandbox_url"@, JsonView::Text(p.sandbox_url));
    assert(configures(c, p, n, id, b));
    assert(configures_agent(c, p, n, id));
}

/// The step asks for an agent.
pub open spec fn polls(
    s: ProposerStepView,
    p: ProposalView,
    n: nat,
    id: Seq<char>,
    k: nat,
) -> bool {
    &&& s matches ProposerStepView::Send(c, t)
    &&& t == ProposerStateView::Polling(p, n, id, k)
    &&& c.method == "GET"@
    &&& c.url == p.base_url + "/tdata/TemperAgents('"@ + id + "')"@
    &&& of_proposer(c, p)
}

/// The step has the sandbox sleep before it asks for an agent.
pub open spec fn sleeps(
    s: ProposerStepView,
    p: ProposalView,
    n: nat,
    id: Seq<char>,
    k: nat,
) -> bool {
    &&& s matches ProposerStepView::Send(c, t)
    &&& t == ProposerStateView::Sleeping(p, n, id, k)
    &&& c.method == "POST"@
    &&& c.url == p.sandbox_url + "/v1/processes/run"@
    &&& exists|v: JsonView|
        c.body == #[trigger] rendered(v) && gives(v, "workdir"@, p.workdir) && gives(
            v,
            "command"@,
            "sleep "@ + decimal((p.poll_sleep_ms / 1000) as nat) + "."@ + decimal(
                (p.poll_sleep_ms % 1000 / 100) as nat,
            ) + decimal((p.poll_sleep_ms % 100 / 10) as nat) + decimal(
                (p.poll_sleep_ms % 10) as nat,
            ),
        )
}

/// The step gives an agent up: the next is made, or this was the last, and the
/// proposal fails for the reason.
pub open spec fn gives_up(
    s: ProposerStepView,
    p: ProposalView,
    n: nat,
    why: Seq<char>,
) -> bool {
    &&& n + 1 < p.max_agent_retries ==> makes(s, p, n + 1)
    &&& n + 1 >= p.max_agent_retries ==> s == ProposerStepView::Failed(why)
}

/// The step waits for an agent after it was asked for `k` times: it is asked for again,
/// after a sleep where there is one and it was asked before, until it was asked for as
/// often as is planned.
pub open spec fn waits(
    s: ProposerStepView,
    p: ProposalView,
    n: nat,
    id: Seq<char>,
    k: nat,
) -> bool {
    &&& k >= p.poll_attempts ==> gives_up(
        s,
        p,
        n,
        "Timed out waiting for TemperAgent completion after "@ + decimal(p.poll_attempts as nat)
            + " polls on retry "@ + decimal(n),
    )
    &&& k < p.poll_attempts && (k == 0 || p.poll_sleep_ms == 0) ==> polls(s, p, n, id, k)
    &&& k < p.poll_attempts && k > 0 && p.poll_sleep_ms > 0 ==> sleeps(s, p, n, id, k)
}

proof fn lemma_polls(p: ProposalView, n: nat, id: Seq<char>, k: nat)
    ensures
        polls(
            ProposerStepView::Send(
                crate::proposer::poll_call(p, id),
                ProposerStateView::Polling(p, n, id, k),
            ),
            p,
            n,
            id,
            k,
        ),
{
    lemma_headers(p);
}

proof fn lemma_sleeps(p: ProposalView, n: nat, id: Seq<char>, k: nat)
    ensures
        sleeps(
            ProposerStepView::Send(
                crate::proposer::sleep_call(p),
                ProposerStateView::Sleeping(p, n, id, k),
            ),
            p,
            n,
            id,
            k,
        ),
{
    broadcast use {lemma_with_reads, lemma_with_keeps};

    lemma_configuration_keys();
    let a = decimal((p.poll_sleep_ms / 1000) as nat);
    let b = decimal((p.poll_sleep_ms % 1000 / 100) as nat);
    let c = decimal((p.poll_sleep_ms % 100 / 10) as nat);
    let d = decimal((p.poll_sleep_ms % 10) as nat);
    assert("sleep "@ + crate::proposer::seconds(p.poll_sleep_ms) =~= "sleep "@ + a + "."@ + b + c
        + d);
    let v = empty_object().with(
        "command"@,
        JsonView::Text("sleep "@ + crate::proposer::seconds(p.poll_sleep_ms)),
    ).with("workdir"@, JsonView::Text(p.workdir));
    assert(crate::proposer::sleep_call(p).body == rendered(v));
}

proof fn lemma_gives_up(p: ProposalView, n: nat, why: Seq<char>)
    ensures
        gives_up(crate::proposer::after_nothing(p, n, why), p, n, why),
{
    lemma_makes(p, n + 1);
}

proof fn lemma_waits(p: ProposalView, n: nat, id: Seq<char>, k: nat)
    ensures
        waits(crate::proposer::ask_again(p, n, id, k), p, n, id, k),
{
    lemma_gives_up(p, n, crate::proposer::timed_out(p, n));
    lemma_polls(p, n, id, k);
    lemma_sleeps(p, n, id, k);
}

/// An agent that is configured is provisioned, and then waited for.
pub proof fn lemma_agents_are_provisioned(
    p: ProposalView,
    n: nat,
    id: Seq<char>,
    r: Result<ReplyView, Seq<char>>,
    v: JsonView,
    k: nat,
)
    requires
        replies(r, v),
    ensures
        next_proposer_step(
            ProposerStateView::Configuring(p, n, id),
            r,
        ) matches ProposerStepView::Send(c, t) && t == ProposerStateView::Provisioning(p, n, id)
            && posts(
            c,
            p,
            p.base_url + "/tdata/TemperAgents('"@ + id + "')/Temper.Agent.TemperAgent."@
                + "Provision"@,
            empty_object(),
        ),
        waits(next_proposer_step(ProposerStateView::Provisioning(p, n, id), r), p, n, id, 0),
        polls(next_proposer_step(ProposerStateView::Sleeping(p, n, id, k), r), p, n, id, k),
{
    lemma_headers(p);
    lemma_waits(p, n, id, 0);
    lemma_polls(p, n, id, k);
}

/// The step gives an agent up that failed or was cancelled, with what went wrong.
pub open spec fn fails(
    s: ProposerStepView,
    p: ProposalView,
    n: nat,
    g: JsonView,
    status: Seq<char>,
    m: Seq<char>,
) -> bool {
    &&& two_texts(g, "error_message"@, "ErrorMessage"@, m, "TemperAgent run failed"@)
    &&& gives_up(s, p, n, "TemperAgent "@ + status + " on retry "@ + decimal(n) + ": "@ + m)
}

/// The step reports what a completed agent proposes, or gives the agent up.
pub open spec fn completes(
    s: ProposerStepView,
    p: ProposalView,
    n: nat,
    id: Seq<char>,
    g: JsonView,
    t: Seq<char>,
) -> bool {
    &&& two_texts(g, "result"@, "Result"@, t, Seq::empty())
    &&& match payload(t) {
        Ok((source, summary)) => s matches ProposerStepView::Done(o) && gives(
            o,
            "MutatedSpecSource"@,
            source,
        ) && gives(o, "MutationSummary"@, summary) && gives(o, "ProposerType"@, "temper_agent"@)
            && gives(o, "ProposerAgentId"@, id),
        Err(m) => gives_up(
            s,
            p,
            n,
            "TemperAgent completed with invalid payload on retry "@ + decimal(n) + ": "@ + m,
        ),
    }
}

/// An agent that was asked for is waited for until it completed, failed or was
/// cancelled. What a completed one proposes is reported under its name; where it
/// proposes nothing, and where it failed, it is given up.
pub proof fn lemma_agents_are_heard(
    p: ProposalView,
    n: nat,
    id: Seq<char>,
    k: nat,
    r: Result<ReplyView, Seq<char>>,
    v: JsonView,
    status: Seq<char>,
)
    requires
        replies(r, v),
        own_or_inner(v, "status"@, "Status"@, status, "Unknown"@),
    ensures
        ({
            let s = next_proposer_step(ProposerStateView::Polling(p, n, id, k), r);
            let g = fields_of(v);
            &&& status != "Completed"@ && status != "Failed"@ && status != "Cancelled"@ ==> waits(
                s,
                p,
                n,
                id,
                k + 1,
            )
            &&& status == "Failed"@ || status == "Cancelled"@ ==> exists|m: Seq<char>| #[trigger]
                fails(s, p, n, g, status, m)
            &&& status == "Completed"@ ==> exists|t: Seq<char>| #[trigger]
                completes(s, p, n, id, g, t)
        }),
{
    broadcast use {lemma_with_reads, lemma_with_keeps};

    lemma_statuses();
    lemma_proposal_keys();
    reveal_strlit("");
    assert(""@ =~= Seq::<char>::empty());
    let g = fields_of(v);
    if !lacks(v, "status"@) {
        assert(gives(v, "status"@, v.field("status"@)->0->Text_0));
    } else if !lacks(g, "Status"@) {
        assert(gives(g, "Status"@, g.field("Status"@)->0->Text_0));
    }
    assert(status == crate::proposer::agent_status(v));
    lemma_waits(p, n, id, k + 1);
    let m = crate::proposer::agent_error(v);
    assert(two_texts(g, "error_message"@, "ErrorMessage"@, m, "TemperAgent run failed"@));
    lemma_gives_up(p, n, "TemperAgent "@ + status + " on retry "@ + decimal(n) + ": "@ + m);
    let t = crate::proposer::agent_result(v);
    assert(two_texts(g, "result"@, "Result"@, t, Seq::empty()));
    if payload(t) is Err {
        lemma_gives_up(
            p,
            n,
            "TemperAgent completed with invalid payload on retry "@ + decimal(n) + ": "@
                + payload(t)->Err_0,
        );
    }
    let s = next_proposer_step(ProposerStateView::Polling(p, n, id, k), r);
    if status == "Completed"@ {
        assert(completes(s, p, n, id, g, t));
    }
    if status == "Failed"@ || status == "Cancelled"@ {
        assert(fails(s, p, n, g, status, m));
    }
}

/// The text is in the first of two fields, else in the second, else another.
pub open spec fn two_texts(
    v: JsonView,
    key: Seq<char>,
    other: Seq<char>,
    t: Seq<char>,
    otherwise: Seq<char>,
) -> bool {
    &&& forall|x: Seq<char>| #[trigger] gives(v, key, x) ==> t == x
    &&& lacks(v, key) ==> forall|x: Seq<char>| #[trigger] gives(v, other, x) ==> t == x
    &&& lacks(v, key) && lacks(v, other) ==> t == otherwise
}

/// A call that fails ends the proposal, with what was called and what came back; so
/// does a body that is no JSON. Only a sleep that fails does not.
pub proof fn lemma_failures_end_a_proposal(
    p: ProposalView,
    n: nat,
    id: Seq<char>,
    k: nat,
    x: ReplyView,
    m: Seq<char>,
)
    requires
        !(200 <= x.status < 300) || (!blank(x.body) && json_read(x.body) is Err),
    ensures
        next_proposer_step(ProposerStateView::Creating(p, n), Ok(x)) is Failed,
        next_proposer_step(ProposerStateView::Configuring(p, n, id), Ok(x)) is Failed,
        next_proposer_step(ProposerStateView::Provisioning(p, n, id), Ok(x)) is Failed,
        next_proposer_step(ProposerStateView::Polling(p, n, id, k), Ok(x)) is Failed,
        polls(next_proposer_step(ProposerStateView::Sleeping(p, n, id, k), Ok(x)), p, n, id, k),
        polls(next_proposer_step(ProposerStateView::Sleeping(p, n, id, k), Err(m)), p, n, id, k),
        next_proposer_step(ProposerStateView::Creating(p, n), Err(m)) == ProposerStepView::Failed(
            m,
        ),
        next_proposer_step(ProposerStateView::Polling(p, n, id, k), Err(m))
            == ProposerStepView::Failed(m),
        !(200 <= x.status < 300) ==> next_proposer_step(
            ProposerStateView::Polling(p, n, id, k),
            Ok(x),
        ) == ProposerStepView::Failed(
            "GET"@ + " "@ + (p.base_url + "/tdata/TemperAgents('"@ + id + "')"@)
                + " failed: HTTP "@ + decimal(x.status as nat) + (" body="@ + x.body),
        ),
{
    lemma_polls(p, n, id, k);
}

proof fn lemma_statuses()
    ensures
        "Completed"@ != "Failed"@,
        "Completed"@ != "Cancelled"@,
        "Failed"@ != "Cancelled"@,
{
    reveal_strlit("Completed");
    reveal_strlit("Failed");
    reveal_strlit("Cancelled");
    assert("Completed"@.len() == 9);
    assert("Failed"@.len() == 6);
    assert("Cancelled"@.len() == 9);
    assert("Completed"@[1] == 'o');
    assert("Cancelled"@[1] == 'a');
}

proof fn lemma_configuration_keys()
    ensures
        "system_prompt"@ != "user_message"@,
        "system_prompt"@ != "model"@,
        "system_prompt"@ != "provider"@,
        "system_prompt"@ != "max_turns"@,
        "system_prompt"@ != "tools_enabled"@,
        "system_prompt"@ != "workdir"@,
        "system_prompt"@ != "sandbox_url"@,
        "system_prompt"@ != "command"@,
        "user_message"@ != "model"@,
        "user_message"@ != "provider"@,
        "user_message"@ != "max_turns"@,
        "user_message"@ != "tools_enabled"@,
        "user_message"@ != "workdir"@,
        "user_message"@ != "sandbox_url"@,
        "user_message"@ != "command"@,
        "model"@ != "provider"@,
        "model"@ != "max_turns"@,
        "model"@ != "tools_enabled"@,
        "model"@ != "workdir"@,
        "model"@ != "sandbox_url"@,
        "model"@ != "command"@,
        "provider"@ != "max_turns"@,
        "provider"@ != "tools_enabled"@,
        "provider"@ != "workdir"@,
        "provider"@ != "sandbox_url"@,
        "provider"@ != "command"@,
        "max_turns"@ != "tools_enabled"@,
        "max_turns"@ != "workdir"@,
        "max_turns"@ != "sandbox_url"@,
        "max_turns"@ != "command"@,
        "tools_enabled"@ != "workdir"@,
        "tools_enabled"@ != "sandbox_url"@,
        "tools_enabled"@ != "command"@,
        "workdir"@ != "sandbox_url"@,
        "workdir"@ != "command"@,
        "sandbox_url"@ != "command"@,
{
    reveal_strlit("system_prompt");
    reveal_strlit("user_message");
    reveal_strlit("model");
    reveal_strlit("provider");
    reveal_strlit("max_turns");
    reveal_strlit("tools_enabled");
    reveal_strlit("workdir");
    reveal_strlit("sandbox_url");
    reveal_strlit("command");
    assert("system_prompt"@.len() == 13);
    assert("user_message"@.len() == 12);
    assert("model"@.len() == 5);
    assert("provider"@.len() == 8);
    assert("max_turns"@.len() == 9);
    assert("tools_enabled"@.len() == 13);
    assert("workdir"@.len() == 7);
    assert("sandbox_url"@.len() == 11);
    assert("command"@.len() == 7);
    assert("system_prompt"@[0] == 's');
    assert("tools_enabled"@[0] == 't');
    assert("workdir"@[0] == 'w');
    assert("command"@[0] == 'c');
}

proof fn lemma_proposal_keys()
    ensures
        "MutatedSpecSource"@ != "MutationSummary"@,
        "MutatedSpecSource"@ != "ProposerType"@,
        "MutatedSpecSource"@ != "ProposerAgentId"@,
        "MutationSummary"@ != "ProposerType"@,
        "MutationSummary"@ != "ProposerAgentId"@,
        "ProposerType"@ != "ProposerAgentId"@,
{
    reveal_strlit("MutatedSpecSource");
    reveal_strlit("MutationSummary");
    reveal_strlit("ProposerType");
    reveal_strlit("ProposerAgentId");
    assert("MutatedSpecSource"@.len() == 17);
    assert("MutationSummary"@.len() == 15);
    assert("ProposerType"@.len() == 12);
    assert("ProposerAgentId"@.len() == 15);
    assert("MutationSummary"@[0] == 'M');
    assert("ProposerAgentId"@[0] == 'P');
}

} // verus!
