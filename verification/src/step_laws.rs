//! What tools tell, what is replayed and learnt from, and what runs go by where
//! little is said.
use vstd::prelude::*;
use vstd::utf8::encode_utf8;

use crate::json::empty_object;
use crate::json::JsonView;
use crate::json_text::json_read;
use crate::json_text::json_read_list;
use crate::json_text::rendered;
use crate::module::ContextView;
use crate::module::ReplyView;
use crate::numerals::url_bytes;
use crate::proposer_laws::holds_run;
use crate::provider_laws::says_or;
use crate::provider_laws::set_or;
use crate::reflective::text_read;
use crate::reflective::trajectories_in;
use crate::reflective::trajectories_value;
use crate::replay::first_replay_step;
use crate::replay::replay_plan;
use crate::replay::step_at;
use crate::replay::ReplayPlanView;
use crate::replay::ReplayStepView;
use crate::replay::ReplayTallyView;
use crate::text::decimal;
use crate::text::has;
use crate::text::head;
use crate::text::replaced_first;
use crate::tool_laws::gives;
use crate::tool_laws::is_local;
use crate::tool_laws::lacks;
use crate::tool_runner::call_step;
use crate::tool_runner::next_runner_step;
use crate::tool_runner::pending_calls;
use crate::tool_runner::run_plan;
use crate::tool_runner::RunView;
use crate::tool_runner::RunnerStateView;
use crate::tool_runner::RunnerStepView;
use crate::tools::first_tool_step;
use crate::tools::next_tool_step;
use crate::tools::resolved;
use crate::tools::ToolStepView;

verus! {

/// The tool is done with an error.
pub open spec fn tells_error(s: ToolStepView, m: Seq<char>) -> bool {
    s == ToolStepView::Done(Err(m))
}

/// A tool that is not given all that it needs tells the first that is missing; a tool
/// that is not known tells so.
pub proof fn lemma_tools_ask_for(
    sandbox: Seq<char>,
    workdir: Seq<char>,
    name: Seq<char>,
    v: JsonView,
)
    ensures
        ({
            let s = first_tool_step(sandbox, workdir, name, v);
            &&& name == "read"@ && lacks(v, "path"@) ==> tells_error(
                s,
                "read: missing 'path' parameter"@,
            )
            &&& name == "write"@ && lacks(v, "path"@) ==> tells_error(
                s,
                "write: missing 'path' parameter"@,
            )
            &&& name == "write"@ && !lacks(v, "path"@) && lacks(v, "content"@) ==> tells_error(
                s,
                "write: missing 'content' parameter"@,
            )
            &&& name == "edit"@ && lacks(v, "path"@) ==> tells_error(
                s,
                "edit: missing 'path' parameter"@,
            )
            &&& name == "edit"@ && !lacks(v, "path"@) && lacks(v, "old_string"@) ==> tells_error(
                s,
                "edit: missing 'old_string' parameter"@,
            )
            &&& name == "edit"@ && !lacks(v, "path"@) && !lacks(v, "old_string"@) && lacks(
                v,
                "new_string"@,
            ) ==> tells_error(s, "edit: missing 'new_string' parameter"@)
            &&& name == "bash"@ && lacks(v, "command"@) ==> tells_error(
                s,
                "bash: missing 'command' parameter"@,
            )
            &&& name != "read"@ && name != "write"@ && name != "edit"@ && name != "bash"@
                ==> tells_error(s, "unknown tool: "@ + name)
            &&& name == "read"@ && !lacks(v, "path"@) ==> s is Send
            &&& name == "write"@ && !lacks(v, "path"@) && !lacks(v, "content"@) ==> s is Send
            &&& name == "edit"@ && !lacks(v, "path"@) && !lacks(v, "old_string"@) && !lacks(
                v,
                "new_string"@,
            ) ==> s is Send
            &&& name == "bash"@ && !lacks(v, "command"@) ==> s is Send
        }),
{
    lemma_names();
}

/// Files are asked for under the address of the sandbox, by their paths as these are
/// written in addresses.
pub proof fn lemma_where_files_are(
    sandbox: Seq<char>,
    workdir: Seq<char>,
    name: Seq<char>,
    v: JsonView,
    path: Seq<char>,
)
    requires
        name == "read"@ || name == "write"@ || name == "edit"@,
        gives(v, "path"@, path),
        first_tool_step(sandbox, workdir, name, v) is Send,
    ensures
        ({
            let c = first_tool_step(sandbox, workdir, name, v)->Send_0;
            let at = url_bytes(encode_utf8(resolved(workdir, path)));
            &&& is_local(sandbox) ==> c.url == sandbox + "/v1/fs/file?path="@ + at
            &&& !is_local(sandbox) ==> c.url == sandbox + "/files?path="@ + at
            &&& name != "write"@ ==> c.method == "GET"@ && c.headers.len() == 0 && c.body.len() == 0
            &&& name == "write"@ && is_local(sandbox) ==> c.method == "PUT"@ && c.headers == seq![
                ("content-type"@, "text/plain"@),
            ]
            &&& name == "write"@ && !is_local(sandbox) ==> c.method == "POST"@
        }),
{
    lemma_names();
    reveal_strlit("");
    assert(""@.len() == 0);
}

/// What a file tool tells: where it wrote or edited, or with which status and in which
/// words the sandbox refused.
pub proof fn lemma_what_files_tell(
    sandbox: Seq<char>,
    workdir: Seq<char>,
    v: JsonView,
    path: Seq<char>,
    content: Seq<char>,
    x: ReplyView,
)
    requires
        gives(v, "path"@, path),
        gives(v, "content"@, content),
    ensures
        ({
            let r = next_tool_step(first_tool_step(sandbox, workdir, "read"@, v)->Send_1, Ok(x));
            let w = next_tool_step(first_tool_step(sandbox, workdir, "write"@, v)->Send_1, Ok(x));
            let told = decimal(x.status as nat) + "): "@ + x.body;
            &&& x.status != 200 && is_local(sandbox) ==> said_with(r, "read failed (HTTP "@, told)
            &&& x.status != 200 && !is_local(sandbox) ==> said_with(
                r,
                "E2B read failed (HTTP "@,
                told,
            )
            &&& 200 <= x.status < 300 ==> w == ToolStepView::Done(
                Ok("File written: "@ + resolved(workdir, path)),
            )
            &&& !(200 <= x.status < 300) && is_local(sandbox) ==> said_with(
                w,
                "write failed (HTTP "@,
                told,
            )
            &&& !(200 <= x.status < 300) && !is_local(sandbox) ==> said_with(
                w,
                "E2B write failed (HTTP "@,
                told,
            )
        }),
{
    lemma_names();
    let n = decimal(x.status as nat);
    assert("read failed (HTTP "@ + n + "): "@ + x.body =~= "read failed (HTTP "@ + (n + "): "@
        + x.body));
    assert("E2B read failed (HTTP "@ + n + "): "@ + x.body =~= "E2B read failed (HTTP "@ + (n
        + "): "@ + x.body));
    assert("write failed (HTTP "@ + n + "): "@ + x.body =~= "write failed (HTTP "@ + (n + "): "@
        + x.body));
    assert("E2B write failed (HTTP "@ + n + "): "@ + x.body =~= "E2B write failed (HTTP "@ + (n
        + "): "@ + x.body));
}

/// The tool is done with an error in two parts.
pub open spec fn said_with(s: ToolStepView, what: Seq<char>, told: Seq<char>) -> bool {
    tells_error(s, what + told)
}

/// An edit writes the file with the first of the old text replaced, and tells which
/// file it edited; where the old text is not there, it tells so and writes nothing.
pub proof fn lemma_what_edits_tell(
    sandbox: Seq<char>,
    workdir: Seq<char>,
    v: JsonView,
    path: Seq<char>,
    old_string: Seq<char>,
    new_string: Seq<char>,
    x: ReplyView,
    y: ReplyView,
)
    requires
        gives(v, "path"@, path),
        gives(v, "old_string"@, old_string),
        gives(v, "new_string"@, new_string),
        x.status == 200,
    ensures
        ({
            let s = next_tool_step(first_tool_step(sandbox, workdir, "edit"@, v)->Send_1, Ok(x));
            let at = resolved(workdir, path);
            &&& !(has(x.body, old_string)) ==> tells_error(
                s,
                "edit: old_string not found in "@ + at,
            )
            &&& has(x.body, old_string) ==> s is Send
            &&& has(x.body, old_string) && is_local(sandbox) ==> s->Send_0.body == replaced_first(
                x.body,
                old_string,
                new_string,
            )
            &&& has(x.body, old_string) && 200 <= y.status < 300 ==> next_tool_step(
                s->Send_1,
                Ok(y),
            ) == ToolStepView::Done(Ok("File edited: "@ + at))
            &&& has(x.body, old_string) && !(200 <= y.status < 300) ==> next_tool_step(
                s->Send_1,
                Ok(y),
            ) is Done && next_tool_step(s->Send_1, Ok(y))->Done_0 is Err
        }),
{
    lemma_names();
}

/// A run goes by what the entity says, and by what stands for it where it says
/// nothing.
pub proof fn lemma_what_runs_go_by(ctx: ContextView, read: Result<Seq<JsonView>, Seq<char>>)
    ensures
        run_plan(ctx, read) matches Ok(p) ==> {
            &&& says_or(ctx, "conversation_file_id"@, p.conversation_file_id, Seq::empty())
            &&& says_or(ctx, "conversation"@, p.conversation, "[]"@)
            &&& set_or(ctx, "temper_api_url"@, p.temper_api_url, "http://localhost:3210"@)
        },
        !lacks(ctx.trigger_params, "pending_tool_calls"@) ==> gives(
            ctx.trigger_params,
            "pending_tool_calls"@,
            pending_calls(ctx),
        ),
        lacks(ctx.trigger_params, "pending_tool_calls"@) ==> pending_calls(ctx) == "[]"@,
        run_plan(ctx, read) is Err && read is Ok ==> run_plan(ctx, read)->Err_0
            == "sandbox_url is empty — cannot execute tools"@,
        run_plan(ctx, read) is Err && !lacks(ctx.fields(), "sandbox_url"@) && !gives(
            ctx.fields(),
            "sandbox_url"@,
            Seq::empty(),
        ) ==> read is Err && run_plan(ctx, read)->Err_0 == "failed to parse pending_tool_calls: "@
            + read->Err_0,
{
    reveal_strlit("");
    assert(""@ =~= Seq::<char>::empty());
    let u = ctx.fields().text_or("sandbox_url"@, ""@);
    if u.len() == 0 {
        assert(u =~= Seq::<char>::empty());
    }
}

/// A call without a name is one of no known tool, and one without input has none.
pub proof fn lemma_bare_calls(p: RunView, i: nat, v: JsonView, name: Seq<char>)
    requires
        i < p.calls.len(),
        p.calls[i as int].field("input"@) == Some(v) || (p.calls[i as int].field("input"@) is None
            && v == empty_object()),
        gives(p.calls[i as int], "name"@, name) || (lacks(p.calls[i as int], "name"@) && name
            == "unknown"@),
    ensures
        call_step(p, i) == first_tool_step(p.sandbox_url, p.workdir, name, v),
{
}

/// Where the files do not give or take a conversation, a run fails with what they say.
pub proof fn lemma_files_fail_runs(p: RunView, results: Seq<JsonView>, x: ReplyView, m: Seq<char>)
    ensures
        x.status != 200 ==> next_runner_step(RunnerStateView::Reading(p, results), Ok(x))
            == RunnerStepView::Failed(
            "TemperFS conversation read failed (HTTP "@ + decimal(x.status as nat) + "): "@ + head(
                x.body,
                200,
            ),
        ),
        x.status == 200 && json_read(x.body) is Err ==> next_runner_step(
            RunnerStateView::Reading(p, results),
            Ok(x),
        ) == RunnerStepView::Failed(
            "TemperFS conversation parse failed: "@ + json_read(x.body)->Err_0,
        ),
        next_runner_step(RunnerStateView::Reading(p, results), Err(m)) == RunnerStepView::Failed(
            "TemperFS conversation read failed: "@ + m,
        ),
        !(200 <= x.status < 300) ==> next_runner_step(RunnerStateView::Writing(results), Ok(x))
            == RunnerStepView::Failed(
            "TemperFS conversation write failed (HTTP "@ + decimal(x.status as nat) + "): "@ + head(
                x.body,
                200,
            ),
        ),
        next_runner_step(RunnerStateView::Writing(results), Err(m)) == RunnerStepView::Failed(
            "TemperFS conversation write failed: "@ + m,
        ),
{
}

/// A conversation is stored as the tenant's, by the system.
pub proof fn lemma_conversations_are_stored(
    api: Seq<char>,
    tenant: Seq<char>,
    file: Seq<char>,
    t: Seq<char>,
)
    ensures
        ({
            let c = crate::module::writing_call(api, tenant, file, t);
            &&& c.method == "PUT"@
            &&& c.url == api + "/tdata/Files('"@ + file + "')/$value"@
            &&& c.headers.contains(("x-tenant-id"@, tenant))
            &&& c.headers.contains(("x-temper-principal-kind"@, "system"@))
            &&& c.headers.contains(("content-type"@, "application/json"@))
            &&& c.body == "{\"messages\":"@ + t + "}"@
        }),
{
    let c = crate::module::writing_call(api, tenant, file, t);
    assert(c.headers[0] == ("content-type"@, "application/json"@));
    assert(c.headers[1] == ("x-tenant-id"@, tenant));
    assert(c.headers[2] == ("x-temper-principal-kind"@, "system"@));
}

/// A replay is planned with the spec of the run, else that of the trigger, and with the
/// actions of the trigger, else those of the run: a list, or a text that reads as one;
/// a text that does not has none, and anything else is missing.
pub proof fn lemma_what_is_replayed(ctx: ContextView, f: JsonView, v: Option<JsonView>)
    requires
        holds_run(ctx, f),
        ctx.trigger_params.field("TrajectoryActions"@) is Some ==> v
            == ctx.trigger_params.field("TrajectoryActions"@),
        ctx.trigger_params.field("TrajectoryActions"@) is None ==> v == f.field(
            "TrajectoryActions"@,
        ),
    ensures
        ({
            let g = ctx.trigger_params;
            let r = replay_plan(ctx);
            let sourced = !lacks(f, "SpecSource"@) || !lacks(g, "SpecSource"@);
            let listed = v is Some && (v->0 is List || v->0 is Text);
            &&& !sourced ==> r == Err::<ReplayPlanView, Seq<char>>(
                "entity_state.fields missing 'SpecSource'"@,
            )
            &&& sourced && !listed ==> r == Err::<ReplayPlanView, Seq<char>>(
                "trigger_params missing 'TrajectoryActions'"@,
            )
            &&& sourced && listed ==> {
                &&& r matches Ok(p)
                &&& !lacks(f, "SpecSource"@) ==> gives(f, "SpecSource"@, p.source)
                &&& lacks(f, "SpecSource"@) ==> gives(g, "SpecSource"@, p.source)
                &&& v->0 matches JsonView::List(s) ==> p.actions == s
                &&& v->0 matches JsonView::Text(t) ==> match json_read_list(t) {
                    Ok(s) => p.actions == s,
                    Err(_) => p.actions.len() == 0,
                }
                &&& !lacks(g, "initial_state"@) ==> gives(g, "initial_state"@, p.initial_state)
                &&& lacks(g, "initial_state"@) ==> p.initial_state == "Created"@
            }
        }),
        match replay_plan(ctx) {
            Err(m) => first_replay_step(ctx) == ReplayStepView::Failed(m),
            Ok(p) => if p.actions.len() == 0 {
                first_replay_step(ctx) is Done
            } else {
                first_replay_step(ctx) is Evaluate && first_replay_step(ctx)->Evaluate_1 == p
                    && first_replay_step(ctx)->Evaluate_2.state == p.initial_state
            },
        },
{
    assert(f == crate::proposer::run_fields(ctx));
}

/// An action is evaluated with its parameters in JSON, or with none.
pub proof fn lemma_parameters_are_replayed(p: ReplayPlanView, t: ReplayTallyView)
    requires
        t.attempted < p.actions.len(),
    ensures
        ({
            let a = p.actions[t.attempted as int];
            let e = step_at(p, t)->Evaluate_0;
            &&& a.field("params"@) is Some ==> e.params == rendered(a.field("params"@)->0)
            &&& a.field("params"@) is None ==> e.params == rendered(empty_object())
        }),
{
}

/// Trajectories come as a list, or as the text of a list or of one trajectory; the
/// parameter of that name counts before the result of a replay.
pub proof fn lemma_trajectories_are_read(g: JsonView, v: Option<JsonView>)
    requires
        g.field("trajectories"@) is Some ==> v == g.field("trajectories"@),
        g.field("trajectories"@) is None ==> v == g.field("ReplayResultJson"@),
    ensures
        ({
            let s = trajectories_in(trajectories_value(g), text_read(trajectories_value(g)));
            &&& v matches Some(JsonView::List(l)) ==> s == l
            &&& v matches Some(JsonView::Text(t)) ==> match json_read(t) {
                Ok(JsonView::List(l)) => s == l,
                Ok(x) => s == seq![x],
                Err(_) => s.len() == 0,
            }
            &&& !(v is Some && (v->0 is List || v->0 is Text)) ==> s.len() == 0
        }),
{
}

proof fn lemma_names()
    ensures
        "read"@ != "write"@,
        "read"@ != "edit"@,
        "read"@ != "bash"@,
        "write"@ != "edit"@,
        "write"@ != "bash"@,
        "edit"@ != "bash"@,
{
    reveal_strlit("read");
    reveal_strlit("write");
    reveal_strlit("edit");
    reveal_strlit("bash");
    assert("read"@.len() == 4);
    assert("write"@.len() == 5);
    assert("edit"@.len() == 4);
    assert("bash"@.len() == 4);
    assert("read"@[0] == 'r');
    assert("edit"@[0] == 'e');
    assert("bash"@[0] == 'b');
}

} // verus!
