//! The tool calls of one turn, one after the other, as steps.
use vstd::prelude::*;

use crate::json::empty_object;
use crate::json::Json;
use crate::json::JsonView;
use crate::json_text::json_read_list;
use crate::json_text::parse;
use crate::json_text::parse_list;
use crate::json_text::render;
use crate::json_text::rendered;
use crate::llm::reads_back;
use crate::llm_convert::array;
use crate::llm_convert::field_or;
use crate::llm_convert::get_or;
use crate::module::all_wf;
use crate::module::call_to_read;
use crate::module::call_to_write;
use crate::module::copy_values;
use crate::module::is_success;
use crate::module::make_message;
use crate::module::message;
use crate::module::messages_of;
use crate::module::reading_call;
use crate::module::result_view;
use crate::module::stored_messages;
use crate::module::writing_call;
use crate::module::CallView;
use crate::module::Callback;
use crate::module::CallbackView;
use crate::module::ContextView;
use crate::module::HttpCall;
use crate::module::HttpReply;
use crate::module::ModuleContext;
use crate::module::ReplyView;
use crate::order::views;
use crate::text::can_cut;
use crate::text::cat2;
use crate::text::cat4;
use crate::text::cuttable;
use crate::text::decimal;
use crate::text::decimal_text;
use crate::text::head;
use crate::text::head_text;
use crate::tools::execute_tool;
use crate::tools::first_tool_step;
use crate::tools::next_tool_step;
use crate::tools::resume_tool;
use crate::tools::ToolStep;
use crate::tools::ToolStepView;
use crate::tools::ToolWait;
use crate::tools::WaitView;

verus! {

/// What the tool calls of a turn go by.
pub struct RunView {
    /// Where the tools work.
    pub sandbox_url: Seq<char>,
    /// The directory in which they work.
    pub workdir: Seq<char>,
    /// The file with the conversation; empty where the entity holds it.
    pub conversation_file_id: Seq<char>,
    /// The conversation that the entity holds.
    pub conversation: Seq<char>,
    /// The address of the files.
    pub temper_api_url: Seq<char>,
    /// The tenant.
    pub tenant: Seq<char>,
    /// The tool calls.
    pub calls: Seq<JsonView>,
}

/// What the tool calls of a turn go by.
pub struct ToolRun {
    /// Where the tools work.
    pub sandbox_url: String,
    /// The directory in which they work.
    pub workdir: String,
    /// The file with the conversation; empty where the entity holds it.
    pub conversation_file_id: String,
    /// The conversation that the entity holds.
    pub conversation: String,
    /// The address of the files.
    pub temper_api_url: String,
    /// The tenant.
    pub tenant: String,
    /// The tool calls.
    pub calls: Vec<Json>,
}

impl View for ToolRun {
    type V = RunView;

    open spec fn view(&self) -> RunView {
        RunView {
            sandbox_url: self.sandbox_url@,
            workdir: self.workdir@,
            conversation_file_id: self.conversation_file_id@,
            conversation: self.conversation@,
            temper_api_url: self.temper_api_url@,
            tenant: self.tenant@,
            calls: views(self.calls@),
        }
    }
}

/// The run for a context, where the pending calls read as `calls`.
pub open spec fn run_with(ctx: ContextView, calls: Seq<JsonView>) -> RunView {
    let f = ctx.fields();
    RunView {
        sandbox_url: f.text_or("sandbox_url"@, ""@),
        workdir: f.text_or("workdir"@, "/workspace"@),
        conversation_file_id: f.text_or("conversation_file_id"@, ""@),
        conversation: f.text_or("conversation"@, "[]"@),
        temper_api_url: ctx.setting_or("temper_api_url"@, "http://localhost:3210"@),
        tenant: ctx.tenant,
        calls,
    }
}

/// The pending calls of a context, as JSON text.
pub open spec fn pending_calls(ctx: ContextView) -> Seq<char> {
    ctx.trigger_params.text_or("pending_tool_calls"@, "[]"@)
}

/// The run for a context, where the pending calls read as `read`, or why there
/// can be none.
pub open spec fn run_plan(
    ctx: ContextView,
    read: Result<Seq<JsonView>, Seq<char>>,
) -> Result<RunView, Seq<char>> {
    if ctx.fields().text_or("sandbox_url"@, ""@).len() == 0 {
        Err("sandbox_url is empty — cannot execute tools"@)
    } else {
        match read {
            Ok(calls) => Ok(run_with(ctx, calls)),
            Err(m) => Err("failed to parse pending_tool_calls: "@ + m),
        }
    }
}

/// What a list reads as, or what is wrong with it.
pub open spec fn list_view(r: Result<Vec<Json>, String>) -> Result<Seq<JsonView>, Seq<char>> {
    match r {
        Ok(v) => Ok(views(v@)),
        Err(m) => Err(m@),
    }
}

/// The run for a context, where the pending calls read as `read`.
pub fn plan_run(
    ctx: &ModuleContext,
    read: Result<Vec<Json>, String>,
) -> (r: Result<ToolRun, String>)
    ensures
        result_view(r) == run_plan(ctx@, list_view(read)),
        r is Ok && read is Ok ==> r->Ok_0.calls == read->Ok_0,
{
    let fields = ctx.fields();
    let sandbox_url = fields.text_or("sandbox_url", "");
    if sandbox_url.as_str().is_empty() {
        return Err("sandbox_url is empty — cannot execute tools".to_string());
    }
    match read {
        Ok(calls) => Ok(
            ToolRun {
                sandbox_url,
                workdir: fields.text_or("workdir", "/workspace"),
                conversation_file_id: fields.text_or("conversation_file_id", ""),
                conversation: fields.text_or("conversation", "[]"),
                temper_api_url: ctx.setting_or("temper_api_url", "http://localhost:3210"),
                tenant: ctx.tenant.clone(),
                calls,
            },
        ),
        Err(m) => Err(cat2("failed to parse pending_tool_calls: ", m.as_str())),
    }
}

/// A tool result, as the model is told it.
pub open spec fn result_block(call: JsonView, r: Result<Seq<char>, Seq<char>>) -> JsonView {
    let content = match r {
        Ok(t) => t,
        Err(m) => "Error: "@ + m,
    };
    empty_object().with("type"@, JsonView::Text("tool_result"@)).with(
        "tool_use_id"@,
        JsonView::Text(call.text_or("id"@, "unknown"@)),
    ).with("content"@, JsonView::Text(content)).with("is_error"@, JsonView::Bool(r is Err))
}

fn make_result_block(call: &Json, r: Result<String, String>) -> (b: Json)
    ensures
        b@ == result_block(call@, result_view(r)),
        b@.wf(),
{
    let (content, failed) = match r {
        Ok(t) => (t, false),
        Err(m) => (cat2("Error: ", m.as_str()), true),
    };
    Json::object().set("type", Json::of_text("tool_result")).set(
        "tool_use_id",
        Json::Text(call.text_or("id", "unknown")),
    ).set("content", Json::Text(content)).set("is_error", Json::Bool(failed))
}

/// Where the tool calls of a turn wait for a reply.
pub enum RunnerStateView {
    /// A tool is at work: its call, the results before it, and what it waits
    /// for.
    Tool(RunView, nat, Seq<JsonView>, WaitView),
    /// The conversation is read from the files: the results.
    Reading(RunView, Seq<JsonView>),
    /// The conversation is stored in the files: the results.
    Writing(Seq<JsonView>),
}

/// Where the tool calls of a turn wait for a reply.
pub enum RunnerState {
    /// A tool is at work: its call, the results before it, and what it waits
    /// for.
    Tool(ToolRun, usize, Vec<Json>, ToolWait),
    /// The conversation is read from the files: the results.
    Reading(ToolRun, Vec<Json>),
    /// The conversation is stored in the files: the results.
    Writing(Vec<Json>),
}

impl View for RunnerState {
    type V = RunnerStateView;

    open spec fn view(&self) -> RunnerStateView {
        match *self {
            RunnerState::Tool(p, i, d, w) => RunnerStateView::Tool(p@, i as nat, views(d@), w@),
            RunnerState::Reading(p, d) => RunnerStateView::Reading(p@, views(d@)),
            RunnerState::Writing(d) => RunnerStateView::Writing(views(d@)),
        }
    }
}

impl RunnerStateView {
    /// The call is one of the run's, and the results are well formed.
    pub open spec fn wf(self) -> bool {
        match self {
            RunnerStateView::Tool(p, i, d, _) => i < p.calls.len() && all_wf(d),
            RunnerStateView::Reading(_, d) => all_wf(d),
            RunnerStateView::Writing(d) => all_wf(d),
        }
    }
}

/// What the tool calls of a turn do next.
pub enum RunnerStepView {
    /// They send a call and wait for the reply.
    Send(CallView, RunnerStateView),
    /// They end with a callback.
    Done(CallbackView),
    /// They end with an error.
    Failed(Seq<char>),
}

/// What the tool calls of a turn do next.
pub enum RunnerStep {
    /// They send a call and wait for the reply.
    Send(HttpCall, RunnerState),
    /// They end with a callback.
    Done(Callback),
    /// They end with an error.
    Failed(String),
}

impl View for RunnerStep {
    type V = RunnerStepView;

    open spec fn view(&self) -> RunnerStepView {
        match *self {
            RunnerStep::Send(c, s) => RunnerStepView::Send(c@, s@),
            RunnerStep::Done(c) => RunnerStepView::Done(c@),
            RunnerStep::Failed(m) => RunnerStepView::Failed(m@),
        }
    }
}

/// The callback with the results; with the conversation, where the entity holds
/// it.
pub open spec fn results_callback(
    results: Seq<JsonView>,
    conversation: Option<Seq<char>>,
) -> CallbackView {
    let base = empty_object().with(
        "pending_tool_calls"@,
        JsonView::Text(rendered(JsonView::List(results))),
    );
    CallbackView {
        action: "HandleToolResults"@,
        params: match conversation {
            Some(c) => base.with("conversation"@, JsonView::Text(c)),
            None => base,
        },
    }
}

/// The conversation with the results as a message of the user.
pub open spec fn with_results(messages: Seq<JsonView>, results: Seq<JsonView>) -> Seq<char> {
    rendered(JsonView::List(messages.push(message("user"@, JsonView::List(results)))))
}

/// The conversation that the entity holds, where it reads as `read`.
pub open spec fn held_messages(read: Result<Seq<JsonView>, Seq<char>>) -> Seq<JsonView> {
    match read {
        Ok(v) => v,
        Err(_) => Seq::empty(),
    }
}

/// The step once all tools are done.
pub open spec fn after_tools(p: RunView, results: Seq<JsonView>) -> RunnerStepView {
    if p.conversation_file_id.len() > 0 {
        RunnerStepView::Send(
            reading_call(p.temper_api_url, p.tenant, p.conversation_file_id),
            RunnerStateView::Reading(p, results),
        )
    } else {
        let m = held_messages(json_read_list(p.conversation));
        RunnerStepView::Done(results_callback(results, Some(with_results(m, results))))
    }
}

/// The first step of the call at position `i`.
pub open spec fn call_step(p: RunView, i: nat) -> ToolStepView {
    let call = p.calls[i as int];
    first_tool_step(
        p.sandbox_url,
        p.workdir,
        call.text_or("name"@, "unknown"@),
        field_or(call, "input"@, empty_object()),
    )
}

/// The step from the call at position `i` on. A call that comes to its result at
/// once is followed by the next.
pub open spec fn proceed(p: RunView, i: nat, results: Seq<JsonView>) -> RunnerStepView
    decreases p.calls.len() - i,
{
    if i >= p.calls.len() {
        after_tools(p, results)
    } else {
        match call_step(p, i) {
            ToolStepView::Send(c, w) => RunnerStepView::Send(
                c,
                RunnerStateView::Tool(p, i, results, w),
            ),
            ToolStepView::Done(r) => proceed(
                p,
                i + 1,
                results.push(result_block(p.calls[i as int], r)),
            ),
        }
    }
}

/// What a refusal by the files is told as.
pub open spec fn files_refusal(what: Seq<char>, x: ReplyView) -> Seq<char> {
    what + decimal(x.status as nat) + "): "@ + head(x.body, 200)
}

/// The messages in a reply from the files, where its body reads as `read`.
pub open spec fn read_messages(
    r: Result<ReplyView, Seq<char>>,
    read: Result<JsonView, Seq<char>>,
) -> Result<Seq<JsonView>, Seq<char>> {
    match r {
        Ok(x) => if x.status != 200 {
            Err(files_refusal("TemperFS conversation read failed (HTTP "@, x))
        } else {
            match read {
                Ok(v) => Ok(stored_messages(v)),
                Err(m) => Err("TemperFS conversation parse failed: "@ + m),
            }
        },
        Err(m) => Err("TemperFS conversation read failed: "@ + m),
    }
}

/// The step after a reply.
pub open spec fn next_runner_step(
    s: RunnerStateView,
    r: Result<ReplyView, Seq<char>>,
) -> RunnerStepView {
    match s {
        RunnerStateView::Tool(p, i, results, w) => match next_tool_step(w, r) {
            ToolStepView::Send(c, w) => RunnerStepView::Send(
                c,
                RunnerStateView::Tool(p, i, results, w),
            ),
            ToolStepView::Done(x) => proceed(
                p,
                i + 1,
                results.push(result_block(p.calls[i as int], x)),
            ),
        },
        RunnerStateView::Reading(p, results) => match read_messages(
            r,
            crate::tools::reply_read(r),
        ) {
            Ok(m) => RunnerStepView::Send(
                writing_call(
                    p.temper_api_url,
                    p.tenant,
                    p.conversation_file_id,
                    with_results(m, results),
                ),
                RunnerStateView::Writing(results),
            ),
            Err(m) => RunnerStepView::Failed(m),
        },
        RunnerStateView::Writing(results) => match r {
            Ok(x) => if is_success(x.status) {
                RunnerStepView::Done(results_callback(results, None))
            } else {
                RunnerStepView::Failed(
                    files_refusal("TemperFS conversation write failed (HTTP "@, x),
                )
            },
            Err(m) => RunnerStepView::Failed("TemperFS conversation write failed: "@ + m),
        },
    }
}

/// Where the first bytes of a reply are told, no character lies across the cut.
pub open spec fn replyable(s: RunnerStateView, r: Result<ReplyView, Seq<char>>) -> bool {
    match s {
        RunnerStateView::Tool(_, _, _, _) => true,
        RunnerStateView::Reading(_, _) => r matches Ok(x) ==> x.status != 200 ==> cuttable(
            x.body,
            200,
        ),
        RunnerStateView::Writing(_) => r matches Ok(x) ==> !is_success(x.status) ==> cuttable(
            x.body,
            200,
        ),
    }
}

/// Whether a run can go on from a reply: where the first bytes of its body are
/// told, no character lies across the cut.
pub fn can_go_on(state: &RunnerState, reply: &Result<HttpReply, String>) -> (r: bool)
    ensures
        r == replyable(state@, result_view(*reply)),
{
    match state {
        RunnerState::Tool(_, _, _, _) => true,
        RunnerState::Reading(_, _) => match reply {
            Ok(x) => x.status == 200 || can_cut(x.body.as_str(), 200),
            Err(_) => true,
        },
        RunnerState::Writing(_) => match reply {
            Ok(x) => (200 <= x.status && x.status < 300) || can_cut(x.body.as_str(), 200),
            Err(_) => true,
        },
    }
}

fn make_results_callback(results: Vec<Json>, conversation: Option<String>) -> (r: Callback)
    requires
        all_wf(views(results@)),
    ensures
        r@ == results_callback(views(results@), crate::order::opt_view(conversation)),
{
    let list = array(results);
    let base = Json::object().set("pending_tool_calls", Json::Text(render(&list)));
    Callback {
        action: "HandleToolResults".to_string(),
        params: match conversation {
            Some(c) => base.set("conversation", Json::Text(c)),
            None => base,
        },
    }
}

/// The conversation with the results as a message of the user, as text. A turn
/// that holds this text goes on from these messages, where they are plain.
pub fn append_results(messages: Vec<Json>, results: &Vec<Json>) -> (r: String)
    requires
        all_wf(views(messages@)),
        all_wf(views(results@)),
    ensures
        r@ == with_results(views(messages@), views(results@)),
        reads_back(
            views(messages@).push(message("user"@, JsonView::List(views(results@)))),
        ),
{
    let ghost was = views(messages@);
    let mut all = messages;
    let said = make_message("user", array(copy_values(results)));
    let ghost sv = said@;
    all.push(said);
    assert(views(all@) =~= was.push(sv));
    let whole = array(all);
    render(&whole)
}

fn finish_tools(p: ToolRun, results: Vec<Json>) -> (r: RunnerStep)
    requires
        all_wf(views(results@)),
    ensures
        r@ == after_tools(p@, views(results@)),
        r@ is Send ==> r@->Send_1.wf(),
{
    if !p.conversation_file_id.as_str().is_empty() {
        let call = call_to_read(
            p.temper_api_url.as_str(),
            p.tenant.as_str(),
            p.conversation_file_id.as_str(),
        );
        return RunnerStep::Send(call, RunnerState::Reading(p, results));
    }
    let m = match parse_list(p.conversation.as_str()) {
        Ok(v) => v,
        Err(_) => {
            let none: Vec<Json> = Vec::new();
            assert(views(none@) =~= Seq::empty());
            none
        },
    };
    let text = append_results(m, &results);
    RunnerStep::Done(make_results_callback(results, Some(text)))
}

fn run_calls(p: ToolRun, from: usize, before: Vec<Json>) -> (r: RunnerStep)
    requires
        from <= p@.calls.len(),
        all_wf(views(before@)),
    ensures
        r@ == proceed(p@, from as nat, views(before@)),
        r@ is Send ==> r@->Send_1.wf(),
{
    let ghost start = proceed(p@, from as nat, views(before@));
    let mut results = before;
    let mut i: usize = from;
    while i < p.calls.len()
        invariant
            i <= p.calls@.len(),
            all_wf(views(results@)),
            start == proceed(p@, from as nat, views(before@)),
            start == proceed(p@, i as nat, views(results@)),
        decreases p.calls@.len() - i,
    {
        let call = &p.calls[i];
        assert(p@.calls[i as int] == p.calls@[i as int]@);
        let name = call.text_or("name", "unknown");
        let input = get_or(call, "input", Json::object());
        match execute_tool(p.sandbox_url.as_str(), p.workdir.as_str(), name.as_str(), &input) {
            ToolStep::Send(c, w) => {
                return RunnerStep::Send(c, RunnerState::Tool(p, i, results, w));
            },
            ToolStep::Done(x) => {
                let ghost was = views(results@);
                let b = make_result_block(call, x);
                let ghost bv = b@;
                results.push(b);
                assert(views(results@) =~= was.push(bv));
            },
        }
        i = i + 1;
    }
    finish_tools(p, results)
}

/// The first step of the tool calls of a turn, where the pending calls read as
/// `read`.
pub fn start_run(ctx: &ModuleContext, read: Result<Vec<Json>, String>) -> (r: RunnerStep)
    ensures
        match run_plan(ctx@, list_view(read)) {
            Ok(p) => r@ == proceed(p, 0, Seq::empty()),
            Err(m) => r@ == RunnerStepView::Failed(m),
        },
        r@ is Send ==> r@->Send_1.wf(),
{
    match plan_run(ctx, read) {
        Ok(p) => {
            let none: Vec<Json> = Vec::new();
            assert(views(none@) =~= Seq::empty());
            run_calls(p, 0, none)
        },
        Err(m) => RunnerStep::Failed(m),
    }
}

/// The first step of the tool calls of a turn.
pub fn start_tools(ctx: &ModuleContext) -> (r: RunnerStep)
    ensures
        match run_plan(ctx@, json_read_list(pending_calls(ctx@))) {
            Ok(p) => r@ == proceed(p, 0, Seq::empty()),
            Err(m) => r@ == RunnerStepView::Failed(m),
        },
        r@ is Send ==> r@->Send_1.wf(),
{
    let text = ctx.trigger_params.text_or("pending_tool_calls", "[]");
    let read = parse_list(text.as_str());
    start_run(ctx, read)
}

fn tell(what: &str, x: &HttpReply) -> (r: String)
    requires
        cuttable(x.body@, 200),
    ensures
        r@ == files_refusal(what@, x@),
{
    let code = decimal_text(x.status as u64);
    let h = head_text(x.body.as_str(), 200);
    cat4(what, code.as_str(), "): ", h.as_str())
}

/// The step after a reply.
pub fn resume_run(state: RunnerState, reply: Result<HttpReply, String>) -> (r: RunnerStep)
    requires
        state@.wf(),
        replyable(state@, result_view(reply)),
    ensures
        r@ == next_runner_step(state@, result_view(reply)),
        r@ is Send ==> r@->Send_1.wf(),
{
    match state {
        RunnerState::Tool(p, i, results, w) => match resume_tool(w, reply) {
            ToolStep::Send(c, w) => RunnerStep::Send(c, RunnerState::Tool(p, i, results, w)),
            ToolStep::Done(x) => {
                let mut results = results;
                let ghost was = views(results@);
                assert(p@.calls[i as int] == p.calls@[i as int]@);
                let b = make_result_block(&p.calls[i], x);
                let ghost bv = b@;
                results.push(b);
                assert(views(results@) =~= was.push(bv));
                assert(i < p.calls.len());
                run_calls(p, i + 1, results)
            },
        },
        RunnerState::Reading(p, results) => match reply {
            Ok(x) => {
                if x.status != 200 {
                    return RunnerStep::Failed(
                        tell("TemperFS conversation read failed (HTTP ", &x),
                    );
                }
                match parse(x.body.as_str()) {
                    Ok(v) => {
                        let m = messages_of(&v);
                        let text = append_results(m, &results);
                        let call = call_to_write(
                            p.temper_api_url.as_str(),
                            p.tenant.as_str(),
                            p.conversation_file_id.as_str(),
                            text.as_str(),
                        );
                        RunnerStep::Send(call, RunnerState::Writing(results))
                    },
                    Err(m) => RunnerStep::Failed(
                        cat2("TemperFS conversation parse failed: ", m.as_str()),
                    ),
                }
            },
            Err(m) => RunnerStep::Failed(cat2("TemperFS conversation read failed: ", m.as_str())),
        },
        RunnerState::Writing(results) => match reply {
            Ok(x) => {
                if x.status >= 200 && x.status < 300 {
                    RunnerStep::Done(make_results_callback(results, None))
                } else {
                    RunnerStep::Failed(tell("TemperFS conversation write failed (HTTP ", &x))
                }
            },
            Err(m) => RunnerStep::Failed(
                cat2("TemperFS conversation write failed: ", m.as_str()),
            ),
        },
    }
}

/// Every call that came before has its result, and results come in the order of
/// the calls: while the call at position `i` is at work there are `i` results,
/// and once all are done there are as many as calls.
pub proof fn lemma_one_result_each(p: RunView, i: nat, results: Seq<JsonView>)
    requires
        results.len() == i,
        i <= p.calls.len(),
    ensures
        match proceed(p, i, results) {
            RunnerStepView::Send(_, RunnerStateView::Tool(q, j, d, _)) => q == p && d.len() == j
                && i <= j < p.calls.len(),
            RunnerStepView::Send(_, RunnerStateView::Reading(q, d)) => q == p && d.len()
                == p.calls.len(),
            RunnerStepView::Send(_, RunnerStateView::Writing(_)) => false,
            RunnerStepView::Done(_) => p.conversation_file_id.len() == 0,
            RunnerStepView::Failed(_) => false,
        },
    decreases p.calls.len() - i,
{
    if i < p.calls.len() {
        if let ToolStepView::Done(r) = call_step(p, i) {
            lemma_one_result_each(p, i + 1, results.push(result_block(p.calls[i as int], r)));
        }
    }
}

} // verus!
