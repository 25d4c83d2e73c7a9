//! What the tools of an agent do to the files of its sandbox, and what they tell.
use vstd::prelude::*;
use vstd::utf8::encode_utf8;

use crate::json::empty_object;
use crate::json::lemma_with_keeps;
use crate::json::lemma_with_reads;
use crate::json::JsonView;
use crate::json_text::json_read;
use crate::json_text::rendered;
use crate::module::CallView;
use crate::module::ReplyView;
use crate::numerals::url_bytes;
use crate::text::decimal;
use crate::text::has;
use crate::text::lemma_find_at;
use crate::text::occurs_at;
use crate::text::signed;
use crate::text::starts;
use crate::tool_runner::after_tools;
use crate::tool_runner::call_step;
use crate::tool_runner::next_runner_step;
use crate::tool_runner::proceed;
use crate::tool_runner::result_block;
use crate::tool_runner::run_plan;
use crate::tool_runner::RunView;
use crate::tool_runner::RunnerStateView;
use crate::tool_runner::RunnerStepView;
use crate::tools::command_output;
use crate::tools::first_tool_step;
use crate::tools::next_tool_step;
use crate::tools::resolved;
use crate::tools::ToolStepView;

verus! {

/// The field holds the text.
pub open spec fn gives(v: JsonView, key: Seq<char>, t: Seq<char>) -> bool {
    v.field(key) == Some(JsonView::Text(t))
}

/// The field holds no text.
pub open spec fn lacks(v: JsonView, key: Seq<char>) -> bool {
    !(v.field(key) is Some && v.field(key)->0 is Text)
}

/// The sandbox is none of E2B.
pub open spec fn is_local(sandbox: Seq<char>) -> bool {
    !(has(sandbox, "e2b.app"@) || has(sandbox, "e2b.dev"@))
}

/// A sandbox that keeps under an address what is put there, and gives it back when
/// it is asked for: what it answers to a call.
pub open spec fn answered(files: Map<Seq<char>, Seq<char>>, c: CallView) -> ReplyView {
    if c.method == "GET"@ && files.contains_key(c.url) {
        ReplyView { status: 200, body: files[c.url] }
    } else if c.method == "PUT"@ {
        ReplyView { status: 200, body: Seq::empty() }
    } else {
        ReplyView { status: 404, body: Seq::empty() }
    }
}

/// What such a sandbox keeps after a call.
pub open spec fn kept(
    files: Map<Seq<char>, Seq<char>>,
    c: CallView,
) -> Map<Seq<char>, Seq<char>> {
    if c.method == "PUT"@ {
        files.insert(c.url, c.body)
    } else {
        files
    }
}

/// What a tool comes to in such a sandbox within `n` calls, and what the sandbox
/// keeps then.
pub open spec fn used(
    files: Map<Seq<char>, Seq<char>>,
    s: ToolStepView,
    n: nat,
) -> (Map<Seq<char>, Seq<char>>, Option<Result<Seq<char>, Seq<char>>>)
    decreases n,
{
    match s {
        ToolStepView::Done(r) => (files, Some(r)),
        ToolStepView::Send(c, w) => if n == 0 {
            (files, None)
        } else {
            used(kept(files, c), next_tool_step(w, Ok(answered(files, c))), (n - 1) as nat)
        },
    }
}

proof fn lemma_tool_names()
    ensures
        "read"@ != "write"@,
        "read"@ != "edit"@,
        "read"@ != "bash"@,
        "write"@ != "edit"@,
        "write"@ != "bash"@,
        "edit"@ != "bash"@,
{
    reveal_strlit("read");
    reveal_strlit("write");
    reveal_strlit("edit");
    reveal_strlit("bash");
    assert("read"@.len() == 4);
    assert("write"@.len() == 5);
    assert("edit"@.len() == 4);
    assert("bash"@.len() == 4);
    assert("read"@[0] == 'r');
    assert("edit"@[0] == 'e');
    assert("bash"@[0] == 'b');
}

proof fn lemma_methods_differ()
    ensures
        "GET"@ != "PUT"@,
        "GET"@ != "POST"@,
        "PUT"@ != "POST"@,
{
    reveal_strlit("GET");
    reveal_strlit("PUT");
    reveal_strlit("POST");
    assert("GET"@.len() == 3);
    assert("PUT"@.len() == 3);
    assert("POST"@.len() == 4);
    assert("GET"@[0] == 'G');
    assert("PUT"@[0] == 'P');
}

/// What is written to a file is what is read from it after, under the same path,
/// and no other file changes.
pub proof fn lemma_write_then_read(
    files: Map<Seq<char>, Seq<char>>,
    sandbox: Seq<char>,
    workdir: Seq<char>,
    write: JsonView,
    read: JsonView,
    path: Seq<char>,
    content: Seq<char>,
)
    requires
        is_local(sandbox),
        gives(write, "path"@, path),
        gives(write, "content"@, content),
        gives(read, "path"@, path),
    ensures
        ({
            let (after, wrote) = used(files, first_tool_step(sandbox, workdir, "write"@, write), 1);
            let (end, seen) = used(after, first_tool_step(sandbox, workdir, "read"@, read), 1);
            let c = first_tool_step(sandbox, workdir, "write"@, write)->Send_0;
            &&& wrote is Some && wrote->0 is Ok
            &&& seen == Some(Ok::<Seq<char>, Seq<char>>(content))
            &&& after == files.insert(c.url, content)
            &&& end == after
            &&& c.headers == seq![("content-type"@, "text/plain"@)]
        }),
{
    lemma_tool_names();
    lemma_methods_differ();
    reveal_with_fuel(used, 3);
    let s = first_tool_step(sandbox, workdir, "write"@, write);
    let r = first_tool_step(sandbox, workdir, "read"@, read);
    assert(s is Send && r is Send);
    assert(s->Send_0.url == r->Send_0.url);
    let after = kept(files, s->Send_0);
    assert(after.contains_key(r->Send_0.url));
}

/// To edit a file is to replace the first place where the old text stands in it,
/// and nothing else; where it stands nowhere, the file stays and that is told.
pub proof fn lemma_edit(
    files: Map<Seq<char>, Seq<char>>,
    sandbox: Seq<char>,
    workdir: Seq<char>,
    edit: JsonView,
    path: Seq<char>,
    old_text: Seq<char>,
    new_text: Seq<char>,
)
    requires
        is_local(sandbox),
        gives(edit, "path"@, path),
        gives(edit, "old_string"@, old_text),
        gives(edit, "new_string"@, new_text),
        first_tool_step(sandbox, workdir, "edit"@, edit) is Send,
        files.contains_key(first_tool_step(sandbox, workdir, "edit"@, edit)->Send_0.url),
    ensures
        ({
            let s = first_tool_step(sandbox, workdir, "edit"@, edit);
            let url = s->Send_0.url;
            let was = files[url];
            let (after, told) = used(files, s, 2);
            &&& told is Some
            &&& !(has(was, old_text)) ==> after == files && told->0 is Err
            &&& has(was, old_text) ==> told->0 is Ok && exists|i: int|
                #![trigger occurs_at(was, old_text, i)]
                occurs_at(was, old_text, i) && (forall|j: int|
                    0 <= j < i ==> !#[trigger] occurs_at(was, old_text, j)) && after
                    == files.insert(
                    url,
                    was.take(i) + new_text + was.skip(i + old_text.len()),
                )
        }),
{
    lemma_tool_names();
    lemma_methods_differ();
    reveal_with_fuel(used, 4);
    let s = first_tool_step(sandbox, workdir, "edit"@, edit);
    let url = s->Send_0.url;
    let was = files[url];
    assert(kept(files, s->Send_0) == files);
    if has(was, old_text) {
        lemma_find_at(was, old_text, 0);
        let i = crate::text::find_at(was, old_text, 0)->0;
        let next = next_tool_step(s->Send_1, Ok(answered(files, s->Send_0)));
        assert(next is Send);
        assert(next->Send_0.url == url);
        assert(was.subrange(0, i) =~= was.take(i));
        assert(was.subrange(i + old_text.len(), was.len() as int) =~= was.skip(
            i + old_text.len(),
        ));
        assert(occurs_at(was, old_text, i));
    }
}

/// To a sandbox of E2B a file is sent as a form that holds its content, under an
/// address of its own.
pub proof fn lemma_uploads(
    sandbox: Seq<char>,
    workdir: Seq<char>,
    write: JsonView,
    path: Seq<char>,
    content: Seq<char>,
)
    requires
        !is_local(sandbox),
        gives(write, "path"@, path),
        gives(write, "content"@, content),
    ensures
        ({
            let s = first_tool_step(sandbox, workdir, "write"@, write);
            let c = s->Send_0;
            &&& s is Send
            &&& c.method == "POST"@
            &&& c.url == sandbox + "/files?path="@ + url_bytes(
                encode_utf8(resolved(workdir, path)),
            )
            &&& has(c.body, content)
            &&& starts(c.body, "------TemperWasmBoundary7MA4YWxkTrZu0gW\r\n"@)
            &&& c.headers == seq![
                (
                    "content-type"@,
                    "multipart/form-data; boundary="@ + "----TemperWasmBoundary7MA4YWxkTrZu0gW"@,
                ),
            ]
        }),
{
    lemma_tool_names();
    let s = first_tool_step(sandbox, workdir, "write"@, write);
    let c = s->Send_0;
    let p = resolved(workdir, path);
    reveal_strlit("--");
    reveal_strlit("----TemperWasmBoundary7MA4YWxkTrZu0gW");
    reveal_strlit("------TemperWasmBoundary7MA4YWxkTrZu0gW\r\n");
    reveal_strlit("\r\nContent-Disposition: form-data; name=\"file\"; filename=\"");
    let first = "------TemperWasmBoundary7MA4YWxkTrZu0gW\r\n"@;
    assert(first.len() == 41);
    assert(c.body.subrange(0, first.len() as int) =~= first);
    let before = "--"@ + crate::tools::boundary()
        + "\r\nContent-Disposition: form-data; name=\"file\"; filename=\""@ + p
        + "\"\r\nContent-Type: application/octet-stream\r\n\r\n"@;
    let n = before.len() as int;
    assert(c.body.subrange(n, n + content.len()) =~= content);
    assert(occurs_at(c.body, content, n));
}

/// A path from the root stands for itself; any other stands behind the working
/// directory, with one slash between them, whatever slashes that ends with.
pub proof fn lemma_paths(workdir: Seq<char>, path: Seq<char>)
    ensures
        path.len() > 0 && path[0] == '/' ==> resolved(workdir, path) == path,
        !(path.len() > 0 && path[0] == '/') ==> exists|n: int|
            0 <= n <= workdir.len() && #[trigger] resolved(workdir, path) == workdir.take(n)
                + seq!['/'] + path && (n > 0 ==> workdir[n - 1] != '/') && forall|i: int|
                n <= i < workdir.len() ==> #[trigger] workdir[i] == '/',
{
    reveal_strlit("/");
    assert("/"@ =~= seq!['/']);
    if path.len() > 0 && path[0] == '/' {
        assert(path.subrange(0, 1) =~= "/"@);
    } else {
        if starts(path, "/"@) {
            assert(path.subrange(0, 1)[0] == '/');
        }
        lemma_slashes(workdir);
        let t = crate::text::trim_end(workdir, crate::text::only('/'));
        let n = t.len() as int;
        assert(resolved(workdir, path) == workdir.take(n) + seq!['/'] + path);
    }
}

proof fn lemma_slashes(s: Seq<char>)
    ensures
        ({
            let t = crate::text::trim_end(s, crate::text::only('/'));
            &&& t.len() <= s.len()
            &&& t == s.take(t.len() as int)
            &&& (t.len() > 0 ==> s[t.len() - 1] != '/')
            &&& forall|i: int| t.len() <= i < s.len() ==> #[trigger] s[i] == '/'
        }),
    decreases s.len(),
{
    let t = crate::text::trim_end(s, crate::text::only('/'));
    if s.len() > 0 && s.last() == '/' {
        lemma_slashes(s.drop_last());
        let front = s.drop_last();
        assert(t =~= s.take(t.len() as int));
        assert forall|i: int| t.len() <= i < s.len() implies #[trigger] s[i] == '/' by {
            if i < front.len() {
                assert(front[i] == s[i]);
            }
        }
        if t.len() > 0 {
            assert(front[t.len() - 1] == s[t.len() - 1]);
        }
    } else {
        assert(t =~= s.take(t.len() as int));
    }
}

/// A command is run in the working directory, as it is given.
pub proof fn lemma_commands_are_run(
    sandbox: Seq<char>,
    workdir: Seq<char>,
    input: JsonView,
    command: Seq<char>,
)
    requires
        gives(input, "command"@, command),
    ensures
        ({
            let s = first_tool_step(sandbox, workdir, "bash"@, input);
            let c = s->Send_0;
            &&& s is Send
            &&& c.method == "POST"@
            &&& c.url == sandbox + "/v1/processes/run"@
            &&& exists|v: JsonView|
                c.body == #[trigger] rendered(v) && gives(v, "command"@, command) && gives(
                    v,
                    "workdir"@,
                    workdir,
                )
        }),
{
    broadcast use {lemma_with_reads, lemma_with_keeps};

    lemma_tool_names();
    reveal_strlit("command");
    reveal_strlit("workdir");
    assert("command"@[0] == 'c');
    assert("workdir"@[0] == 'w');
    let v = empty_object().with("command"@, JsonView::Text(command)).with(
        "workdir"@,
        JsonView::Text(workdir),
    );
    let s = first_tool_step(sandbox, workdir, "bash"@, input);
    assert(s->Send_0.body == rendered(v));
    assert(gives(v, "command"@, command));
    assert(gives(v, "workdir"@, workdir));
}

/// The text in a field, or the empty one.
pub open spec fn text_in(v: JsonView, key: Seq<char>) -> Seq<char> {
    if v.field(key) is Some && v.field(key)->0 is Text {
        v.field(key)->0->Text_0
    } else {
        Seq::empty()
    }
}

/// The command says that it ended well.
pub open spec fn ended_well(v: JsonView) -> bool {
    v.field("exit_code"@) == Some(JsonView::Unsigned(0))
}

/// What a command puts out is told as it is; what it puts out as errors stands
/// behind it, and where it did not end well, its exit code is told last.
pub proof fn lemma_output(v: JsonView)
    requires
        v.wf(),
    ensures
        ({
            let stdout = text_in(v, "stdout"@);
            let stderr = text_in(v, "stderr"@);
            let out = if stderr.len() == 0 {
                stdout
            } else if stdout.len() == 0 {
                "STDERR: "@ + stderr
            } else {
                stdout + "\nSTDERR: "@ + stderr
            };
            &&& ended_well(v) ==> command_output(v) == out
            &&& (v.field("exit_code"@) matches Some(JsonView::Unsigned(n)) ==> 0 < n <= i64::MAX
                ==> command_output(v) == out + "\n(exit code: "@ + decimal(n as nat) + ")"@)
            &&& (v.field("exit_code"@) matches Some(JsonView::Negative(n)) ==> command_output(v)
                == out + "\n(exit code: "@ + signed(n as int) + ")"@)
            &&& v.field("exit_code"@) is None ==> command_output(v) == out + "\n(exit code: "@
                + signed(-1) + ")"@
        }),
{
    crate::module::lemma_field_wf(v, "exit_code"@);
    reveal_strlit("");
    assert(""@ =~= Seq::<char>::empty());
    reveal_strlit("\n");
    reveal_strlit("STDERR: ");
    reveal_strlit("\nSTDERR: ");
    assert("\nSTDERR: "@ =~= "\n"@ + "STDERR: "@);
    let stdout = text_in(v, "stdout"@);
    let stderr = text_in(v, "stderr"@);
    assert(stdout + "\nSTDERR: "@ + stderr =~= stdout + "\n"@ + "STDERR: "@ + stderr);
}

/// What comes of a command: its output, where the sandbox ran it, in words where
/// it is no JSON; and what went wrong, where it did not.
pub proof fn lemma_command_results(
    sandbox: Seq<char>,
    workdir: Seq<char>,
    input: JsonView,
    x: ReplyView,
)
    requires
        !lacks(input, "command"@),
    ensures
        ({
            let w = first_tool_step(sandbox, workdir, "bash"@, input)->Send_1;
            let end = next_tool_step(w, Ok(x));
            &&& 200 <= x.status < 300 ==> end == ToolStepView::Done(
                match json_read(x.body) {
                    Ok(v) => Ok(command_output(v)),
                    Err(_) => Ok(x.body),
                },
            )
            &&& !(200 <= x.status < 300) && is_local(sandbox) ==> end == ToolStepView::Done(
                Err("bash failed (HTTP "@ + decimal(x.status as nat) + "): "@ + x.body),
            )
            &&& !(200 <= x.status < 300) && !is_local(sandbox) ==> end is Done && end->Done_0 is Err
                && has(
                end->Done_0->Err_0,
                "bash failed (HTTP "@ + decimal(x.status as nat) + "): "@ + x.body,
            )
        }),
{
    lemma_tool_names();
    let w = first_tool_step(sandbox, workdir, "bash"@, input)->Send_1;
    let end = next_tool_step(w, Ok(x));
    let m = "bash failed (HTTP "@ + decimal(x.status as nat) + "): "@ + x.body;
    if !(200 <= x.status < 300) && !is_local(sandbox) {
        let before = "E2B bash not yet supported via Connect protocol — process execution requires host_grpc_call or custom template. Underlying error: "@;
        let all = end->Done_0->Err_0;
        assert(all == before + m);
        let n = before.len() as int;
        assert(all.subrange(n, n + m.len()) =~= m);
        assert(occurs_at(all, m, n));
    }
}

/// A file is read only where the sandbox answers with status 200, and written
/// where it answers with any success; what else it answers is told.
pub proof fn lemma_file_results(
    sandbox: Seq<char>,
    workdir: Seq<char>,
    name: Seq<char>,
    input: JsonView,
    x: ReplyView,
)
    requires
        name == "read"@ || name == "write"@,
        first_tool_step(sandbox, workdir, name, input) is Send,
    ensures
        ({
            let w = first_tool_step(sandbox, workdir, name, input)->Send_1;
            let end = next_tool_step(w, Ok(x));
            let told = decimal(x.status as nat) + "): "@ + x.body;
            &&& end is Done
            &&& name == "read"@ ==> if x.status == 200 {
                end->Done_0 == Ok::<Seq<char>, Seq<char>>(x.body)
            } else {
                end->Done_0 is Err && has(end->Done_0->Err_0, told)
            }
            &&& name == "write"@ ==> if 200 <= x.status < 300 {
                end->Done_0 is Ok
            } else {
                end->Done_0 is Err && has(end->Done_0->Err_0, told)
            }
            &&& forall|m: Seq<char>| #[trigger]
                next_tool_step(w, Err(m)) == ToolStepView::Done(Err(m))
        }),
{
    lemma_tool_names();
    let w = first_tool_step(sandbox, workdir, name, input)->Send_1;
    let end = next_tool_step(w, Ok(x));
    let told = decimal(x.status as nat) + "): "@ + x.body;
    if end->Done_0 is Err {
        let all = end->Done_0->Err_0;
        let n = all.len() - told.len();
        assert(all.subrange(n, n + told.len()) =~= told);
        assert(occurs_at(all, told, n));
    }
}

proof fn lemma_result_keys()
    ensures
        "type"@ != "tool_use_id"@,
        "type"@ != "content"@,
        "type"@ != "is_error"@,
        "tool_use_id"@ != "content"@,
        "tool_use_id"@ != "is_error"@,
        "content"@ != "is_error"@,
{
    reveal_strlit("type");
    reveal_strlit("tool_use_id");
    reveal_strlit("content");
    reveal_strlit("is_error");
    assert("type"@.len() == 4);
    assert("tool_use_id"@.len() == 11);
    assert("content"@.len() == 7);
    assert("is_error"@.len() == 8);
}

/// The result of a call is told under the name of the call, as an error exactly
/// where there is one.
pub proof fn lemma_result_is_told(call: JsonView, r: Result<Seq<char>, Seq<char>>)
    ensures
        ({
            let b = result_block(call, r);
            &&& gives(b, "type"@, "tool_result"@)
            &&& !lacks(call, "id"@) ==> gives(b, "tool_use_id"@, text_in(call, "id"@))
            &&& lacks(call, "id"@) ==> gives(b, "tool_use_id"@, "unknown"@)
            &&& r is Ok ==> gives(b, "content"@, r->Ok_0)
            &&& r is Err ==> gives(b, "content"@, "Error: "@ + r->Err_0)
            &&& b.field("is_error"@) == Some(JsonView::Bool(r is Err))
            &&& b.wf()
        }),
{
    broadcast use {lemma_with_reads, lemma_with_keeps};

    lemma_result_keys();
}

/// The messages in which the user gives results: those before, and one more with
/// the results.
pub open spec fn gives_results(
    text: Seq<char>,
    before: Seq<JsonView>,
    results: Seq<JsonView>,
) -> bool {
    exists|m: JsonView|
        text == rendered(JsonView::List(#[trigger] before.push(m))) && gives(m, "role"@, "user"@)
            && m.field("content"@) == Some(JsonView::List(results))
}

proof fn lemma_user_message(before: Seq<JsonView>, results: Seq<JsonView>)
    requires
        crate::module::all_wf(results),
    ensures
        gives_results(crate::tool_runner::with_results(before, results), before, results),
{
    broadcast use {lemma_with_reads, lemma_with_keeps};

    reveal_strlit("role");
    reveal_strlit("content");
    assert("role"@.len() == 4);
    assert("content"@.len() == 7);
    assert(JsonView::List(results).wf());
    let m = crate::module::message("user"@, JsonView::List(results));
    assert(crate::tool_runner::with_results(before, results) == rendered(
        JsonView::List(before.push(m)),
    ));
    assert(gives(m, "role"@, "user"@));
}

/// Once all tools are done the results are handed on, with the conversation that
/// the entity holds, to which the user adds them; or, where the files hold the
/// conversation, it is read from there first.
pub proof fn lemma_results_are_handed_on(p: RunView, results: Seq<JsonView>)
    requires
        crate::module::all_wf(results),
    ensures
        p.conversation_file_id.len() == 0 ==> {
            let c = after_tools(p, results)->Done_0;
            let held = match crate::json_text::json_read_list(p.conversation) {
                Ok(m) => m,
                Err(_) => Seq::empty(),
            };
            &&& after_tools(p, results) is Done
            &&& c.action == "HandleToolResults"@
            &&& gives(c.params, "pending_tool_calls"@, rendered(JsonView::List(results)))
            &&& !lacks(c.params, "conversation"@)
            &&& gives_results(text_in(c.params, "conversation"@), held, results)
        },
        p.conversation_file_id.len() > 0 ==> {
            let c = after_tools(p, results)->Send_0;
            &&& after_tools(p, results) is Send
            &&& after_tools(p, results)->Send_1 == RunnerStateView::Reading(p, results)
            &&& c.method == "GET"@
            &&& c.url == p.temper_api_url + "/tdata/Files('"@ + p.conversation_file_id
                + "')/$value"@
        },
{
    broadcast use {lemma_with_reads, lemma_with_keeps};

    reveal_strlit("pending_tool_calls");
    reveal_strlit("conversation");
    assert("pending_tool_calls"@.len() == 18);
    assert("conversation"@.len() == 12);
    let held = match crate::json_text::json_read_list(p.conversation) {
        Ok(m) => m,
        Err(_) => Seq::empty(),
    };
    lemma_user_message(held, results);
}

/// A conversation in the files is stored with the results as the user's last
/// message, and the callback then leaves it there.
pub proof fn lemma_results_are_stored(
    p: RunView,
    results: Seq<JsonView>,
    x: ReplyView,
    v: JsonView,
    messages: Seq<JsonView>,
)
    requires
        crate::module::all_wf(results),
        x.status == 200,
        json_read(x.body) == Ok::<JsonView, Seq<char>>(v),
        v.field("messages"@) == Some(JsonView::List(messages)),
    ensures
        ({
            let s = next_runner_step(RunnerStateView::Reading(p, results), Ok(x));
            let c = s->Send_0;
            &&& s is Send
            &&& s->Send_1 == RunnerStateView::Writing(results)
            &&& c.method == "PUT"@
            &&& c.url == p.temper_api_url + "/tdata/Files('"@ + p.conversation_file_id
                + "')/$value"@
            &&& exists|t: Seq<char>|
                c.body == "{\"messages\":"@ + t + "}"@ && #[trigger] gives_results(
                    t,
                    messages,
                    results,
                )
        }),
        forall|y: ReplyView|
            200 <= y.status < 300 ==> {
                let s = #[trigger] next_runner_step(RunnerStateView::Writing(results), Ok(y));
                &&& s is Done
                &&& s->Done_0.action == "HandleToolResults"@
                &&& gives(
                    s->Done_0.params,
                    "pending_tool_calls"@,
                    rendered(JsonView::List(results)),
                )
                &&& s->Done_0.params.field("conversation"@) is None
            },
        forall|y: ReplyView|
            !(200 <= y.status < 300) ==> #[trigger] next_runner_step(
                RunnerStateView::Writing(results),
                Ok(y),
            ) is Failed,
{
    broadcast use {lemma_with_reads, lemma_with_keeps};

    reveal_strlit("pending_tool_calls");
    reveal_strlit("conversation");
    assert("pending_tool_calls"@.len() == 18);
    assert("conversation"@.len() == 12);
    lemma_user_message(messages, results);
    let t = crate::tool_runner::with_results(messages, results);
    assert(gives_results(t, messages, results));
}

/// A run goes by what the entity says of its sandbox; it needs one.
pub proof fn lemma_runs_need_a_sandbox(
    ctx: crate::module::ContextView,
    read: Result<Seq<JsonView>, Seq<char>>,
)
    ensures
        match run_plan(ctx, read) {
            Ok(p) => {
                &&& p.sandbox_url.len() > 0
                &&& gives(ctx.fields(), "sandbox_url"@, p.sandbox_url)
                &&& read == Ok::<Seq<JsonView>, Seq<char>>(p.calls)
                &&& p.tenant == ctx.tenant
                &&& !lacks(ctx.fields(), "workdir"@) ==> gives(
                    ctx.fields(),
                    "workdir"@,
                    p.workdir,
                )
                &&& lacks(ctx.fields(), "workdir"@) ==> p.workdir == "/workspace"@
            },
            Err(_) => text_in(ctx.fields(), "sandbox_url"@).len() == 0 || read is Err,
        },
{
    reveal_strlit("");
    assert(""@ =~= Seq::<char>::empty());
}

/// Each call is made with its own name and input, in the sandbox and the working
/// directory of the run; what comes of it is the next result.
pub proof fn lemma_calls_are_made(
    p: RunView,
    i: nat,
    results: Seq<JsonView>,
    r: Result<ReplyView, Seq<char>>,
)
    requires
        i < p.calls.len(),
        p.calls[i as int].field("input"@) is Some,
        !lacks(p.calls[i as int], "name"@),
    ensures
        ({
            let call = p.calls[i as int];
            let s = first_tool_step(
                p.sandbox_url,
                p.workdir,
                text_in(call, "name"@),
                call.field("input"@)->0,
            );
            &&& call_step(p, i) == s
            &&& (s matches ToolStepView::Done(x) ==> proceed(p, i, results) == proceed(
                p,
                i + 1,
                results.push(result_block(call, x)),
            ))
            &&& (s matches ToolStepView::Send(c, w) ==> {
                &&& proceed(p, i, results) == RunnerStepView::Send(
                    c,
                    RunnerStateView::Tool(p, i, results, w),
                )
                &&& (next_tool_step(w, r) matches ToolStepView::Done(x) ==> next_runner_step(
                    RunnerStateView::Tool(p, i, results, w),
                    r,
                ) == proceed(p, i + 1, results.push(result_block(call, x))))
            })
        }),
{
}

} // verus!
