//! One tool call in a sandbox, as steps.
use vstd::prelude::*;
use vstd::utf8::encode_utf8;

use crate::json::empty_object;
use crate::json::Json;
use crate::json::JsonView;
use crate::json_text::json_read;
use crate::json_text::parse;
use crate::json_text::render;
use crate::json_text::rendered;
use crate::module::is_success;
use crate::module::pair;
use crate::module::result_view;
use crate::module::CallView;
use crate::module::HttpCall;
use crate::module::HttpReply;
use crate::module::ReplyView;
use crate::numerals::url_bytes;
use crate::numerals::url_encode;
use crate::order::views;
use crate::text::cat2;
use crate::text::cat3;
use crate::text::cat4;
use crate::text::cat7;
use crate::text::contains;
use crate::text::decimal;
use crate::text::decimal_text;
use crate::text::has;
use crate::text::only;
use crate::text::replace_first;
use crate::text::replaced_first;
use crate::text::same;
use crate::text::signed;
use crate::text::signed_text;
use crate::text::starts;
use crate::text::starts_with;
use crate::text::trim_end;
use crate::text::trim_end_char;

verus! {

/// The sandbox is one of E2B, by its address.
pub open spec fn e2b(sandbox: Seq<char>) -> bool {
    has(sandbox, "e2b.app"@) || has(sandbox, "e2b.dev"@)
}

/// Whether the sandbox is one of E2B.
pub fn is_e2b_sandbox(sandbox_url: &str) -> (r: bool)
    ensures
        r == e2b(sandbox_url@),
{
    contains(sandbox_url, "e2b.app") || contains(sandbox_url, "e2b.dev")
}

/// A path as it is meant in a working directory: a path from the root stays.
pub open spec fn resolved(workdir: Seq<char>, path: Seq<char>) -> Seq<char> {
    if starts(path, "/"@) {
        path
    } else {
        trim_end(workdir, only('/')) + "/"@ + path
    }
}

/// A path as it is meant in a working directory.
pub fn resolve_path(workdir: &str, path: &str) -> (r: String)
    ensures
        r@ == resolved(workdir@, path@),
{
    if starts_with(path, "/") {
        path.to_string()
    } else {
        let dir = trim_end_char(workdir, '/');
        cat3(dir.as_str(), "/", path)
    }
}

/// What a tool waits for.
pub enum WaitView {
    /// A file is read.
    Read {
        /// In a sandbox of E2B.
        e2b: bool,
    },
    /// A file is written.
    Write {
        /// In a sandbox of E2B.
        e2b: bool,
        /// The file.
        path: Seq<char>,
    },
    /// A file is read in order to edit it.
    EditRead {
        /// The sandbox.
        sandbox: Seq<char>,
        /// The file.
        path: Seq<char>,
        /// What to find.
        old_string: Seq<char>,
        /// What to put in its place.
        new_string: Seq<char>,
    },
    /// A file is written after an edit.
    EditWrite {
        /// In a sandbox of E2B.
        e2b: bool,
        /// The file.
        path: Seq<char>,
    },
    /// A command runs.
    Bash {
        /// In a sandbox of E2B.
        e2b: bool,
    },
}

/// What a tool waits for.
pub enum ToolWait {
    /// A file is read.
    Read {
        /// In a sandbox of E2B.
        e2b: bool,
    },
    /// A file is written.
    Write {
        /// In a sandbox of E2B.
        e2b: bool,
        /// The file.
        path: String,
    },
    /// A file is read in order to edit it.
    EditRead {
        /// The sandbox.
        sandbox: String,
        /// The file.
        path: String,
        /// What to find.
        old_string: String,
        /// What to put in its place.
        new_string: String,
    },
    /// A file is written after an edit.
    EditWrite {
        /// In a sandbox of E2B.
        e2b: bool,
        /// The file.
        path: String,
    },
    /// A command runs.
    Bash {
        /// In a sandbox of E2B.
        e2b: bool,
    },
}

impl View for ToolWait {
    type V = WaitView;

    open spec fn view(&self) -> WaitView {
        match *self {
            ToolWait::Read { e2b } => WaitView::Read { e2b },
            ToolWait::Write { e2b, path } => WaitView::Write { e2b, path: path@ },
            ToolWait::EditRead { sandbox, path, old_string, new_string } => WaitView::EditRead {
                sandbox: sandbox@,
                path: path@,
                old_string: old_string@,
                new_string: new_string@,
            },
            ToolWait::EditWrite { e2b, path } => WaitView::EditWrite { e2b, path: path@ },
            ToolWait::Bash { e2b } => WaitView::Bash { e2b },
        }
    }
}

/// What a tool does next.
pub enum ToolStepView {
    /// It sends a call and waits for the reply.
    Send(CallView, WaitView),
    /// It is done.
    Done(Result<Seq<char>, Seq<char>>),
}

/// What a tool does next.
pub enum ToolStep {
    /// It sends a call and waits for the reply.
    Send(HttpCall, ToolWait),
    /// It is done.
    Done(Result<String, String>),
}

impl View for ToolStep {
    type V = ToolStepView;

    open spec fn view(&self) -> ToolStepView {
        match *self {
            ToolStep::Send(c, w) => ToolStepView::Send(c@, w@),
            ToolStep::Done(r) => ToolStepView::Done(result_view(r)),
        }
    }
}

/// The address of a file in a sandbox.
pub open spec fn file_url(sandbox: Seq<char>, path: Seq<char>) -> Seq<char> {
    if e2b(sandbox) {
        sandbox + "/files?path="@ + url_bytes(encode_utf8(path))
    } else {
        sandbox + "/v1/fs/file?path="@ + url_bytes(encode_utf8(path))
    }
}

/// The call that reads a file.
pub open spec fn read_call(sandbox: Seq<char>, path: Seq<char>) -> CallView {
    CallView {
        method: "GET"@,
        url: file_url(sandbox, path),
        headers: Seq::empty(),
        body: ""@,
    }
}

/// The line between the parts of an upload.
pub open spec fn boundary() -> Seq<char> {
    "----TemperWasmBoundary7MA4YWxkTrZu0gW"@
}

/// A file as a form with one part.
pub open spec fn form(path: Seq<char>, content: Seq<char>) -> Seq<char> {
    "--"@ + boundary()
        + "\r\nContent-Disposition: form-data; name=\"file\"; filename=\""@ + path
        + "\"\r\nContent-Type: application/octet-stream\r\n\r\n"@ + content + "\r\n--"@ + (
    boundary() + "--\r\n"@)
}

/// The call that writes a file.
pub open spec fn write_call(
    sandbox: Seq<char>,
    path: Seq<char>,
    content: Seq<char>,
) -> CallView {
    if e2b(sandbox) {
        CallView {
            method: "POST"@,
            url: file_url(sandbox, path),
            headers: seq![("content-type"@, "multipart/form-data; boundary="@ + boundary())],
            body: form(path, content),
        }
    } else {
        CallView {
            method: "PUT"@,
            url: file_url(sandbox, path),
            headers: seq![("content-type"@, "text/plain"@)],
            body: content,
        }
    }
}

/// The call that runs a command.
pub open spec fn bash_call(
    sandbox: Seq<char>,
    command: Seq<char>,
    workdir: Seq<char>,
) -> CallView {
    CallView {
        method: "POST"@,
        url: sandbox + "/v1/processes/run"@,
        headers: seq![("content-type"@, "application/json"@)],
        body: rendered(
            empty_object().with("command"@, JsonView::Text(command)).with(
                "workdir"@,
                JsonView::Text(workdir),
            ),
        ),
    }
}

fn make_file_url(sandbox: &str, path: &str) -> (r: String)
    ensures
        r@ == file_url(sandbox@, path@),
{
    let p = url_encode(path);
    if is_e2b_sandbox(sandbox) {
        cat3(sandbox, "/files?path=", p.as_str())
    } else {
        cat3(sandbox, "/v1/fs/file?path=", p.as_str())
    }
}

fn call_read(sandbox: &str, path: &str) -> (r: HttpCall)
    ensures
        r@ == read_call(sandbox@, path@),
{
    let headers: Vec<(String, String)> = Vec::new();
    assert(views(headers@) =~= Seq::empty());
    HttpCall {
        method: "GET".to_string(),
        url: make_file_url(sandbox, path),
        headers,
        body: "".to_string(),
    }
}

fn make_form(path: &str, content: &str) -> (r: String)
    ensures
        r@ == form(path@, content@),
{
    let end = cat2("----TemperWasmBoundary7MA4YWxkTrZu0gW", "--\r\n");
    let front = cat7(
        "--",
        "----TemperWasmBoundary7MA4YWxkTrZu0gW",
        "\r\nContent-Disposition: form-data; name=\"file\"; filename=\"",
        path,
        "\"\r\nContent-Type: application/octet-stream\r\n\r\n",
        content,
        "\r\n--",
    );
    cat2(front.as_str(), end.as_str())
}

fn call_write(sandbox: &str, path: &str, content: &str) -> (r: HttpCall)
    ensures
        r@ == write_call(sandbox@, path@, content@),
{
    let mut headers: Vec<(String, String)> = Vec::new();
    if is_e2b_sandbox(sandbox) {
        let kind = cat2(
            "multipart/form-data; boundary=",
            "----TemperWasmBoundary7MA4YWxkTrZu0gW",
        );
        headers.push(pair("content-type", kind.as_str()));
        assert(views(headers@) =~= write_call(sandbox@, path@, content@).headers);
        HttpCall {
            method: "POST".to_string(),
            url: make_file_url(sandbox, path),
            headers,
            body: make_form(path, content),
        }
    } else {
        headers.push(pair("content-type", "text/plain"));
        assert(views(headers@) =~= write_call(sandbox@, path@, content@).headers);
        HttpCall {
            method: "PUT".to_string(),
            url: make_file_url(sandbox, path),
            headers,
            body: content.to_string(),
        }
    }
}

fn call_bash(sandbox: &str, command: &str, workdir: &str) -> (r: HttpCall)
    ensures
        r@ == bash_call(sandbox@, command@, workdir@),
{
    let mut headers: Vec<(String, String)> = Vec::new();
    headers.push(pair("content-type", "application/json"));
    assert(views(headers@) =~= bash_call(sandbox@, command@, workdir@).headers);
    let body = Json::object().set("command", Json::of_text(command)).set(
        "workdir",
        Json::of_text(workdir),
    );
    HttpCall {
        method: "POST".to_string(),
        url: cat2(sandbox, "/v1/processes/run"),
        headers,
        body: render(&body),
    }
}

/// A tool that is done with an error.
pub open spec fn refused(m: Seq<char>) -> ToolStepView {
    ToolStepView::Done(Err(m))
}

/// The first step of a tool call. What a tool must be given is asked for in
/// order: the first that is missing is told.
pub open spec fn first_tool_step(
    sandbox: Seq<char>,
    workdir: Seq<char>,
    name: Seq<char>,
    input: JsonView,
) -> ToolStepView {
    if name == "read"@ {
        match input.text_field("path"@) {
            Some(p) => {
                let path = resolved(workdir, p);
                ToolStepView::Send(
                    read_call(sandbox, path),
                    WaitView::Read { e2b: e2b(sandbox) },
                )
            },
            None => refused("read: missing 'path' parameter"@),
        }
    } else if name == "write"@ {
        match (input.text_field("path"@), input.text_field("content"@)) {
            (Some(p), Some(c)) => {
                let path = resolved(workdir, p);
                ToolStepView::Send(
                    write_call(sandbox, path, c),
                    WaitView::Write { e2b: e2b(sandbox), path },
                )
            },
            (None, _) => refused("write: missing 'path' parameter"@),
            (_, None) => refused("write: missing 'content' parameter"@),
        }
    } else if name == "edit"@ {
        match (
            input.text_field("path"@),
            input.text_field("old_string"@),
            input.text_field("new_string"@),
        ) {
            (Some(p), Some(o), Some(n)) => {
                let path = resolved(workdir, p);
                ToolStepView::Send(
                    read_call(sandbox, path),
                    WaitView::EditRead { sandbox, path, old_string: o, new_string: n },
                )
            },
            (None, _, _) => refused("edit: missing 'path' parameter"@),
            (_, None, _) => refused("edit: missing 'old_string' parameter"@),
            (_, _, None) => refused("edit: missing 'new_string' parameter"@),
        }
    } else if name == "bash"@ {
        match input.text_field("command"@) {
            Some(c) => ToolStepView::Send(
                bash_call(sandbox, c, workdir),
                WaitView::Bash { e2b: e2b(sandbox) },
            ),
            None => refused("bash: missing 'command' parameter"@),
        }
    } else {
        refused("unknown tool: "@ + name)
    }
}

fn missing(m: &str) -> (r: ToolStep)
    ensures
        r@ == refused(m@),
{
    ToolStep::Done(Err(m.to_string()))
}

/// The first step of a tool call.
pub fn execute_tool(
    sandbox_url: &str,
    workdir: &str,
    tool_name: &str,
    input: &Json,
) -> (r: ToolStep)
    ensures
        r@ == first_tool_step(sandbox_url@, workdir@, tool_name@, input@),
{
    proof {
        reveal_strlit("read");
        reveal_strlit("write");
        reveal_strlit("edit");
        reveal_strlit("bash");
        assert("read"@.len() == 4 && "read"@[0] == 'r');
        assert("write"@.len() == 5);
        assert("edit"@.len() == 4 && "edit"@[0] == 'e');
        assert("bash"@.len() == 4 && "bash"@[0] == 'b');
    }
    if same(tool_name, "read") {
        let p = match input.text_field("path") {
            Some(p) => p,
            None => {
                return missing("read: missing 'path' parameter");
            },
        };
        let path = resolve_path(workdir, p.as_str());
        let e2b = is_e2b_sandbox(sandbox_url);
        ToolStep::Send(call_read(sandbox_url, path.as_str()), ToolWait::Read { e2b })
    } else if same(tool_name, "write") {
        let p = match input.text_field("path") {
            Some(p) => p,
            None => {
                return missing("write: missing 'path' parameter");
            },
        };
        let c = match input.text_field("content") {
            Some(c) => c,
            None => {
                return missing("write: missing 'content' parameter");
            },
        };
        let path = resolve_path(workdir, p.as_str());
        let e2b = is_e2b_sandbox(sandbox_url);
        let call = call_write(sandbox_url, path.as_str(), c.as_str());
        ToolStep::Send(call, ToolWait::Write { e2b, path })
    } else if same(tool_name, "edit") {
        let p = match input.text_field("path") {
            Some(p) => p,
            None => {
                return missing("edit: missing 'path' parameter");
            },
        };
        let o = match input.text_field("old_string") {
            Some(o) => o,
            None => {
                return missing("edit: missing 'old_string' parameter");
            },
        };
        let n = match input.text_field("new_string") {
            Some(n) => n,
            None => {
                return missing("edit: missing 'new_string' parameter");
            },
        };
        let path = resolve_path(workdir, p.as_str());
        let call = call_read(sandbox_url, path.as_str());
        ToolStep::Send(
            call,
            ToolWait::EditRead {
                sandbox: sandbox_url.to_string(),
                path,
                old_string: o,
                new_string: n,
            },
        )
    } else if same(tool_name, "bash") {
        let c = match input.text_field("command") {
            Some(c) => c,
            None => {
                return missing("bash: missing 'command' parameter");
            },
        };
        let e2b = is_e2b_sandbox(sandbox_url);
        ToolStep::Send(call_bash(sandbox_url, c.as_str(), workdir), ToolWait::Bash { e2b })
    } else {
        ToolStep::Done(Err(cat2("unknown tool: ", tool_name)))
    }
}

/// What a refusal by a sandbox is told as.
pub open spec fn refusal(what: Seq<char>, r: ReplyView) -> Seq<char> {
    what + decimal(r.status as nat) + "): "@ + r.body
}

/// What reading a file comes to.
pub open spec fn read_outcome(
    in_e2b: bool,
    r: Result<ReplyView, Seq<char>>,
) -> Result<Seq<char>, Seq<char>> {
    match r {
        Ok(x) => if x.status == 200 {
            Ok(x.body)
        } else if in_e2b {
            Err(refusal("E2B read failed (HTTP "@, x))
        } else {
            Err(refusal("read failed (HTTP "@, x))
        },
        Err(m) => Err(m),
    }
}

/// What writing a file comes to: `said`, where it succeeds.
pub open spec fn write_outcome(
    in_e2b: bool,
    said: Seq<char>,
    r: Result<ReplyView, Seq<char>>,
) -> Result<Seq<char>, Seq<char>> {
    match r {
        Ok(x) => if is_success(x.status) {
            Ok(said)
        } else if in_e2b {
            Err(refusal("E2B write failed (HTTP "@, x))
        } else {
            Err(refusal("write failed (HTTP "@, x))
        },
        Err(m) => Err(m),
    }
}

/// What a command put out, and how it ended where it did not end well.
pub open spec fn command_output(v: JsonView) -> Seq<char> {
    let stdout = v.text_or("stdout"@, ""@);
    let stderr = v.text_or("stderr"@, ""@);
    let code = match v.field("exit_code"@) {
        Some(x) => match x.integer() {
            Some(n) => n,
            None => -1i64,
        },
        None => -1i64,
    };
    let both = if stderr.len() == 0 {
        stdout
    } else if stdout.len() == 0 {
        "STDERR: "@ + stderr
    } else {
        stdout + "\n"@ + "STDERR: "@ + stderr
    };
    if code == 0 {
        both
    } else {
        both + "\n(exit code: "@ + signed(code as int) + ")"@
    }
}

/// What running a command comes to, where the reply's body reads as `read`; a
/// body that is no JSON is the output as it is.
pub open spec fn bash_outcome(
    r: Result<ReplyView, Seq<char>>,
    read: Result<JsonView, Seq<char>>,
) -> Result<Seq<char>, Seq<char>> {
    match r {
        Ok(x) => if is_success(x.status) {
            match read {
                Ok(v) => Ok(command_output(v)),
                Err(_) => Ok(x.body),
            }
        } else {
            Err(refusal("bash failed (HTTP "@, x))
        },
        Err(m) => Err(m),
    }
}

/// What a failed command in a sandbox of E2B is told as.
pub open spec fn e2b_bash_error(m: Seq<char>) -> Seq<char> {
    "E2B bash not yet supported via Connect protocol — process execution requires host_grpc_call or custom template. Underlying error: "@
        + m
}

/// What a reply's body reads as; without a reply there is nothing to read.
pub open spec fn reply_read(r: Result<ReplyView, Seq<char>>) -> Result<JsonView, Seq<char>> {
    match r {
        Ok(x) => json_read(x.body),
        Err(m) => Err(m),
    }
}

/// The step after a reply.
pub open spec fn next_tool_step(w: WaitView, r: Result<ReplyView, Seq<char>>) -> ToolStepView {
    match w {
        WaitView::Read { e2b } => ToolStepView::Done(read_outcome(e2b, r)),
        WaitView::Write { e2b, path } => ToolStepView::Done(
            write_outcome(e2b, "File written: "@ + path, r),
        ),
        WaitView::EditRead { sandbox, path, old_string, new_string } => match read_outcome(
            e2b(sandbox),
            r,
        ) {
            Ok(current) => if has(current, old_string) {
                ToolStepView::Send(
                    write_call(sandbox, path, replaced_first(current, old_string, new_string)),
                    WaitView::EditWrite { e2b: e2b(sandbox), path },
                )
            } else {
                refused("edit: old_string not found in "@ + path)
            },
            Err(m) => refused(m),
        },
        WaitView::EditWrite { e2b, path } => ToolStepView::Done(
            write_outcome(e2b, "File edited: "@ + path, r),
        ),
        WaitView::Bash { e2b } => match bash_outcome(r, reply_read(r)) {
            Ok(t) => ToolStepView::Done(Ok(t)),
            Err(m) => if e2b {
                refused(e2b_bash_error(m))
            } else {
                refused(m)
            },
        },
    }
}

fn refuse(what: &str, x: &HttpReply) -> (r: String)
    ensures
        r@ == refusal(what@, x@),
{
    let code = decimal_text(x.status as u64);
    cat4(what, code.as_str(), "): ", x.body.as_str())
}

fn finish_read(in_e2b: bool, reply: Result<HttpReply, String>) -> (r: Result<String, String>)
    ensures
        result_view(r) == read_outcome(in_e2b, result_view(reply)),
{
    match reply {
        Ok(x) => if x.status == 200 {
            Ok(x.body)
        } else if in_e2b {
            Err(refuse("E2B read failed (HTTP ", &x))
        } else {
            Err(refuse("read failed (HTTP ", &x))
        },
        Err(m) => Err(m),
    }
}

fn finish_write(
    in_e2b: bool,
    said: String,
    reply: Result<HttpReply, String>,
) -> (r: Result<String, String>)
    ensures
        result_view(r) == write_outcome(in_e2b, said@, result_view(reply)),
{
    match reply {
        Ok(x) => if x.status >= 200 && x.status < 300 {
            Ok(said)
        } else if in_e2b {
            Err(refuse("E2B write failed (HTTP ", &x))
        } else {
            Err(refuse("write failed (HTTP ", &x))
        },
        Err(m) => Err(m),
    }
}

/// What a command put out, and how it ended where it did not end well.
pub fn format_command_output(v: &Json) -> (r: String)
    ensures
        r@ == command_output(v@),
{
    let stdout = v.text_or("stdout", "");
    let stderr = v.text_or("stderr", "");
    let code: i64 = match v.get("exit_code") {
        Some(x) => match x.as_integer() {
            Some(n) => n,
            None => -1,
        },
        None => -1,
    };
    let both = if stderr.as_str().is_empty() {
        stdout
    } else if stdout.as_str().is_empty() {
        cat2("STDERR: ", stderr.as_str())
    } else {
        cat4(stdout.as_str(), "\n", "STDERR: ", stderr.as_str())
    };
    if code == 0 {
        both
    } else {
        let c = signed_text(code);
        cat4(both.as_str(), "\n(exit code: ", c.as_str(), ")")
    }
}

/// What running a command comes to, where the reply's body reads as `read`.
pub fn finish_bash(
    reply: Result<HttpReply, String>,
    read: Result<Json, String>,
) -> (r: Result<String, String>)
    ensures
        result_view(r) == bash_outcome(result_view(reply), result_view(read)),
{
    match reply {
        Ok(x) => if x.status >= 200 && x.status < 300 {
            match read {
                Ok(v) => Ok(format_command_output(&v)),
                Err(_) => Ok(x.body),
            }
        } else {
            Err(refuse("bash failed (HTTP ", &x))
        },
        Err(m) => Err(m),
    }
}

/// What the body of a reply reads as.
pub fn read_reply(reply: &Result<HttpReply, String>) -> (r: Result<Json, String>)
    ensures
        result_view(r) == reply_read(result_view(*reply)),
{
    match reply {
        Ok(x) => parse(x.body.as_str()),
        Err(m) => Err(m.clone()),
    }
}

/// The step after a reply.
pub fn resume_tool(wait: ToolWait, reply: Result<HttpReply, String>) -> (r: ToolStep)
    ensures
        r@ == next_tool_step(wait@, result_view(reply)),
{
    match wait {
        ToolWait::Read { e2b } => ToolStep::Done(finish_read(e2b, reply)),
        ToolWait::Write { e2b, path } => ToolStep::Done(
            finish_write(e2b, cat2("File written: ", path.as_str()), reply),
        ),
        ToolWait::EditRead { sandbox, path, old_string, new_string } => {
            let e2b = is_e2b_sandbox(sandbox.as_str());
            match finish_read(e2b, reply) {
                Ok(current) => {
                    if !contains(current.as_str(), old_string.as_str()) {
                        return ToolStep::Done(
                            Err(cat2("edit: old_string not found in ", path.as_str())),
                        );
                    }
                    let updated = replace_first(
                        current.as_str(),
                        old_string.as_str(),
                        new_string.as_str(),
                    );
                    let call = call_write(sandbox.as_str(), path.as_str(), updated.as_str());
                    ToolStep::Send(call, ToolWait::EditWrite { e2b, path })
                },
                Err(m) => ToolStep::Done(Err(m)),
            }
        },
        ToolWait::EditWrite { e2b, path } => ToolStep::Done(
            finish_write(e2b, cat2("File edited: ", path.as_str()), reply),
        ),
        ToolWait::Bash { e2b } => {
            let read = read_reply(&reply);
            match finish_bash(reply, read) {
                Ok(t) => ToolStep::Done(Ok(t)),
                Err(m) => if e2b {
                    ToolStep::Done(
                        Err(
                            cat2(
                                "E2B bash not yet supported via Connect protocol — process execution requires host_grpc_call or custom template. Underlying error: ",
                                m.as_str(),
                            ),
                        ),
                    )
                } else {
                    ToolStep::Done(Err(m))
                },
            }
        },
    }
}

} // verus!
