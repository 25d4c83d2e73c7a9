//! The tools that a model is offered.
use vstd::prelude::*;

use crate::json::empty_object;
use crate::json::text_list;
use crate::json::Json;
use crate::json::JsonView;
use crate::module::all_wf;
use crate::order::views;
use crate::text::cat4;
use crate::text::only;
use crate::text::pieces;
use crate::text::same;
use crate::text::split_char;
use crate::text::trim;
use crate::text::trimmed;

verus! {

/// A parameter that is a string.
pub open spec fn string_parameter(description: Seq<char>) -> JsonView {
    empty_object().with("type"@, JsonView::Text("string"@)).with(
        "description"@,
        JsonView::Text(description),
    )
}

/// A tool, with parameters that must all be given.
pub open spec fn tool(
    name: Seq<char>,
    description: Seq<char>,
    properties: JsonView,
    required: Seq<Seq<char>>,
) -> JsonView {
    empty_object().with("name"@, JsonView::Text(name)).with(
        "description"@,
        JsonView::Text(description),
    ).with(
        "input_schema"@,
        empty_object().with("type"@, JsonView::Text("object"@)).with(
            "properties"@,
            properties,
        ).with("required"@, text_list(required)),
    )
}

/// The tool that reads a file.
pub open spec fn read_tool(sandbox: Seq<char>, workdir: Seq<char>) -> JsonView {
    tool(
        "read"@,
        "Read a file from the sandbox at "@ + sandbox + ". Working directory: "@ + workdir,
        empty_object().with("path"@, string_parameter("File path to read"@)),
        seq!["path"@],
    )
}

/// The tool that writes a file.
pub open spec fn write_tool(sandbox: Seq<char>, workdir: Seq<char>) -> JsonView {
    tool(
        "write"@,
        "Write a file to the sandbox at "@ + sandbox + ". Working directory: "@ + workdir,
        empty_object().with("path"@, string_parameter("File path to write"@)).with(
            "content"@,
            string_parameter("File content"@),
        ),
        seq!["path"@, "content"@],
    )
}

/// The tool that edits a file.
pub open spec fn edit_tool(sandbox: Seq<char>, workdir: Seq<char>) -> JsonView {
    tool(
        "edit"@,
        "Edit a file in the sandbox at "@ + sandbox
            + " using search-and-replace. Working directory: "@ + workdir,
        empty_object().with("path"@, string_parameter("File path to edit"@)).with(
            "old_string"@,
            string_parameter("Text to find"@),
        ).with("new_string"@, string_parameter("Text to replace with"@)),
        seq!["path"@, "old_string"@, "new_string"@],
    )
}

/// The tool that runs a command.
pub open spec fn bash_tool(sandbox: Seq<char>, workdir: Seq<char>) -> JsonView {
    tool(
        "bash"@,
        "Run a bash command in the sandbox at "@ + sandbox + ". Working directory: "@ + workdir,
        empty_object().with("command"@, string_parameter("Bash command to execute"@)),
        seq!["command"@],
    )
}

/// The name stands in a list of names with commas between them.
pub open spec fn enabled(list: Seq<char>, name: Seq<char>) -> bool {
    exists|i: int|
        0 <= i < pieces(list, only(',')).len() && trimmed(
            #[trigger] pieces(list, only(','))[i],
        ) == name
}

/// The sequence, or the empty one.
pub open spec fn when(cond: bool, v: JsonView) -> Seq<JsonView> {
    if cond {
        seq![v]
    } else {
        Seq::empty()
    }
}

/// The tools that are enabled, each once: read, write, edit, bash.
pub open spec fn enabled_tools(
    list: Seq<char>,
    sandbox: Seq<char>,
    workdir: Seq<char>,
) -> Seq<JsonView> {
    when(enabled(list, "read"@), read_tool(sandbox, workdir)) + when(
        enabled(list, "write"@),
        write_tool(sandbox, workdir),
    ) + when(enabled(list, "edit"@), edit_tool(sandbox, workdir)) + when(
        enabled(list, "bash"@),
        bash_tool(sandbox, workdir),
    )
}

fn make_parameter(description: &str) -> (r: Json)
    ensures
        r@ == string_parameter(description@),
        r@.wf(),
{
    Json::object().set("type", Json::of_text("string")).set(
        "description",
        Json::of_text(description),
    )
}

fn make_tool(name: &str, description: &str, properties: Json, required: &Vec<String>) -> (r: Json)
    requires
        properties@.wf(),
    ensures
        r@ == tool(name@, description@, properties@, views(required@)),
        r@.wf(),
{
    let schema = Json::object().set("type", Json::of_text("object")).set(
        "properties",
        properties,
    ).set("required", Json::of_texts(required));
    Json::object().set("name", Json::of_text(name)).set(
        "description",
        Json::of_text(description),
    ).set("input_schema", schema)
}

fn is_enabled(parts: &Vec<String>, Ghost(list): Ghost<Seq<char>>, name: &str) -> (r: bool)
    requires
        views(parts@) == pieces(list, only(',')),
    ensures
        r == enabled(list, name@),
{
    let mut i: usize = 0;
    while i < parts.len()
        invariant
            i <= parts@.len(),
            views(parts@) == pieces(list, only(',')),
            forall|j: int| 0 <= j < i ==> trimmed(#[trigger] pieces(list, only(','))[j]) != name@,
        decreases parts@.len() - i,
    {
        let t = trim(parts[i].as_str());
        assert(pieces(list, only(','))[i as int] == parts@[i as int]@);
        if same(t.as_str(), name) {
            return true;
        }
        i = i + 1;
    }
    false
}

/// The tools that are enabled, each once: read, write, edit, bash.
pub fn build_tool_definitions(
    tools_enabled: &str,
    sandbox_url: &str,
    workdir: &str,
) -> (r: Vec<Json>)
    ensures
        views(r@) == enabled_tools(tools_enabled@, sandbox_url@, workdir@),
        all_wf(views(r@)),
{
    let parts = split_char(tools_enabled, ',');
    let ghost list = tools_enabled@;
    let mut r: Vec<Json> = Vec::new();
    let ghost mut want: Seq<JsonView> = Seq::empty();
    assert(views(r@) =~= want);
    if is_enabled(&parts, Ghost(list), "read") {
        let what = cat4(
            "Read a file from the sandbox at ",
            sandbox_url,
            ". Working directory: ",
            workdir,
        );
        let mut names: Vec<String> = Vec::new();
        names.push("path".to_string());
        assert(views(names@) =~= seq!["path"@]);
        let p = Json::object().set("path", make_parameter("File path to read"));
        r.push(make_tool("read", what.as_str(), p, &names));
    }
    proof {
        want = when(enabled(list, "read"@), read_tool(sandbox_url@, workdir@));
        assert(views(r@) =~= want);
    }
    if is_enabled(&parts, Ghost(list), "write") {
        let what = cat4(
            "Write a file to the sandbox at ",
            sandbox_url,
            ". Working directory: ",
            workdir,
        );
        let mut names: Vec<String> = Vec::new();
        names.push("path".to_string());
        names.push("content".to_string());
        assert(views(names@) =~= seq!["path"@, "content"@]);
        let p = Json::object().set("path", make_parameter("File path to write")).set(
            "content",
            make_parameter("File content"),
        );
        r.push(make_tool("write", what.as_str(), p, &names));
    }
    proof {
        want = want + when(enabled(list, "write"@), write_tool(sandbox_url@, workdir@));
        assert(views(r@) =~= want);
    }
    if is_enabled(&parts, Ghost(list), "edit") {
        let what = cat4(
            "Edit a file in the sandbox at ",
            sandbox_url,
            " using search-and-replace. Working directory: ",
            workdir,
        );
        let mut names: Vec<String> = Vec::new();
        names.push("path".to_string());
        names.push("old_string".to_string());
        names.push("new_string".to_string());
        assert(views(names@) =~= seq!["path"@, "old_string"@, "new_string"@]);
        let p = Json::object().set("path", make_parameter("File path to edit")).set(
            "old_string",
            make_parameter("Text to find"),
        ).set("new_string", make_parameter("Text to replace with"));
        r.push(make_tool("edit", what.as_str(), p, &names));
    }
    proof {
        want = want + when(enabled(list, "edit"@), edit_tool(sandbox_url@, workdir@));
        assert(views(r@) =~= want);
    }
    if is_enabled(&parts, Ghost(list), "bash") {
        let what = cat4(
            "Run a bash command in the sandbox at ",
            sandbox_url,
            ". Working directory: ",
            workdir,
        );
        let mut names: Vec<String> = Vec::new();
        names.push("command".to_string());
        assert(views(names@) =~= seq!["command"@]);
        let p = Json::object().set("command", make_parameter("Bash command to execute"));
        r.push(make_tool("bash", what.as_str(), p, &names));
    }
    proof {
        want = want + when(enabled(list, "bash"@), bash_tool(sandbox_url@, workdir@));
        assert(views(r@) =~= want);
    }
    r
}

} // verus!
