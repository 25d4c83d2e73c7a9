//! What becomes of a conversation on its way to a provider, and which tools are
//! offered with it.
use vstd::prelude::*;

use crate::json::empty_object;
use crate::json::lemma_texts_wf;
use crate::json::lemma_with_keeps;
use crate::json::lemma_with_reads;
use crate::json::text_list;
use crate::json::JsonView;
use crate::json_text::rendered;
use crate::llm_convert::converted;
use crate::llm_convert::converted_all;
use crate::llm_convert::function_tool;
use crate::llm_convert::function_tools;
use crate::llm_convert::tool_call;
use crate::llm_convert::tool_calls;
use crate::llm_convert::tool_result;
use crate::llm_convert::tool_results;
use crate::llm_laws::calls;
use crate::llm_laws::lemma_spoken;
use crate::llm_laws::speaks;
use crate::llm_laws::spoken;
use crate::llm_tools::enabled_tools;
use crate::llm_tools::tool;
use crate::module::all_wf;
use crate::module::lemma_field_wf;
use crate::order::keep;
use crate::text::decimal;
use crate::text::only;
use crate::text::pieces;
use crate::text::trimmed;
use crate::tool_laws::gives;
use crate::tool_laws::lacks;

verus! {

/// The field holds the text of the field of another value, or another text where
/// there is none.
pub open spec fn takes_text(
    v: JsonView,
    key: Seq<char>,
    from: JsonView,
    other: Seq<char>,
    otherwise: Seq<char>,
) -> bool {
    &&& forall|t: Seq<char>| #[trigger] gives(from, other, t) ==> gives(v, key, t)
    &&& lacks(from, other) ==> gives(v, key, otherwise)
}

/// The value is the call of the tool that the block at position `j` uses.
pub open spec fn is_call(x: JsonView, b: JsonView, j: int) -> bool {
    &&& gives(x, "type"@, "function"@)
    &&& takes_text(x, "id"@, b, "id"@, "tool_"@ + decimal((j + 1) as nat))
    &&& x.field("function"@) matches Some(f)
    &&& takes_text(f, "name"@, b, "name"@, "unknown_tool"@)
    &&& gives(
        f,
        "arguments"@,
        rendered(
            match b.field("input"@) {
                Some(v) => v,
                None => empty_object(),
            },
        ),
    )
}

/// The test for blocks that hold what came of a tool.
pub open spec fn answers() -> spec_fn(JsonView) -> bool {
    |b: JsonView| b.field("type"@) == Some(JsonView::Text("tool_result"@))
}

/// The value is the message of what came of the tool in a block.
pub open spec fn is_answer(x: JsonView, b: JsonView) -> bool {
    &&& gives(x, "role"@, "tool"@)
    &&& takes_text(x, "tool_call_id"@, b, "tool_use_id"@, "unknown_tool_call"@)
    &&& gives(
        x,
        "content"@,
        match b.field("content"@) {
            Some(JsonView::Text(t)) => t,
            Some(v) => rendered(v),
            None => Seq::empty(),
        },
    )
}

proof fn lemma_call(b: JsonView, j: nat)
    ensures
        is_call(tool_call(b, j), b, j as int),
        tool_call(b, j).wf(),
{
    broadcast use {lemma_with_reads, lemma_with_keeps};

    lemma_call_keys();
}

proof fn lemma_answer(b: JsonView)
    ensures
        is_answer(tool_result(b), b),
        tool_result(b).wf(),
{
    broadcast use {lemma_with_reads, lemma_with_keeps};

    lemma_call_keys();
    reveal_strlit("");
    assert(""@ =~= Seq::<char>::empty());
}

proof fn lemma_calls_in_order(b: Seq<JsonView>)
    ensures
        tool_calls(b).len() == keep(b, calls()).len(),
        all_wf(tool_calls(b)),
        forall|j: int|
            0 <= j < b.len() && calls()(#[trigger] b[j]) ==> {
                let at = keep(b.take(j), calls()).len() as int;
                at < tool_calls(b).len() && is_call(tool_calls(b)[at], b[j], j)
            },
    decreases b.len(),
{
    lemma_types();
    if b.len() > 0 {
        let front = b.drop_last();
        let n = b.len() - 1;
        lemma_calls_in_order(front);
        lemma_call(b.last(), n as nat);
        assert(b.take(n) =~= front);
        assert forall|j: int| 0 <= j < b.len() && calls()(#[trigger] b[j]) implies ({
            let at = keep(b.take(j), calls()).len() as int;
            at < tool_calls(b).len() && is_call(tool_calls(b)[at], b[j], j)
        }) by {
            if j < n {
                assert(front[j] == b[j]);
                assert(front.take(j) =~= b.take(j));
            }
        }
    }
}

proof fn lemma_answers_in_order(b: Seq<JsonView>)
    ensures
        tool_results(b).len() == keep(b, answers()).len(),
        all_wf(tool_results(b)),
        forall|j: int|
            0 <= j < b.len() && answers()(#[trigger] b[j]) ==> {
                let at = keep(b.take(j), answers()).len() as int;
                at < tool_results(b).len() && is_answer(tool_results(b)[at], b[j])
            },
    decreases b.len(),
{
    lemma_types();
    if b.len() > 0 {
        let front = b.drop_last();
        let n = b.len() - 1;
        lemma_answers_in_order(front);
        lemma_answer(b.last());
        assert(b.take(n) =~= front);
        assert forall|j: int| 0 <= j < b.len() && answers()(#[trigger] b[j]) implies ({
            let at = keep(b.take(j), answers()).len() as int;
            at < tool_results(b).len() && is_answer(tool_results(b)[at], b[j])
        }) by {
            if j < n {
                assert(front[j] == b[j]);
                assert(front.take(j) =~= b.take(j));
            }
        }
    }
}

/// What an assistant said and called becomes one message: all that it said, one text
/// per line, and the calls of its tools, in order, where there are any.
pub proof fn lemma_assistants_speak_once(m: JsonView, b: Seq<JsonView>)
    requires
        gives(m, "role"@, "assistant"@),
        m.field("content"@) == Some(JsonView::List(b)),
    ensures
        converted(m).len() == 1,
        ({
            let x = converted(m)[0];
            &&& gives(x, "role"@, "assistant"@)
            &&& gives(x, "content"@, spoken(b))
            &&& keep(b, calls()).len() == 0 ==> x.field("tool_calls"@) is None
            &&& keep(b, calls()).len() > 0 ==> {
                &&& x.field("tool_calls"@) matches Some(JsonView::List(k))
                &&& k.len() == keep(b, calls()).len()
                &&& forall|j: int|
                    0 <= j < b.len() && calls()(#[trigger] b[j]) ==> is_call(
                        k[keep(b.take(j), calls()).len() as int],
                        b[j],
                        j,
                    )
            }
        }),
{
    broadcast use {lemma_with_reads, lemma_with_keeps};

    lemma_call_keys();
    lemma_spoken(b);
    lemma_calls_in_order(b);
    assert(JsonView::List(tool_calls(b)).wf());
    assert(empty_object().field("tool_calls"@) is None);
}

/// What a user sent becomes one message for what came of each tool, in order, and
/// one for all that was said, where anything was. A message without a role is a
/// user's.
pub proof fn lemma_users_answer_then_speak(m: JsonView, b: Seq<JsonView>)
    requires
        gives(m, "role"@, "user"@) || lacks(m, "role"@),
        m.field("content"@) == Some(JsonView::List(b)),
    ensures
        ({
            let n = keep(b, answers()).len();
            let x = converted(m);
            &&& keep(b, speaks()).len() == 0 ==> x.len() == n
            &&& keep(b, speaks()).len() > 0 ==> x.len() == n + 1 && gives(
                x[n as int],
                "role"@,
                "user"@,
            ) && gives(x[n as int], "content"@, spoken(b))
            &&& forall|j: int|
                0 <= j < b.len() && answers()(#[trigger] b[j]) ==> is_answer(
                    x[keep(b.take(j), answers()).len() as int],
                    b[j],
                )
        }),
{
    broadcast use {lemma_with_reads, lemma_with_keeps};

    lemma_call_keys();
    lemma_spoken(b);
    lemma_answers_in_order(b);
}

/// Any other message keeps its role and its content; without content it says
/// nothing.
pub proof fn lemma_other_messages_stay(m: JsonView, role: Seq<char>)
    requires
        gives(m, "role"@, role) || (lacks(m, "role"@) && role == "user"@),
        m.wf(),
        !(m.field("content"@) is Some && m.field("content"@)->0 is List) || (role != "assistant"@
            && role != "user"@),
    ensures
        converted(m).len() == 1,
        gives(converted(m)[0], "role"@, role),
        m.field("content"@) is Some ==> converted(m)[0].field("content"@) == m.field("content"@),
        m.field("content"@) is None ==> gives(converted(m)[0], "content"@, Seq::empty()),
{
    broadcast use {lemma_with_reads, lemma_with_keeps};

    lemma_call_keys();
    lemma_field_wf(m, "content"@);
    reveal_strlit("");
    assert(""@ =~= Seq::<char>::empty());
}

/// A conversation is sent message by message, in order.
pub proof fn lemma_converted_in_order(s: Seq<JsonView>, t: Seq<JsonView>)
    ensures
        converted_all(s + t) == converted_all(s) + converted_all(t),
        s.len() == 1 ==> converted_all(s) == converted(s[0]),
    decreases t.len(),
{
    if t.len() == 0 {
        assert(s + t =~= s);
        assert(converted_all(s) + converted_all(t) =~= converted_all(s));
    } else {
        assert((s + t).drop_last() =~= s + t.drop_last());
        lemma_converted_in_order(s, t.drop_last());
        assert(converted_all(s + t) =~= converted_all(s) + converted_all(t));
    }
    if s.len() == 1 {
        assert(s.drop_last() =~= Seq::<JsonView>::empty());
        assert(converted_all(s.drop_last()) =~= Seq::<JsonView>::empty());
        assert(converted_all(s) =~= converted(s[0]));
    }
}

/// The test for tools that have a name.
pub open spec fn named() -> spec_fn(JsonView) -> bool {
    |v: JsonView| !lacks(v, "name"@)
}

/// The value offers the tool as a function.
pub open spec fn offers(x: JsonView, v: JsonView) -> bool {
    &&& gives(x, "type"@, "function"@)
    &&& x.field("function"@) matches Some(f)
    &&& f.field("name"@) == v.field("name"@)
    &&& takes_text(f, "description"@, v, "description"@, Seq::empty())
    &&& v.field("input_schema"@) is Some ==> f.field("parameters"@) == v.field("input_schema"@)
    &&& v.field("input_schema"@) is None ==> {
        &&& f.field("parameters"@) matches Some(p)
        &&& gives(p, "type"@, "object"@)
        &&& p.field("properties"@) == Some(empty_object())
    }
}

proof fn lemma_offered(name: Seq<char>, v: JsonView)
    requires
        gives(v, "name"@, name),
        v.wf(),
    ensures
        offers(function_tool(name, v), v),
        function_tool(name, v).wf(),
{
    broadcast use {lemma_with_reads, lemma_with_keeps};

    lemma_tool_keys();
    lemma_field_wf(v, "input_schema"@);
    reveal_strlit("");
    assert(""@ =~= Seq::<char>::empty());
}

/// Tools are offered as functions, in order, but for those without a name.
pub proof fn lemma_tools_are_offered(s: Seq<JsonView>)
    requires
        all_wf(s),
    ensures
        function_tools(s).len() == keep(s, named()).len(),
        all_wf(function_tools(s)),
        forall|i: int|
            0 <= i < function_tools(s).len() ==> offers(
                #[trigger] function_tools(s)[i],
                keep(s, named())[i],
            ),
    decreases s.len(),
{
    if s.len() > 0 {
        let front = s.drop_last();
        lemma_tools_are_offered(front);
        assert(s.last().wf());
        if named()(s.last()) {
            lemma_offered(s.last().field("name"@)->0->Text_0, s.last());
        }
    }
}

/// The value is the tool with that name and description, all of whose parameters are
/// texts that must be given.
pub open spec fn is_tool(
    x: JsonView,
    name: Seq<char>,
    description: Seq<char>,
    required: Seq<Seq<char>>,
) -> bool {
    &&& gives(x, "name"@, name)
    &&& gives(x, "description"@, description)
    &&& x.field("input_schema"@) matches Some(s)
    &&& gives(s, "type"@, "object"@)
    &&& s.field("required"@) == Some(text_list(required))
    &&& s.field("properties"@) matches Some(p)
    &&& forall|i: int|
        0 <= i < required.len() ==> {
            &&& p.field(#[trigger] required[i]) matches Some(q)
            &&& gives(q, "type"@, "string"@)
        }
}

/// A list of tools names one: it stands between commas, whatever white space is
/// round it.
pub open spec fn names(list: Seq<char>, name: Seq<char>) -> bool {
    exists|i: int|
        0 <= i < pieces(list, only(',')).len() && trimmed(
            #[trigger] pieces(list, only(','))[i],
        ) == name
}

proof fn lemma_made(
    name: Seq<char>,
    description: Seq<char>,
    properties: JsonView,
    required: Seq<Seq<char>>,
)
    requires
        properties.wf(),
        forall|i: int|
            0 <= i < required.len() ==> properties.field(#[trigger] required[i]) is Some && gives(
                properties.field(required[i])->0,
                "type"@,
                "string"@,
            ),
    ensures
        is_tool(tool(name, description, properties, required), name, description, required),
{
    broadcast use {lemma_with_reads, lemma_with_keeps};

    lemma_tool_keys();
    lemma_texts_wf(required);
}

/// Tools are offered in one order: read, write, edit, bash; each of them if and only
/// if the list names it.
pub proof fn lemma_tools_are_enabled(list: Seq<char>, sandbox: Seq<char>, workdir: Seq<char>)
    ensures
        ({
            let t = enabled_tools(list, sandbox, workdir);
            let r = if names(list, "read"@) {
                1int
            } else {
                0
            };
            let w = if names(list, "write"@) {
                1int
            } else {
                0
            };
            let e = if names(list, "edit"@) {
                1int
            } else {
                0
            };
            let b = if names(list, "bash"@) {
                1int
            } else {
                0
            };
            &&& t.len() == r + w + e + b
            &&& r == 1 ==> is_tool(
                t[0],
                "read"@,
                "Read a file from the sandbox at "@ + sandbox + ". Working directory: "@ + workdir,
                seq!["path"@],
            )
            &&& w == 1 ==> is_tool(
                t[r],
                "write"@,
                "Write a file to the sandbox at "@ + sandbox + ". Working directory: "@ + workdir,
                seq!["path"@, "content"@],
            )
            &&& e == 1 ==> is_tool(
                t[r + w],
                "edit"@,
                "Edit a file in the sandbox at "@ + sandbox
                    + " using search-and-replace. Working directory: "@ + workdir,
                seq!["path"@, "old_string"@, "new_string"@],
            )
            &&& b == 1 ==> is_tool(
                t[r + w + e],
                "bash"@,
                "Run a bash command in the sandbox at "@ + sandbox + ". Working directory: "@
                    + workdir,
                seq!["command"@],
            )
        }),
{
    lemma_read_made(sandbox, workdir);
    lemma_write_made(sandbox, workdir);
    lemma_edit_made(sandbox, workdir);
    lemma_bash_made(sandbox, workdir);
}

/// The tool describes its parameter.
pub open spec fn describes_parameter(x: JsonView, name: Seq<char>, t: Seq<char>) -> bool {
    &&& x.field("input_schema"@) matches Some(s)
    &&& s.field("properties"@) matches Some(p)
    &&& p.field(name) matches Some(q)
    &&& gives(q, "description"@, t)
}

proof fn lemma_describes(
    name: Seq<char>,
    description: Seq<char>,
    properties: JsonView,
    required: Seq<Seq<char>>,
    key: Seq<char>,
    t: Seq<char>,
)
    requires
        properties.wf(),
        properties.field(key) is Some,
        gives(properties.field(key)->0, "description"@, t),
    ensures
        describes_parameter(tool(name, description, properties, required), key, t),
{
    broadcast use {lemma_with_reads, lemma_with_keeps};

    lemma_tool_keys();
    lemma_texts_wf(required);
}

/// Tools describe what they are to be given.
pub proof fn lemma_parameters_are_described(sandbox: Seq<char>, workdir: Seq<char>)
    ensures
        describes_parameter(
            crate::llm_tools::read_tool(sandbox, workdir),
            "path"@,
            "File path to read"@,
        ),
        describes_parameter(
            crate::llm_tools::write_tool(sandbox, workdir),
            "path"@,
            "File path to write"@,
        ),
        describes_parameter(
            crate::llm_tools::write_tool(sandbox, workdir),
            "content"@,
            "File content"@,
        ),
        describes_parameter(
            crate::llm_tools::bash_tool(sandbox, workdir),
            "command"@,
            "Bash command to execute"@,
        ),
        describes_parameter(
            crate::llm_tools::edit_tool(sandbox, workdir),
            "path"@,
            "File path to edit"@,
        ),
        describes_parameter(
            crate::llm_tools::edit_tool(sandbox, workdir),
            "old_string"@,
            "Text to find"@,
        ),
        describes_parameter(
            crate::llm_tools::edit_tool(sandbox, workdir),
            "new_string"@,
            "Text to replace with"@,
        ),
{
    broadcast use {lemma_with_reads, lemma_with_keeps};

    lemma_tool_keys();
    let r = empty_object().with("path"@, crate::llm_tools::string_parameter("File path to read"@));
    lemma_describes(
        "read"@,
        "Read a file from the sandbox at "@ + sandbox + ". Working directory: "@ + workdir,
        r,
        seq!["path"@],
        "path"@,
        "File path to read"@,
    );
    let w = empty_object().with(
        "path"@,
        crate::llm_tools::string_parameter("File path to write"@),
    ).with("content"@, crate::llm_tools::string_parameter("File content"@));
    let wd = "Write a file to the sandbox at "@ + sandbox + ". Working directory: "@ + workdir;
    let wr = seq!["path"@, "content"@];
    lemma_describes("write"@, wd, w, wr, "path"@, "File path to write"@);
    lemma_describes("write"@, wd, w, wr, "content"@, "File content"@);
    let b = empty_object().with(
        "command"@,
        crate::llm_tools::string_parameter("Bash command to execute"@),
    );
    lemma_describes(
        "bash"@,
        "Run a bash command in the sandbox at "@ + sandbox + ". Working directory: "@ + workdir,
        b,
        seq!["command"@],
        "command"@,
        "Bash command to execute"@,
    );
    let e = empty_object().with(
        "path"@,
        crate::llm_tools::string_parameter("File path to edit"@),
    ).with("old_string"@, crate::llm_tools::string_parameter("Text to find"@)).with(
        "new_string"@,
        crate::llm_tools::string_parameter("Text to replace with"@),
    );
    let ed = "Edit a file in the sandbox at "@ + sandbox
        + " using search-and-replace. Working directory: "@ + workdir;
    let er = seq!["path"@, "old_string"@, "new_string"@];
    lemma_describes("edit"@, ed, e, er, "path"@, "File path to edit"@);
    lemma_describes("edit"@, ed, e, er, "old_string"@, "Text to find"@);
    lemma_describes("edit"@, ed, e, er, "new_string"@, "Text to replace with"@);
}

proof fn lemma_read_made(sandbox: Seq<char>, workdir: Seq<char>)
    ensures
        is_tool(
            crate::llm_tools::read_tool(sandbox, workdir),
            "read"@,
            "Read a file from the sandbox at "@ + sandbox + ". Working directory: "@ + workdir,
            seq!["path"@],
        ),
{
    broadcast use {lemma_with_reads, lemma_with_keeps};

    lemma_tool_keys();
    lemma_made(
        "read"@,
        "Read a file from the sandbox at "@ + sandbox + ". Working directory: "@ + workdir,
        empty_object().with("path"@, crate::llm_tools::string_parameter("File path to read"@)),
        seq!["path"@],
    );
}

proof fn lemma_write_made(sandbox: Seq<char>, workdir: Seq<char>)
    ensures
        is_tool(
            crate::llm_tools::write_tool(sandbox, workdir),
            "write"@,
            "Write a file to the sandbox at "@ + sandbox + ". Working directory: "@ + workdir,
            seq!["path"@, "content"@],
        ),
{
    broadcast use {lemma_with_reads, lemma_with_keeps};

    lemma_tool_keys();
    lemma_made(
        "write"@,
        "Write a file to the sandbox at "@ + sandbox + ". Working directory: "@ + workdir,
        empty_object().with(
            "path"@,
            crate::llm_tools::string_parameter("File path to write"@),
        ).with("content"@, crate::llm_tools::string_parameter("File content"@)),
        seq!["path"@, "content"@],
    );
}

proof fn lemma_edit_made(sandbox: Seq<char>, workdir: Seq<char>)
    ensures
        is_tool(
            crate::llm_tools::edit_tool(sandbox, workdir),
            "edit"@,
            "Edit a file in the sandbox at "@ + sandbox
                + " using search-and-replace. Working directory: "@ + workdir,
            seq!["path"@, "old_string"@, "new_string"@],
        ),
{
    broadcast use {lemma_with_reads, lemma_with_keeps};

    lemma_tool_keys();
    lemma_made(
        "edit"@,
        "Edit a file in the sandbox at "@ + sandbox
            + " using search-and-replace. Working directory: "@ + workdir,
        empty_object().with(
            "path"@,
            crate::llm_tools::string_parameter("File path to edit"@),
        ).with("old_string"@, crate::llm_tools::string_parameter("Text to find"@)).with(
            "new_string"@,
            crate::llm_tools::string_parameter("Text to replace with"@),
        ),
        seq!["path"@, "old_string"@, "new_string"@],
    );
}

proof fn lemma_bash_made(sandbox: Seq<char>, workdir: Seq<char>)
    ensures
        is_tool(
            crate::llm_tools::bash_tool(sandbox, workdir),
            "bash"@,
            "Run a bash command in the sandbox at "@ + sandbox + ". Working directory: "@ + workdir,
            seq!["command"@],
        ),
{
    broadcast use {lemma_with_reads, lemma_with_keeps};

    lemma_tool_keys();
    lemma_made(
        "bash"@,
        "Run a bash command in the sandbox at "@ + sandbox + ". Working directory: "@ + workdir,
        empty_object().with(
            "command"@,
            crate::llm_tools::string_parameter("Bash command to execute"@),
        ),
        seq!["command"@],
    );
}

proof fn lemma_types()
    ensures
        ""@ != "tool_use"@,
        ""@ != "tool_result"@,
        ""@ != "text"@,
        "tool_use"@ != "tool_result"@,
        "tool_use"@ != "text"@,
        "tool_result"@ != "text"@,
{
    reveal_strlit("");
    reveal_strlit("tool_use");
    reveal_strlit("tool_result");
    reveal_strlit("text");
    assert(""@.len() == 0);
    assert("tool_use"@.len() == 8);
    assert("tool_result"@.len() == 11);
    assert("text"@.len() == 4);
}

proof fn lemma_call_keys()
    ensures
        "type"@ != "id"@,
        "type"@ != "function"@,
        "type"@ != "name"@,
        "type"@ != "arguments"@,
        "type"@ != "role"@,
        "type"@ != "tool_call_id"@,
        "type"@ != "content"@,
        "type"@ != "tool_calls"@,
        "type"@ != "assistant"@,
        "type"@ != "user"@,
        "id"@ != "function"@,
        "id"@ != "name"@,
        "id"@ != "arguments"@,
        "id"@ != "role"@,
        "id"@ != "tool_call_id"@,
        "id"@ != "content"@,
        "id"@ != "tool_calls"@,
        "id"@ != "assistant"@,
        "id"@ != "user"@,
        "function"@ != "name"@,
        "function"@ != "arguments"@,
        "function"@ != "role"@,
        "function"@ != "tool_call_id"@,
        "function"@ != "content"@,
        "function"@ != "tool_calls"@,
        "function"@ != "assistant"@,
        "function"@ != "user"@,
        "name"@ != "arguments"@,
        "name"@ != "role"@,
        "name"@ != "tool_call_id"@,
        "name"@ != "content"@,
        "name"@ != "tool_calls"@,
        "name"@ != "assistant"@,
        "name"@ != "user"@,
        "arguments"@ != "role"@,
        "arguments"@ != "tool_call_id"@,
        "arguments"@ != "content"@,
        "arguments"@ != "tool_calls"@,
        "arguments"@ != "assistant"@,
        "arguments"@ != "user"@,
        "role"@ != "tool_call_id"@,
        "role"@ != "content"@,
        "role"@ != "tool_calls"@,
        "role"@ != "assistant"@,
        "role"@ != "user"@,
        "tool_call_id"@ != "content"@,
        "tool_call_id"@ != "tool_calls"@,
        "tool_call_id"@ != "assistant"@,
        "tool_call_id"@ != "user"@,
        "content"@ != "tool_calls"@,
        "content"@ != "assistant"@,
        "content"@ != "user"@,
        "tool_calls"@ != "assistant"@,
        "tool_calls"@ != "user"@,
        "assistant"@ != "user"@,
{
    reveal_strlit("type");
    reveal_strlit("id");
    reveal_strlit("function");
    reveal_strlit("name");
    reveal_strlit("arguments");
    reveal_strlit("role");
    reveal_strlit("tool_call_id");
    reveal_strlit("content");
    reveal_strlit("tool_calls");
    reveal_strlit("assistant");
    reveal_strlit("user");
    assert("type"@.len() == 4);
    assert("id"@.len() == 2);
    assert("function"@.len() == 8);
    assert("name"@.len() == 4);
    assert("arguments"@.len() == 9);
    assert("role"@.len() == 4);
    assert("tool_call_id"@.len() == 12);
    assert("content"@.len() == 7);
    assert("tool_calls"@.len() == 10);
    assert("assistant"@.len() == 9);
    assert("user"@.len() == 4);
    assert("type"@[0] == 't');
    assert("name"@[0] == 'n');
    assert("role"@[0] == 'r');
    assert("user"@[0] == 'u');
    assert("arguments"@[1] == 'r');
    assert("assistant"@[1] == 's');
}

proof fn lemma_tool_keys()
    ensures
        "type"@ != "function"@,
        "type"@ != "name"@,
        "type"@ != "description"@,
        "type"@ != "parameters"@,
        "type"@ != "properties"@,
        "type"@ != "required"@,
        "type"@ != "input_schema"@,
        "type"@ != "path"@,
        "type"@ != "content"@,
        "type"@ != "old_string"@,
        "type"@ != "new_string"@,
        "type"@ != "command"@,
        "function"@ != "name"@,
        "function"@ != "description"@,
        "function"@ != "parameters"@,
        "function"@ != "properties"@,
        "function"@ != "required"@,
        "function"@ != "input_schema"@,
        "function"@ != "path"@,
        "function"@ != "content"@,
        "function"@ != "old_string"@,
        "function"@ != "new_string"@,
        "function"@ != "command"@,
        "name"@ != "description"@,
        "name"@ != "parameters"@,
        "name"@ != "properties"@,
        "name"@ != "required"@,
        "name"@ != "input_schema"@,
        "name"@ != "path"@,
        "name"@ != "content"@,
        "name"@ != "old_string"@,
        "name"@ != "new_string"@,
        "name"@ != "command"@,
        "description"@ != "parameters"@,
        "description"@ != "properties"@,
        "description"@ != "required"@,
        "description"@ != "input_schema"@,
        "description"@ != "path"@,
        "description"@ != "content"@,
        "description"@ != "old_string"@,
        "description"@ != "new_string"@,
        "description"@ != "command"@,
        "parameters"@ != "properties"@,
        "parameters"@ != "required"@,
        "parameters"@ != "input_schema"@,
        "parameters"@ != "path"@,
        "parameters"@ != "content"@,
        "parameters"@ != "old_string"@,
        "parameters"@ != "new_string"@,
        "parameters"@ != "command"@,
        "properties"@ != "required"@,
        "properties"@ != "input_schema"@,
        "properties"@ != "path"@,
        "properties"@ != "content"@,
        "properties"@ != "old_string"@,
        "properties"@ != "new_string"@,
        "properties"@ != "command"@,
        "required"@ != "input_schema"@,
        "required"@ != "path"@,
        "required"@ != "content"@,
        "required"@ != "old_string"@,
        "required"@ != "new_string"@,
        "required"@ != "command"@,
        "input_schema"@ != "path"@,
        "input_schema"@ != "content"@,
        "input_schema"@ != "old_string"@,
        "input_schema"@ != "new_string"@,
        "input_schema"@ != "command"@,
        "path"@ != "content"@,
        "path"@ != "old_string"@,
        "path"@ != "new_string"@,
        "path"@ != "command"@,
        "content"@ != "old_string"@,
        "content"@ != "new_string"@,
        "content"@ != "command"@,
        "old_string"@ != "new_string"@,
        "old_string"@ != "command"@,
        "new_string"@ != "command"@,
{
    reveal_strlit("type");
    reveal_strlit("function");
    reveal_strlit("name");
    reveal_strlit("description");
    reveal_strlit("parameters");
    reveal_strlit("properties");
    reveal_strlit("required");
    reveal_strlit("input_schema");
    reveal_strlit("path");
    reveal_strlit("content");
    reveal_strlit("old_string");
    reveal_strlit("new_string");
    reveal_strlit("command");
    assert("type"@.len() == 4);
    assert("function"@.len() == 8);
    assert("name"@.len() == 4);
    assert("description"@.len() == 11);
    assert("parameters"@.len() == 10);
    assert("properties"@.len() == 10);
    assert("required"@.len() == 8);
    assert("input_schema"@.len() == 12);
    assert("path"@.len() == 4);
    assert("content"@.len() == 7);
    assert("old_string"@.len() == 10);
    assert("new_string"@.len() == 10);
    assert("command"@.len() == 7);
    assert("type"@[0] == 't');
    assert("name"@[0] == 'n');
    assert("path"@[0] == 'p');
    assert("function"@[0] == 'f');
    assert("required"@[0] == 'r');
    assert("parameters"@[1] == 'a');
    assert("properties"@[1] == 'r');
    assert("parameters"@[0] == 'p');
    assert("old_string"@[0] == 'o');
    assert("new_string"@[0] == 'n');
    assert("properties"@[0] == 'p');
    assert("content"@[2] == 'n');
    assert("command"@[2] == 'm');
}

} // verus!
