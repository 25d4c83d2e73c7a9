//! Messages and tools in the form of chat completions: one list of messages with
//! plain text, tool calls and tool results each in a place of their own.
use vstd::prelude::*;

use crate::json::empty_object;
use crate::json::Json;
use crate::json::JsonView;
use crate::json_text::render;
use crate::json_text::rendered;
use crate::module::all_wf;
use crate::module::lemma_field_wf;
use crate::module::make_message;
use crate::module::message;
use crate::order::lemma_take_step;
use crate::order::views;
use crate::text::cat2;
use crate::text::decimal;
use crate::text::decimal_text;
use crate::text::join;
use crate::text::joined;
use crate::text::same;

verus! {

/// The field of a value, or another value where there is none.
pub open spec fn field_or(v: JsonView, key: Seq<char>, default: JsonView) -> JsonView {
    match v.field(key) {
        Some(x) => x,
        None => default,
    }
}

/// The field of a value, or another value where there is none.
pub fn get_or(v: &Json, key: &str, default: Json) -> (r: Json)
    ensures
        r@ == field_or(v@, key@, default@),
        v@.wf() && default@.wf() ==> r@.wf(),
{
    proof {
        if v@.wf() {
            lemma_field_wf(v@, key@);
        }
    }
    match v.get(key) {
        Some(x) => x.copy(),
        None => default,
    }
}

/// The texts in blocks of type `text`.
pub open spec fn text_blocks(blocks: Seq<JsonView>) -> Seq<Seq<char>>
    decreases blocks.len(),
{
    if blocks.len() == 0 {
        Seq::empty()
    } else {
        let rest = text_blocks(blocks.drop_last());
        let b = blocks.last();
        match b.text_field("text"@) {
            Some(t) => if b.text_or("type"@, ""@) == "text"@ {
                rest.push(t)
            } else {
                rest
            },
            None => rest,
        }
    }
}

/// A tool call, by its block at position `at`.
pub open spec fn tool_call(block: JsonView, at: nat) -> JsonView {
    let id = block.text_or("id"@, "tool_"@ + decimal(at + 1));
    let name = block.text_or("name"@, "unknown_tool"@);
    let input = field_or(block, "input"@, empty_object());
    empty_object().with("id"@, JsonView::Text(id)).with("type"@, JsonView::Text("function"@)).with(
        "function"@,
        empty_object().with("name"@, JsonView::Text(name)).with(
            "arguments"@,
            JsonView::Text(rendered(input)),
        ),
    )
}

/// The tool calls in blocks of type `tool_use`.
pub open spec fn tool_calls(blocks: Seq<JsonView>) -> Seq<JsonView>
    decreases blocks.len(),
{
    if blocks.len() == 0 {
        Seq::empty()
    } else {
        let rest = tool_calls(blocks.drop_last());
        if blocks.last().text_or("type"@, ""@) == "tool_use"@ {
            rest.push(tool_call(blocks.last(), (blocks.len() - 1) as nat))
        } else {
            rest
        }
    }
}

/// A value as text: a string as it is, anything else in JSON.
pub open spec fn stringified(v: JsonView) -> Seq<char> {
    match v.text() {
        Some(t) => t,
        None => rendered(v),
    }
}

/// A tool result, by its block.
pub open spec fn tool_result(block: JsonView) -> JsonView {
    let content = field_or(block, "content"@, JsonView::Text(""@));
    empty_object().with("role"@, JsonView::Text("tool"@)).with(
        "tool_call_id"@,
        JsonView::Text(block.text_or("tool_use_id"@, "unknown_tool_call"@)),
    ).with("content"@, JsonView::Text(stringified(content)))
}

/// The tool results in blocks of type `tool_result`.
pub open spec fn tool_results(blocks: Seq<JsonView>) -> Seq<JsonView>
    decreases blocks.len(),
{
    if blocks.len() == 0 {
        Seq::empty()
    } else {
        let rest = tool_results(blocks.drop_last());
        if blocks.last().text_or("type"@, ""@) == "tool_result"@ {
            rest.push(tool_result(blocks.last()))
        } else {
            rest
        }
    }
}

/// What an assistant said and called, as one message.
pub open spec fn assistant_message(blocks: Seq<JsonView>) -> JsonView {
    let base = message("assistant"@, JsonView::Text(joined(text_blocks(blocks), "\n"@)));
    let calls = tool_calls(blocks);
    if calls.len() > 0 {
        base.with("tool_calls"@, JsonView::List(calls))
    } else {
        base
    }
}

/// What a user sent: each tool result as a message, then the texts as one.
pub open spec fn user_messages(blocks: Seq<JsonView>) -> Seq<JsonView> {
    let texts = text_blocks(blocks);
    if texts.len() > 0 {
        tool_results(blocks).push(message("user"@, JsonView::Text(joined(texts, "\n"@))))
    } else {
        tool_results(blocks)
    }
}

/// The messages that one message becomes.
pub open spec fn converted(m: JsonView) -> Seq<JsonView> {
    let role = m.text_or("role"@, "user"@);
    let content = field_or(m, "content"@, JsonView::Text(""@));
    match content {
        JsonView::List(blocks) => if role == "assistant"@ {
            seq![assistant_message(blocks)]
        } else if role == "user"@ {
            user_messages(blocks)
        } else {
            seq![message(role, content)]
        },
        _ => seq![message(role, content)],
    }
}

/// The messages that messages become, in order.
pub open spec fn converted_all(s: Seq<JsonView>) -> Seq<JsonView>
    decreases s.len(),
{
    if s.len() == 0 {
        Seq::empty()
    } else {
        converted_all(s.drop_last()) + converted(s.last())
    }
}

/// The texts in blocks of type `text`.
pub fn texts_of_blocks(blocks: &Vec<Json>) -> (r: Vec<String>)
    ensures
        views(r@) == text_blocks(views(blocks@)),
{
    let ghost all = views(blocks@);
    let mut r: Vec<String> = Vec::new();
    let mut i: usize = 0;
    assert(all.take(0) =~= Seq::<JsonView>::empty());
    assert(views(r@) =~= Seq::<Seq<char>>::empty());
    while i < blocks.len()
        invariant
            i <= blocks@.len(),
            all == views(blocks@),
            views(r@) == text_blocks(all.take(i as int)),
        decreases blocks@.len() - i,
    {
        proof {
            lemma_take_step(all, i as int);
            assert(all[i as int] == blocks@[i as int]@);
        }
        let kind = blocks[i].text_or("type", "");
        if same(kind.as_str(), "text") {
            if let Some(t) = blocks[i].text_field("text") {
                let ghost was = views(r@);
                let ghost tv = t@;
                r.push(t);
                assert(views(r@) =~= was.push(tv));
            }
        }
        i = i + 1;
    }
    assert(all.take(i as int) =~= all);
    r
}

fn make_tool_call(block: &Json, at: usize) -> (r: Json)
    requires
        block@.wf(),
        at < usize::MAX,
    ensures
        r@ == tool_call(block@, at as nat),
        r@.wf(),
{
    let id = match block.text_field("id") {
        Some(t) => t,
        None => {
            let next = decimal_text((at + 1) as u64);
            cat2("tool_", next.as_str())
        },
    };
    let name = block.text_or("name", "unknown_tool");
    let input = get_or(block, "input", Json::object());
    let arguments = render(&input);
    let function = Json::object().set("name", Json::Text(name)).set(
        "arguments",
        Json::Text(arguments),
    );
    Json::object().set("id", Json::Text(id)).set("type", Json::of_text("function")).set(
        "function",
        function,
    )
}

fn calls_of_blocks(blocks: &Vec<Json>) -> (r: Vec<Json>)
    requires
        all_wf(views(blocks@)),
    ensures
        views(r@) == tool_calls(views(blocks@)),
        all_wf(views(r@)),
{
    let ghost all = views(blocks@);
    let mut r: Vec<Json> = Vec::new();
    let mut i: usize = 0;
    assert(all.take(0) =~= Seq::<JsonView>::empty());
    assert(views(r@) =~= Seq::<JsonView>::empty());
    while i < blocks.len()
        invariant
            i <= blocks@.len(),
            all == views(blocks@),
            all_wf(all),
            views(r@) == tool_calls(all.take(i as int)),
            all_wf(views(r@)),
        decreases blocks@.len() - i,
    {
        proof {
            lemma_take_step(all, i as int);
            assert(all[i as int] == blocks@[i as int]@);
        }
        let kind = blocks[i].text_or("type", "");
        if same(kind.as_str(), "tool_use") {
            let ghost was = views(r@);
            let c = make_tool_call(&blocks[i], i);
            let ghost cv = c@;
            r.push(c);
            assert(views(r@) =~= was.push(cv));
        }
        i = i + 1;
    }
    assert(all.take(i as int) =~= all);
    r
}

/// A value as text: a string as it is, anything else in JSON.
pub fn stringify_content(v: &Json) -> (r: String)
    requires
        v@.wf(),
    ensures
        r@ == stringified(v@),
{
    match v.as_text() {
        Some(t) => t.clone(),
        None => render(v),
    }
}

fn make_tool_result(block: &Json) -> (r: Json)
    requires
        block@.wf(),
    ensures
        r@ == tool_result(block@),
        r@.wf(),
{
    let content = get_or(block, "content", Json::of_text(""));
    let text = stringify_content(&content);
    let id = block.text_or("tool_use_id", "unknown_tool_call");
    Json::object().set("role", Json::of_text("tool")).set("tool_call_id", Json::Text(id)).set(
        "content",
        Json::Text(text),
    )
}

fn results_of_blocks(blocks: &Vec<Json>) -> (r: Vec<Json>)
    requires
        all_wf(views(blocks@)),
    ensures
        views(r@) == tool_results(views(blocks@)),
        all_wf(views(r@)),
{
    let ghost all = views(blocks@);
    let mut r: Vec<Json> = Vec::new();
    let mut i: usize = 0;
    assert(all.take(0) =~= Seq::<JsonView>::empty());
    assert(views(r@) =~= Seq::<JsonView>::empty());
    while i < blocks.len()
        invariant
            i <= blocks@.len(),
            all == views(blocks@),
            all_wf(all),
            views(r@) == tool_results(all.take(i as int)),
            all_wf(views(r@)),
        decreases blocks@.len() - i,
    {
        proof {
            lemma_take_step(all, i as int);
            assert(all[i as int] == blocks@[i as int]@);
        }
        let kind = blocks[i].text_or("type", "");
        if same(kind.as_str(), "tool_result") {
            let ghost was = views(r@);
            let c = make_tool_result(&blocks[i]);
            let ghost cv = c@;
            r.push(c);
            assert(views(r@) =~= was.push(cv));
        }
        i = i + 1;
    }
    assert(all.take(i as int) =~= all);
    r
}

/// The array holds well formed values, where they are.
proof fn lemma_items_wf(v: Vec<Json>)
    requires
        all_wf(views(v@)),
    ensures
        forall|i: int| 0 <= i < v@.len() ==> (#[trigger] v@[i])@.wf(),
{
    assert forall|i: int| 0 <= i < v@.len() implies (#[trigger] v@[i])@.wf() by {
        assert(views(v@)[i].wf());
    }
}

/// A list of well formed values as an array.
pub fn array(v: Vec<Json>) -> (r: Json)
    requires
        all_wf(views(v@)),
    ensures
        r@ == JsonView::List(views(v@)),
        r@.wf(),
{
    proof {
        lemma_items_wf(v);
    }
    Json::of_items(v)
}

fn make_assistant(blocks: &Vec<Json>) -> (r: Json)
    requires
        all_wf(views(blocks@)),
    ensures
        r@ == assistant_message(views(blocks@)),
        r@.wf(),
{
    let texts = texts_of_blocks(blocks);
    let said = join(&texts, "\n");
    let calls = calls_of_blocks(blocks);
    let base = make_message("assistant", Json::Text(said));
    if calls.len() > 0 {
        base.set("tool_calls", array(calls))
    } else {
        base
    }
}

/// The messages that one message becomes.
fn convert_message(m: &Json) -> (r: Vec<Json>)
    requires
        m@.wf(),
    ensures
        views(r@) == converted(m@),
        all_wf(views(r@)),
{
    let role = m.text_or("role", "user");
    let content = get_or(m, "content", Json::of_text(""));
    let mut out: Vec<Json> = Vec::new();
    if let Json::List(blocks) = &content {
        proof {
            Json::lemma_list(*blocks);
            lemma_field_wf(content@, ""@);
        }
        if same(role.as_str(), "assistant") {
            out.push(make_assistant(blocks));
            assert(views(out@) =~= converted(m@));
            return out;
        }
        if same(role.as_str(), "user") {
            let texts = texts_of_blocks(blocks);
            let mut r = results_of_blocks(blocks);
            if texts.len() > 0 {
                let said = join(&texts, "\n");
                let ghost was = views(r@);
                let last = make_message("user", Json::Text(said));
                let ghost lv = last@;
                r.push(last);
                assert(views(r@) =~= was.push(lv));
            }
            return r;
        }
    }
    out.push(make_message(role.as_str(), content));
    assert(views(out@) =~= converted(m@));
    out
}

/// The messages that messages become, in order.
pub fn convert_messages_to_openrouter(messages: &Vec<Json>) -> (r: Vec<Json>)
    requires
        all_wf(views(messages@)),
    ensures
        views(r@) == converted_all(views(messages@)),
        all_wf(views(r@)),
{
    let ghost all = views(messages@);
    let mut r: Vec<Json> = Vec::new();
    let mut i: usize = 0;
    assert(all.take(0) =~= Seq::<JsonView>::empty());
    assert(views(r@) =~= Seq::<JsonView>::empty());
    while i < messages.len()
        invariant
            i <= messages@.len(),
            all == views(messages@),
            all_wf(all),
            views(r@) == converted_all(all.take(i as int)),
            all_wf(views(r@)),
        decreases messages@.len() - i,
    {
        proof {
            lemma_take_step(all, i as int);
            assert(all[i as int] == messages@[i as int]@);
        }
        let mut more = convert_message(&messages[i]);
        let ghost was = r@;
        let ghost ms = more@;
        r.append(&mut more);
        proof {
            assert(r@ == was + ms);
            assert(views(r@) =~= views(was) + views(ms));
        }
        i = i + 1;
    }
    assert(all.take(i as int) =~= all);
    r
}

/// A tool with a name, in the form of chat completions.
pub open spec fn function_tool(name: Seq<char>, tool: JsonView) -> JsonView {
    let none = empty_object().with("type"@, JsonView::Text("object"@)).with(
        "properties"@,
        empty_object(),
    );
    empty_object().with("type"@, JsonView::Text("function"@)).with(
        "function"@,
        empty_object().with("name"@, JsonView::Text(name)).with(
            "description"@,
            JsonView::Text(tool.text_or("description"@, ""@)),
        ).with("parameters"@, field_or(tool, "input_schema"@, none)),
    )
}

/// The tools that have a name, in the form of chat completions.
pub open spec fn function_tools(tools: Seq<JsonView>) -> Seq<JsonView>
    decreases tools.len(),
{
    if tools.len() == 0 {
        Seq::empty()
    } else {
        let rest = function_tools(tools.drop_last());
        match tools.last().text_field("name"@) {
            Some(name) => rest.push(function_tool(name, tools.last())),
            None => rest,
        }
    }
}

fn make_function_tool(name: &str, tool: &Json) -> (r: Json)
    requires
        tool@.wf(),
    ensures
        r@ == function_tool(name@, tool@),
        r@.wf(),
{
    let none = Json::object().set("type", Json::of_text("object")).set(
        "properties",
        Json::object(),
    );
    let parameters = get_or(tool, "input_schema", none);
    let description = tool.text_or("description", "");
    let function = Json::object().set("name", Json::of_text(name)).set(
        "description",
        Json::Text(description),
    ).set("parameters", parameters);
    Json::object().set("type", Json::of_text("function")).set("function", function)
}

/// The tools that have a name, in the form of chat completions.
pub fn convert_tools_to_openrouter(tools: &Vec<Json>) -> (r: Vec<Json>)
    requires
        all_wf(views(tools@)),
    ensures
        views(r@) == function_tools(views(tools@)),
        all_wf(views(r@)),
{
    let ghost all = views(tools@);
    let mut r: Vec<Json> = Vec::new();
    let mut i: usize = 0;
    assert(all.take(0) =~= Seq::<JsonView>::empty());
    assert(views(r@) =~= Seq::<JsonView>::empty());
    while i < tools.len()
        invariant
            i <= tools@.len(),
            all == views(tools@),
            all_wf(all),
            views(r@) == function_tools(all.take(i as int)),
            all_wf(views(r@)),
        decreases tools@.len() - i,
    {
        proof {
            lemma_take_step(all, i as int);
            assert(all[i as int] == tools@[i as int]@);
        }
        if let Some(name) = tools[i].text_field("name") {
            let ghost was = views(r@);
            let t = make_function_tool(name.as_str(), &tools[i]);
            let ghost tv = t@;
            r.push(t);
            assert(views(r@) =~= was.push(tv));
        }
        i = i + 1;
    }
    assert(all.take(i as int) =~= all);
    r
}

} // verus!
