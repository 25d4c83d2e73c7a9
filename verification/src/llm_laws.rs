//! What a turn with a model asks, and what it makes of the answers.
use vstd::prelude::*;

use crate::json::empty_object;
use crate::json::lemma_with_keeps;
use crate::json::lemma_with_reads;
use crate::json::JsonView;
use crate::json_text::json_read;
use crate::json_text::rendered;
use crate::llm::after_answer;
use crate::llm::ask;
use crate::llm::next_step;
use crate::llm::route;
use crate::llm::PlanView;
use crate::llm::StateView;
use crate::llm::StepView;
use crate::llm_convert::text_blocks;
use crate::llm_providers::AnswerView;
use crate::llm_providers::Provider;
use crate::module::all_wf;
use crate::module::lemma_field_wf;
use crate::module::ReplyView;
use crate::order::keep;
use crate::text::decimal;
use crate::text::has;
use crate::text::head;
use crate::text::joined;
use crate::text::lowered;
use crate::text::starts;
use crate::text::trimmed;
use crate::tool_laws::gives;
use crate::tool_laws::lacks;
use crate::tool_laws::text_in;

verus! {

/// The test for blocks that say a text.
pub open spec fn speaks() -> spec_fn(JsonView) -> bool {
    |b: JsonView|
        b.field("type"@) == Some(JsonView::Text("text"@)) && b.field("text"@) is Some && b.field(
            "text"@,
        )->0 is Text
}

/// The test for blocks that call a tool.
pub open spec fn calls() -> spec_fn(JsonView) -> bool {
    |b: JsonView| b.field("type"@) == Some(JsonView::Text("tool_use"@))
}

/// What blocks say, one per line.
pub open spec fn spoken(b: Seq<JsonView>) -> Seq<char> {
    let k = keep(b, speaks());
    joined(Seq::new(k.len(), |i: int| text_in(k[i], "text"@)), "\n"@)
}

/// The texts of blocks are those of the blocks that say any.
pub proof fn lemma_spoken(b: Seq<JsonView>)
    ensures
        ({
            let k = keep(b, speaks());
            text_blocks(b) == Seq::new(k.len(), |i: int| text_in(k[i], "text"@))
        }),
    decreases b.len(),
{
    reveal_strlit("");
    reveal_strlit("text");
    assert(""@.len() == 0);
    assert("text"@.len() == 4);
    let k = keep(b, speaks());
    let said = Seq::new(k.len(), |i: int| text_in(k[i], "text"@));
    if b.len() > 0 {
        let front = b.drop_last();
        lemma_spoken(front);
        let kf = keep(front, speaks());
        let before = Seq::new(kf.len(), |i: int| text_in(kf[i], "text"@));
        if speaks()(b.last()) {
            assert(k == kf.push(b.last()));
            assert(said =~= before.push(text_in(b.last(), "text"@)));
        }
    }
    assert(text_blocks(b) =~= said);
}

proof fn lemma_reasons_differ()
    ensures
        "tool_use"@ != "end_turn"@,
        "tool_use"@ != "stop"@,
        "end_turn"@ != "stop"@,
{
    reveal_strlit("tool_use");
    reveal_strlit("end_turn");
    reveal_strlit("stop");
    assert("tool_use"@.len() == 8);
    assert("end_turn"@.len() == 8);
    assert("stop"@.len() == 4);
    assert("tool_use"@[0] == 't');
    assert("end_turn"@[0] == 'e');
}

proof fn lemma_params_differ()
    ensures
        "pending_tool_calls"@ != "result"@,
        "pending_tool_calls"@ != "input_tokens"@,
        "pending_tool_calls"@ != "output_tokens"@,
        "pending_tool_calls"@ != "conversation"@,
        "result"@ != "input_tokens"@,
        "result"@ != "output_tokens"@,
        "result"@ != "conversation"@,
        "input_tokens"@ != "output_tokens"@,
        "input_tokens"@ != "conversation"@,
        "output_tokens"@ != "conversation"@,
{
    reveal_strlit("pending_tool_calls");
    reveal_strlit("result");
    reveal_strlit("input_tokens");
    reveal_strlit("output_tokens");
    reveal_strlit("conversation");
    assert("pending_tool_calls"@.len() == 18);
    assert("result"@.len() == 6);
    assert("input_tokens"@.len() == 12);
    assert("output_tokens"@.len() == 13);
    assert("conversation"@.len() == 12);
    assert("input_tokens"@[0] == 'i');
    assert("conversation"@[0] == 'c');
}

proof fn lemma_block_keys()
    ensures
        "type"@ != "text"@,
        "type"@ != "id"@,
        "type"@ != "name"@,
        "type"@ != "input"@,
        "text"@ != "id"@,
        "text"@ != "name"@,
        "text"@ != "input"@,
        "id"@ != "name"@,
        "id"@ != "input"@,
        "name"@ != "input"@,
{
    reveal_strlit("type");
    reveal_strlit("text");
    reveal_strlit("id");
    reveal_strlit("name");
    reveal_strlit("input");
    assert("type"@.len() == 4);
    assert("text"@.len() == 4);
    assert("id"@.len() == 2);
    assert("name"@.len() == 4);
    assert("input"@.len() == 5);
    assert("type"@[1] == 'y');
    assert("text"@[1] == 'e');
    assert("type"@[0] == 't');
    assert("name"@[0] == 'n');
    assert("text"@[0] == 't');
}

/// An integer in JSON.
pub open spec fn is_count(v: Option<JsonView>, n: i64) -> bool {
    v == Some(
        if n < 0 {
            JsonView::Negative(n)
        } else {
            JsonView::Unsigned(n as u64)
        },
    )
}

/// Where an answer goes is decided by why the model stopped: to use tools, and
/// its calls are to be processed; at the end of its turn, and what it said is the
/// result; for any other reason, and the agent fails with it. What is handed on
/// says how many tokens there were, and holds the conversation where it is given.
pub proof fn lemma_routes(a: AnswerView, b: Seq<JsonView>, conversation: Option<Seq<char>>)
    requires
        a.content == JsonView::List(b),
    ensures
        ({
            let c = route(a, conversation);
            &&& a.stop_reason == "tool_use"@ ==> c.action == "ProcessToolCalls"@ && gives(
                c.params,
                "pending_tool_calls"@,
                rendered(JsonView::List(keep(b, calls()))),
            )
            &&& a.stop_reason == "end_turn"@ || a.stop_reason == "stop"@ ==> c.action
                == "RecordResult"@ && gives(c.params, "result"@, spoken(b))
            &&& a.stop_reason == "tool_use"@ || a.stop_reason == "end_turn"@ || a.stop_reason
                == "stop"@ ==> is_count(c.params.field("input_tokens"@), a.input_tokens)
                && is_count(c.params.field("output_tokens"@), a.output_tokens)
                && c.params.field("conversation"@) == match conversation {
                Some(t) => Some(JsonView::Text(t)),
                None => None,
            }
            &&& a.stop_reason != "tool_use"@ && a.stop_reason != "end_turn"@ && a.stop_reason
                != "stop"@ ==> c.action == "Fail"@ && gives(
                c.params,
                "error_message"@,
                "unexpected stop_reason: "@ + a.stop_reason,
            )
        }),
{
    broadcast use {lemma_with_reads, lemma_with_keeps};

    lemma_reasons_differ();
    lemma_params_differ();
    lemma_spoken(b);
    lemma_calls(b);
    assert(empty_object().field("conversation"@) is None);
}

proof fn lemma_calls(b: Seq<JsonView>)
    ensures
        keep(b, crate::llm::tool_uses()) == keep(b, calls()),
    decreases b.len(),
{
    if b.len() > 0 {
        lemma_calls(b.drop_last());
        assert(calls()(b.last()) == crate::llm::tool_uses()(b.last()));
    }
}

/// What a turn ends with, once its answer is read and, where the files hold the
/// conversation, stored there with success.
pub open spec fn turn_end(
    p: PlanView,
    messages: Seq<JsonView>,
    v: JsonView,
    stored: ReplyView,
) -> StepView {
    match after_answer(p, messages, Ok(v)) {
        StepView::Send(_, s) => next_step(s, Ok(stored)),
        other => other,
    }
}

/// The first message of a chat completion is `m`.
pub open spec fn completes_with(v: JsonView, m: JsonView) -> bool {
    exists|c: Seq<JsonView>|
        v.field("choices"@) == Some(JsonView::List(c)) && c.len() > 0 && (#[trigger] c[0]).field(
            "message"@,
        ) == Some(m)
}

/// The message calls tools.
pub open spec fn calls_tools(m: JsonView, k: Seq<JsonView>) -> bool {
    m.field("tool_calls"@) == Some(JsonView::List(k)) && k.len() > 0
}

/// A chat completion with a text and no tool calls ends the turn: the text is the
/// result that is recorded.
pub proof fn lemma_plain_text_is_recorded(
    p: PlanView,
    messages: Seq<JsonView>,
    v: JsonView,
    m: JsonView,
    t: Seq<char>,
    stored: ReplyView,
)
    requires
        p.provider == Provider::OpenRouter,
        completes_with(v, m),
        gives(m, "content"@, t),
        t.len() > 0,
        forall|k: Seq<JsonView>| !(#[trigger] calls_tools(m, k)),
        200 <= stored.status < 300,
    ensures
        ({
            let e = turn_end(p, messages, v, stored);
            &&& e is Done
            &&& e->Done_0.action == "RecordResult"@
            &&& gives(e->Done_0.params, "result"@, t)
        }),
{
    broadcast use {lemma_with_reads, lemma_with_keeps};

    lemma_block_keys();
    let a = crate::llm_providers::openrouter_answer(v);
    let b = a.content->List_0;
    let block = empty_object().with("type"@, JsonView::Text("text"@)).with(
        "text"@,
        JsonView::Text(t),
    );
    let ks = crate::llm_providers::calls_of(m);
    if ks.len() > 0 {
        assert(calls_tools(m, ks));
    }
    assert(crate::llm_providers::first_message(v) == m);
    assert(b =~= seq![block]);
    assert(block.field("type"@) == Some(JsonView::Text("text"@)));
    assert(block.field("text"@) == Some(JsonView::Text(t)));
    assert(b.drop_last() =~= Seq::<JsonView>::empty());
    assert(keep(b.drop_last(), speaks()) =~= Seq::<JsonView>::empty());
    assert(speaks()(b.last()));
    let k = keep(b, speaks());
    assert(k =~= seq![block]);
    let said = Seq::new(k.len(), |i: int| text_in(k[i], "text"@));
    assert(said =~= seq![t]);
    assert(spoken(b) == t);
    lemma_routes(a, b, None);
    lemma_routes(
        a,
        b,
        Some(rendered(JsonView::List(crate::llm::extended(messages, a)))),
    );
}

/// The block calls the tool that the call names: under its name and its id, where
/// it has one, with its arguments, where they are JSON.
pub open spec fn stands_for(b: JsonView, call: JsonView, at: int) -> bool {
    let f = call.field("function"@)->0;
    &&& gives(b, "type"@, "tool_use"@)
    &&& !lacks(call, "id"@) ==> gives(b, "id"@, text_in(call, "id"@))
    &&& lacks(call, "id"@) ==> gives(b, "id"@, "or_tool_"@ + decimal((at + 1) as nat))
    &&& call.field("function"@) is Some && !lacks(f, "name"@) ==> gives(
        b,
        "name"@,
        text_in(f, "name"@),
    )
    &&& call.field("function"@) is Some && !lacks(f, "arguments"@) ==> b.field("input"@) == Some(
        match json_read(text_in(f, "arguments"@)) {
            Ok(x) => x,
            Err(_) => empty_object(),
        },
    )
}

/// What JSON text reads as is well formed.
pub open spec fn reads_well(call: JsonView) -> bool {
    json_read(crate::llm_providers::call_arguments(call)) matches Ok(x) ==> x.wf()
}

proof fn lemma_call_stands(call: JsonView, at: nat)
    requires
        reads_well(call),
    ensures
        ({
            let b = crate::llm_providers::call_block(
                call,
                at,
                crate::llm_providers::arguments_read(crate::llm_providers::call_arguments(call)),
            );
            stands_for(b, call, at as int) && calls()(b) && b.wf()
        }),
{
    broadcast use {lemma_with_reads, lemma_with_keeps};

    lemma_block_keys();
}

proof fn lemma_keep_all_calls(b: Seq<JsonView>)
    requires
        forall|i: int| 0 <= i < b.len() ==> calls()(#[trigger] b[i]),
    ensures
        keep(b, calls()) == b,
    decreases b.len(),
{
    if b.len() > 0 {
        let front = b.drop_last();
        assert forall|i: int| 0 <= i < front.len() implies calls()(#[trigger] front[i]) by {
            assert(front[i] == b[i]);
        }
        lemma_keep_all_calls(front);
        assert(calls()(b[b.len() - 1]));
        assert(front.push(b.last()) =~= b);
    } else {
        assert(keep(b, calls()) =~= b);
    }
}

/// The calls are handed on: as many as there are, in order, each for its own.
pub open spec fn hands_on(text: Seq<char>, k: Seq<JsonView>) -> bool {
    exists|b: Seq<JsonView>|
        text == #[trigger] rendered(JsonView::List(b)) && b.len() == k.len() && forall|i: int|
            0 <= i < k.len() ==> stands_for(#[trigger] b[i], k[i], i)
}

/// A chat completion that calls tools has them processed: all its calls and no
/// others, in order.
pub proof fn lemma_tool_calls_are_processed(
    p: PlanView,
    messages: Seq<JsonView>,
    v: JsonView,
    m: JsonView,
    k: Seq<JsonView>,
    stored: ReplyView,
)
    requires
        p.provider == Provider::OpenRouter,
        completes_with(v, m),
        calls_tools(m, k),
        forall|i: int| 0 <= i < k.len() ==> reads_well(#[trigger] k[i]),
        200 <= stored.status < 300,
    ensures
        ({
            let e = turn_end(p, messages, v, stored);
            &&& e is Done
            &&& e->Done_0.action == "ProcessToolCalls"@
            &&& !lacks(e->Done_0.params, "pending_tool_calls"@)
            &&& hands_on(text_in(e->Done_0.params, "pending_tool_calls"@), k)
        }),
{
    broadcast use {lemma_with_reads, lemma_with_keeps};

    lemma_block_keys();
    lemma_reasons_differ();
    reveal_strlit("text");
    reveal_strlit("tool_use");
    assert("text"@.len() == 4);
    assert("tool_use"@.len() == 8);
    let a = crate::llm_providers::openrouter_answer(v);
    let b = a.content->List_0;
    assert(crate::llm_providers::first_message(v) == m);
    let c = crate::llm_providers::call_blocks(k);
    assert forall|i: int| 0 <= i < k.len() implies stands_for(#[trigger] c[i], k[i], i) && calls()(
        c[i],
    ) by {
        assert(reads_well(k[i]));
        lemma_call_stands(k[i], i as nat);
    }
    let text = crate::llm_providers::message_text(m);
    let said = if text.len() > 0 {
        seq![
            empty_object().with("type"@, JsonView::Text("text"@)).with(
                "text"@,
                JsonView::Text(text),
            ),
        ]
    } else {
        Seq::empty()
    };
    assert(b == said + c);
    lemma_keep_concat(said, c);
    assert(keep(said, calls()) =~= Seq::<JsonView>::empty()) by {
        if said.len() > 0 {
            assert(said.drop_last() =~= Seq::<JsonView>::empty());
            assert(keep(said.drop_last(), calls()) =~= Seq::<JsonView>::empty());
            assert(!calls()(said.last()));
        }
    }
    lemma_keep_all_calls(c);
    assert(keep(b, calls()) =~= c);
    lemma_routes(a, b, None);
    lemma_routes(
        a,
        b,
        Some(rendered(JsonView::List(crate::llm::extended(messages, a)))),
    );
    assert(hands_on(rendered(JsonView::List(c)), k));
}

proof fn lemma_keep_concat(a: Seq<JsonView>, b: Seq<JsonView>)
    ensures
        keep(a + b, calls()) == keep(a, calls()) + keep(b, calls()),
    decreases b.len(),
{
    if b.len() > 0 {
        lemma_keep_concat(a, b.drop_last());
        assert((a + b).drop_last() =~= a + b.drop_last());
        assert((a + b).last() == b.last());
        assert(keep(a + b, calls()) =~= keep(a, calls()) + keep(b, calls()));
    } else {
        assert(a + b =~= a);
        assert(keep(a, calls()) + keep(b, calls()) =~= keep(a, calls()));
    }
}

/// A chat completion never has tools processed without calling any.
pub proof fn lemma_nothing_to_process(
    p: PlanView,
    messages: Seq<JsonView>,
    v: JsonView,
    m: JsonView,
    stored: ReplyView,
)
    requires
        p.provider == Provider::OpenRouter,
        completes_with(v, m),
        200 <= stored.status < 300,
        turn_end(p, messages, v, stored) is Done,
        turn_end(p, messages, v, stored)->Done_0.action == "ProcessToolCalls"@,
    ensures
        exists|k: Seq<JsonView>| #[trigger] calls_tools(m, k),
{
    lemma_reasons_differ();
    reveal_strlit("ProcessToolCalls");
    reveal_strlit("RecordResult");
    assert("ProcessToolCalls"@.len() == 16);
    assert("RecordResult"@.len() == 12);
    let a = crate::llm_providers::openrouter_answer(v);
    let b = a.content->List_0;
    assert(crate::llm_providers::first_message(v) == m);
    let k = crate::llm_providers::calls_of(m);
    if k.len() == 0 {
        lemma_routes(a, b, None);
        lemma_routes(
            a,
            b,
            Some(rendered(JsonView::List(crate::llm::extended(messages, a)))),
        );
    } else {
        assert(calls_tools(m, k));
    }
}

/// An integer of 64 bits in a field.
pub open spec fn counts(v: JsonView, key: Seq<char>, n: u64) -> bool {
    v.field(key) == Some(JsonView::Unsigned(n)) && n <= i64::MAX
}

/// An answer of the Messages API goes where its own reason to stop says, or counts
/// as the end of a turn where it gives none; its content is taken as it is, and
/// its tokens as it counts them.
pub proof fn lemma_messages_api_answers(
    p: PlanView,
    messages: Seq<JsonView>,
    v: JsonView,
    b: Seq<JsonView>,
    stored: ReplyView,
)
    requires
        p.provider == Provider::Anthropic,
        v.field("content"@) == Some(JsonView::List(b)),
        200 <= stored.status < 300,
    ensures
        ({
            let e = turn_end(p, messages, v, stored);
            let c = e->Done_0;
            let usage = v.field("usage"@)->0;
            &&& e is Done
            &&& gives(v, "stop_reason"@, "tool_use"@) ==> c.action == "ProcessToolCalls"@ && gives(
                c.params,
                "pending_tool_calls"@,
                rendered(JsonView::List(keep(b, calls()))),
            )
            &&& gives(v, "stop_reason"@, "end_turn"@) || gives(v, "stop_reason"@, "stop"@) || lacks(
                v,
                "stop_reason"@,
            ) ==> c.action == "RecordResult"@ && gives(c.params, "result"@, spoken(b))
            &&& forall|n: u64|
                c.action != "Fail"@ && v.field("usage"@) is Some && #[trigger] counts(
                    usage,
                    "input_tokens"@,
                    n,
                ) ==> counts(c.params, "input_tokens"@, n)
            &&& forall|n: u64|
                c.action != "Fail"@ && v.field("usage"@) is Some && #[trigger] counts(
                    usage,
                    "output_tokens"@,
                    n,
                ) ==> counts(c.params, "output_tokens"@, n)
        }),
{
    lemma_reasons_differ();
    let a = crate::llm_providers::anthropic_answer(v);
    assert(a.content == JsonView::List(b));
    lemma_routes(a, b, None);
    lemma_routes(
        a,
        b,
        Some(rendered(JsonView::List(crate::llm::extended(messages, a)))),
    );
}

/// The conversation goes on with the answer as the assistant's: it is handed on
/// where the entity holds it, and stored in its file where it has one.
pub proof fn lemma_conversation_goes_on(
    p: PlanView,
    messages: Seq<JsonView>,
    v: JsonView,
    content: JsonView,
)
    requires
        p.provider == Provider::Anthropic,
        v.wf(),
        v.field("content"@) == Some(content),
    ensures
        ({
            let s = after_answer(p, messages, Ok(v));
            exists|m: JsonView|
                gives(m, "role"@, "assistant"@) && m.field("content"@) == Some(content) && {
                    let text = rendered(JsonView::List(#[trigger] messages.push(m)));
                    if p.conversation_file_id.len() > 0 {
                        &&& s is Send
                        &&& s->Send_0.method == "PUT"@
                        &&& s->Send_0.url == p.temper_api_url + "/tdata/Files('"@
                            + p.conversation_file_id + "')/$value"@
                        &&& s->Send_0.body == "{\"messages\":"@ + text + "}"@
                    } else {
                        s is Done && (s->Done_0.action != "Fail"@ ==> gives(
                            s->Done_0.params,
                            "conversation"@,
                            text,
                        ))
                    }
                }
        }),
{
    broadcast use {lemma_with_reads, lemma_with_keeps};

    reveal_strlit("role");
    reveal_strlit("content");
    assert("role"@.len() == 4);
    assert("content"@.len() == 7);
    lemma_params_differ();
    lemma_field_wf(v, "content"@);
    let m = crate::module::message("assistant"@, content);
    assert(gives(m, "role"@, "assistant"@));
    assert(m.field("content"@) == Some(content));
    let text = rendered(JsonView::List(messages.push(m)));
    assert(crate::llm::extended(messages, crate::llm_providers::anthropic_answer(v))
        == messages.push(m));
}

/// The provider is in trouble that may pass.
pub open spec fn in_trouble(p: Provider, x: ReplyView) -> bool {
    match p {
        Provider::Anthropic => x.status == 500 || x.status == 529 || (x.status == 400 && has(
            x.body,
            "\"message\":\"Error\""@,
        )),
        Provider::OpenRouter => x.status == 429 || x.status == 500 || x.status == 502 || x.status
            == 503 || x.status == 504,
    }
}

/// A provider in trouble that may pass, or out of reach, is asked the same again
/// until it was asked five times; one that answers with status 200 is heard; and
/// any other answer ends the turn at once, with what it says.
pub proof fn lemma_providers_are_asked_again(
    p: PlanView,
    m: Seq<JsonView>,
    n: nat,
    r: Result<ReplyView, Seq<char>>,
)
    requires
        n < 5,
    ensures
        ({
            let s = next_step(StateView::Asking(p, m, n), r);
            let again = r is Err || (r->Ok_0.status != 200 && in_trouble(p.provider, r->Ok_0));
            &&& again && n < 4 ==> s == StepView::Send(ask(p, m), StateView::Asking(p, m, n + 1))
            &&& again && n == 4 ==> s is Failed && starts(
                s->Failed_0,
                match p.provider {
                    Provider::Anthropic => "Anthropic API failed after 5 attempts: "@,
                    Provider::OpenRouter => "OpenRouter API failed after 5 attempts: "@,
                },
            )
            &&& r is Ok && r->Ok_0.status == 200 ==> s == after_answer(
                p,
                m,
                json_read(r->Ok_0.body),
            )
            &&& !again && r->Ok_0.status != 200 ==> s == StepView::Failed(
                match p.provider {
                    Provider::Anthropic => "Anthropic API returned "@,
                    Provider::OpenRouter => "OpenRouter API returned "@,
                } + decimal(r->Ok_0.status as nat) + ": "@ + head(r->Ok_0.body, 500),
            )
        }),
{
    let s = next_step(StateView::Asking(p, m, n), r);
    if s is Failed {
        let a = "Anthropic API failed after 5 attempts: "@;
        let o = "OpenRouter API failed after 5 attempts: "@;
        if s->Failed_0.len() >= a.len() {
            assert(s->Failed_0.subrange(0, a.len() as int) =~= a || p.provider
                == Provider::OpenRouter || !(n == 4 && (r is Err || in_trouble(
                p.provider,
                r->Ok_0,
            ) && r->Ok_0.status != 200)));
        }
        if s->Failed_0.len() >= o.len() {
            assert(s->Failed_0.subrange(0, o.len() as int) =~= o || p.provider
                == Provider::Anthropic || !(n == 4 && (r is Err || in_trouble(
                p.provider,
                r->Ok_0,
            ) && r->Ok_0.status != 200)));
        }
    }
}

proof fn lemma_body_keys()
    ensures
        "model"@ != "max_tokens"@,
        "model"@ != "messages"@,
        "model"@ != "system"@,
        "model"@ != "tools"@,
        "model"@ != "tool_choice"@,
        "max_tokens"@ != "messages"@,
        "max_tokens"@ != "system"@,
        "max_tokens"@ != "tools"@,
        "max_tokens"@ != "tool_choice"@,
        "messages"@ != "system"@,
        "messages"@ != "tools"@,
        "messages"@ != "tool_choice"@,
        "system"@ != "tools"@,
        "system"@ != "tool_choice"@,
        "tools"@ != "tool_choice"@,
{
    reveal_strlit("model");
    reveal_strlit("max_tokens");
    reveal_strlit("messages");
    reveal_strlit("system");
    reveal_strlit("tools");
    reveal_strlit("tool_choice");
    assert("model"@.len() == 5);
    assert("max_tokens"@.len() == 10);
    assert("messages"@.len() == 8);
    assert("system"@.len() == 6);
    assert("tools"@.len() == 5);
    assert("tool_choice"@.len() == 11);
    assert("model"@[0] == 'm');
    assert("tools"@[0] == 't');
}

/// The key is one of OAuth.
pub open spec fn is_token(p: PlanView) -> bool {
    let mode = lowered(trimmed(p.anthropic_auth_mode));
    mode == "oauth"@ || (mode != "api_key"@ && starts(p.api_key, "sk-ant-oat"@))
}

/// What the Messages API is asked with a key: the model that is planned, under the
/// system prompt, where there is one, with the messages as they are.
pub proof fn lemma_messages_api_is_asked(p: PlanView, m: Seq<JsonView>)
    requires
        p.provider == Provider::Anthropic,
        !is_token(p),
        all_wf(m),
    ensures
        ({
            let c = ask(p, m);
            &&& c.method == "POST"@
            &&& c.url == p.anthropic_api_url
            &&& c.headers.contains(("x-api-key"@, p.api_key))
            &&& exists|v: JsonView|
                c.body == #[trigger] rendered(v) && gives(v, "model"@, p.model) && v.field(
                    "max_tokens"@,
                ) == Some(JsonView::Unsigned(4096)) && v.field("messages"@) == Some(
                    JsonView::List(m),
                ) && v.field("system"@) == if p.system_prompt.len() > 0 {
                    Some(JsonView::Text(p.system_prompt))
                } else {
                    None
                }
        }),
{
    broadcast use {lemma_with_reads, lemma_with_keeps};

    lemma_body_keys();
    reveal_strlit("oauth");
    reveal_strlit("api_key");
    assert("oauth"@.len() == 5);
    assert("api_key"@.len() == 7);
    let tools = crate::llm_tools::enabled_tools(p.tools_enabled, p.sandbox_url, p.workdir);
    lemma_tools_wf(p.tools_enabled, p.sandbox_url, p.workdir);
    let v = crate::llm_providers::anthropic_body(
        p.model,
        false,
        p.oauth_system,
        p.system_prompt,
        m,
        tools,
    );
    let c = ask(p, m);
    assert(JsonView::List(m).wf());
    assert(JsonView::List(tools).wf());
    assert(c.body == rendered(v));
    assert(c.headers[0] == ("x-api-key"@, p.api_key));
    let base = empty_object().with("model"@, JsonView::Text(p.model)).with(
        "max_tokens"@,
        JsonView::Unsigned(4096),
    ).with("messages"@, JsonView::List(m));
    assert(base.wf());
    assert(base.field("system"@) is None);
    assert(gives(v, "model"@, p.model));
    assert(v.field("messages"@) == Some(JsonView::List(m)));
}

/// The tools that are enabled are well formed.
pub proof fn lemma_tools_wf(list: Seq<char>, sandbox: Seq<char>, workdir: Seq<char>)
    ensures
        all_wf(crate::llm_tools::enabled_tools(list, sandbox, workdir)),
{
    broadcast use {lemma_with_reads, lemma_with_keeps};

    lemma_parameters_wf();
    lemma_tool_wf(
        "read"@,
        "Read a file from the sandbox at "@ + sandbox + ". Working directory: "@ + workdir,
        empty_object().with(
            "path"@,
            crate::llm_tools::string_parameter("File path to read"@),
        ),
        seq!["path"@],
    );
    lemma_tool_wf(
        "write"@,
        "Write a file to the sandbox at "@ + sandbox + ". Working directory: "@ + workdir,
        empty_object().with(
            "path"@,
            crate::llm_tools::string_parameter("File path to write"@),
        ).with("content"@, crate::llm_tools::string_parameter("File content"@)),
        seq!["path"@, "content"@],
    );
    lemma_tool_wf(
        "edit"@,
        "Edit a file in the sandbox at "@ + sandbox
            + " using search-and-replace. Working directory: "@ + workdir,
        empty_object().with(
            "path"@,
            crate::llm_tools::string_parameter("File path to edit"@),
        ).with("old_string"@, crate::llm_tools::string_parameter("Text to find"@)).with(
            "new_string"@,
            crate::llm_tools::string_parameter("Text to replace with"@),
        ),
        seq!["path"@, "old_string"@, "new_string"@],
    );
    lemma_tool_wf(
        "bash"@,
        "Run a bash command in the sandbox at "@ + sandbox + ". Working directory: "@ + workdir,
        empty_object().with(
            "command"@,
            crate::llm_tools::string_parameter("Bash command to execute"@),
        ),
        seq!["command"@],
    );
    assert(crate::llm_tools::read_tool(sandbox, workdir).wf());
    assert(crate::llm_tools::write_tool(sandbox, workdir).wf());
    assert(crate::llm_tools::edit_tool(sandbox, workdir).wf());
    assert(crate::llm_tools::bash_tool(sandbox, workdir).wf());
}

proof fn lemma_parameters_wf()
    ensures
        forall|d: Seq<char>| (#[trigger] crate::llm_tools::string_parameter(d)).wf(),
{
    broadcast use {lemma_with_reads, lemma_with_keeps};

}

proof fn lemma_tool_wf(
    name: Seq<char>,
    description: Seq<char>,
    properties: JsonView,
    required: Seq<Seq<char>>,
)
    ensures
        properties.wf() ==> crate::llm_tools::tool(name, description, properties, required).wf(),
{
    broadcast use {lemma_with_reads, lemma_with_keeps};

    let list = crate::json::text_list(required);
    assert(list.wf()) by {
        assert forall|i: int| 0 <= i < required.len() implies (#[trigger] list->List_0[i]).wf() by {
            assert(list->List_0[i] == JsonView::Text(required[i]));
        }
    }
}

} // verus!
