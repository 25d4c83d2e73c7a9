//! What is read in the answers of providers, and in which words a turn is refused.
use vstd::prelude::*;

use crate::json::empty_object;
use crate::json::lemma_with_keeps;
use crate::json::lemma_with_reads;
use crate::json::JsonView;
use crate::json_text::json_read;
use crate::json_text::rendered;
use crate::llm::ask;
use crate::llm::next_step;
use crate::llm::plan;
use crate::llm::PlanView;
use crate::llm::StateView;
use crate::llm::StepView;
use crate::llm_laws::is_token;
use crate::llm_laws::lemma_tools_wf;
use crate::llm_providers::answer;
use crate::llm_providers::call_blocks;
use crate::llm_providers::message_text;
use crate::llm_providers::part_texts;
use crate::llm_providers::AnswerView;
use crate::llm_providers::DefaultsView;
use crate::llm_providers::Provider;
use crate::llm_tools::enabled_tools;
use crate::module::all_wf;
use crate::module::ContextView;
use crate::module::ReplyView;
use crate::order::keep;
use crate::provider_laws::is_key;
use crate::provider_laws::named_provider;
use crate::text::decimal;
use crate::text::has;
use crate::text::head;
use crate::text::joined;
use crate::tool_laws::gives;
use crate::tool_laws::lacks;

verus! {

/// The test for parts of a message that say something.
pub open spec fn says_something() -> spec_fn(JsonView) -> bool {
    |p: JsonView| !lacks(p, "text"@) || !lacks(p, "content"@)
}

/// What a part of a message says: its text, else its content.
pub open spec fn part_says(p: JsonView) -> Seq<char> {
    if !lacks(p, "text"@) {
        p.field("text"@)->0->Text_0
    } else {
        p.field("content"@)->0->Text_0
    }
}

proof fn lemma_parts(s: Seq<JsonView>)
    ensures
        ({
            let k = keep(s, says_something());
            part_texts(s) == Seq::new(k.len(), |i: int| part_says(k[i]))
        }),
    decreases s.len(),
{
    let k = keep(s, says_something());
    if s.len() > 0 {
        lemma_parts(s.drop_last());
        let kf = keep(s.drop_last(), says_something());
        if says_something()(s.last()) {
            assert(k == kf.push(s.last()));
        }
    }
    assert(part_texts(s) =~= Seq::new(k.len(), |i: int| part_says(k[i])));
}

/// A message says its text, or what its parts say, one per line; any other content
/// says nothing.
pub proof fn lemma_messages_speak(m: JsonView)
    ensures
        m.field("content"@) matches Some(JsonView::Text(t)) ==> message_text(m) == t,
        m.field("content"@) matches Some(JsonView::List(s)) ==> {
            let k = keep(s, says_something());
            message_text(m) == joined(Seq::new(k.len(), |i: int| part_says(k[i])), "\n"@)
        },
        !(m.field("content"@) is Some && (m.field("content"@)->0 is Text || m.field("content"@)->0
            is List)) ==> message_text(m).len() == 0,
{
    if m.field("content"@) is Some && m.field("content"@)->0 is List {
        lemma_parts(m.field("content"@)->0->List_0);
    }
}

/// The number is the integer in a field.
pub open spec fn counts_as(v: JsonView, key: Seq<char>, n: i64) -> bool {
    (v.field(key) matches Some(JsonView::Unsigned(m)) && m <= i64::MAX && n == m) || v.field(key)
        == Some(JsonView::Negative(n))
}

/// There is no integer in the field.
pub open spec fn counts_nothing(v: JsonView, key: Seq<char>) -> bool {
    forall|n: i64| !(#[trigger] counts_as(v, key, n))
}

/// The number is the integer in the first of two fields that has one, or zero.
pub open spec fn is_total(v: JsonView, key: Seq<char>, other: Seq<char>, n: i64) -> bool {
    &&& counts_as(v, key, n) || counts_nothing(v, key)
    &&& counts_nothing(v, key) ==> counts_as(v, other, n) || counts_nothing(v, other)
    &&& counts_nothing(v, key) && counts_nothing(v, other) ==> n == 0
}

proof fn lemma_total(v: JsonView, key: Seq<char>, other: Seq<char>)
    ensures
        is_total(v, key, other, crate::llm_providers::count_of(v, key, other)),
{
    let n = crate::llm_providers::count_of(v, key, other);
    let a = crate::llm_providers::count_field(v, key);
    let b = crate::llm_providers::count_field(v, other);
    if a is Some {
        assert(counts_as(v, key, a->0));
    }
    if b is Some {
        assert(counts_as(v, other, b->0));
    }
}

/// The usage that an answer tells.
pub open spec fn usage_of(v: JsonView) -> JsonView {
    if v.field("usage"@) is Some {
        v.field("usage"@)->0
    } else {
        empty_object()
    }
}

/// Providers count the tokens of an answer each under names of its own; what is not
/// counted is none.
pub proof fn lemma_tokens_are_read(v: JsonView)
    ensures
        answer(Provider::Anthropic, Ok(v)) matches Ok(a) && {
            &&& is_total(usage_of(v), "input_tokens"@, "input_tokens"@, a.input_tokens)
            &&& is_total(usage_of(v), "output_tokens"@, "output_tokens"@, a.output_tokens)
        },
        answer(Provider::OpenRouter, Ok(v)) matches Ok(a) && {
            &&& is_total(usage_of(v), "prompt_tokens"@, "input_tokens"@, a.input_tokens)
            &&& is_total(usage_of(v), "completion_tokens"@, "output_tokens"@, a.output_tokens)
        },
{
    let u = usage_of(v);
    lemma_total(u, "input_tokens"@, "input_tokens"@);
    lemma_total(u, "output_tokens"@, "output_tokens"@);
    lemma_total(u, "prompt_tokens"@, "input_tokens"@);
    lemma_total(u, "completion_tokens"@, "output_tokens"@);
}

/// An answer that is no JSON fails the turn; one of the Messages API without content
/// says nothing.
pub proof fn lemma_answers_are_read(v: JsonView, m: Seq<char>)
    ensures
        answer(Provider::Anthropic, Err(m)) == Err::<AnswerView, Seq<char>>(
            "failed to parse LLM response: "@ + m,
        ),
        answer(Provider::OpenRouter, Err(m)) == Err::<AnswerView, Seq<char>>(
            "failed to parse OpenRouter response: "@ + m,
        ),
        v.field("content"@) is Some ==> answer(Provider::Anthropic, Ok(v))->Ok_0.content
            == v.field("content"@)->0,
        v.field("content"@) is None ==> answer(Provider::Anthropic, Ok(v))->Ok_0.content
            == JsonView::List(Seq::empty()),
{
}

/// A tool call that gives no name, no arguments, or arguments that are no JSON still
/// uses a tool: one that is not known, without arguments.
pub proof fn lemma_calls_are_read(k: Seq<JsonView>, i: int, f: JsonView)
    requires
        0 <= i < k.len(),
        k[i].field("function"@) == Some(f) || (k[i].field("function"@) is None && f
            == JsonView::Null),
        !lacks(f, "arguments"@) && json_read(f.field("arguments"@)->0->Text_0) is Ok ==> json_read(
            f.field("arguments"@)->0->Text_0,
        )->Ok_0.wf(),
        json_read("{}"@) is Ok ==> json_read("{}"@)->Ok_0.wf(),
    ensures
        ({
            let b = call_blocks(k)[i];
            &&& call_blocks(k).len() == k.len()
            &&& gives(b, "type"@, "tool_use"@)
            &&& !lacks(k[i], "id"@) ==> b.field("id"@) == k[i].field("id"@)
            &&& lacks(k[i], "id"@) ==> gives(b, "id"@, "or_tool_"@ + decimal((i + 1) as nat))
            &&& !lacks(f, "name"@) ==> b.field("name"@) == f.field("name"@)
            &&& lacks(f, "name"@) ==> gives(b, "name"@, "unknown_tool"@)
            &&& !lacks(f, "arguments"@) ==> match json_read(f.field("arguments"@)->0->Text_0) {
                Ok(v) => b.field("input"@) == Some(v),
                Err(_) => b.field("input"@) == Some(empty_object()),
            }
            &&& lacks(f, "arguments"@) ==> match json_read("{}"@) {
                Ok(v) => b.field("input"@) == Some(v),
                Err(_) => b.field("input"@) == Some(empty_object()),
            }
        }),
{
    broadcast use {lemma_with_reads, lemma_with_keeps};

    lemma_use_keys();
}

/// Beside a key the Messages API is offered the tools that are enabled, and told its
/// version.
pub proof fn lemma_tools_go_with_a_key(p: PlanView, m: Seq<JsonView>)
    requires
        p.provider == Provider::Anthropic,
        !is_token(p),
        all_wf(m),
    ensures
        ({
            let c = ask(p, m);
            &&& c.headers == seq![
                ("x-api-key"@, p.api_key),
                ("anthropic-version"@, "2023-06-01"@),
                ("content-type"@, "application/json"@),
            ]
            &&& exists|v: JsonView| #[trigger] offers_tools(v, p) && c.body == rendered(v)
        }),
{
    broadcast use {lemma_with_reads, lemma_with_keeps};

    lemma_ask_keys();
    reveal_strlit("oauth");
    reveal_strlit("api_key");
    assert("oauth"@.len() == 5);
    assert("api_key"@.len() == 7);
    let tools = enabled_tools(p.tools_enabled, p.sandbox_url, p.workdir);
    lemma_tools_wf(p.tools_enabled, p.sandbox_url, p.workdir);
    assert(JsonView::List(m).wf());
    assert(JsonView::List(tools).wf());
    let v = crate::llm_providers::anthropic_body(
        p.model,
        false,
        p.oauth_system,
        p.system_prompt,
        m,
        tools,
    );
    assert(empty_object().field("tools"@) is None);
    assert(offers_tools(v, p));
    assert(ask(p, m).body == rendered(v));
}

/// The value offers the tools that a plan enables, where there are any.
pub open spec fn offers_tools(v: JsonView, p: PlanView) -> bool {
    let tools = enabled_tools(p.tools_enabled, p.sandbox_url, p.workdir);
    &&& tools.len() > 0 ==> v.field("tools"@) == Some(JsonView::List(tools))
    &&& tools.len() == 0 ==> v.field("tools"@) is None
}

/// A turn that cannot be planned says why: the key was not filled in, or is missing,
/// or the user wants nothing.
pub proof fn lemma_refused_turns(ctx: ContextView, d: DefaultsView, name: Seq<char>, key: Seq<char>)
    requires
        name == "anthropic"@ || name == "openrouter"@,
        named_provider(ctx, name),
        is_key(
            ctx,
            if name == "anthropic"@ {
                "anthropic_api_key"@
            } else {
                "openrouter_api_key"@
            },
            key,
        ),
    ensures
        has(key, "{secret:"@) ==> plan(ctx, d) == Err::<PlanView, Seq<char>>(
            "provider="@ + name + " api key is unresolved secret template: '"@ + key
                + "'. set tenant secret and retry"@,
        ),
        !(has(key, "{secret:"@)) && key.len() == 0 ==> plan(ctx, d) == Err::<PlanView, Seq<char>>(
            "missing API key for provider="@ + name
                + ". expected secrets: anthropic_api_key (or api_key) for anthropic, openrouter_api_key (or api_key) for openrouter"@,
        ),
        !(has(key, "{secret:"@)) && key.len() > 0 && (lacks(ctx.fields(), "user_message"@) || gives(
            ctx.fields(),
            "user_message"@,
            Seq::empty(),
        )) ==> plan(ctx, d) == Err::<PlanView, Seq<char>>(
            "user_message is empty — nothing to send to the LLM"@,
        ),
{
    lemma_provider_words();
    crate::provider_laws::lemma_key(ctx, "anthropic_api_key"@);
    crate::provider_laws::lemma_key(ctx, "openrouter_api_key"@);
    reveal_strlit("");
    assert(""@ =~= Seq::<char>::empty());
    let t = ctx.fields().text_or("provider"@, "anthropic"@);
    assert(name == crate::text::lowered(crate::text::trimmed(t)));
    let own = if name == "anthropic"@ {
        "anthropic_api_key"@
    } else {
        "openrouter_api_key"@
    };
    let mine = crate::llm_providers::first_filled(
        seq![
            crate::keys::listed(ctx.config, own),
            crate::keys::listed(ctx.config, "api_key"@),
        ],
    );
    if key.len() == 0 && mine.len() == 0 {
        assert(key =~= mine);
    }
    assert(key == mine);
}

/// A conversation that cannot be stored fails the turn with what the files say.
pub proof fn lemma_files_fail_turns(a: AnswerView, x: ReplyView, m: Seq<char>)
    ensures
        !(200 <= x.status < 300) ==> next_step(StateView::Writing(a), Ok(x)) == StepView::Failed(
            "TemperFS $value write failed (HTTP "@ + decimal(x.status as nat) + "): "@ + head(
                x.body,
                200,
            ),
        ),
        next_step(StateView::Writing(a), Err(m)) == StepView::Failed(m),
{
}

proof fn lemma_use_keys()
    ensures
        "type"@ != "id"@,
        "type"@ != "name"@,
        "type"@ != "input"@,
        "id"@ != "name"@,
        "id"@ != "input"@,
        "name"@ != "input"@,
{
    reveal_strlit("type");
    reveal_strlit("id");
    reveal_strlit("name");
    reveal_strlit("input");
    assert("type"@.len() == 4);
    assert("id"@.len() == 2);
    assert("name"@.len() == 4);
    assert("input"@.len() == 5);
    assert("type"@[0] == 't');
    assert("name"@[0] == 'n');
}

proof fn lemma_ask_keys()
    ensures
        "model"@ != "max_tokens"@,
        "model"@ != "messages"@,
        "model"@ != "system"@,
        "model"@ != "tools"@,
        "max_tokens"@ != "messages"@,
        "max_tokens"@ != "system"@,
        "max_tokens"@ != "tools"@,
        "messages"@ != "system"@,
        "messages"@ != "tools"@,
        "system"@ != "tools"@,
{
    reveal_strlit("model");
    reveal_strlit("max_tokens");
    reveal_strlit("messages");
    reveal_strlit("system");
    reveal_strlit("tools");
    assert("model"@.len() == 5);
    assert("max_tokens"@.len() == 10);
    assert("messages"@.len() == 8);
    assert("system"@.len() == 6);
    assert("tools"@.len() == 5);
    assert("model"@[0] == 'm');
    assert("tools"@[0] == 't');
}

proof fn lemma_provider_words()
    ensures
        "anthropic"@ != "openrouter"@,
        "anthropic"@ != "open_router"@,
        "openrouter"@ != "open_router"@,
{
    reveal_strlit("anthropic");
    reveal_strlit("openrouter");
    reveal_strlit("open_router");
    assert("anthropic"@.len() == 9);
    assert("openrouter"@.len() == 10);
    assert("open_router"@.len() == 11);
}

} // verus!
