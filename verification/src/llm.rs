//! One turn of an agent with a model, as steps: each step sends a call, and its
//! reply leads to the next.
use vstd::prelude::*;

use crate::json::empty_object;
use crate::json::Json;
use crate::json::JsonView;
use crate::json_text::json_read;
use crate::json_text::json_read_list;
use crate::json_text::parse;
use crate::json_text::parse_list;
use crate::json_text::plain;
use crate::json_text::render;
use crate::json_text::rendered;
use crate::json_text::DEEPEST;
use crate::llm_convert::array;
use crate::llm_convert::text_blocks;
use crate::llm_convert::texts_of_blocks;
use crate::llm_providers::answer;
use crate::llm_providers::anthropic_body;
use crate::llm_providers::anthropic_headers;
use crate::llm_providers::build_anthropic_body;
use crate::llm_providers::build_anthropic_headers;
use crate::llm_providers::build_openrouter_body;
use crate::llm_providers::build_openrouter_headers;
use crate::llm_providers::detect_anthropic_oauth_mode;
use crate::llm_providers::is_unresolved_secret_template;
use crate::llm_providers::can_judge;
use crate::llm_providers::judge_reply;
use crate::llm_providers::normalize_provider;
use crate::llm_providers::oauth_mode;
use crate::llm_providers::openrouter_body;
use crate::llm_providers::openrouter_headers;
use crate::llm_providers::provider_key;
use crate::llm_providers::provider_name;
use crate::llm_providers::read_answer;
use crate::llm_providers::resolve_provider_api_key;
use crate::llm_providers::tellable;
use crate::llm_providers::verdict;
use crate::llm_providers::AnswerView;
use crate::llm_providers::DefaultsView;
use crate::llm_providers::LlmResponse;
use crate::llm_providers::ModelDefaults;
use crate::llm_providers::Provider;
use crate::llm_providers::Verdict;
use crate::llm_providers::VerdictView;
use crate::llm_tools::build_tool_definitions;
use crate::llm_tools::enabled_tools;
use crate::module::all_wf;
use crate::module::call_to_read;
use crate::module::call_to_write;
use crate::module::copy_values;
use crate::module::is_success;
use crate::module::lemma_field_wf;
use crate::module::make_message;
use crate::module::message;
use crate::module::messages_of;
use crate::module::reading_call;
use crate::module::result_view;
use crate::module::stored_messages;
use crate::module::writing_call;
use crate::module::CallView;
use crate::module::Callback;
use crate::module::CallbackView;
use crate::module::ContextView;
use crate::module::HttpCall;
use crate::module::HttpReply;
use crate::module::ModuleContext;
use crate::module::ReplyView;
use crate::numerals::parse_signed;
use crate::numerals::signed_number;
use crate::order::lemma_take_step;
use crate::order::keep;
use crate::order::opt_view;
use crate::order::views;
use crate::text::can_cut;
use crate::text::cat2;
use crate::text::cat3;
use crate::text::cat5;
use crate::text::cuttable;
use crate::text::decimal_text;
use crate::text::has;
use crate::text::head;
use crate::text::head_text;
use crate::text::join;
use crate::text::joined;
use crate::text::same;
use crate::text::signed;
use crate::text::signed_text;

verus! {

/// How often a provider is asked before it counts as failing.
pub const ATTEMPTS: u32 = 5;

/// What a turn goes by.
pub struct PlanView {
    /// The provider.
    pub provider: Provider,
    /// The key for it.
    pub api_key: Seq<char>,
    /// The model.
    pub model: Seq<char>,
    /// What the agent is told to be.
    pub system_prompt: Seq<char>,
    /// What the user wants.
    pub user_message: Seq<char>,
    /// The tools that are enabled.
    pub tools_enabled: Seq<char>,
    /// Where the tools work.
    pub sandbox_url: Seq<char>,
    /// The directory in which they work.
    pub workdir: Seq<char>,
    /// The address of the Messages API.
    pub anthropic_api_url: Seq<char>,
    /// The address of the chat completions.
    pub openrouter_api_url: Seq<char>,
    /// How to tell an OAuth token.
    pub anthropic_auth_mode: Seq<char>,
    /// What the system parameter says beside an OAuth token.
    pub oauth_system: Seq<char>,
    /// The program that asks, beside an OAuth token.
    pub oauth_agent: Seq<char>,
    /// The site that asks.
    pub openrouter_site_url: Seq<char>,
    /// The application that asks.
    pub openrouter_app_name: Seq<char>,
    /// The file with the conversation; empty where the entity holds it.
    pub conversation_file_id: Seq<char>,
    /// The conversation that the entity holds.
    pub conversation: Seq<char>,
    /// The address of the files.
    pub temper_api_url: Seq<char>,
    /// The tenant.
    pub tenant: Seq<char>,
}

/// What a turn goes by.
pub struct TurnPlan {
    /// The provider.
    pub provider: Provider,
    /// The key for it.
    pub api_key: String,
    /// The model.
    pub model: String,
    /// What the agent is told to be.
    pub system_prompt: String,
    /// What the user wants.
    pub user_message: String,
    /// The tools that are enabled.
    pub tools_enabled: String,
    /// Where the tools work.
    pub sandbox_url: String,
    /// The directory in which they work.
    pub workdir: String,
    /// The address of the Messages API.
    pub anthropic_api_url: String,
    /// The address of the chat completions.
    pub openrouter_api_url: String,
    /// How to tell an OAuth token.
    pub anthropic_auth_mode: String,
    /// What the system parameter says beside an OAuth token.
    pub oauth_system: String,
    /// The program that asks, beside an OAuth token.
    pub oauth_agent: String,
    /// The site that asks.
    pub openrouter_site_url: String,
    /// The application that asks.
    pub openrouter_app_name: String,
    /// The file with the conversation; empty where the entity holds it.
    pub conversation_file_id: String,
    /// The conversation that the entity holds.
    pub conversation: String,
    /// The address of the files.
    pub temper_api_url: String,
    /// The tenant.
    pub tenant: String,
}

impl View for TurnPlan {
    type V = PlanView;

    open spec fn view(&self) -> PlanView {
        PlanView {
            provider: self.provider,
            api_key: self.api_key@,
            model: self.model@,
            system_prompt: self.system_prompt@,
            user_message: self.user_message@,
            tools_enabled: self.tools_enabled@,
            sandbox_url: self.sandbox_url@,
            workdir: self.workdir@,
            anthropic_api_url: self.anthropic_api_url@,
            openrouter_api_url: self.openrouter_api_url@,
            anthropic_auth_mode: self.anthropic_auth_mode@,
            oauth_system: self.oauth_system@,
            oauth_agent: self.oauth_agent@,
            openrouter_site_url: self.openrouter_site_url@,
            openrouter_app_name: self.openrouter_app_name@,
            conversation_file_id: self.conversation_file_id@,
            conversation: self.conversation@,
            temper_api_url: self.temper_api_url@,
            tenant: self.tenant@,
        }
    }
}

/// The turns that were taken.
pub open spec fn turn_count(fields: JsonView) -> i64 {
    match fields.field("turn_count"@) {
        Some(v) => match v.integer() {
            Some(n) => n,
            None => 0,
        },
        None => 0,
    }
}

/// The turns that may be taken.
pub open spec fn max_turns(fields: JsonView) -> i64 {
    match fields.text_field("max_turns"@) {
        Some(t) => match signed_number(t) {
            Some(n) => n,
            None => 20,
        },
        None => 20,
    }
}

/// The callback that ends an agent for a reason.
pub open spec fn fail_callback(reason: Seq<char>) -> CallbackView {
    CallbackView {
        action: "Fail"@,
        params: empty_object().with("error_message"@, JsonView::Text(reason)),
    }
}

/// The plan for a turn, with a provider and a key for it.
pub open spec fn plan_with(
    ctx: ContextView,
    d: DefaultsView,
    p: Provider,
    key: Seq<char>,
) -> PlanView {
    let f = ctx.fields();
    PlanView {
        provider: p,
        api_key: key,
        model: f.text_or("model"@, d.model),
        system_prompt: f.text_or("system_prompt"@, ""@),
        user_message: f.text_or("user_message"@, ""@),
        tools_enabled: f.text_or("tools_enabled"@, "read,write,edit,bash"@),
        sandbox_url: f.text_or("sandbox_url"@, ""@),
        workdir: f.text_or("workdir"@, "/workspace"@),
        anthropic_api_url: ctx.setting_or(
            "anthropic_api_url"@,
            "https://api.anthropic.com/v1/messages"@,
        ),
        openrouter_api_url: ctx.setting_or(
            "openrouter_api_url"@,
            "https://openrouter.ai/api/v1/chat/completions"@,
        ),
        anthropic_auth_mode: ctx.setting_or("anthropic_auth_mode"@, "auto"@),
        oauth_system: d.oauth_system,
        oauth_agent: d.oauth_agent,
        openrouter_site_url: ctx.setting_or("openrouter_site_url"@, ""@),
        openrouter_app_name: ctx.setting_or("openrouter_app_name"@, "temper-agent"@),
        conversation_file_id: f.text_or("conversation_file_id"@, ""@),
        conversation: f.text_or("conversation"@, ""@),
        temper_api_url: ctx.setting_or("temper_api_url"@, "http://127.0.0.1:3000"@),
        tenant: ctx.tenant,
    }
}

/// The plan for a turn, or why there can be none: the provider is not known, its
/// key is missing or not filled in, or the user wants nothing.
pub open spec fn plan(ctx: ContextView, d: DefaultsView) -> Result<PlanView, Seq<char>> {
    let name = provider_name(ctx.fields().text_or("provider"@, "anthropic"@));
    match provider_key(ctx.config, name) {
        Err(m) => Err(m),
        Ok((p, key)) => if has(key, "{secret:"@) {
            Err(
                "provider="@ + name + " api key is unresolved secret template: '"@ + key
                    + "'. set tenant secret and retry"@,
            )
        } else if key.len() == 0 {
            Err(
                "missing API key for provider="@ + name
                    + ". expected secrets: anthropic_api_key (or api_key) for anthropic, openrouter_api_key (or api_key) for openrouter"@,
            )
        } else if plan_with(ctx, d, p, key).user_message.len() == 0 {
            Err("user_message is empty — nothing to send to the LLM"@)
        } else {
            Ok(plan_with(ctx, d, p, key))
        },
    }
}

fn make_plan(
    ctx: &ModuleContext,
    d: &ModelDefaults,
    fields: &Json,
    provider: Provider,
    api_key: String,
) -> (r: TurnPlan)
    requires
        fields@ == ctx@.fields(),
    ensures
        r@ == plan_with(ctx@, d@, provider, api_key@),
{
    TurnPlan {
        provider,
        api_key,
        model: fields.text_or("model", d.model.as_str()),
        system_prompt: fields.text_or("system_prompt", ""),
        user_message: fields.text_or("user_message", ""),
        tools_enabled: fields.text_or("tools_enabled", "read,write,edit,bash"),
        sandbox_url: fields.text_or("sandbox_url", ""),
        workdir: fields.text_or("workdir", "/workspace"),
        anthropic_api_url: ctx.setting_or(
            "anthropic_api_url",
            "https://api.anthropic.com/v1/messages",
        ),
        openrouter_api_url: ctx.setting_or(
            "openrouter_api_url",
            "https://openrouter.ai/api/v1/chat/completions",
        ),
        anthropic_auth_mode: ctx.setting_or("anthropic_auth_mode", "auto"),
        oauth_system: d.oauth_system.clone(),
        oauth_agent: d.oauth_agent.clone(),
        openrouter_site_url: ctx.setting_or("openrouter_site_url", ""),
        openrouter_app_name: ctx.setting_or("openrouter_app_name", "temper-agent"),
        conversation_file_id: fields.text_or("conversation_file_id", ""),
        conversation: fields.text_or("conversation", ""),
        temper_api_url: ctx.setting_or("temper_api_url", "http://127.0.0.1:3000"),
        tenant: ctx.tenant.clone(),
    }
}

/// The plan for a turn, or why there can be none.
pub fn plan_turn(ctx: &ModuleContext, d: &ModelDefaults) -> (r: Result<TurnPlan, String>)
    ensures
        result_view(r) == plan(ctx@, d@),
{
    let fields = ctx.fields();
    let raw = fields.text_or("provider", "anthropic");
    let name = normalize_provider(raw.as_str());
    match resolve_provider_api_key(&ctx.config, name.as_str()) {
        Err(m) => Err(m),
        Ok((p, key)) => {
            if is_unresolved_secret_template(key.as_str()) {
                return Err(
                    cat5(
                        "provider=",
                        name.as_str(),
                        " api key is unresolved secret template: '",
                        key.as_str(),
                        "'. set tenant secret and retry",
                    ),
                );
            }
            if key.as_str().is_empty() {
                return Err(
                    cat3(
                        "missing API key for provider=",
                        name.as_str(),
                        ". expected secrets: anthropic_api_key (or api_key) for anthropic, openrouter_api_key (or api_key) for openrouter",
                    ),
                );
            }
            let made = make_plan(ctx, d, &fields, p, key);
            if made.user_message.as_str().is_empty() {
                return Err("user_message is empty — nothing to send to the LLM".to_string());
            }
            Ok(made)
        },
    }
}

/// The conversation at its first turn: what the user wants.
pub open spec fn first_turn(user_message: Seq<char>) -> Seq<JsonView> {
    seq![message("user"@, JsonView::Text(user_message))]
}

/// The conversation that an entity holds, where it reads as `read`; at the first
/// turn, and where it is no list, it begins anew.
pub open spec fn held_conversation(
    text: Seq<char>,
    read: Result<Seq<JsonView>, Seq<char>>,
    user_message: Seq<char>,
) -> Seq<JsonView> {
    if text.len() == 0 {
        first_turn(user_message)
    } else {
        match read {
            Ok(v) => v,
            Err(_) => first_turn(user_message),
        }
    }
}

/// The conversation in a reply from the files, where its body reads as `read`;
/// where it holds no messages, the conversation begins anew.
pub open spec fn stored_conversation(
    r: Result<ReplyView, Seq<char>>,
    read: Result<JsonView, Seq<char>>,
    user_message: Seq<char>,
) -> Seq<JsonView> {
    match (r, read) {
        (Ok(x), Ok(v)) => if x.status == 200 && stored_messages(v).len() > 0 {
            stored_messages(v)
        } else {
            first_turn(user_message)
        },
        _ => first_turn(user_message),
    }
}

fn begin_conversation(user_message: &str) -> (r: Vec<Json>)
    ensures
        views(r@) == first_turn(user_message@),
        all_wf(views(r@)),
{
    let mut r: Vec<Json> = Vec::new();
    r.push(make_message("user", Json::of_text(user_message)));
    assert(views(r@) =~= first_turn(user_message@));
    r
}

/// What a reply's body reads as; without a reply there is nothing to read.
pub open spec fn body_read(r: Result<ReplyView, Seq<char>>) -> Result<JsonView, Seq<char>> {
    match r {
        Ok(x) => json_read(x.body),
        Err(m) => Err(m),
    }
}

/// The conversation that an entity holds.
pub fn read_held_conversation(text: &str, user_message: &str) -> (r: Vec<Json>)
    ensures
        views(r@) == held_conversation(text@, json_read_list(text@), user_message@),
        all_wf(views(r@)),
{
    if text.is_empty() {
        return begin_conversation(user_message);
    }
    match parse_list(text) {
        Ok(v) => v,
        Err(_) => begin_conversation(user_message),
    }
}

/// The conversation in a reply from the files.
pub fn read_stored_conversation(
    reply: &Result<HttpReply, String>,
    user_message: &str,
) -> (r: Vec<Json>)
    ensures
        views(r@) == stored_conversation(
            result_view(*reply),
            body_read(result_view(*reply)),
            user_message@,
        ),
        all_wf(views(r@)),
{
    match reply {
        Ok(x) => {
            if x.status == 200 {
                if let Ok(v) = parse(x.body.as_str()) {
                    let m = messages_of(&v);
                    if m.len() > 0 {
                        return m;
                    }
                }
            }
            begin_conversation(user_message)
        },
        Err(_) => begin_conversation(user_message),
    }
}

/// The call that asks the provider.
pub open spec fn ask(p: PlanView, messages: Seq<JsonView>) -> CallView {
    let tools = enabled_tools(p.tools_enabled, p.sandbox_url, p.workdir);
    match p.provider {
        Provider::Anthropic => {
            let oauth = oauth_mode(p.api_key, p.anthropic_auth_mode);
            CallView {
                method: "POST"@,
                url: p.anthropic_api_url,
                headers: anthropic_headers(oauth, p.api_key, p.oauth_agent),
                body: rendered(
                    anthropic_body(
                        p.model,
                        oauth,
                        p.oauth_system,
                        p.system_prompt,
                        messages,
                        tools,
                    ),
                ),
            }
        },
        Provider::OpenRouter => CallView {
            method: "POST"@,
            url: p.openrouter_api_url,
            headers: openrouter_headers(p.api_key, p.openrouter_site_url, p.openrouter_app_name),
            body: rendered(openrouter_body(p.model, p.system_prompt, messages, tools)),
        },
    }
}

/// The call that asks the provider.
pub fn call_to_ask(p: &TurnPlan, messages: &Vec<Json>) -> (r: HttpCall)
    requires
        all_wf(views(messages@)),
    ensures
        r@ == ask(p@, views(messages@)),
{
    let tools = build_tool_definitions(
        p.tools_enabled.as_str(),
        p.sandbox_url.as_str(),
        p.workdir.as_str(),
    );
    match p.provider {
        Provider::Anthropic => {
            let oauth = detect_anthropic_oauth_mode(
                p.api_key.as_str(),
                p.anthropic_auth_mode.as_str(),
            );
            let body = build_anthropic_body(
                p.model.as_str(),
                oauth,
                p.oauth_system.as_str(),
                p.system_prompt.as_str(),
                messages,
                &tools,
            );
            HttpCall {
                method: "POST".to_string(),
                url: p.anthropic_api_url.clone(),
                headers: build_anthropic_headers(
                    oauth,
                    p.api_key.as_str(),
                    p.oauth_agent.as_str(),
                ),
                body: render(&body),
            }
        },
        Provider::OpenRouter => {
            let body = build_openrouter_body(
                p.model.as_str(),
                p.system_prompt.as_str(),
                messages,
                &tools,
            );
            HttpCall {
                method: "POST".to_string(),
                url: p.openrouter_api_url.clone(),
                headers: build_openrouter_headers(
                    p.api_key.as_str(),
                    p.openrouter_site_url.as_str(),
                    p.openrouter_app_name.as_str(),
                ),
                body: render(&body),
            }
        },
    }
}

/// The test for blocks in which a tool is used.
pub open spec fn tool_uses() -> spec_fn(JsonView) -> bool {
    |b: JsonView| b.text_field("type"@) == Some("tool_use"@)
}

/// The blocks of an answer.
pub open spec fn blocks(content: JsonView) -> Seq<JsonView> {
    match content.items() {
        Some(b) => b,
        None => Seq::empty(),
    }
}

/// An integer as a JSON value.
pub open spec fn integer_value(n: i64) -> JsonView {
    if n < 0 {
        JsonView::Negative(n)
    } else {
        JsonView::Unsigned(n as u64)
    }
}

/// The parameters of a callback after an answer: what it is about, the tokens,
/// and the conversation, where the entity holds it.
pub open spec fn answer_params(
    key: Seq<char>,
    value: Seq<char>,
    a: AnswerView,
    conversation: Option<Seq<char>>,
) -> JsonView {
    let base = empty_object().with(key, JsonView::Text(value)).with(
        "input_tokens"@,
        integer_value(a.input_tokens),
    ).with("output_tokens"@, integer_value(a.output_tokens));
    match conversation {
        Some(c) => base.with("conversation"@, JsonView::Text(c)),
        None => base,
    }
}

/// What an answer leads to: tools are used, the result is recorded, or the agent
/// fails.
pub open spec fn route(a: AnswerView, conversation: Option<Seq<char>>) -> CallbackView {
    let b = blocks(a.content);
    if a.stop_reason == "tool_use"@ {
        CallbackView {
            action: "ProcessToolCalls"@,
            params: answer_params(
                "pending_tool_calls"@,
                rendered(JsonView::List(keep(b, tool_uses()))),
                a,
                conversation,
            ),
        }
    } else if a.stop_reason == "end_turn"@ || a.stop_reason == "stop"@ {
        CallbackView {
            action: "RecordResult"@,
            params: answer_params("result"@, joined(text_blocks(b), "\n"@), a, conversation),
        }
    } else {
        fail_callback("unexpected stop_reason: "@ + a.stop_reason)
    }
}

/// An integer as a JSON value.
pub fn integer_json(n: i64) -> (r: Json)
    ensures
        r@ == integer_value(n),
        r@.wf(),
{
    if n < 0 {
        Json::Negative(n)
    } else {
        Json::Unsigned(n as u64)
    }
}

fn make_answer_params(
    key: &str,
    value: String,
    a: &LlmResponse,
    conversation: &Option<String>,
) -> (r: Json)
    ensures
        r@ == answer_params(key@, value@, a@, opt_view(*conversation)),
{
    let base = Json::object().set(key, Json::Text(value)).set(
        "input_tokens",
        integer_json(a.input_tokens),
    ).set("output_tokens", integer_json(a.output_tokens));
    match conversation {
        Some(c) => base.set("conversation", Json::of_text(c.as_str())),
        None => base,
    }
}

fn fail(reason: String) -> (r: Callback)
    ensures
        r@ == fail_callback(reason@),
{
    Callback {
        action: "Fail".to_string(),
        params: Json::object().set("error_message", Json::Text(reason)),
    }
}

fn blocks_of(content: &Json) -> (r: Vec<Json>)
    requires
        content@.wf(),
    ensures
        views(r@) == blocks(content@),
        all_wf(views(r@)),
{
    proof {
        lemma_field_wf(content@, ""@);
    }
    match content.as_items() {
        Some(b) => copy_values(b),
        None => {
            let none: Vec<Json> = Vec::new();
            assert(views(none@) =~= Seq::empty());
            none
        },
    }
}

fn tool_use_blocks(b: &Vec<Json>) -> (r: Vec<Json>)
    requires
        all_wf(views(b@)),
    ensures
        views(r@) == keep(views(b@), tool_uses()),
        all_wf(views(r@)),
{
    let ghost all = views(b@);
    let mut r: Vec<Json> = Vec::new();
    let mut i: usize = 0;
    assert(all.take(0) =~= Seq::<JsonView>::empty());
    assert(views(r@) =~= Seq::<JsonView>::empty());
    while i < b.len()
        invariant
            i <= b@.len(),
            all == views(b@),
            all_wf(all),
            views(r@) == keep(all.take(i as int), tool_uses()),
            all_wf(views(r@)),
        decreases b@.len() - i,
    {
        proof {
            lemma_take_step(all, i as int);
            assert(all[i as int] == b@[i as int]@);
        }
        if let Some(kind) = b[i].text_field("type") {
            if same(kind.as_str(), "tool_use") {
                let ghost was = views(r@);
                r.push(b[i].copy());
                assert(views(r@) =~= was.push(all[i as int]));
            }
        }
        i = i + 1;
    }
    assert(all.take(i as int) =~= all);
    r
}

/// What an answer leads to.
pub fn route_answer(a: &LlmResponse, conversation: &Option<String>) -> (r: Callback)
    requires
        a.content@.wf(),
    ensures
        r@ == route(a@, opt_view(*conversation)),
{
    let b = blocks_of(&a.content);
    let why = a.stop_reason.as_str();
    if same(why, "tool_use") {
        let calls = array(tool_use_blocks(&b));
        let text = render(&calls);
        Callback {
            action: "ProcessToolCalls".to_string(),
            params: make_answer_params("pending_tool_calls", text, a, conversation),
        }
    } else if same(why, "end_turn") || same(why, "stop") {
        let texts = texts_of_blocks(&b);
        let text = join(&texts, "\n");
        Callback {
            action: "RecordResult".to_string(),
            params: make_answer_params("result", text, a, conversation),
        }
    } else {
        fail(cat2("unexpected stop_reason: ", why))
    }
}

/// Where a turn waits for a reply.
pub enum StateView {
    /// The conversation is read from the files.
    Reading(PlanView),
    /// The provider is asked: the conversation, and how often it was asked
    /// before.
    Asking(PlanView, Seq<JsonView>, nat),
    /// The conversation is stored in the files; the answer to route after that.
    Writing(AnswerView),
}

/// Where a turn waits for a reply.
pub enum LlmState {
    /// The conversation is read from the files.
    Reading(TurnPlan),
    /// The provider is asked: the conversation, and how often it was asked
    /// before.
    Asking(TurnPlan, Vec<Json>, u32),
    /// The conversation is stored in the files; the answer to route after that.
    Writing(LlmResponse),
}

impl View for LlmState {
    type V = StateView;

    open spec fn view(&self) -> StateView {
        match *self {
            LlmState::Reading(p) => StateView::Reading(p@),
            LlmState::Asking(p, m, n) => StateView::Asking(p@, views(m@), n as nat),
            LlmState::Writing(a) => StateView::Writing(a@),
        }
    }
}

impl StateView {
    /// The values in the state are well formed, and the provider was not asked
    /// too often.
    pub open spec fn wf(self) -> bool {
        match self {
            StateView::Reading(_) => true,
            StateView::Asking(_, m, n) => all_wf(m) && n < ATTEMPTS,
            StateView::Writing(a) => a.content.wf(),
        }
    }
}

/// What a turn does next.
pub enum StepView {
    /// It sends a call and waits for the reply.
    Send(CallView, StateView),
    /// It ends with a callback.
    Done(CallbackView),
    /// It ends with an error.
    Failed(Seq<char>),
}

/// What a turn does next.
pub enum LlmStep {
    /// It sends a call and waits for the reply.
    Send(HttpCall, LlmState),
    /// It ends with a callback.
    Done(Callback),
    /// It ends with an error.
    Failed(String),
}

impl View for LlmStep {
    type V = StepView;

    open spec fn view(&self) -> StepView {
        match *self {
            LlmStep::Send(c, s) => StepView::Send(c@, s@),
            LlmStep::Done(c) => StepView::Done(c@),
            LlmStep::Failed(m) => StepView::Failed(m@),
        }
    }
}

/// The first step of a turn. A turn beyond the budget fails; a conversation in
/// the files is read first.
pub open spec fn first_step(ctx: ContextView, d: DefaultsView) -> StepView {
    let taken = turn_count(ctx.fields());
    let allowed = max_turns(ctx.fields());
    if taken >= allowed {
        StepView::Done(
            fail_callback(
                "turn budget exhausted ("@ + signed(taken as int) + "/"@ + signed(allowed as int)
                    + ")"@,
            ),
        )
    } else {
        match plan(ctx, d) {
            Err(m) => StepView::Failed(m),
            Ok(p) => if p.conversation_file_id.len() > 0 {
                StepView::Send(
                    reading_call(p.temper_api_url, p.tenant, p.conversation_file_id),
                    StateView::Reading(p),
                )
            } else {
                let m = held_conversation(
                    p.conversation,
                    json_read_list(p.conversation),
                    p.user_message,
                );
                StepView::Send(ask(p, m), StateView::Asking(p, m, 0))
            },
        }
    }
}

/// What a provider failing for good is told as.
pub open spec fn exhausted(p: Provider, last: Seq<char>) -> Seq<char> {
    match p {
        Provider::Anthropic => "Anthropic API failed after 5 attempts: "@ + last,
        Provider::OpenRouter => "OpenRouter API failed after 5 attempts: "@ + last,
    }
}

/// The conversation with an answer.
pub open spec fn extended(messages: Seq<JsonView>, a: AnswerView) -> Seq<JsonView> {
    messages.push(message("assistant"@, a.content))
}

/// The step after an accepted reply that reads as `read`: the answer is stored,
/// where the files hold the conversation, or routed.
pub open spec fn after_answer(
    p: PlanView,
    messages: Seq<JsonView>,
    read: Result<JsonView, Seq<char>>,
) -> StepView {
    match answer(p.provider, read) {
        Err(m) => StepView::Failed(m),
        Ok(a) => {
            let text = rendered(JsonView::List(extended(messages, a)));
            if p.conversation_file_id.len() > 0 {
                StepView::Send(
                    writing_call(p.temper_api_url, p.tenant, p.conversation_file_id, text),
                    StateView::Writing(a),
                )
            } else {
                StepView::Done(route(a, Some(text)))
            }
        },
    }
}

/// The messages, handed on as text, are what a turn that holds that text goes on
/// from, whatever the user said at first; that is claimed of plain messages only.
pub open spec fn reads_back(m: Seq<JsonView>) -> bool {
    plain(JsonView::List(m), DEEPEST as nat) ==> {
        let text = rendered(JsonView::List(m));
        &&& json_read_list(text) == Ok::<Seq<JsonView>, Seq<char>>(m)
        &&& forall|u: Seq<char>| #[trigger] held_conversation(text, json_read_list(text), u) == m
    }
}

/// The step after a reply.
pub open spec fn next_step(s: StateView, r: Result<ReplyView, Seq<char>>) -> StepView {
    match s {
        StateView::Reading(p) => {
            let m = stored_conversation(r, body_read(r), p.user_message);
            StepView::Send(ask(p, m), StateView::Asking(p, m, 0))
        },
        StateView::Asking(p, m, n) => match verdict(p.provider, r) {
            VerdictView::Accept(body) => after_answer(p, m, json_read(body)),
            VerdictView::Retry(why) => if n + 1 < ATTEMPTS {
                StepView::Send(ask(p, m), StateView::Asking(p, m, n + 1))
            } else {
                StepView::Failed(exhausted(p.provider, why))
            },
            VerdictView::Refuse(why) => StepView::Failed(why),
        },
        StateView::Writing(a) => match r {
            Ok(x) => if is_success(x.status) {
                StepView::Done(route(a, None))
            } else {
                StepView::Failed(write_failure(x))
            },
            Err(m) => StepView::Failed(m),
        },
    }
}

/// What a refusal by the files is told as.
pub open spec fn write_failure(x: ReplyView) -> Seq<char> {
    "TemperFS $value write failed (HTTP "@ + crate::text::decimal(x.status as nat) + "): "@ + head(
        x.body,
        200,
    )
}

/// Where the first bytes of a reply are told, no character lies across the cut.
pub open spec fn answerable(s: StateView, r: Result<ReplyView, Seq<char>>) -> bool {
    match s {
        StateView::Reading(_) => true,
        StateView::Asking(p, _, _) => tellable(p.provider, r),
        StateView::Writing(_) => r matches Ok(x) ==> !is_success(x.status) ==> cuttable(
            x.body,
            200,
        ),
    }
}

/// Whether a turn can go on from a reply: where the first bytes of its body are
/// told, no character lies across the cut.
pub fn can_resume(state: &LlmState, reply: &Result<HttpReply, String>) -> (r: bool)
    ensures
        r == answerable(state@, result_view(*reply)),
{
    match state {
        LlmState::Reading(_) => true,
        LlmState::Asking(p, _, _) => can_judge(p.provider, reply),
        LlmState::Writing(_) => match reply {
            Ok(x) => (200 <= x.status && x.status < 300) || can_cut(x.body.as_str(), 200),
            Err(_) => true,
        },
    }
}

/// The first step of a turn.
pub fn start_turn(ctx: &ModuleContext, d: &ModelDefaults) -> (r: LlmStep)
    ensures
        r@ == first_step(ctx@, d@),
        r@ is Send ==> r@->Send_1.wf(),
{
    let fields = ctx.fields();
    let taken: i64 = match fields.get("turn_count") {
        Some(v) => match v.as_integer() {
            Some(n) => n,
            None => 0,
        },
        None => 0,
    };
    let allowed: i64 = match fields.text_field("max_turns") {
        Some(t) => match parse_signed(t.as_str()) {
            Some(n) => n,
            None => 20,
        },
        None => 20,
    };
    if taken >= allowed {
        let a = signed_text(taken);
        let b = signed_text(allowed);
        return LlmStep::Done(
            fail(cat5("turn budget exhausted (", a.as_str(), "/", b.as_str(), ")")),
        );
    }
    match plan_turn(ctx, d) {
        Err(m) => LlmStep::Failed(m),
        Ok(p) => {
            if !p.conversation_file_id.as_str().is_empty() {
                let call = call_to_read(
                    p.temper_api_url.as_str(),
                    p.tenant.as_str(),
                    p.conversation_file_id.as_str(),
                );
                LlmStep::Send(call, LlmState::Reading(p))
            } else {
                let m = read_held_conversation(p.conversation.as_str(), p.user_message.as_str());
                let call = call_to_ask(&p, &m);
                LlmStep::Send(call, LlmState::Asking(p, m, 0))
            }
        },
    }
}

/// The step after an accepted reply that reads as `read`.
pub fn take_answer(p: TurnPlan, messages: Vec<Json>, read: Result<Json, String>) -> (r: LlmStep)
    requires
        all_wf(views(messages@)),
        read is Ok ==> read->Ok_0@.wf(),
    ensures
        r@ == after_answer(p@, views(messages@), result_view(read)),
        r@ is Send ==> r@->Send_1.wf(),
        // What is handed on, the next turn reads back.
        answer(p.provider, result_view(read)) matches Ok(a) ==> reads_back(
            extended(views(messages@), a),
        ),
{
    match read_answer(p.provider, read) {
        Err(m) => LlmStep::Failed(m),
        Ok(a) => {
            let ghost was = views(messages@);
            let mut all = messages;
            let said = make_message("assistant", a.content.copy());
            let ghost sv = said@;
            all.push(said);
            assert(views(all@) =~= was.push(sv));
            let whole = array(all);
            let text = render(&whole);
            if !p.conversation_file_id.as_str().is_empty() {
                let call = call_to_write(
                    p.temper_api_url.as_str(),
                    p.tenant.as_str(),
                    p.conversation_file_id.as_str(),
                    text.as_str(),
                );
                LlmStep::Send(call, LlmState::Writing(a))
            } else {
                LlmStep::Done(route_answer(&a, &Some(text)))
            }
        },
    }
}

/// The step after a reply.
pub fn resume_turn(state: LlmState, reply: Result<HttpReply, String>) -> (r: LlmStep)
    requires
        state@.wf(),
        answerable(state@, result_view(reply)),
    ensures
        r@ == next_step(state@, result_view(reply)),
        r@ is Send ==> r@->Send_1.wf(),
{
    match state {
        LlmState::Reading(p) => {
            let m = read_stored_conversation(&reply, p.user_message.as_str());
            let call = call_to_ask(&p, &m);
            LlmStep::Send(call, LlmState::Asking(p, m, 0))
        },
        LlmState::Asking(p, m, n) => match judge_reply(p.provider, reply) {
            Verdict::Accept(body) => {
                let read = parse(body.as_str());
                take_answer(p, m, read)
            },
            Verdict::Retry(why) => {
                if n + 1 < ATTEMPTS {
                    let call = call_to_ask(&p, &m);
                    LlmStep::Send(call, LlmState::Asking(p, m, n + 1))
                } else {
                    match p.provider {
                        Provider::Anthropic => LlmStep::Failed(
                            cat2("Anthropic API failed after 5 attempts: ", why.as_str()),
                        ),
                        Provider::OpenRouter => LlmStep::Failed(
                            cat2("OpenRouter API failed after 5 attempts: ", why.as_str()),
                        ),
                    }
                }
            },
            Verdict::Refuse(why) => LlmStep::Failed(why),
        },
        LlmState::Writing(a) => match reply {
            Ok(x) => {
                if x.status >= 200 && x.status < 300 {
                    LlmStep::Done(route_answer(&a, &None))
                } else {
                    let code = decimal_text(x.status as u64);
                    let h = head_text(x.body.as_str(), 200);
                    LlmStep::Failed(
                        crate::text::cat4(
                            "TemperFS $value write failed (HTTP ",
                            code.as_str(),
                            "): ",
                            h.as_str(),
                        ),
                    )
                }
            },
            Err(m) => LlmStep::Failed(m),
        },
    }
}

/// A provider in passing trouble is asked the same again, until it was asked
/// five times in all; that is the end of the turn.
pub proof fn lemma_retries(
    p: PlanView,
    m: Seq<JsonView>,
    n: nat,
    r: Result<ReplyView, Seq<char>>,
)
    requires
        n < ATTEMPTS,
        verdict(p.provider, r) is Retry,
    ensures
        n + 1 < ATTEMPTS ==> next_step(StateView::Asking(p, m, n), r) == StepView::Send(
            ask(p, m),
            StateView::Asking(p, m, n + 1),
        ),
        n + 1 == ATTEMPTS ==> next_step(StateView::Asking(p, m, n), r) is Failed,
{
}

/// Beyond its budget a turn sends nothing: it ends with the callback `Fail`.
pub proof fn lemma_budget(ctx: ContextView, d: DefaultsView)
    requires
        turn_count(ctx.fields()) >= max_turns(ctx.fields()),
    ensures
        first_step(ctx, d) is Done,
        first_step(ctx, d)->Done_0.action == "Fail"@,
{
}

/// A conversation in the files never comes back in a callback, and one that the
/// entity holds always does, with the answer at its end.
pub proof fn lemma_conversation(p: PlanView, m: Seq<JsonView>, read: Result<JsonView, Seq<char>>)
    requires
        answer(p.provider, read) is Ok,
    ensures
        ({
            let a = answer(p.provider, read)->Ok_0;
            let text = rendered(JsonView::List(m.push(message("assistant"@, a.content))));
            if p.conversation_file_id.len() > 0 {
                after_answer(p, m, read) == StepView::Send(
                    writing_call(p.temper_api_url, p.tenant, p.conversation_file_id, text),
                    StateView::Writing(a),
                )
            } else {
                after_answer(p, m, read) == StepView::Done(route(a, Some(text)))
            }
        }),
{
}

} // verus!
