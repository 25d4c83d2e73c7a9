//! The proposer of new specs: it has an agent made, configured and provisioned,
//! and asks for its result until there is one, as steps.
use vstd::prelude::*;

use crate::json::empty_object;
use crate::json::Json;
use crate::json::JsonView;
use crate::json_text::json_read;
use crate::json_text::parse;
use crate::json_text::render;
use crate::json_text::rendered;
use crate::llm_convert::field_or;
use crate::llm_convert::get_or;
use crate::llm_providers::get_inner_text;
use crate::llm_providers::inner_text;
use crate::module::is_success;
use crate::module::lemma_field_wf;
use crate::module::pair;
use crate::module::result_view;
use crate::module::text_or_else;
use crate::module::CallView;
use crate::module::ContextView;
use crate::module::HttpCall;
use crate::module::HttpReply;
use crate::module::ModuleContext;
use crate::module::ReplyView;
use crate::numerals::parse_signed;
use crate::numerals::parse_unsigned;
use crate::numerals::signed_number;
use crate::numerals::unsigned_number;
use crate::order::opt_view;
use crate::order::views;
use crate::proposal::agent_id;
use crate::proposal::build_agent_id;
use crate::proposal::build_user_message;
use crate::proposal::default_system_prompt;
use crate::proposal::extract_mutation_payload;
use crate::proposal::payload;
use crate::proposal::standard_system_prompt;
use crate::proposal::user_message;
use crate::text::blank;
use crate::text::cat2;
use crate::text::cat4;
use crate::text::cat5;
use crate::text::cat6;
use crate::text::decimal;
use crate::text::decimal_text;
use crate::text::is_blank;
use crate::text::same;
use crate::trajectory::either;

verus! {

/// What a proposal goes by.
pub struct ProposalView {
    /// The run of evolution.
    pub evo_id: Seq<char>,
    /// The candidate to start from.
    pub candidate_id: Seq<char>,
    /// How often a mutation was attempted.
    pub attempt: i64,
    /// What the agent is told to be.
    pub system_prompt: Seq<char>,
    /// What the agent is asked.
    pub user_message: Seq<char>,
    /// The address of the entities.
    pub base_url: Seq<char>,
    /// The address of the sandbox.
    pub sandbox_url: Seq<char>,
    /// The model.
    pub model: Seq<char>,
    /// The provider of the model.
    pub provider: Seq<char>,
    /// The turns that the agent may take.
    pub max_turns: Seq<char>,
    /// The directory in which it works.
    pub workdir: Seq<char>,
    /// The tools that it may use.
    pub tools_enabled: Seq<char>,
    /// How often its result is asked for.
    pub poll_attempts: u64,
    /// The milliseconds between.
    pub poll_sleep_ms: u64,
    /// How many agents are tried.
    pub max_agent_retries: u64,
    /// The tenant.
    pub tenant: Seq<char>,
}

/// What a proposal goes by.
pub struct ProposalPlan {
    /// The run of evolution.
    pub evo_id: String,
    /// The candidate to start from.
    pub candidate_id: String,
    /// How often a mutation was attempted.
    pub attempt: i64,
    /// What the agent is told to be.
    pub system_prompt: String,
    /// What the agent is asked.
    pub user_message: String,
    /// The address of the entities.
    pub base_url: String,
    /// The address of the sandbox.
    pub sandbox_url: String,
    /// The model.
    pub model: String,
    /// The provider of the model.
    pub provider: String,
    /// The turns that the agent may take.
    pub max_turns: String,
    /// The directory in which it works.
    pub workdir: String,
    /// The tools that it may use.
    pub tools_enabled: String,
    /// How often its result is asked for.
    pub poll_attempts: u64,
    /// The milliseconds between.
    pub poll_sleep_ms: u64,
    /// How many agents are tried.
    pub max_agent_retries: u64,
    /// The tenant.
    pub tenant: String,
}

impl View for ProposalPlan {
    type V = ProposalView;

    open spec fn view(&self) -> ProposalView {
        ProposalView {
            evo_id: self.evo_id@,
            candidate_id: self.candidate_id@,
            attempt: self.attempt,
            system_prompt: self.system_prompt@,
            user_message: self.user_message@,
            base_url: self.base_url@,
            sandbox_url: self.sandbox_url@,
            model: self.model@,
            provider: self.provider@,
            max_turns: self.max_turns@,
            workdir: self.workdir@,
            tools_enabled: self.tools_enabled@,
            poll_attempts: self.poll_attempts,
            poll_sleep_ms: self.poll_sleep_ms,
            max_agent_retries: self.max_agent_retries,
            tenant: self.tenant@,
        }
    }
}

/// The fields of an entity, or its state where it has none.
pub open spec fn run_fields(ctx: ContextView) -> JsonView {
    field_or(ctx.entity_state, "fields"@, ctx.entity_state)
}

/// The dataset in a value: as text, or as a value, which is put into JSON.
pub open spec fn dataset_in(v: JsonView) -> Option<Seq<char>> {
    match v.text_field("DatasetJson"@) {
        Some(t) => Some(t),
        None => match v.field("reflective_dataset"@) {
            Some(x) => Some(rendered(x)),
            None => None,
        },
    }
}

/// The dataset of a run: that of the trigger, else that of the fields.
pub open spec fn dataset(ctx: ContextView) -> Result<Seq<char>, Seq<char>> {
    match either(dataset_in(ctx.trigger_params), dataset_in(run_fields(ctx))) {
        Some(t) => Ok(t),
        None => Err("missing DatasetJson in trigger/state"@),
    }
}

fn find_dataset(v: &Json) -> (r: Option<String>)
    requires
        v@.wf(),
    ensures
        opt_view(r) == dataset_in(v@),
{
    if let Some(t) = v.text_field("DatasetJson") {
        return Some(t);
    }
    proof {
        lemma_field_wf(v@, "reflective_dataset"@);
    }
    match v.get("reflective_dataset") {
        Some(x) => Some(render(x)),
        None => None,
    }
}

/// The dataset of a run.
pub fn read_dataset_json(ctx: &ModuleContext, fields: &Json) -> (r: Result<String, String>)
    requires
        ctx.trigger_params@.wf(),
        fields@.wf(),
        fields@ == run_fields(ctx@),
    ensures
        result_view(r) == dataset(ctx@),
{
    if let Some(t) = find_dataset(&ctx.trigger_params) {
        return Ok(t);
    }
    if let Some(t) = find_dataset(fields) {
        return Ok(t);
    }
    Err("missing DatasetJson in trigger/state".to_string())
}

/// The number in a setting, or its default.
pub open spec fn number_setting(ctx: ContextView, key: Seq<char>, default: u64) -> u64 {
    match ctx.setting(key) {
        Some(t) => match unsigned_number(t) {
            Some(n) => n,
            None => default,
        },
        None => default,
    }
}

/// How often a mutation was attempted, as a number or as text.
pub open spec fn mutation_attempts(fields: JsonView) -> i64 {
    match fields.field("mutation_attempts"@) {
        Some(v) => match v.integer() {
            Some(n) => n,
            None => match v.text() {
                Some(t) => match signed_number(t) {
                    Some(n) => n,
                    None => 0,
                },
                None => 0,
            },
        },
        None => 0,
    }
}

/// The text in a field of the run, else of the trigger.
pub open spec fn run_text(ctx: ContextView, key: Seq<char>) -> Option<Seq<char>> {
    either(run_fields(ctx).text_field(key), ctx.trigger_params.text_field(key))
}

/// The plan for a proposal, with its dataset and the spec to start from.
pub open spec fn proposal_with(
    ctx: ContextView,
    default_model: Seq<char>,
    dataset: Seq<char>,
    spec_source: Seq<char>,
) -> ProposalView {
    let f = run_fields(ctx);
    let retries = number_setting(ctx, "max_agent_retries"@, 3);
    ProposalView {
        evo_id: f.text_or("Id"@, "evolution-run"@),
        candidate_id: text_or_else(run_text(ctx, "CandidateId"@), "candidate"@),
        attempt: mutation_attempts(f),
        system_prompt: ctx.setting_or("system_prompt"@, standard_system_prompt()),
        user_message: user_message(
            f.text_or("SkillName"@, "unknown-skill"@),
            f.text_or("TargetEntityType"@, "unknown-entity"@),
            spec_source,
            dataset,
        ),
        base_url: ctx.setting_or("temper_api_url"@, "http://127.0.0.1:3000"@),
        sandbox_url: ctx.setting_or("sandbox_url"@, "http://127.0.0.1:9999"@),
        model: ctx.setting_or("model"@, default_model),
        provider: ctx.setting_or("provider"@, "anthropic"@),
        max_turns: ctx.setting_or("max_turns"@, "10"@),
        workdir: ctx.setting_or("workdir"@, "/tmp/workspace"@),
        tools_enabled: ctx.setting_or("tools_enabled"@, "read,write,edit,bash"@),
        poll_attempts: number_setting(ctx, "poll_attempts"@, 240),
        poll_sleep_ms: number_setting(ctx, "poll_sleep_ms"@, 250),
        max_agent_retries: if retries == 0 {
            1
        } else {
            retries
        },
        tenant: ctx.tenant,
    }
}

/// The plan for a proposal, or what is missing for one.
pub open spec fn proposal_plan(
    ctx: ContextView,
    default_model: Seq<char>,
) -> Result<ProposalView, Seq<char>> {
    match dataset(ctx) {
        Err(m) => Err(m),
        Ok(d) => match run_text(ctx, "SpecSource"@) {
            None => Err("missing SpecSource in EvolutionRun state/trigger params"@),
            Some(s) => Ok(proposal_with(ctx, default_model, d, s)),
        },
    }
}

fn read_number_setting(ctx: &ModuleContext, key: &str, default: u64) -> (r: u64)
    ensures
        r == number_setting(ctx@, key@, default),
{
    match ctx.setting(key) {
        Some(t) => match parse_unsigned(t.as_str()) {
            Some(n) => n,
            None => default,
        },
        None => default,
    }
}

fn read_mutation_attempts(fields: &Json) -> (r: i64)
    ensures
        r == mutation_attempts(fields@),
{
    match fields.get("mutation_attempts") {
        Some(v) => match v.as_integer() {
            Some(n) => n,
            None => match v.as_text() {
                Some(t) => match parse_signed(t.as_str()) {
                    Some(n) => n,
                    None => 0,
                },
                None => 0,
            },
        },
        None => 0,
    }
}

/// The text in a field of the run, else of the trigger.
pub fn read_run_text(ctx: &ModuleContext, fields: &Json, key: &str) -> (r: Option<String>)
    requires
        fields@ == run_fields(ctx@),
    ensures
        opt_view(r) == run_text(ctx@, key@),
{
    match fields.text_field(key) {
        Some(t) => Some(t),
        None => ctx.trigger_params.text_field(key),
    }
}

/// The plan for a proposal, or what is missing for one.
pub fn plan_proposal(
    ctx: &ModuleContext,
    default_model: &str,
) -> (r: Result<ProposalPlan, String>)
    requires
        ctx.entity_state@.wf(),
        ctx.trigger_params@.wf(),
    ensures
        result_view(r) == proposal_plan(ctx@, default_model@),
{
    let fields = get_or(&ctx.entity_state, "fields", ctx.entity_state.copy());
    let data = match read_dataset_json(ctx, &fields) {
        Ok(d) => d,
        Err(m) => {
            return Err(m);
        },
    };
    let source = match read_run_text(ctx, &fields, "SpecSource") {
        Some(s) => s,
        None => {
            return Err("missing SpecSource in EvolutionRun state/trigger params".to_string());
        },
    };
    let skill = fields.text_or("SkillName", "unknown-skill");
    let entity_type = fields.text_or("TargetEntityType", "unknown-entity");
    let retries: u64 = read_number_setting(ctx, "max_agent_retries", 3);
    let system_prompt = match ctx.setting("system_prompt") {
        Some(t) => t,
        None => default_system_prompt(),
    };
    let candidate_id = match read_run_text(ctx, &fields, "CandidateId") {
        Some(t) => t,
        None => "candidate".to_string(),
    };
    Ok(
        ProposalPlan {
            evo_id: fields.text_or("Id", "evolution-run"),
            candidate_id,
            attempt: read_mutation_attempts(&fields),
            system_prompt,
            user_message: build_user_message(
                skill.as_str(),
                entity_type.as_str(),
                source.as_str(),
                data.as_str(),
            ),
            base_url: ctx.setting_or("temper_api_url", "http://127.0.0.1:3000"),
            sandbox_url: ctx.setting_or("sandbox_url", "http://127.0.0.1:9999"),
            model: ctx.setting_or("model", default_model),
            provider: ctx.setting_or("provider", "anthropic"),
            max_turns: ctx.setting_or("max_turns", "10"),
            workdir: ctx.setting_or("workdir", "/tmp/workspace"),
            tools_enabled: ctx.setting_or("tools_enabled", "read,write,edit,bash"),
            poll_attempts: read_number_setting(ctx, "poll_attempts", 240),
            poll_sleep_ms: read_number_setting(ctx, "poll_sleep_ms", 250),
            max_agent_retries: if retries == 0 {
                1
            } else {
                retries
            },
            tenant: ctx.tenant.clone(),
        },
    )
}

/// The headers of the calls on entities.
pub open spec fn entity_headers(tenant: Seq<char>) -> Seq<(Seq<char>, Seq<char>)> {
    seq![
        ("Content-Type"@, "application/json"@),
        ("X-Tenant-Id"@, tenant),
        ("x-temper-principal-kind"@, "agent"@),
        ("x-temper-principal-id"@, "gepa-proposer-agent"@),
        ("x-temper-agent-type"@, "supervisor"@),
    ]
}

fn make_entity_headers(tenant: &str) -> (r: Vec<(String, String)>)
    ensures
        views(r@) == entity_headers(tenant@),
{
    let mut r: Vec<(String, String)> = Vec::new();
    r.push(pair("Content-Type", "application/json"));
    r.push(pair("X-Tenant-Id", tenant));
    r.push(pair("x-temper-principal-kind", "agent"));
    r.push(pair("x-temper-principal-id", "gepa-proposer-agent"));
    r.push(pair("x-temper-agent-type", "supervisor"));
    assert(views(r@) =~= entity_headers(tenant@));
    r
}

/// A call that posts a value.
pub open spec fn post_call(p: ProposalView, url: Seq<char>, body: JsonView) -> CallView {
    CallView {
        method: "POST"@,
        url,
        headers: entity_headers(p.tenant),
        body: rendered(body),
    }
}

fn make_post(p: &ProposalPlan, url: String, body: Json) -> (r: HttpCall)
    requires
        body@.wf(),
    ensures
        r@ == post_call(p@, url@, body@),
{
    HttpCall {
        method: "POST".to_string(),
        url,
        headers: make_entity_headers(p.tenant.as_str()),
        body: render(&body),
    }
}

/// The address under which agents are made.
pub open spec fn create_url(p: ProposalView) -> Seq<char> {
    p.base_url + "/tdata/TemperAgents"@
}

/// The address of an agent.
pub open spec fn agent_url(p: ProposalView, id: Seq<char>) -> Seq<char> {
    p.base_url + "/tdata/TemperAgents('"@ + id + "')"@
}

/// The address of an action of an agent.
pub open spec fn action_url(p: ProposalView, id: Seq<char>, action: Seq<char>) -> Seq<char> {
    p.base_url + "/tdata/TemperAgents('"@ + id + "')/Temper.Agent.TemperAgent."@ + action
}

/// The call that has an agent made.
pub open spec fn create_call(p: ProposalView, retry: nat) -> CallView {
    let id = agent_id(p.evo_id, p.candidate_id, p.attempt as int, retry);
    post_call(p, create_url(p), empty_object().with("TemperAgentId"@, JsonView::Text(id)))
}

/// What an agent is asked at a retry.
pub open spec fn asked(p: ProposalView, retry: nat) -> Seq<char> {
    if retry == 0 {
        p.user_message
    } else {
        p.user_message
            + "\n\nIMPORTANT: previous attempt returned empty/invalid payload. Return valid compact JSON in one line with non-empty MutatedSpecSource and MutationSummary."@
    }
}

/// The call that configures an agent.
pub open spec fn configure_call(p: ProposalView, retry: nat, id: Seq<char>) -> CallView {
    post_call(
        p,
        action_url(p, id, "Configure"@),
        empty_object().with("system_prompt"@, JsonView::Text(p.system_prompt)).with(
            "user_message"@,
            JsonView::Text(asked(p, retry)),
        ).with("model"@, JsonView::Text(p.model)).with("provider"@, JsonView::Text(p.provider)).with(
            "max_turns"@,
            JsonView::Text(p.max_turns),
        ).with("tools_enabled"@, JsonView::Text(p.tools_enabled)).with(
            "workdir"@,
            JsonView::Text(p.workdir),
        ).with("sandbox_url"@, JsonView::Text(p.sandbox_url)),
    )
}

/// The call that provisions an agent.
pub open spec fn provision_call(p: ProposalView, id: Seq<char>) -> CallView {
    post_call(p, action_url(p, id, "Provision"@), empty_object())
}

/// The call that asks for an agent.
pub open spec fn poll_call(p: ProposalView, id: Seq<char>) -> CallView {
    CallView {
        method: "GET"@,
        url: agent_url(p, id),
        headers: entity_headers(p.tenant),
        body: ""@,
    }
}

/// Milliseconds in seconds, with three digits after the point.
pub open spec fn seconds(ms: u64) -> Seq<char> {
    decimal((ms / 1000) as nat) + "."@ + decimal((ms % 1000 / 100) as nat) + decimal(
        (ms % 100 / 10) as nat,
    ) + decimal((ms % 10) as nat)
}

/// The call that has the sandbox sleep.
pub open spec fn sleep_call(p: ProposalView) -> CallView {
    CallView {
        method: "POST"@,
        url: p.sandbox_url + "/v1/processes/run"@,
        headers: seq![("Content-Type"@, "application/json"@)],
        body: rendered(
            empty_object().with(
                "command"@,
                JsonView::Text("sleep "@ + seconds(p.poll_sleep_ms)),
            ).with("workdir"@, JsonView::Text(p.workdir)),
        ),
    }
}

fn call_create(p: &ProposalPlan, retry: u64) -> (r: HttpCall)
    ensures
        r@ == create_call(p@, retry as nat),
{
    let id = build_agent_id(p.evo_id.as_str(), p.candidate_id.as_str(), p.attempt, retry);
    let url = cat2(p.base_url.as_str(), "/tdata/TemperAgents");
    make_post(p, url, Json::object().set("TemperAgentId", Json::Text(id)))
}

fn make_action_url(p: &ProposalPlan, id: &str, action: &str) -> (r: String)
    ensures
        r@ == action_url(p@, id@, action@),
{
    cat5(
        p.base_url.as_str(),
        "/tdata/TemperAgents('",
        id,
        "')/Temper.Agent.TemperAgent.",
        action,
    )
}

fn call_configure(p: &ProposalPlan, retry: u64, id: &str) -> (r: HttpCall)
    ensures
        r@ == configure_call(p@, retry as nat, id@),
{
    let message = if retry == 0 {
        p.user_message.clone()
    } else {
        cat2(
            p.user_message.as_str(),
            "\n\nIMPORTANT: previous attempt returned empty/invalid payload. Return valid compact JSON in one line with non-empty MutatedSpecSource and MutationSummary.",
        )
    };
    let body = Json::object().set("system_prompt", Json::of_text(p.system_prompt.as_str())).set(
        "user_message",
        Json::Text(message),
    ).set("model", Json::of_text(p.model.as_str())).set(
        "provider",
        Json::of_text(p.provider.as_str()),
    ).set("max_turns", Json::of_text(p.max_turns.as_str())).set(
        "tools_enabled",
        Json::of_text(p.tools_enabled.as_str()),
    ).set("workdir", Json::of_text(p.workdir.as_str())).set(
        "sandbox_url",
        Json::of_text(p.sandbox_url.as_str()),
    );
    make_post(p, make_action_url(p, id, "Configure"), body)
}

fn call_provision(p: &ProposalPlan, id: &str) -> (r: HttpCall)
    ensures
        r@ == provision_call(p@, id@),
{
    make_post(p, make_action_url(p, id, "Provision"), Json::object())
}

fn call_poll(p: &ProposalPlan, id: &str) -> (r: HttpCall)
    ensures
        r@ == poll_call(p@, id@),
{
    HttpCall {
        method: "GET".to_string(),
        url: cat4(p.base_url.as_str(), "/tdata/TemperAgents('", id, "')"),
        headers: make_entity_headers(p.tenant.as_str()),
        body: "".to_string(),
    }
}

fn call_sleep(p: &ProposalPlan) -> (r: HttpCall)
    ensures
        r@ == sleep_call(p@),
{
    let ms: u64 = p.poll_sleep_ms;
    let whole = decimal_text(ms / 1000);
    let a = decimal_text(ms % 1000 / 100);
    let b = decimal_text(ms % 100 / 10);
    let c = decimal_text(ms % 10);
    let secs = cat5(whole.as_str(), ".", a.as_str(), b.as_str(), c.as_str());
    let command = cat2("sleep ", secs.as_str());
    let mut headers: Vec<(String, String)> = Vec::new();
    headers.push(pair("Content-Type", "application/json"));
    assert(views(headers@) =~= sleep_call(p@).headers);
    let body = Json::object().set("command", Json::Text(command)).set(
        "workdir",
        Json::of_text(p.workdir.as_str()),
    );
    HttpCall {
        method: "POST".to_string(),
        url: cat2(p.sandbox_url.as_str(), "/v1/processes/run"),
        headers,
        body: render(&body),
    }
}

/// What a body reads as, where it reads as `read`; a blank body is an empty
/// object.
pub open spec fn body_value(
    body: Seq<char>,
    read: Result<JsonView, Seq<char>>,
) -> Result<JsonView, Seq<char>> {
    if blank(body) {
        Ok(empty_object())
    } else {
        match read {
            Ok(v) => Ok(v),
            Err(m) => Err("failed to parse HTTP JSON body: "@ + m + "; body="@ + body),
        }
    }
}

/// What a body reads as.
pub fn parse_json_body(body: &str) -> (r: Result<Json, String>)
    ensures
        result_view(r) == body_value(body@, json_read(body@)),
{
    if is_blank(body) {
        return Ok(Json::object());
    }
    match parse(body) {
        Ok(v) => Ok(v),
        Err(m) => Err(cat4("failed to parse HTTP JSON body: ", m.as_str(), "; body=", body)),
    }
}

/// The value in the reply to a call, or what went wrong.
pub open spec fn reply_value(
    method: Seq<char>,
    url: Seq<char>,
    r: Result<ReplyView, Seq<char>>,
) -> Result<JsonView, Seq<char>> {
    match r {
        Err(m) => Err(m),
        Ok(x) => if is_success(x.status) {
            body_value(x.body, json_read(x.body))
        } else {
            Err(
                method + " "@ + url + " failed: HTTP "@ + decimal(x.status as nat) + (" body="@
                    + x.body),
            )
        },
    }
}

fn read_reply_value(
    method: &str,
    url: &str,
    reply: Result<HttpReply, String>,
) -> (r: Result<Json, String>)
    ensures
        result_view(r) == reply_value(method@, url@, result_view(reply)),
{
    match reply {
        Err(m) => Err(m),
        Ok(x) => {
            if x.status >= 200 && x.status < 300 {
                parse_json_body(x.body.as_str())
            } else {
                let code = decimal_text(x.status as u64);
                let front = cat5(method, " ", url, " failed: HTTP ", code.as_str());
                let rest = cat2(" body=", x.body.as_str());
                Err(cat2(front.as_str(), rest.as_str()))
            }
        },
    }
}

/// The name of an entity in a value.
pub open spec fn entity_id(v: JsonView) -> Option<Seq<char>> {
    either(v.text_field("entity_id"@), inner_text(v, "fields"@, "Id"@))
}

/// The name of an entity in a value.
pub fn extract_entity_id(v: &Json) -> (r: Option<String>)
    ensures
        opt_view(r) == entity_id(v@),
{
    match v.text_field("entity_id") {
        Some(t) => Some(t),
        None => get_inner_text(v, "fields", "Id"),
    }
}

/// Where an agent stands.
pub open spec fn agent_status(v: JsonView) -> Seq<char> {
    text_or_else(
        either(v.text_field("status"@), inner_text(v, "fields"@, "Status"@)),
        "Unknown"@,
    )
}

/// The result of an agent.
pub open spec fn agent_result(v: JsonView) -> Seq<char> {
    text_or_else(
        either(inner_text(v, "fields"@, "result"@), inner_text(v, "fields"@, "Result"@)),
        ""@,
    )
}

/// What went wrong with an agent.
pub open spec fn agent_error(v: JsonView) -> Seq<char> {
    text_or_else(
        either(
            inner_text(v, "fields"@, "error_message"@),
            inner_text(v, "fields"@, "ErrorMessage"@),
        ),
        "TemperAgent run failed"@,
    )
}

fn first_given(a: Option<String>, b: Option<String>, default: &str) -> (r: String)
    ensures
        r@ == text_or_else(either(opt_view(a), opt_view(b)), default@),
{
    match a {
        Some(t) => t,
        None => match b {
            Some(t) => t,
            None => default.to_string(),
        },
    }
}

/// What an agent has come to.
pub enum PollView {
    /// It is still at work.
    Working,
    /// It has a new spec, and says what is new in it.
    Proposed(Seq<char>, Seq<char>),
    /// It came to nothing.
    Nothing(Seq<char>),
}

/// What an agent has come to.
pub enum Poll {
    /// It is still at work.
    Working,
    /// It has a new spec, and says what is new in it.
    Proposed(String, String),
    /// It came to nothing.
    Nothing(String),
}

impl View for Poll {
    type V = PollView;

    open spec fn view(&self) -> PollView {
        match *self {
            Poll::Working => PollView::Working,
            Poll::Proposed(s, t) => PollView::Proposed(s@, t@),
            Poll::Nothing(m) => PollView::Nothing(m@),
        }
    }
}

/// What an agent has come to, by its entity.
pub open spec fn poll(v: JsonView, retry: nat) -> PollView {
    let status = agent_status(v);
    if status == "Completed"@ {
        match payload(agent_result(v)) {
            Ok((s, t)) => PollView::Proposed(s, t),
            Err(m) => PollView::Nothing(
                "TemperAgent completed with invalid payload on retry "@ + decimal(retry) + ": "@
                    + m,
            ),
        }
    } else if status == "Failed"@ || status == "Cancelled"@ {
        PollView::Nothing(
            "TemperAgent "@ + status + " on retry "@ + decimal(retry) + ": "@ + agent_error(v),
        )
    } else {
        PollView::Working
    }
}

/// What an agent has come to, by its entity.
pub fn judge_poll(v: &Json, retry: u64) -> (r: Poll)
    ensures
        r@ == poll(v@, retry as nat),
{
    let status = first_given(
        v.text_field("status"),
        get_inner_text(v, "fields", "Status"),
        "Unknown",
    );
    let n = decimal_text(retry);
    if same(status.as_str(), "Completed") {
        let result = first_given(
            get_inner_text(v, "fields", "result"),
            get_inner_text(v, "fields", "Result"),
            "",
        );
        match extract_mutation_payload(result.as_str()) {
            Ok((s, t)) => Poll::Proposed(s, t),
            Err(m) => Poll::Nothing(
                cat4(
                    "TemperAgent completed with invalid payload on retry ",
                    n.as_str(),
                    ": ",
                    m.as_str(),
                ),
            ),
        }
    } else if same(status.as_str(), "Failed") || same(status.as_str(), "Cancelled") {
        let error = first_given(
            get_inner_text(v, "fields", "error_message"),
            get_inner_text(v, "fields", "ErrorMessage"),
            "TemperAgent run failed",
        );
        Poll::Nothing(
            cat6(
                "TemperAgent ",
                status.as_str(),
                " on retry ",
                n.as_str(),
                ": ",
                error.as_str(),
            ),
        )
    } else {
        Poll::Working
    }
}

/// Where a proposal waits for a reply: which agent is at work, by its number and
/// its name, and how often it was asked for.
pub enum ProposerStateView {
    /// An agent is made.
    Creating(ProposalView, nat),
    /// It is configured.
    Configuring(ProposalView, nat, Seq<char>),
    /// It is provisioned.
    Provisioning(ProposalView, nat, Seq<char>),
    /// It is asked for.
    Polling(ProposalView, nat, Seq<char>, nat),
    /// The sandbox sleeps before it is asked for.
    Sleeping(ProposalView, nat, Seq<char>, nat),
}

/// Where a proposal waits for a reply: which agent is at work, by its number and
/// its name, and how often it was asked for.
pub enum ProposerState {
    /// An agent is made.
    Creating(ProposalPlan, u64),
    /// It is configured.
    Configuring(ProposalPlan, u64, String),
    /// It is provisioned.
    Provisioning(ProposalPlan, u64, String),
    /// It is asked for.
    Polling(ProposalPlan, u64, String, u64),
    /// The sandbox sleeps before it is asked for.
    Sleeping(ProposalPlan, u64, String, u64),
}

impl View for ProposerState {
    type V = ProposerStateView;

    open spec fn view(&self) -> ProposerStateView {
        match *self {
            ProposerState::Creating(p, n) => ProposerStateView::Creating(p@, n as nat),
            ProposerState::Configuring(p, n, id) => ProposerStateView::Configuring(
                p@,
                n as nat,
                id@,
            ),
            ProposerState::Provisioning(p, n, id) => ProposerStateView::Provisioning(
                p@,
                n as nat,
                id@,
            ),
            ProposerState::Polling(p, n, id, k) => ProposerStateView::Polling(
                p@,
                n as nat,
                id@,
                k as nat,
            ),
            ProposerState::Sleeping(p, n, id, k) => ProposerStateView::Sleeping(
                p@,
                n as nat,
                id@,
                k as nat,
            ),
        }
    }
}

impl ProposerStateView {
    /// The agent is one of those that may be tried, and the question one of those
    /// that may be asked.
    pub open spec fn wf(self) -> bool {
        match self {
            ProposerStateView::Creating(p, n) => n < p.max_agent_retries,
            ProposerStateView::Configuring(p, n, _) => n < p.max_agent_retries,
            ProposerStateView::Provisioning(p, n, _) => n < p.max_agent_retries,
            ProposerStateView::Polling(p, n, _, k) => n < p.max_agent_retries && k
                < p.poll_attempts,
            ProposerStateView::Sleeping(p, n, _, k) => n < p.max_agent_retries && k
                < p.poll_attempts,
        }
    }
}

/// What a proposal does next.
pub enum ProposerStepView {
    /// It sends a call and waits for the reply.
    Send(CallView, ProposerStateView),
    /// It ends with a proposal.
    Done(JsonView),
    /// It ends with an error.
    Failed(Seq<char>),
}

/// What a proposal does next.
pub enum ProposerStep {
    /// It sends a call and waits for the reply.
    Send(HttpCall, ProposerState),
    /// It ends with a proposal.
    Done(Json),
    /// It ends with an error.
    Failed(String),
}

impl View for ProposerStep {
    type V = ProposerStepView;

    open spec fn view(&self) -> ProposerStepView {
        match *self {
            ProposerStep::Send(c, s) => ProposerStepView::Send(c@, s@),
            ProposerStep::Done(v) => ProposerStepView::Done(v@),
            ProposerStep::Failed(m) => ProposerStepView::Failed(m@),
        }
    }
}

/// A proposal as it is reported.
pub open spec fn proposal(source: Seq<char>, summary: Seq<char>, id: Seq<char>) -> JsonView {
    empty_object().with("MutatedSpecSource"@, JsonView::Text(source)).with(
        "MutationSummary"@,
        JsonView::Text(summary),
    ).with("ProposerType"@, JsonView::Text("temper_agent"@)).with(
        "ProposerAgentId"@,
        JsonView::Text(id),
    )
}

/// The step after an agent came to nothing: the next agent is tried, or this was
/// the last.
pub open spec fn after_nothing(p: ProposalView, retry: nat, why: Seq<char>) -> ProposerStepView {
    if retry + 1 < p.max_agent_retries {
        ProposerStepView::Send(
            create_call(p, retry + 1),
            ProposerStateView::Creating(p, retry + 1),
        )
    } else {
        ProposerStepView::Failed(why)
    }
}

/// What an agent that never came to anything is told as.
pub open spec fn timed_out(p: ProposalView, retry: nat) -> Seq<char> {
    "Timed out waiting for TemperAgent completion after "@ + decimal(p.poll_attempts as nat)
        + " polls on retry "@ + decimal(retry)
}

/// The step after the first `polls` questions: the next is asked, after a sleep
/// where there is one, or the agent came to nothing.
pub open spec fn ask_again(
    p: ProposalView,
    retry: nat,
    id: Seq<char>,
    polls: nat,
) -> ProposerStepView {
    if polls >= p.poll_attempts {
        after_nothing(p, retry, timed_out(p, retry))
    } else if polls > 0 && p.poll_sleep_ms > 0 {
        ProposerStepView::Send(sleep_call(p), ProposerStateView::Sleeping(p, retry, id, polls))
    } else {
        ProposerStepView::Send(poll_call(p, id), ProposerStateView::Polling(p, retry, id, polls))
    }
}

/// The step after a reply.
pub open spec fn next_proposer_step(
    s: ProposerStateView,
    r: Result<ReplyView, Seq<char>>,
) -> ProposerStepView {
    match s {
        ProposerStateView::Creating(p, n) => match reply_value("POST"@, create_url(p), r) {
            Err(m) => ProposerStepView::Failed(m),
            Ok(v) => {
                let id = text_or_else(entity_id(v), "unknown-agent"@);
                ProposerStepView::Send(
                    configure_call(p, n, id),
                    ProposerStateView::Configuring(p, n, id),
                )
            },
        },
        ProposerStateView::Configuring(p, n, id) => match reply_value(
            "POST"@,
            action_url(p, id, "Configure"@),
            r,
        ) {
            Err(m) => ProposerStepView::Failed(m),
            Ok(_) => ProposerStepView::Send(
                provision_call(p, id),
                ProposerStateView::Provisioning(p, n, id),
            ),
        },
        ProposerStateView::Provisioning(p, n, id) => match reply_value(
            "POST"@,
            action_url(p, id, "Provision"@),
            r,
        ) {
            Err(m) => ProposerStepView::Failed(m),
            Ok(_) => ask_again(p, n, id, 0),
        },
        ProposerStateView::Polling(p, n, id, k) => match reply_value("GET"@, agent_url(p, id), r) {
            Err(m) => ProposerStepView::Failed(m),
            Ok(v) => match poll(v, n) {
                PollView::Working => ask_again(p, n, id, k + 1),
                PollView::Proposed(source, summary) => ProposerStepView::Done(
                    proposal(source, summary, id),
                ),
                PollView::Nothing(why) => after_nothing(p, n, why),
            },
        },
        ProposerStateView::Sleeping(p, n, id, k) => ProposerStepView::Send(
            poll_call(p, id),
            ProposerStateView::Polling(p, n, id, k),
        ),
    }
}

/// The first step of a proposal.
pub open spec fn first_proposer_step(
    ctx: ContextView,
    default_model: Seq<char>,
) -> ProposerStepView {
    match proposal_plan(ctx, default_model) {
        Err(m) => ProposerStepView::Failed(m),
        Ok(p) => ProposerStepView::Send(create_call(p, 0), ProposerStateView::Creating(p, 0)),
    }
}

/// The first step of a proposal.
pub fn start_proposal(ctx: &ModuleContext, default_model: &str) -> (r: ProposerStep)
    requires
        ctx.entity_state@.wf(),
        ctx.trigger_params@.wf(),
    ensures
        r@ == first_proposer_step(ctx@, default_model@),
        r@ is Send ==> r@->Send_1.wf(),
{
    match plan_proposal(ctx, default_model) {
        Err(m) => ProposerStep::Failed(m),
        Ok(p) => {
            let call = call_create(&p, 0);
            ProposerStep::Send(call, ProposerState::Creating(p, 0))
        },
    }
}

fn give_up(p: ProposalPlan, retry: u64, why: String) -> (r: ProposerStep)
    requires
        retry < p.max_agent_retries,
    ensures
        r@ == after_nothing(p@, retry as nat, why@),
        r@ is Send ==> r@->Send_1.wf(),
{
    if retry + 1 < p.max_agent_retries {
        let call = call_create(&p, retry + 1);
        ProposerStep::Send(call, ProposerState::Creating(p, retry + 1))
    } else {
        ProposerStep::Failed(why)
    }
}

fn poll_again(p: ProposalPlan, retry: u64, id: String, polls: u64) -> (r: ProposerStep)
    requires
        retry < p.max_agent_retries,
    ensures
        r@ == ask_again(p@, retry as nat, id@, polls as nat),
        r@ is Send ==> r@->Send_1.wf(),
{
    if polls >= p.poll_attempts {
        let n = decimal_text(p.poll_attempts);
        let k = decimal_text(retry);
        let why = cat4(
            "Timed out waiting for TemperAgent completion after ",
            n.as_str(),
            " polls on retry ",
            k.as_str(),
        );
        give_up(p, retry, why)
    } else if polls > 0 && p.poll_sleep_ms > 0 {
        let call = call_sleep(&p);
        ProposerStep::Send(call, ProposerState::Sleeping(p, retry, id, polls))
    } else {
        let call = call_poll(&p, id.as_str());
        ProposerStep::Send(call, ProposerState::Polling(p, retry, id, polls))
    }
}

fn report(source: String, summary: String, id: String) -> (r: Json)
    ensures
        r@ == proposal(source@, summary@, id@),
{
    Json::object().set("MutatedSpecSource", Json::Text(source)).set(
        "MutationSummary",
        Json::Text(summary),
    ).set("ProposerType", Json::of_text("temper_agent")).set("ProposerAgentId", Json::Text(id))
}

/// The step after a reply.
pub fn resume_proposal(state: ProposerState, reply: Result<HttpReply, String>) -> (r: ProposerStep)
    requires
        state@.wf(),
    ensures
        r@ == next_proposer_step(state@, result_view(reply)),
        r@ is Send ==> r@->Send_1.wf(),
{
    match state {
        ProposerState::Creating(p, n) => {
            let url = cat2(p.base_url.as_str(), "/tdata/TemperAgents");
            match read_reply_value("POST", url.as_str(), reply) {
                Err(m) => ProposerStep::Failed(m),
                Ok(v) => {
                    let id = match extract_entity_id(&v) {
                        Some(t) => t,
                        None => "unknown-agent".to_string(),
                    };
                    let call = call_configure(&p, n, id.as_str());
                    ProposerStep::Send(call, ProposerState::Configuring(p, n, id))
                },
            }
        },
        ProposerState::Configuring(p, n, id) => {
            let url = make_action_url(&p, id.as_str(), "Configure");
            match read_reply_value("POST", url.as_str(), reply) {
                Err(m) => ProposerStep::Failed(m),
                Ok(_) => {
                    let call = call_provision(&p, id.as_str());
                    ProposerStep::Send(call, ProposerState::Provisioning(p, n, id))
                },
            }
        },
        ProposerState::Provisioning(p, n, id) => {
            let url = make_action_url(&p, id.as_str(), "Provision");
            match read_reply_value("POST", url.as_str(), reply) {
                Err(m) => ProposerStep::Failed(m),
                Ok(_) => poll_again(p, n, id, 0),
            }
        },
        ProposerState::Polling(p, n, id, k) => {
            let url = cat4(p.base_url.as_str(), "/tdata/TemperAgents('", id.as_str(), "')");
            match read_reply_value("GET", url.as_str(), reply) {
                Err(m) => ProposerStep::Failed(m),
                Ok(v) => match judge_poll(&v, n) {
                    Poll::Working => poll_again(p, n, id, k + 1),
                    Poll::Proposed(source, summary) => ProposerStep::Done(
                        report(source, summary, id),
                    ),
                    Poll::Nothing(why) => give_up(p, n, why),
                },
            }
        },
        ProposerState::Sleeping(p, n, id, k) => {
            let call = call_poll(&p, id.as_str());
            ProposerStep::Send(call, ProposerState::Polling(p, n, id, k))
        },
    }
}

/// How far a proposal still is from its end: the agents that may still be tried,
/// then the calls that one of them may still take.
pub open spec fn remaining(s: ProposerStateView) -> (nat, nat) {
    match s {
        ProposerStateView::Creating(p, n) => (
            (p.max_agent_retries - n) as nat,
            2 * p.poll_attempts as nat + 3,
        ),
        ProposerStateView::Configuring(p, n, _) => (
            (p.max_agent_retries - n) as nat,
            2 * p.poll_attempts as nat + 2,
        ),
        ProposerStateView::Provisioning(p, n, _) => (
            (p.max_agent_retries - n) as nat,
            2 * p.poll_attempts as nat + 1,
        ),
        ProposerStateView::Sleeping(p, n, _, k) => (
            (p.max_agent_retries - n) as nat,
            (2 * (p.poll_attempts - k)) as nat,
        ),
        ProposerStateView::Polling(p, n, _, k) => (
            (p.max_agent_retries - n) as nat,
            (2 * (p.poll_attempts - k) - 1) as nat,
        ),
    }
}

/// Whatever the replies, a proposal comes to an end: every step leaves fewer
/// agents to try, or as many and fewer calls for the one at work.
pub proof fn lemma_proposal_ends(s: ProposerStateView, r: Result<ReplyView, Seq<char>>)
    requires
        s.wf(),
    ensures
        next_proposer_step(s, r) matches ProposerStepView::Send(_, t) ==> t.wf() && (remaining(
            t,
        ).0 < remaining(s).0 || (remaining(t).0 == remaining(s).0 && remaining(t).1 < remaining(
            s,
        ).1)),
{
}

} // verus!
