//! The sandbox of an agent: one that is known already, or one that a broker
//! makes.
use vstd::prelude::*;

use crate::json::empty_object;
use crate::json::Json;
use crate::json::JsonView;
use crate::json_text::parse;
use crate::json_text::render;
use crate::json_text::rendered;
use crate::module::is_success;
use crate::module::pair;
use crate::module::result_view;
use crate::module::CallView;
use crate::module::Callback;
use crate::module::CallbackView;
use crate::module::ContextView;
use crate::module::HttpCall;
use crate::module::HttpReply;
use crate::module::ModuleContext;
use crate::module::ReplyView;
use crate::order::opt_view;
use crate::order::views;
use crate::text::can_cut;
use crate::text::cat2;
use crate::text::cat4;
use crate::text::cuttable;
use crate::text::decimal;
use crate::text::decimal_text;
use crate::text::head;
use crate::text::head_text;

verus! {

/// A sandbox.
pub struct SandboxView {
    /// Its address.
    pub sandbox_url: Seq<char>,
    /// Its name.
    pub sandbox_id: Seq<char>,
}

/// A sandbox.
pub struct SandboxResult {
    /// Its address.
    pub sandbox_url: String,
    /// Its name.
    pub sandbox_id: String,
}

impl View for SandboxResult {
    type V = SandboxView;

    open spec fn view(&self) -> SandboxView {
        SandboxView { sandbox_url: self.sandbox_url@, sandbox_id: self.sandbox_id@ }
    }
}

/// The address of a sandbox that is known already: the entity's, where it is not
/// empty; else that of the settings; else that of the trigger.
pub open spec fn known_sandbox(ctx: ContextView) -> Option<Seq<char>> {
    match ctx.fields().text_field("sandbox_url"@) {
        Some(u) if u.len() > 0 => Some(u),
        _ => match ctx.setting("sandbox_url"@) {
            Some(u) => Some(u),
            None => ctx.trigger_params.text_field("sandbox_url"@),
        },
    }
}

/// The callback once there is a sandbox.
pub open spec fn ready(s: SandboxView) -> CallbackView {
    CallbackView {
        action: "SandboxReady"@,
        params: empty_object().with("sandbox_url"@, JsonView::Text(s.sandbox_url)).with(
            "sandbox_id"@,
            JsonView::Text(s.sandbox_id),
        ),
    }
}

/// What the search for a sandbox does next.
pub enum SandboxStepView {
    /// It sends a call to the broker and waits for the reply.
    Send(CallView),
    /// It ends with a callback.
    Done(CallbackView),
    /// It ends with an error.
    Failed(Seq<char>),
}

/// What the search for a sandbox does next.
pub enum SandboxStep {
    /// It sends a call to the broker and waits for the reply.
    Send(HttpCall),
    /// It ends with a callback.
    Done(Callback),
    /// It ends with an error.
    Failed(String),
}

impl View for SandboxStep {
    type V = SandboxStepView;

    open spec fn view(&self) -> SandboxStepView {
        match *self {
            SandboxStep::Send(c) => SandboxStepView::Send(c@),
            SandboxStep::Done(c) => SandboxStepView::Done(c@),
            SandboxStep::Failed(m) => SandboxStepView::Failed(m@),
        }
    }
}

/// The call that has the broker make a sandbox.
pub open spec fn broker_call(ctx: ContextView, token: Seq<char>) -> CallView {
    CallView {
        method: "POST"@,
        url: ctx.setting_or("modal_broker_url"@, "http://localhost:8888/create-sandbox"@),
        headers: seq![
            ("authorization"@, "Bearer "@ + token),
            ("content-type"@, "application/json"@),
        ],
        body: rendered(empty_object().with("timeout"@, JsonView::Unsigned(600))),
    }
}

/// The first step: an agent needs a prompt, then a sandbox that is known, then a
/// token for the broker.
pub open spec fn first_sandbox_step(ctx: ContextView, token: Option<Seq<char>>) -> SandboxStepView {
    if ctx.fields().text_or("prompt"@, ""@).len() == 0 {
        SandboxStepView::Failed("agent not configured — prompt is empty"@)
    } else {
        match known_sandbox(ctx) {
            Some(u) => SandboxStepView::Done(
                ready(SandboxView { sandbox_url: u, sandbox_id: "static-sandbox"@ }),
            ),
            None => match token {
                Some(t) if t.len() > 0 => SandboxStepView::Send(broker_call(ctx, t)),
                _ => SandboxStepView::Failed(
                    "no sandbox_url in config and no modal_api_token secret"@,
                ),
            },
        }
    }
}

/// The sandbox in a reply of the broker.
pub open spec fn brokered(v: JsonView) -> SandboxView {
    SandboxView {
        sandbox_url: v.text_or("sandbox_url"@, ""@),
        sandbox_id: v.text_or("sandbox_id"@, "unknown"@),
    }
}

/// The step after the broker's reply, where its body reads as `read`.
pub open spec fn after_broker(
    r: Result<ReplyView, Seq<char>>,
    read: Result<JsonView, Seq<char>>,
) -> SandboxStepView {
    match r {
        Err(m) => SandboxStepView::Failed(m),
        Ok(x) => if !is_success(x.status) {
            SandboxStepView::Failed(
                "sandbox broker failed (HTTP "@ + decimal(x.status as nat) + "): "@ + head(
                    x.body,
                    500,
                ),
            )
        } else {
            match read {
                Err(m) => SandboxStepView::Failed("failed to parse broker response: "@ + m),
                Ok(v) => if brokered(v).sandbox_url.len() == 0 {
                    SandboxStepView::Failed("broker response missing sandbox_url"@)
                } else {
                    SandboxStepView::Done(ready(brokered(v)))
                },
            }
        },
    }
}

fn find_known_sandbox(ctx: &ModuleContext) -> (r: Option<String>)
    ensures
        opt_view(r) == known_sandbox(ctx@),
{
    let fields = ctx.fields();
    if let Some(u) = fields.text_field("sandbox_url") {
        if !u.as_str().is_empty() {
            return Some(u);
        }
    }
    if let Some(u) = ctx.setting("sandbox_url") {
        return Some(u);
    }
    ctx.trigger_params.text_field("sandbox_url")
}

fn make_ready(s: SandboxResult) -> (r: Callback)
    ensures
        r@ == ready(s@),
{
    Callback {
        action: "SandboxReady".to_string(),
        params: Json::object().set("sandbox_url", Json::Text(s.sandbox_url)).set(
            "sandbox_id",
            Json::Text(s.sandbox_id),
        ),
    }
}

/// The first step; `token` is the secret for the broker, if there is one.
pub fn provision_sandbox(ctx: &ModuleContext, token: &Option<String>) -> (r: SandboxStep)
    ensures
        r@ == first_sandbox_step(ctx@, opt_view(*token)),
{
    let fields = ctx.fields();
    let prompt = fields.text_or("prompt", "");
    if prompt.as_str().is_empty() {
        return SandboxStep::Failed("agent not configured — prompt is empty".to_string());
    }
    if let Some(u) = find_known_sandbox(ctx) {
        return SandboxStep::Done(
            make_ready(
                SandboxResult { sandbox_url: u, sandbox_id: "static-sandbox".to_string() },
            ),
        );
    }
    if let Some(t) = token {
        if !t.as_str().is_empty() {
            let mut headers: Vec<(String, String)> = Vec::new();
            let bearer = cat2("Bearer ", t.as_str());
            headers.push(pair("authorization", bearer.as_str()));
            headers.push(pair("content-type", "application/json"));
            assert(views(headers@) =~= broker_call(ctx@, t@).headers);
            let body = Json::object().set("timeout", Json::Unsigned(600));
            return SandboxStep::Send(
                HttpCall {
                    method: "POST".to_string(),
                    url: ctx.setting_or(
                        "modal_broker_url",
                        "http://localhost:8888/create-sandbox",
                    ),
                    headers,
                    body: render(&body),
                },
            );
        }
    }
    SandboxStep::Failed("no sandbox_url in config and no modal_api_token secret".to_string())
}

/// The step after the broker's reply, where its body reads as `read`.
pub fn conclude_sandbox(
    reply: Result<HttpReply, String>,
    read: Result<Json, String>,
) -> (r: SandboxStep)
    requires
        result_view(reply) matches Ok(x) ==> !is_success(x.status) ==> cuttable(x.body, 500),
    ensures
        r@ == after_broker(result_view(reply), result_view(read)),
{
    match reply {
        Err(m) => SandboxStep::Failed(m),
        Ok(x) => {
            if !(x.status >= 200 && x.status < 300) {
                let code = decimal_text(x.status as u64);
                let h = head_text(x.body.as_str(), 500);
                return SandboxStep::Failed(
                    cat4("sandbox broker failed (HTTP ", code.as_str(), "): ", h.as_str()),
                );
            }
            match read {
                Err(m) => SandboxStep::Failed(
                    cat2("failed to parse broker response: ", m.as_str()),
                ),
                Ok(v) => {
                    let url = v.text_or("sandbox_url", "");
                    let id = v.text_or("sandbox_id", "unknown");
                    if url.as_str().is_empty() {
                        return SandboxStep::Failed(
                            "broker response missing sandbox_url".to_string(),
                        );
                    }
                    SandboxStep::Done(
                        make_ready(SandboxResult { sandbox_url: url, sandbox_id: id }),
                    )
                },
            }
        },
    }
}

/// Whether a reply of the broker can be told: where the first bytes of its body
/// are told, no character lies across the cut.
pub fn can_conclude(reply: &Result<HttpReply, String>) -> (r: bool)
    ensures
        r == (result_view(*reply) matches Ok(x) ==> !is_success(x.status) ==> cuttable(
            x.body,
            500,
        )),
{
    match reply {
        Ok(x) => (200 <= x.status && x.status < 300) || can_cut(x.body.as_str(), 500),
        Err(_) => true,
    }
}

/// The step after the broker's reply.
pub fn resume_sandbox(reply: Result<HttpReply, String>) -> (r: SandboxStep)
    requires
        result_view(reply) matches Ok(x) ==> !is_success(x.status) ==> cuttable(x.body, 500),
    ensures
        r@ == after_broker(
            result_view(reply),
            crate::tools::reply_read(result_view(reply)),
        ),
{
    let read = crate::tools::read_reply(&reply);
    conclude_sandbox(reply, read)
}

} // verus!
