//! Requests to the providers of models, and what their replies say.
use vstd::prelude::*;

use crate::json::empty_object;
use crate::json::Json;
use crate::json::JsonView;
use crate::json_text::json_read;
use crate::json_text::parse;
use crate::keys::find_listed;
use crate::llm_convert::array;
use crate::llm_convert::convert_messages_to_openrouter;
use crate::llm_convert::convert_tools_to_openrouter;
use crate::llm_convert::converted_all;
use crate::llm_convert::field_or;
use crate::llm_convert::function_tools;
use crate::llm_convert::get_or;
use crate::module::all_wf;
use crate::module::copy_values;
use crate::module::make_message;
use crate::module::message;
use crate::module::pair;
use crate::module::result_view;
use crate::module::HttpReply;
use crate::module::ReplyView;
use crate::order::lemma_take_step;
use crate::order::opt_view;
use crate::order::views;
use crate::text::blank;
use crate::text::can_cut;
use crate::text::cat2;
use crate::text::cat4;
use crate::text::contains;
use crate::text::cuttable;
use crate::text::decimal;
use crate::text::decimal_text;
use crate::text::has;
use crate::text::head;
use crate::text::head_text;
use crate::text::is_blank;
use crate::text::join;
use crate::text::joined;
use crate::text::lower_text;
use crate::text::lowered;
use crate::text::same;
use crate::text::starts;
use crate::text::starts_with;
use crate::text::trim;
use crate::text::trimmed;

verus! {

/// A provider of models.
#[derive(Clone, Copy, Debug, PartialEq, Eq, Structural)]
pub enum Provider {
    /// The Messages API of Anthropic.
    Anthropic,
    /// The chat completions of OpenRouter.
    OpenRouter,
}

/// A provider's name in its usual form.
pub open spec fn provider_name(name: Seq<char>) -> Seq<char> {
    let n = lowered(trimmed(name));
    if n == "open_router"@ {
        "openrouter"@
    } else {
        n
    }
}

/// A provider's name in its usual form.
pub fn normalize_provider(provider: &str) -> (r: String)
    ensures
        r@ == provider_name(provider@),
{
    let t = trim(provider);
    let n = lower_text(t.as_str());
    if same(n.as_str(), "open_router") {
        "openrouter".to_string()
    } else {
        n
    }
}

/// Whether a value still names a secret in place of holding it.
pub fn is_unresolved_secret_template(value: &str) -> (r: bool)
    ensures
        r == has(value@, "{secret:"@),
{
    contains(value, "{secret:")
}

/// The first of the values that is given and not blank, without white space at
/// its ends; the empty text where there is none.
pub open spec fn first_filled(values: Seq<Option<Seq<char>>>) -> Seq<char>
    decreases values.len(),
{
    if values.len() == 0 {
        Seq::empty()
    } else {
        match values[0] {
            Some(v) => if blank(v) {
                first_filled(values.drop_first())
            } else {
                trimmed(v)
            },
            None => first_filled(values.drop_first()),
        }
    }
}

/// The views of optional texts.
pub open spec fn opt_views(s: Seq<Option<String>>) -> Seq<Option<Seq<char>>> {
    Seq::new(s.len(), |i: int| opt_view(s[i]))
}

/// The first of the values that is given and not blank.
pub fn first_non_empty(values: &Vec<Option<String>>) -> (r: String)
    ensures
        r@ == first_filled(opt_views(values@)),
{
    let ghost all = opt_views(values@);
    let mut i: usize = 0;
    assert(all.skip(0) =~= all);
    while i < values.len()
        invariant
            i <= values@.len(),
            all == opt_views(values@),
            first_filled(all) == first_filled(all.skip(i as int)),
        decreases values@.len() - i,
    {
        assert(all.skip(i as int)[0] == opt_view(values@[i as int]));
        assert(all.skip(i as int).drop_first() =~= all.skip(i + 1));
        if let Some(v) = &values[i] {
            if !is_blank(v.as_str()) {
                return trim(v.as_str());
            }
        }
        i = i + 1;
    }
    let t = String::new();
    assert(t@ =~= Seq::empty());
    t
}

/// The provider with that name, and the key for it among the settings; the empty
/// text stands for no key.
pub open spec fn provider_key(
    config: Seq<(Seq<char>, Seq<char>)>,
    name: Seq<char>,
) -> Result<(Provider, Seq<char>), Seq<char>> {
    let shared = crate::keys::listed(config, "api_key"@);
    if name == "anthropic"@ {
        Ok(
            (
                Provider::Anthropic,
                first_filled(seq![crate::keys::listed(config, "anthropic_api_key"@), shared]),
            ),
        )
    } else if name == "openrouter"@ {
        Ok(
            (
                Provider::OpenRouter,
                first_filled(seq![crate::keys::listed(config, "openrouter_api_key"@), shared]),
            ),
        )
    } else {
        Err("unsupported LLM provider: "@ + name)
    }
}

/// The provider with that name, and the key for it among the settings.
pub fn resolve_provider_api_key(
    config: &Vec<(String, String)>,
    provider: &str,
) -> (r: Result<(Provider, String), String>)
    ensures
        match provider_key(views(config@), provider@) {
            Ok((p, k)) => r is Ok && r->Ok_0.0 == p && r->Ok_0.1@ == k,
            Err(m) => r is Err && r->Err_0@ == m,
        },
{
    let mut keys: Vec<Option<String>> = Vec::new();
    if same(provider, "anthropic") {
        keys.push(find_listed(config, "anthropic_api_key"));
        keys.push(find_listed(config, "api_key"));
        assert(opt_views(keys@) =~= seq![
            crate::keys::listed(views(config@), "anthropic_api_key"@),
            crate::keys::listed(views(config@), "api_key"@),
        ]);
        Ok((Provider::Anthropic, first_non_empty(&keys)))
    } else if same(provider, "openrouter") {
        proof {
            reveal_strlit("anthropic");
            reveal_strlit("openrouter");
            assert("anthropic"@.len() == 9);
            assert("openrouter"@.len() == 10);
        }
        keys.push(find_listed(config, "openrouter_api_key"));
        keys.push(find_listed(config, "api_key"));
        assert(opt_views(keys@) =~= seq![
            crate::keys::listed(views(config@), "openrouter_api_key"@),
            crate::keys::listed(views(config@), "api_key"@),
        ]);
        Ok((Provider::OpenRouter, first_non_empty(&keys)))
    } else {
        Err(cat2("unsupported LLM provider: ", provider))
    }
}

/// The key is an OAuth token: by the mode, or, where that leaves it open, by how
/// the key begins.
pub open spec fn oauth_mode(api_key: Seq<char>, auth_mode: Seq<char>) -> bool {
    let mode = lowered(trimmed(auth_mode));
    if mode == "oauth"@ {
        true
    } else if mode == "api_key"@ {
        false
    } else {
        starts(api_key, "sk-ant-oat"@)
    }
}

/// Whether the key is an OAuth token.
pub fn detect_anthropic_oauth_mode(api_key: &str, auth_mode: &str) -> (r: bool)
    ensures
        r == oauth_mode(api_key@, auth_mode@),
{
    let t = trim(auth_mode);
    let mode = lower_text(t.as_str());
    if same(mode.as_str(), "oauth") {
        true
    } else if same(mode.as_str(), "api_key") {
        false
    } else {
        starts_with(api_key, "sk-ant-oat")
    }
}

/// What a deployment sets for its models.
#[derive(Debug)]
pub struct ModelDefaults {
    /// The model that is asked where none is named.
    pub model: String,
    /// What the system parameter says beside an OAuth token.
    pub oauth_system: String,
    /// The program that asks, beside an OAuth token.
    pub oauth_agent: String,
}

/// What a deployment sets for its models.
pub struct DefaultsView {
    /// The model that is asked where none is named.
    pub model: Seq<char>,
    /// What the system parameter says beside an OAuth token.
    pub oauth_system: Seq<char>,
    /// The program that asks, beside an OAuth token.
    pub oauth_agent: Seq<char>,
}

impl View for ModelDefaults {
    type V = DefaultsView;

    open spec fn view(&self) -> DefaultsView {
        DefaultsView {
            model: self.model@,
            oauth_system: self.oauth_system@,
            oauth_agent: self.oauth_agent@,
        }
    }
}

/// The messages that are sent beside an OAuth token: the instructions stand
/// before the text of the first.
pub open spec fn instructed(messages: Seq<JsonView>, instructions: Seq<char>) -> Seq<JsonView> {
    if instructions.len() > 0 && messages.len() > 0 {
        match messages[0].text_field("content"@) {
            Some(c) => messages.update(
                0,
                messages[0].with(
                    "content"@,
                    JsonView::Text("[System instructions: "@ + instructions + "]\n\n"@ + c),
                ),
            ),
            None => messages,
        }
    } else {
        messages
    }
}

/// The object with a field, or without it where there is no need of it.
pub open spec fn with_if(o: JsonView, cond: bool, key: Seq<char>, value: JsonView) -> JsonView {
    if cond {
        o.with(key, value)
    } else {
        o
    }
}

/// The body of a request to the Messages API. Beside an OAuth token the system
/// parameter is `oauth_system`; without one it is left out where it is empty.
pub open spec fn anthropic_body(
    model: Seq<char>,
    oauth: bool,
    oauth_system: Seq<char>,
    system: Seq<char>,
    messages: Seq<JsonView>,
    tools: Seq<JsonView>,
) -> JsonView {
    let sent = if oauth {
        instructed(messages, system)
    } else {
        messages
    };
    let base = empty_object().with("model"@, JsonView::Text(model)).with(
        "max_tokens"@,
        JsonView::Unsigned(4096),
    ).with("messages"@, JsonView::List(sent));
    let told = if oauth {
        oauth_system
    } else {
        system
    };
    let based = with_if(base, told.len() > 0, "system"@, JsonView::Text(told));
    with_if(based, tools.len() > 0, "tools"@, JsonView::List(tools))
}

/// The headers of a request to the Messages API.
pub open spec fn anthropic_headers(
    oauth: bool,
    api_key: Seq<char>,
    oauth_agent: Seq<char>,
) -> Seq<(Seq<char>, Seq<char>)> {
    if oauth {
        seq![
            ("authorization"@, "Bearer "@ + api_key),
            ("anthropic-version"@, "2023-06-01"@),
            ("anthropic-beta"@, "oauth-2025-04-20,computer-use-2025-01-24"@),
            ("content-type"@, "application/json"@),
            ("user-agent"@, oauth_agent),
            ("x-app"@, "cli"@),
        ]
    } else {
        seq![
            ("x-api-key"@, api_key),
            ("anthropic-version"@, "2023-06-01"@),
            ("content-type"@, "application/json"@),
        ]
    }
}

fn instruct(messages: &Vec<Json>, instructions: &str) -> (r: Vec<Json>)
    requires
        all_wf(views(messages@)),
    ensures
        views(r@) == instructed(views(messages@), instructions@),
        all_wf(views(r@)),
{
    let mut r = copy_values(messages);
    if !instructions.is_empty() && r.len() > 0 {
        let ghost was = views(r@);
        assert(was[0] == r@[0]@);
        if let Some(c) = r[0].text_field("content") {
            let text = cat4("[System instructions: ", instructions, "]\n\n", c.as_str());
            let first = r.remove(0);
            let first = first.set("content", Json::Text(text));
            let ghost fv = first@;
            r.insert(0, first);
            assert(views(r@) =~= was.update(0, fv));
        }
    }
    r
}

/// The body of a request to the Messages API.
pub fn build_anthropic_body(
    model: &str,
    oauth: bool,
    oauth_system: &str,
    system: &str,
    messages: &Vec<Json>,
    tools: &Vec<Json>,
) -> (r: Json)
    requires
        all_wf(views(messages@)),
        all_wf(views(tools@)),
    ensures
        r@ == anthropic_body(
            model@,
            oauth,
            oauth_system@,
            system@,
            views(messages@),
            views(tools@),
        ),
        r@.wf(),
{
    let sent = if oauth {
        instruct(messages, system)
    } else {
        copy_values(messages)
    };
    let mut body = Json::object().set("model", Json::of_text(model)).set(
        "max_tokens",
        Json::Unsigned(4096),
    ).set("messages", array(sent));
    let told: &str = if oauth {
        oauth_system
    } else {
        system
    };
    if !told.is_empty() {
        body = body.set("system", Json::of_text(told));
    }
    if tools.len() > 0 {
        body = body.set("tools", array(copy_values(tools)));
    }
    body
}

/// The headers of a request to the Messages API.
pub fn build_anthropic_headers(
    oauth: bool,
    api_key: &str,
    oauth_agent: &str,
) -> (r: Vec<(String, String)>)
    ensures
        views(r@) == anthropic_headers(oauth, api_key@, oauth_agent@),
{
    let mut r: Vec<(String, String)> = Vec::new();
    if oauth {
        let bearer = cat2("Bearer ", api_key);
        r.push(pair("authorization", bearer.as_str()));
        r.push(pair("anthropic-version", "2023-06-01"));
        r.push(pair("anthropic-beta", "oauth-2025-04-20,computer-use-2025-01-24"));
        r.push(pair("content-type", "application/json"));
        r.push(pair("user-agent", oauth_agent));
        r.push(pair("x-app", "cli"));
    } else {
        r.push(pair("x-api-key", api_key));
        r.push(pair("anthropic-version", "2023-06-01"));
        r.push(pair("content-type", "application/json"));
    }
    assert(views(r@) =~= anthropic_headers(oauth, api_key@, oauth_agent@));
    r
}

/// The body of a request for a chat completion.
pub open spec fn openrouter_body(
    model: Seq<char>,
    system: Seq<char>,
    messages: Seq<JsonView>,
    tools: Seq<JsonView>,
) -> JsonView {
    let first = if system.len() > 0 {
        seq![message("system"@, JsonView::Text(system))]
    } else {
        Seq::empty()
    };
    let base = empty_object().with("model"@, JsonView::Text(model)).with(
        "messages"@,
        JsonView::List(first + converted_all(messages)),
    ).with("max_tokens"@, JsonView::Unsigned(4096));
    let offered = function_tools(tools);
    if offered.len() > 0 {
        base.with("tools"@, JsonView::List(offered)).with("tool_choice"@, JsonView::Text("auto"@))
    } else {
        base
    }
}

/// The list with one pair more, where the value is not blank.
pub open spec fn with_header(
    s: Seq<(Seq<char>, Seq<char>)>,
    key: Seq<char>,
    value: Seq<char>,
) -> Seq<(Seq<char>, Seq<char>)> {
    if blank(value) {
        s
    } else {
        s.push((key, trimmed(value)))
    }
}

/// The headers of a request for a chat completion.
pub open spec fn openrouter_headers(
    api_key: Seq<char>,
    site_url: Seq<char>,
    app_name: Seq<char>,
) -> Seq<(Seq<char>, Seq<char>)> {
    let base = seq![
        ("authorization"@, "Bearer "@ + api_key),
        ("content-type"@, "application/json"@),
    ];
    with_header(with_header(base, "HTTP-Referer"@, site_url), "X-Title"@, app_name)
}

/// The body of a request for a chat completion.
pub fn build_openrouter_body(
    model: &str,
    system: &str,
    messages: &Vec<Json>,
    tools: &Vec<Json>,
) -> (r: Json)
    requires
        all_wf(views(messages@)),
        all_wf(views(tools@)),
    ensures
        r@ == openrouter_body(model@, system@, views(messages@), views(tools@)),
        r@.wf(),
{
    let mut sent: Vec<Json> = Vec::new();
    if !system.is_empty() {
        sent.push(make_message("system", Json::of_text(system)));
    }
    let ghost first = sent@;
    let mut rest = convert_messages_to_openrouter(messages);
    let ghost rs = rest@;
    sent.append(&mut rest);
    proof {
        let want = if system@.len() > 0 {
            seq![message("system"@, JsonView::Text(system@))]
        } else {
            Seq::empty()
        };
        assert(views(first) =~= want);
        assert(sent@ == first + rs);
        assert(views(sent@) =~= want + views(rs));
    }
    let offered = convert_tools_to_openrouter(tools);
    let body = Json::object().set("model", Json::of_text(model)).set("messages", array(sent)).set(
        "max_tokens",
        Json::Unsigned(4096),
    );
    if offered.len() > 0 {
        body.set("tools", array(offered)).set("tool_choice", Json::of_text("auto"))
    } else {
        body
    }
}

fn push_header(r: &mut Vec<(String, String)>, key: &str, value: &str)
    ensures
        views(final(r)@) == with_header(views(old(r)@), key@, value@),
{
    if !is_blank(value) {
        let ghost was = views(r@);
        let t = trim(value);
        r.push(pair(key, t.as_str()));
        assert(views(r@) =~= was.push((key@, trimmed(value@))));
    }
}

/// The headers of a request for a chat completion.
pub fn build_openrouter_headers(
    api_key: &str,
    site_url: &str,
    app_name: &str,
) -> (r: Vec<(String, String)>)
    ensures
        views(r@) == openrouter_headers(api_key@, site_url@, app_name@),
{
    let mut r: Vec<(String, String)> = Vec::new();
    let bearer = cat2("Bearer ", api_key);
    r.push(pair("authorization", bearer.as_str()));
    r.push(pair("content-type", "application/json"));
    assert(views(r@) =~= seq![
        ("authorization"@, "Bearer "@ + api_key@),
        ("content-type"@, "application/json"@),
    ]);
    push_header(&mut r, "HTTP-Referer", site_url);
    push_header(&mut r, "X-Title", app_name);
    r
}

/// What is made of a reply from a provider.
pub enum VerdictView {
    /// It is the answer.
    Accept(Seq<char>),
    /// It may go better the next time; this is what went wrong.
    Retry(Seq<char>),
    /// It will not go better; this is what went wrong.
    Refuse(Seq<char>),
}

/// What is made of a reply from a provider.
#[derive(Debug)]
pub enum Verdict {
    /// It is the answer.
    Accept(String),
    /// It may go better the next time; this is what went wrong.
    Retry(String),
    /// It will not go better; this is what went wrong.
    Refuse(String),
}

impl View for Verdict {
    type V = VerdictView;

    open spec fn view(&self) -> VerdictView {
        match *self {
            Verdict::Accept(t) => VerdictView::Accept(t@),
            Verdict::Retry(t) => VerdictView::Retry(t@),
            Verdict::Refuse(t) => VerdictView::Refuse(t@),
        }
    }
}

/// The status stands for trouble at the provider that may pass.
pub open spec fn passing_trouble(p: Provider, status: u16) -> bool {
    match p {
        Provider::Anthropic => status == 500 || status == 529,
        Provider::OpenRouter => status == 429 || status == 500 || status == 502 || status == 503
            || status == 504,
    }
}

/// The provider refused the request without saying why.
pub open spec fn vague_refusal(p: Provider, r: ReplyView) -> bool {
    p == Provider::Anthropic && r.status == 400 && has(r.body, "\"message\":\"Error\""@)
}

/// A status and the first bytes of a body.
pub open spec fn status_line(
    before: Seq<char>,
    status: u16,
    body: Seq<char>,
    n: nat,
) -> Seq<char> {
    before + decimal(status as nat) + ": "@ + head(body, n)
}

/// What is made of a reply from a provider.
pub open spec fn verdict(p: Provider, r: Result<ReplyView, Seq<char>>) -> VerdictView {
    match r {
        Ok(x) => if x.status == 200 {
            VerdictView::Accept(x.body)
        } else if passing_trouble(p, x.status) {
            VerdictView::Retry(status_line("HTTP "@, x.status, x.body, 200))
        } else if vague_refusal(p, x) {
            VerdictView::Retry("HTTP 400 (transient): "@ + head(x.body, 200))
        } else {
            VerdictView::Refuse(
                match p {
                    Provider::Anthropic => status_line(
                        "Anthropic API returned "@,
                        x.status,
                        x.body,
                        500,
                    ),
                    Provider::OpenRouter => status_line(
                        "OpenRouter API returned "@,
                        x.status,
                        x.body,
                        500,
                    ),
                },
            )
        },
        Err(m) => VerdictView::Retry(m),
    }
}

/// Where the first bytes of a body are told, no character lies across the cut.
pub open spec fn tellable(p: Provider, r: Result<ReplyView, Seq<char>>) -> bool {
    r matches Ok(x) ==> x.status != 200 ==> if passing_trouble(p, x.status) || vague_refusal(
        p,
        x,
    ) {
        cuttable(x.body, 200)
    } else {
        cuttable(x.body, 500)
    }
}

fn tell(before: &str, status: u16, body: &str, n: usize) -> (r: String)
    requires
        cuttable(body@, n as nat),
    ensures
        r@ == status_line(before@, status, body@, n as nat),
{
    let code = decimal_text(status as u64);
    let h = head_text(body, n);
    cat4(before, code.as_str(), ": ", h.as_str())
}

fn is_passing(p: Provider, status: u16) -> (r: bool)
    ensures
        r == passing_trouble(p, status),
{
    match p {
        Provider::Anthropic => status == 500 || status == 529,
        Provider::OpenRouter => status == 429 || status == 500 || status == 502 || status == 503
            || status == 504,
    }
}

/// Whether a reply can be judged: where the first bytes of its body are told, no
/// character lies across the cut.
pub fn can_judge(p: Provider, reply: &Result<HttpReply, String>) -> (r: bool)
    ensures
        r == tellable(p, result_view(*reply)),
{
    match reply {
        Ok(x) => {
            if x.status == 200 {
                return true;
            }
            let vague = match p {
                Provider::Anthropic => x.status == 400 && contains(
                    x.body.as_str(),
                    "\"message\":\"Error\"",
                ),
                Provider::OpenRouter => false,
            };
            if is_passing(p, x.status) || vague {
                can_cut(x.body.as_str(), 200)
            } else {
                can_cut(x.body.as_str(), 500)
            }
        },
        Err(_) => true,
    }
}

/// What is made of a reply from a provider.
pub fn judge_reply(p: Provider, reply: Result<HttpReply, String>) -> (r: Verdict)
    requires
        tellable(p, result_view(reply)),
    ensures
        r@ == verdict(p, result_view(reply)),
{
    match reply {
        Ok(x) => {
            let status: u16 = x.status;
            if status == 200 {
                return Verdict::Accept(x.body);
            }
            if is_passing(p, status) {
                return Verdict::Retry(tell("HTTP ", status, x.body.as_str(), 200));
            }
            match p {
                Provider::Anthropic => {
                    if status == 400 && contains(x.body.as_str(), "\"message\":\"Error\"") {
                        let h = head_text(x.body.as_str(), 200);
                        return Verdict::Retry(cat2("HTTP 400 (transient): ", h.as_str()));
                    }
                    Verdict::Refuse(tell("Anthropic API returned ", status, x.body.as_str(), 500))
                },
                Provider::OpenRouter => Verdict::Refuse(
                    tell("OpenRouter API returned ", status, x.body.as_str(), 500),
                ),
            }
        },
        Err(m) => Verdict::Retry(m),
    }
}

/// The answer of a model.
pub struct AnswerView {
    /// What it said and called, in blocks.
    pub content: JsonView,
    /// Why it stopped.
    pub stop_reason: Seq<char>,
    /// The tokens it was given.
    pub input_tokens: i64,
    /// The tokens it gave.
    pub output_tokens: i64,
}

/// The answer of a model.
pub struct LlmResponse {
    /// What it said and called, in blocks.
    pub content: Json,
    /// Why it stopped.
    pub stop_reason: String,
    /// The tokens it was given.
    pub input_tokens: i64,
    /// The tokens it gave.
    pub output_tokens: i64,
}

impl View for LlmResponse {
    type V = AnswerView;

    open spec fn view(&self) -> AnswerView {
        AnswerView {
            content: self.content@,
            stop_reason: self.stop_reason@,
            input_tokens: self.input_tokens,
            output_tokens: self.output_tokens,
        }
    }
}

/// The integer in a field.
pub open spec fn count_field(v: JsonView, key: Seq<char>) -> Option<i64> {
    match v.field(key) {
        Some(x) => x.integer(),
        None => None,
    }
}

/// The first integer of two fields, or zero.
pub open spec fn count_of(v: JsonView, key: Seq<char>, other: Seq<char>) -> i64 {
    match count_field(v, key) {
        Some(n) => n,
        None => match count_field(v, other) {
            Some(n) => n,
            None => 0,
        },
    }
}

/// What a reply of the Messages API says.
pub open spec fn anthropic_answer(v: JsonView) -> AnswerView {
    let usage = field_or(v, "usage"@, empty_object());
    AnswerView {
        content: field_or(v, "content"@, JsonView::List(Seq::empty())),
        stop_reason: v.text_or("stop_reason"@, "end_turn"@),
        input_tokens: count_of(usage, "input_tokens"@, "input_tokens"@),
        output_tokens: count_of(usage, "output_tokens"@, "output_tokens"@),
    }
}

fn get_count(v: &Json, key: &str) -> (r: Option<i64>)
    ensures
        r == count_field(v@, key@),
{
    match v.get(key) {
        Some(x) => x.as_integer(),
        None => None,
    }
}

fn read_count(v: &Json, key: &str, other: &str) -> (r: i64)
    ensures
        r == count_of(v@, key@, other@),
{
    match get_count(v, key) {
        Some(n) => n,
        None => match get_count(v, other) {
            Some(n) => n,
            None => 0,
        },
    }
}

fn empty_list() -> (r: Json)
    ensures
        r@ == JsonView::List(Seq::empty()),
        r@.wf(),
{
    let none: Vec<Json> = Vec::new();
    assert(views(none@) =~= Seq::empty());
    array(none)
}

/// What a reply of the Messages API says.
pub fn read_anthropic_answer(v: &Json) -> (r: LlmResponse)
    requires
        v@.wf(),
    ensures
        r@ == anthropic_answer(v@),
        r.content@.wf(),
{
    let usage = get_or(v, "usage", Json::object());
    LlmResponse {
        content: get_or(v, "content", empty_list()),
        stop_reason: v.text_or("stop_reason", "end_turn"),
        input_tokens: read_count(&usage, "input_tokens", "input_tokens"),
        output_tokens: read_count(&usage, "output_tokens", "output_tokens"),
    }
}

/// The texts of the parts of a message: of each part its text, else its content.
pub open spec fn part_texts(parts: Seq<JsonView>) -> Seq<Seq<char>>
    decreases parts.len(),
{
    if parts.len() == 0 {
        Seq::empty()
    } else {
        let rest = part_texts(parts.drop_last());
        match parts.last().text_field("text"@) {
            Some(t) => rest.push(t),
            None => match parts.last().text_field("content"@) {
                Some(t) => rest.push(t),
                None => rest,
            },
        }
    }
}

/// The text of a message: its content, where that is a string, or the texts of
/// its parts, one per line.
pub open spec fn message_text(m: JsonView) -> Seq<char> {
    match m.field("content"@) {
        Some(JsonView::Text(t)) => t,
        Some(JsonView::List(parts)) => joined(part_texts(parts), "\n"@),
        _ => Seq::empty(),
    }
}

/// The text of a message.
pub fn extract_openrouter_text(m: &Json) -> (r: String)
    ensures
        r@ == message_text(m@),
{
    match m.get("content") {
        Some(Json::Text(t)) => t.clone(),
        Some(Json::List(parts)) => {
            let ghost all = views(parts@);
            proof {
                Json::lemma_list(*parts);
            }
            let mut chunks: Vec<String> = Vec::new();
            let mut i: usize = 0;
            assert(all.take(0) =~= Seq::<JsonView>::empty());
            assert(views(chunks@) =~= Seq::<Seq<char>>::empty());
            while i < parts.len()
                invariant
                    i <= parts@.len(),
                    all == views(parts@),
                    views(chunks@) == part_texts(all.take(i as int)),
                decreases parts@.len() - i,
            {
                proof {
                    lemma_take_step(all, i as int);
                    assert(all[i as int] == parts@[i as int]@);
                }
                let ghost was = views(chunks@);
                if let Some(t) = parts[i].text_field("text") {
                    let ghost tv = t@;
                    chunks.push(t);
                    assert(views(chunks@) =~= was.push(tv));
                } else if let Some(t) = parts[i].text_field("content") {
                    let ghost tv = t@;
                    chunks.push(t);
                    assert(views(chunks@) =~= was.push(tv));
                }
                i = i + 1;
            }
            assert(all.take(i as int) =~= all);
            join(&chunks, "\n")
        },
        _ => {
            let t = String::new();
            assert(t@ =~= Seq::empty());
            t
        },
    }
}

/// The string in a field of a field.
pub open spec fn inner_text(v: JsonView, outer: Seq<char>, inner: Seq<char>) -> Option<Seq<char>> {
    match v.field(outer) {
        Some(x) => x.text_field(inner),
        None => None,
    }
}

/// The string in a field of a field.
pub fn get_inner_text(v: &Json, outer: &str, inner: &str) -> (r: Option<String>)
    ensures
        opt_view(r) == inner_text(v@, outer@, inner@),
{
    match v.get(outer) {
        Some(x) => x.text_field(inner),
        None => None,
    }
}

/// A block for the use of a tool.
pub open spec fn use_block(id: Seq<char>, name: Seq<char>, input: JsonView) -> JsonView {
    empty_object().with("type"@, JsonView::Text("tool_use"@)).with("id"@, JsonView::Text(id)).with(
        "name"@,
        JsonView::Text(name),
    ).with("input"@, input)
}

/// A block for the use of a tool.
pub fn tool_use_block(id: String, name: String, input: Json) -> (r: Json)
    requires
        input@.wf(),
    ensures
        r@ == use_block(id@, name@, input@),
        r@.wf(),
{
    Json::object().set("type", Json::of_text("tool_use")).set("id", Json::Text(id)).set(
        "name",
        Json::Text(name),
    ).set("input", input)
}

/// The arguments of a tool call, as JSON text.
pub open spec fn call_arguments(call: JsonView) -> Seq<char> {
    match inner_text(call, "function"@, "arguments"@) {
        Some(t) => t,
        None => "{}"@,
    }
}

/// The block for a tool call at position `at`, whose arguments read as `input`.
pub open spec fn call_block(call: JsonView, at: nat, input: JsonView) -> JsonView {
    use_block(
        call.text_or("id"@, "or_tool_"@ + decimal(at + 1)),
        match inner_text(call, "function"@, "name"@) {
            Some(t) => t,
            None => "unknown_tool"@,
        },
        input,
    )
}

/// What arguments read as; what is no JSON counts as no arguments.
pub open spec fn arguments_read(t: Seq<char>) -> JsonView {
    match json_read(t) {
        Ok(v) => v,
        Err(_) => empty_object(),
    }
}

/// The blocks for tool calls.
pub open spec fn call_blocks(calls: Seq<JsonView>) -> Seq<JsonView> {
    Seq::new(
        calls.len(),
        |i: int| call_block(calls[i], i as nat, arguments_read(call_arguments(calls[i]))),
    )
}

/// The first message of a chat completion.
pub open spec fn first_message(v: JsonView) -> JsonView {
    let choice = match v.field("choices"@) {
        Some(JsonView::List(c)) => if c.len() > 0 {
            c[0]
        } else {
            empty_object()
        },
        _ => empty_object(),
    };
    field_or(choice, "message"@, empty_object())
}

/// The tool calls of a message.
pub open spec fn calls_of(m: JsonView) -> Seq<JsonView> {
    match m.field("tool_calls"@) {
        Some(JsonView::List(c)) => c,
        _ => Seq::empty(),
    }
}

/// What a chat completion says. It stopped to use tools where it calls any.
pub open spec fn openrouter_answer(v: JsonView) -> AnswerView {
    let m = first_message(v);
    let text = message_text(m);
    let said = if text.len() > 0 {
        seq![
            empty_object().with("type"@, JsonView::Text("text"@)).with(
                "text"@,
                JsonView::Text(text),
            ),
        ]
    } else {
        Seq::empty()
    };
    let usage = field_or(v, "usage"@, empty_object());
    AnswerView {
        content: JsonView::List(said + call_blocks(calls_of(m))),
        stop_reason: if calls_of(m).len() > 0 {
            "tool_use"@
        } else {
            "end_turn"@
        },
        input_tokens: count_of(usage, "prompt_tokens"@, "input_tokens"@),
        output_tokens: count_of(usage, "completion_tokens"@, "output_tokens"@),
    }
}

fn make_call_block(call: &Json, at: usize) -> (r: Json)
    requires
        at < usize::MAX,
    ensures
        r@ == call_block(call@, at as nat, arguments_read(call_arguments(call@))),
        r@.wf(),
{
    let id = match call.text_field("id") {
        Some(t) => t,
        None => {
            let n = decimal_text((at + 1) as u64);
            cat2("or_tool_", n.as_str())
        },
    };
    let name = match get_inner_text(call, "function", "name") {
        Some(t) => t,
        None => "unknown_tool".to_string(),
    };
    let arguments = match get_inner_text(call, "function", "arguments") {
        Some(t) => t,
        None => "{}".to_string(),
    };
    let input = match parse(arguments.as_str()) {
        Ok(v) => v,
        Err(_) => Json::object(),
    };
    tool_use_block(id, name, input)
}

fn make_call_blocks(m: &Json) -> (r: Vec<Json>)
    ensures
        views(r@) == call_blocks(calls_of(m@)),
        all_wf(views(r@)),
{
    let mut r: Vec<Json> = Vec::new();
    if let Some(Json::List(calls)) = m.get("tool_calls") {
        proof {
            Json::lemma_list(*calls);
        }
        let ghost all = views(calls@);
        let mut i: usize = 0;
        while i < calls.len()
            invariant
                i <= calls@.len(),
                all == views(calls@),
                r@.len() == i,
                forall|j: int|
                    0 <= j < i ==> (#[trigger] r@[j])@ == call_block(
                        all[j],
                        j as nat,
                        arguments_read(call_arguments(all[j])),
                    ) && r@[j]@.wf(),
            decreases calls@.len() - i,
        {
            assert(all[i as int] == calls@[i as int]@);
            r.push(make_call_block(&calls[i], i));
            i = i + 1;
        }
    }
    assert(views(r@) =~= call_blocks(calls_of(m@)));
    r
}

fn find_first_message(v: &Json) -> (r: Json)
    requires
        v@.wf(),
    ensures
        r@ == first_message(v@),
{
    if let Some(Json::List(c)) = v.get("choices") {
        proof {
            Json::lemma_list(*c);
        }
        if c.len() > 0 {
            return get_or(&c[0], "message", Json::object());
        }
    }
    let none = Json::object();
    get_or(&none, "message", Json::object())
}

/// What a chat completion says.
pub fn read_openrouter_answer(v: &Json) -> (r: LlmResponse)
    requires
        v@.wf(),
    ensures
        r@ == openrouter_answer(v@),
        r.content@.wf(),
{
    let m = find_first_message(v);
    let text = extract_openrouter_text(&m);
    let mut blocks: Vec<Json> = Vec::new();
    if !text.as_str().is_empty() {
        blocks.push(
            Json::object().set("type", Json::of_text("text")).set(
                "text",
                Json::of_text(text.as_str()),
            ),
        );
    }
    let ghost said = blocks@;
    let mut calls = make_call_blocks(&m);
    let ghost cs = calls@;
    let called = calls.len() > 0;
    blocks.append(&mut calls);
    proof {
        assert(blocks@ == said + cs);
        assert(views(blocks@) =~= views(said) + views(cs));
        let want = if text@.len() > 0 {
            seq![
                empty_object().with("type"@, JsonView::Text("text"@)).with(
                    "text"@,
                    JsonView::Text(text@),
                ),
            ]
        } else {
            Seq::empty()
        };
        assert(views(said) =~= want);
    }
    let usage = get_or(v, "usage", Json::object());
    LlmResponse {
        content: array(blocks),
        stop_reason: if called {
            "tool_use".to_string()
        } else {
            "end_turn".to_string()
        },
        input_tokens: read_count(&usage, "prompt_tokens", "input_tokens"),
        output_tokens: read_count(&usage, "completion_tokens", "output_tokens"),
    }
}

/// What the body of an accepted reply says, where it reads as `read`.
pub open spec fn answer(
    p: Provider,
    read: Result<JsonView, Seq<char>>,
) -> Result<AnswerView, Seq<char>> {
    match (p, read) {
        (Provider::Anthropic, Ok(v)) => Ok(anthropic_answer(v)),
        (Provider::OpenRouter, Ok(v)) => Ok(openrouter_answer(v)),
        (Provider::Anthropic, Err(m)) => Err("failed to parse LLM response: "@ + m),
        (Provider::OpenRouter, Err(m)) => Err("failed to parse OpenRouter response: "@ + m),
    }
}

/// What the body of an accepted reply says, where it reads as `read`.
pub fn read_answer(p: Provider, read: Result<Json, String>) -> (r: Result<LlmResponse, String>)
    requires
        read is Ok ==> read->Ok_0@.wf(),
    ensures
        result_view(r) == answer(p, result_view(read)),
        r is Ok ==> r->Ok_0.content@.wf(),
{
    match (p, read) {
        (Provider::Anthropic, Ok(v)) => Ok(read_anthropic_answer(&v)),
        (Provider::OpenRouter, Ok(v)) => Ok(read_openrouter_answer(&v)),
        (Provider::Anthropic, Err(m)) => Err(cat2("failed to parse LLM response: ", m.as_str())),
        (Provider::OpenRouter, Err(m)) => Err(
            cat2("failed to parse OpenRouter response: ", m.as_str()),
        ),
    }
}

} // verus!
