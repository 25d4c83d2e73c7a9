//! A session of an agent over the model context protocol: whom it acts as, what
//! it sends, and what is recorded of it.
use vstd::prelude::*;

use crate::json::empty_object;
use crate::json::Json;
use crate::json::JsonView;
use crate::json_text::json_read;
use crate::json_text::parse;
use crate::json_text::render;
use crate::json_text::rendered;
use crate::module::is_success;
use crate::module::pair;
use crate::module::CallView;
use crate::module::HttpCall;
use crate::module::HttpReply;
use crate::module::ReplyView;
use crate::order::opt_view;
use crate::order::views;
use crate::text::blank;
use crate::text::cat2;
use crate::text::cat3;
use crate::text::copy_opt;
use crate::text::cuttable;
use crate::text::decimal;
use crate::text::decimal_text;
use crate::text::head;
use crate::text::head_text;
use crate::text::is_blank;
use crate::text::only;
use crate::text::trim;
use crate::text::trim_end;
use crate::text::trim_end_char;
use crate::text::trimmed;
use crate::trajectory::either;

verus! {

/// How a session is set up.
#[derive(Debug)]
pub struct McpConfig {
    /// The address of the server.
    pub temper_url: Option<String>,
    /// The port of a server on this machine.
    pub temper_port: Option<u16>,
    /// The agent.
    pub agent_id: Option<String>,
    /// The kind of agent.
    pub agent_type: Option<String>,
    /// The session.
    pub session_id: Option<String>,
    /// The key with which the agent shows who it is.
    pub api_key: Option<String>,
}

/// A session.
#[derive(Debug)]
pub struct Session {
    /// The address of the server.
    pub base_url: String,
    /// The agent.
    pub agent_id: Option<String>,
    /// The kind of agent.
    pub agent_type: Option<String>,
    /// The session.
    pub session_id: Option<String>,
    /// The key with which the agent shows who it is.
    pub api_key: Option<String>,
    /// The tenant in which it does.
    pub identity_tenant: String,
}

/// A session.
pub struct SessionView {
    /// The address of the server.
    pub base_url: Seq<char>,
    /// The agent.
    pub agent_id: Option<Seq<char>>,
    /// The kind of agent.
    pub agent_type: Option<Seq<char>>,
    /// The session.
    pub session_id: Option<Seq<char>>,
    /// The key with which the agent shows who it is.
    pub api_key: Option<Seq<char>>,
    /// The tenant in which it does.
    pub identity_tenant: Seq<char>,
}

impl View for Session {
    type V = SessionView;

    open spec fn view(&self) -> SessionView {
        SessionView {
            base_url: self.base_url@,
            agent_id: opt_view(self.agent_id),
            agent_type: opt_view(self.agent_type),
            session_id: opt_view(self.session_id),
            api_key: opt_view(self.api_key),
            identity_tenant: self.identity_tenant@,
        }
    }
}

/// The address of the server: as it is given, else on this machine.
pub open spec fn server_address(url: Option<Seq<char>>, port: Option<u16>) -> Option<Seq<char>> {
    match (url, port) {
        (Some(u), _) => Some(trim_end(u, only('/'))),
        (None, Some(p)) => Some("http://127.0.0.1:"@ + decimal(p as nat)),
        (None, None) => None,
    }
}

/// The tenant in which an agent shows who it is.
pub open spec fn identity_tenant(named: Option<Seq<char>>) -> Seq<char> {
    match named {
        Some(t) => if blank(t) {
            "default"@
        } else {
            t
        },
        None => "default"@,
    }
}

/// Who an agent is, as the platform says.
#[derive(Debug)]
pub struct Identity {
    /// The agent.
    pub agent_instance_id: String,
    /// The kind of agent.
    pub agent_type_name: String,
}

/// Who an agent is, as the platform says.
pub struct IdentityView {
    /// The agent.
    pub agent_instance_id: Seq<char>,
    /// The kind of agent.
    pub agent_type_name: Seq<char>,
}

impl View for Identity {
    type V = IdentityView;

    open spec fn view(&self) -> IdentityView {
        IdentityView {
            agent_instance_id: self.agent_instance_id@,
            agent_type_name: self.agent_type_name@,
        }
    }
}

/// Who an agent is, by the platform's reply: both parts must be given, by name or
/// in a list of the two.
pub open spec fn identity_in(v: JsonView) -> Option<IdentityView> {
    let parts = match v {
        JsonView::List(s) => if s.len() == 2 {
            (s[0].text(), s[1].text())
        } else {
            (None, None)
        },
        _ => (v.text_field("agent_instance_id"@), v.text_field("agent_type_name"@)),
    };
    match parts {
        (Some(a), Some(t)) => Some(
            IdentityView { agent_instance_id: a, agent_type_name: t },
        ),
        _ => None,
    }
}

/// Who an agent is, by the platform's reply, where its body reads as `read`.
pub open spec fn identity_of(
    r: Option<ReplyView>,
    read: Result<JsonView, Seq<char>>,
) -> Option<IdentityView> {
    match (r, read) {
        (Some(x), Ok(v)) => if is_success(x.status) {
            identity_in(v)
        } else {
            None
        },
        _ => None,
    }
}

/// Who an agent is, by a value.
pub fn read_identity_value(v: &Json) -> (r: Option<Identity>)
    ensures
        opt_view(r) == identity_in(v@),
{
    if let Json::List(s) = v {
        proof {
            Json::lemma_list(*s);
        }
        if s.len() != 2 {
            return None;
        }
        return match (s[0].as_text(), s[1].as_text()) {
            (Some(a), Some(t)) => Some(
                Identity { agent_instance_id: a.clone(), agent_type_name: t.clone() },
            ),
            _ => None,
        };
    }
    match (v.text_field("agent_instance_id"), v.text_field("agent_type_name")) {
        (Some(a), Some(t)) => Some(Identity { agent_instance_id: a, agent_type_name: t }),
        _ => None,
    }
}

/// What the body of a reply reads as; without a reply there is nothing to read.
pub open spec fn optional_read(r: Option<ReplyView>) -> Result<JsonView, Seq<char>> {
    match r {
        Some(x) => json_read(x.body),
        None => Err(Seq::empty()),
    }
}

/// Who an agent is, by the platform's reply.
pub fn read_identity(reply: &Option<HttpReply>) -> (r: Option<Identity>)
    ensures
        opt_view(r) == identity_of(opt_view(*reply), optional_read(opt_view(*reply))),
{
    match reply {
        Some(x) => {
            if !(x.status >= 200 && x.status < 300) {
                return None;
            }
            match parse(x.body.as_str()) {
                Ok(v) => read_identity_value(&v),
                Err(_) => None,
            }
        },
        None => None,
    }
}

/// The call that asks the platform who an agent is.
pub open spec fn identity_call(s: SessionView, token: Seq<char>) -> CallView {
    CallView {
        method: "POST"@,
        url: s.base_url + "/api/identity/resolve"@,
        headers: seq![("X-Tenant-Id"@, s.identity_tenant)],
        body: rendered(
            empty_object().with("bearer_token"@, JsonView::Text(token)).with(
                "tenant"@,
                JsonView::Text(s.identity_tenant),
            ),
        ),
    }
}

/// One header, or none.
pub open spec fn header_if(key: Seq<char>, value: Option<Seq<char>>) -> Seq<(Seq<char>, Seq<char>)> {
    match value {
        Some(v) => seq![(key, v)],
        None => Seq::empty(),
    }
}

/// The value with `Bearer` before it.
pub open spec fn bearer(key: Option<Seq<char>>) -> Option<Seq<char>> {
    match key {
        Some(k) => Some("Bearer "@ + k),
        None => None,
    }
}

/// The call that uploads the record of a session.
pub open spec fn upload_call(s: SessionView, record: Seq<char>) -> CallView {
    CallView {
        method: "POST"@,
        url: s.base_url + "/api/ots/trajectories"@,
        headers: seq![("Content-Type"@, "application/json"@)] + header_if(
            "X-Agent-Id"@,
            s.agent_id,
        ) + header_if("X-Session-Id"@, s.session_id) + header_if(
            "Authorization"@,
            bearer(s.api_key),
        ),
        body: record,
    }
}

/// One turn of a session, as it is recorded.
#[derive(Debug)]
pub struct Turn {
    /// What the agent wanted run.
    pub asked: String,
    /// What came of it.
    pub answered: String,
    /// What was chosen.
    pub choice: String,
    /// What went wrong.
    pub error: Option<String>,
}

/// The session after the platform said who the agent is. An agent that shows a
/// key is who the platform says; where the platform does not say, that is an
/// error. An agent that shows none stays who it says it is.
pub open spec fn identified(
    s: SessionView,
    resolved: Option<IdentityView>,
) -> Result<SessionView, Seq<char>> {
    if s.api_key is None {
        Ok(s)
    } else {
        match resolved {
            Some(i) => Ok(
                SessionView {
                    agent_id: Some(i.agent_instance_id),
                    agent_type: Some(i.agent_type_name),
                    ..s
                },
            ),
            None => Err("Credential resolution failed for TEMPER_API_KEY."@),
        }
    }
}

impl Session {
    /// A session as it is set up; `env_key` and `env_tenant` come from the
    /// environment, and the key that is set up counts before that of the
    /// environment.
    pub fn from_config(
        config: &McpConfig,
        env_key: &Option<String>,
        env_tenant: &Option<String>,
    ) -> (r: Result<Session, String>)
        ensures
            match server_address(opt_view(config.temper_url), config.temper_port) {
                Some(url) => r is Ok && r->Ok_0@ == (SessionView {
                    base_url: url,
                    agent_id: opt_view(config.agent_id),
                    agent_type: opt_view(config.agent_type),
                    session_id: opt_view(config.session_id),
                    api_key: either(opt_view(config.api_key), opt_view(*env_key)),
                    identity_tenant: identity_tenant(opt_view(*env_tenant)),
                }),
                None => r is Err && r->Err_0@
                    == "Either --url or --port is required. Use --port <n> for a local server or --url <url> for a remote server."@,
            },
    {
        let base_url = match (&config.temper_url, config.temper_port) {
            (Some(u), _) => trim_end_char(u.as_str(), '/'),
            (None, Some(p)) => {
                let n = decimal_text(p as u64);
                cat2("http://127.0.0.1:", n.as_str())
            },
            (None, None) => {
                return Err(
                    "Either --url or --port is required. Use --port <n> for a local server or --url <url> for a remote server.".to_string(),
                );
            },
        };
        let api_key = match &config.api_key {
            Some(k) => Some(k.clone()),
            None => copy_opt(env_key),
        };
        let tenant = match env_tenant {
            Some(t) => if is_blank(t.as_str()) {
                "default".to_string()
            } else {
                t.clone()
            },
            None => "default".to_string(),
        };
        Ok(
            Session {
                base_url,
                agent_id: copy_opt(&config.agent_id),
                agent_type: copy_opt(&config.agent_type),
                session_id: copy_opt(&config.session_id),
                api_key,
                identity_tenant: tenant,
            },
        )
    }

    /// The call that asks the platform who the agent is, where it shows a key.
    pub fn resolve_credential(&self) -> (r: Option<HttpCall>)
        ensures
            match self@.api_key {
                Some(k) => r is Some && r->0@ == identity_call(self@, k),
                None => r is None,
            },
    {
        match &self.api_key {
            Some(k) => {
                let mut headers: Vec<(String, String)> = Vec::new();
                headers.push(pair("X-Tenant-Id", self.identity_tenant.as_str()));
                assert(views(headers@) =~= identity_call(self@, k@).headers);
                let body = Json::object().set("bearer_token", Json::of_text(k.as_str())).set(
                    "tenant",
                    Json::of_text(self.identity_tenant.as_str()),
                );
                Some(
                    HttpCall {
                        method: "POST".to_string(),
                        url: cat2(self.base_url.as_str(), "/api/identity/resolve"),
                        headers,
                        body: render(&body),
                    },
                )
            },
            None => None,
        }
    }

    /// Takes in who the platform says the agent is.
    pub fn apply_client_info(&mut self, resolved: Option<Identity>) -> (r: Result<(), String>)
        ensures
            match identified(old(self)@, opt_view(resolved)) {
                Ok(s) => r is Ok && final(self)@ == s,
                Err(m) => r is Err && r->Err_0@ == m && final(self)@ == old(self)@,
            },
    {
        if self.api_key.is_none() {
            return Ok(());
        }
        match resolved {
            Some(i) => {
                self.agent_id = Some(i.agent_instance_id);
                self.agent_type = Some(i.agent_type_name);
                Ok(())
            },
            None => Err("Credential resolution failed for TEMPER_API_KEY.".to_string()),
        }
    }

    /// The agent under which the session is recorded.
    pub fn recorded_agent(&self) -> (r: String)
        ensures
            r@ == match self@.agent_id {
                Some(a) => a,
                None => "unknown"@,
            },
    {
        match &self.agent_id {
            Some(a) => a.clone(),
            None => "unknown".to_string(),
        }
    }

    /// The call that uploads the record of the session.
    pub fn finalize_trajectory(&self, record: String) -> (r: HttpCall)
        ensures
            r@ == upload_call(self@, record@),
    {
        let mut headers: Vec<(String, String)> = Vec::new();
        headers.push(pair("Content-Type", "application/json"));
        let ghost base = seq![("Content-Type"@, "application/json"@)];
        assert(views(headers@) =~= base);
        if let Some(a) = &self.agent_id {
            headers.push(pair("X-Agent-Id", a.as_str()));
        }
        let ghost one = base + header_if("X-Agent-Id"@, self@.agent_id);
        assert(views(headers@) =~= one);
        if let Some(s) = &self.session_id {
            headers.push(pair("X-Session-Id", s.as_str()));
        }
        let ghost two = one + header_if("X-Session-Id"@, self@.session_id);
        assert(views(headers@) =~= two);
        if let Some(k) = &self.api_key {
            let b = cat2("Bearer ", k.as_str());
            headers.push(pair("Authorization", b.as_str()));
        }
        assert(views(headers@) =~= two + header_if("Authorization"@, bearer(self@.api_key)));
        HttpCall {
            method: "POST".to_string(),
            url: cat2(self.base_url.as_str(), "/api/ots/trajectories"),
            headers,
            body: record,
        }
    }
}

/// A turn in which code was run, as it is recorded: what was asked, what came of
/// it, and the first hundred bytes of what was chosen.
pub fn record_execute_turn(code: &str, result: &Result<String, String>) -> (r: Turn)
    requires
        cuttable(code@, 100),
    ensures
        r.asked@ == code@,
        r.choice@ == "execute: "@ + head(code@, 100),
        match result {
            Ok(t) => r.answered@ == t@ && r.error is None,
            Err(m) => r.answered@ == m@ && opt_view(r.error) == Some(m@),
        },
{
    let h = head_text(code, 100);
    let choice = cat2("execute: ", h.as_str());
    match result {
        Ok(t) => Turn { asked: code.to_string(), answered: t.clone(), choice, error: None },
        Err(m) => Turn {
            asked: code.to_string(),
            answered: m.clone(),
            choice,
            error: Some(m.clone()),
        },
    }
}

/// Where a call from a sandbox has its tenant, and from where on the rest of its
/// arguments. The first argument is the object that the call is made on; keyword
/// arguments are not taken.
pub fn place_arguments(
    function_name: &str,
    args: usize,
    kwargs: usize,
) -> (r: Result<(usize, usize), String>)
    ensures
        match r {
            Ok((tenant, rest)) => kwargs == 0 && tenant == (if args == 0 {
                0int
            } else {
                1int
            }) && rest == (if args > 2 {
                2int
            } else {
                args as int
            }),
            Err(m) => kwargs > 0 && m@ == "temper."@ + function_name@
                + " does not support keyword arguments"@,
        },
{
    if kwargs > 0 {
        return Err(cat3("temper.", function_name, " does not support keyword arguments"));
    }
    let tenant: usize = if args == 0 {
        0
    } else {
        1
    };
    let rest: usize = if args > 2 {
        2
    } else {
        args
    };
    Ok((tenant, rest))
}

/// What is told where a call does not name its tenant.
pub open spec fn no_tenant(function_name: Seq<char>) -> Seq<char> {
    "temper."@ + function_name + " expects a string for tenant"@
}

/// The tenant that a call from a sandbox names, and the rest of its arguments.
/// The first argument is the object that the call is made on, the second the
/// tenant, which must be a text; keyword arguments are not taken.
pub fn take_arguments(
    function_name: &str,
    args: Vec<Json>,
    kwargs: usize,
) -> (r: Result<(String, Vec<Json>), String>)
    ensures
        match r {
            Ok((tenant, rest)) => kwargs == 0 && args@.len() >= 2 && args@[1]@ == JsonView::Text(
                tenant@,
            ) && rest@ == args@.skip(2),
            Err(m) => if kwargs > 0 {
                m@ == "temper."@ + function_name@ + " does not support keyword arguments"@
            } else {
                m@ == no_tenant(function_name@) && !(args@.len() >= 2 && args@[1]@ is Text)
            },
        },
{
    match place_arguments(function_name, args.len(), kwargs) {
        Ok((at, from)) => {
            let named = if at < args.len() {
                match args[at].as_text() {
                    Some(t) => Some(t.clone()),
                    None => None,
                }
            } else {
                None
            };
            match named {
                Some(tenant) if args.len() >= 2 => {
                    let mut all = args;
                    let rest = all.split_off(from);
                    assert(rest@ =~= args@.skip(2));
                    Ok((tenant, rest))
                },
                _ => Err(cat3("temper.", function_name, " expects a string for tenant")),
            }
        },
        Err(m) => Err(m),
    }
}

/// The request on a line: without white space at its ends; a blank line holds
/// none.
pub fn request_on_line(line: &str) -> (r: Option<String>)
    ensures
        match r {
            Some(t) => !blank(line@) && t@ == trimmed(line@),
            None => blank(line@),
        },
{
    if is_blank(line) {
        None
    } else {
        Some(trim(line))
    }
}

/// The line for a response.
pub fn line_for_response(response: &Json) -> (r: String)
    requires
        response@.wf(),
    ensures
        r@ == rendered(response@) + "\n"@,
{
    let t = render(response);
    cat2(t.as_str(), "\n")
}

/// An agent that shows a key never acts under a name of its own choice: it acts
/// as the platform says, or not at all.
pub proof fn lemma_no_self_declared_identity(
    s: SessionView,
    resolved: Option<IdentityView>,
)
    requires
        s.api_key is Some,
    ensures
        identified(s, resolved) matches Ok(t) ==> resolved is Some && t.agent_id == Some(
            resolved->0.agent_instance_id,
        ) && t.agent_type == Some(resolved->0.agent_type_name),
{
}

} // verus!
