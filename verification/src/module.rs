//! What the guest modules of an agent share: their context, the calls they send
//! and the replies they get, and the callback they end with.
use vstd::prelude::*;

use crate::json::empty_object;
use crate::json::Json;
use crate::json::JsonView;
use crate::keys::find_listed;
use crate::keys::listed;
use crate::order::opt_view;
use crate::order::views;
use crate::text::cat3;

verus! {

/// The context of a run.
pub struct ModuleContext {
    /// The tenant.
    pub tenant: String,
    /// The state of the entity.
    pub entity_state: Json,
    /// The parameters of the action that triggered the run.
    pub trigger_params: Json,
    /// The settings of the integration.
    pub config: Vec<(String, String)>,
}

/// The context of a run.
pub struct ContextView {
    /// The tenant.
    pub tenant: Seq<char>,
    /// The state of the entity.
    pub entity_state: JsonView,
    /// The parameters of the action that triggered the run.
    pub trigger_params: JsonView,
    /// The settings of the integration.
    pub config: Seq<(Seq<char>, Seq<char>)>,
}

impl View for ModuleContext {
    type V = ContextView;

    open spec fn view(&self) -> ContextView {
        ContextView {
            tenant: self.tenant@,
            entity_state: self.entity_state@,
            trigger_params: self.trigger_params@,
            config: views(self.config@),
        }
    }
}

/// The value, or the other one where there is none.
pub open spec fn text_or_else(t: Option<Seq<char>>, default: Seq<char>) -> Seq<char> {
    match t {
        Some(x) => x,
        None => default,
    }
}

impl ContextView {
    /// A setting.
    pub open spec fn setting(self, key: Seq<char>) -> Option<Seq<char>> {
        listed(self.config, key)
    }

    /// A setting, or its default.
    pub open spec fn setting_or(self, key: Seq<char>, default: Seq<char>) -> Seq<char> {
        text_or_else(self.setting(key), default)
    }

    /// The fields of the entity.
    pub open spec fn fields(self) -> JsonView {
        match self.entity_state.field("fields"@) {
            Some(f) => f,
            None => empty_object(),
        }
    }
}

impl ModuleContext {
    /// A setting.
    pub fn setting(&self, key: &str) -> (r: Option<String>)
        ensures
            opt_view(r) == self@.setting(key@),
    {
        find_listed(&self.config, key)
    }

    /// A setting, or its default.
    pub fn setting_or(&self, key: &str, default: &str) -> (r: String)
        ensures
            r@ == self@.setting_or(key@, default@),
    {
        match self.setting(key) {
            Some(t) => t,
            None => default.to_string(),
        }
    }

    /// The fields of the entity.
    pub fn fields(&self) -> (r: Json)
        ensures
            r@ == self@.fields(),
    {
        match self.entity_state.get("fields") {
            Some(f) => f.copy(),
            None => Json::object(),
        }
    }
}

/// A call that a module wants sent.
pub struct HttpCall {
    /// Its method.
    pub method: String,
    /// Where to.
    pub url: String,
    /// Its headers.
    pub headers: Vec<(String, String)>,
    /// Its body.
    pub body: String,
}

/// A call that a module wants sent.
pub struct CallView {
    /// Its method.
    pub method: Seq<char>,
    /// Where to.
    pub url: Seq<char>,
    /// Its headers.
    pub headers: Seq<(Seq<char>, Seq<char>)>,
    /// Its body.
    pub body: Seq<char>,
}

impl View for HttpCall {
    type V = CallView;

    open spec fn view(&self) -> CallView {
        CallView {
            method: self.method@,
            url: self.url@,
            headers: views(self.headers@),
            body: self.body@,
        }
    }
}

/// The reply to a call.
pub struct HttpReply {
    /// Its status.
    pub status: u16,
    /// Its body.
    pub body: String,
}

/// The reply to a call.
pub struct ReplyView {
    /// Its status.
    pub status: u16,
    /// Its body.
    pub body: Seq<char>,
}

impl View for HttpReply {
    type V = ReplyView;

    open spec fn view(&self) -> ReplyView {
        ReplyView { status: self.status, body: self.body@ }
    }
}

/// What came of a call: a reply, or why there is none.
pub open spec fn result_view<T: View>(r: Result<T, String>) -> Result<T::V, Seq<char>> {
    match r {
        Ok(x) => Ok(x@),
        Err(m) => Err(m@),
    }
}

/// The status stands for success.
pub open spec fn is_success(status: u16) -> bool {
    200 <= status < 300
}

/// What a module ends with: the action to call back, and its parameters.
pub struct Callback {
    /// The action.
    pub action: String,
    /// Its parameters.
    pub params: Json,
}

/// What a module ends with: the action to call back, and its parameters.
pub struct CallbackView {
    /// The action.
    pub action: Seq<char>,
    /// Its parameters.
    pub params: JsonView,
}

impl View for Callback {
    type V = CallbackView;

    open spec fn view(&self) -> CallbackView {
        CallbackView { action: self.action@, params: self.params@ }
    }
}

/// A pair of strings.
pub fn pair(a: &str, b: &str) -> (r: (String, String))
    ensures
        r@ == (a@, b@),
{
    (a.to_string(), b.to_string())
}

/// The address of a stored conversation.
pub open spec fn conversation_url(api: Seq<char>, file: Seq<char>) -> Seq<char> {
    api + "/tdata/Files('"@ + file + "')/$value"@
}

/// The headers with which a stored conversation is read.
pub open spec fn reading_headers(tenant: Seq<char>) -> Seq<(Seq<char>, Seq<char>)> {
    seq![
        ("x-tenant-id"@, tenant),
        ("x-temper-principal-kind"@, "system"@),
        ("accept"@, "application/json"@),
    ]
}

/// The headers with which a conversation is stored.
pub open spec fn writing_headers(tenant: Seq<char>) -> Seq<(Seq<char>, Seq<char>)> {
    seq![
        ("content-type"@, "application/json"@),
        ("x-tenant-id"@, tenant),
        ("x-temper-principal-kind"@, "system"@),
    ]
}

/// The call that reads a stored conversation.
pub open spec fn reading_call(api: Seq<char>, tenant: Seq<char>, file: Seq<char>) -> CallView {
    CallView {
        method: "GET"@,
        url: conversation_url(api, file),
        headers: reading_headers(tenant),
        body: ""@,
    }
}

/// The call that stores a conversation, given as JSON.
pub open spec fn writing_call(
    api: Seq<char>,
    tenant: Seq<char>,
    file: Seq<char>,
    conversation: Seq<char>,
) -> CallView {
    CallView {
        method: "PUT"@,
        url: conversation_url(api, file),
        headers: writing_headers(tenant),
        body: "{\"messages\":"@ + conversation + "}"@,
    }
}

/// The call that reads a stored conversation.
pub fn call_to_read(api: &str, tenant: &str, file: &str) -> (r: HttpCall)
    ensures
        r@ == reading_call(api@, tenant@, file@),
{
    let mut headers: Vec<(String, String)> = Vec::new();
    headers.push(pair("x-tenant-id", tenant));
    headers.push(pair("x-temper-principal-kind", "system"));
    headers.push(pair("accept", "application/json"));
    assert(views(headers@) =~= reading_headers(tenant@));
    HttpCall {
        method: "GET".to_string(),
        url: crate::text::cat4(api, "/tdata/Files('", file, "')/$value"),
        headers,
        body: "".to_string(),
    }
}

/// The call that stores a conversation, given as JSON.
pub fn call_to_write(api: &str, tenant: &str, file: &str, conversation: &str) -> (r: HttpCall)
    ensures
        r@ == writing_call(api@, tenant@, file@, conversation@),
{
    let mut headers: Vec<(String, String)> = Vec::new();
    headers.push(pair("content-type", "application/json"));
    headers.push(pair("x-tenant-id", tenant));
    headers.push(pair("x-temper-principal-kind", "system"));
    assert(views(headers@) =~= writing_headers(tenant@));
    HttpCall {
        method: "PUT".to_string(),
        url: crate::text::cat4(api, "/tdata/Files('", file, "')/$value"),
        headers,
        body: cat3("{\"messages\":", conversation, "}"),
    }
}

/// The messages of a stored conversation.
pub open spec fn stored_messages(v: JsonView) -> Seq<JsonView> {
    match v.field("messages"@) {
        Some(m) => match m.items() {
            Some(x) => x,
            None => Seq::empty(),
        },
        None => Seq::empty(),
    }
}

/// Copies of values.
pub fn copy_values(v: &Vec<Json>) -> (r: Vec<Json>)
    ensures
        views(r@) == views(v@),
        r@.len() == v@.len(),
{
    let mut r: Vec<Json> = Vec::new();
    let mut i: usize = 0;
    while i < v.len()
        invariant
            i <= v@.len(),
            r@.len() == i,
            forall|j: int| 0 <= j < i ==> (#[trigger] r@[j])@ == v@[j]@,
        decreases v@.len() - i,
    {
        r.push(v[i].copy());
        i = i + 1;
    }
    assert(views(r@) =~= views(v@));
    r
}

/// All values are well formed.
pub open spec fn all_wf(s: Seq<JsonView>) -> bool {
    forall|i: int| 0 <= i < s.len() ==> (#[trigger] s[i]).wf()
}

/// A field of a well formed value is well formed.
pub proof fn lemma_field_wf(v: JsonView, key: Seq<char>)
    requires
        v.wf(),
    ensures
        v.field(key) is Some ==> v.field(key)->0.wf(),
        v.items() is Some ==> all_wf(v.items()->0),
{
    if let JsonView::Object(f) = v {
        crate::json::lemma_place(f, key);
        if v.field(key) is Some {
            assert(f[crate::json::place(f, key) as int].1.wf());
        }
    }
}

/// The messages of a stored conversation.
pub fn messages_of(v: &Json) -> (r: Vec<Json>)
    requires
        v@.wf(),
    ensures
        views(r@) == stored_messages(v@),
        all_wf(views(r@)),
{
    proof {
        lemma_field_wf(v@, "messages"@);
    }
    if let Some(m) = v.get("messages") {
        if let Some(x) = m.as_items() {
            proof {
                lemma_field_wf(m@, ""@);
            }
            return copy_values(x);
        }
    }
    let none: Vec<Json> = Vec::new();
    assert(views(none@) =~= Seq::empty());
    none
}

/// A message with a role and a text.
pub open spec fn message(role: Seq<char>, content: JsonView) -> JsonView {
    empty_object().with("role"@, JsonView::Text(role)).with("content"@, content)
}

/// A message with a role and a text.
pub fn make_message(role: &str, content: Json) -> (r: Json)
    requires
        content@.wf(),
    ensures
        r@ == message(role@, content@),
        r@.wf(),
{
    Json::object().set("role", Json::of_text(role)).set("content", content)
}

} // verus!
