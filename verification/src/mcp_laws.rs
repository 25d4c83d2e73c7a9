//! Where a session goes, who its agent is, and what is sent for it.
use vstd::prelude::*;

use crate::json::lemma_with_keeps;
use crate::json::lemma_with_reads;
use crate::json::JsonView;
use crate::json_text::rendered;
use crate::mcp::identified;
use crate::mcp::identity_call;
use crate::mcp::identity_of;
use crate::mcp::identity_tenant;
use crate::mcp::no_tenant;
use crate::mcp::optional_read;
use crate::mcp::server_address;
use crate::mcp::upload_call;
use crate::mcp::IdentityView;
use crate::mcp::SessionView;
use crate::module::ReplyView;
use crate::text::blank;
use crate::text::decimal;
use crate::text::only;
use crate::text_laws::lemma_end_is_trimmed;
use crate::tool_laws::gives;
use crate::tool_laws::lacks;

verus! {

/// An address that is given counts, without slashes at its end; else a port of this
/// machine; without either there is none.
pub proof fn lemma_addresses(url: Option<Seq<char>>, port: Option<u16>)
    ensures
        url matches Some(u) ==> {
            &&& server_address(url, port) matches Some(a)
            &&& a.len() <= u.len() && a == u.take(a.len() as int)
            &&& a.len() > 0 ==> a.last() != '/'
            &&& forall|i: int| a.len() <= i < u.len() ==> #[trigger] u[i] == '/'
        },
        url is None && port is Some ==> server_address(url, port) == Some(
            "http://127.0.0.1:"@ + decimal(port->0 as nat),
        ),
        url is None && port is None ==> server_address(url, port) is None,
{
    if url is Some {
        lemma_end_is_trimmed(url->0, only('/'));
        let n = server_address(url, port)->0.len() as int;
        assert forall|i: int| n <= i < url->0.len() implies #[trigger] url->0[i] == '/' by {
            assert(only('/')(url->0[i]));
        }
    }
}

/// The tenant in which an agent shows who it is, is the one that is named, unless that
/// is blank.
pub proof fn lemma_tenants(named: Option<Seq<char>>)
    ensures
        named is Some && !blank(named->0) ==> identity_tenant(named) == named->0,
        named is None || blank(named->0) ==> identity_tenant(named) == "default"@,
{
}

/// An agent is who the platform says in a reply of success that names both the agent
/// and its kind, by name or in a list of the two; any other reply says nothing.
pub proof fn lemma_who_an_agent_is(x: ReplyView, v: JsonView, i: IdentityView)
    requires
        !(v is List) && !lacks(v, "agent_instance_id"@) && !lacks(v, "agent_type_name"@) ==> gives(
            v,
            "agent_instance_id"@,
            i.agent_instance_id,
        ) && gives(v, "agent_type_name"@, i.agent_type_name),
        v matches JsonView::List(s) ==> s.len() == 2 && s[0] is Text && s[1] is Text ==> s[0]
            == JsonView::Text(i.agent_instance_id) && s[1] == JsonView::Text(i.agent_type_name),
    ensures
        ({
            let named = if v is List {
                v->List_0.len() == 2 && v->List_0[0] is Text && v->List_0[1] is Text
            } else {
                !lacks(v, "agent_instance_id"@) && !lacks(v, "agent_type_name"@)
            };
            &&& identity_of(Some(x), Ok(v)) == if named && 200 <= x.status < 300 {
                Some(i)
            } else {
                None
            }
            &&& identity_of(None, Ok(v)) is None
            &&& forall|m: Seq<char>| #[trigger] identity_of(Some(x), Err(m)) is None
        }),
        optional_read(Some(x)) == crate::json_text::json_read(x.body),
        optional_read(None) is Err,
{
}

/// The platform is asked with the token of the agent, in its tenant.
pub proof fn lemma_identity_is_asked(s: SessionView, token: Seq<char>)
    ensures
        ({
            let c = identity_call(s, token);
            &&& c.method == "POST"@
            &&& c.url == s.base_url + "/api/identity/resolve"@
            &&& c.headers == seq![("X-Tenant-Id"@, s.identity_tenant)]
            &&& shows(c.body, token, s.identity_tenant)
        }),
{
    broadcast use {lemma_with_reads, lemma_with_keeps};

    reveal_strlit("bearer_token");
    reveal_strlit("tenant");
    assert("bearer_token"@.len() == 12);
    assert("tenant"@.len() == 6);
    let v = crate::json::empty_object().with("bearer_token"@, JsonView::Text(token)).with(
        "tenant"@,
        JsonView::Text(s.identity_tenant),
    );
    assert(identity_call(s, token).body == rendered(v));
    assert(gives(v, "bearer_token"@, token) && gives(v, "tenant"@, s.identity_tenant));
    assert(shows(rendered(v), token, s.identity_tenant));
}

/// The text shows a token for a tenant.
pub open spec fn shows(t: Seq<char>, token: Seq<char>, tenant: Seq<char>) -> bool {
    exists|v: JsonView|
        t == #[trigger] rendered(v) && gives(v, "bearer_token"@, token) && gives(
            v,
            "tenant"@,
            tenant,
        )
}

/// The record of a session is uploaded as it is, under the agent, the session and the
/// key, each where it is known.
pub proof fn lemma_records_are_uploaded(s: SessionView, record: Seq<char>)
    ensures
        ({
            let c = upload_call(s, record);
            let a = if s.agent_id is Some {
                1int
            } else {
                0int
            };
            let n = if s.session_id is Some {
                1int
            } else {
                0int
            };
            let k = if s.api_key is Some {
                1int
            } else {
                0int
            };
            &&& c.method == "POST"@
            &&& c.url == s.base_url + "/api/ots/trajectories"@
            &&& c.body == record
            &&& c.headers.len() == 1 + a + n + k
            &&& c.headers[0] == ("Content-Type"@, "application/json"@)
            &&& s.agent_id matches Some(x) ==> c.headers[1] == ("X-Agent-Id"@, x)
            &&& s.session_id matches Some(x) ==> c.headers[1 + a] == ("X-Session-Id"@, x)
            &&& s.api_key matches Some(x) ==> c.headers[1 + a + n] == (
                "Authorization"@,
                "Bearer "@ + x,
            )
        }),
{
}

/// An agent without a key stays who it says it is; one with a key becomes who the
/// platform says and nothing else of its session changes, or it is refused.
pub proof fn lemma_identities_are_taken(s: SessionView, resolved: Option<IdentityView>)
    ensures
        s.api_key is None ==> identified(s, resolved) == Ok::<SessionView, Seq<char>>(s),
        s.api_key is Some && resolved is None ==> identified(s, resolved) is Err,
        s.api_key is Some && resolved is Some ==> {
            &&& identified(s, resolved) matches Ok(t)
            &&& t.agent_id == Some(resolved->0.agent_instance_id)
            &&& t.agent_type == Some(resolved->0.agent_type_name)
            &&& t.base_url == s.base_url
            &&& t.session_id == s.session_id
            &&& t.api_key == s.api_key
            &&& t.identity_tenant == s.identity_tenant
        },
{
}

/// A call without a tenant is told so, by its name.
pub proof fn lemma_tenants_are_named(name: Seq<char>)
    ensures
        no_tenant(name) == "temper."@ + name + " expects a string for tenant"@,
{
}

} // verus!
