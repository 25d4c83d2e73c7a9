//! Whom a turn with a model asks, with which key, and from where its conversation
//! goes on.
use vstd::prelude::*;

use crate::chat_laws::lemma_tools_are_offered;
use crate::chat_laws::named;
use crate::chat_laws::offers;
use crate::json::empty_object;
use crate::json::lemma_with_keeps;
use crate::json::lemma_with_reads;
use crate::json::JsonView;
use crate::json_text::json_read;
use crate::json_text::json_read_list;
use crate::json_text::rendered;
use crate::keys::listed;
use crate::llm::ask;
use crate::llm::first_step;
use crate::llm::next_step;
use crate::llm::plan;
use crate::llm::PlanView;
use crate::llm::StateView;
use crate::llm::StepView;
use crate::llm_convert::converted_all;
use crate::llm_laws::is_token;
use crate::llm_laws::lemma_tools_wf;
use crate::llm_providers::first_filled;
use crate::llm_providers::DefaultsView;
use crate::llm_providers::Provider;
use crate::llm_tools::enabled_tools;
use crate::module::all_wf;
use crate::module::message;
use crate::module::ContextView;
use crate::module::ReplyView;
use crate::numerals::signed_number;
use crate::order::keep;
use crate::text::blank;
use crate::text::has;
use crate::text::lowered;
use crate::text::signed;
use crate::text::trimmed;
use crate::tool_laws::gives;
use crate::tool_laws::lacks;

verus! {

/// The entity says the text in a field, or another text stands for it.
pub open spec fn says_or(
    ctx: ContextView,
    key: Seq<char>,
    t: Seq<char>,
    otherwise: Seq<char>,
) -> bool {
    let f = ctx.fields();
    &&& forall|x: Seq<char>| #[trigger] gives(f, key, x) ==> t == x
    &&& lacks(f, key) ==> t == otherwise
}

/// The settings say the text, or another text stands for it.
pub open spec fn set_or(
    ctx: ContextView,
    key: Seq<char>,
    t: Seq<char>,
    otherwise: Seq<char>,
) -> bool {
    &&& listed(ctx.config, key) is Some ==> t == listed(ctx.config, key)->0
    &&& listed(ctx.config, key) is None ==> t == otherwise
}

/// The settings have something under the key.
pub open spec fn is_set(ctx: ContextView, key: Seq<char>) -> bool {
    listed(ctx.config, key) is Some && !blank(listed(ctx.config, key)->0)
}

/// The key is the provider's own where it is set; else the one for all; else empty.
pub open spec fn is_key(ctx: ContextView, own: Seq<char>, key: Seq<char>) -> bool {
    &&& is_set(ctx, own) ==> key == trimmed(listed(ctx.config, own)->0)
    &&& !is_set(ctx, own) && is_set(ctx, "api_key"@) ==> key == trimmed(
        listed(ctx.config, "api_key"@)->0,
    )
    &&& !is_set(ctx, own) && !is_set(ctx, "api_key"@) ==> key.len() == 0
}

/// The provider that the entity names, in small letters and without white space
/// round it.
pub open spec fn named_provider(ctx: ContextView, name: Seq<char>) -> bool {
    exists|t: Seq<char>|
        (gives(ctx.fields(), "provider"@, t) || (lacks(ctx.fields(), "provider"@) && t
            == "anthropic"@)) && name == #[trigger] lowered(trimmed(t))
}

/// The first key that is set is that of the provider, or the one for all.
pub proof fn lemma_key(ctx: ContextView, own: Seq<char>)
    ensures
        is_key(
            ctx,
            own,
            first_filled(seq![listed(ctx.config, own), listed(ctx.config, "api_key"@)]),
        ),
{
    let s = seq![listed(ctx.config, own), listed(ctx.config, "api_key"@)];
    let t = s.drop_first();
    assert(t[0] == s[1]);
    assert(t.drop_first().len() == 0);
    assert(first_filled(t.drop_first()) == Seq::<char>::empty());
    assert(first_filled(t) == match s[1] {
        Some(v) => if blank(v) {
            Seq::empty()
        } else {
            trimmed(v)
        },
        None => Seq::empty(),
    });
}

/// A turn is planned for the provider that the entity names, with its key, and with
/// what the entity and the settings say, or else what stands for it.
pub proof fn lemma_what_is_planned(ctx: ContextView, d: DefaultsView)
    requires
        plan(ctx, d) is Ok,
    ensures
        ({
            let p = plan(ctx, d)->Ok_0;
            &&& p.provider == Provider::Anthropic ==> named_provider(ctx, "anthropic"@) && is_key(
                ctx,
                "anthropic_api_key"@,
                p.api_key,
            )
            &&& p.provider == Provider::OpenRouter ==> (named_provider(ctx, "openrouter"@)
                || named_provider(ctx, "open_router"@)) && is_key(
                ctx,
                "openrouter_api_key"@,
                p.api_key,
            )
            &&& p.api_key.len() > 0
            &&& !(has(p.api_key, "{secret:"@))
            &&& p.user_message.len() > 0
            &&& says_or(ctx, "model"@, p.model, d.model)
            &&& says_or(ctx, "system_prompt"@, p.system_prompt, Seq::empty())
            &&& says_or(ctx, "user_message"@, p.user_message, Seq::empty())
            &&& says_or(ctx, "tools_enabled"@, p.tools_enabled, "read,write,edit,bash"@)
            &&& says_or(ctx, "sandbox_url"@, p.sandbox_url, Seq::empty())
            &&& says_or(ctx, "workdir"@, p.workdir, "/workspace"@)
            &&& says_or(ctx, "conversation_file_id"@, p.conversation_file_id, Seq::empty())
            &&& says_or(ctx, "conversation"@, p.conversation, Seq::empty())
            &&& set_or(ctx, "anthropic_api_url"@, p.anthropic_api_url, "https://api.anthropic.com/v1/messages"@)
            &&& set_or(ctx, "openrouter_api_url"@, p.openrouter_api_url, "https://openrouter.ai/api/v1/chat/completions"@)
            &&& set_or(ctx, "anthropic_auth_mode"@, p.anthropic_auth_mode, "auto"@)
            &&& set_or(ctx, "openrouter_site_url"@, p.openrouter_site_url, Seq::empty())
            &&& set_or(ctx, "openrouter_app_name"@, p.openrouter_app_name, "temper-agent"@)
            &&& set_or(ctx, "temper_api_url"@, p.temper_api_url, "http://127.0.0.1:3000"@)
            &&& p.oauth_system == d.oauth_system
            &&& p.oauth_agent == d.oauth_agent
            &&& p.tenant == ctx.tenant
        }),
{
    lemma_provider_names();
    lemma_key(ctx, "anthropic_api_key"@);
    lemma_key(ctx, "openrouter_api_key"@);
    reveal_strlit("");
    assert(""@ =~= Seq::<char>::empty());
    let t = ctx.fields().text_or("provider"@, "anthropic"@);
    let n = lowered(trimmed(t));
    assert(named_provider(ctx, n));
}

/// A turn is refused for a provider that is not known, without a key, with a key
/// that was not filled in, and without anything to say; and for nothing else.
pub proof fn lemma_what_is_not_planned(ctx: ContextView, d: DefaultsView, name: Seq<char>)
    requires
        named_provider(ctx, name),
    ensures
        ({
            let own = if name == "anthropic"@ {
                "anthropic_api_key"@
            } else {
                "openrouter_api_key"@
            };
            let known = name == "anthropic"@ || name == "openrouter"@ || name == "open_router"@;
            &&& !known ==> plan(ctx, d) == Err::<PlanView, Seq<char>>(
                "unsupported LLM provider: "@ + name,
            )
            &&& known ==> forall|key: Seq<char>| #[trigger]
                is_key(ctx, own, key) ==> {
                    &&& has(key, "{secret:"@) ==> plan(ctx, d) is Err
                    &&& key.len() == 0 ==> plan(ctx, d) is Err
                    &&& !(has(key, "{secret:"@)) && key.len() > 0 ==> (plan(ctx, d) is Ok <==> {
                        &&& !lacks(ctx.fields(), "user_message"@)
                        &&& !gives(ctx.fields(), "user_message"@, Seq::empty())
                    })
                    &&& plan(ctx, d) is Ok ==> (plan(ctx, d)->Ok_0.provider == Provider::Anthropic
                        <==> name == "anthropic"@)
                }
        }),
{
    lemma_provider_names();
    lemma_key(ctx, "anthropic_api_key"@);
    lemma_key(ctx, "openrouter_api_key"@);
    reveal_strlit("");
    assert(""@ =~= Seq::<char>::empty());
    let t = ctx.fields().text_or("provider"@, "anthropic"@);
    assert(name == lowered(trimmed(t)));
    let own = if name == "anthropic"@ {
        "anthropic_api_key"@
    } else {
        "openrouter_api_key"@
    };
    let mine = first_filled(seq![listed(ctx.config, own), listed(ctx.config, "api_key"@)]);
    assert forall|key: Seq<char>| #[trigger] is_key(ctx, own, key) implies key == mine by {
        if key.len() == 0 && mine.len() == 0 {
            assert(key =~= mine);
        }
    }
    let f = ctx.fields();
    let u = f.text_or("user_message"@, ""@);
    if u.len() == 0 {
        assert(u =~= Seq::<char>::empty());
    }
}

/// A turn beyond the budget of the entity, twenty where none is set, ends at once;
/// one within it does not.
pub proof fn lemma_turns_are_counted(ctx: ContextView, d: DefaultsView, taken: u64, t: Seq<char>)
    requires
        taken <= i64::MAX,
        ctx.fields().field("turn_count"@) == Some(JsonView::Unsigned(taken)),
        gives(ctx.fields(), "max_turns"@, t) || (lacks(ctx.fields(), "max_turns"@)
            && signed_number(t) is None),
    ensures
        ({
            let allowed = if signed_number(t) is Some {
                signed_number(t)->0 as int
            } else {
                20int
            };
            let s = first_step(ctx, d);
            &&& taken >= allowed ==> s is Done && s->Done_0.action == "Fail"@ && gives(
                s->Done_0.params,
                "error_message"@,
                "turn budget exhausted ("@ + signed(taken as int) + "/"@ + signed(allowed) + ")"@,
            )
            &&& taken < allowed ==> s is Send || s is Failed
            &&& taken < allowed ==> (s is Failed <==> plan(ctx, d) is Err)
        }),
{
    broadcast use {lemma_with_reads, lemma_with_keeps};

}

/// A conversation that begins anew says what the user wants.
pub open spec fn begins(m: Seq<JsonView>, user_message: Seq<char>) -> bool {
    m.len() == 1 && gives(m[0], "role"@, "user"@) && gives(m[0], "content"@, user_message)
}

proof fn lemma_begins(user_message: Seq<char>)
    ensures
        begins(crate::llm::first_turn(user_message), user_message),
{
    broadcast use {lemma_with_reads, lemma_with_keeps};

    reveal_strlit("role");
    reveal_strlit("content");
    assert("role"@.len() == 4);
    assert("content"@.len() == 7);
}

/// A turn whose entity holds its conversation asks at once, from where it stands; one
/// whose conversation is in a file has it read first.
pub proof fn lemma_conversation_is_taken_up(ctx: ContextView, d: DefaultsView)
    requires
        first_step(ctx, d) is Send,
    ensures
        ({
            let p = plan(ctx, d)->Ok_0;
            let s = first_step(ctx, d);
            &&& plan(ctx, d) is Ok
            &&& p.conversation_file_id.len() > 0 ==> {
                &&& s->Send_1 == StateView::Reading(p)
                &&& s->Send_0.method == "GET"@
                &&& s->Send_0.url == p.temper_api_url + "/tdata/Files('"@ + p.conversation_file_id
                    + "')/$value"@
                &&& s->Send_0.headers.contains(("x-tenant-id"@, p.tenant))
                &&& s->Send_0.headers.contains(("x-temper-principal-kind"@, "system"@))
            }
            &&& p.conversation_file_id.len() == 0 ==> {
                &&& s->Send_1 matches StateView::Asking(q, m, n)
                &&& q == p && n == 0 && s->Send_0 == ask(p, m)
                &&& p.conversation.len() > 0 && json_read_list(p.conversation) is Ok ==> m
                    == json_read_list(p.conversation)->Ok_0
                &&& p.conversation.len() == 0 || json_read_list(p.conversation) is Err ==> begins(
                    m,
                    p.user_message,
                )
            }
        }),
{
    let p = plan(ctx, d)->Ok_0;
    lemma_begins(p.user_message);
    let h = crate::module::reading_headers(p.tenant);
    assert(h[0] == ("x-tenant-id"@, p.tenant));
    assert(h[1] == ("x-temper-principal-kind"@, "system"@));
}

/// Once its file is read a conversation goes on with the messages in it; where there
/// are none, or it cannot be read, it begins anew.
pub proof fn lemma_file_is_taken_up(p: PlanView, r: Result<ReplyView, Seq<char>>)
    ensures
        ({
            let s = next_step(StateView::Reading(p), r);
            let held = r is Ok && r->Ok_0.status == 200 && json_read(r->Ok_0.body) is Ok
                && json_read(r->Ok_0.body)->Ok_0.field("messages"@) is Some && json_read(
                r->Ok_0.body,
            )->Ok_0.field("messages"@)->0 is List;
            let list = json_read(r->Ok_0.body)->Ok_0.field("messages"@)->0->List_0;
            &&& s matches StepView::Send(c, StateView::Asking(q, m, n))
            &&& q == p && n == 0 && c == ask(p, m)
            &&& held && list.len() > 0 ==> m == list
            &&& !(held && list.len() > 0) ==> begins(m, p.user_message)
        }),
{
    lemma_begins(p.user_message);
}

/// What OpenRouter is asked: the model that is planned, under the system prompt,
/// where there is one, with the conversation and the tools in its own form, and with
/// the key; the site and the program are named where they are not blank.
pub proof fn lemma_openrouter_is_asked(p: PlanView, m: Seq<JsonView>)
    requires
        p.provider == Provider::OpenRouter,
        all_wf(m),
        all_wf(converted_all(m)),
    ensures
        ({
            let c = ask(p, m);
            let tools = enabled_tools(p.tools_enabled, p.sandbox_url, p.workdir);
            &&& c.method == "POST"@
            &&& c.url == p.openrouter_api_url
            &&& c.headers.len() == 2 + (if blank(p.openrouter_site_url) {
                0int
            } else {
                1
            }) + (if blank(p.openrouter_app_name) {
                0int
            } else {
                1
            })
            &&& c.headers[0] == ("authorization"@, "Bearer "@ + p.api_key)
            &&& c.headers[1] == ("content-type"@, "application/json"@)
            &&& !blank(p.openrouter_site_url) ==> c.headers[2] == (
                "HTTP-Referer"@,
                trimmed(p.openrouter_site_url),
            )
            &&& !blank(p.openrouter_app_name) ==> c.headers.last() == (
                "X-Title"@,
                trimmed(p.openrouter_app_name),
            )
            &&& exists|v: JsonView| #[trigger]
                openrouter_request(v, p, m, tools) && c.body == rendered(v)
        }),
{
    broadcast use {lemma_with_reads, lemma_with_keeps};

    lemma_request_keys();
    let tools = enabled_tools(p.tools_enabled, p.sandbox_url, p.workdir);
    lemma_tools_wf(p.tools_enabled, p.sandbox_url, p.workdir);
    lemma_tools_are_offered(tools);
    let v = crate::llm_providers::openrouter_body(p.model, p.system_prompt, m, tools);
    let offered = crate::llm_convert::function_tools(tools);
    assert(JsonView::List(offered).wf());
    let first = if p.system_prompt.len() > 0 {
        seq![message("system"@, JsonView::Text(p.system_prompt))]
    } else {
        Seq::empty()
    };
    let all = first + converted_all(m);
    assert forall|i: int| 0 <= i < all.len() implies (#[trigger] all[i]).wf() by {
        if i >= first.len() {
            assert(all[i] == converted_all(m)[i - first.len()]);
        }
    }
    assert(JsonView::List(all).wf());
    assert(empty_object().field("tools"@) is None);
    assert(empty_object().field("tool_choice"@) is None);
    assert(all.subrange(first.len() as int, all.len() as int) =~= converted_all(m));
    assert(openrouter_request(v, p, m, tools));
    assert(ask(p, m).body == rendered(v));
}

/// The value asks OpenRouter for a plan's turn.
pub open spec fn openrouter_request(
    v: JsonView,
    p: PlanView,
    m: Seq<JsonView>,
    tools: Seq<JsonView>,
) -> bool {
    let n = if p.system_prompt.len() > 0 {
        1int
    } else {
        0int
    };
    &&& gives(v, "model"@, p.model)
    &&& v.field("max_tokens"@) == Some(JsonView::Unsigned(4096))
    &&& v.field("messages"@) matches Some(JsonView::List(sent))
    &&& sent.len() == n + converted_all(m).len()
    &&& sent.subrange(n, sent.len() as int) == converted_all(m)
    &&& n == 1 ==> gives(sent[0], "role"@, "system"@) && gives(sent[0], "content"@, p.system_prompt)
    &&& keep(tools, named()).len() == 0 ==> v.field("tools"@) is None && v.field("tool_choice"@) is None
    &&& keep(tools, named()).len() > 0 ==> {
        &&& gives(v, "tool_choice"@, "auto"@)
        &&& v.field("tools"@) matches Some(JsonView::List(t))
        &&& t.len() == keep(tools, named()).len()
        &&& forall|i: int|
            0 <= i < t.len() ==> offers(#[trigger] t[i], keep(tools, named())[i])
    }
}

/// Beside an OAuth token the system parameter is that of the program, and the system
/// prompt stands before the text of the first message; nothing else of the
/// conversation changes.
pub proof fn lemma_token_is_used(p: PlanView, m: Seq<JsonView>)
    requires
        p.provider == Provider::Anthropic,
        is_token(p),
        all_wf(m),
        m.len() > 0 ==> m[0] is Object,
    ensures
        ({
            let c = ask(p, m);
            &&& c.method == "POST"@
            &&& c.url == p.anthropic_api_url
            &&& c.headers.contains(("authorization"@, "Bearer "@ + p.api_key))
            &&& c.headers.contains(("user-agent"@, p.oauth_agent))
            &&& c.headers.contains(("x-app"@, "cli"@))
            &&& c.headers.contains(("content-type"@, "application/json"@))
            &&& c.headers.contains(("anthropic-version"@, "2023-06-01"@))
            &&& c.headers.contains(
                ("anthropic-beta"@, "oauth-2025-04-20,computer-use-2025-01-24"@),
            )
            &&& exists|v: JsonView, sent: Seq<JsonView>|
                c.body == rendered(v) && #[trigger] token_request(v, p, sent) && told_first(
                    sent,
                    m,
                    p.system_prompt,
                )
        }),
{
    broadcast use {lemma_with_reads, lemma_with_keeps};

    lemma_request_keys();
    reveal_strlit("oauth");
    reveal_strlit("api_key");
    assert("oauth"@.len() == 5);
    assert("api_key"@.len() == 7);
    let tools = enabled_tools(p.tools_enabled, p.sandbox_url, p.workdir);
    lemma_tools_wf(p.tools_enabled, p.sandbox_url, p.workdir);
    let sent = crate::llm_providers::instructed(m, p.system_prompt);
    let v = crate::llm_providers::anthropic_body(
        p.model,
        true,
        p.oauth_system,
        p.system_prompt,
        m,
        tools,
    );
    let c = ask(p, m);
    let h = c.headers;
    assert(h[0] == ("authorization"@, "Bearer "@ + p.api_key));
    assert(h[1] == ("anthropic-version"@, "2023-06-01"@));
    assert(h[2] == ("anthropic-beta"@, "oauth-2025-04-20,computer-use-2025-01-24"@));
    assert(h[3] == ("content-type"@, "application/json"@));
    assert(h[4] == ("user-agent"@, p.oauth_agent));
    assert(h[5] == ("x-app"@, "cli"@));
    assert(JsonView::List(tools).wf());
    if m.len() > 0 {
        assert(m[0].wf());
    }
    assert(JsonView::List(sent).wf());
    assert(empty_object().field("system"@) is None);
    assert(empty_object().field("tools"@) is None);
    assert(token_request(v, p, sent));
    assert(told_first(sent, m, p.system_prompt));
    assert(c.body == rendered(v));
}

/// The value asks the Messages API for a plan's turn beside an OAuth token.
pub open spec fn token_request(v: JsonView, p: PlanView, sent: Seq<JsonView>) -> bool {
    let tools = enabled_tools(p.tools_enabled, p.sandbox_url, p.workdir);
    &&& gives(v, "model"@, p.model)
    &&& v.field("max_tokens"@) == Some(JsonView::Unsigned(4096))
    &&& v.field("messages"@) == Some(JsonView::List(sent))
    &&& p.oauth_system.len() > 0 ==> gives(v, "system"@, p.oauth_system)
    &&& p.oauth_system.len() == 0 ==> v.field("system"@) is None
    &&& tools.len() > 0 ==> v.field("tools"@) == Some(JsonView::List(tools))
    &&& tools.len() == 0 ==> v.field("tools"@) is None
}

/// The messages are those of a conversation with instructions before the text of the
/// first.
pub open spec fn told_first(
    sent: Seq<JsonView>,
    m: Seq<JsonView>,
    instructions: Seq<char>,
) -> bool {
    &&& sent.len() == m.len()
    &&& forall|i: int| 1 <= i < m.len() ==> #[trigger] sent[i] == m[i]
    &&& m.len() > 0 && (instructions.len() == 0 || lacks(m[0], "content"@)) ==> sent[0] == m[0]
    &&& m.len() > 0 && instructions.len() > 0 ==> {
        &&& forall|t: Seq<char>| #[trigger]
            gives(m[0], "content"@, t) ==> gives(
                sent[0],
                "content"@,
                "[System instructions: "@ + instructions + "]\n\n"@ + t,
            )
        &&& sent[0].field("role"@) == m[0].field("role"@)
    }
}

proof fn lemma_provider_names()
    ensures
        "anthropic"@ != "openrouter"@,
        "anthropic"@ != "open_router"@,
        "openrouter"@ != "open_router"@,
{
    reveal_strlit("anthropic");
    reveal_strlit("openrouter");
    reveal_strlit("open_router");
    assert("anthropic"@.len() == 9);
    assert("openrouter"@.len() == 10);
    assert("open_router"@.len() == 11);
}

proof fn lemma_request_keys()
    ensures
        "model"@ != "max_tokens"@,
        "model"@ != "messages"@,
        "model"@ != "system"@,
        "model"@ != "tools"@,
        "model"@ != "tool_choice"@,
        "model"@ != "role"@,
        "model"@ != "content"@,
        "max_tokens"@ != "messages"@,
        "max_tokens"@ != "system"@,
        "max_tokens"@ != "tools"@,
        "max_tokens"@ != "tool_choice"@,
        "max_tokens"@ != "role"@,
        "max_tokens"@ != "content"@,
        "messages"@ != "system"@,
        "messages"@ != "tools"@,
        "messages"@ != "tool_choice"@,
        "messages"@ != "role"@,
        "messages"@ != "content"@,
        "system"@ != "tools"@,
        "system"@ != "tool_choice"@,
        "system"@ != "role"@,
        "system"@ != "content"@,
        "tools"@ != "tool_choice"@,
        "tools"@ != "role"@,
        "tools"@ != "content"@,
        "tool_choice"@ != "role"@,
        "tool_choice"@ != "content"@,
        "role"@ != "content"@,
{
    reveal_strlit("model");
    reveal_strlit("max_tokens");
    reveal_strlit("messages");
    reveal_strlit("system");
    reveal_strlit("tools");
    reveal_strlit("tool_choice");
    reveal_strlit("role");
    reveal_strlit("content");
    assert("model"@.len() == 5);
    assert("max_tokens"@.len() == 10);
    assert("messages"@.len() == 8);
    assert("system"@.len() == 6);
    assert("tools"@.len() == 5);
    assert("tool_choice"@.len() == 11);
    assert("role"@.len() == 4);
    assert("content"@.len() == 7);
    assert("model"@[0] == 'm');
    assert("tools"@[0] == 't');
}

} // verus!
