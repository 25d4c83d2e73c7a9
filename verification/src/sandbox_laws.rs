//! Which sandbox an agent gets.
use vstd::prelude::*;

use crate::json::lemma_with_keeps;
use crate::json::lemma_with_reads;
use crate::json::JsonView;
use crate::json_text::rendered;
use crate::keys::listed;
use crate::module::ContextView;
use crate::module::ReplyView;
use crate::sandbox::after_broker;
use crate::sandbox::first_sandbox_step;
use crate::sandbox::SandboxStepView;
use crate::text::decimal;
use crate::text::head;
use crate::tool_laws::gives;
use crate::tool_laws::lacks;

verus! {

/// The step ends with a sandbox at an address, under a name.
pub open spec fn is_ready(s: SandboxStepView, url: Seq<char>, id: Seq<char>) -> bool {
    &&& s matches SandboxStepView::Done(c)
    &&& c.action == "SandboxReady"@
    &&& gives(c.params, "sandbox_url"@, url)
    &&& gives(c.params, "sandbox_id"@, id)
}

/// The value says no text in the field, or an empty one.
pub open spec fn says_nothing(v: JsonView, key: Seq<char>) -> bool {
    lacks(v, key) || gives(v, key, Seq::empty())
}

/// An agent that is told nothing gets no sandbox. Else it gets the one that is known:
/// the entity's, else that of the settings, else that of the trigger; and only where
/// none is known the broker is asked for one, which takes a token.
pub proof fn lemma_known_sandboxes_first(ctx: ContextView, token: Option<Seq<char>>)
    ensures
        ({
            let f = ctx.fields();
            let g = ctx.trigger_params;
            let s = first_sandbox_step(ctx, token);
            let set = listed(ctx.config, "sandbox_url"@);
            let told = !says_nothing(f, "prompt"@);
            let own = !says_nothing(f, "sandbox_url"@);
            &&& !told ==> s == SandboxStepView::Failed("agent not configured — prompt is empty"@)
            &&& told && own ==> is_ready(
                s,
                f.field("sandbox_url"@)->0->Text_0,
                "static-sandbox"@,
            )
            &&& told && !own && set is Some ==> is_ready(s, set->0, "static-sandbox"@)
            &&& told && !own && set is None && !lacks(g, "sandbox_url"@) ==> is_ready(
                s,
                g.field("sandbox_url"@)->0->Text_0,
                "static-sandbox"@,
            )
            &&& told && !own && set is None && lacks(g, "sandbox_url"@) && (token is None
                || token->0.len() == 0) ==> s == SandboxStepView::Failed(
                "no sandbox_url in config and no modal_api_token secret"@,
            )
            &&& told && !own && set is None && lacks(g, "sandbox_url"@) && token is Some
                && token->0.len() > 0 ==> {
                &&& s matches SandboxStepView::Send(c)
                &&& c.method == "POST"@
                &&& listed(ctx.config, "modal_broker_url"@) matches Some(u) ==> c.url == u
                &&& listed(ctx.config, "modal_broker_url"@) is None ==> c.url
                    == "http://localhost:8888/create-sandbox"@
                &&& c.headers.contains(("authorization"@, "Bearer "@ + token->0))
                &&& c.headers.contains(("content-type"@, "application/json"@))
                &&& asks_for_minutes(c.body)
            }
        }),
{
    broadcast use {lemma_with_reads, lemma_with_keeps};

    lemma_keys();
    reveal_strlit("");
    assert(""@ =~= Seq::<char>::empty());
    let f = ctx.fields();
    if !lacks(f, "prompt"@) && f.text_or("prompt"@, ""@).len() == 0 {
        assert(f.text_or("prompt"@, ""@) =~= Seq::<char>::empty());
    }
    if !lacks(f, "sandbox_url"@) && f.text_or("sandbox_url"@, ""@).len() == 0 {
        assert(f.text_or("sandbox_url"@, ""@) =~= Seq::<char>::empty());
    }
    if token is Some {
        let c = crate::sandbox::broker_call(ctx, token->0);
        assert(c.headers[0] == ("authorization"@, "Bearer "@ + token->0));
        assert(c.headers[1] == ("content-type"@, "application/json"@));
        let v = crate::json::empty_object().with("timeout"@, JsonView::Unsigned(600));
        assert(c.body == rendered(v) && v.field("timeout"@) == Some(JsonView::Unsigned(600)));
        assert(asks_for_minutes(c.body));
    }
}

/// The text asks for a sandbox that lasts ten minutes.
pub open spec fn asks_for_minutes(t: Seq<char>) -> bool {
    exists|v: JsonView|
        t == #[trigger] rendered(v) && v.field("timeout"@) == Some(JsonView::Unsigned(600))
}

/// The broker's reply gives the sandbox that it names, where it names one; any other
/// reply gives none, and what it says is told.
pub proof fn lemma_brokered_sandboxes(x: ReplyView, read: Result<JsonView, Seq<char>>, m: Seq<char>)
    ensures
        ({
            let s = after_broker(Ok(x), read);
            let v = read->Ok_0;
            let well = 200 <= x.status < 300;
            &&& !well ==> s == SandboxStepView::Failed(
                "sandbox broker failed (HTTP "@ + decimal(x.status as nat) + "): "@ + head(
                    x.body,
                    500,
                ),
            )
            &&& well && read is Err ==> s == SandboxStepView::Failed(
                "failed to parse broker response: "@ + read->Err_0,
            )
            &&& well && read is Ok && says_nothing(v, "sandbox_url"@) ==> s
                == SandboxStepView::Failed("broker response missing sandbox_url"@)
            &&& well && read is Ok && !says_nothing(v, "sandbox_url"@) ==> is_ready(
                s,
                v.field("sandbox_url"@)->0->Text_0,
                if lacks(v, "sandbox_id"@) {
                    "unknown"@
                } else {
                    v.field("sandbox_id"@)->0->Text_0
                },
            )
        }),
        after_broker(Err(m), read) == SandboxStepView::Failed(m),
{
    broadcast use {lemma_with_reads, lemma_with_keeps};

    lemma_keys();
    reveal_strlit("");
    assert(""@ =~= Seq::<char>::empty());
    if read is Ok {
        let v = read->Ok_0;
        let u = v.text_or("sandbox_url"@, ""@);
        if u.len() == 0 {
            assert(u =~= Seq::<char>::empty());
        }
    }
}

proof fn lemma_keys()
    ensures
        "sandbox_url"@ != "sandbox_id"@,
{
    reveal_strlit("sandbox_url");
    reveal_strlit("sandbox_id");
    assert("sandbox_url"@.len() == 11);
    assert("sandbox_id"@.len() == 10);
}

} // verus!
