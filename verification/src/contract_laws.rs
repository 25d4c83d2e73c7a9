//! What the functions that decide at the edges of the platform promise their callers.
use vstd::prelude::*;
use vstd::utf8::encode_utf8;

use crate::blobs::get_blob;
use crate::blobs::put_blob;
use crate::blobs::BlobAnswer;
use crate::feature_requests::FeatureRequestRecord;
use crate::feature_requests::PlatformGapCategory;
use crate::host::host_cache_contains;
use crate::host::stream_body;
use crate::host::Slot;
use crate::install::app_not_found;
use crate::install::model_not_read;
use crate::install::specs_not_listed;
use crate::invocation::call_error;
use crate::invocation::CallFailure;
use crate::json::lemma_with_keeps;
use crate::json::lemma_with_reads;
use crate::json::Json;
use crate::json::JsonView;
use crate::json_text::rendered;
use crate::mcp::line_for_response;
use crate::mcp::place_arguments;
use crate::mcp::record_execute_turn;
use crate::mcp::request_on_line;
use crate::mcp::take_arguments;
use crate::mcp::McpConfig;
use crate::mcp::Session;
use crate::mcp::Turn;
use crate::observe::build_request_params;
use crate::observe::decision_event;
use crate::observe::discovery_for_alert;
use crate::observe::lower_case;
use crate::observe::plan_analysis;
use crate::observe::plan_update;
use crate::observe::report_analysis;
use crate::observe::report_discovery;
use crate::observe::report_unmet;
use crate::observe::report_update;
use crate::observe::Alert;
use crate::observe::Refusal;
use crate::observe::Update;
use crate::order::keep;
use crate::order::opt_view;
use crate::order::views;
use crate::persistence::entry_not_stored;
use crate::persistence::event_not_stored;
use crate::persistence::plan_secret;
use crate::persistence::refused_operation;
use crate::persistence::secret_not_done;
use crate::persistence::Backend;
use crate::persistence::SecretAction;
use crate::persistence::SecretPlan;
use crate::streams::StreamRegistry;
use crate::text::blank;
use crate::text::decimal;
use crate::text::head;
use crate::text::trimmed;
use crate::tool_laws::gives;
use crate::tool_laws::lacks;
use crate::trajectory::TrajectoryEntry;
use crate::unmet::UnmetIntent;
use crate::unmet::UnmetView;
use crate::wasm::wasm_message;
use crate::wasm::Span;
use crate::wasm::WasmError;

verus! {

/// Secrets are stored, deleted and loaded in a database; in a place that does not last
/// all of that is refused, and without a place nothing is done. To load them takes a
/// vault.
pub proof fn lemma_secrets_need_a_place(b: Backend, a: SecretAction, vault: bool, r: SecretPlan)
    requires
        call_ensures(plan_secret, (b, a, vault), r),
    ensures
        a == SecretAction::Load && !vault ==> r == SecretPlan::Nothing,
        a != SecretAction::Load || vault ==> {
            &&& b == Backend::Missing <==> r == SecretPlan::Nothing
            &&& b == Backend::Database <==> r == SecretPlan::Execute
            &&& b == Backend::Ephemeral <==> r == SecretPlan::Refuse
        },
{
}

/// What fails about secrets is told with the tenant and the cause, and with the name of
/// the secret unless all were to be loaded.
pub proof fn lemma_failures_of_secrets(
    a: SecretAction,
    tenant: &str,
    name: &str,
    cause: &str,
    r: String,
    s: &'static str,
)
    requires
        call_ensures(secret_not_done, (a, tenant, name, cause), r),
        call_ensures(refused_operation, (a,), s),
    ensures
        a == SecretAction::Upsert ==> r@ == "failed to upsert secret "@ + tenant@ + "/"@ + name@
            + ": "@ + cause@ && s@ == "Secret persistence"@,
        a == SecretAction::Delete ==> r@ == "failed to delete secret "@ + tenant@ + "/"@ + name@
            + ": "@ + cause@ && s@ == "Secret deletion"@,
        a == SecretAction::Load ==> r@ == "failed to load secrets for tenant "@ + tenant@ + ": "@
            + cause@ && s@ == "Secret loading"@,
{
}

/// Whatever cannot be stored is told by what it is, where it belongs, and why.
pub proof fn lemma_failures_to_store(
    kind: &str,
    tenant: &str,
    entity_type: &str,
    cause: &str,
    r: String,
    e: &TrajectoryEntry,
    s: String,
)
    requires
        call_ensures(event_not_stored, (kind, tenant, entity_type, cause), r),
        call_ensures(entry_not_stored, (e, cause), s),
    ensures
        r@ == "failed to persist design-time event "@ + kind@ + " for "@ + tenant@ + "/"@
            + entity_type@ + (": "@ + cause@),
        s@ == "failed to persist trajectory entry for "@ + e@.tenant + "/"@ + e@.entity_type
            + "/"@ + e@.entity_id + " action "@ + (e@.action + ": "@ + cause@),
{
}

/// What an installation cannot do is told by the app or the tenant.
pub proof fn lemma_failures_to_install(
    name: &str,
    cause: &str,
    r: String,
    s: String,
    t: String,
)
    requires
        call_ensures(app_not_found, (name,), r),
        call_ensures(model_not_read, (name, cause), s),
        call_ensures(specs_not_listed, (name, cause), t),
    ensures
        r@ == "OS app '"@ + name@ + "' not found in catalog"@,
        s@ == "Failed to parse CSDL for os-app '"@ + name@ + "': "@ + cause@,
        t@ == "Failed to load existing specs for tenant '"@ + name@ + "': "@ + cause@,
{
}

/// The answer is a text.
pub open spec fn is_answer(a: BlobAnswer, status: u16, t: Seq<char>) -> bool {
    a.status == status && !a.is_blob && a.body@ == encode_utf8(t)
}

/// Blobs are stored and found with success, a missing one is not found, and without a
/// store or with a failing one that is told.
pub proof fn lemma_blobs_are_answered(
    stored: Option<Result<(), String>>,
    found: Option<Result<Option<Vec<u8>>, String>>,
    a: BlobAnswer,
    b: BlobAnswer,
)
    requires
        call_ensures(put_blob, (stored,), a),
        call_ensures(get_blob, (found,), b),
    ensures
        stored is None ==> is_answer(a, 503, "Blob storage requires Turso"@),
        stored matches Some(Ok(_)) ==> a.status == 204 && !a.is_blob && a.body@.len() == 0,
        stored matches Some(Err(m)) ==> is_answer(a, 500, m@),
        found is None ==> is_answer(b, 503, "Blob storage requires Turso"@),
        found matches Some(Ok(Some(x))) ==> b.status == 200 && b.is_blob && b.body@ == x@,
        found matches Some(Ok(None)) ==> b.status == 404 && !b.is_blob && b.body@.len() == 0,
        found matches Some(Err(m)) ==> is_answer(b, 500, m@),
{
}

/// A run that did not return ran out of fuel, ran out of time, or failed otherwise; each
/// is told as what it is.
pub proof fn lemma_runs_that_do_not_return(f: CallFailure, d: Span, e: WasmError)
    requires
        call_ensures(call_error, (f, d), e),
    ensures
        f is OutOfFuel ==> wasm_message(e@)
            == "fuel exhausted -- module exceeded instruction budget"@,
        f is Interrupted ==> wasm_message(e@)
            == "execution timeout -- module exceeded time budget of "@
            + crate::wasm::span_text(d.secs, d.nanos),
        f matches CallFailure::Other(m) ==> wasm_message(e@) == "invocation failed: "@ + m@,
{
}

/// A guest learns whether something is cached, and a request has the bytes of the
/// stream that it names.
pub proof fn lemma_streams_are_found(
    mem: &[u8],
    s: &StreamRegistry,
    key: Slot,
    r: i32,
    id: &str,
    b: Vec<u8>,
)
    requires
        call_ensures(host_cache_contains, (mem, s, key), r),
        call_ensures(stream_body, (s, id), b),
    ensures
        r == 1 <==> s.cache@.contains_key(crate::host::slot_text(mem@, key)),
        r == 0 <==> !s.cache@.contains_key(crate::host::slot_text(mem@, key)),
        id@.len() > 0 && s.streams@.contains_key(id@) ==> b@ == s.streams@[id@],
        id@.len() == 0 || !s.streams@.contains_key(id@) ==> b@.len() == 0,
{
}

/// A session goes to the address that is set up, with what is set up; the key that is
/// set up counts before that of the environment.
pub proof fn lemma_sessions_are_set_up(
    c: &McpConfig,
    key: &Option<String>,
    tenant: &Option<String>,
    r: Result<Session, String>,
)
    requires
        call_ensures(Session::from_config, (c, key, tenant), r),
    ensures
        c.temper_url is None && c.temper_port is None <==> r is Err,
        r matches Ok(s) ==> {
            &&& s@.agent_id == opt_view(c.agent_id)
            &&& s@.agent_type == opt_view(c.agent_type)
            &&& s@.session_id == opt_view(c.session_id)
            &&& c.api_key is Some ==> s@.api_key == opt_view(c.api_key)
            &&& c.api_key is None ==> s@.api_key == opt_view(*key)
            &&& tenant is Some && !blank(tenant->0@) ==> s@.identity_tenant == tenant->0@
            &&& tenant is None || blank(tenant->0@) ==> s@.identity_tenant == "default"@
            &&& c.temper_url is None && c.temper_port is Some ==> s@.base_url
                == "http://127.0.0.1:"@ + decimal(c.temper_port->0 as nat)
        },
{
}

/// A turn in which code was run keeps the code and what came of it; an error is both
/// the answer and the error.
pub proof fn lemma_turns_are_recorded(code: &str, result: &Result<String, String>, t: Turn)
    requires
        call_ensures(record_execute_turn, (code, result), t),
    ensures
        t.asked@ == code@,
        t.choice@ == "execute: "@ + head(code@, 100),
        result matches Ok(x) ==> t.answered@ == x@ && t.error is None,
        result matches Err(m) ==> t.answered@ == m@ && t.error is Some && t.error->0@ == m@,
{
}

/// A call names its tenant behind the object that it is made on, and the rest of its
/// arguments follow; without one, with another value in its place, and with keywords it
/// is refused.
pub proof fn lemma_arguments_are_taken(
    name: &str,
    args: Vec<Json>,
    kwargs: usize,
    r: Result<(String, Vec<Json>), String>,
    p: Result<(usize, usize), String>,
)
    requires
        call_ensures(take_arguments, (name, args, kwargs), r),
        call_ensures(place_arguments, (name, args.len(), kwargs), p),
    ensures
        kwargs > 0 ==> r is Err && p is Err && r->Err_0@ == "temper."@ + name@
            + " does not support keyword arguments"@ && p->Err_0@ == r->Err_0@,
        kwargs == 0 ==> (r is Ok <==> args@.len() >= 2 && args@[1]@ is Text),
        kwargs == 0 && r is Err ==> r->Err_0@ == "temper."@ + name@
            + " expects a string for tenant"@,
        r matches Ok((tenant, rest)) ==> args@[1]@ == JsonView::Text(tenant@) && rest@.len()
            == args@.len() - 2 && forall|i: int|
            0 <= i < rest@.len() ==> #[trigger] rest@[i] == args@[i + 2],
        p matches Ok((at, from)) ==> args@.len() >= 2 ==> at == 1 && from == 2,
{
}

/// A line holds a request unless it is blank, and a response is a line.
pub proof fn lemma_lines(line: &str, r: Option<String>, v: &Json, t: String)
    requires
        call_ensures(request_on_line, (line,), r),
        call_ensures(line_for_response, (v,), t),
    ensures
        blank(line@) <==> r is None,
        r is Some ==> r->0@ == trimmed(line@),
        t@ == rendered(v@) + "\n"@,
{
}

/// A refusal is told by its number.
pub proof fn lemma_refusals(a: Refusal, r: u16)
    requires
        call_ensures(Refusal::code, (a,), r),
    ensures
        a == Refusal::BadRequest <==> r == 400,
        a == Refusal::ServiceUnavailable <==> r == 503,
        a == Refusal::InternalServerError <==> r == 500,
{
}

/// The word stands for what may become of a feature request, whatever its case.
pub open spec fn is_known(word: Seq<char>) -> bool {
    let w = lower_case(word);
    w == "open"@ || w == "acknowledged"@ || w == "planned"@ || w == "wontfix"@ || w
        == "wont_fix"@ || w == "resolved"@
}

/// A feature request is changed to what is asked, where that is known or nothing is
/// asked, and where there is a place to store it.
pub proof fn lemma_updates_are_planned(
    body: &Json,
    stored: bool,
    r: Result<Update, Refusal>,
    word: Seq<char>,
)
    requires
        call_ensures(plan_update, (body, stored), r),
        gives(body@, "disposition"@, word) || (lacks(body@, "disposition"@) && word.len() == 0),
    ensures
        ({
            let fine = lacks(body@, "disposition"@) || is_known(word);
            &&& !fine ==> r == Err::<Update, Refusal>(Refusal::BadRequest)
            &&& fine && !stored ==> r == Err::<Update, Refusal>(Refusal::ServiceUnavailable)
            &&& fine && stored ==> {
                &&& r matches Ok(u)
                &&& u.disposition@ == word
                &&& lacks(body@, "developer_notes"@) ==> u.notes is None
                &&& !lacks(body@, "developer_notes"@) ==> u.notes is Some && gives(
                    body@,
                    "developer_notes"@,
                    u.notes->0@,
                )
            }
        }),
{
    reveal_strlit("");
    assert(""@ =~= Seq::<char>::empty());
    if word.len() == 0 {
        assert(word =~= Seq::<char>::empty());
    }
}

/// An analysis is asked for by hand by a developer, unless something else is said.
pub proof fn lemma_analyses_are_planned(
    reason: Option<String>,
    source: Option<String>,
    context: Option<Json>,
    r: Json,
)
    requires
        call_ensures(plan_analysis, (reason, source, context), r),
        context is Some ==> context->0@.wf(),
    ensures
        reason is Some ==> gives(r@, "reason"@, reason->0@),
        reason is None ==> gives(r@, "reason"@, "manual"@),
        source is Some ==> gives(r@, "source"@, source->0@),
        source is None ==> gives(r@, "source"@, "developer"@),
        context is Some ==> gives(r@, "trigger_context_json"@, rendered(context->0@)),
        context is None ==> gives(
            r@,
            "trigger_context_json"@,
            rendered(crate::json::empty_object()),
        ),
{
    crate::observe_laws::lemma_triggers(
        if reason is Some {
            reason->0@
        } else {
            "manual"@
        },
        if source is Some {
            source->0@
        } else {
            "developer"@
        },
        if context is Some {
            context->0@
        } else {
            crate::json::empty_object()
        },
    );
}

/// A discovery that an alert sets off is reasoned with its rule.
pub proof fn lemma_alerts_set_off(a: &Alert, r: (String, Json), id: &str, reason: &str, d: Json)
    requires
        call_ensures(discovery_for_alert, (a,), r),
        call_ensures(report_discovery, (id, reason), d),
    ensures
        r.0@ == "sentinel:"@ + a@.rule_name,
        gives(r.1@, "rule_name"@, a@.rule_name),
        gives(r.1@, "observation_record_id"@, a@.record_id),
        gives(d@, "entity_id"@, id@),
        gives(d@, "reason"@, reason@),
{
    broadcast use {lemma_with_reads, lemma_with_keeps};

    lemma_edge_keys();
    crate::observe_laws::lemma_alerts_are_told(
        a@,
        Seq::empty(),
        JsonView::Null,
        JsonView::Null,
        JsonView::Null,
    );
}

/// Unmet intents are answered with how many are open and how many resolved.
pub proof fn lemma_unmet_are_told(v: &Vec<UnmetIntent>, values: Vec<Json>, r: Json)
    requires
        call_ensures(report_unmet, (v, values), r),
        JsonView::List(views(values@)).wf(),
    ensures
        r@.field("intents"@) == Some(JsonView::List(views(values@))),
        r@.field("open_count"@) == Some(
            JsonView::Unsigned(
                keep(views(v@), |u: UnmetView| u.status == "open"@).len() as u64,
            ),
        ),
        r@.field("resolved_count"@) == Some(
            JsonView::Unsigned(
                keep(views(v@), |u: UnmetView| u.status == "resolved"@).len() as u64,
            ),
        ),
{
    broadcast use {lemma_with_reads, lemma_with_keeps};

    lemma_edge_keys();
    lemma_status_kept(views(v@), "open"@);
    lemma_status_kept(views(v@), "resolved"@);
}

proof fn lemma_status_kept(s: Seq<UnmetView>, t: Seq<char>)
    ensures
        keep(s, crate::observe::with_status(t)) == keep(s, |u: UnmetView| u.status == t),
    decreases s.len(),
{
    if s.len() > 0 {
        lemma_status_kept(s.drop_last(), t);
    }
}

/// A feature request is created with what the platform lacks, how often it was missed,
/// and what a developer noted.
pub proof fn lemma_requests_are_created(f: &FeatureRequestRecord, id: &str, r: Json)
    requires
        call_ensures(build_request_params, (f, id), r),
    ensures
        f.category == PlatformGapCategory::MissingCapability ==> gives(
            r@,
            "category"@,
            "MissingCapability"@,
        ),
        f.category == PlatformGapCategory::MissingMethod ==> gives(
            r@,
            "category"@,
            "MissingMethod"@,
        ),
        gives(r@, "description"@, f@.description),
        gives(r@, "frequency"@, decimal(f@.frequency)),
        f@.developer_notes is Some ==> gives(r@, "developer_notes"@, f@.developer_notes->0),
        f@.developer_notes is None ==> gives(r@, "developer_notes"@, Seq::empty()),
        gives(r@, "legacy_record_id"@, id@),
{
    broadcast use {lemma_with_reads, lemma_with_keeps};

    lemma_edge_keys();
    reveal_strlit("");
    assert(""@ =~= Seq::<char>::empty());
}

/// Updates, analyses and decisions are answered with what became of them.
pub proof fn lemma_answers_are_told(
    id: &str,
    r: Json,
    tenant: &str,
    success: bool,
    status: &str,
    error: &Option<String>,
    fields: Json,
    a: Json,
    action: &str,
    kind: &str,
    d: Json,
)
    requires
        call_ensures(report_update, (id,), r),
        call_ensures(report_analysis, (tenant, id, success, status, error, fields), a),
        call_ensures(decision_event, (id, action, kind), d),
        fields@.wf(),
    ensures
        gives(r@, "id"@, id@),
        r@.field("updated"@) == Some(JsonView::Bool(true)),
        gives(a@, "tenant"@, tenant@),
        gives(a@, "entity_id"@, id@),
        a@.field("success"@) == Some(JsonView::Bool(success)),
        gives(a@, "status"@, status@),
        error is Some ==> gives(a@, "error"@, error->0@),
        error is None ==> a@.field("error"@) == Some(JsonView::Null),
        a@.field("fields"@) == Some(fields@),
        gives(d@, "type"@, "new_decision"@),
        gives(d@, "decision_id"@, id@),
        gives(d@, "action"@, action@),
        gives(d@, "resource_type"@, kind@),
        gives(d@, "status"@, "pending"@),
{
    broadcast use {lemma_with_reads, lemma_with_keeps};

    lemma_edge_keys();
    lemma_answer_keys();
}

proof fn lemma_edge_keys()
    ensures
        "entity_id"@ != "reason"@,
        "entity_id"@ != "intents"@,
        "entity_id"@ != "open_count"@,
        "entity_id"@ != "resolved_count"@,
        "entity_id"@ != "category"@,
        "entity_id"@ != "description"@,
        "entity_id"@ != "frequency"@,
        "entity_id"@ != "developer_notes"@,
        "entity_id"@ != "legacy_record_id"@,
        "reason"@ != "intents"@,
        "reason"@ != "open_count"@,
        "reason"@ != "resolved_count"@,
        "reason"@ != "category"@,
        "reason"@ != "description"@,
        "reason"@ != "frequency"@,
        "reason"@ != "developer_notes"@,
        "reason"@ != "legacy_record_id"@,
        "intents"@ != "open_count"@,
        "intents"@ != "resolved_count"@,
        "intents"@ != "category"@,
        "intents"@ != "description"@,
        "intents"@ != "frequency"@,
        "intents"@ != "developer_notes"@,
        "intents"@ != "legacy_record_id"@,
        "open_count"@ != "resolved_count"@,
        "open_count"@ != "category"@,
        "open_count"@ != "description"@,
        "open_count"@ != "frequency"@,
        "open_count"@ != "developer_notes"@,
        "open_count"@ != "legacy_record_id"@,
        "resolved_count"@ != "category"@,
        "resolved_count"@ != "description"@,
        "resolved_count"@ != "frequency"@,
        "resolved_count"@ != "developer_notes"@,
        "resolved_count"@ != "legacy_record_id"@,
        "category"@ != "description"@,
        "category"@ != "frequency"@,
        "category"@ != "developer_notes"@,
        "category"@ != "legacy_record_id"@,
        "description"@ != "frequency"@,
        "description"@ != "developer_notes"@,
        "description"@ != "legacy_record_id"@,
        "frequency"@ != "developer_notes"@,
        "frequency"@ != "legacy_record_id"@,
        "developer_notes"@ != "legacy_record_id"@,
{
    reveal_strlit("entity_id");
    reveal_strlit("reason");
    reveal_strlit("intents");
    reveal_strlit("open_count");
    reveal_strlit("resolved_count");
    reveal_strlit("category");
    reveal_strlit("description");
    reveal_strlit("frequency");
    reveal_strlit("developer_notes");
    reveal_strlit("legacy_record_id");
    assert("entity_id"@.len() == 9);
    assert("reason"@.len() == 6);
    assert("intents"@.len() == 7);
    assert("open_count"@.len() == 10);
    assert("resolved_count"@.len() == 14);
    assert("category"@.len() == 8);
    assert("description"@.len() == 11);
    assert("frequency"@.len() == 9);
    assert("developer_notes"@.len() == 15);
    assert("legacy_record_id"@.len() == 16);
    assert("entity_id"@[0] == 'e');
    assert("frequency"@[0] == 'f');
}

proof fn lemma_answer_keys()
    ensures
        "id"@ != "updated"@,
        "id"@ != "tenant"@,
        "id"@ != "entity_id"@,
        "id"@ != "success"@,
        "id"@ != "status"@,
        "id"@ != "error"@,
        "id"@ != "fields"@,
        "id"@ != "type"@,
        "id"@ != "decision_id"@,
        "id"@ != "action"@,
        "id"@ != "resource_type"@,
        "updated"@ != "tenant"@,
        "updated"@ != "entity_id"@,
        "updated"@ != "success"@,
        "updated"@ != "status"@,
        "updated"@ != "error"@,
        "updated"@ != "fields"@,
        "updated"@ != "type"@,
        "updated"@ != "decision_id"@,
        "updated"@ != "action"@,
        "updated"@ != "resource_type"@,
        "tenant"@ != "entity_id"@,
        "tenant"@ != "success"@,
        "tenant"@ != "status"@,
        "tenant"@ != "error"@,
        "tenant"@ != "fields"@,
        "tenant"@ != "type"@,
        "tenant"@ != "decision_id"@,
        "tenant"@ != "action"@,
        "tenant"@ != "resource_type"@,
        "entity_id"@ != "success"@,
        "entity_id"@ != "status"@,
        "entity_id"@ != "error"@,
        "entity_id"@ != "fields"@,
        "entity_id"@ != "type"@,
        "entity_id"@ != "decision_id"@,
        "entity_id"@ != "action"@,
        "entity_id"@ != "resource_type"@,
        "success"@ != "status"@,
        "success"@ != "error"@,
        "success"@ != "fields"@,
        "success"@ != "type"@,
        "success"@ != "decision_id"@,
        "success"@ != "action"@,
        "success"@ != "resource_type"@,
        "status"@ != "error"@,
        "status"@ != "fields"@,
        "status"@ != "type"@,
        "status"@ != "decision_id"@,
        "status"@ != "action"@,
        "status"@ != "resource_type"@,
        "error"@ != "fields"@,
        "error"@ != "type"@,
        "error"@ != "decision_id"@,
        "error"@ != "action"@,
        "error"@ != "resource_type"@,
        "fields"@ != "type"@,
        "fields"@ != "decision_id"@,
        "fields"@ != "action"@,
        "fields"@ != "resource_type"@,
        "type"@ != "decision_id"@,
        "type"@ != "action"@,
        "type"@ != "resource_type"@,
        "decision_id"@ != "action"@,
        "decision_id"@ != "resource_type"@,
        "action"@ != "resource_type"@,
{
    reveal_strlit("id");
    reveal_strlit("updated");
    reveal_strlit("tenant");
    reveal_strlit("entity_id");
    reveal_strlit("success");
    reveal_strlit("status");
    reveal_strlit("error");
    reveal_strlit("fields");
    reveal_strlit("type");
    reveal_strlit("decision_id");
    reveal_strlit("action");
    reveal_strlit("resource_type");
    assert("id"@.len() == 2);
    assert("updated"@.len() == 7);
    assert("tenant"@.len() == 6);
    assert("entity_id"@.len() == 9);
    assert("success"@.len() == 7);
    assert("status"@.len() == 6);
    assert("error"@.len() == 5);
    assert("fields"@.len() == 6);
    assert("type"@.len() == 4);
    assert("decision_id"@.len() == 11);
    assert("action"@.len() == 6);
    assert("resource_type"@.len() == 13);
    assert("updated"@[0] == 'u');
    assert("success"@[0] == 's');
    assert("tenant"@[0] == 't');
    assert("status"@[0] == 's');
    assert("fields"@[0] == 'f');
    assert("action"@[0] == 'a');
}

} // verus!
