//! What is stored of events, trajectories, decisions, secrets and specs.
use vstd::prelude::*;
use vstd::utf8::decode_utf8;
use vstd::utf8::valid_utf8;

use crate::guest::text_from_utf8;
use crate::guest::utf8_error;
use crate::order::opt_view;
use crate::order::views;
use crate::text::cat2;
use crate::text::cat4;
use crate::text::cat6;
use crate::text::cat7;
use crate::trajectory::TrajectoryEntry;
use crate::trajectory::TrajectorySource;

verus! {

/// The name under which a source is stored.
pub open spec fn source_name(s: TrajectorySource) -> Seq<char> {
    match s {
        TrajectorySource::Entity => "Entity"@,
        TrajectorySource::Platform => "Platform"@,
        TrajectorySource::Authz => "Authz"@,
    }
}

/// The name under which the source of an entry is stored, where it has one.
pub fn stored_source(s: Option<TrajectorySource>) -> (r: Option<&'static str>)
    ensures
        match s {
            Some(x) => r is Some && r->0@ == source_name(x),
            None => r is None,
        },
{
    match s {
        Some(TrajectorySource::Entity) => Some("Entity"),
        Some(TrajectorySource::Platform) => Some("Platform"),
        Some(TrajectorySource::Authz) => Some("Authz"),
        None => None,
    }
}

/// What is told where an event cannot be stored.
pub fn event_not_stored(kind: &str, tenant: &str, entity_type: &str, cause: &str) -> (r: String)
    ensures
        r@ == "failed to persist design-time event "@ + kind@ + " for "@ + tenant@ + "/"@
            + entity_type@ + (": "@ + cause@),
{
    let front = cat6(
        "failed to persist design-time event ",
        kind,
        " for ",
        tenant,
        "/",
        entity_type,
    );
    let rest = cat2(": ", cause);
    cat2(front.as_str(), rest.as_str())
}

/// What is told where an entry cannot be stored.
pub fn entry_not_stored(e: &TrajectoryEntry, cause: &str) -> (r: String)
    ensures
        r@ == "failed to persist trajectory entry for "@ + e@.tenant + "/"@ + e@.entity_type
            + "/"@ + e@.entity_id + " action "@ + (e@.action + ": "@ + cause@),
{
    let front = cat7(
        "failed to persist trajectory entry for ",
        e.tenant.as_str(),
        "/",
        e.entity_type.as_str(),
        "/",
        e.entity_id.as_str(),
        " action ",
    );
    let rest = crate::text::cat3(e.action.as_str(), ": ", cause);
    cat2(front.as_str(), rest.as_str())
}

/// Where a decision stands.
#[derive(Clone, Copy, Debug, PartialEq, Eq, Structural)]
pub enum DecisionStatus {
    /// It is open.
    Pending,
    /// It was approved.
    Approved,
    /// It was denied.
    Denied,
    /// It came too late.
    Expired,
}

/// The name under which the status of a decision is stored.
pub open spec fn status_name(s: DecisionStatus) -> Seq<char> {
    match s {
        DecisionStatus::Pending => "pending"@,
        DecisionStatus::Approved => "approved"@,
        DecisionStatus::Denied => "denied"@,
        DecisionStatus::Expired => "expired"@,
    }
}

/// The name under which the status of a decision is stored.
pub fn stored_status(s: DecisionStatus) -> (r: &'static str)
    ensures
        r@ == status_name(s),
{
    match s {
        DecisionStatus::Pending => "pending",
        DecisionStatus::Approved => "approved",
        DecisionStatus::Denied => "denied",
        DecisionStatus::Expired => "expired",
    }
}

/// What is told where a decision cannot be put into JSON.
pub fn decision_not_serialized(id: &str, cause: &str) -> (r: String)
    ensures
        r@ == "failed to serialize decision "@ + id@ + ": "@ + cause@,
{
    cat4("failed to serialize decision ", id, ": ", cause)
}

/// What is told where a decision cannot be stored.
pub fn decision_not_stored(id: &str, cause: &str) -> (r: String)
    ensures
        r@ == "failed to persist pending decision "@ + id@ + " in turso: "@ + cause@,
{
    cat4("failed to persist pending decision ", id, " in turso: ", cause)
}

/// Where metadata is stored.
#[derive(Clone, Copy, Debug, PartialEq, Eq, Structural)]
pub enum Backend {
    /// Nowhere.
    Missing,
    /// In a database.
    Database,
    /// In a place that does not last.
    Ephemeral,
}

/// What is done about secrets.
#[derive(Clone, Copy, Debug, PartialEq, Eq, Structural)]
pub enum SecretAction {
    /// One is stored.
    Upsert,
    /// One is deleted.
    Delete,
    /// All of a tenant are loaded.
    Load,
}

/// What is to be done at a backend.
#[derive(Clone, Copy, Debug, PartialEq, Eq, Structural)]
pub enum SecretPlan {
    /// Nothing: there is nothing to be done it with.
    Nothing,
    /// It is done in the database.
    Execute,
    /// It is refused: it would not last.
    Refuse,
}

/// What is to be done at a backend. To load secrets takes a vault too.
pub fn plan_secret(backend: Backend, action: SecretAction, has_vault: bool) -> (r: SecretPlan)
    ensures
        r == (if action == SecretAction::Load && !has_vault {
            SecretPlan::Nothing
        } else {
            match backend {
                Backend::Missing => SecretPlan::Nothing,
                Backend::Database => SecretPlan::Execute,
                Backend::Ephemeral => SecretPlan::Refuse,
            }
        }),
{
    if let SecretAction::Load = action {
        if !has_vault {
            return SecretPlan::Nothing;
        }
    }
    match backend {
        Backend::Missing => SecretPlan::Nothing,
        Backend::Database => SecretPlan::Execute,
        Backend::Ephemeral => SecretPlan::Refuse,
    }
}

/// The operation as a refusal names it.
pub fn refused_operation(action: SecretAction) -> (r: &'static str)
    ensures
        r@ == match action {
            SecretAction::Upsert => "Secret persistence"@,
            SecretAction::Delete => "Secret deletion"@,
            SecretAction::Load => "Secret loading"@,
        },
{
    match action {
        SecretAction::Upsert => "Secret persistence",
        SecretAction::Delete => "Secret deletion",
        SecretAction::Load => "Secret loading",
    }
}

/// What is told where something could not be done about secrets; a load concerns
/// all secrets of the tenant.
pub fn secret_not_done(
    action: SecretAction,
    tenant: &str,
    key_name: &str,
    cause: &str,
) -> (r: String)
    ensures
        r@ == match action {
            SecretAction::Upsert => "failed to upsert secret "@ + tenant@ + "/"@ + key_name@
                + ": "@ + cause@,
            SecretAction::Delete => "failed to delete secret "@ + tenant@ + "/"@ + key_name@
                + ": "@ + cause@,
            SecretAction::Load => "failed to load secrets for tenant "@ + tenant@ + ": "@ + cause@,
        },
{
    match action {
        SecretAction::Upsert => cat6(
            "failed to upsert secret ",
            tenant,
            "/",
            key_name,
            ": ",
            cause,
        ),
        SecretAction::Delete => cat6(
            "failed to delete secret ",
            tenant,
            "/",
            key_name,
            ": ",
            cause,
        ),
        SecretAction::Load => cat4("failed to load secrets for tenant ", tenant, ": ", cause),
    }
}

/// Whether a deletion deleted anything.
pub fn was_deleted(rows: u64) -> (r: bool)
    ensures
        r == (rows > 0),
{
    rows > 0
}

/// A secret of which the name is known, and the bytes where they could be
/// decrypted.
#[derive(Debug)]
pub struct OpenedSecret {
    /// Its name.
    pub key_name: String,
    /// Its bytes.
    pub plaintext: Option<Vec<u8>>,
}

/// A secret of which the name is known, and the bytes where they could be
/// decrypted.
pub struct OpenedView {
    /// Its name.
    pub key_name: Seq<char>,
    /// Its bytes.
    pub plaintext: Option<Seq<u8>>,
}

impl View for OpenedSecret {
    type V = OpenedView;

    open spec fn view(&self) -> OpenedView {
        OpenedView { key_name: self.key_name@, plaintext: opt_view(self.plaintext) }
    }
}

/// The secret is no text.
pub open spec fn is_no_text(s: OpenedView) -> bool {
    match s.plaintext {
        Some(b) => !valid_utf8(b),
        None => false,
    }
}

/// The secrets that are kept of a list, each with its name: those that could be
/// decrypted, up to the first that is no text.
pub open spec fn kept_secrets(s: Seq<OpenedView>) -> Seq<(Seq<char>, Seq<char>)>
    decreases s.len(),
{
    if s.len() == 0 || is_no_text(s[0]) {
        Seq::empty()
    } else {
        let rest = kept_secrets(s.drop_first());
        match s[0].plaintext {
            Some(b) => seq![(s[0].key_name, decode_utf8(b))] + rest,
            None => rest,
        }
    }
}

/// What is wrong with a list of secrets: its first that is no text.
pub open spec fn secrets_error(s: Seq<OpenedView>) -> Option<Seq<char>>
    decreases s.len(),
{
    if s.len() == 0 {
        None
    } else if is_no_text(s[0]) {
        Some(
            "secret "@ + s[0].key_name + " is not valid UTF-8: "@ + utf8_error(
                s[0].plaintext->0,
            ),
        )
    } else {
        secrets_error(s.drop_first())
    }
}

/// The secrets that are kept of a list, and what is wrong with it. A secret that
/// could not be decrypted is left out; the first that is no text ends the list.
pub fn open_secrets(rows: Vec<OpenedSecret>) -> (r: (Vec<(String, String)>, Option<String>))
    ensures
        views(r.0@) == kept_secrets(views(rows@)),
        opt_view(r.1) == secrets_error(views(rows@)),
{
    let ghost all = views(rows@);
    let mut rest = rows;
    let mut kept: Vec<(String, String)> = Vec::new();
    let ghost mut done: int = 0;
    assert(all.skip(0) =~= all);
    assert(views(kept@) + kept_secrets(all) =~= kept_secrets(all));
    while rest.len() > 0
        invariant
            0 <= done <= all.len(),
            all == views(rows@),
            views(rest@) == all.skip(done),
            views(kept@) + kept_secrets(all.skip(done)) == kept_secrets(all),
            secrets_error(all) == secrets_error(all.skip(done)),
        decreases rest@.len(),
    {
        let ghost now = all.skip(done);
        let ghost first = rest@[0];
        let ghost held = rest@;
        proof {
            assert(now.len() == rest@.len());
            assert(views(rest@)[0] == first@);
            assert(now[0] == first@);
        }
        let s = rest.remove(0);
        proof {
            assert forall|i: int| 0 <= i < rest@.len() implies views(rest@)[i]
                == #[trigger] now.drop_first()[i] by {
                assert(rest@[i] == held[i + 1]);
                assert(views(held)[i + 1] == now[i + 1]);
            }
            assert(views(rest@) =~= now.drop_first());
            assert(now.drop_first() =~= all.skip(done + 1));
        }
        if let Some(b) = s.plaintext {
            match text_from_utf8(b) {
                Ok(t) => {
                    let ghost was = views(kept@);
                    let ghost pv = (s.key_name@, t@);
                    kept.push((s.key_name, t));
                    proof {
                        assert(views(kept@) =~= was.push(pv));
                        let more = kept_secrets(now.drop_first());
                        assert(was + (seq![pv] + more) =~= was.push(pv) + more);
                    }
                },
                Err(m) => {
                    assert(views(kept@) + kept_secrets(now) =~= views(kept@));
                    return (
                        kept,
                        Some(
                            cat4(
                                "secret ",
                                s.key_name.as_str(),
                                " is not valid UTF-8: ",
                                m.as_str(),
                            ),
                        ),
                    );
                },
            }
        }
        proof {
            done = done + 1;
        }
    }
    assert(views(kept@) + kept_secrets(all.skip(done)) =~= views(kept@));
    (kept, None)
}

/// A spec as the database has it.
#[derive(Debug)]
pub struct SpecColumns {
    /// The tenant.
    pub tenant: String,
    /// The entity type.
    pub entity_type: String,
    /// The source.
    pub ioa_source: String,
    /// The model.
    pub csdl_xml: Option<String>,
    /// How its verification stands.
    pub verification_status: String,
    /// Whether it is verified: not zero.
    pub verified: i64,
    /// The levels that it passed.
    pub levels_passed: Option<i64>,
    /// The levels that there are.
    pub levels_total: Option<i64>,
    /// What its verification said.
    pub verification_result: Option<String>,
    /// When it was last changed.
    pub updated_at: String,
}

/// A stored spec.
#[derive(Debug)]
pub struct TursoSpecRow {
    /// The tenant.
    pub tenant: String,
    /// The entity type.
    pub entity_type: String,
    /// The source.
    pub ioa_source: String,
    /// The model.
    pub csdl_xml: Option<String>,
    /// How its verification stands.
    pub verification_status: String,
    /// Whether it is verified.
    pub verified: bool,
    /// The levels that it passed.
    pub levels_passed: Option<i32>,
    /// The levels that there are.
    pub levels_total: Option<i32>,
    /// What its verification said.
    pub verification_result: Option<String>,
    /// When it was last changed.
    pub updated_at: String,
}

/// `n`, wrapped round to 32 bits with sign.
pub open spec fn to_32(n: i64) -> i32 {
    let m = (n as int) % 0x1_0000_0000;
    if m < 0x8000_0000 {
        m as i32
    } else {
        (m - 0x1_0000_0000) as i32
    }
}

fn narrow(n: i64) -> (r: i32)
    ensures
        r == to_32(n),
{
    let wide: i128 = n as i128 + 0x1_0000_0000_0000_0000;
    let m: i128 = wide % 0x1_0000_0000;
    assert(m == (n as int) % 0x1_0000_0000);
    if m < 0x8000_0000 {
        m as i32
    } else {
        (m - 0x1_0000_0000) as i32
    }
}

/// The number, wrapped round, where there is one.
pub open spec fn opt_to_32(n: Option<i64>) -> Option<i32> {
    match n {
        Some(x) => Some(to_32(x)),
        None => None,
    }
}

fn narrow_opt(n: Option<i64>) -> (r: Option<i32>)
    ensures
        r == opt_to_32(n),
{
    match n {
        Some(x) => Some(narrow(x)),
        None => None,
    }
}

/// A stored spec, by its columns.
pub fn read_spec_row(c: SpecColumns) -> (r: TursoSpecRow)
    ensures
        r.tenant == c.tenant,
        r.entity_type == c.entity_type,
        r.ioa_source == c.ioa_source,
        r.csdl_xml == c.csdl_xml,
        r.verification_status == c.verification_status,
        r.verified == (c.verified != 0),
        r.levels_passed == opt_to_32(c.levels_passed),
        r.levels_total == opt_to_32(c.levels_total),
        r.verification_result == c.verification_result,
        r.updated_at == c.updated_at,
{
    TursoSpecRow {
        tenant: c.tenant,
        entity_type: c.entity_type,
        ioa_source: c.ioa_source,
        csdl_xml: c.csdl_xml,
        verification_status: c.verification_status,
        verified: c.verified != 0,
        levels_passed: narrow_opt(c.levels_passed),
        levels_total: narrow_opt(c.levels_total),
        verification_result: c.verification_result,
        updated_at: c.updated_at,
    }
}

} // verus!
