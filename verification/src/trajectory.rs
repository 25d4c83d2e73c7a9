//! Trajectory entries: one record of one attempted action, and the names,
//! titles and keys derived from it.
use vstd::prelude::*;

use crate::json::Json;
use crate::json::JsonView;
use crate::order::opt_view;
use crate::order::views;
use crate::text::alphanumeric;
use crate::text::blank;
use crate::text::cat2;
use crate::text::cat3;
use crate::text::cat4;
use crate::text::contains;
use crate::text::copy_opt;
use crate::text::has;
use crate::text::is_alphanumeric;
use crate::text::is_blank;
use crate::text::join;
use crate::text::joined;
use crate::text::lower;
use crate::text::lower_char;
use crate::text::lower_text;
use crate::text::lowered;
use crate::text::same;
use crate::text::split_words;
use crate::text::starts;
use crate::text::starts_with;
use crate::text::strip_prefix;
use crate::text::trim;
use crate::text::trimmed;
use crate::text::upper;
use crate::text::upper_char;
use crate::text::words;

verus! {

/// Where a trajectory entry was recorded.
#[derive(Clone, Copy, Debug, PartialEq, Eq, Structural)]
pub enum TrajectorySource {
    /// By an entity that handled the action.
    Entity,
    /// By the platform itself.
    Platform,
    /// By the authorization layer.
    Authz,
}

/// One attempted action and its outcome.
pub struct TrajectoryEntry {
    /// When it happened.
    pub timestamp: String,
    /// The tenant it happened in.
    pub tenant: String,
    /// The type of the entity.
    pub entity_type: String,
    /// The entity.
    pub entity_id: String,
    /// The action that was attempted.
    pub action: String,
    /// Whether it succeeded.
    pub success: bool,
    /// The status before the action.
    pub from_status: Option<String>,
    /// The status after the action.
    pub to_status: Option<String>,
    /// What went wrong.
    pub error: Option<String>,
    /// The agent that attempted it.
    pub agent_id: Option<String>,
    /// The session it was attempted in.
    pub session_id: Option<String>,
    /// Whether authorization refused it.
    pub authz_denied: Option<bool>,
    /// The resource that was refused.
    pub denied_resource: Option<String>,
    /// The module that was refused.
    pub denied_module: Option<String>,
    /// Where it was recorded.
    pub source: Option<TrajectorySource>,
    /// Whether a spec governs the action.
    pub spec_governed: Option<bool>,
    /// The kind of agent.
    pub agent_type: Option<String>,
    /// The body of the request.
    pub request_body: Option<Json>,
    /// What the caller said they wanted.
    pub intent: Option<String>,
}

/// What a trajectory entry says.
pub struct EntryView {
    /// When it happened.
    pub timestamp: Seq<char>,
    /// The tenant it happened in.
    pub tenant: Seq<char>,
    /// The type of the entity.
    pub entity_type: Seq<char>,
    /// The entity.
    pub entity_id: Seq<char>,
    /// The action that was attempted.
    pub action: Seq<char>,
    /// Whether it succeeded.
    pub success: bool,
    /// The status before the action.
    pub from_status: Option<Seq<char>>,
    /// The status after the action.
    pub to_status: Option<Seq<char>>,
    /// What went wrong.
    pub error: Option<Seq<char>>,
    /// The agent that attempted it.
    pub agent_id: Option<Seq<char>>,
    /// The session it was attempted in.
    pub session_id: Option<Seq<char>>,
    /// Whether authorization refused it.
    pub authz_denied: Option<bool>,
    /// The resource that was refused.
    pub denied_resource: Option<Seq<char>>,
    /// The module that was refused.
    pub denied_module: Option<Seq<char>>,
    /// Where it was recorded.
    pub source: Option<TrajectorySource>,
    /// Whether a spec governs the action.
    pub spec_governed: Option<bool>,
    /// The kind of agent.
    pub agent_type: Option<Seq<char>>,
    /// The body of the request.
    pub request_body: Option<JsonView>,
    /// What the caller said they wanted.
    pub intent: Option<Seq<char>>,
}

impl View for TrajectoryEntry {
    type V = EntryView;

    open spec fn view(&self) -> EntryView {
        EntryView {
            timestamp: self.timestamp@,
            tenant: self.tenant@,
            entity_type: self.entity_type@,
            entity_id: self.entity_id@,
            action: self.action@,
            success: self.success,
            from_status: opt_view(self.from_status),
            to_status: opt_view(self.to_status),
            error: opt_view(self.error),
            agent_id: opt_view(self.agent_id),
            session_id: opt_view(self.session_id),
            authz_denied: self.authz_denied,
            denied_resource: opt_view(self.denied_resource),
            denied_module: opt_view(self.denied_module),
            source: self.source,
            spec_governed: self.spec_governed,
            agent_type: opt_view(self.agent_type),
            request_body: opt_view(self.request_body),
            intent: opt_view(self.intent),
        }
    }
}

/// The text, if it holds more than white space.
pub open spec fn stated(t: Option<Seq<char>>) -> Option<Seq<char>> {
    match t {
        Some(x) => if blank(x) {
            None
        } else {
            Some(x)
        },
        None => None,
    }
}

/// The text, if it holds more than white space.
pub fn stated_text(t: &Option<String>) -> (r: Option<&String>)
    ensures
        match r {
            Some(x) => stated(opt_view(*t)) == Some(x@),
            None => stated(opt_view(*t)) is None,
        },
{
    match t {
        Some(x) => if is_blank(x.as_str()) {
            None
        } else {
            Some(x)
        },
        None => None,
    }
}

/// The error says that an entity set does not exist.
pub open spec fn names_missing_set(error: Seq<char>) -> bool {
    has(error, "EntitySetNotFound"@) || has(error, "entity set not found"@)
}

/// The name of the pattern that an error falls under. The first pattern that
/// applies decides.
pub open spec fn error_pattern(error: Option<Seq<char>>) -> Seq<char> {
    match error {
        Some(e) => if names_missing_set(e) {
            "EntitySetNotFound"@
        } else if has(e, "Authorization denied"@) || has(e, "authorization denied"@) {
            "AuthzDenied"@
        } else if has(e, "ActionNotFound"@) || has(e, "unknown action"@) {
            "ActionNotFound"@
        } else if has(e, "guard"@) {
            "GuardRejected"@
        } else {
            "Other"@
        },
        None => "Unknown"@,
    }
}

/// Whether the error says that an entity set does not exist.
pub fn is_missing_set(error: &str) -> (r: bool)
    ensures
        r == names_missing_set(error@),
{
    contains(error, "EntitySetNotFound") || contains(error, "entity set not found")
}

/// The name of the pattern that an error falls under.
pub fn categorize_error(error: Option<&str>) -> (r: String)
    ensures
        r@ == error_pattern(
            match error {
                Some(e) => Some(e@),
                None => None,
            },
        ),
{
    match error {
        Some(e) => if is_missing_set(e) {
            "EntitySetNotFound".to_string()
        } else if contains(e, "Authorization denied") || contains(e, "authorization denied") {
            "AuthzDenied".to_string()
        } else if contains(e, "ActionNotFound") || contains(e, "unknown action") {
            "ActionNotFound".to_string()
        } else if contains(e, "guard") {
            "GuardRejected".to_string()
        } else {
            "Other".to_string()
        },
        None => "Unknown".to_string(),
    }
}

/// The text of an optional string.
pub fn opt_str(o: &Option<String>) -> (r: Option<&str>)
    ensures
        match r {
            Some(x) => opt_view(*o) == Some(x@),
            None => o is None,
        },
{
    match o {
        Some(s) => Some(s.as_str()),
        None => None,
    }
}

/// The name of the pattern of an optional error.
pub fn pattern_of(error: &Option<String>) -> (r: String)
    ensures
        r@ == error_pattern(opt_view(*error)),
{
    categorize_error(opt_str(error))
}

/// Letters in ASCII lower case and digits stay; everything else becomes a
/// hyphen.
pub open spec fn key_char(c: char) -> char {
    if alphanumeric(lower(c)) {
        lower(c)
    } else {
        '-'
    }
}

/// The form in which a text serves as a key: without white space at its ends,
/// in ASCII lower case, with a hyphen for all but letters and digits.
pub open spec fn key_form(s: Seq<char>) -> Seq<char> {
    let t = trimmed(s);
    Seq::new(t.len(), |i: int| key_char(t[i]))
}

/// The form in which a text serves as a key.
pub fn normalize_for_key(value: &str) -> (r: String)
    ensures
        r@ == key_form(value@),
{
    let t = trim(value);
    let v = crate::text::chars_of(t.as_str());
    let mut out = String::new();
    let mut i: usize = 0;
    assert(out@ =~= Seq::empty());
    while i < v.len()
        invariant
            i <= v@.len(),
            v@ == trimmed(value@),
            out@.len() == i,
            forall|j: int| 0 <= j < i ==> out@[j] == #[trigger] key_char(v@[j]),
        decreases v@.len() - i,
    {
        let c = lower_char(v[i]);
        let ghost was = out@;
        out.push(
            if is_alphanumeric(c) {
                c
            } else {
                '-'
            },
        );
        assert(out@ == was.push(key_char(v@[i as int])));
        i = i + 1;
    }
    assert(out@ =~= key_form(value@));
    out
}

/// An ASCII capital letter.
pub open spec fn is_capital(c: char) -> bool {
    'A' <= c && c <= 'Z'
}

/// An ASCII small letter.
pub open spec fn is_small(c: char) -> bool {
    'a' <= c && c <= 'z'
}

/// An identifier taken apart: underscores and hyphens become spaces, a space is
/// put before a capital that follows a small letter, and letters become small.
pub open spec fn spaced(s: Seq<char>) -> Seq<char>
    decreases s.len(),
{
    if s.len() == 0 {
        Seq::empty()
    } else {
        let c = s.last();
        let rest = spaced(s.drop_last());
        if c == '_' || c == '-' {
            rest.push(' ')
        } else if is_capital(c) && s.len() > 1 && is_small(s[s.len() - 2]) {
            rest.push(' ').push(lower(c))
        } else {
            rest.push(lower(c))
        }
    }
}

/// The words of an identifier, in small letters, with one space between them.
pub open spec fn humanized(s: Seq<char>) -> Seq<char> {
    joined(words(spaced(s)), " "@)
}

/// The words of an identifier, in small letters, with one space between them.
pub fn humanize_identifier(value: &str) -> (r: String)
    ensures
        r@ == humanized(value@),
{
    let v = crate::text::chars_of(value);
    let mut out = String::new();
    let mut i: usize = 0;
    let mut after_small = false;
    assert(out@ =~= spaced(v@.take(0)));
    while i < v.len()
        invariant
            i <= v@.len(),
            v@ == value@,
            out@ == spaced(v@.take(i as int)),
            after_small == (i > 0 && is_small(v@[i - 1])),
        decreases v@.len() - i,
    {
        proof {
            crate::order::lemma_take_step(v@, i as int);
        }
        let c = v[i];
        if c == '_' || c == '-' {
            out.push(' ');
        } else {
            if 'A' <= c && c <= 'Z' && after_small {
                out.push(' ');
            }
            out.push(lower_char(c));
        }
        after_small = 'a' <= c && c <= 'z';
        i = i + 1;
    }
    assert(v@.take(i as int) =~= v@);
    let parts = split_words(out.as_str());
    join(&parts, " ")
}

/// The words of an identifier in small letters.
pub open spec fn plain_name(s: Seq<char>) -> Seq<char> {
    lowered(humanized(s))
}

/// The words of an identifier in small letters.
pub fn plain_identifier(value: &str) -> (r: String)
    ensures
        r@ == plain_name(value@),
{
    let h = humanize_identifier(value);
    lower_text(h.as_str())
}

/// A word with its first letter in upper case and the rest in lower case.
pub open spec fn capitalized(w: Seq<char>) -> Seq<char> {
    if w.len() == 0 {
        w
    } else {
        seq![upper(w[0])] + lowered(w.skip(1))
    }
}

/// The words of a text, each capitalized, with one space between them.
pub open spec fn titled(s: Seq<char>) -> Seq<char> {
    joined(Seq::new(words(s).len(), |i: int| capitalized(words(s)[i])), " "@)
}

fn capitalize(w: &str) -> (r: String)
    ensures
        r@ == capitalized(w@),
{
    let v = crate::text::chars_of(w);
    if v.len() == 0 {
        return w.to_string();
    }
    let mut out = String::new();
    assert(out@ =~= Seq::empty());
    out.push(upper_char(v[0]));
    let rest = crate::text::text_of(&v, 1, v.len());
    let rest = lower_text(rest.as_str());
    assert(w@.subrange(1, w@.len() as int) =~= w@.skip(1));
    assert(out@ =~= seq![upper(w@[0])]);
    cat2(out.as_str(), rest.as_str())
}

/// The words of a text, each capitalized, with one space between them.
pub fn title_case(value: &str) -> (r: String)
    ensures
        r@ == titled(value@),
{
    let parts = split_words(value);
    let mut out: Vec<String> = Vec::new();
    let mut i: usize = 0;
    while i < parts.len()
        invariant
            i <= parts@.len(),
            views(parts@) == words(value@),
            out@.len() == i,
            forall|j: int| 0 <= j < i ==> (#[trigger] out@[j])@ == capitalized(words(value@)[j]),
        decreases parts@.len() - i,
    {
        assert(words(value@)[i as int] == parts@[i as int]@);
        out.push(capitalize(parts[i].as_str()));
        i = i + 1;
    }
    assert(views(out@) =~= Seq::new(words(value@).len(), |i: int| capitalized(words(value@)[i])));
    join(&out, " ")
}

/// What follows `MoveTo` or `moveTo` at the start of an action.
pub open spec fn move_target(action: Seq<char>) -> Option<Seq<char>> {
    if starts(action, "MoveTo"@) {
        Some(action.skip("MoveTo"@.len() as int))
    } else if starts(action, "moveTo"@) {
        Some(action.skip("moveTo"@.len() as int))
    } else {
        None
    }
}

fn target_of(action: &str) -> (r: Option<String>)
    ensures
        opt_view(r) == move_target(action@),
{
    match strip_prefix(action, "MoveTo") {
        Some(t) => Some(t),
        None => strip_prefix(action, "moveTo"),
    }
}

/// What an action on an entity type is meant to do, as a sentence.
pub open spec fn intent_statement(entity_type: Seq<char>, action: Seq<char>) -> Seq<char> {
    let entity = plain_name(entity_type);
    if starts(lowered(action), "generate"@) {
        "Generate "@ + entity
    } else if starts(lowered(action), "create"@) {
        "Create "@ + entity
    } else if let Some(target) = move_target(action) {
        "Move "@ + entity + " to "@ + plain_name(target)
    } else {
        humanized(action) + " "@ + entity
    }
}

/// What an action on an entity type is meant to do, as a sentence.
pub fn derive_intent_statement(entity_type: &str, action: &str) -> (r: String)
    ensures
        r@ == intent_statement(entity_type@, action@),
{
    let small = lower_text(action);
    let entity = plain_identifier(entity_type);
    if starts_with(small.as_str(), "generate") {
        return cat2("Generate ", entity.as_str());
    }
    if starts_with(small.as_str(), "create") {
        return cat2("Create ", entity.as_str());
    }
    if let Some(target) = target_of(action) {
        let to = plain_identifier(target.as_str());
        return cat4("Move ", entity.as_str(), " to ", to.as_str());
    }
    let verb = humanize_identifier(action);
    cat3(verb.as_str(), " ", entity.as_str())
}

/// The title of an intent: what the caller said, or what would enable the
/// action.
pub open spec fn intent_title(
    intent: Option<Seq<char>>,
    entity_type: Seq<char>,
    action: Seq<char>,
) -> Seq<char> {
    let entity = plain_name(entity_type);
    if let Some(said) = stated(intent) {
        titled(said)
    } else if starts(lowered(action), "generate"@) {
        "Enable "@ + entity + " generation"@
    } else if starts(lowered(action), "create"@) {
        "Enable "@ + entity + " creation"@
    } else if let Some(target) = move_target(action) {
        "Allow "@ + entity + " to reach "@ + plain_name(target)
    } else {
        "Enable "@ + entity + " "@ + plain_name(action) + " workflow"@
    }
}

/// The title of an intent.
pub fn derive_intent_title(
    sample_intent: &Option<String>,
    entity_type: &str,
    action: &str,
) -> (r: String)
    ensures
        r@ == intent_title(opt_view(*sample_intent), entity_type@, action@),
{
    if let Some(said) = stated_text(sample_intent) {
        return title_case(said.as_str());
    }
    let small = lower_text(action);
    let entity = plain_identifier(entity_type);
    if starts_with(small.as_str(), "generate") {
        return cat3("Enable ", entity.as_str(), " generation");
    }
    if starts_with(small.as_str(), "create") {
        return cat3("Enable ", entity.as_str(), " creation");
    }
    if let Some(target) = target_of(action) {
        let to = plain_identifier(target.as_str());
        return cat4("Allow ", entity.as_str(), " to reach ", to.as_str());
    }
    let verb = plain_identifier(action);
    crate::text::cat5("Enable ", entity.as_str(), " ", verb.as_str(), " workflow")
}

/// The title of the issue for an intent: its title, else what the caller said,
/// else what the action is meant to do.
pub open spec fn issue_title(
    title: Seq<char>,
    intent: Option<Seq<char>>,
    entity_type: Seq<char>,
    action: Seq<char>,
) -> Seq<char> {
    if !blank(title) {
        titled(title)
    } else if let Some(said) = stated(intent) {
        titled(said)
    } else {
        titled(intent_statement(entity_type, action))
    }
}

/// The title of the issue for an intent.
pub fn derive_issue_title(
    intent_title: &str,
    sample_intent: &Option<String>,
    entity_type: &str,
    action: &str,
) -> (r: String)
    ensures
        r@ == issue_title(intent_title@, opt_view(*sample_intent), entity_type@, action@),
{
    if !is_blank(intent_title) {
        return title_case(intent_title);
    }
    if let Some(said) = stated_text(sample_intent) {
        return title_case(said.as_str());
    }
    let statement = derive_intent_statement(entity_type, action);
    title_case(statement.as_str())
}

/// What an entry shows from outside, as a title.
pub open spec fn symptom_title(e: EntryView) -> Seq<char> {
    let entity = humanized(e.entity_type);
    let action = humanized(e.action);
    if e.success {
        entity + " succeeded via "@ + action
    } else if error_pattern(e.error) == "AuthzDenied"@ {
        entity + " is denied while attempting "@ + action
    } else if error_pattern(e.error) == "EntitySetNotFound"@ {
        entity + " is missing for "@ + action
    } else {
        entity + " fails during "@ + action
    }
}

/// What an entry shows from outside, as a title.
pub fn derive_symptom_title(entry: &TrajectoryEntry) -> (r: String)
    ensures
        r@ == symptom_title(entry@),
{
    let entity = humanize_identifier(entry.entity_type.as_str());
    let action = humanize_identifier(entry.action.as_str());
    if entry.success {
        return cat3(entity.as_str(), " succeeded via ", action.as_str());
    }
    let pattern = pattern_of(&entry.error);
    if same(pattern.as_str(), "AuthzDenied") {
        cat3(entity.as_str(), " is denied while attempting ", action.as_str())
    } else if same(pattern.as_str(), "EntitySetNotFound") {
        cat3(entity.as_str(), " is missing for ", action.as_str())
    } else {
        cat3(entity.as_str(), " fails during ", action.as_str())
    }
}

/// The first of the two that is given.
pub open spec fn either(a: Option<Seq<char>>, b: Option<Seq<char>>) -> Option<Seq<char>> {
    if a is Some {
        a
    } else {
        b
    }
}

/// What a request body says it is for: the first of its fields `intent`,
/// `goal`, `objective`, `Title` and `title` that is a string and not blank.
pub open spec fn body_intent(body: JsonView) -> Option<Seq<char>> {
    either(
        stated(body.text_field("intent"@)),
        either(
            stated(body.text_field("goal"@)),
            either(
                stated(body.text_field("objective"@)),
                either(stated(body.text_field("Title"@)), stated(body.text_field("title"@))),
            ),
        ),
    )
}

fn stated_field(body: &Json, key: &str) -> (r: Option<String>)
    ensures
        opt_view(r) == stated(body@.text_field(key@)),
{
    match body.text_field(key) {
        Some(t) => if is_blank(t.as_str()) {
            None
        } else {
            Some(t)
        },
        None => None,
    }
}

fn intent_of_body(body: &Json) -> (r: Option<String>)
    ensures
        opt_view(r) == body_intent(body@),
{
    if let Some(t) = stated_field(body, "intent") {
        return Some(t);
    }
    if let Some(t) = stated_field(body, "goal") {
        return Some(t);
    }
    if let Some(t) = stated_field(body, "objective") {
        return Some(t);
    }
    if let Some(t) = stated_field(body, "Title") {
        return Some(t);
    }
    stated_field(body, "title")
}

/// What the request body of an entry says it is for.
pub open spec fn requested(e: EntryView) -> Option<Seq<char>> {
    match e.request_body {
        Some(b) => body_intent(b),
        None => None,
    }
}

/// The key of the intent behind an entry: what the caller said, else what the
/// request body says, else what the action is meant to do.
pub open spec fn intent_key(e: EntryView) -> Seq<char> {
    if let Some(said) = stated(e.intent) {
        key_form(said)
    } else if let Some(said) = requested(e) {
        key_form(said)
    } else {
        key_form(intent_statement(e.entity_type, e.action))
    }
}

/// The key of the intent behind an entry.
pub fn derive_intent_key(entry: &TrajectoryEntry) -> (r: String)
    ensures
        r@ == intent_key(entry@),
{
    if let Some(said) = stated_text(&entry.intent) {
        return normalize_for_key(said.as_str());
    }
    if let Some(body) = &entry.request_body {
        if let Some(said) = intent_of_body(body) {
            return normalize_for_key(said.as_str());
        }
    }
    let statement = derive_intent_statement(entry.entity_type.as_str(), entry.action.as_str());
    normalize_for_key(statement.as_str())
}

/// Who acts in an entry: its session, else its agent, else nobody known.
pub open spec fn actor(e: EntryView) -> Seq<char> {
    match either(stated(e.session_id), stated(e.agent_id)) {
        Some(a) => a,
        None => "anonymous"@,
    }
}

/// The key of an actor at work on an intent.
pub open spec fn actor_key(e: EntryView) -> Seq<char> {
    actor(e) + "::"@ + intent_key(e)
}

/// The key of an actor at work on an intent.
pub fn actor_intent_key(entry: &TrajectoryEntry) -> (r: String)
    ensures
        r@ == actor_key(entry@),
{
    let key = derive_intent_key(entry);
    if let Some(a) = stated_text(&entry.session_id) {
        return cat3(a.as_str(), "::", key.as_str());
    }
    if let Some(a) = stated_text(&entry.agent_id) {
        return cat3(a.as_str(), "::", key.as_str());
    }
    cat3("anonymous", "::", key.as_str())
}

/// The statement of the intent behind an entry.
pub open spec fn statement(e: EntryView) -> Seq<char> {
    match stated(e.intent) {
        Some(said) => trimmed(said),
        None => intent_statement(e.entity_type, e.action),
    }
}

/// The statement of the intent behind an entry.
pub fn derive_statement(entry: &TrajectoryEntry) -> (r: String)
    ensures
        r@ == statement(entry@),
{
    match stated_text(&entry.intent) {
        Some(said) => trim(said.as_str()),
        None => derive_intent_statement(entry.entity_type.as_str(), entry.action.as_str()),
    }
}

/// One entry, in short.
pub struct TrajectorySample {
    /// When it happened.
    pub timestamp: String,
    /// The type of the entity.
    pub entity_type: String,
    /// The action that was attempted.
    pub action: String,
    /// Whether it succeeded.
    pub success: bool,
    /// The pattern of its error, where it failed.
    pub error_pattern: Option<String>,
    /// What went wrong.
    pub error: Option<String>,
    /// What the caller said they wanted.
    pub intent: Option<String>,
    /// The agent that attempted it.
    pub agent_id: Option<String>,
    /// The session it was attempted in.
    pub session_id: Option<String>,
}

/// What a sample says.
pub struct SampleView {
    /// When it happened.
    pub timestamp: Seq<char>,
    /// The type of the entity.
    pub entity_type: Seq<char>,
    /// The action that was attempted.
    pub action: Seq<char>,
    /// Whether it succeeded.
    pub success: bool,
    /// The pattern of its error, where it failed.
    pub error_pattern: Option<Seq<char>>,
    /// What went wrong.
    pub error: Option<Seq<char>>,
    /// What the caller said they wanted.
    pub intent: Option<Seq<char>>,
    /// The agent that attempted it.
    pub agent_id: Option<Seq<char>>,
    /// The session it was attempted in.
    pub session_id: Option<Seq<char>>,
}

impl View for TrajectorySample {
    type V = SampleView;

    open spec fn view(&self) -> SampleView {
        SampleView {
            timestamp: self.timestamp@,
            entity_type: self.entity_type@,
            action: self.action@,
            success: self.success,
            error_pattern: opt_view(self.error_pattern),
            error: opt_view(self.error),
            intent: opt_view(self.intent),
            agent_id: opt_view(self.agent_id),
            session_id: opt_view(self.session_id),
        }
    }
}

/// An entry, in short.
pub open spec fn sample(e: EntryView) -> SampleView {
    SampleView {
        timestamp: e.timestamp,
        entity_type: e.entity_type,
        action: e.action,
        success: e.success,
        error_pattern: if e.success {
            None
        } else {
            Some(error_pattern(e.error))
        },
        error: e.error,
        intent: e.intent,
        agent_id: e.agent_id,
        session_id: e.session_id,
    }
}

/// An entry, in short.
pub fn sample_from_entry(entry: &TrajectoryEntry) -> (r: TrajectorySample)
    ensures
        r@ == sample(entry@),
{
    TrajectorySample {
        timestamp: entry.timestamp.clone(),
        entity_type: entry.entity_type.clone(),
        action: entry.action.clone(),
        success: entry.success,
        error_pattern: if entry.success {
            None
        } else {
            Some(pattern_of(&entry.error))
        },
        error: copy_opt(&entry.error),
        intent: copy_opt(&entry.intent),
        agent_id: copy_opt(&entry.agent_id),
        session_id: copy_opt(&entry.session_id),
    }
}

/// A hint for a query on the platform's telemetry. A workaround asks for
/// alternate paths to success, a governance gap for clusters of failures; blank
/// restrictions are left out.
pub open spec fn query_hint(
    kind: Seq<char>,
    entity_type: Option<Seq<char>>,
    action: Option<Seq<char>>,
    intent: Option<Seq<char>>,
) -> JsonView {
    let asked = if kind == "workaround"@ {
        "alternate_success_paths"@
    } else if kind == "governance_gap"@ {
        "intent_failure_cluster"@
    } else {
        kind
    };
    let base = crate::json::empty_object().with("tool"@, JsonView::Text("logfire_query"@)).with(
        "query_kind"@,
        JsonView::Text(asked),
    ).with("service_name"@, JsonView::Text("temper-platform"@)).with(
        "environment"@,
        JsonView::Text("local"@),
    ).with("limit"@, JsonView::Unsigned(25)).with("lookback_minutes"@, JsonView::Unsigned(240));
    let base = match stated(entity_type) {
        Some(t) => base.with("entity_type"@, JsonView::Text(t)),
        None => base,
    };
    let base = match stated(action) {
        Some(t) => base.with("action"@, JsonView::Text(t)),
        None => base,
    };
    match stated(intent) {
        Some(t) => base.with("intent_text"@, JsonView::Text(t)),
        None => base,
    }
}

/// A hint for a query on the platform's telemetry.
pub fn build_logfire_query_hint(
    query_kind: &str,
    entity_type: &Option<String>,
    action: &Option<String>,
    intent_text: &Option<String>,
) -> (r: Json)
    ensures
        r@ == query_hint(
            query_kind@,
            opt_view(*entity_type),
            opt_view(*action),
            opt_view(*intent_text),
        ),
        r@.wf(),
{
    let asked: &str = if same(query_kind, "workaround") {
        "alternate_success_paths"
    } else if same(query_kind, "governance_gap") {
        "intent_failure_cluster"
    } else {
        query_kind
    };
    let mut hint = Json::object().set("tool", Json::of_text("logfire_query")).set(
        "query_kind",
        Json::of_text(asked),
    ).set("service_name", Json::of_text("temper-platform")).set(
        "environment",
        Json::of_text("local"),
    ).set("limit", Json::Unsigned(25)).set("lookback_minutes", Json::Unsigned(240));
    if let Some(t) = stated_text(entity_type) {
        hint = hint.set("entity_type", Json::of_text(t.as_str()));
    }
    if let Some(t) = stated_text(action) {
        hint = hint.set("action", Json::of_text(t.as_str()));
    }
    if let Some(t) = stated_text(intent_text) {
        hint = hint.set("intent_text", Json::of_text(t.as_str()));
    }
    hint
}

} // verus!
