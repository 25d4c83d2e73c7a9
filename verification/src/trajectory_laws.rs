//! What entries of a trajectory are called, and what they are taken to be for.
use vstd::prelude::*;

use crate::intent_laws::tells_denial;
use crate::intent_laws::tells_missing_set;
use crate::json::lemma_with_keeps;
use crate::json::lemma_with_reads;
use crate::json::JsonView;
use crate::text::blank;
use crate::text::joined;
use crate::text::lower;
use crate::text::lowered;
use crate::text::starts;
use crate::text::trimmed;
use crate::text::upper;
use crate::text::words;
use crate::tool_laws::gives;
use crate::tool_laws::text_in;
use crate::trajectory::actor;
use crate::trajectory::actor_key;
use crate::trajectory::humanized;
use crate::trajectory::intent_key;
use crate::trajectory::intent_statement;
use crate::trajectory::intent_title;
use crate::trajectory::issue_title;
use crate::trajectory::key_form;
use crate::trajectory::plain_name;
use crate::trajectory::query_hint;
use crate::trajectory::spaced;
use crate::trajectory::statement;
use crate::trajectory::symptom_title;
use crate::trajectory::titled;
use crate::trajectory::EntryView;

verus! {

/// The text is given and says something.
pub open spec fn is_said(t: Option<Seq<char>>) -> bool {
    t is Some && !blank(t->0)
}

/// What the caller says an entry is for counts before all else: it makes the
/// title, the statement and the key of the intent.
pub proof fn lemma_what_is_said_counts(e: EntryView)
    requires
        is_said(e.intent),
    ensures
        intent_title(e.intent, e.entity_type, e.action) == titled(e.intent->0),
        statement(e) == trimmed(e.intent->0),
        intent_key(e) == key_form(e.intent->0),
{
}

/// What an action is taken to be for where nothing is said: to generate or to
/// create what it names, to move it to where it says, or else just what it is
/// called.
pub proof fn lemma_actions_speak(e: EntryView, target: Seq<char>)
    requires
        !is_said(e.intent),
    ensures
        ({
            let entity = plain_name(e.entity_type);
            let generates = starts(lowered(e.action), "generate"@);
            let creates = !generates && starts(lowered(e.action), "create"@);
            let moves = !generates && !creates && (e.action == "MoveTo"@ + target || e.action
                == "moveTo"@ + target);
            let title = intent_title(e.intent, e.entity_type, e.action);
            &&& statement(e) == intent_statement(e.entity_type, e.action)
            &&& generates ==> title == "Enable "@ + entity + " generation"@ && statement(e)
                == "Generate "@ + entity
            &&& creates ==> title == "Enable "@ + entity + " creation"@ && statement(e)
                == "Create "@ + entity
            &&& moves ==> title == "Allow "@ + entity + " to reach "@ + plain_name(target)
                && statement(e) == "Move "@ + entity + " to "@ + plain_name(target)
            &&& !generates && !creates && !starts(e.action, "MoveTo"@) && !starts(
                e.action,
                "moveTo"@,
            ) ==> title == "Enable "@ + entity + " "@ + plain_name(e.action) + " workflow"@
                && statement(e) == humanized(e.action) + " "@ + entity
        }),
{
    reveal_strlit("MoveTo");
    reveal_strlit("moveTo");
    assert("MoveTo"@.len() == 6);
    assert("moveTo"@.len() == 6);
    assert("MoveTo"@[0] == 'M');
    assert("moveTo"@[0] == 'm');
    let a = "MoveTo"@ + target;
    let b = "moveTo"@ + target;
    assert(a.subrange(0, 6) =~= "MoveTo"@);
    assert(b.subrange(0, 6) =~= "moveTo"@);
    assert(a.skip(6) =~= target);
    assert(b.skip(6) =~= target);
}

/// The first of the places where a request body may say what it is for.
pub open spec fn body_says(body: JsonView, t: Seq<char>) -> bool {
    let a = text_in(body, "intent"@);
    let b = text_in(body, "goal"@);
    let c = text_in(body, "objective"@);
    let d = text_in(body, "Title"@);
    let e = text_in(body, "title"@);
    &&& !blank(t)
    &&& t == if !blank(a) {
        a
    } else if !blank(b) {
        b
    } else if !blank(c) {
        c
    } else if !blank(d) {
        d
    } else {
        e
    }
}

/// Where the caller says nothing, what the request body says it is for makes the
/// key of the intent; where that says nothing either, what the action is for does.
pub proof fn lemma_bodies_speak(e: EntryView, t: Seq<char>)
    requires
        !is_said(e.intent),
    ensures
        e.request_body is Some && body_says(e.request_body->0, t) ==> intent_key(e) == key_form(t),
        e.request_body is None ==> intent_key(e) == key_form(
            intent_statement(e.entity_type, e.action),
        ),
        e.request_body is Some && (forall|x: Seq<char>| !(#[trigger] body_says(
            e.request_body->0,
            x,
        ))) ==> intent_key(e) == key_form(intent_statement(e.entity_type, e.action)),
{
    lemma_empty_is_blank();
    if e.request_body is Some {
        let body = e.request_body->0;
        let a = text_in(body, "intent"@);
        let b = text_in(body, "goal"@);
        let c = text_in(body, "objective"@);
        let d = text_in(body, "Title"@);
        let f = text_in(body, "title"@);
        if !(forall|x: Seq<char>| !(#[trigger] body_says(body, x))) {
        } else {
            assert(!body_says(body, a));
            assert(!body_says(body, b));
            assert(!body_says(body, c));
            assert(!body_says(body, d));
            assert(!body_says(body, f));
        }
    }
}

proof fn lemma_empty_is_blank()
    ensures
        blank(Seq::<char>::empty()),
{
    assert(trimmed(Seq::<char>::empty()).len() == 0);
}

/// Who acts is known by the session, else by the agent, else not at all; and is
/// told apart by what they are at work on.
pub proof fn lemma_actors(e: EntryView)
    ensures
        is_said(e.session_id) ==> actor(e) == e.session_id->0,
        !is_said(e.session_id) && is_said(e.agent_id) ==> actor(e) == e.agent_id->0,
        !is_said(e.session_id) && !is_said(e.agent_id) ==> actor(e) == "anonymous"@,
        actor_key(e) == actor(e) + "::"@ + intent_key(e),
{
}

/// What shows of an entry: that it succeeded, that it was denied, that something
/// is missing, or just that it failed.
pub proof fn lemma_symptoms(e: EntryView)
    ensures
        ({
            let entity = humanized(e.entity_type);
            let action = humanized(e.action);
            let refused = !e.success && e.error is Some && tells_denial(e.error->0);
            let missing = !e.success && e.error is Some && tells_missing_set(e.error->0);
            &&& e.success ==> symptom_title(e) == entity + " succeeded via "@ + action
            &&& refused ==> symptom_title(e) == entity + " is denied while attempting "@ + action
            &&& missing ==> symptom_title(e) == entity + " is missing for "@ + action
            &&& !e.success && !refused && !missing ==> symptom_title(e) == entity
                + " fails during "@ + action
        }),
{
    lemma_symptom_patterns();
}

proof fn lemma_symptom_patterns()
    ensures
        "EntitySetNotFound"@ != "AuthzDenied"@,
        "EntitySetNotFound"@ != "ActionNotFound"@,
        "EntitySetNotFound"@ != "GuardRejected"@,
        "EntitySetNotFound"@ != "Other"@,
        "EntitySetNotFound"@ != "Unknown"@,
        "AuthzDenied"@ != "ActionNotFound"@,
        "AuthzDenied"@ != "GuardRejected"@,
        "AuthzDenied"@ != "Other"@,
        "AuthzDenied"@ != "Unknown"@,
        "ActionNotFound"@ != "GuardRejected"@,
        "ActionNotFound"@ != "Other"@,
        "ActionNotFound"@ != "Unknown"@,
        "GuardRejected"@ != "Other"@,
        "GuardRejected"@ != "Unknown"@,
        "Other"@ != "Unknown"@,
{
    reveal_strlit("EntitySetNotFound");
    reveal_strlit("AuthzDenied");
    reveal_strlit("ActionNotFound");
    reveal_strlit("GuardRejected");
    reveal_strlit("Other");
    reveal_strlit("Unknown");
    assert("EntitySetNotFound"@.len() == 17);
    assert("AuthzDenied"@.len() == 11);
    assert("ActionNotFound"@.len() == 14);
    assert("GuardRejected"@.len() == 13);
    assert("Other"@.len() == 5);
    assert("Unknown"@.len() == 7);
}

/// An issue is titled by the intent, else by what was said, else by what the
/// action is for.
pub proof fn lemma_issue_titles(title: Seq<char>, e: EntryView)
    ensures
        !blank(title) ==> issue_title(title, e.intent, e.entity_type, e.action) == titled(title),
        blank(title) && is_said(e.intent) ==> issue_title(
            title,
            e.intent,
            e.entity_type,
            e.action,
        ) == titled(e.intent->0),
        blank(title) && !is_said(e.intent) ==> issue_title(
            title,
            e.intent,
            e.entity_type,
            e.action,
        ) == titled(intent_statement(e.entity_type, e.action)),
{
}

/// An identifier is taken apart character by character: an underscore or a hyphen
/// becomes a space, a capital behind a small letter gets a space before it, and
/// capitals become small.
pub proof fn lemma_taken_apart(s: Seq<char>, c: char)
    ensures
        spaced(Seq::empty()) == Seq::<char>::empty(),
        c == '_' || c == '-' ==> spaced(s.push(c)) == spaced(s).push(' '),
        ('A' <= c && c <= 'Z') && s.len() > 0 && ('a' <= s.last() && s.last() <= 'z') ==> spaced(
            s.push(c),
        ) == spaced(s).push(' ').push(lower(c)),
        ('A' <= c && c <= 'Z') && !(s.len() > 0 && ('a' <= s.last() && s.last() <= 'z'))
            ==> spaced(s.push(c)) == spaced(s).push(lower(c)),
        !('A' <= c && c <= 'Z') && c != '_' && c != '-' ==> spaced(s.push(c)) == spaced(s).push(c),
{
    let t = s.push(c);
    assert(t.drop_last() =~= s);
    assert(t.last() == c);
    if s.len() > 0 {
        assert(t[t.len() - 2] == s.last());
    }
}

/// The words of an identifier are told with one space between them; those of a title
/// begin with a capital, and the rest of each is small.
pub proof fn lemma_words_are_told(s: Seq<char>, i: int)
    requires
        0 <= i < words(s).len(),
    ensures
        humanized(s) == joined(words(spaced(s)), " "@),
        plain_name(s) == lowered(humanized(s)),
        exists|w: Seq<Seq<char>>| #[trigger] joined(w, " "@) == titled(s) && w.len() == words(s).len()
            && w[i].len() == words(s)[i].len() && w[i][0] == upper(words(s)[i][0]) && forall|j: int|
            1 <= j < w[i].len() ==> #[trigger] w[i][j] == lower(words(s)[i][j]),
{
    let w = Seq::new(words(s).len(), |i: int| crate::trajectory::capitalized(words(s)[i]));
    assert(titled(s) == joined(w, " "@));
    crate::text_laws::lemma_words(s);
    let x = words(s)[i];
    assert(x.len() > 0);
    assert(w[i] == seq![upper(x[0])] + lowered(x.skip(1)));
    assert forall|j: int| 1 <= j < w[i].len() implies #[trigger] w[i][j] == lower(x[j]) by {
        assert(x.skip(1)[j - 1] == x[j]);
    }
}

/// A key is as long as the text without the white space at its ends; letters and
/// digits of ASCII stand in it in lower case, and a hyphen stands for all else.
pub proof fn lemma_key_characters(s: Seq<char>, i: int)
    requires
        0 <= i < trimmed(s).len(),
    ensures
        key_form(s).len() == trimmed(s).len(),
        ({
            let c = trimmed(s)[i];
            let k = key_form(s)[i];
            &&& ('a' <= c && c <= 'z') || ('0' <= c && c <= '9') ==> k == c
            &&& ('A' <= c && c <= 'Z') ==> k as u32 == c as u32 + 32
            &&& !(('a' <= c && c <= 'z') || ('0' <= c && c <= '9') || ('A' <= c && c <= 'Z')) ==> k
                == '-'
        }),
{
    let c = trimmed(s)[i];
    if 'A' <= c && c <= 'Z' {
        let n = (c as u32 + 32) as u32;
        assert(97 <= n <= 122);
        assert((n as char) as u32 == n);
    }
}

proof fn lemma_hint_keys()
    ensures
        "tool"@ != "query_kind"@,
        "tool"@ != "service_name"@,
        "tool"@ != "environment"@,
        "tool"@ != "limit"@,
        "tool"@ != "lookback_minutes"@,
        "tool"@ != "entity_type"@,
        "tool"@ != "action"@,
        "tool"@ != "intent_text"@,
        "query_kind"@ != "service_name"@,
        "query_kind"@ != "environment"@,
        "query_kind"@ != "limit"@,
        "query_kind"@ != "lookback_minutes"@,
        "query_kind"@ != "entity_type"@,
        "query_kind"@ != "action"@,
        "query_kind"@ != "intent_text"@,
        "service_name"@ != "environment"@,
        "service_name"@ != "limit"@,
        "service_name"@ != "lookback_minutes"@,
        "service_name"@ != "entity_type"@,
        "service_name"@ != "action"@,
        "service_name"@ != "intent_text"@,
        "environment"@ != "limit"@,
        "environment"@ != "lookback_minutes"@,
        "environment"@ != "entity_type"@,
        "environment"@ != "action"@,
        "environment"@ != "intent_text"@,
        "limit"@ != "lookback_minutes"@,
        "limit"@ != "entity_type"@,
        "limit"@ != "action"@,
        "limit"@ != "intent_text"@,
        "lookback_minutes"@ != "entity_type"@,
        "lookback_minutes"@ != "action"@,
        "lookback_minutes"@ != "intent_text"@,
        "entity_type"@ != "action"@,
        "entity_type"@ != "intent_text"@,
        "action"@ != "intent_text"@,
{
    reveal_strlit("tool");
    reveal_strlit("query_kind");
    reveal_strlit("service_name");
    reveal_strlit("environment");
    reveal_strlit("limit");
    reveal_strlit("lookback_minutes");
    reveal_strlit("entity_type");
    reveal_strlit("action");
    reveal_strlit("intent_text");
    assert("tool"@.len() == 4);
    assert("query_kind"@.len() == 10);
    assert("service_name"@.len() == 12);
    assert("environment"@.len() == 11);
    assert("limit"@.len() == 5);
    assert("lookback_minutes"@.len() == 16);
    assert("entity_type"@.len() == 11);
    assert("action"@.len() == 6);
    assert("intent_text"@.len() == 11);
    assert("environment"@[2] == 'v');
    assert("entity_type"@[2] == 't');
    assert("environment"@[0] == 'e');
    assert("intent_text"@[0] == 'i');
    assert("entity_type"@[0] == 'e');
}

proof fn lemma_hint_kinds()
    ensures
        "workaround"@ != "governance_gap"@,
{
    reveal_strlit("workaround");
    reveal_strlit("governance_gap");
    assert("workaround"@.len() == 10);
    assert("governance_gap"@.len() == 14);
}

/// A restriction of a query: the text, where it says something.
pub open spec fn restricts(v: Option<JsonView>, t: Option<Seq<char>>) -> bool {
    v == if is_said(t) {
        Some(JsonView::Text(t->0))
    } else {
        None
    }
}

/// A hint asks for what the kind of gap calls for, restricted to what is given, in
/// the last four hours.
pub proof fn lemma_hints(
    kind: Seq<char>,
    entity_type: Option<Seq<char>>,
    action: Option<Seq<char>>,
    intent: Option<Seq<char>>,
)
    ensures
        ({
            let h = query_hint(kind, entity_type, action, intent);
            &&& gives(h, "tool"@, "logfire_query"@)
            &&& kind == "workaround"@ ==> gives(h, "query_kind"@, "alternate_success_paths"@)
            &&& kind == "governance_gap"@ ==> gives(h, "query_kind"@, "intent_failure_cluster"@)
            &&& kind != "workaround"@ && kind != "governance_gap"@ ==> gives(
                h,
                "query_kind"@,
                kind,
            )
            &&& gives(h, "service_name"@, "temper-platform"@)
            &&& gives(h, "environment"@, "local"@)
            &&& h.field("limit"@) == Some(JsonView::Unsigned(25))
            &&& h.field("lookback_minutes"@) == Some(JsonView::Unsigned(240))
            &&& restricts(h.field("entity_type"@), entity_type)
            &&& restricts(h.field("action"@), action)
            &&& restricts(h.field("intent_text"@), intent)
        }),
{
    broadcast use {lemma_with_reads, lemma_with_keeps};

    lemma_hint_keys();
    lemma_hint_kinds();
    assert(crate::json::empty_object().field("entity_type"@) is None);
    assert(crate::json::empty_object().field("action"@) is None);
    assert(crate::json::empty_object().field("intent_text"@) is None);
}

} // verus!
