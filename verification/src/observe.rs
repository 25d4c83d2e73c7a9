//! What the observe endpoints decide and answer.
use vstd::prelude::*;

use crate::feature_requests::FeatureRequestDisposition;
use crate::feature_requests::FeatureRequestRecord;
use crate::feature_requests::PlatformGapCategory;
use crate::insights::InsightRecord;
use crate::json::empty_object;
use crate::json::text_list;
use crate::json::Json;
use crate::json::JsonView;
use crate::json_text::json_read;
use crate::json_text::parse;
use crate::json_text::plain;
use crate::json_text::render;
use crate::json_text::rendered;
use crate::json_text::DEEPEST;
use crate::llm_convert::array;
use crate::materialize::category_name;
use crate::materialize::name_category;
use crate::materialize::text_or_null;
use crate::module::all_wf;
use crate::module::text_or_else;
use crate::order::keep;
use crate::order::lemma_take_step;
use crate::order::opt_view;
use crate::order::views;
use crate::text::cat2;
use crate::text::decimal;
use crate::text::decimal_text;
use crate::text::lowered;
use crate::text::same;
use crate::unmet::UnmetIntent;
use crate::unmet::UnmetView;

verus! {

/// What `str::to_lowercase` makes of a text.
pub uninterp spec fn small_letters(t: Seq<char>) -> Seq<char>;

/// All characters are ASCII.
pub open spec fn all_ascii(t: Seq<char>) -> bool {
    forall|i: int| 0 <= i < t.len() ==> (#[trigger] t[i] as int) < 128
}

/// `str::to_lowercase`: the text is a function of the text alone; of ASCII
/// characters it is the ASCII lower case.
#[verifier::external_body]
fn to_small_letters(t: &str) -> (r: String)
    ensures
        r@ == small_letters(t@),
        all_ascii(t@) ==> r@ == lowered(t@),
{
    t.to_lowercase()
}

/// A text in lower case.
pub open spec fn lower_case(t: Seq<char>) -> Seq<char> {
    if all_ascii(t) {
        lowered(t)
    } else {
        small_letters(t)
    }
}

/// The HTTP status of an answer that is no success.
#[derive(Clone, Copy, Debug, PartialEq, Eq, Structural)]
pub enum Refusal {
    /// The request is not understood.
    BadRequest,
    /// What it needs is not there.
    ServiceUnavailable,
    /// Something went wrong.
    InternalServerError,
}

impl Refusal {
    /// The number of the status.
    pub fn code(self) -> (r: u16)
        ensures
            r == match self {
                Refusal::BadRequest => 400u16,
                Refusal::ServiceUnavailable => 503u16,
                Refusal::InternalServerError => 500u16,
            },
    {
        match self {
            Refusal::BadRequest => 400,
            Refusal::ServiceUnavailable => 503,
            Refusal::InternalServerError => 500,
        }
    }
}

/// An alert that a rule raised.
pub struct AlertView {
    /// The rule.
    pub rule_name: Seq<char>,
    /// The record of it.
    pub record_id: Seq<char>,
    /// Where it was seen.
    pub source: Seq<char>,
    /// The class of what was seen.
    pub classification: Seq<char>,
    /// How to see it again.
    pub evidence_query: Seq<char>,
    /// What surrounds it, in JSON.
    pub context: Seq<char>,
}

/// An alert that a rule raised.
pub struct Alert {
    /// The rule.
    pub rule_name: String,
    /// The record of it.
    pub record_id: String,
    /// Where it was seen.
    pub source: String,
    /// The class of what was seen.
    pub classification: String,
    /// How to see it again.
    pub evidence_query: String,
    /// What surrounds it, in JSON.
    pub context: String,
}

impl View for Alert {
    type V = AlertView;

    open spec fn view(&self) -> AlertView {
        AlertView {
            rule_name: self.rule_name@,
            record_id: self.record_id@,
            source: self.source@,
            classification: self.classification@,
            evidence_query: self.evidence_query@,
            context: self.context@,
        }
    }
}

/// The parameters with which the observation of an alert is created.
pub open spec fn alert_params(a: AlertView) -> JsonView {
    empty_object().with("source"@, JsonView::Text(a.source)).with(
        "classification"@,
        JsonView::Text(a.classification),
    ).with("evidence_query"@, JsonView::Text(a.evidence_query)).with(
        "context"@,
        JsonView::Text(a.context),
    ).with("tenant"@, JsonView::Text("temper-system"@)).with(
        "legacy_record_id"@,
        JsonView::Text(a.record_id),
    )
}

/// The parameters with which the observation of an alert is created.
pub fn build_alert_params(a: &Alert) -> (r: Json)
    ensures
        r@ == alert_params(a@),
        r@.wf(),
{
    Json::object().set("source", Json::of_text(a.source.as_str())).set(
        "classification",
        Json::of_text(a.classification.as_str()),
    ).set("evidence_query", Json::of_text(a.evidence_query.as_str())).set(
        "context",
        Json::of_text(a.context.as_str()),
    ).set("tenant", Json::of_text("temper-system")).set(
        "legacy_record_id",
        Json::of_text(a.record_id.as_str()),
    )
}

/// What is answered of an alert; its class, its threshold and what was observed
/// come in JSON.
pub open spec fn alert_report(
    a: AlertView,
    entity: Seq<char>,
    class: JsonView,
    threshold: JsonView,
    observed: JsonView,
) -> JsonView {
    empty_object().with("rule"@, JsonView::Text(a.rule_name)).with(
        "record_id"@,
        JsonView::Text(a.record_id),
    ).with("entity_id"@, JsonView::Text(entity)).with("source"@, JsonView::Text(a.source)).with(
        "classification"@,
        class,
    ).with("threshold"@, threshold).with("observed"@, observed)
}

/// What is answered of an alert.
pub fn report_alert(
    a: &Alert,
    entity: &str,
    class: Json,
    threshold: Json,
    observed: Json,
) -> (r: Json)
    requires
        class@.wf(),
        threshold@.wf(),
        observed@.wf(),
    ensures
        r@ == alert_report(a@, entity@, class@, threshold@, observed@),
        r@.wf(),
{
    Json::object().set("rule", Json::of_text(a.rule_name.as_str())).set(
        "record_id",
        Json::of_text(a.record_id.as_str()),
    ).set("entity_id", Json::of_text(entity)).set(
        "source",
        Json::of_text(a.source.as_str()),
    ).set("classification", class).set("threshold", threshold).set("observed", observed)
}

/// What a discovery that an alert sets off starts from.
pub open spec fn alert_context(a: AlertView) -> JsonView {
    empty_object().with("rule_name"@, JsonView::Text(a.rule_name)).with(
        "observation_record_id"@,
        JsonView::Text(a.record_id),
    ).with("source"@, JsonView::Text(a.source)).with(
        "classification"@,
        JsonView::Text(a.classification),
    ).with("evidence_query"@, JsonView::Text(a.evidence_query))
}

/// What a discovery that an alert sets off starts from, and its reason.
pub fn discovery_for_alert(a: &Alert) -> (r: (String, Json))
    ensures
        r.0@ == "sentinel:"@ + a@.rule_name,
        r.1@ == alert_context(a@),
        r.1@.wf(),
{
    let context = Json::object().set("rule_name", Json::of_text(a.rule_name.as_str())).set(
        "observation_record_id",
        Json::of_text(a.record_id.as_str()),
    ).set("source", Json::of_text(a.source.as_str())).set(
        "classification",
        Json::of_text(a.classification.as_str()),
    ).set("evidence_query", Json::of_text(a.evidence_query.as_str()));
    (cat2("sentinel:", a.rule_name.as_str()), context)
}

/// The parameters with which a discovery is triggered.
pub open spec fn trigger_params(
    reason: Seq<char>,
    source: Seq<char>,
    context: JsonView,
) -> JsonView {
    empty_object().with("reason"@, JsonView::Text(reason)).with(
        "source"@,
        JsonView::Text(source),
    ).with("trigger_context_json"@, JsonView::Text(rendered(context)))
}

/// The parameters with which a discovery is triggered.
pub fn build_trigger_params(reason: &str, source: &str, context: &Json) -> (r: Json)
    requires
        context@.wf(),
    ensures
        r@ == trigger_params(reason@, source@, context@),
        r@.wf(),
{
    let text = render(context);
    Json::object().set("reason", Json::of_text(reason)).set("source", Json::of_text(source)).set(
        "trigger_context_json",
        Json::Text(text),
    )
}

/// What an analysis was asked for; where nothing is said, a developer asked by
/// hand.
pub fn plan_analysis(
    reason: Option<String>,
    source: Option<String>,
    context: Option<Json>,
) -> (r: Json)
    requires
        context is Some ==> context->0@.wf(),
    ensures
        r@ == trigger_params(
            text_or_else(opt_view(reason), "manual"@),
            text_or_else(opt_view(source), "developer"@),
            match opt_view(context) {
                Some(c) => c,
                None => empty_object(),
            },
        ),
        r@.wf(),
{
    let reason = match reason {
        Some(t) => t,
        None => "manual".to_string(),
    };
    let source = match source {
        Some(t) => t,
        None => "developer".to_string(),
    };
    let context = match context {
        Some(c) => c,
        None => Json::object(),
    };
    build_trigger_params(reason.as_str(), source.as_str(), &context)
}

/// The parameters with which the entity of an insight is created; `priority` is
/// its priority to four digits.
pub open spec fn insight_params(
    category: Seq<char>,
    intent: Seq<char>,
    recommendation: Seq<char>,
    priority: Seq<char>,
    record_id: Seq<char>,
) -> JsonView {
    empty_object().with("observation_id"@, JsonView::Text(""@)).with(
        "category"@,
        JsonView::Text(category),
    ).with("signal"@, JsonView::Text(intent)).with(
        "recommendation"@,
        JsonView::Text(recommendation),
    ).with("priority_score"@, JsonView::Text(priority)).with(
        "legacy_record_id"@,
        JsonView::Text(record_id),
    )
}

/// The parameters with which the entity of an insight is created.
pub fn build_insight_params(i: &InsightRecord, priority: &str, record_id: &str) -> (r: Json)
    ensures
        r@ == insight_params(
            category_name(i.category),
            i@.signal.intent,
            i@.recommendation,
            priority@,
            record_id@,
        ),
        r@.wf(),
{
    Json::object().set("observation_id", Json::of_text("")).set(
        "category",
        Json::of_text(name_category(i.category)),
    ).set("signal", Json::of_text(i.signal.intent.as_str())).set(
        "recommendation",
        Json::of_text(i.recommendation.as_str()),
    ).set("priority_score", Json::of_text(priority)).set(
        "legacy_record_id",
        Json::of_text(record_id),
    )
}

/// What is answered of an insight; its priority comes in JSON.
pub open spec fn insight_report(
    record_id: Seq<char>,
    entity: Seq<char>,
    category: Seq<char>,
    intent: Seq<char>,
    priority: JsonView,
    recommendation: Seq<char>,
) -> JsonView {
    empty_object().with("record_id"@, JsonView::Text(record_id)).with(
        "entity_id"@,
        JsonView::Text(entity),
    ).with("category"@, JsonView::Text(category)).with("intent"@, JsonView::Text(intent)).with(
        "priority_score"@,
        priority,
    ).with("recommendation"@, JsonView::Text(recommendation))
}

/// What is answered of an insight.
pub fn report_insight(i: &InsightRecord, record_id: &str, entity: &str, priority: Json) -> (r: Json)
    requires
        priority@.wf(),
    ensures
        r@ == insight_report(
            record_id@,
            entity@,
            category_name(i.category),
            i@.signal.intent,
            priority@,
            i@.recommendation,
        ),
        r@.wf(),
{
    Json::object().set("record_id", Json::of_text(record_id)).set(
        "entity_id",
        Json::of_text(entity),
    ).set("category", Json::of_text(name_category(i.category))).set(
        "intent",
        Json::of_text(i.signal.intent.as_str()),
    ).set("priority_score", priority).set(
        "recommendation",
        Json::of_text(i.recommendation.as_str()),
    )
}

/// What is answered to a check by the rules.
pub open spec fn sentinel_report(
    alerts: Seq<JsonView>,
    discoveries: Seq<JsonView>,
    insights: Seq<JsonView>,
) -> JsonView {
    empty_object().with("alerts_count"@, JsonView::Unsigned(alerts.len() as u64)).with(
        "alerts"@,
        JsonView::List(alerts),
    ).with("intent_discoveries"@, JsonView::List(discoveries)).with(
        "insights_count"@,
        JsonView::Unsigned(insights.len() as u64),
    ).with("insights"@, JsonView::List(insights))
}

/// What is answered to a check by the rules.
pub fn report_sentinel(alerts: Vec<Json>, discoveries: Vec<Json>, insights: Vec<Json>) -> (r: Json)
    requires
        all_wf(views(alerts@)),
        all_wf(views(discoveries@)),
        all_wf(views(insights@)),
    ensures
        r@ == sentinel_report(views(alerts@), views(discoveries@), views(insights@)),
{
    let n: usize = alerts.len();
    let m: usize = insights.len();
    Json::object().set("alerts_count", Json::Unsigned(n as u64)).set(
        "alerts",
        array(alerts),
    ).set("intent_discoveries", array(discoveries)).set(
        "insights_count",
        Json::Unsigned(m as u64),
    ).set("insights", array(insights))
}

/// What is answered of a discovery that was set off.
pub fn report_discovery(entity_id: &str, reason: &str) -> (r: Json)
    ensures
        r@ == empty_object().with("entity_id"@, JsonView::Text(entity_id@)).with(
            "reason"@,
            JsonView::Text(reason@),
        ),
        r@.wf(),
{
    Json::object().set("entity_id", Json::of_text(entity_id)).set(
        "reason",
        Json::of_text(reason),
    )
}

/// The test for unmet intents with a status.
pub open spec fn with_status(status: Seq<char>) -> spec_fn(UnmetView) -> bool {
    |u: UnmetView| u.status == status
}

/// How many of the unmet intents have a status.
pub fn count_status(v: &Vec<UnmetIntent>, status: &str) -> (r: usize)
    ensures
        r == keep(views(v@), with_status(status@)).len(),
{
    let ghost all = views(v@);
    let mut n: usize = 0;
    let mut i: usize = 0;
    assert(all.take(0) =~= Seq::<UnmetView>::empty());
    while i < v.len()
        invariant
            i <= v@.len(),
            all == views(v@),
            n <= i,
            n == keep(all.take(i as int), with_status(status@)).len(),
        decreases v@.len() - i,
    {
        proof {
            lemma_take_step(all, i as int);
            assert(all[i as int] == v@[i as int]@);
        }
        if same(v[i].status.as_str(), status) {
            n = n + 1;
        }
        i = i + 1;
    }
    assert(all.take(i as int) =~= all);
    n
}

/// What is answered on unmet intents, which come in JSON.
pub fn report_unmet(v: &Vec<UnmetIntent>, values: Vec<Json>) -> (r: Json)
    requires
        all_wf(views(values@)),
    ensures
        r@ == empty_object().with("intents"@, JsonView::List(views(values@))).with(
            "open_count"@,
            JsonView::Unsigned(keep(views(v@), with_status("open"@)).len() as u64),
        ).with(
            "resolved_count"@,
            JsonView::Unsigned(keep(views(v@), with_status("resolved"@)).len() as u64),
        ),
{
    let open: usize = count_status(v, "open");
    let resolved: usize = count_status(v, "resolved");
    Json::object().set("intents", array(values)).set(
        "open_count",
        Json::Unsigned(open as u64),
    ).set("resolved_count", Json::Unsigned(resolved as u64))
}

/// The name of what became of a feature request.
pub open spec fn disposition_name(d: FeatureRequestDisposition) -> Seq<char> {
    match d {
        FeatureRequestDisposition::Open => "Open"@,
        FeatureRequestDisposition::Acknowledged => "Acknowledged"@,
        FeatureRequestDisposition::Planned => "Planned"@,
        FeatureRequestDisposition::WontFix => "WontFix"@,
        FeatureRequestDisposition::Resolved => "Resolved"@,
    }
}

/// The name of what became of a feature request.
pub fn name_disposition(d: FeatureRequestDisposition) -> (r: &'static str)
    ensures
        r@ == disposition_name(d),
{
    match d {
        FeatureRequestDisposition::Open => "Open",
        FeatureRequestDisposition::Acknowledged => "Acknowledged",
        FeatureRequestDisposition::Planned => "Planned",
        FeatureRequestDisposition::WontFix => "WontFix",
        FeatureRequestDisposition::Resolved => "Resolved",
    }
}

/// The name of what the platform lacks.
pub open spec fn gap_name(c: PlatformGapCategory) -> Seq<char> {
    match c {
        PlatformGapCategory::MissingCapability => "MissingCapability"@,
        PlatformGapCategory::MissingMethod => "MissingMethod"@,
    }
}

/// The name of what the platform lacks.
pub fn name_gap(c: PlatformGapCategory) -> (r: &'static str)
    ensures
        r@ == gap_name(c),
{
    match c {
        PlatformGapCategory::MissingCapability => "MissingCapability",
        PlatformGapCategory::MissingMethod => "MissingMethod",
    }
}

/// The parameters with which the entity of a feature request is created.
pub fn build_request_params(f: &FeatureRequestRecord, record_id: &str) -> (r: Json)
    ensures
        r@ == empty_object().with("category"@, JsonView::Text(gap_name(f.category))).with(
            "description"@,
            JsonView::Text(f@.description),
        ).with("frequency"@, JsonView::Text(decimal(f@.frequency))).with(
            "developer_notes"@,
            JsonView::Text(text_or_else(f@.developer_notes, ""@)),
        ).with("legacy_record_id"@, JsonView::Text(record_id@)),
{
    let notes = match &f.developer_notes {
        Some(t) => t.clone(),
        None => "".to_string(),
    };
    Json::object().set("category", Json::of_text(name_gap(f.category))).set(
        "description",
        Json::of_text(f.description.as_str()),
    ).set("frequency", Json::Text(decimal_text(f.frequency))).set(
        "developer_notes",
        Json::Text(notes),
    ).set("legacy_record_id", Json::of_text(record_id))
}

/// The entries that a feature request refers to, as they are stored: as JSON, from
/// which they are read back.
pub fn refs_text(f: &FeatureRequestRecord) -> (r: String)
    ensures
        r@ == rendered(text_list(f@.trajectory_refs)),
        json_read(r@) == Ok::<JsonView, Seq<char>>(text_list(f@.trajectory_refs)),
{
    let j = Json::of_texts(&f.trajectory_refs);
    proof {
        reveal_with_fuel(plain, 2);
        assert(plain(j@, DEEPEST as nat));
    }
    render(&j)
}

/// A stored feature request.
pub struct RequestRowView {
    /// Its name.
    pub id: Seq<char>,
    /// What the platform lacks.
    pub category: Seq<char>,
    /// What was tried.
    pub description: Seq<char>,
    /// How often.
    pub frequency: i64,
    /// When, in JSON.
    pub trajectory_refs: Seq<char>,
    /// What became of it.
    pub disposition: Seq<char>,
    /// What a developer noted.
    pub developer_notes: Option<Seq<char>>,
    /// When it was stored.
    pub created_at: Seq<char>,
}

/// A stored feature request.
pub struct RequestRow {
    /// Its name.
    pub id: String,
    /// What the platform lacks.
    pub category: String,
    /// What was tried.
    pub description: String,
    /// How often.
    pub frequency: i64,
    /// When, in JSON.
    pub trajectory_refs: String,
    /// What became of it.
    pub disposition: String,
    /// What a developer noted.
    pub developer_notes: Option<String>,
    /// When it was stored.
    pub created_at: String,
}

impl View for RequestRow {
    type V = RequestRowView;

    open spec fn view(&self) -> RequestRowView {
        RequestRowView {
            id: self.id@,
            category: self.category@,
            description: self.description@,
            frequency: self.frequency,
            trajectory_refs: self.trajectory_refs@,
            disposition: self.disposition@,
            developer_notes: opt_view(self.developer_notes),
            created_at: self.created_at@,
        }
    }
}

/// What a text reads as; what is no JSON reads as `null`.
pub open spec fn value_or_null(read: Result<JsonView, Seq<char>>) -> JsonView {
    match read {
        Ok(v) => v,
        Err(_) => JsonView::Null,
    }
}

/// What is answered of a stored feature request, whose times read as `refs`.
pub open spec fn row_report(w: RequestRowView, refs: JsonView) -> JsonView {
    empty_object().with("id"@, JsonView::Text(w.id)).with(
        "category"@,
        JsonView::Text(w.category),
    ).with("description"@, JsonView::Text(w.description)).with(
        "frequency"@,
        crate::llm::integer_value(w.frequency),
    ).with("trajectory_refs"@, refs).with("disposition"@, JsonView::Text(w.disposition)).with(
        "developer_notes"@,
        text_or_null(w.developer_notes),
    ).with("created_at"@, JsonView::Text(w.created_at))
}

/// What is answered of a stored feature request, whose times read as `refs`.
pub fn report_row(w: &RequestRow, refs: Json) -> (r: Json)
    requires
        refs@.wf(),
    ensures
        r@ == row_report(w@, refs@),
        r@.wf(),
{
    Json::object().set("id", Json::of_text(w.id.as_str())).set(
        "category",
        Json::of_text(w.category.as_str()),
    ).set("description", Json::of_text(w.description.as_str())).set(
        "frequency",
        crate::llm::integer_json(w.frequency),
    ).set("trajectory_refs", refs).set(
        "disposition",
        Json::of_text(w.disposition.as_str()),
    ).set("developer_notes", crate::materialize::nullable(&w.developer_notes)).set(
        "created_at",
        Json::of_text(w.created_at.as_str()),
    )
}

/// What is answered of stored feature requests.
pub open spec fn row_reports(s: Seq<RequestRowView>) -> Seq<JsonView> {
    Seq::new(s.len(), |i: int| row_report(s[i], value_or_null(json_read(s[i].trajectory_refs))))
}

/// What is answered to a question for feature requests.
pub fn report_rows(rows: &Vec<RequestRow>) -> (r: Json)
    ensures
        r@ == empty_object().with(
            "feature_requests"@,
            JsonView::List(row_reports(views(rows@))),
        ).with("total"@, JsonView::Unsigned(rows@.len() as u64)),
{
    let ghost all = views(rows@);
    let mut items: Vec<Json> = Vec::new();
    let mut i: usize = 0;
    while i < rows.len()
        invariant
            i <= rows@.len(),
            all == views(rows@),
            items@.len() == i,
            forall|j: int|
                0 <= j < i ==> (#[trigger] items@[j])@ == row_report(
                    all[j],
                    value_or_null(json_read(all[j].trajectory_refs)),
                ) && items@[j]@.wf(),
        decreases rows@.len() - i,
    {
        assert(all[i as int] == rows@[i as int]@);
        let refs = match parse(rows[i].trajectory_refs.as_str()) {
            Ok(v) => v,
            Err(_) => Json::Null,
        };
        items.push(report_row(&rows[i], refs));
        i = i + 1;
    }
    assert(views(items@) =~= row_reports(all));
    Json::object().set("feature_requests", array(items)).set(
        "total",
        Json::Unsigned(rows.len() as u64),
    )
}

/// A word, in small letters, that stands for what may become of a feature
/// request.
pub open spec fn known_disposition(word: Seq<char>) -> bool {
    word == "open"@ || word == "acknowledged"@ || word == "planned"@ || word == "wontfix"@ || word
        == "wont_fix"@ || word == "resolved"@
}

/// Whether a word, in small letters, stands for what may become of a feature
/// request.
pub fn is_known_disposition(word: &str) -> (r: bool)
    ensures
        r == known_disposition(word@),
{
    same(word, "open") || same(word, "acknowledged") || same(word, "planned") || same(
        word,
        "wontfix",
    ) || same(word, "wont_fix") || same(word, "resolved")
}

/// A change to a feature request.
pub struct Update {
    /// What became of it; empty for no change.
    pub disposition: String,
    /// What a developer noted.
    pub notes: Option<String>,
}

/// The change that a request asks for. What became of a feature request, where it
/// is given, must be known; and there must be a place to store it.
pub fn plan_update(body: &Json, stored: bool) -> (r: Result<Update, Refusal>)
    ensures
        ({
            let word = body@.text_field("disposition"@);
            let known = word is Some ==> known_disposition(lower_case(word->0));
            match r {
                Ok(u) => known && stored && u.disposition@ == text_or_else(word, ""@) && opt_view(
                    u.notes,
                ) == body@.text_field("developer_notes"@),
                Err(Refusal::BadRequest) => !known,
                Err(Refusal::ServiceUnavailable) => known && !stored,
                Err(Refusal::InternalServerError) => false,
            }
        }),
{
    let word = body.text_field("disposition");
    let notes = body.text_field("developer_notes");
    if let Some(w) = &word {
        let small = to_small_letters(w.as_str());
        if !is_known_disposition(small.as_str()) {
            return Err(Refusal::BadRequest);
        }
    }
    if !stored {
        return Err(Refusal::ServiceUnavailable);
    }
    let disposition = match word {
        Some(w) => w,
        None => "".to_string(),
    };
    Ok(Update { disposition, notes })
}

/// What is answered to an update.
pub fn report_update(id: &str) -> (r: Json)
    ensures
        r@ == empty_object().with("id"@, JsonView::Text(id@)).with(
            "updated"@,
            JsonView::Bool(true),
        ),
{
    Json::object().set("id", Json::of_text(id)).set("updated", Json::Bool(true))
}

/// What is answered to an analysis: what became of the discovery.
pub fn report_analysis(
    tenant: &str,
    entity_id: &str,
    success: bool,
    status: &str,
    error: &Option<String>,
    fields: Json,
) -> (r: Json)
    requires
        fields@.wf(),
    ensures
        r@ == empty_object().with("tenant"@, JsonView::Text(tenant@)).with(
            "entity_id"@,
            JsonView::Text(entity_id@),
        ).with("success"@, JsonView::Bool(success)).with("status"@, JsonView::Text(status@)).with(
            "error"@,
            text_or_null(opt_view(*error)),
        ).with("fields"@, fields@),
{
    Json::object().set("tenant", Json::of_text(tenant)).set(
        "entity_id",
        Json::of_text(entity_id),
    ).set("success", Json::Bool(success)).set("status", Json::of_text(status)).set(
        "error",
        crate::materialize::nullable(error),
    ).set("fields", fields)
}

/// The event for a decision that is pending.
pub fn decision_event(id: &str, action: &str, resource_type: &str) -> (r: Json)
    ensures
        r@ == empty_object().with("type"@, JsonView::Text("new_decision"@)).with(
            "decision_id"@,
            JsonView::Text(id@),
        ).with("action"@, JsonView::Text(action@)).with(
            "resource_type"@,
            JsonView::Text(resource_type@),
        ).with("status"@, JsonView::Text("pending"@)),
{
    Json::object().set("type", Json::of_text("new_decision")).set(
        "decision_id",
        Json::of_text(id),
    ).set("action", Json::of_text(action)).set(
        "resource_type",
        Json::of_text(resource_type),
    ).set("status", Json::of_text("pending"))
}

} // verus!
