//! Unmet intents: failures of one entity type that fall under one pattern.
use vstd::prelude::*;

use crate::evidence::bodies_of;
use crate::evidence::latest;
use crate::evidence_laws::lemma_text_weak;
use crate::evidence_laws::lemma_timeline;
use crate::json::Json;
use crate::json::JsonView;
use crate::keys::find_listed;
use crate::keys::listed;
use crate::keys::sorted_pairs;
use crate::order::keep;
use crate::order::lemma_keep;
use crate::order::lemma_take_step;
use crate::order::opt_view;
use crate::order::sorted_keys;
use crate::order::text_lt;
use crate::order::views;
use crate::order::KeyOrder;
use crate::text::cat3;
use crate::text::cat5;
use crate::text::less;
use crate::text::same;
use crate::timeline::earlier;
use crate::timeline::sort_by_time;
use crate::timeline::timeline;
use crate::trajectory::error_pattern;
use crate::trajectory::pattern_of;
use crate::trajectory::EntryView;
use crate::trajectory::TrajectoryEntry;

verus! {

/// Failures of one entity type under one pattern.
pub struct UnmetView {
    /// The type of the entity.
    pub entity_type: Seq<char>,
    /// The action that failed first.
    pub action: Seq<char>,
    /// The pattern of the errors.
    pub error_pattern: Seq<char>,
    /// The number of failures.
    pub failure_count: nat,
    /// When the first failure happened.
    pub first_seen: Seq<char>,
    /// When the last failure happened.
    pub last_seen: Seq<char>,
    /// `open` or `resolved`.
    pub status: Seq<char>,
    /// When a spec was last submitted for the type.
    pub resolved_by: Option<Seq<char>>,
    /// What is advised.
    pub recommendation: Seq<char>,
    /// The last request body.
    pub sample_body: Option<JsonView>,
    /// The last thing that a caller said they wanted.
    pub sample_intent: Option<Seq<char>>,
}

/// Failures of one entity type under one pattern.
pub struct UnmetIntent {
    /// The type of the entity.
    pub entity_type: String,
    /// The action that failed first.
    pub action: String,
    /// The pattern of the errors.
    pub error_pattern: String,
    /// The number of failures.
    pub failure_count: u64,
    /// When the first failure happened.
    pub first_seen: String,
    /// When the last failure happened.
    pub last_seen: String,
    /// `open` or `resolved`.
    pub status: String,
    /// When a spec was last submitted for the type.
    pub resolved_by: Option<String>,
    /// What is advised.
    pub recommendation: String,
    /// The last request body.
    pub sample_body: Option<Json>,
    /// The last thing that a caller said they wanted.
    pub sample_intent: Option<String>,
}

impl View for UnmetIntent {
    type V = UnmetView;

    open spec fn view(&self) -> UnmetView {
        UnmetView {
            entity_type: self.entity_type@,
            action: self.action@,
            error_pattern: self.error_pattern@,
            failure_count: self.failure_count as nat,
            first_seen: self.first_seen@,
            last_seen: self.last_seen@,
            status: self.status@,
            resolved_by: opt_view(self.resolved_by),
            recommendation: self.recommendation@,
            sample_body: opt_view(self.sample_body),
            sample_intent: opt_view(self.sample_intent),
        }
    }
}

/// What is advised for failures of a type under a pattern.
pub open spec fn advice(resolved: bool, entity_type: Seq<char>, pattern: Seq<char>) -> Seq<char> {
    if resolved {
        "Spec for '"@ + entity_type + "' has been submitted."@
    } else if pattern == "EntitySetNotFound"@ {
        "Consider creating '"@ + entity_type + "' entity type."@
    } else {
        "Investigate failures for '"@ + entity_type + "' (pattern: "@ + pattern + ")."@
    }
}

/// Whether failures still stand.
pub open spec fn unmet_status(resolved: bool) -> Seq<char> {
    if resolved {
        "resolved"@
    } else {
        "open"@
    }
}

fn advise(resolved: bool, entity_type: &str, pattern: &str) -> (r: String)
    ensures
        r@ == advice(resolved, entity_type@, pattern@),
{
    if resolved {
        cat3("Spec for '", entity_type, "' has been submitted.")
    } else if same(pattern, "EntitySetNotFound") {
        cat3("Consider creating '", entity_type, "' entity type.")
    } else {
        cat5("Investigate failures for '", entity_type, "' (pattern: ", pattern, ").")
    }
}

fn status_text(resolved: bool) -> (r: String)
    ensures
        r@ == unmet_status(resolved),
{
    if resolved {
        "resolved".to_string()
    } else {
        "open".to_string()
    }
}

/// A failure that something lacking caused: authorization did not.
pub open spec fn is_gap(e: EntryView) -> bool {
    !e.success && error_pattern(e.error) != "AuthzDenied"@ && e.authz_denied != Some(true)
}

/// The test for failures that something lacking caused.
pub open spec fn gaps() -> spec_fn(EntryView) -> bool {
    |e: EntryView| is_gap(e)
}

/// Whether something lacking caused a failure that the entry records.
pub fn shows_gap(e: &TrajectoryEntry) -> (r: bool)
    ensures
        r == is_gap(e@),
{
    if e.success {
        return false;
    }
    if let Some(d) = e.authz_denied {
        if d {
            return false;
        }
    }
    let p = pattern_of(&e.error);
    !same(p.as_str(), "AuthzDenied")
}

/// The entity type and the error pattern of each entry.
pub open spec fn gap_keys(s: Seq<EntryView>) -> Seq<(Seq<char>, Seq<char>)> {
    Seq::new(s.len(), |i: int| (s[i].entity_type, error_pattern(s[i].error)))
}

/// The test for entries of one type with one pattern.
pub open spec fn under(k: (Seq<char>, Seq<char>)) -> spec_fn(EntryView) -> bool {
    |e: EntryView| e.entity_type == k.0 && error_pattern(e.error) == k.1
}

/// The test for successful submissions of a spec for a type.
pub open spec fn submissions(entity_type: Seq<char>) -> spec_fn(EntryView) -> bool {
    |e: EntryView| e.action == "SubmitSpec"@ && e.success && e.entity_type == entity_type
}

/// When a spec was last submitted for a type.
pub open spec fn submitted_at(s: Seq<EntryView>, entity_type: Seq<char>) -> Option<Seq<char>> {
    let m = keep(s, submissions(entity_type));
    if m.len() > 0 {
        Some(m.last().timestamp)
    } else {
        None
    }
}

/// What callers said, as it was said.
pub open spec fn said(s: Seq<EntryView>) -> Seq<Option<Seq<char>>> {
    Seq::new(s.len(), |i: int| s[i].intent)
}

/// The failures `m` of one type under one pattern, taken together. What was seen
/// first and last, and what is given last, goes by the times of the failures.
pub open spec fn unmet(
    k: (Seq<char>, Seq<char>),
    m: Seq<EntryView>,
    submitted: Option<Seq<char>>,
) -> UnmetView {
    UnmetView {
        entity_type: k.0,
        action: m[0].action,
        error_pattern: k.1,
        failure_count: m.len(),
        first_seen: timeline(m)[0].timestamp,
        last_seen: timeline(m).last().timestamp,
        status: unmet_status(submitted is Some),
        resolved_by: submitted,
        recommendation: advice(submitted is Some, k.0, k.1),
        sample_body: latest(bodies_of(timeline(m))),
        sample_intent: latest(said(timeline(m))),
    }
}

/// The unmet intents in a list of entries, by type, then by pattern.
pub open spec fn unmet_intents(s: Seq<EntryView>) -> Seq<UnmetView> {
    let g = keep(s, gaps());
    let ks = sorted_keys(gap_keys(g));
    Seq::new(ks.len(), |i: int| unmet(ks[i], keep(g, under(ks[i])), submitted_at(s, ks[i].0)))
}

fn when_submitted(entries: &Vec<TrajectoryEntry>, entity_type: &str) -> (r: Option<String>)
    ensures
        opt_view(r) == submitted_at(views(entries@), entity_type@),
{
    let ghost all = views(entries@);
    let mut at: Option<String> = None;
    let mut i: usize = 0;
    assert(all.take(0) =~= Seq::<EntryView>::empty());
    while i < entries.len()
        invariant
            i <= entries@.len(),
            all == views(entries@),
            opt_view(at) == submitted_at(all.take(i as int), entity_type@),
        decreases entries@.len() - i,
    {
        proof {
            lemma_take_step(all, i as int);
            assert(all[i as int] == entries@[i as int]@);
        }
        let e = &entries[i];
        if same(e.action.as_str(), "SubmitSpec") && e.success && same(
            e.entity_type.as_str(),
            entity_type,
        ) {
            at = Some(e.timestamp.clone());
        }
        i = i + 1;
    }
    assert(all.take(i as int) =~= all);
    at
}

fn last_said(m: &Vec<&TrajectoryEntry>) -> (r: Option<String>)
    ensures
        opt_view(r) == latest(said(views(m@))),
{
    let ghost all = said(views(m@));
    let mut n: usize = m.len();
    assert(all.take(n as int) =~= all);
    while n > 0
        invariant
            n <= m@.len(),
            all == said(views(m@)),
            latest(all) == latest(all.take(n as int)),
        decreases n,
    {
        proof {
            lemma_take_step(all, n - 1);
            assert(all[n - 1] == m@[n - 1]@.intent);
        }
        if let Some(t) = &m[n - 1].intent {
            return Some(t.clone());
        }
        n = n - 1;
    }
    None
}

fn summarize(
    k: &(String, String),
    m: Vec<&TrajectoryEntry>,
    submitted: Option<String>,
) -> (r: UnmetIntent)
    requires
        m@.len() > 0,
    ensures
        r@ == unmet(k@, views(m@), opt_view(submitted)),
{
    assert(views(m@)[0] == m@[0]@);
    let resolved = submitted.is_some();
    let action = m[0].action.clone();
    let count: usize = m.len();
    let ghost all = views(m@);
    let t = sort_by_time(m);
    proof {
        lemma_timeline(all);
        lemma_timeline_len(all);
        assert(views(t@)[0] == t@[0]@);
        assert(views(t@).last() == t@[t@.len() - 1]@);
    }
    UnmetIntent {
        entity_type: k.0.clone(),
        action,
        error_pattern: k.1.clone(),
        failure_count: count as u64,
        first_seen: t[0].timestamp.clone(),
        last_seen: t[t.len() - 1].timestamp.clone(),
        status: status_text(resolved),
        resolved_by: submitted,
        recommendation: advise(resolved, k.0.as_str(), k.1.as_str()),
        sample_body: crate::evidence::last_body(&t),
        sample_intent: last_said(&t),
    }
}

/// The unmet intents in a list of entries, by type, then by pattern.
pub fn generate_unmet_intents(entries: &Vec<TrajectoryEntry>) -> (r: Vec<UnmetIntent>)
    ensures
        views(r@) == unmet_intents(views(entries@)),
{
    let ghost s = views(entries@);
    let mut g: Vec<&TrajectoryEntry> = Vec::new();
    let mut keys: Vec<(String, String)> = Vec::new();
    let mut i: usize = 0;
    assert(s.take(0) =~= Seq::<EntryView>::empty());
    assert(views(g@) =~= Seq::<EntryView>::empty());
    while i < entries.len()
        invariant
            i <= entries@.len(),
            s == views(entries@),
            views(g@) == keep(s.take(i as int), gaps()),
            keys@.len() == g@.len(),
            forall|j: int|
                0 <= j < g@.len() ==> (#[trigger] keys@[j])@ == (
                    g@[j]@.entity_type,
                    error_pattern(g@[j]@.error),
                ),
        decreases entries@.len() - i,
    {
        proof {
            lemma_take_step(s, i as int);
            assert(s[i as int] == entries@[i as int]@);
        }
        if shows_gap(&entries[i]) {
            let ghost was = views(g@);
            keys.push((entries[i].entity_type.clone(), pattern_of(&entries[i].error)));
            g.push(&entries[i]);
            assert(views(g@) =~= was.push(s[i as int]));
        }
        i = i + 1;
    }
    assert(s.take(i as int) =~= s);
    let ghost gs = views(g@);
    assert(views(keys@) =~= gap_keys(gs));
    let ks = sorted_pairs(&keys);
    let ghost kss = views(ks@);
    let mut r: Vec<UnmetIntent> = Vec::new();
    let mut i: usize = 0;
    while i < ks.len()
        invariant
            i <= ks@.len(),
            s == views(entries@),
            gs == views(g@),
            kss == views(ks@),
            kss == sorted_keys(gap_keys(gs)),
            keys@.len() == g@.len(),
            forall|j: int|
                0 <= j < g@.len() ==> (#[trigger] keys@[j])@ == (
                    g@[j]@.entity_type,
                    error_pattern(g@[j]@.error),
                ),
            r@.len() == i,
            forall|j: int|
                0 <= j < i ==> (#[trigger] r@[j])@ == unmet(
                    kss[j],
                    keep(gs, under(kss[j])),
                    submitted_at(s, kss[j].0),
                ),
        decreases ks@.len() - i,
    {
        let ghost k = kss[i as int];
        assert(k == ks@[i as int]@);
        let mut m: Vec<&TrajectoryEntry> = Vec::new();
        let mut j: usize = 0;
        assert(gs.take(0) =~= Seq::<EntryView>::empty());
        assert(views(m@) =~= Seq::<EntryView>::empty());
        while j < g.len()
            invariant
                j <= g@.len(),
                i < ks@.len(),
                gs == views(g@),
                k == ks@[i as int]@,
                keys@.len() == g@.len(),
                forall|j: int|
                    0 <= j < g@.len() ==> (#[trigger] keys@[j])@ == (
                        g@[j]@.entity_type,
                        error_pattern(g@[j]@.error),
                    ),
                views(m@) == keep(gs.take(j as int), under(k)),
            decreases g@.len() - j,
        {
            proof {
                lemma_take_step(gs, j as int);
                assert(gs[j as int] == g@[j as int]@);
            }
            if same(keys[j].0.as_str(), ks[i].0.as_str()) && same(
                keys[j].1.as_str(),
                ks[i].1.as_str(),
            ) {
                let ghost was = views(m@);
                m.push(g[j]);
                assert(views(m@) =~= was.push(gs[j as int]));
            }
            j = j + 1;
        }
        proof {
            assert(gs.take(j as int) =~= gs);
            crate::order::lemma_sorted_keys(gap_keys(gs));
            assert(kss[i as int] == k);
            assert(kss.contains(k));
            assert(gap_keys(gs).contains(k));
            let at = choose|at: int| 0 <= at < gap_keys(gs).len() && gap_keys(gs)[at] == k;
            lemma_keep(gs, under(k));
            assert(under(k)(gs[at]));
            assert(keep(gs, under(k)).contains(gs[at]));
        }
        let submitted = when_submitted(entries, ks[i].0.as_str());
        r.push(summarize(&ks[i], m, submitted));
        i = i + 1;
    }
    assert(views(r@) =~= unmet_intents(s));
    r
}

/// Failures that were counted where they are stored.
pub struct RowView {
    /// The type of the entity.
    pub entity_type: Seq<char>,
    /// An action that failed.
    pub action: Seq<char>,
    /// What went wrong.
    pub error: Option<Seq<char>>,
    /// The number of failures.
    pub count: nat,
    /// When the first failure happened.
    pub first_seen: Seq<char>,
    /// When the last failure happened.
    pub last_seen: Seq<char>,
}

/// Failures that were counted where they are stored.
pub struct UnmetIntentAggRow {
    /// The type of the entity.
    pub entity_type: String,
    /// An action that failed.
    pub action: String,
    /// What went wrong.
    pub error: Option<String>,
    /// The number of failures.
    pub count: u64,
    /// When the first failure happened.
    pub first_seen: String,
    /// When the last failure happened.
    pub last_seen: String,
}

impl View for UnmetIntentAggRow {
    type V = RowView;

    open spec fn view(&self) -> RowView {
        RowView {
            entity_type: self.entity_type@,
            action: self.action@,
            error: opt_view(self.error),
            count: self.count as nat,
            first_seen: self.first_seen@,
            last_seen: self.last_seen@,
        }
    }
}

/// The test for rows that authorization did not cause.
pub open spec fn gap_rows() -> spec_fn(RowView) -> bool {
    |r: RowView| error_pattern(r.error) != "AuthzDenied"@
}

/// The entity type and the error pattern of each row.
pub open spec fn row_keys(s: Seq<RowView>) -> Seq<(Seq<char>, Seq<char>)> {
    Seq::new(s.len(), |i: int| (s[i].entity_type, error_pattern(s[i].error)))
}

/// The test for rows of one type with one pattern.
pub open spec fn rows_under(k: (Seq<char>, Seq<char>)) -> spec_fn(RowView) -> bool {
    |r: RowView| r.entity_type == k.0 && error_pattern(r.error) == k.1
}

/// The failures of all rows.
pub open spec fn total(s: Seq<RowView>) -> nat
    decreases s.len(),
{
    if s.len() == 0 {
        0
    } else {
        total(s.drop_last()) + s.last().count
    }
}

/// The earliest first failure of all rows.
pub open spec fn first_of_rows(s: Seq<RowView>) -> Seq<char>
    decreases s.len(),
{
    if s.len() <= 1 {
        s[0].first_seen
    } else {
        let t = first_of_rows(s.drop_last());
        if text_lt(s.last().first_seen, t) {
            s.last().first_seen
        } else {
            t
        }
    }
}

/// The latest last failure of all rows.
pub open spec fn last_of_rows(s: Seq<RowView>) -> Seq<char>
    decreases s.len(),
{
    if s.len() <= 1 {
        s[0].last_seen
    } else {
        let t = last_of_rows(s.drop_last());
        if text_lt(t, s.last().last_seen) {
            s.last().last_seen
        } else {
            t
        }
    }
}

/// The rows `m` of one type under one pattern, taken together.
pub open spec fn unmet_rows(
    k: (Seq<char>, Seq<char>),
    m: Seq<RowView>,
    submitted: Option<Seq<char>>,
) -> UnmetView {
    UnmetView {
        entity_type: k.0,
        action: m[0].action,
        error_pattern: k.1,
        failure_count: total(m),
        first_seen: first_of_rows(m),
        last_seen: last_of_rows(m),
        status: unmet_status(submitted is Some),
        resolved_by: submitted,
        recommendation: advice(submitted is Some, k.0, k.1),
        sample_body: None,
        sample_intent: None,
    }
}

/// The unmet intents in a list of rows, by type, then by pattern. `submitted`
/// lists the types for which a spec was submitted, with the time.
pub open spec fn unmet_from_rows(
    s: Seq<RowView>,
    submitted: Seq<(Seq<char>, Seq<char>)>,
) -> Seq<UnmetView> {
    let g = keep(s, gap_rows());
    let ks = sorted_keys(row_keys(g));
    Seq::new(
        ks.len(),
        |i: int| unmet_rows(ks[i], keep(g, rows_under(ks[i])), listed(submitted, ks[i].0)),
    )
}

/// The failures of each type under each pattern can be counted in 64 bits.
pub open spec fn countable(s: Seq<RowView>) -> bool {
    forall|k: (Seq<char>, Seq<char>)| #[trigger]
        total(keep(keep(s, gap_rows()), rows_under(k))) <= u64::MAX
}

proof fn lemma_total_keep(s: Seq<RowView>, keeps: spec_fn(RowView) -> bool)
    ensures
        total(keep(s, keeps)) <= total(s),
    decreases s.len(),
{
    if s.len() > 0 {
        lemma_total_keep(s.drop_last(), keeps);
        let rest = keep(s.drop_last(), keeps);
        assert(rest.push(s.last()).drop_last() =~= rest);
    }
}

/// Where the failures of all rows together can be counted in 64 bits, so can
/// those of each type under each pattern.
pub proof fn lemma_countable(s: Seq<RowView>)
    requires
        total(s) <= u64::MAX,
    ensures
        countable(s),
{
    assert forall|k: (Seq<char>, Seq<char>)| #[trigger]
        total(keep(keep(s, gap_rows()), rows_under(k))) <= u64::MAX by {
        lemma_total_keep(s, gap_rows());
        lemma_total_keep(keep(s, gap_rows()), rows_under(k));
    }
}

proof fn lemma_total_take(s: Seq<RowView>, n: int)
    requires
        0 <= n <= s.len(),
    ensures
        total(s.take(n)) <= total(s),
    decreases s.len() - n,
{
    if n < s.len() {
        lemma_take_step(s, n);
        lemma_total_take(s, n + 1);
    } else {
        assert(s.take(n) =~= s);
    }
}

fn summarize_rows(
    k: &(String, String),
    m: &Vec<&UnmetIntentAggRow>,
    submitted: Option<String>,
) -> (r: UnmetIntent)
    requires
        m@.len() > 0,
        total(views(m@)) <= u64::MAX,
    ensures
        r@ == unmet_rows(k@, views(m@), opt_view(submitted)),
{
    let ghost ms = views(m@);
    let mut count: u64 = m[0].count;
    let mut first_seen = m[0].first_seen.clone();
    let mut last_seen = m[0].last_seen.clone();
    let mut i: usize = 1;
    proof {
        lemma_take_step(ms, 0);
        assert(ms.take(0) =~= Seq::<RowView>::empty());
        assert(ms[0] == m@[0]@);
        assert(total(ms.take(0)) == 0);
    }
    while i < m.len()
        invariant
            1 <= i <= m@.len(),
            ms == views(m@),
            total(ms) <= u64::MAX,
            count == total(ms.take(i as int)),
            first_seen@ == first_of_rows(ms.take(i as int)),
            last_seen@ == last_of_rows(ms.take(i as int)),
        decreases m@.len() - i,
    {
        proof {
            lemma_take_step(ms, i as int);
            lemma_total_take(ms, i + 1);
            assert(ms[i as int] == m@[i as int]@);
        }
        count = count + m[i].count;
        if less(m[i].first_seen.as_str(), first_seen.as_str()) {
            first_seen = m[i].first_seen.clone();
        }
        if less(last_seen.as_str(), m[i].last_seen.as_str()) {
            last_seen = m[i].last_seen.clone();
        }
        i = i + 1;
    }
    assert(ms.take(i as int) =~= ms);
    let resolved = submitted.is_some();
    UnmetIntent {
        entity_type: k.0.clone(),
        action: m[0].action.clone(),
        error_pattern: k.1.clone(),
        failure_count: count,
        first_seen,
        last_seen,
        status: status_text(resolved),
        resolved_by: submitted,
        recommendation: advise(resolved, k.0.as_str(), k.1.as_str()),
        sample_body: None,
        sample_intent: None,
    }
}

/// The unmet intents in a list of rows, by type, then by pattern.
pub fn generate_unmet_intents_from_aggregated(
    failures: &Vec<UnmetIntentAggRow>,
    submitted_specs: &Vec<(String, String)>,
) -> (r: Vec<UnmetIntent>)
    requires
        countable(views(failures@)),
    ensures
        views(r@) == unmet_from_rows(views(failures@), views(submitted_specs@)),
{
    let ghost s = views(failures@);
    let ghost times = views(submitted_specs@);
    let mut g: Vec<&UnmetIntentAggRow> = Vec::new();
    let mut keys: Vec<(String, String)> = Vec::new();
    let mut i: usize = 0;
    assert(s.take(0) =~= Seq::<RowView>::empty());
    assert(views(g@) =~= Seq::<RowView>::empty());
    while i < failures.len()
        invariant
            i <= failures@.len(),
            s == views(failures@),
            views(g@) == keep(s.take(i as int), gap_rows()),
            keys@.len() == g@.len(),
            forall|j: int|
                0 <= j < g@.len() ==> (#[trigger] keys@[j])@ == (
                    g@[j]@.entity_type,
                    error_pattern(g@[j]@.error),
                ),
        decreases failures@.len() - i,
    {
        proof {
            lemma_take_step(s, i as int);
            assert(s[i as int] == failures@[i as int]@);
        }
        let pattern = pattern_of(&failures[i].error);
        if !same(pattern.as_str(), "AuthzDenied") {
            let ghost was = views(g@);
            keys.push((failures[i].entity_type.clone(), pattern));
            g.push(&failures[i]);
            assert(views(g@) =~= was.push(s[i as int]));
        }
        i = i + 1;
    }
    assert(s.take(i as int) =~= s);
    let ghost gs = views(g@);
    assert(views(keys@) =~= row_keys(gs));
    let ks = sorted_pairs(&keys);
    let ghost kss = views(ks@);
    let mut r: Vec<UnmetIntent> = Vec::new();
    let mut i: usize = 0;
    while i < ks.len()
        invariant
            i <= ks@.len(),
            countable(s),
            gs == keep(s, gap_rows()),
            gs == views(g@),
            times == views(submitted_specs@),
            kss == views(ks@),
            kss == sorted_keys(row_keys(gs)),
            keys@.len() == g@.len(),
            forall|j: int|
                0 <= j < g@.len() ==> (#[trigger] keys@[j])@ == (
                    g@[j]@.entity_type,
                    error_pattern(g@[j]@.error),
                ),
            r@.len() == i,
            forall|j: int|
                0 <= j < i ==> (#[trigger] r@[j])@ == unmet_rows(
                    kss[j],
                    keep(gs, rows_under(kss[j])),
                    listed(times, kss[j].0),
                ),
        decreases ks@.len() - i,
    {
        let ghost k = kss[i as int];
        assert(k == ks@[i as int]@);
        let mut m: Vec<&UnmetIntentAggRow> = Vec::new();
        let mut j: usize = 0;
        assert(gs.take(0) =~= Seq::<RowView>::empty());
        assert(views(m@) =~= Seq::<RowView>::empty());
        while j < g.len()
            invariant
                j <= g@.len(),
                i < ks@.len(),
                gs == views(g@),
                k == ks@[i as int]@,
                keys@.len() == g@.len(),
                forall|j: int|
                    0 <= j < g@.len() ==> (#[trigger] keys@[j])@ == (
                        g@[j]@.entity_type,
                        error_pattern(g@[j]@.error),
                    ),
                views(m@) == keep(gs.take(j as int), rows_under(k)),
            decreases g@.len() - j,
        {
            proof {
                lemma_take_step(gs, j as int);
                assert(gs[j as int] == g@[j as int]@);
            }
            if same(keys[j].0.as_str(), ks[i].0.as_str()) && same(
                keys[j].1.as_str(),
                ks[i].1.as_str(),
            ) {
                let ghost was = views(m@);
                m.push(g[j]);
                assert(views(m@) =~= was.push(gs[j as int]));
            }
            j = j + 1;
        }
        proof {
            assert(gs.take(j as int) =~= gs);
            crate::order::lemma_sorted_keys(row_keys(gs));
            assert(kss[i as int] == k);
            assert(kss.contains(k));
            assert(row_keys(gs).contains(k));
            let at = choose|at: int| 0 <= at < row_keys(gs).len() && row_keys(gs)[at] == k;
            lemma_keep(gs, rows_under(k));
            assert(rows_under(k)(gs[at]));
            assert(keep(gs, rows_under(k)).contains(gs[at]));
            assert(total(keep(keep(s, gap_rows()), rows_under(k))) <= u64::MAX);
        }
        let submitted = find_listed(submitted_specs, ks[i].0.as_str());
        r.push(summarize_rows(&ks[i], &m, submitted));
        i = i + 1;
    }
    assert(views(r@) =~= unmet_from_rows(s, times));
    r
}

/// Unmet intents come by type, then by pattern, each once; none is a matter of
/// authorization; and every failure that something lacking caused is in one.
pub proof fn lemma_unmet_intents(s: Seq<EntryView>)
    ensures
        ({
            let u = unmet_intents(s);
            let keys = Seq::new(u.len(), |i: int| (u[i].entity_type, u[i].error_pattern));
            &&& crate::order::strictly_sorted(keys)
            &&& forall|i: int|
                0 <= i < u.len() ==> (#[trigger] u[i]).error_pattern != "AuthzDenied"@
                    && u[i].failure_count > 0
            &&& forall|i: int|
                0 <= i < s.len() && is_gap(#[trigger] s[i]) ==> keys.contains(
                    (s[i].entity_type, error_pattern(s[i].error)),
                )
        }),
{
    let u = unmet_intents(s);
    let keys = Seq::new(u.len(), |i: int| (u[i].entity_type, u[i].error_pattern));
    let g = keep(s, gaps());
    let ks = sorted_keys(gap_keys(g));
    crate::order::lemma_sorted_keys(gap_keys(g));
    lemma_keep(s, gaps());
    assert(keys =~= ks);
    assert forall|i: int| 0 <= i < u.len() implies (#[trigger] u[i]).error_pattern
        != "AuthzDenied"@ && u[i].failure_count > 0 by {
        assert(ks.contains(ks[i]));
        assert(gap_keys(g).contains(ks[i]));
        let at = choose|at: int| 0 <= at < gap_keys(g).len() && gap_keys(g)[at] == ks[i];
        assert(gaps()(g[at]));
        lemma_keep(g, under(ks[i]));
        assert(under(ks[i])(g[at]));
        assert(keep(g, under(ks[i])).contains(g[at]));
    }
    assert forall|i: int| 0 <= i < s.len() && is_gap(#[trigger] s[i]) implies keys.contains(
        (s[i].entity_type, error_pattern(s[i].error)),
    ) by {
        assert(gaps()(s[i]));
        assert(g.contains(s[i]));
        let at = choose|at: int| 0 <= at < g.len() && g[at] == s[i];
        assert(gap_keys(g)[at] == (s[i].entity_type, error_pattern(s[i].error)));
        assert(gap_keys(g).contains(gap_keys(g)[at]));
    }
}

/// Once a spec is submitted for a type, all its unmet intents stand as resolved;
/// until then they stand as open.
pub proof fn lemma_resolved(s: Seq<EntryView>, i: int)
    requires
        0 <= i < unmet_intents(s).len(),
    ensures
        ({
            let u = unmet_intents(s)[i];
            &&& u.status == "resolved"@ <==> keep(s, submissions(u.entity_type)).len() > 0
            &&& u.status == "open"@ <==> keep(s, submissions(u.entity_type)).len() == 0
        }),
{
    reveal_strlit("resolved");
    reveal_strlit("open");
    assert("resolved"@.len() == 8);
    assert("open"@.len() == 4);
}

/// A failure as a row of its own.
pub open spec fn row_of(e: EntryView) -> RowView {
    RowView {
        entity_type: e.entity_type,
        action: e.action,
        error: e.error,
        count: 1,
        first_seen: e.timestamp,
        last_seen: e.timestamp,
    }
}

/// Failures as rows, one for each.
pub open spec fn rows_of(s: Seq<EntryView>) -> Seq<RowView> {
    Seq::new(s.len(), |i: int| row_of(s[i]))
}

proof fn lemma_rows_of_keep(
    s: Seq<EntryView>,
    keeps: spec_fn(EntryView) -> bool,
    row_keeps: spec_fn(RowView) -> bool,
)
    requires
        forall|i: int| 0 <= i < s.len() ==> keeps(#[trigger] s[i]) == row_keeps(row_of(s[i])),
    ensures
        keep(rows_of(s), row_keeps) == rows_of(keep(s, keeps)),
    decreases s.len(),
{
    if s.len() > 0 {
        let front = s.drop_last();
        assert(rows_of(s).drop_last() =~= rows_of(front));
        assert(rows_of(s).last() == row_of(s.last()));
        assert forall|i: int| 0 <= i < front.len() implies keeps(#[trigger] front[i]) == row_keeps(
            row_of(front[i]),
        ) by {
            assert(front[i] == s[i]);
        }
        lemma_rows_of_keep(front, keeps, row_keeps);
        assert(keeps(s[s.len() - 1]) == row_keeps(row_of(s[s.len() - 1])));
        let rest = keep(front, keeps);
        assert(rows_of(rest.push(s.last())) =~= rows_of(rest).push(row_of(s.last())));
    } else {
        assert(rows_of(s) =~= Seq::<RowView>::empty());
        assert(rows_of(keep(s, keeps)) =~= Seq::<RowView>::empty());
    }
}

proof fn lemma_timeline_len(m: Seq<EntryView>)
    ensures
        timeline(m).len() == m.len(),
        forall|x: EntryView| timeline(m).contains(x) <==> m.contains(x),
{
    broadcast use vstd::seq_lib::group_to_multiset_ensures;

    lemma_timeline(m);
    assert(timeline(m).len() == timeline(m).to_multiset().len());
    assert(m.len() == m.to_multiset().len());
    assert forall|x: EntryView| timeline(m).contains(x) <==> m.contains(x) by {
        assert(timeline(m).to_multiset().contains(x) <==> m.to_multiset().contains(x));
    }
}

proof fn lemma_rows_bounds(m: Seq<EntryView>)
    requires
        m.len() > 0,
    ensures
        total(rows_of(m)) == m.len(),
        forall|i: int|
            0 <= i < m.len() ==> !text_lt((#[trigger] m[i]).timestamp, first_of_rows(rows_of(m)))
                && !text_lt(last_of_rows(rows_of(m)), m[i].timestamp),
        exists|i: int|
            0 <= i < m.len() && (#[trigger] m[i]).timestamp == first_of_rows(rows_of(m)),
        exists|i: int|
            0 <= i < m.len() && (#[trigger] m[i]).timestamp == last_of_rows(rows_of(m)),
    decreases m.len(),
{
    let front = m.drop_last();
    let n = m.len() as int;
    assert(rows_of(m).drop_last() =~= rows_of(front));
    assert(rows_of(m).last() == row_of(m.last()));
    <Seq<char> as KeyOrder>::irreflexive(m.last().timestamp);
    if n == 1 {
        assert(total(rows_of(front)) == 0);
        assert(rows_of(m)[0] == row_of(m[0]));
        assert(m[0].timestamp == first_of_rows(rows_of(m)));
        assert(m[0].timestamp == last_of_rows(rows_of(m)));
    } else {
        lemma_rows_bounds(front);
        let a = first_of_rows(rows_of(front));
        let b = last_of_rows(rows_of(front));
        let last = m[n - 1].timestamp;
        assert forall|i: int| 0 <= i < m.len() implies !text_lt(
            (#[trigger] m[i]).timestamp,
            first_of_rows(rows_of(m)),
        ) && !text_lt(last_of_rows(rows_of(m)), m[i].timestamp) by {
            if i < n - 1 {
                assert(front[i] == m[i]);
                lemma_text_weak(m[i].timestamp, a, last);
                lemma_text_weak(last, b, m[i].timestamp);
                lemma_text_weak(last, a, a);
                lemma_text_weak(b, last, last);
            }
        }
        let i = choose|i: int| 0 <= i < front.len() && (#[trigger] front[i]).timestamp == a;
        let j = choose|j: int| 0 <= j < front.len() && (#[trigger] front[j]).timestamp == b;
        assert(m[i] == front[i] && m[j] == front[j]);
        assert(m[n - 1].timestamp == last);
    }
}

proof fn lemma_rows_together(m: Seq<EntryView>)
    requires
        m.len() > 0,
    ensures
        total(rows_of(m)) == m.len(),
        first_of_rows(rows_of(m)) == timeline(m)[0].timestamp,
        last_of_rows(rows_of(m)) == timeline(m).last().timestamp,
{
    lemma_rows_bounds(m);
    lemma_timeline(m);
    lemma_timeline_len(m);
    let t = timeline(m);
    let n = t.len() as int;
    let a = first_of_rows(rows_of(m));
    let b = last_of_rows(rows_of(m));
    assert(m.contains(t[0]) && m.contains(t[n - 1])) by {
        assert(t.contains(t[0]) && t.contains(t[n - 1]));
    }
    let p = choose|p: int| 0 <= p < m.len() && m[p] == t[0];
    let q = choose|q: int| 0 <= q < m.len() && m[q] == t[n - 1];
    assert(!text_lt(m[p].timestamp, a) && !text_lt(b, m[q].timestamp));
    let i = choose|i: int| 0 <= i < m.len() && (#[trigger] m[i]).timestamp == a;
    let j = choose|j: int| 0 <= j < m.len() && (#[trigger] m[j]).timestamp == b;
    assert(m.contains(m[i]) && m.contains(m[j]));
    assert(t.contains(m[i]) && t.contains(m[j]));
    let k = choose|k: int| 0 <= k < n && t[k] == m[i];
    let l = choose|l: int| 0 <= l < n && t[l] == m[j];
    assert(!text_lt(a, t[0].timestamp)) by {
        if k > 0 {
            assert(!earlier()(t[k], t[0]));
        } else {
            <Seq<char> as KeyOrder>::irreflexive(a);
        }
    }
    assert(!text_lt(t[n - 1].timestamp, b)) by {
        if l < n - 1 {
            assert(!earlier()(t[n - 1], t[l]));
        } else {
            <Seq<char> as KeyOrder>::irreflexive(b);
        }
    }
    <Seq<char> as KeyOrder>::total(a, t[0].timestamp);
    <Seq<char> as KeyOrder>::total(b, t[n - 1].timestamp);
}

/// Failures that are counted in a database show the same unmet intents as the
/// failures themselves: the same types, patterns, first actions, numbers and
/// times; and the same status and advice, where the same specs were submitted.
/// Only samples of requests are not there.
pub proof fn lemma_rows_agree(s: Seq<EntryView>, submitted: Seq<(Seq<char>, Seq<char>)>, i: int)
    requires
        forall|t: Seq<char>| #[trigger] listed(submitted, t) == submitted_at(s, t),
        0 <= i < unmet_intents(s).len(),
    ensures
        ({
            let rows = rows_of(keep(s, gaps()));
            let u = unmet_intents(s)[i];
            let w = unmet_from_rows(rows, submitted)[i];
            &&& unmet_from_rows(rows, submitted).len() == unmet_intents(s).len()
            &&& w == (UnmetView { sample_body: None, sample_intent: None, ..u })
        }),
{
    let g = keep(s, gaps());
    let rows = rows_of(g);
    lemma_keep(s, gaps());
    let all = |e: EntryView| true;
    assert forall|j: int| 0 <= j < g.len() implies all(#[trigger] g[j]) == gap_rows()(
        row_of(g[j]),
    ) by {
        assert(gaps()(g[j]));
    }
    lemma_rows_of_keep(g, all, gap_rows());
    lemma_keep_all(g, all);
    assert(keep(rows, gap_rows()) == rows);
    assert(row_keys(rows) =~= gap_keys(g));
    let ks = sorted_keys(gap_keys(g));
    let k = ks[i];
    lemma_rows_of_keep(g, under(k), rows_under(k));
    let m = keep(g, under(k));
    crate::order::lemma_sorted_keys(gap_keys(g));
    assert(ks.contains(ks[i]));
    assert(gap_keys(g).contains(ks[i]));
    let at = choose|at: int| 0 <= at < gap_keys(g).len() && gap_keys(g)[at] == k;
    lemma_keep(g, under(k));
    assert(under(k)(g[at]));
    assert(m.contains(g[at]));
    lemma_rows_together(m);
    assert(rows_of(m)[0] == row_of(m[0]));
}

proof fn lemma_keep_all(s: Seq<EntryView>, all: spec_fn(EntryView) -> bool)
    requires
        forall|e: EntryView| #[trigger] all(e),
    ensures
        keep(s, all) == s,
    decreases s.len(),
{
    if s.len() > 0 {
        lemma_keep_all(s.drop_last(), all);
        assert(s.drop_last().push(s.last()) =~= s);
    } else {
        assert(keep(s, all) =~= s);
    }
}

} // verus!
