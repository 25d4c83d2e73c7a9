//! Feature requests: what agents keep asking of the platform in vain.
use vstd::prelude::*;

use crate::keys::arrange;
use crate::keys::sorted_pairs;
use crate::order::arranged;
use crate::order::in_order;
use crate::order::keep;
use crate::order::lemma_take_step;
use crate::order::opt_view;
use crate::order::sorted_keys;
use crate::order::views;
use crate::text::cat6;
use crate::text::decimal;
use crate::text::decimal_text;
use crate::text::same;
use crate::trajectory::error_pattern;
use crate::trajectory::pattern_of;
use crate::trajectory::EntryView;
use crate::trajectory::TrajectoryEntry;
use crate::trajectory::TrajectorySource;
use crate::unmet::is_gap;
use crate::unmet::shows_gap;

verus! {

/// The number of failures from which on a feature is requested.
pub const FEATURE_REQUEST_THRESHOLD: u64 = 3;

/// What the platform lacks.
#[derive(Clone, Copy, Debug, PartialEq, Eq, Structural)]
pub enum PlatformGapCategory {
    /// A capability.
    MissingCapability,
    /// A method on something that is there.
    MissingMethod,
}

/// What became of a feature request.
#[derive(Clone, Copy, Debug, PartialEq, Eq, Structural)]
pub enum FeatureRequestDisposition {
    /// Nothing yet.
    Open,
    /// It was taken note of.
    Acknowledged,
    /// It is planned.
    Planned,
    /// It will not be done.
    WontFix,
    /// It is done.
    Resolved,
}

/// A feature that agents keep asking for.
pub struct FeatureRequestView {
    /// What the platform lacks.
    pub category: PlatformGapCategory,
    /// What was tried, how often, and what came of it.
    pub description: Seq<char>,
    /// How often it was tried.
    pub frequency: nat,
    /// When it was tried.
    pub trajectory_refs: Seq<Seq<char>>,
    /// What became of the request.
    pub disposition: FeatureRequestDisposition,
    /// What a developer noted.
    pub developer_notes: Option<Seq<char>>,
}

/// A feature that agents keep asking for.
pub struct FeatureRequestRecord {
    /// What the platform lacks.
    pub category: PlatformGapCategory,
    /// What was tried, how often, and what came of it.
    pub description: String,
    /// How often it was tried.
    pub frequency: u64,
    /// When it was tried.
    pub trajectory_refs: Vec<String>,
    /// What became of the request.
    pub disposition: FeatureRequestDisposition,
    /// What a developer noted.
    pub developer_notes: Option<String>,
}

impl View for FeatureRequestRecord {
    type V = FeatureRequestView;

    open spec fn view(&self) -> FeatureRequestView {
        FeatureRequestView {
            category: self.category,
            description: self.description@,
            frequency: self.frequency as nat,
            trajectory_refs: views(self.trajectory_refs@),
            disposition: self.disposition,
            developer_notes: opt_view(self.developer_notes),
        }
    }
}

/// The test for failures of the platform itself that something lacking caused.
pub open spec fn platform_gaps() -> spec_fn(EntryView) -> bool {
    |e: EntryView| e.source == Some(TrajectorySource::Platform) && is_gap(e)
}

/// The action and the error pattern of each entry.
pub open spec fn wish_keys(s: Seq<EntryView>) -> Seq<(Seq<char>, Seq<char>)> {
    Seq::new(s.len(), |i: int| (s[i].action, error_pattern(s[i].error)))
}

/// The test for entries with one action and one pattern.
pub open spec fn wishing(k: (Seq<char>, Seq<char>)) -> spec_fn(EntryView) -> bool {
    |e: EntryView| e.action == k.0 && error_pattern(e.error) == k.1
}

/// The times of entries.
pub open spec fn times(s: Seq<EntryView>) -> Seq<Seq<char>> {
    Seq::new(s.len(), |i: int| s[i].timestamp)
}

/// What the platform lacks where errors fall under a pattern.
pub open spec fn gap_category(pattern: Seq<char>) -> PlatformGapCategory {
    if pattern == "ActionNotFound"@ {
        PlatformGapCategory::MissingMethod
    } else {
        PlatformGapCategory::MissingCapability
    }
}

/// The request that the failures `m` of one action under one pattern make.
pub open spec fn feature_request(
    k: (Seq<char>, Seq<char>),
    m: Seq<EntryView>,
) -> FeatureRequestView {
    FeatureRequestView {
        category: gap_category(k.1),
        description: "Agents tried '"@ + k.0 + "' "@ + decimal(m.len()) + " times — "@ + (
        match m[0].error {
            Some(e) => e,
            None => Seq::empty(),
        }),
        frequency: m.len(),
        trajectory_refs: times(m),
        disposition: FeatureRequestDisposition::Open,
        developer_notes: None,
    }
}

/// The requests for those of the given keys that occur often enough.
pub open spec fn requests_among(
    g: Seq<EntryView>,
    of: Seq<(Seq<char>, Seq<char>)>,
) -> Seq<FeatureRequestView>
    decreases of.len(),
{
    if of.len() == 0 {
        Seq::empty()
    } else {
        let rest = requests_among(g, of.drop_last());
        let m = keep(g, wishing(of.last()));
        if m.len() >= FEATURE_REQUEST_THRESHOLD {
            rest.push(feature_request(of.last(), m))
        } else {
            rest
        }
    }
}

/// The first request is listed before the second: it was made more often.
pub open spec fn more_frequent() -> spec_fn(FeatureRequestView, FeatureRequestView) -> bool {
    |a: FeatureRequestView, b: FeatureRequestView| a.frequency > b.frequency
}

/// The requests in a list of entries, the most frequent first, and those of one
/// frequency by action, then by pattern.
pub open spec fn feature_requests(s: Seq<EntryView>) -> Seq<FeatureRequestView> {
    let g = keep(s, platform_gaps());
    arranged(requests_among(g, sorted_keys(wish_keys(g))), more_frequent())
}

fn is_platform_gap(e: &TrajectoryEntry) -> (r: bool)
    ensures
        r == platform_gaps()(e@),
{
    match e.source {
        Some(TrajectorySource::Platform) => shows_gap(e),
        _ => false,
    }
}

fn request(k: &(String, String), m: &Vec<&TrajectoryEntry>) -> (r: FeatureRequestRecord)
    requires
        m@.len() > 0,
    ensures
        r@ == feature_request(k@, views(m@)),
{
    let ghost ms = views(m@);
    assert(ms[0] == m@[0]@);
    let mut refs: Vec<String> = Vec::new();
    let mut i: usize = 0;
    while i < m.len()
        invariant
            i <= m@.len(),
            refs@.len() == i,
            forall|j: int| 0 <= j < i ==> (#[trigger] refs@[j])@ == m@[j]@.timestamp,
        decreases m@.len() - i,
    {
        refs.push(m[i].timestamp.clone());
        i = i + 1;
    }
    assert(views(refs@) =~= times(ms));
    let category = if same(k.1.as_str(), "ActionNotFound") {
        PlatformGapCategory::MissingMethod
    } else {
        PlatformGapCategory::MissingCapability
    };
    let n = decimal_text(m.len() as u64);
    let error = match &m[0].error {
        Some(e) => e.clone(),
        None => {
            let e = String::new();
            assert(e@ =~= Seq::empty());
            e
        },
    };
    FeatureRequestRecord {
        category,
        description: cat6(
            "Agents tried '",
            k.0.as_str(),
            "' ",
            n.as_str(),
            " times — ",
            error.as_str(),
        ),
        frequency: m.len() as u64,
        trajectory_refs: refs,
        disposition: FeatureRequestDisposition::Open,
        developer_notes: None,
    }
}

fn rank_requests(v: Vec<FeatureRequestRecord>) -> (r: Vec<FeatureRequestRecord>)
    ensures
        views(r@) == arranged(views(v@), more_frequent()),
{
    let ghost all = v@;
    let ghost order = |a: FeatureRequestRecord, b: FeatureRequestRecord| more_frequent()(a@, b@);
    let before = |a: &FeatureRequestRecord, b: &FeatureRequestRecord| -> (d: bool)
        ensures
            d == order(*a, *b),
        { a.frequency > b.frequency };
    proof {
        crate::keys::lemma_arranged_views(all, order, more_frequent());
    }
    arrange(v, before, Ghost(order))
}

/// The feature requests in a list of entries, the most frequent first.
pub fn generate_feature_requests(entries: &Vec<TrajectoryEntry>) -> (r: Vec<FeatureRequestRecord>)
    ensures
        views(r@) == feature_requests(views(entries@)),
{
    let ghost s = views(entries@);
    let mut g: Vec<&TrajectoryEntry> = Vec::new();
    let mut keys: Vec<(String, String)> = Vec::new();
    let mut i: usize = 0;
    assert(s.take(0) =~= Seq::<EntryView>::empty());
    assert(views(g@) =~= Seq::<EntryView>::empty());
    while i < entries.len()
        invariant
            i <= entries@.len(),
            s == views(entries@),
            views(g@) == keep(s.take(i as int), platform_gaps()),
            keys@.len() == g@.len(),
            forall|j: int|
                0 <= j < g@.len() ==> (#[trigger] keys@[j])@ == (
                    g@[j]@.action,
                    error_pattern(g@[j]@.error),
                ),
        decreases entries@.len() - i,
    {
        proof {
            lemma_take_step(s, i as int);
            assert(s[i as int] == entries@[i as int]@);
        }
        if is_platform_gap(&entries[i]) {
            let ghost was = views(g@);
            keys.push((entries[i].action.clone(), pattern_of(&entries[i].error)));
            g.push(&entries[i]);
            assert(views(g@) =~= was.push(s[i as int]));
        }
        i = i + 1;
    }
    assert(s.take(i as int) =~= s);
    let ghost gs = views(g@);
    assert(views(keys@) =~= wish_keys(gs));
    let ks = sorted_pairs(&keys);
    let ghost kss = views(ks@);
    let mut r: Vec<FeatureRequestRecord> = Vec::new();
    let mut i: usize = 0;
    assert(kss.take(0) =~= Seq::<(Seq<char>, Seq<char>)>::empty());
    assert(views(r@) =~= Seq::<FeatureRequestView>::empty());
    while i < ks.len()
        invariant
            i <= ks@.len(),
            gs == views(g@),
            kss == views(ks@),
            keys@.len() == g@.len(),
            forall|j: int|
                0 <= j < g@.len() ==> (#[trigger] keys@[j])@ == (
                    g@[j]@.action,
                    error_pattern(g@[j]@.error),
                ),
            views(r@) == requests_among(gs, kss.take(i as int)),
        decreases ks@.len() - i,
    {
        let ghost k = kss[i as int];
        proof {
            lemma_take_step(kss, i as int);
            assert(k == ks@[i as int]@);
        }
        let mut m: Vec<&TrajectoryEntry> = Vec::new();
        let mut j: usize = 0;
        assert(gs.take(0) =~= Seq::<EntryView>::empty());
        assert(views(m@) =~= Seq::<EntryView>::empty());
        while j < g.len()
            invariant
                j <= g@.len(),
                i < ks@.len(),
                gs == views(g@),
                k == ks@[i as int]@,
                keys@.len() == g@.len(),
                forall|j: int|
                    0 <= j < g@.len() ==> (#[trigger] keys@[j])@ == (
                        g@[j]@.action,
                        error_pattern(g@[j]@.error),
                    ),
                views(m@) == keep(gs.take(j as int), wishing(k)),
            decreases g@.len() - j,
        {
            proof {
                lemma_take_step(gs, j as int);
                assert(gs[j as int] == g@[j as int]@);
            }
            if same(keys[j].0.as_str(), ks[i].0.as_str()) && same(
                keys[j].1.as_str(),
                ks[i].1.as_str(),
            ) {
                let ghost was = views(m@);
                m.push(g[j]);
                assert(views(m@) =~= was.push(gs[j as int]));
            }
            j = j + 1;
        }
        assert(gs.take(j as int) =~= gs);
        if m.len() as u64 >= FEATURE_REQUEST_THRESHOLD {
            let ghost was = views(r@);
            r.push(request(&ks[i], &m));
            assert(views(r@) =~= was.push(feature_request(k, keep(gs, wishing(k)))));
        }
        i = i + 1;
    }
    assert(kss.take(i as int) =~= kss);
    rank_requests(r)
}

proof fn lemma_among(g: Seq<EntryView>, of: Seq<(Seq<char>, Seq<char>)>)
    ensures
        forall|i: int|
            0 <= i < requests_among(g, of).len() ==> (#[trigger] requests_among(g, of)[i]).frequency
                >= FEATURE_REQUEST_THRESHOLD,
    decreases of.len(),
{
    if of.len() > 0 {
        lemma_among(g, of.drop_last());
        let rest = requests_among(g, of.drop_last());
        assert forall|i: int| 0 <= i < requests_among(g, of).len() implies (
        #[trigger] requests_among(g, of)[i]).frequency >= FEATURE_REQUEST_THRESHOLD by {
            if i < rest.len() {
                assert(rest[i] == requests_among(g, of)[i]);
            }
        }
    }
}

/// The requests come with the most frequent first, and each was made often
/// enough.
pub proof fn lemma_feature_requests(s: Seq<EntryView>)
    ensures
        in_order(feature_requests(s), more_frequent()),
        forall|i: int|
            0 <= i < feature_requests(s).len() ==> (#[trigger] feature_requests(s)[i]).frequency
                >= FEATURE_REQUEST_THRESHOLD,
{
    let g = keep(s, platform_gaps());
    let of = sorted_keys(wish_keys(g));
    let all = requests_among(g, of);
    crate::order::lemma_arranged(all, more_frequent());
    lemma_among(g, of);
    assert forall|i: int| 0 <= i < feature_requests(s).len() implies (
    #[trigger] feature_requests(s)[i]).frequency >= FEATURE_REQUEST_THRESHOLD by {
        crate::order::lemma_arranged_member(all, more_frequent(), i);
        let j = choose|j: int| 0 <= j < all.len() && all[j] == feature_requests(s)[i];
        assert(all[j].frequency >= FEATURE_REQUEST_THRESHOLD);
    }
}

} // verus!
