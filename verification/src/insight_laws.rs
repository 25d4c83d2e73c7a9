//! What insights, unmet intents and feature requests say of the entries that they
//! were drawn from.
use vstd::prelude::*;

use crate::evidence_laws::lemma_timeline;
use crate::feature_requests::feature_request;
use crate::feature_requests::feature_requests;
use crate::feature_requests::more_frequent;
use crate::feature_requests::platform_gaps;
use crate::feature_requests::requests_among;
use crate::feature_requests::wish_keys;
use crate::feature_requests::wishing;
use crate::feature_requests::FeatureRequestDisposition;
use crate::feature_requests::FeatureRequestView;
use crate::feature_requests::PlatformGapCategory;
use crate::insights::attempting;
use crate::insights::attempts;
use crate::insights::draft;
use crate::insights::drafts;
use crate::insights::drafts_among;
use crate::insights::insight;
use crate::insights::insights;
use crate::insights::insights_told;
use crate::insights::lacking;
use crate::insights::more_urgent;
use crate::insights::refused;
use crate::insights::submitting;
use crate::insights::well;
use crate::insights::AssessmentView;
use crate::insights::DraftView;
use crate::insights::InsightCategory;
use crate::insights::InsightView;
use crate::insights::Reason;
use crate::intent_laws::tells_missing_set;
use crate::order::keep;
use crate::order::lemma_arranged_keeps;
use crate::order::lemma_keep;
use crate::order::sorted_keys;
use crate::order::text_lt;
use crate::pattern_laws::lemma_latest;
use crate::score::Score;
use crate::text::decimal;
use crate::timeline::earlier;
use crate::timeline::timeline;
use crate::trajectory::error_pattern;
use crate::trajectory::EntryView;
use crate::trajectory::TrajectorySource;
use crate::unmet::gap_keys;
use crate::unmet::gaps;
use crate::unmet::submissions;
use crate::unmet::under;
use crate::unmet::unmet;
use crate::unmet::unmet_intents;

verus! {

/// The test for attempts at one action on one entity type.
pub open spec fn tries(p: (Seq<char>, Seq<char>)) -> spec_fn(EntryView) -> bool {
    |e: EntryView| e.entity_type == p.0 && e.action == p.1
}

/// The test for attempts at one action on one entity type that succeeded.
pub open spec fn tries_well(p: (Seq<char>, Seq<char>)) -> spec_fn(EntryView) -> bool {
    |e: EntryView| e.entity_type == p.0 && e.action == p.1 && e.success
}

/// The test for attempts at one action on one entity type that were denied.
pub open spec fn tries_in_vain(p: (Seq<char>, Seq<char>)) -> spec_fn(EntryView) -> bool {
    |e: EntryView| e.entity_type == p.0 && e.action == p.1 && e.authz_denied == Some(true)
}

/// An attempt at one action on one entity type says that the type is missing.
pub open spec fn type_missing(s: Seq<EntryView>, p: (Seq<char>, Seq<char>)) -> bool {
    exists|j: int|
        0 <= j < s.len() && (#[trigger] s[j]).entity_type == p.0 && s[j].action == p.1
            && s[j].error is Some && tells_missing_set(s[j].error->0)
}

/// A spec was submitted for an entity type.
pub open spec fn spec_submitted(s: Seq<EntryView>, entity_type: Seq<char>) -> bool {
    exists|j: int|
        0 <= j < s.len() && (#[trigger] s[j]).entity_type == entity_type && s[j].action
            == "SubmitSpec"@
}

/// The draft is for the action on the entity type, with its figures, for the
/// reason that the entries give.
pub open spec fn drafted(d: DraftView, s: Seq<EntryView>, p: (Seq<char>, Seq<char>)) -> bool {
    let n = keep(s, tries(p)).len();
    let vain = keep(s, tries_in_vain(p)).len();
    &&& d.entity_type == p.0
    &&& d.action == p.1
    &&& d.signal.volume == n
    &&& d.signal.successes == keep(s, tries_well(p)).len()
    &&& d.signal.trend == crate::insights::Trend::Stable
    &&& type_missing(s, p) && spec_submitted(s, p.0) ==> d.reason == Reason::Submitted
        && d.signal.intent == "Entity type '"@ + p.0 + "' — "@ + "spec submitted (resolved)"@
    &&& type_missing(s, p) && !spec_submitted(s, p.0) ==> d.reason == Reason::Missing
        && d.signal.intent == "Entity type '"@ + p.0 + "' — "@
        + "entity type not found (open unmet intent)"@
    &&& !type_missing(s, p) && 10 * vain > 3 * n ==> d.reason == Reason::Denied && d.signal.intent
        == "Action '"@ + p.1 + "' on '"@ + p.0 + "' denied "@ + decimal(vain) + " times"@
    &&& !type_missing(s, p) && 10 * vain <= 3 * n ==> d.reason == Reason::Figures && d.signal.intent
        == p.0 + "."@ + p.1
}

proof fn lemma_keep_both<A>(
    s: Seq<A>,
    a: spec_fn(A) -> bool,
    b: spec_fn(A) -> bool,
    both: spec_fn(A) -> bool,
)
    requires
        forall|x: A| #[trigger] both(x) == (a(x) && b(x)),
    ensures
        keep(keep(s, a), b) == keep(s, both),
    decreases s.len(),
{
    if s.len() > 0 {
        let front = s.drop_last();
        lemma_keep_both(front, a, b, both);
        if a(s.last()) {
            assert(keep(s, a).drop_last() =~= keep(front, a));
        }
        assert(both(s.last()) == (a(s.last()) && b(s.last())));
    }
}

proof fn lemma_keep_same<A>(s: Seq<A>, a: spec_fn(A) -> bool, b: spec_fn(A) -> bool)
    requires
        forall|x: A| #[trigger] a(x) == b(x),
    ensures
        keep(s, a) == keep(s, b),
    decreases s.len(),
{
    if s.len() > 0 {
        lemma_keep_same(s.drop_last(), a, b);
        assert(a(s.last()) == b(s.last()));
    }
}

proof fn lemma_keep_some<A>(s: Seq<A>, a: spec_fn(A) -> bool)
    ensures
        keep(s, a).len() > 0 <==> exists|j: int| 0 <= j < s.len() && a(#[trigger] s[j]),
{
    lemma_keep(s, a);
    if keep(s, a).len() > 0 {
        let x = keep(s, a)[0];
        assert(a(keep(s, a)[0]) && s.contains(x));
        let j = choose|j: int| 0 <= j < s.len() && s[j] == x;
        assert(a(s[j]));
    }
    if exists|j: int| 0 <= j < s.len() && a(#[trigger] s[j]) {
        let j = choose|j: int| 0 <= j < s.len() && a(#[trigger] s[j]);
        assert(keep(s, a).contains(s[j]));
    }
}

proof fn lemma_drafted(s: Seq<EntryView>, p: (Seq<char>, Seq<char>))
    ensures
        drafted(draft(s, p), s, p),
{
    let m = keep(s, attempting(p));
    lemma_keep_same(s, attempting(p), tries(p));
    lemma_keep_both(s, attempting(p), well(), tries_well(p));
    lemma_keep_both(s, attempting(p), refused(), tries_in_vain(p));
    lemma_keep_some(m, lacking());
    lemma_keep_some(s, submitting(p.0));
    lemma_keep(s, attempting(p));
    if keep(m, lacking()).len() > 0 {
        let i = choose|i: int| 0 <= i < m.len() && lacking()(#[trigger] m[i]);
        assert(attempting(p)(m[i]) && s.contains(m[i]));
        let j = choose|j: int| 0 <= j < s.len() && s[j] == m[i];
        assert(type_missing(s, p));
    }
    if type_missing(s, p) {
        let j = choose|j: int|
            0 <= j < s.len() && (#[trigger] s[j]).entity_type == p.0 && s[j].action == p.1
                && s[j].error is Some && tells_missing_set(s[j].error->0);
        assert(attempting(p)(s[j]));
        assert(m.contains(s[j]));
        let i = choose|i: int| 0 <= i < m.len() && m[i] == s[j];
        assert(lacking()(m[i]));
    }
    if keep(s, submitting(p.0)).len() > 0 {
        let j = choose|j: int| 0 <= j < s.len() && submitting(p.0)(#[trigger] s[j]);
        assert(spec_submitted(s, p.0));
    }
    if spec_submitted(s, p.0) {
        let j = choose|j: int|
            0 <= j < s.len() && (#[trigger] s[j]).entity_type == p.0 && s[j].action
                == "SubmitSpec"@;
        assert(submitting(p.0)(s[j]));
    }
}

proof fn lemma_drafts_from(s: Seq<EntryView>, of: Seq<(Seq<char>, Seq<char>)>)
    ensures
        forall|d: DraftView| #[trigger]
            drafts_among(s, of).contains(d) ==> exists|k: int|
                0 <= k < of.len() && d == draft(s, #[trigger] of[k]) && keep(
                    s,
                    attempting(of[k]),
                ).len() >= 2,
        forall|k: int|
            0 <= k < of.len() && keep(s, attempting(#[trigger] of[k])).len() >= 2 ==> drafts_among(
                s,
                of,
            ).contains(draft(s, of[k])),
    decreases of.len(),
{
    if of.len() > 0 {
        let front = of.drop_last();
        let rest = drafts_among(s, front);
        let all = drafts_among(s, of);
        lemma_drafts_from(s, front);
        assert forall|d: DraftView| #[trigger] all.contains(d) implies exists|k: int|
            0 <= k < of.len() && d == draft(s, #[trigger] of[k]) && keep(
                s,
                attempting(of[k]),
            ).len() >= 2 by {
            let i = choose|i: int| 0 <= i < all.len() && all[i] == d;
            if i < rest.len() {
                assert(rest[i] == d);
                assert(rest.contains(d));
                let k = choose|k: int|
                    0 <= k < front.len() && d == draft(s, #[trigger] front[k]) && keep(
                        s,
                        attempting(front[k]),
                    ).len() >= 2;
                assert(of[k] == front[k]);
            } else {
                assert(of[of.len() - 1] == of.last());
            }
        }
        assert forall|k: int|
            0 <= k < of.len() && keep(s, attempting(#[trigger] of[k])).len()
                >= 2 implies all.contains(draft(s, of[k])) by {
            if k < front.len() {
                assert(front[k] == of[k]);
                assert(rest.contains(draft(s, of[k])));
                let i = choose|i: int| 0 <= i < rest.len() && rest[i] == draft(s, of[k]);
                assert(all[i] == rest[i]);
            } else {
                assert(all[all.len() - 1] == draft(s, of[k]));
            }
        }
    }
}

/// Every action on an entity type that was attempted at least twice is drafted,
/// with its figures and for its reason, and no other is.
pub proof fn lemma_what_is_drafted(s: Seq<EntryView>)
    ensures
        forall|i: int|
            0 <= i < drafts(s).len() ==> {
                let d = #[trigger] drafts(s)[i];
                drafted(d, s, (d.entity_type, d.action)) && d.signal.volume >= 2
            },
        forall|j: int|
            0 <= j < s.len() ==> ({
                let p = ((#[trigger] s[j]).entity_type, s[j].action);
                keep(s, tries(p)).len() >= 2 ==> exists|i: int|
                    0 <= i < drafts(s).len() && drafted(#[trigger] drafts(s)[i], s, p)
            }),
{
    let of = sorted_keys(attempts(s));
    crate::order::lemma_sorted_keys(attempts(s));
    lemma_drafts_from(s, of);
    assert forall|i: int| 0 <= i < drafts(s).len() implies ({
        let d = #[trigger] drafts(s)[i];
        drafted(d, s, (d.entity_type, d.action)) && d.signal.volume >= 2
    }) by {
        let d = drafts(s)[i];
        assert(drafts(s).contains(d));
        let k = choose|k: int|
            0 <= k < of.len() && d == draft(s, #[trigger] of[k]) && keep(
                s,
                attempting(of[k]),
            ).len() >= 2;
        lemma_drafted(s, of[k]);
        assert((d.entity_type, d.action) == of[k]);
    }
    assert forall|j: int| 0 <= j < s.len() implies ({
        let p = ((#[trigger] s[j]).entity_type, s[j].action);
        keep(s, tries(p)).len() >= 2 ==> exists|i: int|
            0 <= i < drafts(s).len() && drafted(#[trigger] drafts(s)[i], s, p)
    }) by {
        let p = (s[j].entity_type, s[j].action);
        if keep(s, tries(p)).len() >= 2 {
            assert(attempts(s)[j] == p);
            assert(attempts(s).contains(p));
            assert(of.contains(p));
            let k = choose|k: int| 0 <= k < of.len() && of[k] == p;
            lemma_keep_same(s, attempting(p), tries(p));
            assert(keep(s, attempting(of[k])).len() >= 2);
            assert(drafts(s).contains(draft(s, of[k])));
            let i = choose|i: int| 0 <= i < drafts(s).len() && drafts(s)[i] == draft(s, p);
            lemma_drafted(s, p);
            assert(drafted(drafts(s)[i], s, p));
        }
    }
}

/// The insight tells what the draft is about, as it was judged.
pub open spec fn tells(x: InsightView, d: DraftView, a: AssessmentView) -> bool {
    let n = decimal(d.signal.volume);
    &&& x.signal == d.signal
    &&& x.category == a.category
    &&& d.reason == Reason::Submitted ==> x.recommendation == "Spec for '"@ + d.entity_type
        + "' has been submitted. Monitor for approval."@ && x.priority_score
        == a.priority.halved()
    &&& d.reason == Reason::Missing ==> x.recommendation == "Consider creating '"@ + d.entity_type
        + "' entity type. "@ + n + " attempts, "@ + a.failure_percent + "% failure rate."@ && (
    a.priority.lt(Score { bits: 0x3FE0_0000_0000_0000 }) ==> x.priority_score == (Score {
        bits: 0x3FE0_0000_0000_0000,
    })) && (a.priority.ge(Score { bits: 0x3FE0_0000_0000_0000 }) ==> x.priority_score
        == a.priority)
    &&& d.reason == Reason::Denied ==> x.recommendation
        == "Consider adding Cedar permit policy for '"@ + d.action + "' on '"@ + d.entity_type
        + "'."@ && x.priority_score == a.priority
    &&& d.reason == Reason::Figures ==> x.priority_score == a.priority
    &&& d.reason == Reason::Figures && a.category == InsightCategory::UnmetIntent ==> x.recommendation
        == "Action '"@ + d.action + "' on '"@ + d.entity_type + "' has "@ + a.failure_percent
        + "% failure rate ("@ + (n + " attempts). Possible missing feature."@)
    &&& d.reason == Reason::Figures && a.category == InsightCategory::Friction ==> x.recommendation
        == "Action '"@ + d.action + "' on '"@ + d.entity_type + "' has high volume ("@ + n
        + " attempts). Consider simplifying."@
    &&& d.reason == Reason::Figures && a.category == InsightCategory::Workaround ==> x.recommendation
        == "Pattern detected on '"@ + d.entity_type + "."@ + d.action + "' — "@ + n
        + " attempts with "@ + (a.success_percent + "% success. May be a workaround."@)
    &&& d.reason == Reason::Figures && a.category == InsightCategory::PlatformGap ==> x.recommendation
        == "Platform gap: '"@ + d.action + "' on '"@ + d.entity_type + "' failed "@ + n
        + " times. Consider adding this capability."@
}

proof fn lemma_tells(d: DraftView, a: AssessmentView)
    ensures
        tells(insight(d, a), d, a),
{
}

proof fn lemma_told_from(d: Seq<DraftView>, a: Seq<AssessmentView>)
    requires
        d.len() == a.len(),
    ensures
        forall|x: InsightView| #[trigger]
            insights_told(d, a).contains(x) ==> exists|i: int|
                0 <= i < d.len() && tells(x, #[trigger] d[i], a[i]),
        forall|i: int|
            0 <= i < d.len() && crate::insights::worth_telling(#[trigger] d[i], a[i])
                ==> insights_told(d, a).contains(insight(d[i], a[i])),
    decreases d.len(),
{
    if d.len() > 0 {
        let df = d.drop_last();
        let af = a.drop_last();
        let rest = insights_told(df, af);
        let all = insights_told(d, a);
        lemma_told_from(df, af);
        lemma_tells(d.last(), a.last());
        assert forall|x: InsightView| #[trigger] all.contains(x) implies exists|i: int|
            0 <= i < d.len() && tells(x, #[trigger] d[i], a[i]) by {
            let k = choose|k: int| 0 <= k < all.len() && all[k] == x;
            if k < rest.len() {
                assert(rest[k] == x);
                assert(rest.contains(x));
                let i = choose|i: int| 0 <= i < df.len() && tells(x, #[trigger] df[i], af[i]);
                assert(d[i] == df[i] && a[i] == af[i]);
            } else {
                assert(tells(x, d[d.len() - 1], a[a.len() - 1]));
            }
        }
        assert forall|i: int|
            0 <= i < d.len() && crate::insights::worth_telling(
                #[trigger] d[i],
                a[i],
            ) implies all.contains(insight(d[i], a[i])) by {
            if i < df.len() {
                assert(d[i] == df[i] && a[i] == af[i]);
                assert(rest.contains(insight(df[i], af[i])));
                let k = choose|k: int| 0 <= k < rest.len() && rest[k] == insight(d[i], a[i]);
                assert(all[k] == rest[k]);
            } else {
                assert(all[all.len() - 1] == insight(d[i], a[i]));
            }
        }
    }
}

/// Every insight tells of one of the drafts as it was judged; and every draft is
/// told, but for those that stand out by their figures alone and are judged below
/// one tenth.
pub proof fn lemma_what_is_told(d: Seq<DraftView>, a: Seq<AssessmentView>)
    requires
        d.len() == a.len(),
    ensures
        forall|k: int|
            0 <= k < insights(d, a).len() ==> exists|i: int|
                0 <= i < d.len() && tells(#[trigger] insights(d, a)[k], #[trigger] d[i], a[i]),
        forall|i: int|
            0 <= i < d.len() && ((#[trigger] d[i]).reason != Reason::Figures || a[i].priority.ge(
                Score { bits: 0x3FB9_9999_9999_999A },
            )) ==> exists|k: int|
                0 <= k < insights(d, a).len() && tells(#[trigger] insights(d, a)[k], d[i], a[i]),
{
    let told = insights_told(d, a);
    let all = insights(d, a);
    lemma_told_from(d, a);
    lemma_arranged_keeps(told, more_urgent(), |x: InsightView| true);
    assert forall|k: int| 0 <= k < all.len() implies exists|i: int|
        0 <= i < d.len() && tells(#[trigger] all[k], #[trigger] d[i], a[i]) by {
        assert(all.contains(all[k]));
        assert(told.contains(all[k]));
    }
    assert forall|i: int|
        0 <= i < d.len() && ((#[trigger] d[i]).reason != Reason::Figures || a[i].priority.ge(
            Score { bits: 0x3FB9_9999_9999_999A },
        )) implies exists|k: int|
        0 <= k < all.len() && tells(#[trigger] all[k], d[i], a[i]) by {
        assert(crate::insights::worth_telling(d[i], a[i]));
        let x = insight(d[i], a[i]);
        assert(told.contains(x));
        assert(all.contains(x));
        let k = choose|k: int| 0 <= k < all.len() && all[k] == x;
        lemma_tells(d[i], a[i]);
        assert(tells(all[k], d[i], a[i]));
    }
}

/// By its figures alone an action that is judged below one tenth is not told.
pub proof fn lemma_what_is_not_told(d: DraftView, a: AssessmentView)
    requires
        d.reason == Reason::Figures,
        a.priority.lt(Score { bits: 0x3FB9_9999_9999_999A }),
    ensures
        insights(seq![d], seq![a]).len() == 0,
{
    let ds = seq![d];
    let az = seq![a];
    assert(ds.drop_last() =~= Seq::<DraftView>::empty());
    assert(az.drop_last() =~= Seq::<AssessmentView>::empty());
    assert(insights_told(ds.drop_last(), az.drop_last()).len() == 0);
    assert(insights_told(ds, az).len() == 0);
    lemma_arranged_keeps(insights_told(ds, az), more_urgent(), |x: InsightView| true);
}

/// The test for failures of the platform itself in one action under one pattern,
/// which authorization did not cause.
pub open spec fn wishes(k: (Seq<char>, Seq<char>)) -> spec_fn(EntryView) -> bool {
    |e: EntryView|
        e.source == Some(TrajectorySource::Platform) && !e.success && e.authz_denied != Some(true)
            && e.action == k.0 && error_pattern(e.error) == k.1 && k.1 != "AuthzDenied"@
}

/// The request stands for the failures of the platform in the action under the
/// pattern.
pub open spec fn requested(
    r: FeatureRequestView,
    s: Seq<EntryView>,
    k: (Seq<char>, Seq<char>),
) -> bool {
    let m = keep(s, wishes(k));
    &&& m.len() >= 3
    &&& r.frequency == m.len()
    &&& r.trajectory_refs == Seq::new(m.len(), |i: int| m[i].timestamp)
    &&& k.1 == "ActionNotFound"@ ==> r.category == PlatformGapCategory::MissingMethod
    &&& k.1 != "ActionNotFound"@ ==> r.category == PlatformGapCategory::MissingCapability
    &&& r.description == "Agents tried '"@ + k.0 + "' "@ + decimal(m.len()) + " times — "@ + (
    if m[0].error is Some {
        m[0].error->0
    } else {
        Seq::empty()
    })
    &&& r.disposition == FeatureRequestDisposition::Open
    &&& r.developer_notes is None
}

/// The request stands for the failures in some action under some pattern.
pub open spec fn for_some_failures(r: FeatureRequestView, s: Seq<EntryView>) -> bool {
    exists|k: (Seq<char>, Seq<char>)| requested(r, s, k)
}

proof fn lemma_wishes(s: Seq<EntryView>, k: (Seq<char>, Seq<char>))
    ensures
        keep(keep(s, platform_gaps()), wishing(k)) == keep(s, wishes(k)),
{
    assert forall|e: EntryView| #[trigger] wishes(k)(e) == (platform_gaps()(e) && wishing(k)(
        e,
    )) by {}
    lemma_keep_both(s, platform_gaps(), wishing(k), wishes(k));
}

proof fn lemma_requests_from(g: Seq<EntryView>, of: Seq<(Seq<char>, Seq<char>)>)
    ensures
        forall|r: FeatureRequestView| #[trigger]
            requests_among(g, of).contains(r) ==> exists|i: int|
                0 <= i < of.len() && r == feature_request(
                    #[trigger] of[i],
                    keep(g, wishing(of[i])),
                ) && keep(g, wishing(of[i])).len() >= 3,
        forall|i: int|
            0 <= i < of.len() && keep(g, wishing(#[trigger] of[i])).len() >= 3 ==> requests_among(
                g,
                of,
            ).contains(feature_request(of[i], keep(g, wishing(of[i])))),
    decreases of.len(),
{
    if of.len() > 0 {
        let front = of.drop_last();
        let rest = requests_among(g, front);
        let all = requests_among(g, of);
        lemma_requests_from(g, front);
        assert forall|r: FeatureRequestView| #[trigger] all.contains(r) implies exists|i: int|
            0 <= i < of.len() && r == feature_request(#[trigger] of[i], keep(g, wishing(of[i])))
                && keep(g, wishing(of[i])).len() >= 3 by {
            let k = choose|k: int| 0 <= k < all.len() && all[k] == r;
            if k < rest.len() {
                assert(rest[k] == r);
                assert(rest.contains(r));
                let i = choose|i: int|
                    0 <= i < front.len() && r == feature_request(
                        #[trigger] front[i],
                        keep(g, wishing(front[i])),
                    ) && keep(g, wishing(front[i])).len() >= 3;
                assert(of[i] == front[i]);
            } else {
                assert(of[of.len() - 1] == of.last());
            }
        }
        assert forall|i: int|
            0 <= i < of.len() && keep(g, wishing(#[trigger] of[i])).len()
                >= 3 implies all.contains(
            feature_request(of[i], keep(g, wishing(of[i]))),
        ) by {
            let x = feature_request(of[i], keep(g, wishing(of[i])));
            if i < front.len() {
                assert(front[i] == of[i]);
                assert(rest.contains(x));
                let k = choose|k: int| 0 <= k < rest.len() && rest[k] == x;
                assert(all[k] == rest[k]);
            } else {
                assert(all[all.len() - 1] == x);
            }
        }
    }
}

/// Feature requests stand for what the platform failed at three times or more:
/// each for one action under one pattern of error, and there is one for each.
pub proof fn lemma_what_is_requested(s: Seq<EntryView>)
    ensures
        forall|i: int|
            0 <= i < feature_requests(s).len() ==> for_some_failures(
                #[trigger] feature_requests(s)[i],
                s,
            ),
        forall|j: int|
            0 <= j < s.len() ==> ({
                let k = ((#[trigger] s[j]).action, error_pattern(s[j].error));
                keep(s, wishes(k)).len() >= 3 ==> exists|i: int|
                    0 <= i < feature_requests(s).len() && requested(
                        #[trigger] feature_requests(s)[i],
                        s,
                        k,
                    )
            }),
{
    let g = keep(s, platform_gaps());
    let of = sorted_keys(wish_keys(g));
    let made = requests_among(g, of);
    let all = feature_requests(s);
    crate::order::lemma_sorted_keys(wish_keys(g));
    lemma_requests_from(g, of);
    lemma_arranged_keeps(made, more_frequent(), |r: FeatureRequestView| true);
    assert forall|i: int| 0 <= i < all.len() implies for_some_failures(#[trigger] all[i], s) by {
        assert(all.contains(all[i]));
        assert(made.contains(all[i]));
        let n = choose|n: int|
            0 <= n < of.len() && all[i] == feature_request(
                #[trigger] of[n],
                keep(g, wishing(of[n])),
            ) && keep(g, wishing(of[n])).len() >= 3;
        lemma_wishes(s, of[n]);
        lemma_requested(all[i], s, of[n]);
        assert(requested(all[i], s, of[n]));
    }
    assert forall|j: int| 0 <= j < s.len() implies ({
        let k = ((#[trigger] s[j]).action, error_pattern(s[j].error));
        keep(s, wishes(k)).len() >= 3 ==> exists|i: int|
            0 <= i < all.len() && requested(#[trigger] all[i], s, k)
    }) by {
        let k = (s[j].action, error_pattern(s[j].error));
        if keep(s, wishes(k)).len() >= 3 {
            lemma_wishes(s, k);
            lemma_keep(g, wishing(k));
            let m = keep(g, wishing(k));
            assert(wishing(k)(m[0]) && g.contains(m[0]));
            let a = choose|a: int| 0 <= a < g.len() && g[a] == m[0];
            assert(wish_keys(g)[a] == k);
            assert(wish_keys(g).contains(k));
            assert(of.contains(k));
            let n = choose|n: int| 0 <= n < of.len() && of[n] == k;
            assert(keep(g, wishing(of[n])).len() >= 3);
            let x = feature_request(k, m);
            assert(made.contains(x));
            assert(all.contains(x));
            let i = choose|i: int| 0 <= i < all.len() && all[i] == x;
            lemma_requested(all[i], s, k);
            assert(requested(all[i], s, k));
        }
    }
}

proof fn lemma_requested(r: FeatureRequestView, s: Seq<EntryView>, k: (Seq<char>, Seq<char>))
    requires
        r == feature_request(k, keep(s, wishes(k))),
        keep(s, wishes(k)).len() >= 3,
    ensures
        requested(r, s, k),
{
    let m = keep(s, wishes(k));
    assert(r.trajectory_refs =~= Seq::new(m.len(), |i: int| m[i].timestamp));
}

/// The test for failures on one entity type under one pattern, which authorization
/// did not cause.
pub open spec fn misses(k: (Seq<char>, Seq<char>)) -> spec_fn(EntryView) -> bool {
    |e: EntryView|
        !e.success && e.authz_denied != Some(true) && e.entity_type == k.0 && error_pattern(e.error)
            == k.1 && k.1 != "AuthzDenied"@
}

/// An unmet intent counts the failures on its type under its pattern, from the
/// first to the last of them in time, and advises what they call for.
pub proof fn lemma_what_is_unmet(s: Seq<EntryView>, i: int)
    requires
        0 <= i < unmet_intents(s).len(),
    ensures
        ({
            let u = unmet_intents(s)[i];
            let m = keep(s, misses((u.entity_type, u.error_pattern)));
            &&& u.failure_count == m.len()
            &&& m.len() > 0
            &&& u.action == m[0].action
            &&& forall|j: int|
                0 <= j < m.len() ==> !text_lt((#[trigger] m[j]).timestamp, u.first_seen)
                    && !text_lt(u.last_seen, m[j].timestamp)
            &&& exists|j: int| 0 <= j < m.len() && (#[trigger] m[j]).timestamp == u.first_seen
            &&& exists|j: int| 0 <= j < m.len() && (#[trigger] m[j]).timestamp == u.last_seen
            &&& u.resolved_by is Some ==> u.status == "resolved"@ && u.recommendation
                == "Spec for '"@ + u.entity_type + "' has been submitted."@
            &&& u.resolved_by is None ==> u.status == "open"@
            &&& u.resolved_by is None && u.error_pattern == "EntitySetNotFound"@
                ==> u.recommendation == "Consider creating '"@ + u.entity_type + "' entity type."@
            &&& u.resolved_by is None && u.error_pattern != "EntitySetNotFound"@
                ==> u.recommendation == "Investigate failures for '"@ + u.entity_type
                + "' (pattern: "@ + u.error_pattern + ")."@
        }),
{
    let u = unmet_intents(s)[i];
    let g = keep(s, gaps());
    let ks = sorted_keys(gap_keys(g));
    let k = ks[i];
    assert(k == (u.entity_type, u.error_pattern));
    crate::order::lemma_sorted_keys(gap_keys(g));
    assert(ks.contains(ks[i]));
    assert(gap_keys(g).contains(k));
    let at = choose|at: int| 0 <= at < gap_keys(g).len() && gap_keys(g)[at] == k;
    lemma_keep(s, gaps());
    assert(gaps()(g[at]));
    assert forall|e: EntryView| #[trigger] misses(k)(e) == (gaps()(e) && under(k)(e)) by {}
    lemma_keep_both(s, gaps(), under(k), misses(k));
    let m = keep(s, misses(k));
    lemma_keep(g, under(k));
    assert(under(k)(g[at]));
    assert(m.contains(g[at]));
    let t = timeline(m);
    lemma_timeline(m);
    lemma_arranged_keeps(m, earlier(), |e: EntryView| true);
    let n = t.len() as int;
    assert forall|j: int| 0 <= j < m.len() implies !text_lt(
        (#[trigger] m[j]).timestamp,
        u.first_seen,
    ) && !text_lt(u.last_seen, m[j].timestamp) by {
        assert(m.contains(m[j]));
        assert(t.contains(m[j]));
        let a = choose|a: int| 0 <= a < n && t[a] == m[j];
        <Seq<char> as crate::order::KeyOrder>::irreflexive(m[j].timestamp);
        if a > 0 {
            assert(!earlier()(t[a], t[0]));
        }
        if a < n - 1 {
            assert(!earlier()(t[n - 1], t[a]));
        }
    }
    assert(t.contains(t[0]) && t.contains(t[n - 1]));
    assert(m.contains(t[0]) && m.contains(t[n - 1]));
    let p = choose|p: int| 0 <= p < m.len() && m[p] == t[0];
    let q = choose|q: int| 0 <= q < m.len() && m[q] == t[n - 1];
    assert(m[p].timestamp == u.first_seen);
    assert(m[q].timestamp == u.last_seen);
}

/// An unmet intent is resolved by the last spec that was submitted for its type
/// with success, and only by such.
pub proof fn lemma_what_resolves(s: Seq<EntryView>, i: int, j: int)
    requires
        0 <= i < unmet_intents(s).len(),
        0 <= j < s.len(),
        s[j].entity_type == unmet_intents(s)[i].entity_type,
        s[j].action == "SubmitSpec"@,
        s[j].success,
        forall|k: int|
            j < k < s.len() ==> !((#[trigger] s[k]).entity_type
                == unmet_intents(s)[i].entity_type && s[k].action == "SubmitSpec"@ && s[k].success),
    ensures
        unmet_intents(s)[i].resolved_by == Some(s[j].timestamp),
{
    lemma_last_kept(s, submissions(unmet_intents(s)[i].entity_type), j);
}

/// Without a spec that was submitted for its type with success an unmet intent stays
/// open.
pub proof fn lemma_nothing_resolves(s: Seq<EntryView>, i: int)
    requires
        0 <= i < unmet_intents(s).len(),
        forall|k: int|
            0 <= k < s.len() ==> !((#[trigger] s[k]).entity_type
                == unmet_intents(s)[i].entity_type && s[k].action == "SubmitSpec"@ && s[k].success),
    ensures
        unmet_intents(s)[i].resolved_by is None,
        unmet_intents(s)[i].status == "open"@,
{
    let f = submissions(unmet_intents(s)[i].entity_type);
    lemma_keep_some(s, f);
    if exists|j: int| 0 <= j < s.len() && f(#[trigger] s[j]) {
        let j = choose|j: int| 0 <= j < s.len() && f(#[trigger] s[j]);
        assert(!(s[j].entity_type == unmet_intents(s)[i].entity_type && s[j].action
            == "SubmitSpec"@ && s[j].success));
    }
}

/// Every failure that authorization did not cause is in an unmet intent.
pub proof fn lemma_failures_are_unmet(s: Seq<EntryView>, j: int)
    requires
        0 <= j < s.len(),
        !s[j].success,
        s[j].authz_denied != Some(true),
        error_pattern(s[j].error) != "AuthzDenied"@,
    ensures
        exists|i: int|
            0 <= i < unmet_intents(s).len() && (#[trigger] unmet_intents(s)[i]).entity_type
                == s[j].entity_type && unmet_intents(s)[i].error_pattern == error_pattern(
                s[j].error,
            ),
{
    let g = keep(s, gaps());
    let ks = sorted_keys(gap_keys(g));
    lemma_keep(s, gaps());
    crate::order::lemma_sorted_keys(gap_keys(g));
    assert(gaps()(s[j]));
    assert(g.contains(s[j]));
    let a = choose|a: int| 0 <= a < g.len() && g[a] == s[j];
    let k = (s[j].entity_type, error_pattern(s[j].error));
    assert(gap_keys(g)[a] == k);
    assert(gap_keys(g).contains(k));
    let i = choose|i: int| 0 <= i < ks.len() && ks[i] == k;
    assert(unmet_intents(s)[i].entity_type == k.0);
}

/// The samples of an unmet intent are what was said and sent with the last of its
/// failures, in time, that say or send anything.
pub proof fn lemma_unmet_samples(s: Seq<EntryView>, i: int, j: int)
    requires
        0 <= i < unmet_intents(s).len(),
        0 <= j < timeline(
            keep(s, misses((unmet_intents(s)[i].entity_type, unmet_intents(s)[i].error_pattern))),
        ).len(),
    ensures
        ({
            let u = unmet_intents(s)[i];
            let t = timeline(keep(s, misses((u.entity_type, u.error_pattern))));
            &&& t[j].request_body is Some && (forall|k: int|
                j < k < t.len() ==> (#[trigger] t[k]).request_body is None) ==> u.sample_body
                == t[j].request_body
            &&& t[j].intent is Some && (forall|k: int|
                j < k < t.len() ==> (#[trigger] t[k]).intent is None) ==> u.sample_intent
                == t[j].intent
        }),
{
    let u = unmet_intents(s)[i];
    let k = (u.entity_type, u.error_pattern);
    assert forall|e: EntryView| #[trigger] misses(k)(e) == (gaps()(e) && under(k)(e)) by {}
    lemma_keep_both(s, gaps(), under(k), misses(k));
    let t = timeline(keep(s, misses(k)));
    let b = crate::evidence::bodies_of(t);
    let w = crate::unmet::said(t);
    if t[j].request_body is Some && (forall|k: int|
        j < k < t.len() ==> (#[trigger] t[k]).request_body is None) {
        assert forall|k: int| j < k < b.len() implies (#[trigger] b[k]) is None by {
            assert(t[k].request_body is None);
        }
        lemma_latest(b, j);
    }
    if t[j].intent is Some && (forall|k: int|
        j < k < t.len() ==> (#[trigger] t[k]).intent is None) {
        assert forall|k: int| j < k < w.len() implies (#[trigger] w[k]) is None by {
            assert(t[k].intent is None);
        }
        lemma_latest(w, j);
    }
}

proof fn lemma_last_kept(s: Seq<EntryView>, f: spec_fn(EntryView) -> bool, j: int)
    requires
        0 <= j < s.len(),
        f(s[j]),
        forall|k: int| j < k < s.len() ==> !f(#[trigger] s[k]),
    ensures
        keep(s, f).len() > 0,
        keep(s, f).last() == s[j],
    decreases s.len(),
{
    if j < s.len() - 1 {
        let front = s.drop_last();
        assert(front[j] == s[j]);
        assert forall|k: int| j < k < front.len() implies !f(#[trigger] front[k]) by {
            assert(front[k] == s[k]);
        }
        lemma_last_kept(front, f, j);
        assert(!f(s[s.len() - 1]));
    }
}

} // verus!
