//! What an installation stores, loads and tells.
use vstd::prelude::*;

use crate::catalog::BundleView;
use crate::catalog::WasmView;
use crate::install::change;
use crate::install::changed;
use crate::install::changing;
use crate::install::combined_policy;
use crate::install::durable_steps;
use crate::install::install_steps;
use crate::install::last_source;
use crate::install::loading_steps;
use crate::install::model_source;
use crate::install::not_among;
use crate::install::registered;
use crate::install::settled_specs;
use crate::install::spec_steps;
use crate::install::specs_of_tenant;
use crate::install::specs_to_save;
use crate::install::step_failure;
use crate::install::text_before;
use crate::install::types_of;
use crate::install::Change;
use crate::install::ModelView;
use crate::install::StepView;
use crate::install::StoreView;
use crate::installation::with_app;
use crate::installation::InstallationView;
use crate::keys::listed;
use crate::order::in_order;
use crate::order::keep;
use crate::order::lemma_arranged;
use crate::order::lemma_arranged_keeps;
use crate::order::lemma_keep;
use crate::order::lemma_sorted_keys;
use crate::order::sorted_keys;
use crate::order::text_lt;
use crate::text::joined;

verus! {

/// The app brings a spec for the type, and the tenant has none.
pub open spec fn is_new(
    existing: Seq<(Seq<char>, Seq<char>)>,
    specs: Seq<(Seq<char>, Seq<char>)>,
    t: Seq<char>,
) -> bool {
    exists|i: int|
        0 <= i < specs.len() && (#[trigger] specs[i]).0 == t && listed(existing, t) is None
}

/// The app brings a spec for the type, and the tenant has another.
pub open spec fn is_other(
    existing: Seq<(Seq<char>, Seq<char>)>,
    specs: Seq<(Seq<char>, Seq<char>)>,
    t: Seq<char>,
) -> bool {
    exists|i: int|
        0 <= i < specs.len() && (#[trigger] specs[i]).0 == t && listed(existing, t) is Some
            && listed(existing, t)->0 != specs[i].1
}

/// The app brings the spec for the type that the tenant has.
pub open spec fn is_same(
    existing: Seq<(Seq<char>, Seq<char>)>,
    specs: Seq<(Seq<char>, Seq<char>)>,
    t: Seq<char>,
) -> bool {
    exists|i: int|
        0 <= i < specs.len() && (#[trigger] specs[i]).0 == t && listed(existing, t) == Some(
            specs[i].1,
        )
}

proof fn lemma_changed(
    existing: Seq<(Seq<char>, Seq<char>)>,
    specs: Seq<(Seq<char>, Seq<char>)>,
    c: Change,
)
    ensures
        in_order(changed(existing, specs, c), text_before()),
        forall|t: Seq<char>| #[trigger]
            changed(existing, specs, c).contains(t) <==> exists|i: int|
                0 <= i < specs.len() && (#[trigger] specs[i]).0 == t && change(existing, specs[i])
                    == c,
{
    let k = keep(specs, changing(existing, c));
    let ts = types_of(k);
    let r = changed(existing, specs, c);
    assert forall|a: Seq<char>, b: Seq<char>| #[trigger] text_before()(a, b) implies !text_before()(
        b,
        a,
    ) by {
        crate::evidence_laws::lemma_text_weak(a, b, b);
    }
    assert forall|a: Seq<char>, b: Seq<char>, d: Seq<char>|
        !(#[trigger] text_before()(a, b)) && !(#[trigger] text_before()(b, d)) implies !text_before()(
        a,
        d,
    ) by {
        crate::evidence_laws::lemma_text_weak(a, b, d);
    }
    lemma_arranged(ts, text_before());
    lemma_arranged_keeps(ts, text_before(), |t: Seq<char>| true);
    lemma_keep(specs, changing(existing, c));
    assert forall|t: Seq<char>| #[trigger] r.contains(t) <==> exists|i: int|
        0 <= i < specs.len() && (#[trigger] specs[i]).0 == t && change(existing, specs[i]) == c by {
        if r.contains(t) {
            assert(ts.contains(t));
            let n = choose|n: int| 0 <= n < ts.len() && ts[n] == t;
            assert(changing(existing, c)(k[n]) && specs.contains(k[n]));
            let i = choose|i: int| 0 <= i < specs.len() && specs[i] == k[n];
            assert(specs[i].0 == t && change(existing, specs[i]) == c);
        }
        if exists|i: int|
            0 <= i < specs.len() && (#[trigger] specs[i]).0 == t && change(existing, specs[i])
                == c {
            let i = choose|i: int|
                0 <= i < specs.len() && (#[trigger] specs[i]).0 == t && change(existing, specs[i])
                    == c;
            assert(changing(existing, c)(specs[i]));
            assert(k.contains(specs[i]));
            let n = choose|n: int| 0 <= n < k.len() && k[n] == specs[i];
            assert(ts[n] == t);
            assert(ts.contains(t));
        }
    }
}

/// What is told as added is what the tenant has no spec for, what is told as updated
/// has another there, and what is told as skipped has the same; each in text order.
pub proof fn lemma_what_is_told(
    existing: Seq<(Seq<char>, Seq<char>)>,
    specs: Seq<(Seq<char>, Seq<char>)>,
    t: Seq<char>,
)
    ensures
        changed(existing, specs, Change::Added).contains(t) <==> is_new(existing, specs, t),
        changed(existing, specs, Change::Updated).contains(t) <==> is_other(existing, specs, t),
        changed(existing, specs, Change::Skipped).contains(t) <==> is_same(existing, specs, t),
        forall|c: Change, i: int, j: int|
            0 <= i < j < changed(existing, specs, c).len() ==> !text_lt(
                #[trigger] changed(existing, specs, c)[j],
                #[trigger] changed(existing, specs, c)[i],
            ),
{
    lemma_changed(existing, specs, Change::Added);
    lemma_changed(existing, specs, Change::Updated);
    lemma_changed(existing, specs, Change::Skipped);
    if is_new(existing, specs, t) {
        let i = choose|i: int|
            0 <= i < specs.len() && (#[trigger] specs[i]).0 == t && listed(existing, t) is None;
        assert(change(existing, specs[i]) == Change::Added);
    }
    if is_other(existing, specs, t) {
        let i = choose|i: int|
            0 <= i < specs.len() && (#[trigger] specs[i]).0 == t && listed(existing, t) is Some
                && listed(existing, t)->0 != specs[i].1;
        assert(change(existing, specs[i]) == Change::Updated);
    }
    if is_same(existing, specs, t) {
        let i = choose|i: int|
            0 <= i < specs.len() && (#[trigger] specs[i]).0 == t && listed(existing, t) == Some(
                specs[i].1,
            );
        assert(change(existing, specs[i]) == Change::Skipped);
    }
    assert forall|c: Change, i: int, j: int|
        0 <= i < j < changed(existing, specs, c).len() implies !text_lt(
        #[trigger] changed(existing, specs, c)[j],
        #[trigger] changed(existing, specs, c)[i],
    ) by {
        let r = changed(existing, specs, c);
        lemma_changed(existing, specs, c);
        assert(!text_before()(r[j], r[i]));
    }
}

/// A model that an app brings is merged into that of the tenant, or taken where the
/// tenant has none; without one the tenant's stays, or is missing.
pub proof fn lemma_where_models_come_from(csdl: Option<Seq<char>>, known: bool)
    ensures
        csdl is Some && known ==> model_source(csdl, known) == ModelView::Merge(csdl->0),
        csdl is Some && !known ==> model_source(csdl, known) == ModelView::Take(csdl->0),
        csdl is None && known ==> model_source(csdl, known) == ModelView::Keep,
        csdl is None && !known ==> model_source(csdl, known) == ModelView::Missing,
{
}

/// The policies of an app are put after those that the tenant has, a line each;
/// without any, those of the tenant stay as they are.
pub proof fn lemma_policies_are_added(held: Option<Seq<char>>, more: Seq<Seq<char>>)
    ensures
        more.len() == 0 ==> combined_policy(held, more) is None,
        more.len() > 0 && (held is None || held->0.len() == 0) ==> combined_policy(held, more)
            == Some(joined(more, "\n"@)),
        more.len() > 0 && held is Some && held->0.len() > 0 ==> combined_policy(held, more) == Some(
            held->0 + "\n"@ + joined(more, "\n"@),
        ),
{
}

/// The source is the last for the type.
pub open spec fn is_last(s: Seq<(Seq<char>, Seq<char>)>, j: int) -> bool {
    &&& 0 <= j < s.len()
    &&& forall|k: int| j < k < s.len() ==> (#[trigger] s[k]).0 != s[j].0
}

proof fn lemma_last_source(s: Seq<(Seq<char>, Seq<char>)>, j: int)
    requires
        is_last(s, j),
    ensures
        last_source(s, s[j].0) == s[j].1,
    decreases s.len(),
{
    if j < s.len() - 1 {
        let front = s.drop_last();
        assert(front[j] == s[j]);
        assert(s[s.len() - 1].0 != s[j].0);
        assert forall|k: int| j < k < front.len() implies (#[trigger] front[k]).0 != front[j].0 by {
            assert(front[k] == s[k]);
        }
        lemma_last_source(front, j);
    }
}

proof fn lemma_has_last(s: Seq<(Seq<char>, Seq<char>)>, t: Seq<char>, i: int)
    requires
        0 <= i < s.len(),
        s[i].0 == t,
    ensures
        exists|j: int| #[trigger] is_last(s, j) && s[j].0 == t,
    decreases s.len() - i,
{
    if exists|k: int| i < k < s.len() && (#[trigger] s[k]).0 == t {
        let k = choose|k: int| i < k < s.len() && (#[trigger] s[k]).0 == t;
        lemma_has_last(s, t, k);
    } else {
        assert(is_last(s, i));
    }
}

/// A list of specs is settled by the last source for each type.
pub proof fn lemma_last_sources_count(s: Seq<(Seq<char>, Seq<char>)>, j: int)
    requires
        is_last(s, j),
    ensures
        settled_specs(s).contains(s[j]),
        forall|k: int| 0 <= k < settled_specs(s).len() ==> s.contains(#[trigger] settled_specs(s)[k]),
        forall|k: int, l: int|
            0 <= k < l < settled_specs(s).len() ==> text_lt(
                (#[trigger] settled_specs(s)[k]).0,
                (#[trigger] settled_specs(s)[l]).0,
            ),
{
    let ts = types_of(s);
    let ks = sorted_keys(ts);
    let r = settled_specs(s);
    lemma_sorted_keys(ts);
    assert(ts[j] == s[j].0);
    assert(ts.contains(s[j].0));
    let n = choose|n: int| 0 <= n < ks.len() && ks[n] == s[j].0;
    lemma_last_source(s, j);
    assert(r[n] == s[j]);
    assert forall|k: int| 0 <= k < r.len() implies s.contains(#[trigger] r[k]) by {
        assert(ks.contains(ks[k]));
        assert(ts.contains(ks[k]));
        let i = choose|i: int| 0 <= i < ts.len() && ts[i] == ks[k];
        assert(s[i].0 == ks[k]);
        lemma_has_last(s, ks[k], i);
        let m = choose|m: int| #[trigger] is_last(s, m) && s[m].0 == ks[k];
        lemma_last_source(s, m);
        assert(r[k] == s[m]);
    }
}

/// Each type comes once.
pub open spec fn types_differ(s: Seq<(Seq<char>, Seq<char>)>) -> bool {
    forall|i: int, j: int| 0 <= i < j < s.len() ==> (#[trigger] s[i]).0 != (#[trigger] s[j]).0
}

/// Every spec of an app whose types differ is stored as the app brings it, whatever
/// the tenant had for the type; in a store that lists nothing these are all.
pub proof fn lemma_specs_are_stored(
    store: StoreView,
    tenant: Seq<char>,
    b: BundleView,
    existing: Seq<(Seq<char>, Seq<char>)>,
    held: Option<Seq<char>>,
    model: Seq<char>,
    i: int,
)
    requires
        !(store is Missing),
        types_differ(b.specs),
        0 <= i < b.specs.len(),
    ensures
        install_steps(store, tenant, b, existing, held, Some(model)).contains(
            StepView::SaveSpec(b.specs[i].0, b.specs[i].1, model),
        ),
        store is Plain ==> install_steps(store, tenant, b, existing, held, Some(model))[i]
            == StepView::SaveSpec(b.specs[i].0, b.specs[i].1, model),
{
    let s = install_steps(store, tenant, b, existing, held, Some(model));
    let saved = specs_to_save(store, tenant, b.specs);
    let policy = combined_policy(held, b.cedar_policies);
    let d = durable_steps(store, tenant, b, Some(model), policy);
    let a = spec_steps(saved, Some(model));
    assert(saved.contains(b.specs[i])) by {
        match store {
            StoreView::Listing(rows) => {
                let own = specs_of_tenant(rows, tenant);
                let all = own + b.specs;
                let j = own.len() + i;
                assert(all[j] == b.specs[i]);
                assert forall|k: int| j < k < all.len() implies (#[trigger] all[k]).0 != all[j].0 by {
                    assert(all[k] == b.specs[k - own.len()]);
                }
                lemma_last_sources_count(all, j);
            },
            _ => {},
        }
    }
    let n = choose|n: int| 0 <= n < saved.len() && saved[n] == b.specs[i];
    assert(a[n] == StepView::SaveSpec(b.specs[i].0, b.specs[i].1, model));
    assert(d[n] == a[n]);
    assert(s[n] == d[n]);
    if store is Plain {
        assert(a[i] == StepView::SaveSpec(b.specs[i].0, b.specs[i].1, model));
        assert(d[i] == a[i]);
        assert(s[i] == d[i]);
    }
}

/// What a tenant has for a type that the app does not bring is stored again as it
/// was last.
pub proof fn lemma_other_specs_are_stored(
    rows: Seq<(Seq<char>, Seq<char>, Seq<char>)>,
    tenant: Seq<char>,
    specs: Seq<(Seq<char>, Seq<char>)>,
    i: int,
)
    requires
        0 <= i < rows.len(),
        rows[i].0 == tenant,
        forall|k: int|
            i < k < rows.len() ==> !((#[trigger] rows[k]).0 == tenant && rows[k].1 == rows[i].1),
        forall|k: int| 0 <= k < specs.len() ==> (#[trigger] specs[k]).0 != rows[i].1,
    ensures
        specs_to_save(StoreView::Listing(rows), tenant, specs).contains((rows[i].1, rows[i].2)),
{
    let own = specs_of_tenant(rows, tenant);
    let all = own + specs;
    lemma_own_last(rows, tenant, i);
    let j = choose|j: int| #[trigger] is_last(own, j) && own[j] == (rows[i].1, rows[i].2);
    assert(all[j] == own[j]);
    assert forall|k: int| j < k < all.len() implies (#[trigger] all[k]).0 != all[j].0 by {
        if k < own.len() {
            assert(all[k] == own[k]);
        } else {
            assert(all[k] == specs[k - own.len()]);
        }
    }
    lemma_last_sources_count(all, j);
}

proof fn lemma_own_last(
    rows: Seq<(Seq<char>, Seq<char>, Seq<char>)>,
    tenant: Seq<char>,
    i: int,
)
    requires
        0 <= i < rows.len(),
        rows[i].0 == tenant,
        forall|k: int|
            i < k < rows.len() ==> !((#[trigger] rows[k]).0 == tenant && rows[k].1 == rows[i].1),
    ensures
        exists|j: int| #[trigger]
            is_last(specs_of_tenant(rows, tenant), j) && specs_of_tenant(rows, tenant)[j] == (
                rows[i].1,
                rows[i].2,
            ),
    decreases rows.len(),
{
    let own = specs_of_tenant(rows, tenant);
    let front = rows.drop_last();
    let rest = specs_of_tenant(front, tenant);
    if i < front.len() {
        assert(front[i] == rows[i]);
        assert forall|k: int| i < k < front.len() implies !((#[trigger] front[k]).0 == tenant
            && front[k].1 == front[i].1) by {
            assert(front[k] == rows[k]);
        }
        lemma_own_last(front, tenant, i);
        let j = choose|j: int| #[trigger] is_last(rest, j) && rest[j] == (rows[i].1, rows[i].2);
        assert(own[j] == rest[j]);
        assert forall|k: int| j < k < own.len() implies (#[trigger] own[k]).0 != own[j].0 by {
            if k < rest.len() {
                assert(own[k] == rest[k]);
            } else {
                assert(rows[rows.len() - 1].0 == tenant);
            }
        }
        assert(is_last(own, j));
    } else {
        let j = rest.len() as int;
        assert(own[j] == (rows[i].1, rows[i].2));
        assert(is_last(own, j));
    }
}

/// The policies of the tenant are stored, where there is a store, and loaded, just
/// where the app brings any, with its own after those that the tenant has; without a
/// store nothing is stored.
pub proof fn lemma_policies_are_stored_and_loaded(
    store: StoreView,
    tenant: Seq<char>,
    b: BundleView,
    existing: Seq<(Seq<char>, Seq<char>)>,
    held: Option<Seq<char>>,
    model: Option<Seq<char>>,
)
    ensures
        ({
            let s = install_steps(store, tenant, b, existing, held, model);
            let p = combined_policy(held, b.cedar_policies);
            &&& b.cedar_policies.len() > 0 ==> p is Some && s.len() > 0 && s.last()
                == StepView::LoadPolicy(p->0)
            &&& b.cedar_policies.len() > 0 && !(store is Missing) ==> s.contains(
                StepView::SavePolicy(p->0),
            )
            &&& b.cedar_policies.len() == 0 ==> forall|i: int|
                0 <= i < s.len() ==> !(#[trigger] s[i] is LoadPolicy || s[i] is SavePolicy)
            &&& store is Missing ==> forall|i: int|
                0 <= i < s.len() ==> (#[trigger] s[i] is LoadPolicy || s[i] is Bootstrap)
        }),
{
    let s = install_steps(store, tenant, b, existing, held, model);
    let p = combined_policy(held, b.cedar_policies);
    let d = durable_steps(store, tenant, b, model, p);
    let l = loading_steps(b, changed(existing, b.specs, Change::Skipped), model, p);
    let a = spec_steps(specs_to_save(store, tenant, b.specs), model);
    if p is Some {
        assert(l.last() == StepView::LoadPolicy(p->0));
        assert(s.last() == l.last());
        if !(store is Missing) {
            assert(d[a.len() as int] == StepView::SavePolicy(p->0));
            assert(s[a.len() as int] == d[a.len() as int]);
        }
    } else {
        assert forall|i: int| 0 <= i < s.len() implies !(#[trigger] s[i] is LoadPolicy
            || s[i] is SavePolicy) by {
            if i < d.len() {
                assert(s[i] == d[i]);
                if i < a.len() {
                    assert(d[i] == a[i]);
                }
            } else {
                assert(s[i] == l[i - d.len()]);
            }
        }
    }
    if store is Missing {
        assert forall|i: int| 0 <= i < s.len() implies (#[trigger] s[i] is LoadPolicy
            || s[i] is Bootstrap) by {
            assert(s[i] == l[i]);
        }
    }
}

/// The test for specs that the tenant does not have as they are.
pub open spec fn is_fresh(
    existing: Seq<(Seq<char>, Seq<char>)>,
) -> spec_fn((Seq<char>, Seq<char>)) -> bool {
    |s: (Seq<char>, Seq<char>)| listed(existing, s.0) != Some(s.1)
}

proof fn lemma_fresh(
    existing: Seq<(Seq<char>, Seq<char>)>,
    all: Seq<(Seq<char>, Seq<char>)>,
    specs: Seq<(Seq<char>, Seq<char>)>,
)
    requires
        types_differ(all),
        specs.len() <= all.len(),
        specs == all.take(specs.len() as int),
    ensures
        keep(specs, not_among(changed(existing, all, Change::Skipped))) == keep(
            specs,
            is_fresh(existing),
        ),
    decreases specs.len(),
{
    if specs.len() > 0 {
        let n = specs.len() - 1;
        let x = specs.last();
        assert(all[n] == all.take(specs.len() as int)[n]);
        assert(specs.drop_last() =~= all.take(n));
        lemma_fresh(existing, all, specs.drop_last());
        lemma_what_is_told(existing, all, x.0);
        let skipped = changed(existing, all, Change::Skipped);
        if is_same(existing, all, x.0) {
            let i = choose|i: int|
                0 <= i < all.len() && (#[trigger] all[i]).0 == x.0 && listed(existing, x.0) == Some(
                    all[i].1,
                );
            if i != n {
                if i < n {
                    assert(all[i].0 != all[n].0);
                } else {
                    assert(all[n].0 != all[i].0);
                }
            }
        }
        if listed(existing, x.0) == Some(x.1) {
            assert(all[n].0 == x.0);
            assert(is_same(existing, all, x.0));
        }
        assert(not_among(skipped)(x) == is_fresh(existing)(x));
    }
}

/// Specs that the tenant does not have as they are, are loaded together under the
/// model, in the app's order; where there are none, or no model, nothing is.
pub proof fn lemma_specs_are_loaded(
    store: StoreView,
    tenant: Seq<char>,
    b: BundleView,
    existing: Seq<(Seq<char>, Seq<char>)>,
    held: Option<Seq<char>>,
    model: Option<Seq<char>>,
)
    requires
        types_differ(b.specs),
    ensures
        ({
            let s = install_steps(store, tenant, b, existing, held, model);
            let fresh = keep(b.specs, is_fresh(existing));
            &&& model is Some && fresh.len() > 0 ==> s.contains(
                StepView::Bootstrap(model->0, fresh),
            )
            &&& forall|i: int|
                0 <= i < s.len() && #[trigger] s[i] is Bootstrap ==> model is Some && fresh.len()
                    > 0 && s[i] == StepView::Bootstrap(model->0, fresh)
        }),
{
    let s = install_steps(store, tenant, b, existing, held, model);
    let p = combined_policy(held, b.cedar_policies);
    let d = durable_steps(store, tenant, b, model, p);
    let l = loading_steps(b, changed(existing, b.specs, Change::Skipped), model, p);
    let a = spec_steps(specs_to_save(store, tenant, b.specs), model);
    let fresh = keep(b.specs, is_fresh(existing));
    assert(b.specs.take(b.specs.len() as int) =~= b.specs);
    lemma_fresh(existing, b.specs, b.specs);
    if model is Some && fresh.len() > 0 {
        assert(l[0] == StepView::Bootstrap(model->0, fresh));
        assert(s[d.len() as int] == l[0]);
    }
    assert forall|i: int| 0 <= i < s.len() && #[trigger] s[i] is Bootstrap implies model is Some
        && fresh.len() > 0 && s[i] == StepView::Bootstrap(model->0, fresh) by {
        if i < d.len() {
            assert(s[i] == d[i]);
            if i < a.len() {
                assert(d[i] == a[i]);
            }
        } else {
            assert(s[i] == l[i - d.len()]);
        }
    }
}

/// Where a step that stores something fails, it is told which; the others fail
/// without a word.
pub proof fn lemma_failures_are_told(
    t: Seq<char>,
    source: Seq<char>,
    model: Seq<char>,
    cause: Seq<char>,
    specs: Seq<(Seq<char>, Seq<char>)>,
)
    ensures
        step_failure(StepView::SaveSpec(t, source, model), cause) == Some(
            "Failed to persist spec "@ + t + ": "@ + cause,
        ),
        step_failure(StepView::SavePolicy(source), cause) == Some(
            "Failed to persist Cedar policy: "@ + cause,
        ),
        step_failure(StepView::RecordApp, cause) == Some(
            "Failed to record os-app installation: "@ + cause,
        ),
        step_failure(StepView::CommitSpecs, cause) == Some("Failed to commit specs: "@ + cause),
        step_failure(StepView::Bootstrap(model, specs), cause) is None,
        step_failure(StepView::LoadPolicy(source), cause) is None,
{
}

/// The modules that compiled are told by name, in their order.
pub proof fn lemma_modules_are_told(modules: Seq<WasmView>, compiled: Seq<Option<Seq<char>>>, i: int)
    requires
        modules.len() == compiled.len(),
        0 <= i < modules.len(),
    ensures
        registered(modules, compiled).len() == keep(
            compiled,
            |c: Option<Seq<char>>| c is Some,
        ).len(),
        compiled[i] is Some ==> registered(modules, compiled)[keep(
            compiled.take(i),
            |c: Option<Seq<char>>| c is Some,
        ).len() as int] == modules[i].name,
    decreases modules.len(),
{
    let f = |c: Option<Seq<char>>| c is Some;
    let mf = modules.drop_last();
    let cf = compiled.drop_last();
    let n = modules.len() - 1;
    lemma_told_count(mf, cf);
    lemma_told_count(modules, compiled);
    if i < n {
        lemma_modules_are_told(mf, cf, i);
        assert(cf.take(i) =~= compiled.take(i));
        assert(cf[i] == compiled[i] && mf[i] == modules[i]);
        if compiled[i] is Some {
            lemma_before(cf, f, i);
        }
    } else {
        assert(compiled.take(n) =~= cf);
    }
}

proof fn lemma_told_count(modules: Seq<WasmView>, compiled: Seq<Option<Seq<char>>>)
    requires
        modules.len() == compiled.len(),
    ensures
        registered(modules, compiled).len() == keep(
            compiled,
            |c: Option<Seq<char>>| c is Some,
        ).len(),
    decreases modules.len(),
{
    if modules.len() > 0 {
        lemma_told_count(modules.drop_last(), compiled.drop_last());
    }
}

proof fn lemma_before<A>(s: Seq<A>, f: spec_fn(A) -> bool, i: int)
    requires
        0 <= i < s.len(),
        f(s[i]),
    ensures
        keep(s.take(i), f).len() < keep(s, f).len(),
    decreases s.len(),
{
    let front = s.drop_last();
    if i < front.len() {
        assert(front[i] == s[i]);
        assert(front.take(i) =~= s.take(i));
        lemma_before(front, f, i);
    } else {
        assert(s.take(i) =~= front);
    }
}

proof fn lemma_listed_first(
    a: Seq<(Seq<char>, Seq<char>)>,
    b: Seq<(Seq<char>, Seq<char>)>,
    t: Seq<char>,
    i: int,
)
    requires
        0 <= i <= a.len(),
        forall|j: int| 0 <= j < i ==> (#[trigger] a[j]).0 != t,
        i < a.len() ==> a[i].0 == t,
    ensures
        i < a.len() ==> listed(a + b, t) == Some(a[i].1),
        i == a.len() ==> listed(a + b, t) == listed(b, t),
    decreases a.len(),
{
    let m = a + b;
    if a.len() == 0 {
        assert(m =~= b);
    } else if i > 0 {
        assert(m[0] == a[0]);
        assert(a[0].0 != t);
        let r = a.drop_first();
        assert(m.drop_first() =~= r + b);
        assert forall|j: int| 0 <= j < i - 1 implies (#[trigger] r[j]).0 != t by {
            assert(r[j] == a[j + 1]);
        }
        if i < a.len() {
            assert(r[i - 1] == a[i]);
        }
        lemma_listed_first(r, b, t, i - 1);
    } else {
        assert(m[0] == a[0]);
    }
}

/// Once an app is planned, its specs are what the tenant will have: planned again it
/// adds and updates nothing. What the tenant has for other types stays.
pub proof fn lemma_planned_once(
    i: InstallationView,
    name: Seq<char>,
    b: BundleView,
    model: Seq<char>,
    t: Seq<char>,
)
    requires
        types_differ(b.specs),
    ensures
        ({
            let now = with_app(i, name, b, Some(model)).existing;
            &&& forall|k: int|
                0 <= k < b.specs.len() ==> listed(now, (#[trigger] b.specs[k]).0) == Some(
                    b.specs[k].1,
                )
            &&& (forall|k: int| 0 <= k < b.specs.len() ==> (#[trigger] b.specs[k]).0 != t)
                ==> listed(now, t) == listed(i.existing, t)
        }),
{
    let now = with_app(i, name, b, Some(model)).existing;
    let fresh = keep(b.specs, is_fresh(i.existing));
    assert(b.specs.take(b.specs.len() as int) =~= b.specs);
    lemma_fresh(i.existing, b.specs, b.specs);
    lemma_keep(b.specs, is_fresh(i.existing));
    let a = settled_specs(fresh);
    lemma_fresh_differ(b.specs, is_fresh(i.existing));
    assert forall|k: int| 0 <= k < b.specs.len() implies listed(now, (#[trigger] b.specs[k]).0)
        == Some(b.specs[k].1) by {
        let x = b.specs[k];
        if is_fresh(i.existing)(x) {
            assert(fresh.contains(b.specs[k]));
            let j = choose|j: int| 0 <= j < fresh.len() && fresh[j] == x;
            assert(is_last(fresh, j));
            lemma_last_sources_count(fresh, j);
            let p = choose|p: int| 0 <= p < a.len() && a[p] == x;
            assert forall|q: int| 0 <= q < p implies (#[trigger] a[q]).0 != x.0 by {
                assert(text_lt(a[q].0, a[p].0));
                <Seq<char> as crate::order::KeyOrder>::irreflexive(x.0);
            }
            lemma_listed_first(a, i.existing, x.0, p);
        } else if fresh.len() > 0 {
            assert forall|q: int| 0 <= q < a.len() implies (#[trigger] a[q]).0 != x.0 by {
                lemma_settled_from(fresh);
                assert(fresh.contains(a[q]));
                let j = choose|j: int| 0 <= j < fresh.len() && fresh[j] == a[q];
                assert(is_fresh(i.existing)(fresh[j]) && b.specs.contains(fresh[j]));
                let m = choose|m: int| 0 <= m < b.specs.len() && b.specs[m] == fresh[j];
                if m < k {
                    assert(b.specs[m].0 != b.specs[k].0);
                } else if m > k {
                    assert(b.specs[k].0 != b.specs[m].0);
                }
            }
            lemma_listed_first(a, i.existing, x.0, a.len() as int);
        }
    }
    if forall|k: int| 0 <= k < b.specs.len() ==> (#[trigger] b.specs[k]).0 != t {
        if fresh.len() > 0 {
            assert forall|q: int| 0 <= q < a.len() implies (#[trigger] a[q]).0 != t by {
                lemma_settled_from(fresh);
                assert(fresh.contains(a[q]));
                let j = choose|j: int| 0 <= j < fresh.len() && fresh[j] == a[q];
                assert(b.specs.contains(fresh[j]));
            }
            lemma_listed_first(a, i.existing, t, a.len() as int);
        }
    }
}

proof fn lemma_settled_from(s: Seq<(Seq<char>, Seq<char>)>)
    ensures
        forall|k: int| 0 <= k < settled_specs(s).len() ==> s.contains(#[trigger] settled_specs(s)[k]),
{
    if s.len() > 0 {
        lemma_has_last(s, s[0].0, 0);
        let j = choose|j: int| #[trigger] is_last(s, j) && s[j].0 == s[0].0;
        lemma_last_sources_count(s, j);
    } else {
        lemma_sorted_keys(types_of(s));
        let ks = sorted_keys(types_of(s));
        if ks.len() > 0 {
            assert(ks.contains(ks[0]));
            assert(types_of(s).contains(ks[0]));
        }
    }
}

proof fn lemma_fresh_differ(
    s: Seq<(Seq<char>, Seq<char>)>,
    f: spec_fn((Seq<char>, Seq<char>)) -> bool,
)
    requires
        types_differ(s),
    ensures
        types_differ(keep(s, f)),
    decreases s.len(),
{
    if s.len() > 0 {
        let front = s.drop_last();
        let k = keep(s, f);
        let kf = keep(front, f);
        assert forall|i: int, j: int| 0 <= i < j < front.len() implies (#[trigger] front[i]).0 != (
        #[trigger] front[j]).0 by {
            assert(front[i] == s[i] && front[j] == s[j]);
        }
        lemma_fresh_differ(front, f);
        lemma_keep(front, f);
        assert forall|i: int, j: int| 0 <= i < j < k.len() implies (#[trigger] k[i]).0 != (
        #[trigger] k[j]).0 by {
            assert(k[i] == kf[i]);
            if j < kf.len() {
                assert(k[j] == kf[j]);
            } else {
                assert(front.contains(kf[i]));
                let p = choose|p: int| 0 <= p < front.len() && front[p] == kf[i];
                assert(s[p].0 != s[s.len() - 1].0);
            }
        }
    }
}

/// Once an app is planned, the tenant will hold its policies after those that it held,
/// and the model under which its specs are loaded; its steps come after those that
/// were planned.
pub proof fn lemma_planned_in_turn(
    i: InstallationView,
    name: Seq<char>,
    b: BundleView,
    model: Option<Seq<char>>,
)
    requires
        types_differ(b.specs),
    ensures
        ({
            let now = with_app(i, name, b, model);
            let fresh = keep(b.specs, is_fresh(i.existing));
            &&& now.tenant == i.tenant
            &&& b.cedar_policies.len() == 0 ==> now.held == i.held
            &&& b.cedar_policies.len() > 0 ==> now.held == combined_policy(
                i.held,
                b.cedar_policies,
            )
            &&& model is Some && fresh.len() > 0 ==> now.model == model
            &&& model is None || fresh.len() == 0 ==> now.model == i.model && now.existing
                == i.existing
            &&& now.durable.len() >= i.durable.len()
            &&& now.durable.take(i.durable.len() as int) == i.durable
            &&& now.loading.len() >= i.loading.len()
            &&& now.loading.take(i.loading.len() as int) == i.loading
            &&& now.durable.skip(i.durable.len() as int) + now.loading.skip(i.loading.len() as int)
                == crate::installation::steps_for(
                name,
                install_steps(i.store, i.tenant, b, i.existing, i.held, model),
            )
            &&& model is None ==> now.store == i.store
            &&& i.store matches StoreView::Listing(rows) ==> (model is Some ==> {
                &&& now.store matches StoreView::Listing(more)
                &&& more.len() == rows.len() + b.specs.len()
                &&& forall|k: int| 0 <= k < rows.len() ==> #[trigger] more[k] == rows[k]
                &&& forall|k: int|
                    rows.len() <= k < more.len() ==> #[trigger] more[k] == (
                        i.tenant,
                        b.specs[k - rows.len()].0,
                        b.specs[k - rows.len()].1,
                    )
            })
        }),
{
    let now = with_app(i, name, b, model);
    assert(b.specs.take(b.specs.len() as int) =~= b.specs);
    lemma_fresh(i.existing, b.specs, b.specs);
    assert(now.durable.take(i.durable.len() as int) =~= i.durable);
    assert(now.loading.take(i.loading.len() as int) =~= i.loading);
    assert(now.durable.skip(i.durable.len() as int) + now.loading.skip(i.loading.len() as int)
        =~= crate::installation::steps_for(
        name,
        install_steps(i.store, i.tenant, b, i.existing, i.held, model),
    ));
}

} // verus!
