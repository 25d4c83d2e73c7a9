//! The installation of an app together with what it needs: one plan for all of
//! them, in which everything is stored before anything is loaded.
use vstd::prelude::*;

use crate::catalog::AppBundle;
use crate::catalog::BundleView;
use crate::install::changed;
use crate::install::choose_model;
use crate::install::combine_policies;
use crate::install::combined_policy;
use crate::install::durable_steps;
use crate::install::fresh_specs;
use crate::install::install_steps;
use crate::install::is_durable;
use crate::install::list_changed;
use crate::install::loading_steps;
use crate::install::model_source;
use crate::install::not_among;
use crate::install::plan_durable;
use crate::install::plan_loading;
use crate::install::settle_specs;
use crate::install::settled_specs;
use crate::install::Change;
use crate::install::InstallStep;
use crate::install::ModelSource;
use crate::install::StepView;
use crate::install::Store;
use crate::install::StoreView;
use crate::install::StoredSpec;
use crate::order::keep;
use crate::order::opt_view;
use crate::order::views;

verus! {

/// One thing to be done for one of several apps.
pub struct AppStepView {
    /// The app.
    pub app: Seq<char>,
    /// What is to be done.
    pub step: StepView,
}

/// One thing to be done for one of several apps.
#[derive(Debug)]
pub struct AppStep {
    /// The app.
    pub app: String,
    /// What is to be done.
    pub step: InstallStep,
}

impl View for AppStep {
    type V = AppStepView;

    open spec fn view(&self) -> AppStepView {
        AppStepView { app: self.app@, step: self.step@ }
    }
}

/// The steps of one app.
pub open spec fn steps_for(app: Seq<char>, s: Seq<StepView>) -> Seq<AppStepView> {
    Seq::new(s.len(), |i: int| AppStepView { app, step: s[i] })
}

/// An installation of several apps, as far as it is planned: what the tenant will
/// have, and what is to be done for that.
pub struct InstallationView {
    /// The tenant.
    pub tenant: Seq<char>,
    /// What the store will hold.
    pub store: StoreView,
    /// The specs that the tenant will have loaded.
    pub existing: Seq<(Seq<char>, Seq<char>)>,
    /// The policies that it will have loaded.
    pub held: Option<Seq<char>>,
    /// The model that it will have.
    pub model: Option<Seq<char>>,
    /// What is to be stored.
    pub durable: Seq<AppStepView>,
    /// What is to be loaded.
    pub loading: Seq<AppStepView>,
}

/// An installation of several apps, as far as it is planned: what the tenant will
/// have, and what is to be done for that.
#[derive(Debug)]
pub struct Installation {
    /// The tenant.
    pub tenant: String,
    /// What the store will hold.
    pub store: Store,
    /// The specs that the tenant will have loaded.
    pub existing: Vec<(String, String)>,
    /// The policies that it will have loaded.
    pub held: Option<String>,
    /// The model that it will have.
    pub model: Option<String>,
    /// What is to be stored.
    pub durable: Vec<AppStep>,
    /// What is to be loaded.
    pub loading: Vec<AppStep>,
}

impl View for Installation {
    type V = InstallationView;

    open spec fn view(&self) -> InstallationView {
        InstallationView {
            tenant: self.tenant@,
            store: self.store@,
            existing: views(self.existing@),
            held: opt_view(self.held),
            model: opt_view(self.model),
            durable: views(self.durable@),
            loading: views(self.loading@),
        }
    }
}

/// Specs of a tenant as a store lists them.
pub open spec fn rows_for(
    tenant: Seq<char>,
    s: Seq<(Seq<char>, Seq<char>)>,
) -> Seq<(Seq<char>, Seq<char>, Seq<char>)> {
    Seq::new(s.len(), |i: int| (tenant, s[i].0, s[i].1))
}

/// The store once specs are stored in it.
pub open spec fn store_with(
    store: StoreView,
    tenant: Seq<char>,
    specs: Seq<(Seq<char>, Seq<char>)>,
) -> StoreView {
    match store {
        StoreView::Listing(rows) => StoreView::Listing(rows + rows_for(tenant, specs)),
        other => other,
    }
}

/// The installation with one app more, whose specs come under `model`: it starts
/// from what the tenant will have by then.
pub open spec fn with_app(
    i: InstallationView,
    name: Seq<char>,
    b: BundleView,
    model: Option<Seq<char>>,
) -> InstallationView {
    let policy = combined_policy(i.held, b.cedar_policies);
    let skipped = changed(i.existing, b.specs, Change::Skipped);
    let fresh = keep(b.specs, not_among(skipped));
    let loads = model is Some && fresh.len() > 0;
    InstallationView {
        tenant: i.tenant,
        store: if model is Some {
            store_with(i.store, i.tenant, b.specs)
        } else {
            i.store
        },
        existing: if loads {
            settled_specs(fresh) + i.existing
        } else {
            i.existing
        },
        held: if policy is Some {
            policy
        } else {
            i.held
        },
        model: if loads {
            model
        } else {
            i.model
        },
        durable: i.durable + steps_for(
            name,
            durable_steps(i.store, i.tenant, b, model, policy),
        ),
        loading: i.loading + steps_for(name, loading_steps(b, skipped, model, policy)),
    }
}

/// All that is done, in order: everything is stored before anything is loaded.
pub open spec fn all_steps(i: InstallationView) -> Seq<AppStepView> {
    i.durable + i.loading
}

fn name_steps(app: &str, steps: Vec<InstallStep>) -> (r: Vec<AppStep>)
    ensures
        views(r@) == steps_for(app@, views(steps@)),
{
    let ghost all = views(steps@);
    let mut rest = steps;
    let mut r: Vec<AppStep> = Vec::new();
    while rest.len() > 0
        invariant
            r@.len() + rest@.len() == all.len(),
            forall|j: int| 0 <= j < rest@.len() ==> (#[trigger] rest@[j])@ == all[j + r@.len()],
            forall|j: int|
                0 <= j < r@.len() ==> (#[trigger] r@[j])@ == (AppStepView {
                    app: app@,
                    step: all[j],
                }),
        decreases rest@.len(),
    {
        let step = rest.remove(0);
        r.push(AppStep { app: app.to_string(), step });
    }
    assert(views(r@) =~= steps_for(app@, all));
    r
}

fn list_rows(tenant: &str, specs: &Vec<(String, String)>) -> (r: Vec<StoredSpec>)
    ensures
        views(r@) == rows_for(tenant@, views(specs@)),
{
    let mut r: Vec<StoredSpec> = Vec::new();
    let mut i: usize = 0;
    while i < specs.len()
        invariant
            i <= specs@.len(),
            r@.len() == i,
            forall|j: int|
                0 <= j < i ==> (#[trigger] r@[j])@ == (tenant@, specs@[j]@.0, specs@[j]@.1),
        decreases specs@.len() - i,
    {
        r.push(
            StoredSpec {
                tenant: tenant.to_string(),
                entity_type: specs[i].0.clone(),
                ioa_source: specs[i].1.clone(),
            },
        );
        i = i + 1;
    }
    assert(views(r@) =~= rows_for(tenant@, views(specs@)));
    r
}

fn extend_store(store: Store, tenant: &str, specs: &Vec<(String, String)>) -> (r: Store)
    ensures
        r@ == store_with(store@, tenant@, views(specs@)),
{
    match store {
        Store::Listing(rows) => {
            let ghost a = rows@;
            let mut all = rows;
            let mut more = list_rows(tenant, specs);
            let ghost b = more@;
            all.append(&mut more);
            proof {
                assert(all@ == a + b);
                assert(views(all@) =~= views(a) + views(b));
            }
            Store::Listing(all)
        },
        Store::Plain => Store::Plain,
        Store::Missing => Store::Missing,
    }
}

fn join_steps(a: Vec<AppStep>, b: Vec<AppStep>) -> (r: Vec<AppStep>)
    ensures
        views(r@) == views(a@) + views(b@),
{
    let ghost x = a@;
    let ghost y = b@;
    let mut all = a;
    let mut more = b;
    all.append(&mut more);
    proof {
        assert(all@ == x + y);
        assert(views(all@) =~= views(x) + views(y));
    }
    all
}

impl Installation {
    /// An installation for a tenant, with no app yet.
    pub fn new(
        tenant: String,
        store: Store,
        existing: Vec<(String, String)>,
        held: Option<String>,
        model: Option<String>,
    ) -> (r: Installation)
        ensures
            r@ == (InstallationView {
                tenant: tenant@,
                store: store@,
                existing: views(existing@),
                held: opt_view(held),
                model: opt_view(model),
                durable: Seq::empty(),
                loading: Seq::empty(),
            }),
    {
        let r = Installation {
            tenant,
            store,
            existing,
            held,
            model,
            durable: Vec::new(),
            loading: Vec::new(),
        };
        assert(r@.durable =~= Seq::empty());
        assert(r@.loading =~= Seq::empty());
        r
    }

    /// Where the model for the specs of the next app comes from.
    pub fn model_for(&self, b: &AppBundle) -> (r: ModelSource)
        ensures
            r@ == model_source(b@.csdl, self@.model is Some),
    {
        choose_model(&b.csdl, self.model.is_some())
    }

    /// The installation with one app more, whose specs come under `model`.
    pub fn add_app(self, name: &str, b: &AppBundle, model: Option<String>) -> (r: Installation)
        ensures
            r@ == with_app(self@, name@, b@, opt_view(model)),
    {
        let policy = combine_policies(&self.held, &b.cedar_policies);
        let skipped = list_changed(&self.existing, &b.specs, Change::Skipped);
        let fresh = fresh_specs(b, &skipped);
        let more_durable = plan_durable(&self.store, self.tenant.as_str(), b, &model, &policy);
        let more_loading = plan_loading(b, &skipped, &model, &policy);
        let durable = join_steps(self.durable, name_steps(name, more_durable));
        let loading = join_steps(self.loading, name_steps(name, more_loading));
        let store = if model.is_some() {
            extend_store(self.store, self.tenant.as_str(), &b.specs)
        } else {
            self.store
        };
        let held = if policy.is_some() {
            policy
        } else {
            self.held
        };
        if model.is_some() && fresh.len() > 0 {
            let mut existing = settle_specs(&fresh);
            let ghost x = existing@;
            let mut rest = self.existing;
            let ghost y = rest@;
            existing.append(&mut rest);
            proof {
                assert(existing@ == x + y);
                assert(views(existing@) =~= views(x) + views(y));
            }
            Installation { tenant: self.tenant, store, existing, held, model, durable, loading }
        } else {
            Installation {
                tenant: self.tenant,
                store,
                existing: self.existing,
                held,
                model: self.model,
                durable,
                loading,
            }
        }
    }

    /// All that is done, in order: everything is stored before anything is loaded.
    pub fn steps(self) -> (r: Vec<AppStep>)
        ensures
            views(r@) == all_steps(self@),
    {
        join_steps(self.durable, self.loading)
    }
}

/// An app to be installed: its name, what it brings, and the model for its specs.
pub struct PlannedView {
    /// Its name.
    pub name: Seq<char>,
    /// What it brings.
    pub bundle: BundleView,
    /// The model for its specs.
    pub model: Option<Seq<char>>,
}

/// The installation with several apps more, one after the other.
pub open spec fn with_apps(i: InstallationView, apps: Seq<PlannedView>) -> InstallationView
    decreases apps.len(),
{
    if apps.len() == 0 {
        i
    } else {
        let a = apps.last();
        with_app(with_apps(i, apps.drop_last()), a.name, a.bundle, a.model)
    }
}

/// What is to be stored stores something, and what is to be loaded does not.
pub open spec fn is_parted(i: InstallationView) -> bool {
    &&& forall|k: int| 0 <= k < i.durable.len() ==> is_durable((#[trigger] i.durable[k]).step)
    &&& forall|k: int| 0 <= k < i.loading.len() ==> !is_durable((#[trigger] i.loading[k]).step)
}

proof fn lemma_parted(i: InstallationView, name: Seq<char>, b: BundleView, model: Option<Seq<char>>)
    requires
        is_parted(i),
    ensures
        is_parted(with_app(i, name, b, model)),
{
    let policy = combined_policy(i.held, b.cedar_policies);
    let skipped = changed(i.existing, b.specs, Change::Skipped);
    let d = durable_steps(i.store, i.tenant, b, model, policy);
    let l = loading_steps(b, skipped, model, policy);
    let j = with_app(i, name, b, model);
    assert forall|k: int| 0 <= k < d.len() implies is_durable(#[trigger] d[k]) by {
        let a = crate::install::spec_steps(
            crate::install::specs_to_save(i.store, i.tenant, b.specs),
            model,
        );
        if !(i.store is Missing) {
            if k < a.len() {
                assert(d[k] == a[k]);
            }
        }
    }
    assert forall|k: int| 0 <= k < j.durable.len() implies is_durable(
        (#[trigger] j.durable[k]).step,
    ) by {
        let n = i.durable.len();
        if k < n {
            assert(j.durable[k] == i.durable[k]);
        } else {
            assert(j.durable[k].step == d[k - n]);
        }
    }
    assert forall|k: int| 0 <= k < j.loading.len() implies !is_durable(
        (#[trigger] j.loading[k]).step,
    ) by {
        let n = i.loading.len();
        if k < n {
            assert(j.loading[k] == i.loading[k]);
        } else {
            assert(j.loading[k].step == l[k - n]);
        }
    }
}

/// Whatever is loaded for an app and for what it needs is loaded after all that
/// is stored for any of them: where a step that stores something fails, and the
/// installation ends with it, nothing was loaded.
pub proof fn lemma_all_stored_before_loaded(i: InstallationView, apps: Seq<PlannedView>)
    requires
        i.durable.len() == 0,
        i.loading.len() == 0,
    ensures
        is_parted(with_apps(i, apps)),
        ({
            let s = all_steps(with_apps(i, apps));
            forall|k: int, l: int|
                #![trigger s[k], s[l]]
                0 <= k < l < s.len() && !is_durable(s[k].step) ==> !is_durable(s[l].step)
        }),
    decreases apps.len(),
{
    if apps.len() > 0 {
        lemma_all_stored_before_loaded(i, apps.drop_last());
        let a = apps.last();
        lemma_parted(with_apps(i, apps.drop_last()), a.name, a.bundle, a.model);
    }
    let w = with_apps(i, apps);
    let s = all_steps(w);
    let n = w.durable.len();
    assert forall|k: int, l: int|
        #![trigger s[k], s[l]]
        0 <= k < l < s.len() && !is_durable(s[k].step) implies !is_durable(s[l].step) by {
        if k < n {
            assert(s[k] == w.durable[k]);
        } else {
            assert(s[l] == w.loading[l - n]);
        }
    }
}

/// Of one app alone, all that is done is what is planned for it.
pub proof fn lemma_one_app(
    i: InstallationView,
    name: Seq<char>,
    b: BundleView,
    model: Option<Seq<char>>,
)
    requires
        i.durable.len() == 0,
        i.loading.len() == 0,
    ensures
        all_steps(with_app(i, name, b, model)) == steps_for(
            name,
            install_steps(i.store, i.tenant, b, i.existing, i.held, model),
        ),
{
    assert(all_steps(with_app(i, name, b, model)) =~= steps_for(
        name,
        install_steps(i.store, i.tenant, b, i.existing, i.held, model),
    ));
}

} // verus!
