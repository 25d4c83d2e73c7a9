//! The installation of an app for a tenant: what is new, what is stored, and
//! what is then loaded. All that is stored is stored before anything is loaded.
use vstd::prelude::*;

use crate::catalog::AppBundle;
use crate::catalog::BundleView;
use crate::catalog::InstallResult;
use crate::catalog::WasmFile;
use crate::catalog::WasmView;
use crate::keys::arrange;
use crate::keys::find_listed;
use crate::keys::has_text;
use crate::keys::listed;
use crate::order::arranged;
use crate::order::keep;
use crate::order::lemma_keep;
use crate::order::lemma_take_step;
use crate::order::opt_view;
use crate::order::sorted_keys;
use crate::order::text_lt;
use crate::order::views;
use crate::text::cat3;
use crate::text::cat4;
use crate::text::join;
use crate::text::joined;
use crate::text::less;
use crate::text::same;
use crate::wasm::sha256_hex;
use crate::wasm::CachedModule;
use crate::wasm::WasmEngine;
use crate::wasm::MAX_MODULE_SIZE;

verus! {

/// How a spec compares to what a tenant has.
#[derive(Clone, Copy, Debug, PartialEq, Eq, Structural)]
pub enum Change {
    /// The tenant does not have the entity type.
    Added,
    /// The tenant has it with another source.
    Updated,
    /// The tenant has it with the same source.
    Skipped,
}

/// How a spec compares to what a tenant has.
pub open spec fn change(
    existing: Seq<(Seq<char>, Seq<char>)>,
    spec_of: (Seq<char>, Seq<char>),
) -> Change {
    match listed(existing, spec_of.0) {
        None => Change::Added,
        Some(source) => if source == spec_of.1 {
            Change::Skipped
        } else {
            Change::Updated
        },
    }
}

/// The test for specs with a kind of change.
pub open spec fn changing(
    existing: Seq<(Seq<char>, Seq<char>)>,
    c: Change,
) -> spec_fn((Seq<char>, Seq<char>)) -> bool {
    |s: (Seq<char>, Seq<char>)| change(existing, s) == c
}

/// The entity types of specs.
pub open spec fn types_of(s: Seq<(Seq<char>, Seq<char>)>) -> Seq<Seq<char>> {
    Seq::new(s.len(), |i: int| s[i].0)
}

/// The first text comes before the second.
pub open spec fn text_before() -> spec_fn(Seq<char>, Seq<char>) -> bool {
    |a: Seq<char>, b: Seq<char>| text_lt(a, b)
}

/// The entity types with a kind of change, in text order.
pub open spec fn changed(
    existing: Seq<(Seq<char>, Seq<char>)>,
    specs: Seq<(Seq<char>, Seq<char>)>,
    c: Change,
) -> Seq<Seq<char>> {
    arranged(types_of(keep(specs, changing(existing, c))), text_before())
}

fn change_of(existing: &Vec<(String, String)>, s: &(String, String)) -> (r: Change)
    ensures
        r == change(views(existing@), s@),
{
    match find_listed(existing, s.0.as_str()) {
        None => Change::Added,
        Some(source) => if same(source.as_str(), s.1.as_str()) {
            Change::Skipped
        } else {
            Change::Updated
        },
    }
}

fn sort_texts(v: Vec<String>) -> (r: Vec<String>)
    ensures
        views(r@) == arranged(views(v@), text_before()),
{
    let ghost all = v@;
    let ghost order = |a: String, b: String| text_lt(a@, b@);
    let before = |a: &String, b: &String| -> (d: bool)
        ensures
            d == order(*a, *b),
        { less(a.as_str(), b.as_str()) };
    proof {
        crate::keys::lemma_arranged_views(all, order, text_before());
    }
    arrange(v, before, Ghost(order))
}

fn same_change(a: Change, b: Change) -> (r: bool)
    ensures
        r == (a == b),
{
    match (a, b) {
        (Change::Added, Change::Added) => true,
        (Change::Updated, Change::Updated) => true,
        (Change::Skipped, Change::Skipped) => true,
        _ => false,
    }
}

/// The entity types with a kind of change, in text order.
pub fn list_changed(
    existing: &Vec<(String, String)>,
    specs: &Vec<(String, String)>,
    c: Change,
) -> (r: Vec<String>)
    ensures
        views(r@) == changed(views(existing@), views(specs@), c),
{
    let ghost all = views(specs@);
    let ghost test = changing(views(existing@), c);
    let mut found: Vec<String> = Vec::new();
    let mut i: usize = 0;
    assert(all.take(0) =~= Seq::<(Seq<char>, Seq<char>)>::empty());
    assert(views(found@) =~= types_of(Seq::<(Seq<char>, Seq<char>)>::empty()));
    while i < specs.len()
        invariant
            i <= specs@.len(),
            all == views(specs@),
            test == changing(views(existing@), c),
            views(found@) == types_of(keep(all.take(i as int), test)),
        decreases specs@.len() - i,
    {
        proof {
            lemma_take_step(all, i as int);
            assert(all[i as int] == specs@[i as int]@);
        }
        if same_change(change_of(existing, &specs[i]), c) {
            let ghost was = views(found@);
            let ghost kept = keep(all.take(i as int), test);
            found.push(specs[i].0.clone());
            proof {
                assert(views(found@) =~= was.push(all[i as int].0));
                assert(types_of(kept.push(all[i as int])) =~= types_of(kept).push(
                    all[i as int].0,
                ));
            }
        }
        i = i + 1;
    }
    assert(all.take(i as int) =~= all);
    sort_texts(found)
}

/// Where the model of a tenant comes from after an installation.
pub enum ModelView {
    /// The app's is merged into the tenant's.
    Merge(Seq<char>),
    /// The app's becomes the tenant's.
    Take(Seq<char>),
    /// The tenant's stays.
    Keep,
    /// There is none.
    Missing,
}

/// Where the model of a tenant comes from after an installation.
#[derive(Debug)]
pub enum ModelSource {
    /// The app's is merged into the tenant's.
    Merge(String),
    /// The app's becomes the tenant's.
    Take(String),
    /// The tenant's stays.
    Keep,
    /// There is none.
    Missing,
}

impl View for ModelSource {
    type V = ModelView;

    open spec fn view(&self) -> ModelView {
        match *self {
            ModelSource::Merge(t) => ModelView::Merge(t@),
            ModelSource::Take(t) => ModelView::Take(t@),
            ModelSource::Keep => ModelView::Keep,
            ModelSource::Missing => ModelView::Missing,
        }
    }
}

/// Where the model of a tenant comes from: the types that the tenant has stay.
pub open spec fn model_source(csdl: Option<Seq<char>>, tenant_known: bool) -> ModelView {
    match csdl {
        Some(c) => if tenant_known {
            ModelView::Merge(c)
        } else {
            ModelView::Take(c)
        },
        None => if tenant_known {
            ModelView::Keep
        } else {
            ModelView::Missing
        },
    }
}

/// Where the model of a tenant comes from.
pub fn choose_model(csdl: &Option<String>, tenant_known: bool) -> (r: ModelSource)
    ensures
        r@ == model_source(opt_view(*csdl), tenant_known),
{
    match csdl {
        Some(c) => if tenant_known {
            ModelSource::Merge(c.clone())
        } else {
            ModelSource::Take(c.clone())
        },
        None => if tenant_known {
            ModelSource::Keep
        } else {
            ModelSource::Missing
        },
    }
}

/// The policies of a tenant after an installation: those that it has, then those
/// of the app; none where the app has none.
pub open spec fn combined_policy(
    existing: Option<Seq<char>>,
    policies: Seq<Seq<char>>,
) -> Option<Seq<char>> {
    if policies.len() == 0 {
        None
    } else {
        let new = joined(policies, "\n"@);
        match existing {
            Some(t) => if t.len() > 0 {
                Some(t + "\n"@ + new)
            } else {
                Some(new)
            },
            None => Some(new),
        }
    }
}

/// The policies of a tenant after an installation.
pub fn combine_policies(existing: &Option<String>, policies: &Vec<String>) -> (r: Option<String>)
    ensures
        opt_view(r) == combined_policy(opt_view(*existing), views(policies@)),
{
    if policies.len() == 0 {
        return None;
    }
    let new = join(policies, "\n");
    match existing {
        Some(t) => if !t.as_str().is_empty() {
            Some(cat3(t.as_str(), "\n", new.as_str()))
        } else {
            Some(new)
        },
        None => Some(new),
    }
}

/// What an installation is stored in.
pub enum StoreView {
    /// A store that can list what it holds: the tenant, the entity type and the
    /// source of each of its specs.
    Listing(Seq<(Seq<char>, Seq<char>, Seq<char>)>),
    /// A store that cannot.
    Plain,
    /// Nothing.
    Missing,
}

/// What an installation is stored in.
#[derive(Debug)]
pub enum Store {
    /// A store that can list what it holds.
    Listing(Vec<StoredSpec>),
    /// A store that cannot.
    Plain,
    /// Nothing.
    Missing,
}

/// A spec in a store.
#[derive(Debug)]
pub struct StoredSpec {
    /// The tenant.
    pub tenant: String,
    /// The entity type.
    pub entity_type: String,
    /// The source.
    pub ioa_source: String,
}

impl View for StoredSpec {
    type V = (Seq<char>, Seq<char>, Seq<char>);

    open spec fn view(&self) -> (Seq<char>, Seq<char>, Seq<char>) {
        (self.tenant@, self.entity_type@, self.ioa_source@)
    }
}

impl View for Store {
    type V = StoreView;

    open spec fn view(&self) -> StoreView {
        match *self {
            Store::Listing(v) => StoreView::Listing(views(v@)),
            Store::Plain => StoreView::Plain,
            Store::Missing => StoreView::Missing,
        }
    }
}

/// The specs of a tenant in a list, each with its entity type.
pub open spec fn specs_of_tenant(
    rows: Seq<(Seq<char>, Seq<char>, Seq<char>)>,
    tenant: Seq<char>,
) -> Seq<(Seq<char>, Seq<char>)>
    decreases rows.len(),
{
    if rows.len() == 0 {
        Seq::empty()
    } else {
        let rest = specs_of_tenant(rows.drop_last(), tenant);
        if rows.last().0 == tenant {
            rest.push((rows.last().1, rows.last().2))
        } else {
            rest
        }
    }
}

/// The last source that a list gives for an entity type.
pub open spec fn last_source(
    s: Seq<(Seq<char>, Seq<char>)>,
    entity_type: Seq<char>,
) -> Seq<char>
    decreases s.len(),
{
    if s.len() == 0 {
        Seq::empty()
    } else if s.last().0 == entity_type {
        s.last().1
    } else {
        last_source(s.drop_last(), entity_type)
    }
}

/// The specs of a list, each entity type once with its last source, in text
/// order.
pub open spec fn settled_specs(s: Seq<(Seq<char>, Seq<char>)>) -> Seq<(Seq<char>, Seq<char>)> {
    let ks = sorted_keys(types_of(s));
    Seq::new(ks.len(), |i: int| (ks[i], last_source(s, ks[i])))
}

/// One thing to be done for an installation.
pub enum StepView {
    /// Store a spec: its entity type, its source, and the model.
    SaveSpec(Seq<char>, Seq<char>, Seq<char>),
    /// Store the policies of the tenant.
    SavePolicy(Seq<char>),
    /// Store that the app is installed.
    RecordApp,
    /// Make the stored specs valid, all at once.
    CommitSpecs,
    /// Verify and load specs under the model.
    Bootstrap(Seq<char>, Seq<(Seq<char>, Seq<char>)>),
    /// Load the policies of the tenant.
    LoadPolicy(Seq<char>),
}

/// One thing to be done for an installation.
#[derive(Debug)]
pub enum InstallStep {
    /// Store a spec: its entity type, its source, and the model.
    SaveSpec(String, String, String),
    /// Store the policies of the tenant.
    SavePolicy(String),
    /// Store that the app is installed.
    RecordApp,
    /// Make the stored specs valid, all at once.
    CommitSpecs,
    /// Verify and load specs under the model.
    Bootstrap(String, Vec<(String, String)>),
    /// Load the policies of the tenant.
    LoadPolicy(String),
}

impl View for InstallStep {
    type V = StepView;

    open spec fn view(&self) -> StepView {
        match *self {
            InstallStep::SaveSpec(t, s, m) => StepView::SaveSpec(t@, s@, m@),
            InstallStep::SavePolicy(t) => StepView::SavePolicy(t@),
            InstallStep::RecordApp => StepView::RecordApp,
            InstallStep::CommitSpecs => StepView::CommitSpecs,
            InstallStep::Bootstrap(m, s) => StepView::Bootstrap(m@, views(s@)),
            InstallStep::LoadPolicy(t) => StepView::LoadPolicy(t@),
        }
    }
}

/// The step stores something.
pub open spec fn is_durable(s: StepView) -> bool {
    !(s is Bootstrap || s is LoadPolicy)
}

/// What the failure of a step is told as; where a step does not store anything,
/// its failure does not end the installation.
pub open spec fn step_failure(s: StepView, cause: Seq<char>) -> Option<Seq<char>> {
    match s {
        StepView::SaveSpec(t, _, _) => Some("Failed to persist spec "@ + t + ": "@ + cause),
        StepView::SavePolicy(_) => Some("Failed to persist Cedar policy: "@ + cause),
        StepView::RecordApp => Some("Failed to record os-app installation: "@ + cause),
        StepView::CommitSpecs => Some("Failed to commit specs: "@ + cause),
        _ => None,
    }
}

impl InstallStep {
    /// What the failure of the step is told as.
    pub fn failure(&self, cause: &str) -> (r: Option<String>)
        ensures
            opt_view(r) == step_failure(self@, cause@),
    {
        match self {
            InstallStep::SaveSpec(t, _, _) => Some(
                cat4("Failed to persist spec ", t.as_str(), ": ", cause),
            ),
            InstallStep::SavePolicy(_) => Some(
                crate::text::cat2("Failed to persist Cedar policy: ", cause),
            ),
            InstallStep::RecordApp => Some(
                crate::text::cat2("Failed to record os-app installation: ", cause),
            ),
            InstallStep::CommitSpecs => Some(
                crate::text::cat2("Failed to commit specs: ", cause),
            ),
            InstallStep::Bootstrap(_, _) => None,
            InstallStep::LoadPolicy(_) => None,
        }
    }
}

/// The specs that are stored: with those of the tenant that the store lists, or
/// those of the app alone.
pub open spec fn specs_to_save(
    store: StoreView,
    tenant: Seq<char>,
    specs: Seq<(Seq<char>, Seq<char>)>,
) -> Seq<(Seq<char>, Seq<char>)> {
    match store {
        StoreView::Listing(rows) => settled_specs(specs_of_tenant(rows, tenant) + specs),
        StoreView::Plain => specs,
        StoreView::Missing => Seq::empty(),
    }
}

/// The steps that store specs.
pub open spec fn spec_steps(
    s: Seq<(Seq<char>, Seq<char>)>,
    model: Option<Seq<char>>,
) -> Seq<StepView> {
    match model {
        Some(m) => Seq::new(s.len(), |i: int| StepView::SaveSpec(s[i].0, s[i].1, m)),
        None => Seq::empty(),
    }
}

/// One step, or none.
pub open spec fn one_if(cond: bool, s: StepView) -> Seq<StepView> {
    if cond {
        seq![s]
    } else {
        Seq::empty()
    }
}

/// All that is stored for an installation, in order.
pub open spec fn durable_steps(
    store: StoreView,
    tenant: Seq<char>,
    b: BundleView,
    model: Option<Seq<char>>,
    policy: Option<Seq<char>>,
) -> Seq<StepView> {
    if store is Missing {
        Seq::empty()
    } else {
        spec_steps(specs_to_save(store, tenant, b.specs), model) + one_if(
            policy is Some,
            StepView::SavePolicy(policy->0),
        ) + seq![StepView::RecordApp, StepView::CommitSpecs]
    }
}

/// The test for specs whose entity type is not among those to skip.
pub open spec fn not_among(skipped: Seq<Seq<char>>) -> spec_fn((Seq<char>, Seq<char>)) -> bool {
    |s: (Seq<char>, Seq<char>)| !skipped.contains(s.0)
}

/// All that is loaded for an installation, in order: the specs that are new or
/// changed, and the policies.
pub open spec fn loading_steps(
    b: BundleView,
    skipped: Seq<Seq<char>>,
    model: Option<Seq<char>>,
    policy: Option<Seq<char>>,
) -> Seq<StepView> {
    let fresh = keep(b.specs, not_among(skipped));
    one_if(model is Some && fresh.len() > 0, StepView::Bootstrap(model->0, fresh)) + one_if(
        policy is Some,
        StepView::LoadPolicy(policy->0),
    )
}

/// All that is done for an installation but for its modules, in order. `existing`
/// are the specs of the tenant, `held` its policies.
pub open spec fn install_steps(
    store: StoreView,
    tenant: Seq<char>,
    b: BundleView,
    existing: Seq<(Seq<char>, Seq<char>)>,
    held: Option<Seq<char>>,
    model: Option<Seq<char>>,
) -> Seq<StepView> {
    let policy = combined_policy(held, b.cedar_policies);
    let skipped = changed(existing, b.specs, Change::Skipped);
    durable_steps(store, tenant, b, model, policy) + loading_steps(b, skipped, model, policy)
}

fn collect_tenant(rows: &Vec<StoredSpec>, tenant: &str) -> (r: Vec<(String, String)>)
    ensures
        views(r@) == specs_of_tenant(views(rows@), tenant@),
{
    let ghost all = views(rows@);
    let mut r: Vec<(String, String)> = Vec::new();
    let mut i: usize = 0;
    assert(all.take(0) =~= Seq::<(Seq<char>, Seq<char>, Seq<char>)>::empty());
    assert(views(r@) =~= Seq::<(Seq<char>, Seq<char>)>::empty());
    while i < rows.len()
        invariant
            i <= rows@.len(),
            all == views(rows@),
            views(r@) == specs_of_tenant(all.take(i as int), tenant@),
        decreases rows@.len() - i,
    {
        proof {
            lemma_take_step(all, i as int);
            assert(all[i as int] == rows@[i as int]@);
        }
        if same(rows[i].tenant.as_str(), tenant) {
            let ghost was = views(r@);
            r.push((rows[i].entity_type.clone(), rows[i].ioa_source.clone()));
            assert(views(r@) =~= was.push((all[i as int].1, all[i as int].2)));
        }
        i = i + 1;
    }
    assert(all.take(i as int) =~= all);
    r
}

fn copy_pairs(v: &Vec<(String, String)>) -> (r: Vec<(String, String)>)
    ensures
        views(r@) == views(v@),
{
    let mut r: Vec<(String, String)> = Vec::new();
    let mut i: usize = 0;
    while i < v.len()
        invariant
            i <= v@.len(),
            r@.len() == i,
            forall|j: int| 0 <= j < i ==> (#[trigger] r@[j])@ == v@[j]@,
        decreases v@.len() - i,
    {
        r.push((v[i].0.clone(), v[i].1.clone()));
        i = i + 1;
    }
    assert(views(r@) =~= views(v@));
    r
}

fn find_last_source(v: &Vec<(String, String)>, entity_type: &str) -> (r: String)
    ensures
        r@ == last_source(views(v@), entity_type@),
{
    let ghost all = views(v@);
    let mut n: usize = v.len();
    assert(all.take(n as int) =~= all);
    while n > 0
        invariant
            n <= v@.len(),
            all == views(v@),
            last_source(all, entity_type@) == last_source(all.take(n as int), entity_type@),
        decreases n,
    {
        proof {
            lemma_take_step(all, n - 1);
            assert(all[n - 1] == v@[n - 1]@);
        }
        if same(v[n - 1].0.as_str(), entity_type) {
            return v[n - 1].1.clone();
        }
        n = n - 1;
    }
    let t = String::new();
    assert(t@ =~= Seq::empty());
    t
}

pub(crate) fn settle_specs(v: &Vec<(String, String)>) -> (r: Vec<(String, String)>)
    ensures
        views(r@) == settled_specs(views(v@)),
{
    let ghost all = views(v@);
    let mut types: Vec<String> = Vec::new();
    let mut i: usize = 0;
    while i < v.len()
        invariant
            i <= v@.len(),
            types@.len() == i,
            forall|j: int| 0 <= j < i ==> (#[trigger] types@[j])@ == v@[j]@.0,
        decreases v@.len() - i,
    {
        types.push(v[i].0.clone());
        i = i + 1;
    }
    assert(views(types@) =~= types_of(all));
    let ks = crate::keys::sorted_texts(&types);
    let ghost kss = views(ks@);
    let mut r: Vec<(String, String)> = Vec::new();
    let mut i: usize = 0;
    while i < ks.len()
        invariant
            i <= ks@.len(),
            all == views(v@),
            kss == views(ks@),
            r@.len() == i,
            forall|j: int|
                0 <= j < i ==> (#[trigger] r@[j])@ == (kss[j], last_source(all, kss[j])),
        decreases ks@.len() - i,
    {
        assert(kss[i as int] == ks@[i as int]@);
        let source = find_last_source(v, ks[i].as_str());
        r.push((ks[i].clone(), source));
        i = i + 1;
    }
    assert(views(r@) =~= settled_specs(all));
    r
}

fn collect_to_save(
    store: &Store,
    tenant: &str,
    specs: &Vec<(String, String)>,
) -> (r: Vec<(String, String)>)
    ensures
        views(r@) == specs_to_save(store@, tenant@, views(specs@)),
{
    match store {
        Store::Listing(rows) => {
            let mut all = collect_tenant(rows, tenant);
            let ghost a = all@;
            let mut more = copy_pairs(specs);
            let ghost b = more@;
            all.append(&mut more);
            proof {
                assert(all@ == a + b);
                assert(views(all@) =~= views(a) + views(b));
            }
            settle_specs(&all)
        },
        Store::Plain => copy_pairs(specs),
        Store::Missing => {
            let none: Vec<(String, String)> = Vec::new();
            assert(views(none@) =~= Seq::empty());
            none
        },
    }
}

pub(crate) fn plan_durable(
    store: &Store,
    tenant: &str,
    b: &AppBundle,
    model: &Option<String>,
    policy: &Option<String>,
) -> (r: Vec<InstallStep>)
    ensures
        views(r@) == durable_steps(store@, tenant@, b@, opt_view(*model), opt_view(*policy)),
{
    let mut r: Vec<InstallStep> = Vec::new();
    assert(views(r@) =~= Seq::<StepView>::empty());
    if let Store::Missing = store {
        return r;
    }
    let specs = collect_to_save(store, tenant, &b.specs);
    let ghost s = views(specs@);
    let ghost want = spec_steps(s, opt_view(*model));
    if let Some(m) = model {
        let mut i: usize = 0;
        while i < specs.len()
            invariant
                i <= specs@.len(),
                s == views(specs@),
                r@.len() == i,
                forall|j: int|
                    0 <= j < i ==> (#[trigger] r@[j])@ == StepView::SaveSpec(s[j].0, s[j].1, m@),
            decreases specs@.len() - i,
        {
            assert(s[i as int] == specs@[i as int]@);
            r.push(InstallStep::SaveSpec(specs[i].0.clone(), specs[i].1.clone(), m.clone()));
            i = i + 1;
        }
        assert(views(r@) =~= want);
    }
    assert(views(r@) =~= want);
    if let Some(p) = policy {
        r.push(InstallStep::SavePolicy(p.clone()));
    }
    proof {
        let p = opt_view(*policy);
        assert(views(r@) =~= want + one_if(p is Some, StepView::SavePolicy(p->0)));
    }
    let ghost was = views(r@);
    r.push(InstallStep::RecordApp);
    r.push(InstallStep::CommitSpecs);
    assert(views(r@) =~= was + seq![StepView::RecordApp, StepView::CommitSpecs]);
    r
}

pub(crate) fn fresh_specs(b: &AppBundle, skipped: &Vec<String>) -> (r: Vec<(String, String)>)
    ensures
        views(r@) == keep(b@.specs, not_among(views(skipped@))),
{
    let ghost all = b@.specs;
    let ghost test = not_among(views(skipped@));
    let mut r: Vec<(String, String)> = Vec::new();
    let mut i: usize = 0;
    assert(all.take(0) =~= Seq::<(Seq<char>, Seq<char>)>::empty());
    assert(views(r@) =~= Seq::<(Seq<char>, Seq<char>)>::empty());
    while i < b.specs.len()
        invariant
            i <= b.specs@.len(),
            all == views(b.specs@),
            test == not_among(views(skipped@)),
            views(r@) == keep(all.take(i as int), test),
        decreases b.specs@.len() - i,
    {
        proof {
            lemma_take_step(all, i as int);
            assert(all[i as int] == b.specs@[i as int]@);
        }
        if !has_text(skipped, b.specs[i].0.as_str()) {
            let ghost was = views(r@);
            r.push((b.specs[i].0.clone(), b.specs[i].1.clone()));
            assert(views(r@) =~= was.push(all[i as int]));
        }
        i = i + 1;
    }
    assert(all.take(i as int) =~= all);
    r
}

pub(crate) fn plan_loading(
    b: &AppBundle,
    skipped: &Vec<String>,
    model: &Option<String>,
    policy: &Option<String>,
) -> (r: Vec<InstallStep>)
    ensures
        views(r@) == loading_steps(b@, views(skipped@), opt_view(*model), opt_view(*policy)),
{
    let mut r: Vec<InstallStep> = Vec::new();
    let fresh = fresh_specs(b, skipped);
    let ghost f = views(fresh@);
    if let Some(m) = model {
        if fresh.len() > 0 {
            r.push(InstallStep::Bootstrap(m.clone(), fresh));
        }
    }
    let ghost m = opt_view(*model);
    let ghost first = one_if(m is Some && f.len() > 0, StepView::Bootstrap(m->0, f));
    assert(views(r@) =~= first);
    if let Some(p) = policy {
        r.push(InstallStep::LoadPolicy(p.clone()));
    }
    proof {
        let p = opt_view(*policy);
        assert(views(r@) =~= first + one_if(p is Some, StepView::LoadPolicy(p->0)));
    }
    r
}

/// All that is done for an installation but for its modules, in order.
pub fn plan_install(
    store: &Store,
    tenant: &str,
    b: &AppBundle,
    existing: &Vec<(String, String)>,
    held: &Option<String>,
    model: &Option<String>,
) -> (r: Vec<InstallStep>)
    ensures
        views(r@) == install_steps(
            store@,
            tenant@,
            b@,
            views(existing@),
            opt_view(*held),
            opt_view(*model),
        ),
{
    let policy = combine_policies(held, &b.cedar_policies);
    let skipped = list_changed(existing, &b.specs, Change::Skipped);
    let mut r = plan_durable(store, tenant, b, model, &policy);
    let ghost a = r@;
    let mut more = plan_loading(b, &skipped, model, &policy);
    let ghost c = more@;
    r.append(&mut more);
    proof {
        assert(r@ == a + c);
        assert(views(r@) =~= views(a) + views(c));
    }
    r
}

/// What is told where an app is not in the catalog.
pub fn app_not_found(app_name: &str) -> (r: String)
    ensures
        r@ == "OS app '"@ + app_name@ + "' not found in catalog"@,
{
    cat3("OS app '", app_name, "' not found in catalog")
}

/// What is told where the model of an app cannot be read.
pub fn model_not_read(app_name: &str, cause: &str) -> (r: String)
    ensures
        r@ == "Failed to parse CSDL for os-app '"@ + app_name@ + "': "@ + cause@,
{
    cat4("Failed to parse CSDL for os-app '", app_name, "': ", cause)
}

/// What is told where the specs of a tenant cannot be listed.
pub fn specs_not_listed(tenant: &str, cause: &str) -> (r: String)
    ensures
        r@ == "Failed to load existing specs for tenant '"@ + tenant@ + "': "@ + cause@,
{
    cat4("Failed to load existing specs for tenant '", tenant, "': ", cause)
}

/// What compiling a module may come to: its hash, if it compiles. One that is
/// cached already does; one without bytes or too large does not.
pub open spec fn compiled_as(
    w: WasmView,
    r: Option<Seq<char>>,
    cached: Map<Seq<char>, CachedModule>,
) -> bool {
    match w.bytes {
        Some(b) => if b.len() > MAX_MODULE_SIZE {
            r is None
        } else if cached.contains_key(sha256_hex(b)) {
            r == Some(sha256_hex(b))
        } else {
            r is Some ==> r == Some(sha256_hex(b))
        },
        None => r is None,
    }
}

/// The hash is what one of the modules compiled to, and the cached module was
/// compiled from its bytes.
pub open spec fn comes_from(
    h: Seq<char>,
    cached: CachedModule,
    modules: Seq<WasmView>,
    compiled: Seq<Option<Seq<char>>>,
) -> bool {
    exists|i: int|
        0 <= i < compiled.len() && #[trigger] compiled[i] == Some(h) && modules[i].bytes == Some(
            cached.source(),
        )
}

/// The cache after modules were compiled: what was cached stays as it was, all
/// that they compiled to is cached, and what is new was compiled from them.
pub open spec fn cache_grew(
    was: Map<Seq<char>, CachedModule>,
    now: Map<Seq<char>, CachedModule>,
    modules: Seq<WasmView>,
    compiled: Seq<Option<Seq<char>>>,
) -> bool {
    &&& forall|h: Seq<char>| #[trigger]
        was.contains_key(h) ==> now.contains_key(h) && now[h] == was[h]
    &&& forall|h: Seq<char>| #[trigger]
        now.contains_key(h) && !was.contains_key(h) ==> comes_from(h, now[h], modules, compiled)
    &&& forall|i: int|
        0 <= i < compiled.len() ==> (#[trigger] compiled[i] matches Some(h) ==> now.contains_key(h))
}

/// Compiles the modules of an app, each on its own: one that does not compile
/// does not keep the others from it. Which compile depends on the machine too; of
/// those that do, the hash is that of their bytes and they are cached under it.
pub fn compile_modules(engine: &mut WasmEngine, modules: &Vec<WasmFile>) -> (r: Vec<Option<String>>)
    requires
        old(engine).wf(),
    ensures
        final(engine).wf(),
        final(engine).inner() == old(engine).inner(),
        r@.len() == modules@.len(),
        forall|i: int|
            #![trigger r@[i]]
            0 <= i < r@.len() ==> compiled_as(
                modules@[i]@,
                opt_view(r@[i]),
                old(engine).modules(),
            ),
        cache_grew(
            old(engine).modules(),
            final(engine).modules(),
            views(modules@),
            hash_views(r@),
        ),
{
    let mut r: Vec<Option<String>> = Vec::new();
    let mut i: usize = 0;
    let ghost start = engine.modules();
    while i < modules.len()
        invariant
            i <= modules@.len(),
            engine.wf(),
            engine.inner() == old(engine).inner(),
            start == old(engine).modules(),
            r@.len() == i,
            forall|j: int|
                #![trigger r@[j]]
                0 <= j < i ==> compiled_as(modules@[j]@, opt_view(r@[j]), start),
            cache_grew(start, engine.modules(), views(modules@), hash_views(r@)),
        decreases modules@.len() - i,
    {
        let ghost was = engine.modules();
        let ghost before = r@;
        let done = match &modules[i].bytes {
            Some(b) => match engine.compile_and_cache(b.as_slice()) {
                Ok(h) => Some(h),
                Err(_) => None,
            },
            None => None,
        };
        r.push(done);
        proof {
            let now = engine.modules();
            assert forall|j: int| #![trigger r@[j]] 0 <= j < i + 1 implies compiled_as(
                modules@[j]@,
                opt_view(r@[j]),
                start,
            ) by {
                if j < i {
                    assert(r@[j] == before[j]);
                }
            }
            let hs = hash_views(r@);
            let ms = views(modules@);
            assert forall|h: Seq<char>| #[trigger]
                now.contains_key(h) && !start.contains_key(h) implies comes_from(
                h,
                now[h],
                ms,
                hs,
            ) by {
                if was.contains_key(h) {
                    assert(comes_from(h, was[h], ms, hash_views(before)));
                    let k = choose|k: int|
                        0 <= k < hash_views(before).len() && #[trigger] hash_views(before)[k]
                            == Some(h) && ms[k].bytes == Some(was[h].source());
                    assert(hs[k] == Some(h));
                } else {
                    assert(ms[i as int] == modules@[i as int]@);
                    assert(hs[i as int] == Some(h));
                }
            }
            assert forall|j: int| 0 <= j < hs.len() implies (#[trigger] hs[j] matches Some(h)
                ==> now.contains_key(h)) by {
                if j < i {
                    assert(hs[j] == hash_views(before)[j]);
                }
            }
        }
        i = i + 1;
    }
    r
}

/// The names of the modules that compiled.
pub open spec fn registered(
    modules: Seq<WasmView>,
    compiled: Seq<Option<Seq<char>>>,
) -> Seq<Seq<char>>
    decreases modules.len(),
{
    if modules.len() == 0 {
        Seq::empty()
    } else {
        let rest = registered(modules.drop_last(), compiled.drop_last());
        if compiled.last() is Some {
            rest.push(modules.last().name)
        } else {
            rest
        }
    }
}

/// The hashes that modules compiled to.
pub open spec fn hash_views(s: Seq<Option<String>>) -> Seq<Option<Seq<char>>> {
    Seq::new(s.len(), |i: int| opt_view(s[i]))
}

/// The entity types with a kind of change that were stored and loaded: without a
/// model none was.
pub open spec fn changed_under(
    model: Option<Seq<char>>,
    existing: Seq<(Seq<char>, Seq<char>)>,
    specs: Seq<(Seq<char>, Seq<char>)>,
    c: Change,
) -> Seq<Seq<char>> {
    if model is Some {
        changed(existing, specs, c)
    } else {
        Seq::empty()
    }
}

fn list_changed_under(
    model: &Option<String>,
    existing: &Vec<(String, String)>,
    specs: &Vec<(String, String)>,
    c: Change,
) -> (r: Vec<String>)
    ensures
        views(r@) == changed_under(opt_view(*model), views(existing@), views(specs@), c),
{
    if model.is_some() {
        list_changed(existing, specs, c)
    } else {
        let none: Vec<String> = Vec::new();
        assert(views(none@) =~= Seq::empty());
        none
    }
}

/// What came of an installation under a model; without one no spec was added or
/// updated.
pub fn conclude_install(
    b: &AppBundle,
    existing: &Vec<(String, String)>,
    model: &Option<String>,
    compiled: &Vec<Option<String>>,
) -> (r: InstallResult)
    requires
        compiled@.len() == b.wasm_modules@.len(),
    ensures
        views(r.added@) == changed_under(
            opt_view(*model),
            views(existing@),
            b@.specs,
            Change::Added,
        ),
        views(r.updated@) == changed_under(
            opt_view(*model),
            views(existing@),
            b@.specs,
            Change::Updated,
        ),
        views(r.skipped@) == changed(views(existing@), b@.specs, Change::Skipped),
        views(r.wasm_modules@) == registered(b@.wasm_modules, hash_views(compiled@)),
{
    let ghost ms = b@.wasm_modules;
    let ghost cs = hash_views(compiled@);
    let mut names: Vec<String> = Vec::new();
    let mut i: usize = 0;
    assert(ms.take(0) =~= Seq::<WasmView>::empty());
    assert(views(names@) =~= Seq::<Seq<char>>::empty());
    while i < b.wasm_modules.len()
        invariant
            i <= b.wasm_modules@.len(),
            compiled@.len() == b.wasm_modules@.len(),
            ms == views(b.wasm_modules@),
            cs == hash_views(compiled@),
            views(names@) == registered(ms.take(i as int), cs.take(i as int)),
        decreases b.wasm_modules@.len() - i,
    {
        proof {
            lemma_take_step(ms, i as int);
            lemma_take_step(cs, i as int);
            assert(ms[i as int] == b.wasm_modules@[i as int]@);
            assert(cs[i as int] == opt_view(compiled@[i as int]));
        }
        if compiled[i].is_some() {
            let ghost was = views(names@);
            names.push(b.wasm_modules[i].name.clone());
            assert(views(names@) =~= was.push(ms[i as int].name));
        }
        i = i + 1;
    }
    assert(ms.take(i as int) =~= ms);
    assert(cs.take(i as int) =~= cs);
    InstallResult {
        added: list_changed_under(model, existing, &b.specs, Change::Added),
        updated: list_changed_under(model, existing, &b.specs, Change::Updated),
        skipped: list_changed(existing, &b.specs, Change::Skipped),
        wasm_modules: names,
    }
}

/// Whatever is loaded is loaded after all that is stored: where a step that
/// stores something fails, and the installation ends with it, nothing was loaded.
pub proof fn lemma_stored_before_loaded(
    store: StoreView,
    tenant: Seq<char>,
    b: BundleView,
    existing: Seq<(Seq<char>, Seq<char>)>,
    held: Option<Seq<char>>,
    model: Option<Seq<char>>,
)
    ensures
        ({
            let s = install_steps(store, tenant, b, existing, held, model);
            forall|i: int, j: int|
                #![trigger s[i], s[j]]
                0 <= i < j < s.len() && !is_durable(s[i]) ==> !is_durable(s[j])
        }),
{
    let policy = combined_policy(held, b.cedar_policies);
    let skipped = changed(existing, b.specs, Change::Skipped);
    let d = durable_steps(store, tenant, b, model, policy);
    let l = loading_steps(b, skipped, model, policy);
    let s = install_steps(store, tenant, b, existing, held, model);
    assert forall|i: int| 0 <= i < d.len() implies is_durable(#[trigger] d[i]) by {
        let a = spec_steps(specs_to_save(store, tenant, b.specs), model);
        if !(store is Missing) {
            if i < a.len() {
                assert(d[i] == a[i]);
                assert(a[i] is SaveSpec);
            }
        }
    }
    assert forall|i: int| 0 <= i < l.len() implies !is_durable(#[trigger] l[i]) by {}
    assert forall|i: int, j: int|
        #![trigger s[i], s[j]]
        0 <= i < j < s.len() && !is_durable(s[i]) implies !is_durable(s[j]) by {
        if i < d.len() {
            assert(s[i] == d[i]);
        }
        if j >= d.len() {
            assert(s[j] == l[j - d.len()]);
        }
    }
}

/// What is stored is made valid at the end, after all of it is stored; and a step
/// that stores something tells its failure, so that the installation ends there.
pub proof fn lemma_commit_comes_last(
    store: StoreView,
    tenant: Seq<char>,
    b: BundleView,
    model: Option<Seq<char>>,
    policy: Option<Seq<char>>,
    cause: Seq<char>,
)
    requires
        !(store is Missing),
    ensures
        ({
            let d = durable_steps(store, tenant, b, model, policy);
            &&& d.len() >= 2
            &&& d.last() == StepView::CommitSpecs
            &&& d[d.len() - 2] == StepView::RecordApp
            &&& forall|s: StepView| is_durable(s) <==> #[trigger] step_failure(s, cause) is Some
        }),
{
}

/// Each spec that an app brings is new, changed or the same, and only one of
/// them.
pub proof fn lemma_every_spec_told(
    existing: Seq<(Seq<char>, Seq<char>)>,
    specs: Seq<(Seq<char>, Seq<char>)>,
)
    ensures
        changed(existing, specs, Change::Added).len() + changed(
            existing,
            specs,
            Change::Updated,
        ).len() + changed(existing, specs, Change::Skipped).len() == specs.len(),
{
    lemma_split(existing, specs);
    lemma_text_before_weak();
    crate::order::lemma_arranged(
        types_of(keep(specs, changing(existing, Change::Added))),
        text_before(),
    );
    crate::order::lemma_arranged(
        types_of(keep(specs, changing(existing, Change::Updated))),
        text_before(),
    );
    crate::order::lemma_arranged(
        types_of(keep(specs, changing(existing, Change::Skipped))),
        text_before(),
    );
}

proof fn lemma_split(
    existing: Seq<(Seq<char>, Seq<char>)>,
    specs: Seq<(Seq<char>, Seq<char>)>,
)
    ensures
        keep(specs, changing(existing, Change::Added)).len() + keep(
            specs,
            changing(existing, Change::Updated),
        ).len() + keep(specs, changing(existing, Change::Skipped)).len() == specs.len(),
    decreases specs.len(),
{
    if specs.len() > 0 {
        lemma_split(existing, specs.drop_last());
    }
}

proof fn lemma_text_before_weak()
    ensures
        crate::order::weak_order(text_before()),
{
    assert forall|a: Seq<char>, b: Seq<char>| #[trigger] text_before()(a, b) implies !text_before()(
        b,
        a,
    ) by {
        crate::evidence_laws::lemma_text_weak(a, b, b);
    }
    assert forall|a: Seq<char>, b: Seq<char>, c: Seq<char>|
        !(#[trigger] text_before()(a, b)) && !(#[trigger] text_before()(b, c)) implies !text_before()(
        a,
        c,
    ) by {
        crate::evidence_laws::lemma_text_weak(a, b, c);
    }
}

/// Installed again, an app changes no spec: where a tenant has every spec that
/// the app brings, all are told as the same, and none is loaded anew.
pub proof fn lemma_installed_again(
    store: StoreView,
    tenant: Seq<char>,
    b: BundleView,
    existing: Seq<(Seq<char>, Seq<char>)>,
    held: Option<Seq<char>>,
    model: Option<Seq<char>>,
)
    requires
        forall|i: int|
            0 <= i < b.specs.len() ==> listed(existing, (#[trigger] b.specs[i]).0) == Some(
                b.specs[i].1,
            ),
    ensures
        changed(existing, b.specs, Change::Added).len() == 0,
        changed(existing, b.specs, Change::Updated).len() == 0,
        changed(existing, b.specs, Change::Skipped).len() == b.specs.len(),
        ({
            let s = install_steps(store, tenant, b, existing, held, model);
            forall|i: int| 0 <= i < s.len() ==> !(#[trigger] s[i] is Bootstrap)
        }),
{
    broadcast use vstd::seq_lib::group_to_multiset_ensures;

    let same = keep(b.specs, changing(existing, Change::Skipped));
    lemma_keep(b.specs, changing(existing, Change::Added));
    lemma_keep(b.specs, changing(existing, Change::Updated));
    lemma_keep(b.specs, changing(existing, Change::Skipped));
    assert(keep(b.specs, changing(existing, Change::Added)).len() == 0) by {
        let k = keep(b.specs, changing(existing, Change::Added));
        if k.len() > 0 {
            assert(changing(existing, Change::Added)(k[0]));
            let at = choose|at: int| 0 <= at < b.specs.len() && b.specs[at] == k[0];
            assert(b.specs[at] == k[0]);
        }
    }
    assert(keep(b.specs, changing(existing, Change::Updated)).len() == 0) by {
        let k = keep(b.specs, changing(existing, Change::Updated));
        if k.len() > 0 {
            assert(changing(existing, Change::Updated)(k[0]));
            let at = choose|at: int| 0 <= at < b.specs.len() && b.specs[at] == k[0];
            assert(b.specs[at] == k[0]);
        }
    }
    lemma_every_spec_told(existing, b.specs);
    lemma_text_before_weak();
    crate::order::lemma_arranged(
        types_of(keep(b.specs, changing(existing, Change::Added))),
        text_before(),
    );
    crate::order::lemma_arranged(
        types_of(keep(b.specs, changing(existing, Change::Updated))),
        text_before(),
    );
    crate::order::lemma_arranged(types_of(same), text_before());
    let skipped = changed(existing, b.specs, Change::Skipped);
    let fresh = keep(b.specs, not_among(skipped));
    assert(fresh.len() == 0) by {
        lemma_keep(b.specs, not_among(skipped));
        if fresh.len() > 0 {
            let x = fresh[0];
            assert(not_among(skipped)(x));
            let at = choose|at: int| 0 <= at < b.specs.len() && b.specs[at] == x;
            assert(changing(existing, Change::Skipped)(b.specs[at]));
            assert(same.contains(b.specs[at]));
            let n = choose|n: int| 0 <= n < same.len() && same[n] == x;
            assert(types_of(same)[n] == x.0);
            assert(types_of(same).contains(x.0));
            assert(types_of(same).to_multiset().contains(x.0));
            assert(skipped.to_multiset().contains(x.0));
            assert(skipped.contains(x.0));
        }
    }
    let policy = combined_policy(held, b.cedar_policies);
    let d = durable_steps(store, tenant, b, model, policy);
    let l = loading_steps(b, skipped, model, policy);
    let s = install_steps(store, tenant, b, existing, held, model);
    assert forall|i: int| 0 <= i < s.len() implies !(#[trigger] s[i] is Bootstrap) by {
        if i < d.len() {
            assert(s[i] == d[i]);
            let a = spec_steps(specs_to_save(store, tenant, b.specs), model);
            if i < a.len() {
                assert(d[i] == a[i]);
            }
        } else {
            assert(s[i] == l[i - d.len()]);
        }
    }
}

/// What a tenant has stays: where the store lists the specs that it holds, each
/// entity type of the tenant is stored again with the rest, under its own source
/// or, where the app brings one for it, under that of the app.
pub proof fn lemma_tenant_types_stay(
    rows: Seq<(Seq<char>, Seq<char>, Seq<char>)>,
    tenant: Seq<char>,
    specs: Seq<(Seq<char>, Seq<char>)>,
    i: int,
)
    requires
        0 <= i < rows.len(),
        rows[i].0 == tenant,
    ensures
        types_of(specs_to_save(StoreView::Listing(rows), tenant, specs)).contains(rows[i].1),
{
    lemma_tenant_type(rows, tenant, i);
    let held = specs_of_tenant(rows, tenant);
    let all = held + specs;
    let at = choose|at: int| 0 <= at < held.len() && held[at].0 == rows[i].1;
    assert(all[at] == held[at]);
    assert(types_of(all)[at] == rows[i].1);
    assert(types_of(all).contains(rows[i].1));
    crate::order::lemma_sorted_keys(types_of(all));
    let ks = sorted_keys(types_of(all));
    let n = choose|n: int| 0 <= n < ks.len() && ks[n] == rows[i].1;
    assert(types_of(settled_specs(all))[n] == rows[i].1);
}

proof fn lemma_tenant_type(
    rows: Seq<(Seq<char>, Seq<char>, Seq<char>)>,
    tenant: Seq<char>,
    i: int,
)
    requires
        0 <= i < rows.len(),
        rows[i].0 == tenant,
    ensures
        exists|at: int|
            0 <= at < specs_of_tenant(rows, tenant).len() && (#[trigger] specs_of_tenant(
                rows,
                tenant,
            )[at]).0 == rows[i].1,
    decreases rows.len(),
{
    let held = specs_of_tenant(rows, tenant);
    let rest = specs_of_tenant(rows.drop_last(), tenant);
    if i < rows.len() - 1 {
        assert(rows.drop_last()[i] == rows[i]);
        lemma_tenant_type(rows.drop_last(), tenant, i);
        let at = choose|at: int| 0 <= at < rest.len() && (#[trigger] rest[at]).0 == rows[i].1;
        assert(held[at] == rest[at]);
    } else {
        assert(held[rest.len() as int].0 == rows[i].1);
    }
}

proof fn lemma_changed_has(
    existing: Seq<(Seq<char>, Seq<char>)>,
    specs: Seq<(Seq<char>, Seq<char>)>,
    c: Change,
    t: Seq<char>,
)
    requires
        changed(existing, specs, c).contains(t),
    ensures
        exists|i: int|
            0 <= i < specs.len() && (#[trigger] specs[i]).0 == t && change(existing, specs[i]) == c,
{
    broadcast use vstd::seq_lib::group_to_multiset_ensures;

    let k = keep(specs, changing(existing, c));
    lemma_text_before_weak();
    crate::order::lemma_arranged(types_of(k), text_before());
    assert(changed(existing, specs, c).to_multiset().contains(t));
    assert(types_of(k).to_multiset().contains(t));
    assert(types_of(k).contains(t));
    let n = choose|n: int| 0 <= n < types_of(k).len() && types_of(k)[n] == t;
    lemma_keep(specs, changing(existing, c));
    assert(changing(existing, c)(k[n]) && specs.contains(k[n]));
    let i = choose|i: int| 0 <= i < specs.len() && specs[i] == k[n];
    assert(specs[i].0 == t);
}

/// Every entity type that is told as added is stored, where there is a store, and
/// loaded.
pub proof fn lemma_added_is_stored_and_loaded(
    store: StoreView,
    tenant: Seq<char>,
    b: BundleView,
    existing: Seq<(Seq<char>, Seq<char>)>,
    held: Option<Seq<char>>,
    model: Option<Seq<char>>,
    t: Seq<char>,
)
    requires
        changed_under(model, existing, b.specs, Change::Added).contains(t),
    ensures
        ({
            let s = install_steps(store, tenant, b, existing, held, model);
            &&& !(store is Missing) ==> exists|i: int|
                0 <= i < s.len() && #[trigger] s[i] is SaveSpec && s[i]->SaveSpec_0 == t
            &&& exists|i: int|
                0 <= i < s.len() && #[trigger] s[i] is Bootstrap && types_of(
                    s[i]->Bootstrap_1,
                ).contains(t)
        }),
{
    lemma_changed_has(existing, b.specs, Change::Added, t);
    let at = choose|at: int|
        0 <= at < b.specs.len() && (#[trigger] b.specs[at]).0 == t && change(existing, b.specs[at])
            == Change::Added;
    let x = b.specs[at];
    let policy = combined_policy(held, b.cedar_policies);
    let skipped = changed(existing, b.specs, Change::Skipped);
    assert(!skipped.contains(t)) by {
        if skipped.contains(t) {
            lemma_changed_has(existing, b.specs, Change::Skipped, t);
        }
    }
    let fresh = keep(b.specs, not_among(skipped));
    lemma_keep(b.specs, not_among(skipped));
    assert(not_among(skipped)(x));
    assert(fresh.contains(b.specs[at]));
    let n = choose|n: int| 0 <= n < fresh.len() && fresh[n] == x;
    assert(types_of(fresh)[n] == t);
    assert(types_of(fresh).contains(t));
    let d = durable_steps(store, tenant, b, model, policy);
    let l = loading_steps(b, skipped, model, policy);
    let s = install_steps(store, tenant, b, existing, held, model);
    assert(l[0] == StepView::Bootstrap(model->0, fresh));
    assert(s[d.len() as int] == l[0]);
    if !(store is Missing) {
        let saved = specs_to_save(store, tenant, b.specs);
        let a = spec_steps(saved, model);
        assert(exists|i: int| 0 <= i < saved.len() && (#[trigger] saved[i]).0 == t) by {
            match store {
                StoreView::Listing(rows) => {
                    let own = specs_of_tenant(rows, tenant);
                    let all = own + b.specs;
                    assert(all[own.len() + at] == x);
                    assert(types_of(all)[own.len() + at] == t);
                    assert(types_of(all).contains(t));
                    crate::order::lemma_sorted_keys(types_of(all));
                    let ks = sorted_keys(types_of(all));
                    let m = choose|m: int| 0 <= m < ks.len() && ks[m] == t;
                    assert(saved[m].0 == t);
                },
                _ => {
                    assert(saved[at].0 == t);
                },
            }
        }
        let i = choose|i: int| 0 <= i < saved.len() && (#[trigger] saved[i]).0 == t;
        assert(a[i] == StepView::SaveSpec(saved[i].0, saved[i].1, model->0));
        assert(d[i] == a[i]);
        assert(s[i] == d[i]);
    }
}

} // verus!
