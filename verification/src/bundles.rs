//! What is asked of the catalog: the apps, their guides, and all that an app
//! brings.
use vstd::prelude::*;

use crate::catalog::catalog_of;
use crate::catalog::collect_with;
use crate::catalog::file_named;
use crate::catalog::files_with;
use crate::catalog::find_ioa_files;
use crate::catalog::find_named;
use crate::catalog::guide;
use crate::catalog::read_app_guide;
use crate::catalog::spec_files;
use crate::catalog::AppBundle;
use crate::catalog::AppCatalog;
use crate::catalog::AppDir;
use crate::catalog::AppEntry;
use crate::catalog::AppFile;
use crate::catalog::BundleView;
use crate::catalog::CatalogView;
use crate::catalog::DirView;
use crate::catalog::EntryView;
use crate::catalog::FileView;
use crate::catalog::WasmFile;
use crate::catalog::WasmView;
use crate::keys::arrange;
use crate::order::arranged;
use crate::order::keep;
use crate::order::lemma_take_step;
use crate::order::opt_view;
use crate::order::text_lt;
use crate::order::views;
use crate::text::copy_list;
use crate::text::copy_opt;
use crate::text::less;
use crate::text::same;

verus! {

fn copy_entry(e: &AppEntry) -> (r: AppEntry)
    ensures
        r@ == e@,
{
    AppEntry {
        name: e.name.clone(),
        description: e.description.clone(),
        entity_types: copy_list(&e.entity_types),
        version: e.version.clone(),
        app_guide: copy_opt(&e.app_guide),
        dependencies: copy_list(&e.dependencies),
    }
}

/// All apps.
pub fn list_os_apps(catalog: &AppCatalog) -> (r: Vec<AppEntry>)
    ensures
        views(r@) == catalog@.entries,
{
    let mut r: Vec<AppEntry> = Vec::new();
    let mut i: usize = 0;
    while i < catalog.entries.len()
        invariant
            i <= catalog.entries@.len(),
            r@.len() == i,
            forall|j: int| 0 <= j < i ==> (#[trigger] r@[j])@ == catalog.entries@[j]@,
        decreases catalog.entries@.len() - i,
    {
        r.push(copy_entry(&catalog.entries[i]));
        i = i + 1;
    }
    assert(views(r@) =~= catalog@.entries);
    r
}

/// All apps.
pub fn list_skills(catalog: &AppCatalog) -> (r: Vec<AppEntry>)
    ensures
        views(r@) == catalog@.entries,
{
    list_os_apps(catalog)
}

/// The first app with a name.
pub open spec fn entry_named(s: Seq<EntryView>, name: Seq<char>) -> Option<EntryView>
    decreases s.len(),
{
    if s.len() == 0 {
        None
    } else if s[0].name == name {
        Some(s[0])
    } else {
        entry_named(s.drop_first(), name)
    }
}

fn find_entry<'a>(catalog: &'a AppCatalog, name: &str) -> (r: Option<&'a AppEntry>)
    ensures
        opt_view(r) == entry_named(catalog@.entries, name@),
{
    let ghost all = catalog@.entries;
    let mut i: usize = 0;
    assert(all.skip(0) =~= all);
    while i < catalog.entries.len()
        invariant
            i <= catalog.entries@.len(),
            all == views(catalog.entries@),
            entry_named(all, name@) == entry_named(all.skip(i as int), name@),
        decreases catalog.entries@.len() - i,
    {
        assert(all.skip(i as int)[0] == catalog.entries@[i as int]@);
        assert(all.skip(i as int).drop_first() =~= all.skip(i + 1));
        if same(catalog.entries[i].name.as_str(), name) {
            return Some(&catalog.entries[i]);
        }
        i = i + 1;
    }
    None
}

/// The guide of the first app with a name.
pub open spec fn guide_of(s: Seq<EntryView>, name: Seq<char>) -> Option<Seq<char>> {
    match entry_named(s, name) {
        Some(e) => e.app_guide,
        None => None,
    }
}

/// The guide of an app.
pub fn get_app_guide(catalog: &AppCatalog, name: &str) -> (r: Option<String>)
    ensures
        opt_view(r) == guide_of(catalog@.entries, name@),
{
    match find_entry(catalog, name) {
        Some(e) => copy_opt(&e.app_guide),
        None => None,
    }
}

/// The guide of an app.
pub fn get_skill_guide(catalog: &AppCatalog, name: &str) -> (r: Option<String>)
    ensures
        opt_view(r) == guide_of(catalog@.entries, name@),
{
    get_app_guide(catalog, name)
}

/// The apps that an app needs: those that it names, else those that are known.
pub open spec fn dependencies(s: Seq<EntryView>, name: Seq<char>) -> Seq<Seq<char>> {
    let known = if name == "temper-agent"@ {
        seq!["temper-fs"@]
    } else {
        Seq::empty()
    };
    match entry_named(s, name) {
        Some(e) => if e.dependencies.len() > 0 {
            e.dependencies
        } else {
            known
        },
        None => known,
    }
}

/// The apps that an app needs.
pub fn os_app_dependencies(catalog: &AppCatalog, name: &str) -> (r: Vec<String>)
    ensures
        views(r@) == dependencies(catalog@.entries, name@),
{
    if let Some(e) = find_entry(catalog, name) {
        if e.dependencies.len() > 0 {
            return copy_list(&e.dependencies);
        }
    }
    let mut r: Vec<String> = Vec::new();
    if same(name, "temper-agent") {
        r.push("temper-fs".to_string());
        assert(views(r@) =~= seq!["temper-fs"@]);
    } else {
        assert(views(r@) =~= Seq::empty());
    }
    r
}

/// The apps to be installed for an app, in order: those that it needs, then
/// itself.
pub fn install_order(catalog: &AppCatalog, name: &str) -> (r: Vec<String>)
    ensures
        views(r@) == dependencies(catalog@.entries, name@).push(name@),
{
    let mut r = os_app_dependencies(catalog, name);
    let ghost was = views(r@);
    r.push(name.to_string());
    assert(views(r@) =~= was.push(name@));
    r
}

/// The file with the model: at the root of the app, else under `specs`, else the
/// first under `csdl`.
pub open spec fn model_file(d: DirView) -> Option<FileView> {
    match file_named(d.files, "model.csdl.xml"@) {
        Some(f) => Some(f),
        None => match file_named(d.specs, "model.csdl.xml"@) {
            Some(f) => Some(f),
            None => {
                let s = files_with(d.csdl, ".csdl.xml"@);
                if s.len() > 0 {
                    Some(s[0])
                } else {
                    None
                }
            },
        },
    }
}

/// The model of an app, where it can be read.
pub open spec fn model(d: DirView) -> Option<Seq<char>> {
    match model_file(d) {
        Some(f) => f.content,
        None => None,
    }
}

/// The file with the model.
pub fn find_csdl<'a>(d: &'a AppDir) -> (r: Option<&'a AppFile>)
    ensures
        opt_view(r) == model_file(d@),
{
    if let Some(f) = find_named(&d.files, "model.csdl.xml") {
        return Some(f);
    }
    if let Some(f) = find_named(&d.specs, "model.csdl.xml") {
        return Some(f);
    }
    let s = collect_with(&d.csdl, ".csdl.xml");
    if s.len() > 0 {
        assert(views(s@)[0] == s@[0]@);
        Some(s[0])
    } else {
        None
    }
}

/// What files hold, where they can be read.
pub open spec fn contents(s: Seq<FileView>) -> Seq<Seq<char>>
    decreases s.len(),
{
    if s.len() == 0 {
        Seq::empty()
    } else {
        match s.last().content {
            Some(t) => contents(s.drop_last()).push(t),
            None => contents(s.drop_last()),
        }
    }
}

/// The policies of an app, by file.
pub open spec fn policies(d: DirView) -> Seq<Seq<char>> {
    contents(files_with(d.policies, ".cedar"@))
}

/// The policies of an app, by file.
pub fn find_cedar_policies(d: &AppDir) -> (r: Vec<String>)
    ensures
        views(r@) == policies(d@),
{
    let v = collect_with(&d.policies, ".cedar");
    let ghost all = views(v@);
    let mut r: Vec<String> = Vec::new();
    let mut i: usize = 0;
    assert(all.take(0) =~= Seq::<FileView>::empty());
    assert(views(r@) =~= Seq::<Seq<char>>::empty());
    while i < v.len()
        invariant
            i <= v@.len(),
            all == views(v@),
            views(r@) == contents(all.take(i as int)),
        decreases v@.len() - i,
    {
        proof {
            lemma_take_step(all, i as int);
            assert(all[i as int] == v@[i as int]@);
        }
        if let Some(t) = &v[i].content {
            let ghost was = views(r@);
            r.push(t.clone());
            assert(views(r@) =~= was.push(t@));
        }
        i = i + 1;
    }
    assert(all.take(i as int) =~= all);
    r
}

/// The test for modules that can be read; what a build left is none.
pub open spec fn readable_modules() -> spec_fn(WasmView) -> bool {
    |w: WasmView| w.name != "target"@ && w.bytes is Some
}

/// The first module comes before the second, by name.
pub open spec fn module_before() -> spec_fn(WasmView, WasmView) -> bool {
    |a: WasmView, b: WasmView| text_lt(a.name, b.name)
}

/// The modules of an app, by name.
pub open spec fn modules(d: DirView) -> Seq<WasmView> {
    arranged(keep(d.wasm, readable_modules()), module_before())
}

/// The modules of an app, by name.
pub fn find_wasm_modules(d: &AppDir) -> (r: Vec<WasmFile>)
    ensures
        views(r@) == modules(d@),
{
    let ghost all = views(d.wasm@);
    let mut found: Vec<WasmFile> = Vec::new();
    let mut i: usize = 0;
    assert(all.take(0) =~= Seq::<WasmView>::empty());
    assert(views(found@) =~= Seq::<WasmView>::empty());
    while i < d.wasm.len()
        invariant
            i <= d.wasm@.len(),
            all == views(d.wasm@),
            views(found@) == keep(all.take(i as int), readable_modules()),
        decreases d.wasm@.len() - i,
    {
        proof {
            lemma_take_step(all, i as int);
            assert(all[i as int] == d.wasm@[i as int]@);
        }
        let w = &d.wasm[i];
        if !same(w.name.as_str(), "target") {
            if let Some(b) = &w.bytes {
                let ghost was = views(found@);
                found.push(
                    WasmFile {
                        name: w.name.clone(),
                        bytes: Some(vstd::slice::slice_to_vec(b.as_slice())),
                    },
                );
                assert(views(found@) =~= was.push(all[i as int]));
            }
        }
        i = i + 1;
    }
    assert(all.take(i as int) =~= all);
    let ghost fs = found@;
    let ghost order = |a: WasmFile, b: WasmFile| module_before()(a@, b@);
    let before = |a: &WasmFile, b: &WasmFile| -> (d: bool)
        ensures
            d == order(*a, *b),
        { less(a.name.as_str(), b.name.as_str()) };
    proof {
        crate::keys::lemma_arranged_views(fs, order, module_before());
    }
    arrange(found, before, Ghost(order))
}

/// The specs in files, each with its entity type; none where one of the files
/// cannot be read or holds no automaton.
pub open spec fn specs_in(s: Seq<FileView>) -> Option<Seq<(Seq<char>, Seq<char>)>>
    decreases s.len(),
{
    if s.len() == 0 {
        Some(Seq::empty())
    } else {
        match (specs_in(s.drop_last()), s.last().content, s.last().automaton) {
            (Some(rest), Some(source), Some(name)) => Some(rest.push((name, source))),
            _ => None,
        }
    }
}

proof fn lemma_specs_prefix(s: Seq<FileView>, n: int)
    requires
        0 <= n <= s.len(),
        specs_in(s.take(n)) is None,
    ensures
        specs_in(s) is None,
    decreases s.len() - n,
{
    if n < s.len() {
        lemma_take_step(s, n);
        lemma_specs_prefix(s, n + 1);
    } else {
        assert(s.take(n) =~= s);
    }
}

fn read_specs(v: &Vec<&AppFile>) -> (r: Option<Vec<(String, String)>>)
    ensures
        match r {
            Some(x) => specs_in(views(v@)) == Some(views(x@)),
            None => specs_in(views(v@)) is None,
        },
{
    let ghost all = views(v@);
    let mut r: Vec<(String, String)> = Vec::new();
    let mut i: usize = 0;
    assert(all.take(0) =~= Seq::<FileView>::empty());
    assert(views(r@) =~= Seq::<(Seq<char>, Seq<char>)>::empty());
    while i < v.len()
        invariant
            i <= v@.len(),
            all == views(v@),
            specs_in(all.take(i as int)) == Some(views(r@)),
        decreases v@.len() - i,
    {
        proof {
            lemma_take_step(all, i as int);
            assert(all[i as int] == v@[i as int]@);
        }
        match (&v[i].content, &v[i].automaton) {
            (Some(source), Some(name)) => {
                let ghost was = views(r@);
                r.push((name.clone(), source.clone()));
                assert(views(r@) =~= was.push((name@, source@)));
            },
            _ => {
                proof {
                    lemma_specs_prefix(all, i + 1);
                }
                return None;
            },
        }
        i = i + 1;
    }
    assert(all.take(i as int) =~= all);
    Some(r)
}

/// All that the app in a directory brings; nothing where a spec of it cannot be
/// read, or where there is nothing at all.
pub open spec fn bundle(d: DirView) -> Option<BundleView> {
    match specs_in(spec_files(d)) {
        None => None,
        Some(specs) => {
            let b = BundleView {
                specs,
                csdl: model(d),
                cedar_policies: policies(d),
                wasm_modules: modules(d),
            };
            if specs.len() == 0 && b.cedar_policies.len() == 0 && b.wasm_modules.len() == 0
                && guide(d.files) is None && b.csdl is None {
                None
            } else {
                Some(b)
            }
        },
    }
}

/// All that the app in a directory brings.
pub fn load_app_bundle(d: &AppDir) -> (r: Option<AppBundle>)
    ensures
        opt_view(r) == bundle(d@),
{
    let files = find_ioa_files(d);
    let specs = match read_specs(&files) {
        Some(s) => s,
        None => {
            return None;
        },
    };
    let csdl = match find_csdl(d) {
        Some(f) => copy_opt(&f.content),
        None => None,
    };
    let cedar_policies = find_cedar_policies(d);
    let wasm_modules = find_wasm_modules(d);
    let app_guide = read_app_guide(&d.files);
    if specs.len() == 0 && cedar_policies.len() == 0 && wasm_modules.len() == 0
        && app_guide.is_none() && csdl.is_none() {
        return None;
    }
    Some(AppBundle { specs, csdl, cedar_policies, wasm_modules })
}

/// The first directory at a place.
pub open spec fn dir_at(s: Seq<DirView>, path: Seq<char>) -> Option<DirView>
    decreases s.len(),
{
    if s.len() == 0 {
        None
    } else if s[0].path == path {
        Some(s[0])
    } else {
        dir_at(s.drop_first(), path)
    }
}

/// All that an app of the catalog brings, by the directories as they are now.
pub open spec fn app_bundle(
    c: CatalogView,
    name: Seq<char>,
    disk: Seq<DirView>,
) -> Option<BundleView> {
    if c.paths.contains_key(name) {
        match dir_at(disk, c.paths[name]) {
            Some(d) => bundle(d),
            None => None,
        }
    } else {
        None
    }
}

fn find_dir<'a>(disk: &'a Vec<AppDir>, path: &str) -> (r: Option<&'a AppDir>)
    ensures
        opt_view(r) == dir_at(views(disk@), path@),
{
    let ghost all = views(disk@);
    let mut i: usize = 0;
    assert(all.skip(0) =~= all);
    while i < disk.len()
        invariant
            i <= disk@.len(),
            all == views(disk@),
            dir_at(all, path@) == dir_at(all.skip(i as int), path@),
        decreases disk@.len() - i,
    {
        assert(all.skip(i as int)[0] == disk@[i as int]@);
        assert(all.skip(i as int).drop_first() =~= all.skip(i + 1));
        if same(disk[i].path.as_str(), path) {
            return Some(&disk[i]);
        }
        i = i + 1;
    }
    None
}

/// All that an app of the catalog brings, by the directories as they are now.
pub fn get_os_app(catalog: &AppCatalog, name: &str, disk: &Vec<AppDir>) -> (r: Option<AppBundle>)
    requires
        catalog.wf(),
    ensures
        opt_view(r) == app_bundle(catalog@, name@, views(disk@)),
{
    match catalog.paths.get(name) {
        Some(path) => match find_dir(disk, path.as_str()) {
            Some(d) => load_app_bundle(d),
            None => None,
        },
        None => None,
    }
}

/// All that an app of the catalog brings, by the directories as they are now.
pub fn get_skill(catalog: &AppCatalog, name: &str, disk: &Vec<AppDir>) -> (r: Option<AppBundle>)
    requires
        catalog.wf(),
    ensures
        opt_view(r) == app_bundle(catalog@, name@, views(disk@)),
{
    get_os_app(catalog, name, disk)
}

/// Where an app of the catalog is.
pub fn app_path(catalog: &AppCatalog, name: &str) -> (r: Option<String>)
    requires
        catalog.wf(),
    ensures
        match r {
            Some(p) => catalog@.paths.contains_key(name@) && p@ == catalog@.paths[name@],
            None => !catalog@.paths.contains_key(name@),
        },
{
    match catalog.paths.get(name) {
        Some(p) => Some(p.clone()),
        None => None,
    }
}

/// The catalog knows where every app is that it lists, and lists every app of
/// which it knows where it is.
pub proof fn lemma_listed_apps_have_places(
    dir: Seq<char>,
    found: Option<Seq<DirView>>,
    name: Seq<char>,
)
    ensures
        catalog_of(dir, found).paths.contains_key(name) <==> crate::catalog::has_entry(
            catalog_of(dir, found).entries,
            name,
        ),
{
    if let Some(s) = found {
        let sorted = arranged(s, crate::catalog::dir_before());
        lemma_places(sorted, name);
    }
}

proof fn lemma_places(s: Seq<DirView>, name: Seq<char>)
    ensures
        crate::catalog::paths_of(s).contains_key(name) <==> crate::catalog::has_entry(
            crate::catalog::entries_of(s),
            name,
        ),
    decreases s.len(),
{
    let e = crate::catalog::entries_of(s);
    if s.len() > 0 {
        let front = s.drop_last();
        let f = crate::catalog::entries_of(front);
        lemma_places(front, name);
        assert(e =~= f.push(crate::catalog::app_entry(s.last())));
        if crate::catalog::has_entry(f, name) {
            let i = choose|i: int| 0 <= i < f.len() && (#[trigger] f[i]).name == name;
            assert(e[i].name == name);
        }
        if crate::catalog::app_name(s.last()) == name {
            assert(e[e.len() - 1].name == name);
        }
        if crate::catalog::has_entry(e, name) && crate::catalog::app_name(s.last()) != name {
            let i = choose|i: int| 0 <= i < e.len() && (#[trigger] e[i]).name == name;
            assert(f[i].name == name);
        }
    }
}

/// The place of an app is that of the directory that its entry was made from,
/// where several directories hold apps of one name.
pub proof fn lemma_place_and_entry_agree(s: Seq<DirView>, name: Seq<char>)
    requires
        crate::catalog::has_entry(crate::catalog::entries_of(s), name),
    ensures
        crate::catalog::paths_of(s).contains_key(name),
        exists|i: int|
            0 <= i < s.len() && crate::catalog::paths_of(s)[name] == (#[trigger] s[i]).path
                && entry_named(crate::catalog::entries_of(s), name) == Some(
                crate::catalog::app_entry(s[i]),
            ),
    decreases s.len(),
{
    let e = crate::catalog::entries_of(s);
    let front = s.drop_last();
    let f = crate::catalog::entries_of(front);
    lemma_places(s, name);
    lemma_places(front, name);
    if s.len() == 0 {
    } else {
        assert(e =~= f.push(crate::catalog::app_entry(s.last())));
        if crate::catalog::has_entry(f, name) {
            lemma_place_and_entry_agree(front, name);
            assert(e.take(f.len() as int) =~= f);
            lemma_first_entry(f, e, name);
            let i = choose|i: int|
                0 <= i < front.len() && crate::catalog::paths_of(front)[name] == (
                #[trigger] front[i]).path && entry_named(f, name) == Some(
                    crate::catalog::app_entry(front[i]),
                );
            assert(s[i] == front[i]);
        } else {
            lemma_entry_at_end(f, crate::catalog::app_entry(s.last()), name);
            let i = choose|i: int| 0 <= i < e.len() && (#[trigger] e[i]).name == name;
            if i < f.len() {
                assert(f[i].name == name);
            }
            assert(s[s.len() - 1] == s.last());
        }
    }
}

proof fn lemma_entry_at_end(f: Seq<EntryView>, x: EntryView, name: Seq<char>)
    requires
        !crate::catalog::has_entry(f, name),
    ensures
        entry_named(f.push(x), name) == if x.name == name {
            Some(x)
        } else {
            None
        },
    decreases f.len(),
{
    let m = f.push(x);
    if f.len() == 0 {
        assert(m[0] == x);
        assert(m.drop_first() =~= Seq::<EntryView>::empty());
    } else {
        assert(m[0] == f[0]);
        assert(f[0].name != name);
        assert(m.drop_first() =~= f.drop_first().push(x));
        assert(!crate::catalog::has_entry(f.drop_first(), name)) by {
            if crate::catalog::has_entry(f.drop_first(), name) {
                let g = f.drop_first();
                let i = choose|i: int| 0 <= i < g.len() && (#[trigger] g[i]).name == name;
                assert(f[i + 1].name == name);
            }
        }
        lemma_entry_at_end(f.drop_first(), x, name);
    }
}

/// Adding a directory of apps never takes an app away and never changes one.
pub proof fn lemma_adding_keeps(s: Seq<EntryView>, more: Seq<EntryView>, name: Seq<char>)
    ensures
        crate::catalog::merged_entries(s, more).len() >= s.len(),
        crate::catalog::merged_entries(s, more).take(s.len() as int) == s,
        crate::catalog::has_entry(s, name) ==> entry_named(
            crate::catalog::merged_entries(s, more),
            name,
        ) == entry_named(s, name),
    decreases more.len(),
{
    let m = crate::catalog::merged_entries(s, more);
    if more.len() > 0 {
        lemma_adding_keeps(s, more.drop_last(), name);
        let rest = crate::catalog::merged_entries(s, more.drop_last());
        assert(m.take(s.len() as int) =~= rest.take(s.len() as int));
    }
    assert(m.take(s.len() as int) =~= s);
    if crate::catalog::has_entry(s, name) {
        lemma_first_entry(s, m, name);
    }
}

proof fn lemma_first_entry(s: Seq<EntryView>, m: Seq<EntryView>, name: Seq<char>)
    requires
        m.len() >= s.len(),
        m.take(s.len() as int) =~= s,
        crate::catalog::has_entry(s, name),
    ensures
        entry_named(m, name) == entry_named(s, name),
    decreases s.len(),
{
    let i = choose|i: int| 0 <= i < s.len() && (#[trigger] s[i]).name == name;
    assert(m[0] == m.take(s.len() as int)[0]);
    if s[0].name != name {
        let s1 = s.drop_first();
        let m1 = m.drop_first();
        assert(s1[i - 1].name == name);
        assert forall|j: int| 0 <= j < s1.len() implies m1.take(s1.len() as int)[j]
            == #[trigger] s1[j] by {
            assert(m.take(s.len() as int)[j + 1] == s[j + 1]);
        }
        assert(m1.take(s1.len() as int) =~= s1);
        lemma_first_entry(s1, m1, name);
    }
}

} // verus!
