//! The catalog of apps: what is found in directories of apps, and what an app
//! brings.
use vstd::prelude::*;

use crate::keys::arrange;
use crate::keys::has_text;
use crate::order::arranged;
use crate::order::keep;
use crate::order::lemma_take_step;
use crate::order::opt_view;
use crate::order::text_lt;
use crate::order::views;
use crate::table::Table;
use crate::text::cat2;
use crate::text::copy_list;
use crate::text::copy_opt;
use crate::text::ends;
use crate::text::ends_with;
use crate::text::less;
use crate::text::only;
use crate::text::pieces;
use crate::text::same;
use crate::text::split_char;
use crate::text::starts;
use crate::text::starts_with;
use crate::text::trim;
use crate::text::trim_char;
use crate::text::trim_end;
use crate::text::trim_start;
use crate::text::trimmed;

verus! {

/// What came of an installation, by entity type.
#[derive(Debug)]
pub struct InstallResult {
    /// Entity types that are new.
    pub added: Vec<String>,
    /// Entity types that were there with another source.
    pub updated: Vec<String>,
    /// Entity types that were there with the same source.
    pub skipped: Vec<String>,
    /// Modules that were compiled and registered.
    pub wasm_modules: Vec<String>,
}

/// What an app says of itself.
#[derive(Debug)]
pub struct AppManifest {
    /// Its name.
    pub name: String,
    /// What it is.
    pub description: String,
    /// Its version.
    pub version: String,
    /// The apps that it needs.
    pub dependencies: Vec<String>,
}

/// What an app says of itself.
pub struct ManifestView {
    /// Its name.
    pub name: Seq<char>,
    /// What it is.
    pub description: Seq<char>,
    /// Its version.
    pub version: Seq<char>,
    /// The apps that it needs.
    pub dependencies: Seq<Seq<char>>,
}

impl View for AppManifest {
    type V = ManifestView;

    open spec fn view(&self) -> ManifestView {
        ManifestView {
            name: self.name@,
            description: self.description@,
            version: self.version@,
            dependencies: views(self.dependencies@),
        }
    }
}

/// The version of an app that names none.
pub fn default_version() -> (r: String)
    ensures
        r@ == "0.1.0"@,
{
    "0.1.0".to_string()
}

/// An app in the catalog.
#[derive(Debug)]
pub struct AppEntry {
    /// Its name.
    pub name: String,
    /// What it is.
    pub description: String,
    /// The entity types that it brings.
    pub entity_types: Vec<String>,
    /// Its version.
    pub version: String,
    /// Its guide.
    pub app_guide: Option<String>,
    /// The apps that it needs.
    pub dependencies: Vec<String>,
}

/// An app in the catalog.
pub type SkillEntry = AppEntry;

/// An app in the catalog.
pub type OsAppEntry = AppEntry;

/// An app in the catalog.
pub struct EntryView {
    /// Its name.
    pub name: Seq<char>,
    /// What it is.
    pub description: Seq<char>,
    /// The entity types that it brings.
    pub entity_types: Seq<Seq<char>>,
    /// Its version.
    pub version: Seq<char>,
    /// Its guide.
    pub app_guide: Option<Seq<char>>,
    /// The apps that it needs.
    pub dependencies: Seq<Seq<char>>,
}

impl View for AppEntry {
    type V = EntryView;

    open spec fn view(&self) -> EntryView {
        EntryView {
            name: self.name@,
            description: self.description@,
            entity_types: views(self.entity_types@),
            version: self.version@,
            app_guide: opt_view(self.app_guide),
            dependencies: views(self.dependencies@),
        }
    }
}

/// All that an app brings.
#[derive(Debug)]
pub struct AppBundle {
    /// Specs, each with its entity type.
    pub specs: Vec<(String, String)>,
    /// The model of the entity types.
    pub csdl: Option<String>,
    /// Policies.
    pub cedar_policies: Vec<String>,
    /// Modules, each with its name.
    pub wasm_modules: Vec<WasmFile>,
}

/// All that an app brings.
pub type SkillBundle = AppBundle;

/// All that an app brings.
pub type OsAppBundle = AppBundle;

/// All that an app brings.
pub struct BundleView {
    /// Specs, each with its entity type.
    pub specs: Seq<(Seq<char>, Seq<char>)>,
    /// The model of the entity types.
    pub csdl: Option<Seq<char>>,
    /// Policies.
    pub cedar_policies: Seq<Seq<char>>,
    /// Modules, each with its name.
    pub wasm_modules: Seq<WasmView>,
}

impl View for AppBundle {
    type V = BundleView;

    open spec fn view(&self) -> BundleView {
        BundleView {
            specs: views(self.specs@),
            csdl: opt_view(self.csdl),
            cedar_policies: views(self.cedar_policies@),
            wasm_modules: views(self.wasm_modules@),
        }
    }
}

/// A file of an app.
#[derive(Debug)]
pub struct AppFile {
    /// Its name.
    pub name: String,
    /// What it holds, where it can be read.
    pub content: Option<String>,
    /// The name of the automaton in it, where it holds one.
    pub automaton: Option<String>,
}

/// A file of an app.
pub struct FileView {
    /// Its name.
    pub name: Seq<char>,
    /// What it holds, where it can be read.
    pub content: Option<Seq<char>>,
    /// The name of the automaton in it, where it holds one.
    pub automaton: Option<Seq<char>>,
}

impl View for AppFile {
    type V = FileView;

    open spec fn view(&self) -> FileView {
        FileView {
            name: self.name@,
            content: opt_view(self.content),
            automaton: opt_view(self.automaton),
        }
    }
}

/// A compiled module of an app.
#[derive(Debug)]
pub struct WasmFile {
    /// The module.
    pub name: String,
    /// Its bytes, where they can be read.
    pub bytes: Option<Vec<u8>>,
}

/// A compiled module of an app.
pub struct WasmView {
    /// The module.
    pub name: Seq<char>,
    /// Its bytes, where they can be read.
    pub bytes: Option<Seq<u8>>,
}

impl View for WasmFile {
    type V = WasmView;

    open spec fn view(&self) -> WasmView {
        WasmView { name: self.name@, bytes: opt_view(self.bytes) }
    }
}

/// A directory with an app.
#[derive(Debug)]
pub struct AppDir {
    /// Its name.
    pub dir_name: String,
    /// Where it is.
    pub path: String,
    /// What the app says of itself, where it says so.
    pub manifest: Option<AppManifest>,
    /// The files in it.
    pub files: Vec<AppFile>,
    /// The files under `specs`.
    pub specs: Vec<AppFile>,
    /// The files under `csdl`.
    pub csdl: Vec<AppFile>,
    /// The files under `policies`.
    pub policies: Vec<AppFile>,
    /// The modules under `wasm`, by their directories.
    pub wasm: Vec<WasmFile>,
}

/// A directory with an app.
pub struct DirView {
    /// Its name.
    pub dir_name: Seq<char>,
    /// Where it is.
    pub path: Seq<char>,
    /// What the app says of itself, where it says so.
    pub manifest: Option<ManifestView>,
    /// The files in it.
    pub files: Seq<FileView>,
    /// The files under `specs`.
    pub specs: Seq<FileView>,
    /// The files under `csdl`.
    pub csdl: Seq<FileView>,
    /// The files under `policies`.
    pub policies: Seq<FileView>,
    /// The modules under `wasm`, by their directories.
    pub wasm: Seq<WasmView>,
}

impl View for AppDir {
    type V = DirView;

    open spec fn view(&self) -> DirView {
        DirView {
            dir_name: self.dir_name@,
            path: self.path@,
            manifest: opt_view(self.manifest),
            files: views(self.files@),
            specs: views(self.specs@),
            csdl: views(self.csdl@),
            policies: views(self.policies@),
            wasm: views(self.wasm@),
        }
    }
}

/// The test for files whose names end in something.
pub open spec fn ending(suffix: Seq<char>) -> spec_fn(FileView) -> bool {
    |f: FileView| ends(f.name, suffix)
}

/// The first file comes before the second, by name.
pub open spec fn by_name() -> spec_fn(FileView, FileView) -> bool {
    |a: FileView, b: FileView| text_lt(a.name, b.name)
}

/// The files whose names end in something, by name.
pub open spec fn files_with(files: Seq<FileView>, suffix: Seq<char>) -> Seq<FileView> {
    arranged(keep(files, ending(suffix)), by_name())
}

/// The names of files.
pub open spec fn file_names(s: Seq<FileView>) -> Seq<Seq<char>> {
    Seq::new(s.len(), |i: int| s[i].name)
}

/// The files without those whose name stood before.
pub open spec fn first_named(s: Seq<FileView>) -> Seq<FileView>
    decreases s.len(),
{
    if s.len() == 0 {
        Seq::empty()
    } else {
        let rest = first_named(s.drop_last());
        if file_names(rest).contains(s.last().name) {
            rest
        } else {
            rest.push(s.last())
        }
    }
}

/// The spec files of an app: those at its root, then those under `specs`, without
/// those whose name stood before.
pub open spec fn spec_files(d: DirView) -> Seq<FileView> {
    first_named(files_with(d.files, ".ioa.toml"@) + files_with(d.specs, ".ioa.toml"@))
}

/// The files whose names end in something, by name.
pub fn collect_with<'a>(files: &'a Vec<AppFile>, suffix: &str) -> (r: Vec<&'a AppFile>)
    ensures
        views(r@) == files_with(views(files@), suffix@),
{
    let ghost all = views(files@);
    let mut found: Vec<&'a AppFile> = Vec::new();
    let mut i: usize = 0;
    assert(all.take(0) =~= Seq::<FileView>::empty());
    assert(views(found@) =~= Seq::<FileView>::empty());
    while i < files.len()
        invariant
            i <= files@.len(),
            all == views(files@),
            views(found@) == keep(all.take(i as int), ending(suffix@)),
        decreases files@.len() - i,
    {
        proof {
            lemma_take_step(all, i as int);
            assert(all[i as int] == files@[i as int]@);
        }
        if ends_with(files[i].name.as_str(), suffix) {
            let ghost was = views(found@);
            found.push(&files[i]);
            assert(views(found@) =~= was.push(all[i as int]));
        }
        i = i + 1;
    }
    assert(all.take(i as int) =~= all);
    let ghost fs = found@;
    let ghost order = |a: &AppFile, b: &AppFile| by_name()(a@, b@);
    let before = |a: &&AppFile, b: &&AppFile| -> (d: bool)
        ensures
            d == order(*a, *b),
        { less(a.name.as_str(), b.name.as_str()) };
    proof {
        crate::keys::lemma_arranged_views(fs, order, by_name());
    }
    arrange(found, before, Ghost(order))
}

/// The spec files of an app.
pub fn find_ioa_files<'a>(d: &'a AppDir) -> (r: Vec<&'a AppFile>)
    ensures
        views(r@) == spec_files(d@),
{
    let mut all = collect_with(&d.files, ".ioa.toml");
    let ghost a = all@;
    let mut more = collect_with(&d.specs, ".ioa.toml");
    let ghost b = more@;
    all.append(&mut more);
    let ghost s = views(all@);
    proof {
        assert(all@ == a + b);
        assert(views(all@) =~= views(a) + views(b));
    }
    let mut r: Vec<&'a AppFile> = Vec::new();
    let mut seen: Vec<String> = Vec::new();
    let mut i: usize = 0;
    assert(s.take(0) =~= Seq::<FileView>::empty());
    assert(views(r@) =~= Seq::<FileView>::empty());
    assert(views(seen@) =~= file_names(Seq::<FileView>::empty()));
    while i < all.len()
        invariant
            i <= all@.len(),
            s == views(all@),
            views(r@) == first_named(s.take(i as int)),
            views(seen@) == file_names(first_named(s.take(i as int))),
        decreases all@.len() - i,
    {
        proof {
            lemma_take_step(s, i as int);
            assert(s[i as int] == all@[i as int]@);
        }
        if !has_text(&seen, all[i].name.as_str()) {
            let ghost was = views(r@);
            let ghost names = views(seen@);
            seen.push(all[i].name.clone());
            r.push(all[i]);
            proof {
                assert(views(r@) =~= was.push(s[i as int]));
                assert(views(seen@) =~= names.push(s[i as int].name));
                assert(file_names(was.push(s[i as int])) =~= file_names(was).push(
                    s[i as int].name,
                ));
            }
        }
        i = i + 1;
    }
    assert(s.take(i as int) =~= s);
    r
}

/// The names of the automata in files that can be read.
pub open spec fn automata(s: Seq<FileView>) -> Seq<Seq<char>>
    decreases s.len(),
{
    if s.len() == 0 {
        Seq::empty()
    } else {
        let rest = automata(s.drop_last());
        match (s.last().content, s.last().automaton) {
            (Some(_), Some(name)) => rest.push(name),
            _ => rest,
        }
    }
}

fn list_automata(v: &Vec<&AppFile>) -> (r: Vec<String>)
    ensures
        views(r@) == automata(views(v@)),
{
    let ghost all = views(v@);
    let mut r: Vec<String> = Vec::new();
    let mut i: usize = 0;
    assert(all.take(0) =~= Seq::<FileView>::empty());
    assert(views(r@) =~= Seq::<Seq<char>>::empty());
    while i < v.len()
        invariant
            i <= v@.len(),
            all == views(v@),
            views(r@) == automata(all.take(i as int)),
        decreases v@.len() - i,
    {
        proof {
            lemma_take_step(all, i as int);
            assert(all[i as int] == v@[i as int]@);
        }
        if v[i].content.is_some() {
            if let Some(name) = &v[i].automaton {
                let ghost was = views(r@);
                r.push(name.clone());
                assert(views(r@) =~= was.push(name@));
            }
        }
        i = i + 1;
    }
    assert(all.take(i as int) =~= all);
    r
}

/// The first file with a name.
pub open spec fn file_named(s: Seq<FileView>, name: Seq<char>) -> Option<FileView>
    decreases s.len(),
{
    if s.len() == 0 {
        None
    } else if s[0].name == name {
        Some(s[0])
    } else {
        file_named(s.drop_first(), name)
    }
}

/// The first file with a name.
pub fn find_named<'a>(v: &'a Vec<AppFile>, name: &str) -> (r: Option<&'a AppFile>)
    ensures
        opt_view(r) == file_named(views(v@), name@),
{
    let ghost all = views(v@);
    let mut i: usize = 0;
    assert(all.skip(0) =~= all);
    while i < v.len()
        invariant
            i <= v@.len(),
            all == views(v@),
            file_named(all, name@) == file_named(all.skip(i as int), name@),
        decreases v@.len() - i,
    {
        assert(all.skip(i as int)[0] == v@[i as int]@);
        assert(all.skip(i as int).drop_first() =~= all.skip(i + 1));
        if same(v[i].name.as_str(), name) {
            return Some(&v[i]);
        }
        i = i + 1;
    }
    None
}

/// What the first file with a name holds.
pub open spec fn content_of(s: Seq<FileView>, name: Seq<char>) -> Option<Seq<char>> {
    match file_named(s, name) {
        Some(f) => f.content,
        None => None,
    }
}

/// The guide of an app: the first of four files that can be read.
pub open spec fn guide(files: Seq<FileView>) -> Option<Seq<char>> {
    crate::trajectory::either(
        content_of(files, "APP.md"@),
        crate::trajectory::either(
            content_of(files, "app.md"@),
            crate::trajectory::either(
                content_of(files, "skill.md"@),
                content_of(files, "SKILL.md"@),
            ),
        ),
    )
}

fn read_content(files: &Vec<AppFile>, name: &str) -> (r: Option<String>)
    ensures
        opt_view(r) == content_of(views(files@), name@),
{
    match find_named(files, name) {
        Some(f) => copy_opt(&f.content),
        None => None,
    }
}

/// The guide of an app.
pub fn read_app_guide(files: &Vec<AppFile>) -> (r: Option<String>)
    ensures
        opt_view(r) == guide(views(files@)),
{
    if let Some(t) = read_content(files, "APP.md") {
        return Some(t);
    }
    if let Some(t) = read_content(files, "app.md") {
        return Some(t);
    }
    if let Some(t) = read_content(files, "skill.md") {
        return Some(t);
    }
    read_content(files, "SKILL.md")
}

/// The description that a line of front matter gives: what stands behind the
/// equals sign after the key `description`, without quotes.
pub open spec fn described_in(line: Seq<char>) -> Option<Seq<char>> {
    let t = trimmed(line);
    match crate::text::find_at(t, "="@, 0) {
        Some(i) => {
            let v = trim_end(
                trim_start(trimmed(t.subrange(i + 1, t.len() as int)), only('"')),
                only('"'),
            );
            if trimmed(t.subrange(0, i)) == "description"@ && v.len() > 0 {
                Some(v)
            } else {
                None
            }
        },
        None => None,
    }
}

/// The description that the first line of front matter with one gives.
pub open spec fn described(lines: Seq<Seq<char>>) -> Option<Seq<char>>
    decreases lines.len(),
{
    if lines.len() == 0 {
        None
    } else {
        match described_in(lines[0]) {
            Some(d) => Some(d),
            None => described(lines.drop_first()),
        }
    }
}

/// The first line with text that is no heading and no mark of front matter.
pub open spec fn first_paragraph(lines: Seq<Seq<char>>) -> Option<Seq<char>>
    decreases lines.len(),
{
    if lines.len() == 0 {
        None
    } else {
        let t = trimmed(lines[0]);
        if t.len() == 0 || starts(t, "#"@) || starts(t, "+++"@) {
            first_paragraph(lines.drop_first())
        } else {
            Some(t)
        }
    }
}

/// The front matter of a guide: what stands between two marks at its start.
pub open spec fn front_matter(guide: Seq<char>) -> Option<Seq<char>> {
    if starts(guide, "+++"@) {
        let rest = guide.skip("+++"@.len() as int);
        match crate::text::find_at(rest, "+++"@, 0) {
            Some(i) => Some(rest.subrange(0, i)),
            None => None,
        }
    } else {
        None
    }
}

/// The description that a guide gives: in its front matter, else in its first
/// paragraph.
pub open spec fn guide_description(guide: Seq<char>) -> Option<Seq<char>> {
    let fallback = first_paragraph(pieces(guide, only('\n')));
    match front_matter(guide) {
        Some(f) => match described(pieces(f, only('\n'))) {
            Some(d) => Some(d),
            None => fallback,
        },
        None => fallback,
    }
}

fn find_front_matter(guide: &str) -> (r: Option<String>)
    ensures
        opt_view(r) == front_matter(guide@),
{
    match crate::text::strip_prefix(guide, "+++") {
        Some(rest) => {
            let v = crate::text::chars_of(rest.as_str());
            let mark = crate::text::chars_of("+++");
            assert(v@.len() == v.len());
            match crate::text::find(&v, &mark, 0) {
                Some(i) => Some(crate::text::text_of(&v, 0, i)),
                None => None,
            }
        },
        None => None,
    }
}

fn describe_line(line: &str) -> (r: Option<String>)
    ensures
        opt_view(r) == described_in(line@),
{
    let t = trim(line);
    let v = crate::text::chars_of(t.as_str());
    let mark = crate::text::chars_of("=");
    proof {
        reveal_strlit("=");
        assert(v@.len() == v.len());
    }
    match crate::text::find(&v, &mark, 0) {
        Some(i) => {
            let key = trim(crate::text::text_of(&v, 0, i).as_str());
            if !same(key.as_str(), "description") {
                return None;
            }
            let value = trim(crate::text::text_of(&v, i + 1, v.len()).as_str());
            let value = trim_char(value.as_str(), '"');
            if value.as_str().is_empty() {
                None
            } else {
                Some(value)
            }
        },
        None => None,
    }
}

/// The description that a guide gives.
pub fn extract_description(guide: &str) -> (r: Option<String>)
    ensures
        opt_view(r) == guide_description(guide@),
{
    if let Some(front) = find_front_matter(guide) {
        let lines = split_char(front.as_str(), '\n');
        let ghost all = views(lines@);
        let mut i: usize = 0;
        assert(all.skip(0) =~= all);
        while i < lines.len()
            invariant
                i <= lines@.len(),
                all == views(lines@),
                front_matter(guide@) == Some(front@),
                all == pieces(front@, only('\n')),
                described(all) == described(all.skip(i as int)),
            decreases lines@.len() - i,
        {
            assert(all.skip(i as int)[0] == lines@[i as int]@);
            assert(all.skip(i as int).drop_first() =~= all.skip(i + 1));
            if let Some(d) = describe_line(lines[i].as_str()) {
                return Some(d);
            }
            i = i + 1;
        }
    }
    let lines = split_char(guide, '\n');
    let ghost all = views(lines@);
    let mut i: usize = 0;
    assert(all.skip(0) =~= all);
    while i < lines.len()
        invariant
            i <= lines@.len(),
            all == views(lines@),
            guide_description(guide@) == first_paragraph(all),
            first_paragraph(all) == first_paragraph(all.skip(i as int)),
        decreases lines@.len() - i,
    {
        assert(all.skip(i as int)[0] == lines@[i as int]@);
        assert(all.skip(i as int).drop_first() =~= all.skip(i + 1));
        let t = trim(lines[i].as_str());
        if !(t.as_str().is_empty() || starts_with(t.as_str(), "#") || starts_with(
            t.as_str(),
            "+++",
        )) {
            return Some(t);
        }
        i = i + 1;
    }
    None
}

/// The name of the app in a directory: as it says, else as the directory is
/// called.
pub open spec fn app_name(d: DirView) -> Seq<char> {
    match d.manifest {
        Some(m) => m.name,
        None => d.dir_name,
    }
}

/// What the app in a directory is: as it says, else as its guide says.
pub open spec fn app_description(d: DirView) -> Seq<char> {
    let by_guide = match guide(d.files) {
        Some(g) => guide_description(g),
        None => None,
    };
    let by_default = match by_guide {
        Some(t) => t,
        None => "App: "@ + app_name(d),
    };
    match d.manifest {
        Some(m) => if m.description.len() > 0 {
            m.description
        } else {
            by_default
        },
        None => by_default,
    }
}

/// The entry for the app in a directory.
pub open spec fn app_entry(d: DirView) -> EntryView {
    EntryView {
        name: app_name(d),
        description: app_description(d),
        entity_types: automata(spec_files(d)),
        version: match d.manifest {
            Some(m) => m.version,
            None => "0.1.0"@,
        },
        app_guide: guide(d.files),
        dependencies: match d.manifest {
            Some(m) => m.dependencies,
            None => Seq::empty(),
        },
    }
}

/// The entry for the app in a directory.
pub fn describe_app(d: &AppDir) -> (r: AppEntry)
    ensures
        r@ == app_entry(d@),
{
    let files = find_ioa_files(d);
    let entity_types = list_automata(&files);
    let app_guide = read_app_guide(&d.files);
    let name = match &d.manifest {
        Some(m) => m.name.clone(),
        None => d.dir_name.clone(),
    };
    let by_guide = match &app_guide {
        Some(g) => extract_description(g.as_str()),
        None => None,
    };
    let by_default = match by_guide {
        Some(t) => t,
        None => cat2("App: ", name.as_str()),
    };
    let description = match &d.manifest {
        Some(m) => if !m.description.as_str().is_empty() {
            m.description.clone()
        } else {
            by_default
        },
        None => by_default,
    };
    let version = match &d.manifest {
        Some(m) => m.version.clone(),
        None => default_version(),
    };
    let dependencies = match &d.manifest {
        Some(m) => copy_list(&m.dependencies),
        None => {
            let none: Vec<String> = Vec::new();
            assert(views(none@) =~= Seq::empty());
            none
        },
    };
    AppEntry { name, description, entity_types, version, app_guide, dependencies }
}

/// The first directory comes before the second, by name.
pub open spec fn dir_before() -> spec_fn(DirView, DirView) -> bool {
    |a: DirView, b: DirView| text_lt(a.dir_name, b.dir_name)
}

/// The entries for the apps in directories.
pub open spec fn entries_of(s: Seq<DirView>) -> Seq<EntryView> {
    Seq::new(s.len(), |i: int| app_entry(s[i]))
}

/// Where the apps in directories are, by name; of two with one name the first.
pub open spec fn paths_of(s: Seq<DirView>) -> Map<Seq<char>, Seq<char>>
    decreases s.len(),
{
    if s.len() == 0 {
        Map::empty()
    } else {
        let rest = paths_of(s.drop_last());
        if rest.contains_key(app_name(s.last())) {
            rest
        } else {
            rest.insert(app_name(s.last()), s.last().path)
        }
    }
}

/// The catalog of apps.
pub struct AppCatalog {
    /// The directory with the apps.
    pub apps_dir: String,
    /// The apps.
    pub entries: Vec<AppEntry>,
    /// Where they are, by name.
    pub paths: Table<String>,
}

/// The catalog of apps.
pub struct CatalogView {
    /// The directory with the apps.
    pub apps_dir: Seq<char>,
    /// The apps.
    pub entries: Seq<EntryView>,
    /// Where they are, by name.
    pub paths: Map<Seq<char>, Seq<char>>,
}

impl View for AppCatalog {
    type V = CatalogView;

    open spec fn view(&self) -> CatalogView {
        CatalogView {
            apps_dir: self.apps_dir@,
            entries: views(self.entries@),
            paths: self.paths@.map_values(|p: String| p@),
        }
    }
}

/// The catalog of a directory in which these directories were found; none where
/// it could not be read.
pub open spec fn catalog_of(dir: Seq<char>, found: Option<Seq<DirView>>) -> CatalogView {
    match found {
        Some(s) => {
            let sorted = arranged(s, dir_before());
            CatalogView {
                apps_dir: dir,
                entries: entries_of(sorted),
                paths: paths_of(sorted),
            }
        },
        None => CatalogView { apps_dir: dir, entries: Seq::empty(), paths: Map::empty() },
    }
}

/// What was found in a directory.
pub open spec fn found_view(found: Option<Vec<AppDir>>) -> Option<Seq<DirView>> {
    match found {
        Some(v) => Some(views(v@)),
        None => None,
    }
}

fn sort_dirs(v: Vec<AppDir>) -> (r: Vec<AppDir>)
    ensures
        views(r@) == arranged(views(v@), dir_before()),
{
    let ghost all = v@;
    let ghost order = |a: AppDir, b: AppDir| dir_before()(a@, b@);
    let before = |a: &AppDir, b: &AppDir| -> (d: bool)
        ensures
            d == order(*a, *b),
        { less(a.dir_name.as_str(), b.dir_name.as_str()) };
    proof {
        crate::keys::lemma_arranged_views(all, order, dir_before());
    }
    arrange(v, before, Ghost(order))
}

impl AppCatalog {
    /// The table of places is well formed.
    pub open spec fn wf(&self) -> bool {
        self.paths.wf()
    }

    /// A catalog without apps.
    pub fn empty() -> (r: AppCatalog)
        ensures
            r.wf(),
            r@ == catalog_of(""@, None),
    {
        let r = AppCatalog {
            apps_dir: "".to_string(),
            entries: Vec::new(),
            paths: Table::new(),
        };
        assert(r@.entries =~= Seq::empty());
        assert(r@.paths =~= Map::empty());
        r
    }

    /// The catalog of a directory in which these directories were found.
    pub fn from_dir(dir: String, found: Option<Vec<AppDir>>) -> (r: AppCatalog)
        ensures
            r.wf(),
            r@ == catalog_of(dir@, found_view(found)),
    {
        let mut r = AppCatalog { apps_dir: dir, entries: Vec::new(), paths: Table::new() };
        assert(r@.entries =~= Seq::empty());
        assert(r@.paths =~= Map::empty());
        match found {
            Some(v) => {
                let dirs = sort_dirs(v);
                let ghost s = views(dirs@);
                let mut i: usize = 0;
                assert(s.take(0) =~= Seq::<DirView>::empty());
                assert(entries_of(s.take(0)) =~= Seq::empty());
                while i < dirs.len()
                    invariant
                        i <= dirs@.len(),
                        s == views(dirs@),
                        r.wf(),
                        r@.apps_dir == dir@,
                        r@.entries == entries_of(s.take(i as int)),
                        r@.paths == paths_of(s.take(i as int)),
                    decreases dirs@.len() - i,
                {
                    proof {
                        lemma_take_step(s, i as int);
                        assert(s[i as int] == dirs@[i as int]@);
                    }
                    let ghost was = r@;
                    let e = describe_app(&dirs[i]);
                    let ghost ev = e@;
                    if !r.paths.contains_key(e.name.as_str()) {
                        r.paths.insert(e.name.clone(), dirs[i].path.clone());
                    }
                    r.entries.push(e);
                    proof {
                        assert(r@.entries =~= was.entries.push(ev));
                        assert(entries_of(s.take(i + 1)) =~= entries_of(s.take(i as int)).push(ev));
                        if was.paths.contains_key(ev.name) {
                            assert(r@.paths =~= was.paths);
                        } else {
                            assert(r@.paths =~= was.paths.insert(ev.name, s[i as int].path));
                        }
                    }
                    i = i + 1;
                }
                assert(s.take(i as int) =~= s);
                r
            },
            None => r,
        }
    }

    /// The catalog of the first of the places that is a directory, in order of
    /// priority; without one there are no apps. Each place comes with what was
    /// found there, or `None` where it is no directory.
    pub fn discover(places: Vec<(String, Option<Vec<AppDir>>)>) -> (r: AppCatalog)
        ensures
            r.wf(),
            r@ == discovered(place_views(places@)),
    {
        let ghost all = place_views(places@);
        let mut rest = places;
        let ghost mut done: int = 0;
        assert(all.skip(0) =~= all);
        while rest.len() > 0
            invariant
                0 <= done <= all.len(),
                all == place_views(places@),
                place_views(rest@) == all.skip(done),
                discovered(all) == discovered(all.skip(done)),
            decreases rest@.len(),
        {
            let ghost now = all.skip(done);
            let ghost first = rest@[0];
            assert(now.len() == rest@.len());
            assert(now[0] == (first.0@, found_view(first.1)));
            let (dir, found) = rest.remove(0);
            assert(first == (dir, found));
            proof {
                assert(place_views(rest@) =~= now.drop_first());
                assert(now.drop_first() =~= all.skip(done + 1));
                done = done + 1;
            }
            if found.is_some() {
                return AppCatalog::from_dir(dir, found);
            }
        }
        AppCatalog::empty()
    }
}

/// Places with what was found there.
pub open spec fn place_views(
    s: Seq<(String, Option<Vec<AppDir>>)>,
) -> Seq<(Seq<char>, Option<Seq<DirView>>)> {
    Seq::new(s.len(), |i: int| (s[i].0@, found_view(s[i].1)))
}

/// The catalog of the first of the places that is a directory.
pub open spec fn discovered(places: Seq<(Seq<char>, Option<Seq<DirView>>)>) -> CatalogView
    decreases places.len(),
{
    if places.len() == 0 {
        catalog_of(""@, None)
    } else if places[0].1 is Some {
        catalog_of(places[0].0, places[0].1)
    } else {
        discovered(places.drop_first())
    }
}

/// Replaces the catalog by that of a directory.
pub fn set_os_apps_dir(catalog: &mut AppCatalog, dir: String, found: Option<Vec<AppDir>>)
    ensures
        final(catalog).wf(),
        final(catalog)@ == catalog_of(dir@, found_view(found)),
{
    *catalog = AppCatalog::from_dir(dir, found);
}

/// Replaces the catalog by that of a directory.
pub fn set_skills_dir(catalog: &mut AppCatalog, dir: String, found: Option<Vec<AppDir>>)
    ensures
        final(catalog).wf(),
        final(catalog)@ == catalog_of(dir@, found_view(found)),
{
    set_os_apps_dir(catalog, dir, found);
}

/// Scans the directory of the catalog again: `found` is what is there now.
pub fn reload_os_apps(catalog: &mut AppCatalog, found: Option<Vec<AppDir>>)
    ensures
        final(catalog).wf(),
        final(catalog)@ == catalog_of(old(catalog)@.apps_dir, found_view(found)),
{
    let dir = catalog.apps_dir.clone();
    *catalog = AppCatalog::from_dir(dir, found);
}

/// Scans the directory of the catalog again: `found` is what is there now.
pub fn reload_skills(catalog: &mut AppCatalog, found: Option<Vec<AppDir>>)
    ensures
        final(catalog).wf(),
        final(catalog)@ == catalog_of(old(catalog)@.apps_dir, found_view(found)),
{
    reload_os_apps(catalog, found);
}

/// An app with that name is among the entries.
pub open spec fn has_entry(s: Seq<EntryView>, name: Seq<char>) -> bool {
    exists|i: int| 0 <= i < s.len() && (#[trigger] s[i]).name == name
}

/// The entries with those of `more` whose name is new.
pub open spec fn merged_entries(s: Seq<EntryView>, more: Seq<EntryView>) -> Seq<EntryView>
    decreases more.len(),
{
    if more.len() == 0 {
        s
    } else {
        let rest = merged_entries(s, more.drop_last());
        if has_entry(rest, more.last().name) {
            rest
        } else {
            rest.push(more.last())
        }
    }
}

fn lists(v: &Vec<AppEntry>, name: &str) -> (r: bool)
    ensures
        r == has_entry(views(v@), name@),
{
    let mut i: usize = 0;
    while i < v.len()
        invariant
            i <= v@.len(),
            forall|j: int| 0 <= j < i ==> (#[trigger] views(v@)[j]).name != name@,
        decreases v@.len() - i,
    {
        assert(views(v@)[i as int] == v@[i as int]@);
        if same(v[i].name.as_str(), name) {
            return true;
        }
        i = i + 1;
    }
    false
}

/// Adds the apps of another directory; an app that is there stays.
pub fn add_os_apps_dir(catalog: &mut AppCatalog, dir: String, found: Option<Vec<AppDir>>)
    requires
        old(catalog).wf(),
    ensures
        final(catalog).wf(),
        ({
            let more = catalog_of(dir@, found_view(found));
            final(catalog)@ == CatalogView {
                apps_dir: old(catalog)@.apps_dir,
                entries: merged_entries(old(catalog)@.entries, more.entries),
                paths: more.paths.union_prefer_right(old(catalog)@.paths),
            }
        }),
{
    let ghost was = catalog@;
    let more = AppCatalog::from_dir(dir, found);
    let ghost mv = more@;
    let mut i: usize = 0;
    proof {
        more.paths.lemma_table();
    }
    let ghost ks = more.paths.keys();
    while i < more.paths.len()
        invariant
            i <= ks.len(),
            more.wf(),
            mv == more@,
            ks == more.paths.keys(),
            forall|k: Seq<char>| #[trigger] more.paths@.contains_key(k) <==> ks.contains(k),
            catalog.wf(),
            catalog@.apps_dir == was.apps_dir,
            catalog@.entries == was.entries,
            forall|k: Seq<char>| #[trigger]
                catalog@.paths.contains_key(k) <==> was.paths.contains_key(k) || ks.take(
                    i as int,
                ).contains(k),
            forall|k: Seq<char>| #[trigger]
                catalog@.paths.contains_key(k) ==> catalog@.paths[k] == if was.paths.contains_key(
                    k,
                ) {
                    was.paths[k]
                } else {
                    mv.paths[k]
                },
        decreases ks.len() - i,
    {
        let ghost before = catalog@.paths;
        let ghost k = ks[i as int];
        let name = more.paths.key_at(i);
        proof {
            lemma_take_step(ks, i as int);
            assert(ks.contains(k));
            assert forall|x: Seq<char>| #[trigger] ks.take(i + 1).contains(x) <==> ks.take(
                i as int,
            ).contains(x) || x == k by {
                lemma_push_contains(ks.take(i as int), k, x);
            }
            assert(more.paths@.contains_key(k));
        }
        if !catalog.paths.contains_key(name.as_str()) {
            assert(!before.contains_key(k));
            if let Some(p) = more.paths.get(name.as_str()) {
                catalog.paths.insert(name.clone(), p.clone());
                assert(catalog@.paths =~= before.insert(k, mv.paths[k]));
            }
        } else {
            assert(before.contains_key(k));
        }
        proof {
            assert forall|x: Seq<char>| #[trigger]
                catalog@.paths.contains_key(x) implies catalog@.paths[x]
                == if was.paths.contains_key(x) {
                was.paths[x]
            } else {
                mv.paths[x]
            } by {
                if before.contains_key(x) {
                    assert(before[x] == if was.paths.contains_key(x) {
                        was.paths[x]
                    } else {
                        mv.paths[x]
                    });
                } else {
                    assert(x == k);
                }
            }
        }
        i = i + 1;
    }
    proof {
        assert(ks.take(i as int) =~= ks);
        assert forall|k: Seq<char>| mv.paths.contains_key(k) <==> #[trigger] ks.contains(k) by {
            assert(more.paths@.contains_key(k) <==> ks.contains(k));
        }
        assert(catalog@.paths =~= mv.paths.union_prefer_right(was.paths));
    }
    let mut rest = more.entries;
    let ghost es = views(rest@);
    let ghost mut done: int = 0;
    assert(es.take(0) =~= Seq::<EntryView>::empty());
    assert(es.skip(0) =~= es);
    while rest.len() > 0
        invariant
            0 <= done <= es.len(),
            views(rest@) == es.skip(done),
            catalog.wf(),
            catalog@.apps_dir == was.apps_dir,
            catalog@.paths == mv.paths.union_prefer_right(was.paths),
            catalog@.entries == merged_entries(was.entries, es.take(done)),
        decreases rest@.len(),
    {
        let ghost first = rest@[0];
        let ghost held = rest@;
        proof {
            assert(es.skip(done).len() == rest@.len());
            lemma_take_step(es, done);
            assert(views(rest@)[0] == first@);
            assert(es.skip(done)[0] == first@);
        }
        let e = rest.remove(0);
        proof {
            assert(e == first);
            assert(e@ == es[done]);
            assert forall|i: int| 0 <= i < rest@.len() implies views(rest@)[i]
                == #[trigger] es.skip(done + 1)[i] by {
                assert(rest@[i] == held[i + 1]);
                assert(views(held)[i + 1] == es.skip(done)[i + 1]);
            }
            assert(views(rest@) =~= es.skip(done + 1));
        }
        if !lists(&catalog.entries, e.name.as_str()) {
            let ghost so = catalog@.entries;
            let ghost ev = e@;
            catalog.entries.push(e);
            assert(catalog@.entries =~= so.push(ev));
        }
        proof {
            done = done + 1;
        }
    }
    assert(es.take(done) =~= es);
}

proof fn lemma_push_contains(s: Seq<Seq<char>>, x: Seq<char>, k: Seq<char>)
    ensures
        s.push(x).contains(k) <==> s.contains(k) || k == x,
{
    if s.contains(k) {
        let i = choose|i: int| 0 <= i < s.len() && s[i] == k;
        assert(s.push(x)[i] == k);
    }
    if k == x {
        assert(s.push(x)[s.len() as int] == k);
    }
    if s.push(x).contains(k) && k != x {
        let i = choose|i: int| 0 <= i < s.push(x).len() && s.push(x)[i] == k;
        assert(s[i] == k);
    }
}

} // verus!
