use temper::bundles::{
    app_path, get_app_guide, get_os_app, get_skill, get_skill_guide, install_order,
    list_os_apps, list_skills, load_app_bundle,
};
use temper::catalog::{
    add_os_apps_dir, default_version, extract_description, find_ioa_files, reload_os_apps,
    reload_skills, set_os_apps_dir, set_skills_dir, AppCatalog, AppDir, AppFile, AppManifest,
    WasmFile,
};
use temper::install::{
    app_not_found, choose_model, combine_policies, conclude_install, plan_install, InstallStep,
    ModelSource, Store, StoredSpec,
};
use temper::installation::Installation;

fn file(name: &str, content: &str) -> AppFile {
    AppFile {
        name: name.to_string(),
        content: Some(content.to_string()),
        automaton: None,
    }
}

fn ioa(name: &str, automaton: &str) -> AppFile {
    AppFile {
        name: name.to_string(),
        content: Some(format!("source of {automaton}")),
        automaton: Some(automaton.to_string()),
    }
}

fn dir(name: &str) -> AppDir {
    AppDir {
        dir_name: name.to_string(),
        path: format!("/apps/{name}"),
        manifest: None,
        files: vec![],
        specs: vec![],
        csdl: vec![],
        policies: vec![],
        wasm: vec![],
    }
}

fn manifest(name: &str, description: &str, dependencies: &[&str]) -> AppManifest {
    AppManifest {
        name: name.to_string(),
        description: description.to_string(),
        version: "2.0.0".to_string(),
        dependencies: dependencies.iter().map(|d| d.to_string()).collect(),
    }
}

fn names(c: &AppCatalog) -> Vec<String> {
    list_os_apps(c).into_iter().map(|e| e.name).collect()
}

#[test]
fn apps_are_listed_by_directory() {
    let mut a = dir("zeta");
    a.files = vec![
        file("app.md", "# Zeta\n\nDoes zeta things.\n"),
        ioa("b.ioa.toml", "B"),
        ioa("a.ioa.toml", "A"),
        file("readme.txt", "x"),
    ];
    a.specs = vec![ioa("a.ioa.toml", "Hidden"), ioa("c.ioa.toml", "C")];
    let mut b = dir("alpha");
    b.manifest = Some(manifest("first", "", &["zeta"]));
    let c = AppCatalog::from_dir("/apps".to_string(), Some(vec![a, b]));
    let entries = list_os_apps(&c);
    assert_eq!(entries[0].name, "first");
    assert_eq!(entries[0].description, "App: first");
    assert_eq!(entries[0].version, "2.0.0");
    assert_eq!(entries[0].dependencies, vec!["zeta"]);
    assert_eq!(entries[1].name, "zeta");
    assert_eq!(entries[1].description, "Does zeta things.");
    assert_eq!(entries[1].entity_types, vec!["A", "B", "C"]);
    assert_eq!(entries[1].version, default_version());
    assert_eq!(list_skills(&c).len(), 2);
    // An app is found under the name that it is listed by.
    assert_eq!(app_path(&c, "first").as_deref(), Some("/apps/alpha"));
    assert_eq!(app_path(&c, "alpha"), None);
    assert!(get_app_guide(&c, "zeta").is_some());
    assert!(get_skill_guide(&c, "first").is_none());
    assert!(get_app_guide(&c, "nobody").is_none());
}

#[test]
fn root_specs_come_before_those_under_specs() {
    let mut a = dir("a");
    a.files = vec![ioa("x.ioa.toml", "RootX"), file("x.toml", "")];
    a.specs = vec![ioa("x.ioa.toml", "SpecX"), ioa("a.ioa.toml", "SpecA")];
    let found: Vec<&str> = find_ioa_files(&a)
        .into_iter()
        .map(|f| f.automaton.as_deref().unwrap())
        .collect();
    assert_eq!(found, vec!["RootX", "SpecA"]);
}

#[test]
fn descriptions_come_from_front_matter_or_the_first_paragraph() {
    let d = |t: &str| extract_description(t);
    assert_eq!(
        d("+++\ntitle = \"x\"\ndescription = \"A \\ B\"\n+++\n# H\ntext").as_deref(),
        Some("A \\ B")
    );
    assert_eq!(d("+++\ndescription = \"\"\n+++\n\n# H\n  text \nmore").as_deref(), Some("description = \"\""));
    assert_eq!(d("# H\r\n\r\n text\r\n").as_deref(), Some("text"));
    assert_eq!(d("+++\ndescription\n+++").as_deref(), Some("description"));
    assert_eq!(d("# only\n\n+++"), None);
    assert_eq!(d(""), None);
    assert_eq!(d("+++ open\nbody").as_deref(), Some("body"));
    assert_eq!(
        d("+++\ndescription = \"a = b\"\n+++\n# T\n").as_deref(),
        Some("a = b")
    );
    assert_eq!(
        d("+++\ndescription_long = \"x\"\ndescription=\"y\"\n+++\n# T\n").as_deref(),
        Some("y")
    );
}

#[test]
fn guides_are_found_in_order() {
    let mut a = dir("a");
    a.files = vec![file("SKILL.md", "4"), file("skill.md", "3")];
    let c = AppCatalog::from_dir("/apps".to_string(), Some(vec![a]));
    assert_eq!(get_app_guide(&c, "a").as_deref(), Some("3"));
    let mut a = dir("a");
    a.files = vec![
        AppFile {
            name: "APP.md".to_string(),
            content: None,
            automaton: None,
        },
        file("app.md", "2"),
    ];
    let c = AppCatalog::from_dir("/apps".to_string(), Some(vec![a]));
    assert_eq!(get_app_guide(&c, "a").as_deref(), Some("2"));
}

#[test]
fn directories_are_set_added_and_read_again() {
    let mut c = AppCatalog::empty();
    assert!(names(&c).is_empty());
    set_os_apps_dir(&mut c, "/one".to_string(), Some(vec![dir("a")]));
    assert_eq!(names(&c), vec!["a"]);
    let mut other = dir("a");
    other.path = "/two/a".to_string();
    other.manifest = Some(manifest("a", "another", &[]));
    add_os_apps_dir(&mut c, "/two".to_string(), Some(vec![dir("b"), other]));
    assert_eq!(names(&c), vec!["a", "b"]);
    // The app that was there stays.
    assert_eq!(list_os_apps(&c)[0].description, "App: a");
    assert_eq!(app_path(&c, "a").as_deref(), Some("/apps/a"));
    assert_eq!(app_path(&c, "b").as_deref(), Some("/apps/b"));
    reload_os_apps(&mut c, Some(vec![dir("z")]));
    assert_eq!(names(&c), vec!["z"]);
    assert_eq!(c.apps_dir, "/one");
    reload_skills(&mut c, None);
    assert!(names(&c).is_empty());
    set_skills_dir(&mut c, "/three".to_string(), Some(vec![dir("q")]));
    assert_eq!((names(&c), c.apps_dir.as_str()), (vec!["q".to_string()], "/three"));
}

#[test]
fn the_first_place_that_is_a_directory_counts() {
    let c = AppCatalog::discover(vec![
        ("/no".to_string(), None),
        ("/yes".to_string(), Some(vec![dir("a")])),
        ("/later".to_string(), Some(vec![dir("b")])),
    ]);
    assert_eq!((names(&c), c.apps_dir.as_str()), (vec!["a".to_string()], "/yes"));
    assert!(names(&AppCatalog::discover(vec![("/no".to_string(), None)])).is_empty());
}

fn full(name: &str) -> AppDir {
    let mut a = dir(name);
    a.files = vec![ioa("t.ioa.toml", "Task")];
    a.specs = vec![file("model.csdl.xml", "MODEL")];
    a.csdl = vec![file("z.csdl.xml", "Z")];
    a.policies = vec![file("b.cedar", "B"), file("a.cedar", "A"), file("c.txt", "C")];
    a.wasm = vec![
        WasmFile {
            name: "two".to_string(),
            bytes: Some(vec![2]),
        },
        WasmFile {
            name: "target".to_string(),
            bytes: Some(vec![0]),
        },
        WasmFile {
            name: "one".to_string(),
            bytes: Some(vec![1]),
        },
        WasmFile {
            name: "three".to_string(),
            bytes: None,
        },
    ];
    a
}

#[test]
fn bundles_hold_all_that_an_app_brings() {
    let a = full("a");
    let b = load_app_bundle(&a).unwrap();
    assert_eq!(
        b.specs,
        vec![("Task".to_string(), "source of Task".to_string())]
    );
    assert_eq!(b.csdl.as_deref(), Some("MODEL"));
    assert_eq!(b.cedar_policies, vec!["A", "B"]);
    let modules: Vec<&str> = b.wasm_modules.iter().map(|m| m.name.as_str()).collect();
    assert_eq!(modules, vec!["one", "two"]);

    let mut other = full("a");
    other.specs = vec![];
    assert_eq!(load_app_bundle(&other).unwrap().csdl.as_deref(), Some("Z"));

    // One spec that holds no automaton spoils the bundle.
    let mut broken = full("a");
    broken.files.push(file("x.ioa.toml", "?"));
    assert!(load_app_bundle(&broken).is_none());
    assert!(load_app_bundle(&dir("a")).is_none());
    let mut guide = dir("a");
    guide.files = vec![file("APP.md", "g")];
    assert!(load_app_bundle(&guide).is_some());
}

#[test]
fn bundles_are_found_by_name() {
    let disk = vec![full("a")];
    let c = AppCatalog::from_dir("/apps".to_string(), Some(vec![full("a")]));
    assert!(get_os_app(&c, "a", &disk).is_some());
    assert!(get_skill(&c, "a", &disk).is_some());
    assert!(get_os_app(&c, "b", &disk).is_none());
    assert!(get_os_app(&c, "a", &vec![]).is_none());
    assert_eq!(app_not_found("b"), "OS app 'b' not found in catalog");
}

#[test]
fn what_an_app_needs_is_installed_before_it() {
    let mut a = dir("app");
    a.manifest = Some(manifest("app", "", &["x", "y"]));
    let c = AppCatalog::from_dir("/apps".to_string(), Some(vec![a, dir("temper-agent")]));
    assert_eq!(install_order(&c, "app"), vec!["x", "y", "app"]);
    assert_eq!(
        install_order(&c, "temper-agent"),
        vec!["temper-fs", "temper-agent"]
    );
    assert_eq!(install_order(&c, "other"), vec!["other"]);
}

fn pair(a: &str, b: &str) -> (String, String) {
    (a.to_string(), b.to_string())
}

#[test]
fn specs_are_told_as_added_updated_or_skipped() {
    let mut b = load_app_bundle(&full("a")).unwrap();
    b.specs = vec![pair("Z", "1"), pair("Same", "1"), pair("New", "1"), pair("Old", "2")];
    let existing = vec![pair("Same", "1"), pair("Old", "1")];
    let r = conclude_install(
        &b,
        &existing,
        &Some("M".to_string()),
        &vec![None, Some("h".to_string())],
    );
    assert_eq!(r.added, vec!["New", "Z"]);
    assert_eq!(r.updated, vec!["Old"]);
    assert_eq!(r.skipped, vec!["Same"]);
    assert_eq!(r.wasm_modules, vec!["two"]);
}

fn told(s: &InstallStep) -> String {
    match s {
        InstallStep::SaveSpec(t, s, m) => format!("save {t}={s} under {m}"),
        InstallStep::SavePolicy(t) => format!("policy {t}"),
        InstallStep::RecordApp => "record".to_string(),
        InstallStep::CommitSpecs => "commit".to_string(),
        InstallStep::Bootstrap(m, s) => format!("boot {} under {m}", s.len()),
        InstallStep::LoadPolicy(t) => format!("load {t}"),
    }
}

#[test]
fn all_is_stored_before_anything_is_loaded() {
    let mut b = load_app_bundle(&full("a")).unwrap();
    b.specs = vec![pair("Task", "new"), pair("Same", "1")];
    let existing = vec![pair("Same", "1")];
    let held = Some("P".to_string());
    let model = Some("M".to_string());
    let row = |tenant: &str, t: &str, s: &str| StoredSpec {
        tenant: tenant.to_string(),
        entity_type: t.to_string(),
        ioa_source: s.to_string(),
    };
    let store = Store::Listing(vec![
        row("ten", "Zed", "z"),
        row("ten", "Task", "old"),
        row("other", "Alien", "a"),
    ]);
    let steps: Vec<String> = plan_install(&store, "ten", &b, &existing, &held, &model)
        .iter()
        .map(told)
        .collect();
    assert_eq!(
        steps,
        vec![
            "save Same=1 under M",
            "save Task=new under M",
            "save Zed=z under M",
            "policy P\nA\nB",
            "record",
            "commit",
            "boot 1 under M",
            "load P\nA\nB",
        ]
    );
    let steps: Vec<String> = plan_install(&Store::Plain, "ten", &b, &existing, &None, &None)
        .iter()
        .map(told)
        .collect();
    assert_eq!(steps, vec!["policy A\nB", "record", "commit", "load A\nB"]);
    let steps: Vec<String> = plan_install(&Store::Missing, "ten", &b, &existing, &held, &model)
        .iter()
        .map(told)
        .collect();
    assert_eq!(steps, vec!["boot 1 under M", "load P\nA\nB"]);
}

#[test]
fn failures_to_store_end_an_installation() {
    let fails = |s: InstallStep| s.failure("x");
    assert_eq!(
        fails(InstallStep::SaveSpec("T".to_string(), String::new(), String::new())).as_deref(),
        Some("Failed to persist spec T: x")
    );
    assert_eq!(
        fails(InstallStep::SavePolicy(String::new())).as_deref(),
        Some("Failed to persist Cedar policy: x")
    );
    assert_eq!(
        fails(InstallStep::RecordApp).as_deref(),
        Some("Failed to record os-app installation: x")
    );
    assert_eq!(
        fails(InstallStep::CommitSpecs).as_deref(),
        Some("Failed to commit specs: x")
    );
    assert_eq!(fails(InstallStep::LoadPolicy(String::new())), None);
    assert_eq!(fails(InstallStep::Bootstrap(String::new(), vec![])), None);
}

#[test]
fn models_and_policies_are_combined() {
    let csdl = Some("C".to_string());
    assert!(matches!(choose_model(&csdl, true), ModelSource::Merge(_)));
    assert!(matches!(choose_model(&csdl, false), ModelSource::Take(_)));
    assert!(matches!(choose_model(&None, true), ModelSource::Keep));
    assert!(matches!(choose_model(&None, false), ModelSource::Missing));
    let new = vec!["a".to_string(), "b".to_string()];
    assert_eq!(
        combine_policies(&Some("x".to_string()), &new).as_deref(),
        Some("x\na\nb")
    );
    assert_eq!(
        combine_policies(&Some(String::new()), &new).as_deref(),
        Some("a\nb")
    );
    assert_eq!(combine_policies(&Some("x".to_string()), &vec![]), None);
}

#[test]
fn an_app_installed_again_changes_no_spec() {
    let b = load_app_bundle(&full("a")).unwrap();
    let existing = b.specs.clone();
    let model = Some("M".to_string());
    let r = conclude_install(&b, &existing, &model, &vec![None, None]);
    assert!(r.added.is_empty() && r.updated.is_empty());
    assert_eq!(r.skipped, vec!["Task"]);
    let steps = plan_install(&Store::Missing, "ten", &b, &existing, &None, &model);
    assert!(!steps.iter().any(|s| matches!(s, InstallStep::Bootstrap(_, _))));
}

#[test]
fn without_a_model_no_spec_is_told_as_added() {
    let mut b = load_app_bundle(&full("a")).unwrap();
    b.csdl = None;
    assert!(matches!(choose_model(&b.csdl, false), ModelSource::Missing));
    let steps = plan_install(&Store::Plain, "ten", &b, &vec![], &None, &None);
    assert!(!steps
        .iter()
        .any(|s| matches!(s, InstallStep::SaveSpec(_, _, _) | InstallStep::Bootstrap(_, _))));
    let r = conclude_install(&b, &vec![], &None, &vec![None, None]);
    assert!(r.added.is_empty() && r.updated.is_empty() && r.skipped.is_empty());
}

#[test]
fn of_two_apps_with_one_name_the_first_is_found() {
    let mut a = dir("a");
    a.manifest = Some(manifest("same", "first", &[]));
    let mut b = dir("b");
    b.manifest = Some(manifest("same", "second", &[]));
    b.files = vec![file("APP.md", "guide")];
    let c = AppCatalog::from_dir("/apps".to_string(), Some(vec![b, a]));
    assert_eq!(app_path(&c, "same").as_deref(), Some("/apps/a"));
    assert!(get_app_guide(&c, "same").is_none());
}

#[test]
fn what_an_app_needs_is_stored_with_it_before_either_is_loaded() {
    let mut dep = load_app_bundle(&full("dep")).unwrap();
    dep.specs = vec![pair("D", "1")];
    dep.cedar_policies = vec!["pd".to_string()];
    let mut app = load_app_bundle(&full("app")).unwrap();
    app.specs = vec![pair("A", "1"), pair("D", "1")];
    app.cedar_policies = vec!["pa".to_string()];
    let plan = Installation::new(
        "ten".to_string(),
        Store::Listing(vec![]),
        vec![],
        Some("p".to_string()),
        None,
    );
    assert!(matches!(plan.model_for(&dep), ModelSource::Take(_)));
    let plan = plan.add_app("dep", &dep, Some("M1".to_string()));
    assert_eq!(plan.existing, vec![pair("D", "1")]);
    // The app starts from what the tenant has by then.
    assert!(matches!(plan.model_for(&app), ModelSource::Merge(_)));
    let plan = plan.add_app("app", &app, Some("M2".to_string()));
    let steps: Vec<String> = plan
        .steps()
        .iter()
        .map(|s| format!("{}: {}", s.app, told(&s.step)))
        .collect();
    assert_eq!(
        steps,
        vec![
            "dep: save D=1 under M1",
            "dep: policy p\npd",
            "dep: record",
            "dep: commit",
            "app: save A=1 under M2",
            "app: save D=1 under M2",
            "app: policy p\npd\npa",
            "app: record",
            "app: commit",
            "dep: boot 1 under M1",
            "dep: load p\npd",
            "app: boot 1 under M2",
            "app: load p\npd\npa",
        ]
    );
}
