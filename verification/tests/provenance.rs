use dream::provenance::inspect::report;
use dream::provenance::job::JobArtifacts;
use dream::provenance::lock::{check, lock, locked_units, source_digest, unlock, UnitRead};
use dream::provenance::open::{accepts_target, existing_bind, open, require_store};
use dream::provenance::ownership::{authorize_read, authorize_remove, authorize_unit, authorize_write, Entry};
use dream::provenance::reconcile::reconcile;
use dream::provenance::require::{require_composed, require_source_root};
use dream::provenance::store::{reserved, Owner, Store, STORE_REL};
use dream::source::project::Project;
use dream::toolchain::Toolchain;

fn paths(items: &[&str]) -> Vec<String> {
    items.iter().map(|s| s.to_string()).collect()
}

fn cargo() -> dream::toolchain::catalog::ToolchainSpec {
    Toolchain::parse("cargo").unwrap().spec().unwrap()
}

#[test]
fn non_row_store_is_exact_only() {
    assert!(accepts_target("monkey_c", "monkey_c"));
    assert!(!accepts_target("monkey_c", "cobol"));
    assert!(!accepts_target("unsupported", "monkey_c"));
    assert!(accepts_target("unsupported", "unsupported"));
    assert!(accepts_target("cargo", "rust"));
    assert!(!accepts_target("cargo", "go"));
}

#[test]
fn existing_bind_reuses_a_row_or_a_matching_target() {
    assert!(existing_bind("cargo", "rust", true).is_none());
    assert_eq!(
        existing_bind("cargo", "rust", false).unwrap().spec().unwrap().name,
        "cargo"
    );
    assert!(matches!(
        existing_bind("monkey_c", "monkey_c", false),
        Some(Toolchain::Unsupported)
    ));
    assert!(existing_bind("monkey_c", "cobol", false).is_none());
    assert!(existing_bind("unsupported", "monkey_c", false).is_none());
    assert!(matches!(
        existing_bind("unsupported", "unsupported", false),
        Some(Toolchain::Unsupported)
    ));
}

#[test]
fn fuzzy_requested_reuses_a_catalog_store() {
    let mut store = Store::new("cargo");
    store.mark_project("Cargo.toml");
    let plan = open(Some(store), false, "rust", false).unwrap();
    assert!(!plan.fresh);
    assert_eq!(plan.store.toolchain, "cargo");
    let mut again = Store::new("cargo");
    again.mark_project("Cargo.toml");
    let err = open(Some(again), false, "go", false).err().unwrap();
    assert!(err.to_string().contains("`cargo`"));
}

#[test]
fn open_errors_when_files_exist_without_a_store() {
    let err = open(None, true, "rust", false).err().unwrap();
    assert!(err.to_string().contains("--fresh"));
    assert!(open(None, true, "rust", true).is_ok());
}

#[test]
fn open_rejects_target_mismatch_unless_fresh() {
    let mut store = Store::new("cargo");
    store.set_artifacts("main.foo", paths(&["src/main.rs"]));
    store.mark_project("Cargo.toml");
    let err = open(Some(store), false, "go", false).err().unwrap();
    assert!(err.to_string().contains("--fresh"));

    let mut store = Store::new("cargo");
    store.set_artifacts("main.foo", paths(&["src/main.rs"]));
    store.mark_project("Cargo.toml");
    let plan = open(Some(store), false, "go", true).unwrap();
    assert!(plan.fresh);
    assert_eq!(plan.store.toolchain, "go");
    assert!(plan.remove.contains(&"src/main.rs".to_string()));
    assert!(plan.remove.contains(&"Cargo.toml".to_string()));
    assert!(plan.remove.contains(&"Cargo.lock".to_string()));
    assert!(plan.remove.contains(&".dream".to_string()));
    assert!(!plan.remove.contains(&"README.md".to_string()));
}

#[test]
fn require_store_needs_a_store_for_the_target() {
    let err = require_store(None, "rust").err().unwrap();
    assert_eq!(
        err.to_string(),
        "UsageError: output has no provenance store; compose first"
    );
    let err = require_store(Some(Store::new("cargo")), "go").err().unwrap();
    assert_eq!(
        err.to_string(),
        "UsageError: output is for toolchain `cargo`; pass `-t cargo`"
    );
    assert_eq!(require_store(Some(Store::new("cargo")), "rust").unwrap().toolchain, "cargo");
}

#[test]
fn reserved_is_the_dream_dir() {
    assert!(reserved(".dream/provenance.json"));
    assert!(reserved(".dream"));
    assert!(!reserved("src/main.rs"));
    assert!(!reserved("dream.lock"));
    assert!(reserved(STORE_REL));
}

#[test]
fn owner_prefers_project_then_unit_then_unmanaged() {
    let mut store = Store::new("cargo");
    store.set_artifacts("server.foo", paths(&["src/server.rs", "src/routes.rs"]));
    store.mark_project("Cargo.toml");
    assert_eq!(store.owner("src/server.rs"), Owner::Unit("server.foo".into()));
    assert_eq!(store.owner("Cargo.toml"), Owner::Project);
    store.mark_project("target");
    assert_eq!(store.owner("target/foo.rs"), Owner::Project);
    assert_eq!(store.owner("README.md"), Owner::Unmanaged);
    assert_eq!(store.owner(".dream/provenance.json"), Owner::Project);
}

#[test]
fn mark_project_steals_from_units() {
    let mut store = Store::new("cargo");
    store.set_artifacts("main.foo", paths(&["Cargo.toml", "src/main.rs"]));
    store.mark_project("Cargo.toml");
    assert_eq!(store.units.get("main.foo").unwrap().artifacts, vec!["src/main.rs"]);
    assert_eq!(store.project, vec!["Cargo.toml"]);
    assert_eq!(store.owner("Cargo.toml"), Owner::Project);
}

#[test]
fn set_artifacts_keeps_a_lock() {
    let mut store = Store::new("cargo");
    store.set_artifacts("main.foo", paths(&["src/main.rs"]));
    store.set_lock("main.foo", "abc".into());
    store.set_artifacts("main.foo", paths(&["src/lib.rs"]));
    assert!(store.is_locked("main.foo"));
    assert_eq!(
        store.units.get("main.foo").unwrap().source_hash.as_deref(),
        Some("abc")
    );
    store.set_artifacts("main.foo", Vec::new());
    assert!(store.is_locked("main.foo"));
    store.take_from_units("src/lib.rs");
    assert!(store.is_locked("main.foo"));
}

#[test]
fn set_artifacts_sorts_and_drops_duplicates() {
    let mut store = Store::new("cargo");
    store.set_artifacts("main.foo", paths(&["src/b.rs", "src/a.rs", "src/b.rs"]));
    assert_eq!(store.units.get("main.foo").unwrap().artifacts, vec!["src/a.rs", "src/b.rs"]);
    store.set_artifacts("main.foo", Vec::new());
    assert!(store.units.get("main.foo").is_none());
}

#[test]
fn unlock_clears_a_lock_and_a_setup_lock() {
    let mut store = Store::new("go");
    store.set_artifacts("main.foo", paths(&["main.go"]));
    store.set_lock("main.foo", "h".into());
    store.lock_file("go.mod");
    assert!(store.is_locked("main.foo") && store.is_locked("go.mod"));
    store.clear_lock("main.foo");
    store.clear_lock("go.mod");
    assert!(!store.is_locked("main.foo"));
    assert!(!store.is_locked("go.mod"));
    assert_eq!(store.units.get("main.foo").unwrap().artifacts, vec!["main.go"]);
    assert!(store.units.get("main.foo").unwrap().source_hash.is_none());
}

#[test]
fn store_path_is_under_dest() {
    assert_eq!(Store::path("/tmp/out"), "/tmp/out/.dream/provenance.json");
}

#[test]
fn missing_source_root_is_ok() {
    let store = Store::new("rust");
    require_source_root(&store, "/tmp/project").unwrap();
}

#[test]
fn same_root_is_ok() {
    let mut store = Store::new("rust");
    store.set_source_root("/tmp/project");
    require_source_root(&store, "/tmp/project").unwrap();
}

#[test]
fn other_root_is_a_usage_error() {
    let mut store = Store::new("rust");
    store.set_source_root("/tmp/dest-project");
    let err = require_source_root(&store, "/tmp/other").unwrap_err();
    assert!(err.to_string().starts_with("UsageError:"));
    assert!(err.to_string().contains("--fresh"));
}

#[test]
fn composed_means_this_session_or_the_store_has_unit_files() {
    let empty_store = Store::new("cargo");
    let empty = JobArtifacts::new();
    let err = require_composed(&empty, &empty_store).unwrap_err();
    assert!(err.to_string().contains("produced no files"));

    let mut leftovers_only = JobArtifacts::new();
    leftovers_only.discard("old.foo", "old.rs");
    assert!(require_composed(&leftovers_only, &empty_store).is_err());

    let mut wrote = JobArtifacts::new();
    wrote.add("hey-you.foo", "main.rs");
    require_composed(&wrote, &empty_store).unwrap();

    let mut prior = Store::new("cargo");
    prior.set_artifacts("main.foo", paths(&["src/main.rs"]));
    require_composed(&empty, &prior).unwrap();
}

#[test]
fn job_records_writes_and_removals() {
    let mut job = JobArtifacts::new();
    assert!(job.get("main.foo").is_none());
    job.add("main.foo", "src/main.rs");
    job.add("main.foo", "src/main.rs");
    job.add("main.foo", "src/lib.rs");
    assert_eq!(job.get("main.foo").unwrap(), &paths(&["src/main.rs", "src/lib.rs"]));
    job.discard("main.foo", "src/main.rs");
    assert_eq!(job.get("main.foo").unwrap(), &paths(&["src/lib.rs"]));
    assert!(job.any_written());
    job.discard("main.foo", "src/lib.rs");
    assert!(!job.any_written());
}

#[test]
fn write_policy() {
    let mut store = Store::new("rust");
    store.set_artifacts("main.foo", paths(&["src/main.rs", "src/old.rs"]));
    let cargo = cargo();
    authorize_write(&store, Entry::File, "src/main.rs", Some("main.foo"), None, Some(&cargo)).unwrap();
    let err = authorize_write(&store, Entry::File, "src/main.rs", Some("other.foo"), None, Some(&cargo)).unwrap_err();
    assert!(err.to_string().contains("owned by `main.foo`"));

    let unmanaged = authorize_write(&store, Entry::File, "README.md", Some("main.foo"), None, Some(&cargo)).unwrap_err();
    assert!(unmanaged.to_string().contains("user-owned"));

    store.mark_project("Cargo.toml");
    store.mark_project("target");
    authorize_write(&store, Entry::Missing, "Cargo.toml", Some("main.foo"), None, Some(&cargo)).unwrap();
    let wipe = authorize_write(&store, Entry::Missing, "target", Some("main.foo"), None, Some(&cargo)).unwrap_err();
    assert!(wipe.to_string().contains("wipe-only"));
    let child = authorize_write(&store, Entry::Missing, "target/foo.rs", Some("main.foo"), None, Some(&cargo)).unwrap_err();
    assert!(child.to_string().contains("wipe-only"));

    let reserved_err = authorize_write(&store, Entry::Missing, STORE_REL, Some("main.foo"), None, Some(&cargo)).unwrap_err();
    assert!(reserved_err.to_string().contains("project metadata"));

    let repair_new = authorize_write(&store, Entry::Missing, "src/new.rs", None, None, Some(&cargo)).unwrap_err();
    assert!(repair_new.to_string().contains("repair cannot create"));
    authorize_write(&store, Entry::File, "src/main.rs", None, None, Some(&cargo)).unwrap();

    store.set_lock("main.foo", "abc".into());
    authorize_unit(&store, "main.foo").unwrap_err();
    let locked = authorize_write(&store, Entry::File, "src/main.rs", Some("main.foo"), None, Some(&cargo)).unwrap_err();
    assert!(locked.to_string().contains("`main.foo` is locked"));
    let repair_locked = authorize_write(&store, Entry::File, "src/main.rs", None, None, Some(&cargo)).unwrap_err();
    assert!(repair_locked.to_string().contains("`main.foo` is locked"));
}

#[test]
fn this_job_claims_a_file_it_wrote() {
    let store = Store::new("rust");
    let job = paths(&["src/new.rs"]);
    authorize_write(&store, Entry::File, "src/new.rs", Some("main.foo"), Some(&job), None).unwrap();
    let err = authorize_write(&store, Entry::File, "src/new.rs", Some("main.foo"), None, None).unwrap_err();
    assert_eq!(err.to_string(), "ComposerError: dest `src/new.rs` is user-owned");
}

#[test]
fn read_and_remove_policy() {
    let mut store = Store::new("rust");
    store.set_artifacts("main.foo", paths(&["src/main.rs"]));
    let cargo = cargo();
    authorize_read(&store, Entry::File, "src/main.rs", Some(&cargo)).unwrap();
    let gone = authorize_read(&store, Entry::Missing, "src/main.rs", Some(&cargo)).unwrap_err();
    assert!(gone.to_string().contains("does not exist"));
    let user = authorize_read(&store, Entry::File, "README.md", Some(&cargo)).unwrap_err();
    assert!(user.to_string().contains("user-owned"));
    let meta = authorize_read(&store, Entry::File, ".dream", Some(&cargo)).unwrap_err();
    assert!(meta.to_string().contains("cannot read Dream-owned project metadata"));

    authorize_remove(&store, "src/main.rs", Some("main.foo"), None, Some(&cargo)).unwrap();
    let other = authorize_remove(&store, "src/main.rs", Some("b.foo"), None, Some(&cargo)).unwrap_err();
    assert_eq!(other.to_string(), "ComposerError: dest `src/main.rs` is owned by `main.foo`");
    let wipe = authorize_remove(&store, "target", Some("main.foo"), None, Some(&cargo)).unwrap_err();
    assert!(wipe.to_string().contains("wipe-only"));
    authorize_remove(&store, "Cargo.toml", Some("main.foo"), None, Some(&cargo)).unwrap();
}

#[test]
fn reconcile_deletes_only_stale_owned_files() {
    let mut store = Store::new("rust");
    store.set_artifacts("main.foo", paths(&["src/main.rs", "src/old.rs"]));
    let stale = reconcile(&mut store, "main.foo", paths(&["src/main.rs"]));
    assert_eq!(stale, vec!["src/old.rs"]);
    assert_eq!(store.units.get("main.foo").unwrap().artifacts, vec!["src/main.rs"]);
}

fn composed(root: &str, unit: &str, rel: &str) -> Store {
    let mut store = Store::new("cargo");
    store.set_source_root(root);
    store.set_artifacts(unit, paths(&[rel]));
    store
}

#[test]
fn source_digest_is_sha256_hex() {
    assert_eq!(
        source_digest("abc"),
        "ba7816bf8f01cfea414140de5dae2223b00361a396177a9cb410ff61f20015ad"
    );
    assert_eq!(
        source_digest(""),
        "e3b0c44298fc1c149afbf4c8996fb92427ae41e4649b934ca495991b7852b855"
    );
}

#[test]
fn lock_then_unlock() {
    let store = composed("/src", "main.foo", "src/main.rs");
    let files = paths(&["src/main.rs"]);
    let locked = lock(Some(store), "rust", "/dest", "/src/main.foo", Some("/src/main.foo"), &files, Some("print hi")).unwrap();
    assert!(locked.is_locked("main.foo"));
    assert_eq!(locked.units.get("main.foo").unwrap().source_hash.as_deref(), Some(source_digest("print hi").as_str()));
    let unlocked = unlock(Some(locked), "rust", "/dest", "/src/main.foo", Some("/src/main.foo")).unwrap();
    assert!(!unlocked.is_locked("main.foo"));
    let err = unlock(Some(unlocked), "rust", "/dest", "/src/main.foo", Some("/src/main.foo")).unwrap_err();
    assert_eq!(err.to_string(), "UsageError: `main.foo` is not locked");
}

#[test]
fn lock_refuses_missing_outputs_and_sources() {
    let store = composed("/src", "main.foo", "src/main.rs");
    let none = Vec::new();
    let err = lock(Some(store), "rust", "/dest", "/src/main.foo", Some("/src/main.foo"), &none, Some("x")).unwrap_err();
    assert!(err.to_string().contains("locked output `src/main.rs` for `main.foo` is missing"));
    let store = composed("/src", "main.foo", "src/main.rs");
    let files = paths(&["src/main.rs"]);
    let err = lock(Some(store), "rust", "/dest", "/src/main.foo", Some("/src/main.foo"), &files, None).unwrap_err();
    assert_eq!(err.to_string(), "UsageError: `main.foo` does not exist");
    let store = composed("/src", "main.foo", "src/main.rs");
    let err = lock(Some(store), "rust", "/dest", "/src/other.foo", None, &files, Some("x")).unwrap_err();
    assert!(err.to_string().contains("has no output files for toolchain `cargo`"));
}

#[test]
fn check_rejects_a_changed_source() {
    let store = composed("/src", "main.foo", "src/main.rs");
    let files = paths(&["src/main.rs"]);
    let locked = lock(Some(store), "rust", "/dest", "/src/main.foo", Some("/src/main.foo"), &files, Some("print hi")).unwrap();
    assert_eq!(locked_units(&locked), vec!["main.foo"]);
    let same = vec![UnitRead { unit: "main.foo".into(), source: Ok("print hi".into()) }];
    check(&locked, &files, &same).unwrap();
    let changed = vec![UnitRead { unit: "main.foo".into(), source: Ok("print bye".into()) }];
    assert!(check(&locked, &files, &changed).unwrap_err().to_string().contains("source changed"));
    let gone = check(&locked, &Vec::new(), &same).unwrap_err();
    assert!(gone.to_string().contains("locked output `src/main.rs` for `main.foo` is missing"));
}

#[test]
fn lock_names_a_setup_file() {
    let mut store = composed("/src", "main.foo", "main.go");
    store.toolchain = "go".into();
    store.mark_project("go.mod");
    let files = paths(&["main.go", "go.mod"]);
    let store = lock(Some(store), "go", "/dest", "/src/main.foo", Some("/src/main.foo"), &files, Some("print hi")).unwrap();
    let store = lock(Some(store), "go", "/dest", "go.mod", None, &files, None).unwrap();
    assert!(store.is_locked("main.foo") && store.is_locked("go.mod"));
    let store = unlock(Some(store), "go", "/dest", "go.mod", None).unwrap();
    assert!(!store.is_locked("go.mod"));
    let err = lock(Some(store), "go", "/dest", "README.md", None, &files, None).unwrap_err();
    assert_eq!(err.to_string(), "UsageError: `README.md` is not a setup file");
}

fn project_at(root: &str, entry: &str) -> Project {
    let canon = format!("{root}/{entry}");
    Project::from_entry(&canon, Some(&canon), String::new()).unwrap().0
}

#[test]
fn unit_inspect_shows_unlocked_owned_files() {
    let store = composed("/src", "main.foo", "src/main.rs");
    let project = project_at("/src", "main.foo");
    let reads = vec![UnitRead { unit: "main.foo".into(), source: Ok("print hi".into()) }];
    let out = report(Some(store), "rust", "/src", &project, Some("main.foo"), &paths(&["main.foo"]), &paths(&["src/main.rs"]), &reads).unwrap();
    assert_eq!(out, "main.foo\n  status: unlocked\n  owned:\n    src/main.rs\n");
    assert!(!out.contains("source:"));
}

#[test]
fn locked_unit_reports_match_and_stale() {
    let store = composed("/src", "main.foo", "src/main.rs");
    let files = paths(&["src/main.rs"]);
    let store = lock(Some(store), "rust", "/dest", "/src/main.foo", Some("/src/main.foo"), &files, Some("print hi")).unwrap();
    let project = project_at("/src", "main.foo");
    let reads = vec![UnitRead { unit: "main.foo".into(), source: Ok("print hi".into()) }];
    let mut again = Store::new("cargo");
    again.set_source_root("/src");
    again.set_artifacts("main.foo", paths(&["src/main.rs"]));
    again.set_lock("main.foo", store.units.get("main.foo").unwrap().source_hash.clone().unwrap());
    let out = report(Some(store), "rust", "/src", &project, Some("main.foo"), &paths(&["main.foo"]), &files, &reads).unwrap();
    assert!(out.contains("status: locked"));
    assert!(out.contains("source: matches"));
    let bye = vec![UnitRead { unit: "main.foo".into(), source: Ok("print bye".into()) }];
    let out = report(Some(again), "rust", "/src", &project, Some("main.foo"), &paths(&["main.foo"]), &files, &bye).unwrap();
    assert!(out.contains("status: stale"));
    assert!(out.contains("source: changed"));
}

#[test]
fn project_inspect_lists_units_and_toml_name() {
    let mut store = composed("/src", "main.foo", "src/main.rs");
    store.mark_project("Cargo.toml");
    let manifest = dream::source::manifest::load(Some("[project]\nname = \"demo\"\nentry = \"main.foo\"\n")).unwrap();
    let project = Project::from_root(true, "/src", Ok(manifest)).unwrap();
    let reads = vec![
        UnitRead { unit: "main.foo".into(), source: Ok("entry".into()) },
        UnitRead { unit: "utils.foo".into(), source: Ok("utils".into()) },
    ];
    let out = report(Some(store), "rust", "/src", &project, None, &paths(&["main.foo", "utils.foo"]), &paths(&["src/main.rs"]), &reads).unwrap();
    assert!(out.contains("toolchain: cargo"));
    assert!(out.contains("name: demo"));
    assert!(out.contains("entry: main.foo"));
    assert!(out.contains("project:\n  Cargo.toml"));
    assert!(out.contains("  main.foo\n    status: unlocked"));
    assert!(out.contains("  utils.foo\n    status: missing"));
}

#[test]
fn missing_store_is_usage() {
    let project = project_at("/src", "main.foo");
    let err = report(None, "rust", "/src", &project, Some("main.foo"), &Vec::new(), &Vec::new(), &Vec::new()).unwrap_err();
    assert!(err.to_string().contains("compose first"));
}

#[test]
fn inspect_refuses_another_project() {
    let store = composed("/src", "main.foo", "src/main.rs");
    let project = project_at("/other", "main.foo");
    let err = report(Some(store), "rust", "/other", &project, None, &Vec::new(), &Vec::new(), &Vec::new()).unwrap_err();
    assert_eq!(err.to_string(), "UsageError: output is for another Dream project");
}

#[test]
fn locking_twice_to_the_same_source_changes_nothing() {
    let store = composed("/src", "main.foo", "src/main.rs");
    let files = paths(&["src/main.rs"]);
    let once = lock(Some(store), "rust", "/dest", "/src/main.foo", Some("/src/main.foo"), &files, Some("print hi")).unwrap();
    let hash = once.units.get("main.foo").unwrap().source_hash.clone();
    let twice = lock(Some(once), "rust", "/dest", "/src/main.foo", Some("/src/main.foo"), &files, Some("print hi")).unwrap();
    assert_eq!(twice.units.get("main.foo").unwrap().source_hash, hash);
    let err = lock(Some(twice), "rust", "/dest", "/src/main.foo", Some("/src/main.foo"), &files, Some("print bye")).unwrap_err();
    assert_eq!(err.to_string(), "ComposerError: `main.foo` is locked with a different source; unlock first");
}

#[test]
fn metadata_is_closed_to_every_tool() {
    let store = Store::new("cargo");
    assert!(authorize_write(&store, Entry::Missing, ".dream/x", Some("main.foo"), None, None).is_err());
    assert!(authorize_read(&store, Entry::File, ".dream", None).is_err());
    assert!(authorize_remove(&store, ".dream/provenance.json", None, None, None).is_err());
}

#[test]
fn a_locked_setup_file_is_not_written() {
    let go = Toolchain::parse("go").unwrap().spec().unwrap();
    let mut store = Store::new("go");
    store.mark_project("go.mod");
    authorize_write(&store, Entry::File, "go.mod", Some("main.foo"), None, Some(&go)).unwrap();
    store.lock_file("go.mod");
    let err = authorize_write(&store, Entry::File, "go.mod", Some("main.foo"), None, Some(&go)).unwrap_err();
    assert_eq!(err.to_string(), "ComposerError: `go.mod` is locked");
    let repair = authorize_write(&store, Entry::File, "go.mod", None, None, Some(&go)).unwrap_err();
    assert_eq!(repair.to_string(), "ComposerError: `go.mod` is locked");
}

#[test]
fn marking_a_project_path_twice_changes_nothing() {
    let mut store = Store::new("cargo");
    store.set_artifacts("main.foo", paths(&["Cargo.toml", "src/main.rs"]));
    store.mark_project("target");
    store.mark_project("Cargo.toml");
    let once = format!("{:?}", store);
    store.mark_project("Cargo.toml");
    assert_eq!(format!("{:?}", store), once);
    assert_eq!(store.project, vec!["Cargo.toml", "target"]);
}

#[test]
fn clearing_a_fresh_file_lock_restores_the_store() {
    let mut store = Store::new("go");
    store.lock_file("go.sum");
    store.set_artifacts("main.foo", paths(&["main.go"]));
    let before = format!("{:?}", store);
    store.lock_file("go.mod");
    assert_eq!(store.locked_setup, vec!["go.mod", "go.sum"]);
    store.clear_lock("go.mod");
    assert_eq!(format!("{:?}", store), before);
}

#[test]
fn unlock_undoes_lock() {
    let store = composed("/src", "main.foo", "src/main.rs");
    let before = format!("{:?}", store);
    let files = paths(&["src/main.rs"]);
    let locked = lock(Some(store), "rust", "/dest", "/src/main.foo", Some("/src/main.foo"), &files, Some("print hi")).unwrap();
    assert_ne!(format!("{:?}", locked), before);
    let unlocked = unlock(Some(locked), "rust", "/dest", "/src/main.foo", Some("/src/main.foo")).unwrap();
    assert_eq!(format!("{:?}", unlocked), before);
}

#[test]
fn unlock_undoes_a_setup_lock_and_refuses_twice() {
    let mut store = composed("/src", "main.foo", "main.go");
    store.toolchain = "go".into();
    store.mark_project("go.mod");
    let before = format!("{:?}", store);
    let files = paths(&["main.go", "go.mod"]);
    let locked = lock(Some(store), "go", "/dest", "go.mod", None, &files, None).unwrap();
    let unlocked = unlock(Some(locked), "go", "/dest", "go.mod", None).unwrap();
    assert_eq!(format!("{:?}", unlocked), before);
    let err = unlock(Some(unlocked), "go", "/dest", "go.mod", None).unwrap_err();
    assert_eq!(err.to_string(), "UsageError: `go.mod` is not locked");
}
