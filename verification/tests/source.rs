use dream::source::project::reject_source_or_dream;
use dream::source::graph::DepGraph;
use dream::source::manifest::{load, Manifest};
use dream::source::paths::{resolve_inside, resolve_output};
use dream::source::project::{PathProbe, Project};

fn paths(items: &[&str]) -> Vec<String> {
    items.iter().map(|s| s.to_string()).collect()
}

#[test]
fn detects_request_cycle() {
    let mut graph = DepGraph::new("main.foo");
    graph.record_read("users/a.foo").unwrap();
    graph.record_read("users/b.foo").unwrap();
    let err = graph.record_read("main.foo").unwrap_err();
    assert_eq!(
        err.to_string(),
        "DreamError: cycle in source requests: main.foo -> users/a.foo -> users/b.foo -> main.foo"
    );
}

#[test]
fn allows_reread_of_current_unit() {
    let mut graph = DepGraph::new("main.foo");
    graph.record_read("main.foo").unwrap();
    graph.record_read("users/a.foo").unwrap();
    graph.record_read("users/a.foo").unwrap();
}

#[test]
fn reached_is_every_unit_read() {
    let mut graph = DepGraph::new("main.foo");
    assert!(graph.reached("main.foo"));
    assert!(!graph.reached("users/a.foo"));
    graph.record_read("users/a.foo").unwrap();
    assert!(graph.reached("main.foo"));
    assert!(graph.reached("users/a.foo"));
    assert!(!graph.reached("users/b.foo"));
}

#[test]
fn output_stays_under_root() {
    let dest = resolve_output("/tmp/stage", "src/main.rs").unwrap();
    assert_eq!(dest, "/tmp/stage/src/main.rs");
}

#[test]
fn output_rejects_escape_and_root() {
    let root = "/tmp/stage";
    let escape = resolve_output(root, "../secret").unwrap_err();
    assert!(escape.to_string().contains("output write escapes -o"));
    let abs = resolve_output(root, "/etc/passwd").unwrap_err();
    assert!(abs.to_string().contains("output write escapes -o"));
    let root_write = resolve_output(root, ".").unwrap_err();
    assert!(root_write.to_string().contains("output write escapes -o"));
    let empty = resolve_output(root, "  ").unwrap_err();
    assert!(empty.to_string().contains("output write is empty"));
}

#[test]
fn source_still_rejects_escape() {
    let err = resolve_inside("/tmp/proj", "../secret.foo").unwrap_err();
    assert!(err.to_string().contains("source request escapes project root"));
}

#[test]
fn missing_is_none() {
    assert!(load(None).unwrap().is_none());
}

#[test]
fn reads_name_and_entry() {
    let m = load(Some("[project]\nname = \"demo\"\nentry = \"src/app.foo\"\n")).unwrap().unwrap();
    assert_eq!(m.name.as_deref(), Some("demo"));
    assert_eq!(m.entry, "src/app.foo");
}

#[test]
fn rejects_a_non_foo_entry() {
    let err = load(Some("[project]\nentry = \"main.rs\"\n")).unwrap_err();
    assert!(err.to_string().contains("must be a .foo file"));
}

#[test]
fn rejects_missing_entry() {
    let err = load(Some("[project]\nname = \"demo\"\n")).unwrap_err();
    assert!(err.to_string().contains("needs entry"));
}

#[test]
fn manifest_needs_a_project_table_and_valid_toml() {
    let err = load(Some("name = \"demo\"\n")).unwrap_err();
    assert_eq!(err.to_string(), "UsageError: dream.toml needs [project]");
    let err = load(Some("[project\n")).unwrap_err();
    assert!(err.to_string().starts_with("UsageError: invalid dream.toml: "));
    let m = load(Some("[project]\nname = \"\"\nentry = \"a.foo\"\n")).unwrap().unwrap();
    assert!(m.name.is_none());
}

#[test]
fn manifest_fields_decide() {
    let m = Manifest::from_fields(true, Some("main.foo"), Some("demo")).unwrap();
    assert_eq!(m.entry, "main.foo");
    let err = Manifest::from_fields(false, None, None).unwrap_err();
    assert!(err.to_string().contains("needs [project]"));
}

fn probe_entry(canonical: Option<&str>, source: &str) -> PathProbe {
    PathProbe {
        is_dir: false,
        canonical: canonical.map(|s| s.to_string()),
        manifest: Ok(None),
        entry_canonical: None,
        source: source.to_string(),
    }
}

#[test]
fn lists_project_foo_files() {
    let (project, unit) = Project::from_path("/tmp/p/main.foo", probe_entry(Some("/tmp/p/main.foo"), "entry")).unwrap();
    assert_eq!(unit.rel, "main.foo");
    assert_eq!(project.root(), "/tmp/p");
    let found = paths(&["users/active.foo", "readme.md", "main.foo", ".hidden/secret.foo", "target/gen.foo"]);
    assert_eq!(
        project.list_source_files(&found),
        vec![
            ".hidden/secret.foo".to_string(),
            "main.foo".to_string(),
            "target/gen.foo".to_string(),
            "users/active.foo".to_string()
        ]
    );
}

#[test]
fn reads_nested_unit() {
    let (project, _) = Project::from_entry("/tmp/p/main.foo", Some("/tmp/p/main.foo"), "entry".into()).unwrap();
    let unit = project
        .read_source_file("users/active.foo", Some("/tmp/p/users/active.foo"), "active users".into())
        .unwrap();
    assert_eq!(unit.rel, "users/active.foo");
    assert_eq!(unit.source, "active users");
}

#[test]
fn rejects_missing_and_escape() {
    let (project, _) = Project::from_entry("/tmp/p/main.foo", Some("/tmp/p/main.foo"), "entry".into()).unwrap();
    let missing = project.read_source_file("nope.foo", None, String::new()).unwrap_err();
    assert!(missing.to_string().contains("does not exist"));
    let escape = project.read_source_file("../secret.foo", None, String::new()).unwrap_err();
    assert!(escape.to_string().contains("escapes project root"));
}

#[test]
fn directory_uses_dream_toml_entry() {
    let manifest = load(Some("[project]\nname = \"demo\"\nentry = \"src/app.foo\"\n"));
    let probe = PathProbe {
        is_dir: true,
        canonical: Some("/tmp/p".into()),
        manifest,
        entry_canonical: Some("/tmp/p/src/app.foo".into()),
        source: "from toml".into(),
    };
    let (project, unit) = Project::from_path("/tmp/p", probe).unwrap();
    assert_eq!(unit.rel, "src/app.foo");
    assert_eq!(unit.source, "from toml");
    assert_eq!(project.name(), Some("demo"));
    assert_eq!(project.entry(), Some("src/app.foo"));
    assert_eq!(
        project.list_source_files(&paths(&["src/app.foo", "other.foo", "dream.toml"])),
        vec!["other.foo".to_string(), "src/app.foo".to_string()]
    );
}

#[test]
fn directory_without_toml_is_usage() {
    let probe = PathProbe {
        is_dir: true,
        canonical: Some("/tmp/p".into()),
        manifest: Ok(None),
        entry_canonical: None,
        source: String::new(),
    };
    let err = Project::from_path("/tmp/p", probe).unwrap_err();
    assert!(err.to_string().contains("dream.toml"));
}

#[test]
fn entry_must_be_a_foo_file_that_exists() {
    let err = Project::from_entry("/tmp/p/main.rs", Some("/tmp/p/main.rs"), String::new()).unwrap_err();
    assert_eq!(err.to_string(), "UsageError: expected a .foo file");
    let err = Project::from_entry("/tmp/p/main.foo", None, String::new()).unwrap_err();
    assert_eq!(err.to_string(), "UsageError: entry file `/tmp/p/main.foo` does not exist");
}

#[test]
fn lists_data_files() {
    let (project, _) = Project::from_entry("/tmp/p/main.foo", Some("/tmp/p/main.foo"), "entry".into()).unwrap();
    let found = paths(&["users.json", "main.foo", ".dream/provenance.json", "out/note.txt"]);
    assert_eq!(project.list_data_files(&found), vec!["out/note.txt", "users.json"]);
}

#[test]
fn root_without_manifest_has_no_name() {
    let project = Project::from_root(true, "/tmp/p", Ok(None)).unwrap();
    assert_eq!(project.root(), "/tmp/p");
    assert!(project.name().is_none() && project.entry().is_none());
    let err = Project::from_root(false, "/tmp/p", Ok(None)).unwrap_err();
    assert_eq!(err.to_string(), "UsageError: expected a directory");
}

#[test]
fn reads_never_close_a_cycle() {
    let mut graph = DepGraph::new("a.foo");
    graph.record_read("b.foo").unwrap();
    graph.record_read("c.foo").unwrap();
    assert!(graph.record_read("a.foo").is_err());
    assert!(graph.record_read("b.foo").is_err());
    graph.record_read("d.foo").unwrap();
    assert!(graph.reached("d.foo"));
}

#[test]
fn data_requests_skip_sources_and_dream() {
    let foo = reject_source_or_dream("main.foo", false).unwrap_err();
    assert!(foo.to_string().contains("read_source_file"));
    let foo = reject_source_or_dream("main.foo", true).unwrap_err();
    assert_eq!(foo.to_string(), "RuntimeError: cannot write a `.foo` file");
    let dream = reject_source_or_dream(".dream/x", true).unwrap_err();
    assert!(dream.to_string().contains(".dream"));
    reject_source_or_dream("out/note.txt", true).unwrap();
}

#[test]
fn a_cycle_names_each_unit_once() {
    let mut graph = DepGraph::new("main.foo");
    graph.record_read("a.foo").unwrap();
    graph.record_read("b.foo").unwrap();
    graph.record_read("c.foo").unwrap();
    let err = graph.record_read("a.foo").unwrap_err().to_string();
    assert_eq!(err, "DreamError: cycle in source requests: a.foo -> b.foo -> c.foo -> a.foo");
    graph.record_read("c.foo").unwrap();
    let err = graph.record_read("main.foo").unwrap_err().to_string();
    assert_eq!(err, "DreamError: cycle in source requests: main.foo -> a.foo -> b.foo -> c.foo -> main.foo");
    graph.record_read("d.foo").unwrap();
    assert!(graph.reached("d.foo"));
}

#[test]
fn data_reads_are_planned() {
    let (project, _) = Project::from_entry("/src/main.foo", Some("/src/main.foo"), "entry".into()).unwrap();
    assert_eq!(project.plan_data_read("users.json", true, false, "/src/users.json").unwrap(), "users.json");
    assert_eq!(
        project.plan_data_read("main.foo", true, false, "/src/main.foo").unwrap_err().to_string(),
        "RuntimeError: use read_source_file for a `.foo` file"
    );
    assert_eq!(
        project.plan_data_read(".dream/x", true, false, "/src/.dream/x").unwrap_err().to_string(),
        "RuntimeError: `.dream` is not a data file"
    );
    assert_eq!(
        project.plan_data_read("nope.json", false, false, "/src/nope.json").unwrap_err().to_string(),
        "RuntimeError: requested file `nope.json` does not exist"
    );
    assert_eq!(
        project.plan_data_read("out", true, true, "/src/out").unwrap_err().to_string(),
        "RuntimeError: requested file `out` is a directory"
    );
    assert_eq!(
        project.plan_data_read("link.json", true, false, "/etc/passwd").unwrap_err().to_string(),
        "RuntimeError: file request escapes project root"
    );
    assert_eq!(dream::source::project::data_text("users.json", b"[1]".to_vec()).unwrap(), "[1]");
    assert_eq!(
        dream::source::project::data_text("bin.dat", vec![0xff, 0xfe]).unwrap_err().to_string(),
        "RuntimeError: `bin.dat` is not UTF-8"
    );
}
