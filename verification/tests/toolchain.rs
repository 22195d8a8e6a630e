use dream::toolchain::capture::{diagnostics, has_warning, judge_step};
use dream::toolchain::catalog::{row, spec, Run, ToolchainSpec, CATALOG_LEN};
use dream::toolchain::exec::{after_compose, invoke_step, Action, Stage};
use dream::toolchain::outcome::Outcome;
use dream::toolchain::program::{launch, missing_hint, names, SpawnError};
use dream::toolchain::{Toolchain, UNSUPPORTED};
use dream::toolchain_resolver::{declared_toolchain, from_store_or_catalog};

fn test_row(build: Vec<&'static str>, run: Run) -> ToolchainSpec {
    ToolchainSpec {
        name: "test",
        configure: vec![],
        build,
        run,
        programs: vec![],
        install_hint: "Install the test toolchain from somewhere.",
        docs: "",
        setup: vec![],
        project: vec![],
        entry: "",
    }
}

fn with_programs(programs: Vec<&'static str>) -> ToolchainSpec {
    ToolchainSpec { programs, ..test_row(vec![], Run::Argv(vec![])) }
}

#[test]
fn has_warning_looks_for_warning_colon() {
    assert!(has_warning("warning: unused"));
    assert!(has_warning(" --> src/lib.rs\nWARNING: foo"));
    assert!(!has_warning("compiled successfully"));
    assert!(!has_warning("this warning is only a word"));
}

#[test]
fn names_are_unique_and_nonempty() {
    let mut seen: Vec<&str> = Vec::new();
    for i in 0..CATALOG_LEN {
        let spec = row(i);
        assert!(!spec.name.is_empty());
        assert!(!seen.contains(&spec.name), "duplicate toolchain `{}`", spec.name);
        seen.push(spec.name);
        assert!(!spec.install_hint.is_empty());
        assert!(!spec.docs.is_empty());
        assert!(!spec.entry.is_empty(), "`{}` has no entrypoint", spec.name);
        assert!(!spec.owned_entry("hey-you").is_empty(), "`{}` owned_entry is empty", spec.name);
        for path in spec.setup.iter().chain(spec.project.iter()) {
            assert!(!path.is_empty(), "empty dest path on `{}`", spec.name);
        }
        for path in &spec.setup {
            assert!(!spec.project.contains(path), "`{}` lists `{path}` as setup and wipe", spec.name);
        }
    }
    assert!(CATALOG_LEN >= 20, "catalog has {} rows", CATALOG_LEN);
    assert_eq!(spec("python").unwrap().run_argv("hey-you"), vec!["python".to_string(), "hey-you.py".to_string()]);
    assert_eq!(spec("cargo").unwrap().setup, ["Cargo.toml"]);
    assert_eq!(spec("cargo").unwrap().project, ["Cargo.lock", "target"]);
    assert_eq!(spec("python").unwrap().programs, ["python", "python3", "py"]);
    assert_eq!(spec("go").unwrap().owned_dest(), ["go.mod", "go.sum", "target"]);
    assert_eq!(spec("go").unwrap().build, ["go", "build", "-o", "target/"]);
    assert_eq!(spec("cargo").unwrap().owned_dest(), ["Cargo.toml", "Cargo.lock", "target"]);
    assert_eq!(spec("node").unwrap().run_argv("hey-you"), vec!["node".to_string(), "hey-you.js".to_string()]);
    assert_eq!(spec("node").unwrap().configure, ["npm", "install"]);
    assert_eq!(spec("nim").unwrap().run, Run::Argv(vec!["nimble", "run"]));
    assert_eq!(spec("nim").unwrap().project, ["nimbledeps", "target"]);
    assert_eq!(spec("crystal").unwrap().run, Run::Argv(vec!["bin/app"]));
    assert_eq!(spec("crystal").unwrap().project, ["lib", "shard.lock", "bin"]);
    assert_eq!(spec("elixir").unwrap().build, ["mix", "escript.build"]);
    assert_eq!(spec("elixir").unwrap().run, Run::Argv(vec!["target/app"]));
    assert_eq!(spec("cargo").unwrap().owned_entry("hey-you"), "src/main.rs");
    assert_eq!(spec("maven").unwrap().owned_entry("hey-you"), "src/main/java/App.java");
    assert_eq!(spec("go").unwrap().owned_entry("hey-you"), "hey-you.go");
    assert_eq!(spec("cmake").unwrap().owned_entry("hey-you"), "hey-you.c");
    assert_eq!(spec("zig").unwrap().owned_entry("hey-you"), "hey-you.zig");
    assert_eq!(spec("make").unwrap().owned_entry("hey-you"), "hey-you.c");
    assert_eq!(spec("dotnet").unwrap().owned_entry("hey-you"), "hey-you.cs");
    assert_eq!(spec("dart").unwrap().owned_entry("hey-you"), "bin/hey-you.dart");
    assert_eq!(spec("nim").unwrap().owned_entry("hey-you"), "hey-you.nim");
    assert_eq!(spec("crystal").unwrap().owned_entry("hey-you"), "hey-you.cr");
    assert_eq!(spec("ocaml").unwrap().owned_entry("hey-you"), "app.ml");
    assert_eq!(spec("scala").unwrap().owned_entry("hey-you"), "src/main/scala/App.scala");
    assert_eq!(spec("python").unwrap().owned_entry("hey-you"), "hey-you.py");
    assert!(spec("lua").unwrap().setup.is_empty());
    assert_eq!(spec("zig").unwrap().owned_dest(), ["build.zig", "build.zig.zon", "zig-out", ".zig-cache"]);
    assert_eq!(spec("ocaml").unwrap().owned_dest(), ["dune-project", "dune", "_build"]);
    assert_eq!(spec("make").unwrap().owned_dest(), ["Makefile", "target"]);
    assert!(spec("cargo").unwrap().is_setup("Cargo.toml"));
    assert!(spec("cargo").unwrap().is_wipe("target"));
    assert!(!spec("cargo").unwrap().is_setup("target"));
}

#[test]
fn parse_round_trips_catalog_and_unsupported() {
    for i in 0..CATALOG_LEN {
        let spec = row(i);
        let parsed = Toolchain::parse(spec.name).unwrap();
        assert_eq!(parsed.as_str(), spec.name);
        assert_eq!(parsed, Toolchain::Known(i));
    }
    assert_eq!(Toolchain::parse(UNSUPPORTED).unwrap(), Toolchain::Unsupported);
    let err = Toolchain::parse("rust").unwrap_err();
    assert!(err.to_string().contains("unknown toolchain `rust`"));
}

#[test]
fn schema_names_are_catalog_plus_unsupported() {
    let names = Toolchain::schema_names();
    assert_eq!(names.last().copied(), Some(UNSUPPORTED));
    let rows: Vec<&str> = (0..CATALOG_LEN).map(|i| row(i).name).collect();
    assert_eq!(&names[..names.len() - 1], rows.as_slice());
}

#[test]
fn official_names_then_the_requested_name() {
    let python = with_programs(vec!["python", "python3", "py"]);
    assert_eq!(names(&python, "python"), ["python", "python3", "py"]);
    assert_eq!(names(&python, "python3"), ["python3"]);
    assert_eq!(names(&with_programs(vec!["cargo"]), "cargo"), ["cargo"]);
    assert_eq!(names(&with_programs(vec![]), "true"), ["true"]);
}

#[test]
fn not_found_tries_the_next_name() {
    let spec = with_programs(vec!["dream-no-such-python-7f3a", "true"]);
    let used = launch(&spec, "dream-no-such-python-7f3a", |name: &str| {
        if name == "dream-no-such-python-7f3a" {
            Err(SpawnError::NotFound)
        } else {
            Ok(name.to_string())
        }
    })
    .unwrap()
    .unwrap();
    assert_eq!(used, "true");
}

#[test]
fn other_spawn_errors_do_not_fall_through() {
    let spec = with_programs(vec!["false", "true"]);
    let err = launch(&spec, "false", |name: &str| {
        if name == "false" {
            Err(SpawnError::Other("exists but cannot spawn".to_string()))
        } else {
            Ok(name.to_string())
        }
    })
    .unwrap_err();
    assert!(err.to_string().contains("exists but cannot spawn"));
}

#[test]
fn missing_hint_names_a_helper() {
    let perl = with_programs(vec!["perl"]);
    assert_eq!(missing_hint(&perl, "cpanm"), "cpanm is not installed");
    assert_eq!(missing_hint(&perl, "perl"), "Install the test toolchain from somewhere.");
}

#[test]
fn all_missing_is_none() {
    let spec = with_programs(vec!["dream-no-such-a-7f3a", "dream-no-such-b-7f3a"]);
    assert!(launch(&spec, "dream-no-such-a-7f3a", |_: &str| Err::<(), _>(SpawnError::NotFound))
        .unwrap()
        .is_none());
}

#[test]
fn catalog_target_is_the_row() {
    assert_eq!(from_store_or_catalog("cargo", "", false).unwrap().as_str(), "cargo");
}

#[test]
fn store_reuses_a_catalog_row_for_a_hint() {
    assert_eq!(from_store_or_catalog("rust", "cargo", false).unwrap().as_str(), "cargo");
}

#[test]
fn matching_non_row_store_is_unsupported() {
    assert_eq!(from_store_or_catalog("cobol", "cobol", false), Some(Toolchain::Unsupported));
}

#[test]
fn unknown_target_needs_the_model() {
    assert!(from_store_or_catalog("cobol", "", false).is_none());
    assert!(from_store_or_catalog("cobol", "cobol", true).is_none());
}

#[test]
fn a_turn_must_declare_the_toolchain() {
    let err = declared_toolchain(0, None).unwrap_err();
    assert_eq!(err.to_string(), "ComposerError: toolchain was not declared; call set_toolchain");
    assert!(declared_toolchain(1, None).is_err());
    assert_eq!(declared_toolchain(1, Some(Toolchain::Unsupported)).unwrap(), Toolchain::Unsupported);
}

fn finish(action: Action) -> Outcome {
    match action {
        Action::Finish(o) => o,
        Action::Exec { stage, .. } => panic!("expected the end, got {}", stage.name()),
    }
}

fn exec(action: Action) -> (Stage, Vec<String>) {
    match action {
        Action::Exec { stage, argv } => (stage, argv),
        Action::Finish(o) => panic!("expected a step, got {o:?}"),
    }
}

#[test]
fn unsupported_does_not_run() {
    let err = finish(after_compose(Some(Toolchain::Unsupported), "demo.foo", false, None).unwrap())
        .into_error()
        .unwrap_err();
    assert!(err.to_string().contains("does not know how to build"));
    let err = finish(after_compose(None, "demo.foo", true, None).unwrap())
        .into_error()
        .unwrap_err();
    assert!(err.to_string().contains("does not know how to build"));
}

#[test]
fn python_run_is_the_entry_script() {
    let python = Toolchain::parse("python").unwrap();
    assert_eq!(python.spec().unwrap().run_argv("my"), vec!["python".to_string(), "my.py".to_string()]);
    let (stage, _) = exec(after_compose(Some(python), "my.foo", true, None).unwrap());
    assert_eq!(stage, Stage::Configure);
    let (stage, _) = exec(after_compose(Some(python), "my.foo", true, Some((Stage::Configure, Outcome::Succeeded))).unwrap());
    assert_eq!(stage, Stage::Build);
    let (stage, argv) = exec(after_compose(Some(python), "my.foo", true, Some((Stage::Build, Outcome::Succeeded))).unwrap());
    assert_eq!(stage, Stage::Run);
    assert_eq!(argv, vec!["python".to_string(), "my.py".to_string()]);
    finish(after_compose(Some(python), "my.foo", false, Some((Stage::Build, Outcome::Succeeded))).unwrap())
        .into_error()
        .unwrap();
}

#[test]
fn missing_configure_helper_is_skipped() {
    let spec = ToolchainSpec {
        configure: vec!["dream-no-such-bundle-7f3a", "install"],
        programs: vec!["true"],
        ..test_row(vec![], Run::Argv(vec!["true"]))
    };
    let missing = Outcome::MissingToolchain(missing_hint(&spec, "dream-no-such-bundle-7f3a"));
    let (stage, _) = exec(invoke_step(&spec, "demo.foo", true, Some((Stage::Configure, missing))).unwrap());
    assert_eq!(stage, Stage::Build);
}

#[test]
fn missing_configure_language_is_not_skipped() {
    let spec = ToolchainSpec {
        configure: vec!["dream-no-such-ruby-7f3a"],
        programs: vec!["dream-no-such-ruby-7f3a"],
        ..test_row(vec![], Run::Argv(vec!["true"]))
    };
    let missing = Outcome::MissingToolchain(missing_hint(&spec, "dream-no-such-ruby-7f3a"));
    match finish(invoke_step(&spec, "demo.foo", false, Some((Stage::Configure, missing))).unwrap()) {
        Outcome::MissingToolchain(hint) => assert!(hint.contains("Install the test toolchain")),
        other => panic!("expected missing toolchain, got {other:?}"),
    }
}

#[test]
fn missing_build_helper_is_not_skipped() {
    let spec = ToolchainSpec { programs: vec!["true"], ..test_row(vec!["dream-no-such-shards-7f3a"], Run::Argv(vec!["true"])) };
    let missing = Outcome::MissingToolchain(missing_hint(&spec, "dream-no-such-shards-7f3a"));
    match finish(invoke_step(&spec, "demo.foo", false, Some((Stage::Build, missing))).unwrap()) {
        Outcome::MissingToolchain(hint) => assert_eq!(hint, "dream-no-such-shards-7f3a is not installed"),
        other => panic!("expected missing toolchain, got {other:?}"),
    }
}

#[test]
fn empty_build_is_skipped() {
    let spec = test_row(vec![], Run::Argv(vec!["true"]));
    let (stage, argv) = exec(invoke_step(&spec, "demo.foo", false, Some((Stage::Configure, Outcome::Succeeded))).unwrap());
    assert_eq!(stage, Stage::Build);
    assert!(argv.is_empty());
    assert!(matches!(
        finish(invoke_step(&spec, "demo.foo", false, Some((Stage::Build, Outcome::Succeeded))).unwrap()),
        Outcome::Succeeded
    ));
}

#[test]
fn failed_step_is_an_error() {
    let spec = test_row(vec!["false"], Run::Argv(vec!["true"]));
    let failed = judge_step("build", false, false, String::new());
    match finish(invoke_step(&spec, "demo.foo", false, Some((Stage::Build, failed))).unwrap()) {
        Outcome::Failed { step, .. } => assert_eq!(step, "build"),
        other => panic!("expected build failure, got {other:?}"),
    }
    let err = judge_step("build", false, false, String::new()).into_error().unwrap_err();
    assert!(err.to_string().contains("build failed"));
}

#[test]
fn run_failure_is_not_a_build_failure() {
    let spec = test_row(vec![], Run::Argv(vec!["false"]));
    let failed = judge_step("run", false, false, String::new());
    match finish(invoke_step(&spec, "demo.foo", true, Some((Stage::Run, failed))).unwrap()) {
        Outcome::Failed { step, .. } => assert_eq!(step, "run"),
        other => panic!("expected run failure, got {other:?}"),
    }
}

#[test]
fn no_warn_treats_warnings_as_a_failed_build() {
    let text = diagnostics("warning: unused\n", "");
    assert!(matches!(judge_step("build", true, false, text.clone()), Outcome::Succeeded));
    match judge_step("build", true, true, text) {
        Outcome::Failed { step, diagnostics } => {
            assert_eq!(step, "build");
            assert!(diagnostics.to_ascii_lowercase().contains("warning:"));
        }
        other => panic!("expected warning failure, got {other:?}"),
    }
}

use dream::toolchain_resolver::set_toolchain;

#[test]
fn second_call_is_refused() {
    let mut toolchain = None;
    set_toolchain(&mut toolchain, "python").unwrap();
    let err = set_toolchain(&mut toolchain, "cargo").unwrap_err();
    assert!(err.to_string().contains("already declared"));
    assert_eq!(toolchain.unwrap().as_str(), "python");
}

#[test]
fn toolchain_rejects_unknown() {
    let mut toolchain = None;
    let err = set_toolchain(&mut toolchain, "rust").unwrap_err();
    assert!(err.to_string().contains("unknown toolchain `rust`"));
    assert_eq!(toolchain, None);
}
