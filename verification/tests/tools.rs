use dream::tools::listing::{files_reply, read_reply};
use dream::tools::control::abort;
use dream::tools::ctx::require_lucid;
use dream::error::DreamError;
use dream::provenance::job::JobArtifacts;
use dream::provenance::ownership::Entry;
use dream::provenance::store::Store;
use dream::source::graph::DepGraph;
use dream::source::project::{Project, Unit};
use dream::toolchain::Toolchain;
use dream::tools::composer::{authorize, check_remove, check_write, claim_unit, decide_output, dest_rel, only_while_composing, record_remove, record_write, Removed};
use dream::tools::ctx::{Compose, Mode, ToolCtx};
use dream::tools::family::Family;
use dream::tools::reply::{done, refused, warning};
use dream::trace::{parse, trim, user_block};
use dream::utils::times_three_plus_two;

#[test]
fn parse_is_opt_in() {
    assert!(!parse(&None));
    assert!(!parse(&Some(String::new())));
    assert!(!parse(&Some("0".into())));
    assert!(!parse(&Some("false".into())));
    assert!(parse(&Some("1".into())));
    assert!(parse(&Some("YES".into())));
    assert!(parse(&Some(" true ".into())));
}

#[test]
fn trim_drops_white_space_at_both_ends() {
    assert_eq!(trim("  a b \n"), "a b");
    assert_eq!(trim(" \t "), "");
    assert_eq!(trim("x"), "x");
}

#[test]
fn user_block_frames_the_card() {
    assert_eq!(user_block("Target toolchain: cargo"), "=== user ===\nTarget toolchain: cargo\n\n");
}

#[test]
fn warning_is_ok_false_with_the_message() {
    assert_eq!(warning("`utils.foo` is locked"), r#"{"ok":false,"warning":"`utils.foo` is locked"}"#);
    assert_eq!(warning("say \"hi\""), r#"{"ok":false,"warning":"say \"hi\""}"#);
    assert_eq!(refused(DreamError::composer("`a.foo` is locked")), r#"{"ok":false,"warning":"`a.foo` is locked"}"#);
    assert_eq!(done("src/main.rs"), r#"{"ok":true,"path":"src/main.rs"}"#);
}

#[test]
fn families_in_order() {
    let names: Vec<&str> = Family::order().iter().map(|f| f.name()).collect();
    assert_eq!(names, ["Foo", "Runtime", "Composer", "Project", "Control"]);
}

#[test]
fn times_three_plus_two_of_integers() {
    assert_eq!(times_three_plus_two(5_i32), 17);
    assert_eq!(times_three_plus_two(10_i32), 32);
    assert_eq!(times_three_plus_two(-2_i32), -4);
}

fn project() -> Project {
    Project::from_entry("/src/main.foo", Some("/src/main.foo"), "entry".into()).unwrap().0
}

#[test]
fn dest_rel_stays_in_dest() {
    assert_eq!(dest_rel("/out", "src/main.rs").unwrap(), "src/main.rs");
    assert!(dest_rel("/out", "../x").unwrap_err().to_string().contains("dest write escapes -o"));
    assert!(!dest_rel("/out", "../x").unwrap_err().to_string().contains("output write"));
}

#[test]
fn dest_tools_need_a_composition() {
    let project = project();
    let mut deps = DepGraph::new("main.foo");
    let ctx = ToolCtx::lucid(&project, &mut deps);
    assert!(matches!(ctx.mode, Mode::Lucid));
    let err = only_while_composing(&ctx, "write_file").unwrap_err();
    assert_eq!(err.to_string(), "ComposerError: write_file is only available while composing");

    let store = Store::new("cargo");
    let mut job = JobArtifacts::new();
    let mut deps = DepGraph::new("main.foo");
    let ctx = ToolCtx::compose(
        &project,
        &mut deps,
        Compose { dest: "/out", store: &store, artifacts: &mut job, toolchain: Toolchain::parse("cargo").ok() },
    );
    only_while_composing(&ctx, "write_file").unwrap();
}

fn unit(rel: &str) -> Result<Unit, DreamError> {
    Ok(Unit { rel: rel.to_string(), source: String::new() })
}

#[test]
fn a_write_is_claimed_by_a_read_unit() {
    let mut deps = DepGraph::new("main.foo");
    let mut store = Store::new("cargo");
    assert_eq!(authorize(&deps, Some(&store), unit("main.foo")).unwrap(), "main.foo");
    let err = authorize(&deps, Some(&store), unit("a.foo")).unwrap_err();
    assert_eq!(err.to_string(), "ComposerError: read `a.foo` first");
    deps.record_read("a.foo").unwrap();
    assert_eq!(authorize(&deps, Some(&store), unit("a.foo")).unwrap(), "a.foo");
    store.set_artifacts("a.foo", vec!["a.rs".to_string()]);
    store.set_lock("a.foo", "h".into());
    let err = authorize(&deps, Some(&store), unit("a.foo")).unwrap_err();
    assert_eq!(err.to_string(), "ComposerError: `a.foo` is locked");

    assert_eq!(claim_unit(&deps, Some(&store), true, true, "write_file", None).unwrap(), None);
    assert_eq!(
        claim_unit(&deps, Some(&store), true, false, "write_file", None).unwrap_err(),
        r#"{"ok":false,"warning":"write_file requires a `.foo` file"}"#
    );
    assert_eq!(
        claim_unit(&deps, Some(&store), true, false, "write_file", Some(unit("main.foo"))).unwrap(),
        Some("main.foo".to_string())
    );
    assert_eq!(claim_unit(&deps, None, false, false, "write_file", None).unwrap(), None);
}

#[test]
fn writes_and_removals_are_recorded() {
    let store = Store::new("cargo");
    let cargo = Toolchain::parse("cargo").unwrap().spec().unwrap();
    let mut job = JobArtifacts::new();
    assert!(check_write(&store, Entry::Missing, "src/main.rs", Some("main.foo"), Some(&job), Some(&cargo)).is_none());
    let refusal = check_write(&store, Entry::File, "README.md", Some("main.foo"), Some(&job), Some(&cargo)).unwrap();
    assert_eq!(refusal, r#"{"ok":false,"warning":"dest `README.md` is user-owned"}"#);
    assert_eq!(record_write(&mut job, Some("main.foo"), "src/main.rs"), r#"{"ok":true,"path":"src/main.rs"}"#);
    assert_eq!(job.get("main.foo").unwrap(), &vec!["src/main.rs".to_string()]);
    assert!(check_write(&store, Entry::File, "src/main.rs", Some("main.foo"), Some(&job), Some(&cargo)).is_none());
    assert!(check_remove(&store, "src/main.rs", Some("main.foo"), Some(&job), Some(&cargo)).is_none());
    let other = check_remove(&store, "src/main.rs", Some("b.foo"), Some(&job), Some(&cargo)).unwrap();
    assert!(other.contains("user-owned"));
    let reply = record_remove(&mut job, Some("main.foo"), Removed::Done("src/main.rs".into()));
    assert_eq!(reply, r#"{"ok":true,"path":"src/main.rs"}"#);
    assert!(!job.any_written());
    assert_eq!(
        record_remove(&mut JobArtifacts::new(), None, Removed::Missing("x.rs".into())),
        r#"{"ok":false,"warning":"dest file `x.rs` does not exist"}"#
    );
    assert_eq!(
        record_remove(&mut JobArtifacts::new(), None, Removed::Directory("src".into())),
        r#"{"ok":false,"warning":"dest path `src` is a directory"}"#
    );
}

use dream::tools::http::{check_scheme, failure, plan_request, response_reply};

fn no_headers() -> Vec<(String, String)> {
    Vec::new()
}

#[test]
fn rejects_non_http_urls() {
    let err = plan_request("GET", "file:///etc/passwd", None, &no_headers()).unwrap_err();
    assert!(err.to_string().contains("http or https"));
}

#[test]
fn request_needs_a_url_valid_headers_and_a_method() {
    assert_eq!(plan_request("GET", "", None, &no_headers()).unwrap_err().to_string(), "RuntimeError: url is empty");
    assert!(plan_request("GET", "not a url", None, &no_headers()).is_err());
    let bad_name = vec![("bad name".to_string(), "x".to_string())];
    assert_eq!(
        plan_request("GET", "http://127.0.0.1/", None, &bad_name).unwrap_err().to_string(),
        "RuntimeError: invalid header name `bad name`"
    );
    let bad_value = vec![("X-Test".to_string(), "a\nb".to_string())];
    assert_eq!(
        plan_request("GET", "http://127.0.0.1/", None, &bad_value).unwrap_err().to_string(),
        "RuntimeError: invalid header value for `x-test`"
    );
    assert_eq!(
        plan_request("GE T", "http://127.0.0.1/", None, &no_headers()).unwrap_err().to_string(),
        "RuntimeError: unknown method `GE T`"
    );
    let ok = vec![("Accept".to_string(), "text/plain".to_string())];
    let plan = plan_request("POST", "https://example.com/x", Some("hi"), &ok).unwrap();
    assert_eq!(plan.method, "POST");
    assert_eq!(plan.body.as_deref(), Some("hi"));
    assert_eq!(plan.headers, vec![("accept".to_string(), "text/plain".to_string())]);
}

#[test]
fn get_returns_status_and_body() {
    let headers = vec![("content-length".to_string(), "2".to_string())];
    assert_eq!(
        response_reply(200, &headers, b"ok".to_vec()),
        r#"{"body":"ok","headers":[{"name":"content-length","value":"2"}],"ok":true,"status":200}"#
    );
    assert_eq!(response_reply(404, &no_headers(), Vec::new()), r#"{"body":"","headers":[],"ok":true,"status":404}"#);
}

#[test]
fn unusable_bodies_are_failures() {
    assert_eq!(response_reply(200, &no_headers(), vec![0xff, 0xfe]), r#"{"error":"response is not UTF-8","ok":false}"#);
    assert_eq!(response_reply(200, &no_headers(), vec![b'a'; 1_000_001]), r#"{"error":"response body is too large","ok":false}"#);
    assert_eq!(failure("timed out"), r#"{"error":"timed out","ok":false}"#);
}

#[test]
fn data_files_are_for_interpreting() {
    assert!(require_lucid(&Mode::Lucid).is_ok());
    let mut toolchain = None;
    let project = project();
    let mut deps = DepGraph::new("main.foo");
    let ctx = ToolCtx::resolve(&project, &mut deps, &mut toolchain);
    let err = require_lucid(&ctx.mode).unwrap_err();
    assert_eq!(err.to_string(), "RuntimeError: data files are only available when interpreting");
}

#[test]
fn compose_abort_is_a_composer_error() {
    let project = project();
    let mut deps = DepGraph::new("main.foo");
    let store = Store::new("cargo");
    let mut artifacts = JobArtifacts::new();
    let ctx = ToolCtx::compose(
        &project,
        &mut deps,
        Compose { dest: "/out", store: &store, artifacts: &mut artifacts, toolchain: None },
    );
    let err = abort(&ctx.mode, "nope");
    assert_eq!(err.to_string(), "ComposerError: nope");
    assert_eq!(abort(&Mode::Lucid, "").to_string(), "InterpreterError: unspecified error");
}

#[test]
fn list_foo_interpreter_list_is_paths_only() {
    let files = vec!["main.foo".to_string(), "users/a.foo".to_string()];
    assert_eq!(files_reply(None, &files), r#"{"files":["main.foo","users/a.foo"]}"#);
    assert_eq!(files_reply(None, &Vec::new()), r#"{"files":[]}"#);
}

#[test]
fn list_foo_compose_list_marks_locks() {
    let mut store = Store::new("cargo");
    store.set_artifacts("main.foo", vec!["src/main.rs".to_string()]);
    store.set_lock("main.foo", "h".into());
    let files = vec!["main.foo".to_string(), "utils.foo".to_string()];
    assert_eq!(
        files_reply(Some(&store), &files),
        r#"{"files":[{"locked":true,"path":"main.foo"},{"locked":false,"path":"utils.foo"}]}"#
    );
}

#[test]
fn read_reply_has_path_and_contents() {
    assert_eq!(read_reply("users.json", "[1]"), r#"{"contents":"[1]","path":"users.json"}"#);
}

#[test]
fn rejects_escape() {
    let store = Store::new("cargo");
    let job = JobArtifacts::new();
    let deps = DepGraph::new("main.foo");
    let cargo = Toolchain::parse("cargo").unwrap().spec().unwrap();
    let reply = decide_output("/out", &store, &job, Some(&cargo), &deps, "write_file", "../secret", Entry::Missing, Some(unit("main.foo")), true)
        .err()
        .unwrap();
    assert_eq!(reply, r#"{"ok":false,"warning":"dest write escapes -o"}"#);
}

#[test]
fn a_dest_change_is_decided_in_order() {
    let store = Store::new("cargo");
    let mut job = JobArtifacts::new();
    let deps = DepGraph::new("main.foo");
    let cargo = Toolchain::parse("cargo").unwrap().spec().unwrap();
    let change = decide_output("/out", &store, &job, Some(&cargo), &deps, "write_file", "src/main.rs", Entry::Missing, Some(unit("main.foo")), true)
        .ok()
        .unwrap();
    assert_eq!(change.rel, "src/main.rs");
    assert_eq!(change.unit.as_deref(), Some("main.foo"));
    record_write(&mut job, change.unit.as_deref(), &change.rel);
    let missing = decide_output("/out", &store, &job, Some(&cargo), &deps, "write_file", "src/lib.rs", Entry::Missing, None, true)
        .err()
        .unwrap();
    assert_eq!(missing, r#"{"ok":false,"warning":"write_file requires a `.foo` file"}"#);
    let setup = decide_output("/out", &store, &job, Some(&cargo), &deps, "write_file", "Cargo.toml", Entry::Missing, None, true)
        .ok()
        .unwrap();
    assert_eq!(setup.unit, None);
    let user = decide_output("/out", &store, &job, Some(&cargo), &deps, "remove_file", "README.md", Entry::File, Some(unit("main.foo")), false)
        .err()
        .unwrap();
    assert!(user.contains("user-owned"));
    let removal = decide_output("/out", &store, &job, Some(&cargo), &deps, "remove_file", "src/main.rs", Entry::File, Some(unit("main.foo")), false)
        .ok()
        .unwrap();
    assert_eq!(removal.rel, "src/main.rs");
}

#[test]
fn only_http_and_https_are_sent() {
    check_scheme("http").unwrap();
    check_scheme("https").unwrap();
    assert_eq!(check_scheme("ftp").unwrap_err().to_string(), "RuntimeError: url must be http or https");
    assert!(check_scheme("HTTP").is_err());
}

#[test]
fn repair_schema_has_no_unit() {
    let spec = dream::tools::schema::WriteFile::repair().spec();
    let required = &spec.parameters.required;
    assert!(!required.iter().any(|value| value == "unit"));
    assert!(!spec.parameters.has_property("unit"));
}

#[test]
fn compose_schema_claims_a_unit() {
    let spec = dream::tools::schema::WriteFile::compose().spec();
    assert_eq!(spec.name, "write_file");
    assert_eq!(spec.parameters.required, vec!["unit", "path", "contents"]);
    assert!(spec.parameters.has_property("unit") && spec.parameters.has_property("contents"));
    assert!(spec.parameters.properties[0].description.starts_with("Project-relative path of the `.foo` file"));
}

#[test]
fn warnings_escape_as_json() {
    assert_eq!(
        warning("say \"hi\"\\\n\t\u{1}\u{7f}é"),
        "{\"ok\":false,\"warning\":\"say \\\"hi\\\"\\\\\\n\\t\\u0001\u{7f}é\"}"
    );
    assert_eq!(warning("plain"), r#"{"ok":false,"warning":"plain"}"#);
}

#[test]
fn methods_are_tokens() {
    assert!(plan_request("PURGE", "http://example.com", None, &no_headers()).is_ok());
    assert!(plan_request("M-SEARCH", "http://example.com", None, &no_headers()).is_ok());
    assert!(plan_request("", "http://example.com", None, &no_headers()).is_err());
    assert!(plan_request("GÉT", "http://example.com", None, &no_headers()).is_err());
}
