use soroban_playground::admission::{Acquire, PermitPool};
use soroban_playground::files::FileSet;
use soroban_playground::jobs::plan_job;
use soroban_playground::manifest::rename_package;
use soroban_playground::models::{CompileRequest, FriendbotError, FriendbotQuery, RequestError, friendbot_target};
use soroban_playground::pipeline::{terminal_chunk, JobKind, Outcome, Relay, RelayAction, RelayEvent};
use soroban_playground::sandbox::execution_result;
use soroban_playground::workspace::{stage_plan, StageError};

const SOURCE: &str = "#![no_std]\nuse soroban_sdk::{contract, contractimpl, Env};\n\n#[contract]\npub struct HelloContract;\n\n#[contractimpl]\nimpl HelloContract {\n    pub fn add(_env: Env, a: i32, b: i32) -> i32 { a + b }\n}\n";

fn set(pairs: &[(&str, &str)]) -> FileSet {
    let mut f = FileSet::new();
    for (n, c) in pairs {
        f.insert(n.to_string(), c.to_string());
    }
    f
}

#[test]
fn pool_of_two_admits_two_and_queues_the_third() {
    let mut pool = PermitPool::new(2);
    assert_eq!(pool.acquire(1), Acquire::Granted);
    assert_eq!(pool.acquire(2), Acquire::Granted);
    assert_eq!(pool.acquire(3), Acquire::Queued);
    assert_eq!(pool.held(), 2);
    assert_eq!(pool.waiting(), 1);
    assert_eq!(pool.release(), Some(3));
    assert_eq!(pool.held(), 2);
    assert_eq!(pool.release(), None);
    assert_eq!(pool.held(), 1);
    let turned_away = pool.close();
    assert!(turned_away.is_empty());
    assert_eq!(pool.acquire(4), Acquire::Closed);
    assert_eq!(pool.held(), 1);
}

#[test]
fn closing_turns_waiters_away() {
    let mut pool = PermitPool::new(1);
    assert_eq!(pool.acquire(7), Acquire::Granted);
    assert_eq!(pool.acquire(8), Acquire::Queued);
    assert_eq!(pool.acquire(9), Acquire::Queued);
    assert_eq!(pool.close(), vec![8, 9]);
    assert!(pool.is_closed());
    assert_eq!(pool.acquire(10), Acquire::Closed);
    assert_eq!(pool.release(), None);
    assert_eq!(pool.held(), 0);
}

#[test]
fn source_alone_builds_with_default_manifest_and_framed_artifact() {
    let plan = match plan_job(JobKind::Build, SOURCE, None, "", "") {
        Ok(p) => p,
        Err(e) => panic!("{}", e.message()),
    };
    assert_eq!(plan.staged.len(), 2);
    assert_eq!(plan.staged[0].0, "Cargo.toml");
    assert!(plan.staged[0].1.starts_with("[package]\nname = \"hello_contract\"\n"));
    assert!(plan.staged[0].1.contains("crate-type = [\"cdylib\"]"));
    assert_eq!(plan.staged[1], ("src/lib.rs".to_string(), SOURCE.to_string()));
    let prefix = &plan.digest[..12];
    assert_eq!(plan.output_file, format!("hello_contract-{}.wasm", prefix));
    assert!(plan.command.ends_with(&format!("/host-tmp/hello_contract-{}.wasm", prefix)));
    let mut relay = Relay::new(JobKind::Build);
    assert!(matches!(relay.step(RelayEvent::Tick), RelayAction::Heartbeat));
    let artifact = b"\0asm".to_vec();
    match relay.step(RelayEvent::Finished(Outcome::Artifact(artifact))) {
        RelayAction::Emit(c) => assert_eq!(c, b"<<<WASM_BASE64_START>>>\nAGFzbQ==\n<<<WASM_BASE64_END>>>\n".to_vec()),
        _ => panic!("expected the terminal chunk"),
    }
}

#[test]
fn files_without_manifest_are_refused_before_anything_runs() {
    let files = set(&[("lib.rs", SOURCE), ("README.md", "hi")]);
    match plan_job(JobKind::Build, SOURCE, Some(&files), "", "") {
        Err(StageError::MissingManifest) => {}
        _ => panic!("expected a missing manifest"),
    }
    assert_eq!(StageError::MissingManifest.message(), "Cargo.toml file is required but not provided");
}

#[test]
fn denied_source_is_refused_and_its_permit_returned() {
    let mut pool = PermitPool::new(1);
    assert_eq!(pool.acquire(1), Acquire::Granted);
    let src = "fn f() { std::process::Command::new(\"sh\"); }";
    match plan_job(JobKind::Test, src, None, "", "") {
        Err(StageError::UnsafeSource) => {}
        _ => panic!("expected an unsafe source"),
    }
    assert_eq!(pool.release(), None);
    assert_eq!(pool.held(), 0);
    assert_eq!(pool.acquire(2), Acquire::Granted);
}

#[test]
fn second_job_waits_for_the_first_to_finish() {
    let a = set(&[("Cargo.toml", "[package]\nname = \"a\"\n"), ("lib.rs", "pub fn a() {}")]);
    let b = set(&[("Cargo.toml", "[package]\nname = \"b\"\n"), ("lib.rs", "pub fn b() {}")]);
    let pa = plan_job(JobKind::Build, "pub fn a() {}", Some(&a), "", "").ok().unwrap();
    let pb = plan_job(JobKind::Build, "pub fn b() {}", Some(&b), "", "").ok().unwrap();
    assert_ne!(pa.digest, pb.digest);
    assert_ne!(pa.target_dir, pb.target_dir);
    let mut pool = PermitPool::new(1);
    assert_eq!(pool.acquire(1), Acquire::Granted);
    assert_eq!(pool.acquire(2), Acquire::Queued);
    let mut relay = Relay::new(JobKind::Build);
    match relay.step(RelayEvent::Finished(Outcome::ToolFailure(b"e".to_vec()))) {
        RelayAction::Emit(_) => {}
        _ => panic!("expected the terminal chunk"),
    }
    assert_eq!(pool.release(), Some(2));
    assert_eq!(pool.held(), 1);
}

#[test]
fn supplied_files_are_placed_and_manifest_renamed() {
    let files = set(&[
        ("Cargo.toml", "[package]\nname = \"whatever\"\nversion = \"0.1.0\"\n"),
        ("lib.rs", SOURCE),
        ("test.rs", "mod t {}"),
        ("README.md", "# hi"),
        ("notes.txt", "n"),
    ]);
    let plan = stage_plan(SOURCE, Some(&files)).ok().unwrap();
    let paths: Vec<&str> = plan.iter().map(|(p, _)| p.as_str()).collect();
    assert_eq!(paths, vec!["Cargo.toml", "src/lib.rs", "README.md", "lib.rs", "notes.txt", "src/test.rs"]);
    assert_eq!(plan[0].1, "[package]\nname = \"hello_contract\"\nversion = \"0.1.0\"\n");
}

#[test]
fn supplied_manifest_falls_back_to_the_default_name() {
    let files = set(&[("Cargo.toml", "[package]\nname = \"mine\"\n")]);
    let plan = stage_plan("pub fn f() {}", Some(&files)).ok().unwrap();
    assert_eq!(plan[0].1, "[package]\nname = \"project\"\n");
}

#[test]
fn staging_reports_the_offending_file() {
    let bad_name = set(&[("Cargo.toml", "[package]"), ("../evil.rs", "x")]);
    match stage_plan("fn f() {}", Some(&bad_name)) {
        Err(StageError::InvalidFilename(n)) => assert_eq!(n, "../evil.rs"),
        _ => panic!("expected an invalid file name"),
    }
    let bad_content = set(&[("Cargo.toml", "[package]"), ("x.rs", "unsafe { }")]);
    match stage_plan("fn f() {}", Some(&bad_content)) {
        Err(e) => assert_eq!(e.message(), "Unsafe content detected in file: x.rs"),
        _ => panic!("expected unsafe content"),
    }
    let bad_manifest = set(&[("Cargo.toml", "build = \"/bin/sh\"")]);
    assert!(matches!(stage_plan("fn f() {}", Some(&bad_manifest)), Err(StageError::UnsafeManifest)));
}

#[test]
fn rename_replaces_only_the_first_name_line() {
    assert_eq!(rename_package("[package]\nname = \"old\"\n[lib]\nname = \"keep\"\n", "new"), "[package]\nname = \"new\"\n[lib]\nname = \"keep\"\n");
    assert_eq!(rename_package("[package]\nname\t= 'x'", "y"), "[package]\nname = \"y\"");
    assert_eq!(rename_package("[package]\nversion = \"1\"\n", "y"), "[package]\nversion = \"1\"\n");
    assert_eq!(rename_package("[lib]\nname = \"l\"\n[package]\nname = \"p\"\n", "y"), "[lib]\nname = \"l\"\n[package]\nname = \"y\"\n");
    assert_eq!(rename_package("name = \"top\"\n[package]\nversion = \"1\"\n", "y"), "name = \"top\"\n[package]\nversion = \"1\"\n");
    assert_eq!(rename_package("[dependencies]\nname = \"d\"\n", "y"), "[dependencies]\nname = \"d\"\n");
    assert_eq!(rename_package("  name = \"indented\"", "y"), "  name = \"indented\"");
}

#[test]
fn primary_source_comes_from_code_or_lib_file() {
    let with_code = CompileRequest { code: Some("c".to_string()), files: None };
    assert_eq!(with_code.primary_source().ok(), Some("c".to_string()));
    let with_lib = CompileRequest { code: None, files: Some(set(&[("lib.rs", "l")])) };
    assert_eq!(with_lib.primary_source().ok(), Some("l".to_string()));
    let without_lib = CompileRequest { code: None, files: Some(set(&[("a.rs", "l")])) };
    assert!(matches!(without_lib.primary_source(), Err(RequestError::NoLibFile)));
    let empty = CompileRequest { code: None, files: None };
    assert!(matches!(empty.primary_source(), Err(RequestError::NoInput)));
    assert_eq!(RequestError::NoInput.message(), "No code or files provided");
}

#[test]
fn friendbot_accepts_only_local_http() {
    assert!(matches!(friendbot_target("http", Some("localhost"), "/"), Ok(true)));
    assert!(matches!(friendbot_target("https", Some("127.0.0.1"), "/friendbot"), Ok(false)));
    assert!(matches!(friendbot_target("http", Some("LocalHost"), "/x"), Ok(false)));
    assert!(matches!(friendbot_target("http", Some("[::1]"), "/"), Ok(true)));
    assert!(matches!(friendbot_target("http", Some("[::2]"), "/"), Err(FriendbotError::HostNotAllowed)));
    match friendbot_target("ftp", Some("localhost"), "/") {
        Err(e) => assert_eq!(e.message(), "Unsupported friendbot URL scheme: ftp"),
        _ => panic!("expected a refused scheme"),
    }
    assert!(matches!(friendbot_target("http", None, "/"), Err(FriendbotError::MissingHost)));
    assert!(matches!(friendbot_target("http", Some("example.com"), "/"), Err(FriendbotError::HostNotAllowed)));
    let q = FriendbotQuery { addr: "  GABC  ".to_string(), friendbot_url: Some("   ".to_string()) };
    assert_eq!(q.url_text(), "http://localhost:8000/friendbot");
    assert_eq!(q.account().as_deref(), Some("GABC"));
    let q2 = FriendbotQuery { addr: " ".to_string(), friendbot_url: Some(" http://127.0.0.1:9/ ".to_string()) };
    assert_eq!(q2.url_text(), "http://127.0.0.1:9/");
    assert_eq!(q2.account(), None);
}

#[test]
fn tool_failure_reaches_the_client_as_error_block() {
    let r = execution_result(false, b"warning".to_vec(), &b"error".to_vec());
    let chunk = match r {
        Ok(out) => terminal_chunk(JobKind::Build, Outcome::Output(out)),
        Err(e) => terminal_chunk(JobKind::Build, Outcome::ToolFailure(e)),
    };
    assert_eq!(chunk, b"Build Errors: \nwarning\nerror\n".to_vec());
}
