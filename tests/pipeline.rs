use soroban_playground::pipeline::{
    base64_encode, heartbeat_chunk, terminal_chunk, JobKind, Outcome, Relay, RelayAction, RelayEvent,
};
use soroban_playground::sandbox::{
    combine_output, command_line, container_name, execution_result, interface_command, output_paths, sandbox_args,
    BUILD_COMMAND,
};
use soroban_playground::workspace::StageError;

#[test]
fn base64_known_vectors() {
    let cases = [("", ""), ("f", "Zg=="), ("fo", "Zm8="), ("foo", "Zm9v"), ("foob", "Zm9vYg=="), ("fooba", "Zm9vYmE="), ("foobar", "Zm9vYmFy")];
    for (input, expected) in cases {
        assert_eq!(base64_encode(input.as_bytes()), expected.as_bytes(), "{}", input);
    }
    assert_eq!(base64_encode(&[0xff, 0xfe, 0x3e, 0x3f]), b"//4+Pw==".to_vec());
}

#[test]
fn artifact_is_framed_between_sentinels() {
    let chunk = terminal_chunk(JobKind::Build, Outcome::Artifact(vec![0, 1, 2]));
    assert_eq!(chunk, b"<<<WASM_BASE64_START>>>\nAAEC\n<<<WASM_BASE64_END>>>\n".to_vec());
}

#[test]
fn failures_are_headed_by_kind() {
    assert_eq!(terminal_chunk(JobKind::Build, Outcome::ToolFailure(b"error[E0425]".to_vec())), b"Build Errors: \nerror[E0425]\n".to_vec());
    assert_eq!(terminal_chunk(JobKind::Test, Outcome::ToolFailure(b"1 failed".to_vec())), b"Test Errors: \n1 failed\n".to_vec());
    assert_eq!(terminal_chunk(JobKind::Interface, Outcome::Fault("no docker".to_string())), b"Interface Errors: \nno docker\n".to_vec());
    assert_eq!(terminal_chunk(JobKind::Build, Outcome::Rejected(StageError::MissingManifest)), b"Build Errors: \nCargo.toml file is required but not provided\n".to_vec());
    assert_eq!(terminal_chunk(JobKind::Build, Outcome::ArtifactUnreadable("gone".to_string())), b"Compile Error: gone\n".to_vec());
    assert_eq!(terminal_chunk(JobKind::Test, Outcome::TimedOut), b"Timeout Error: \njob exceeded its deadline\n".to_vec());
    assert_ne!(terminal_chunk(JobKind::Build, Outcome::TimedOut), terminal_chunk(JobKind::Build, Outcome::ToolFailure(b"job exceeded its deadline".to_vec())));
    assert_eq!(terminal_chunk(JobKind::Test, Outcome::Output(b"ok".to_vec())), b"ok".to_vec());
}

#[test]
fn relay_sends_heartbeats_then_one_terminal_chunk() {
    let mut r = Relay::new(JobKind::Test);
    assert!(matches!(r.step(RelayEvent::Tick), RelayAction::Heartbeat));
    assert!(matches!(r.step(RelayEvent::Tick), RelayAction::Heartbeat));
    assert!(!r.is_finished());
    match r.step(RelayEvent::Finished(Outcome::Output(b"done".to_vec()))) {
        RelayAction::Emit(c) => assert_eq!(c, b"done".to_vec()),
        _ => panic!("expected the terminal chunk"),
    }
    assert!(r.is_finished());
    assert!(matches!(r.step(RelayEvent::Tick), RelayAction::Stop));
    assert!(matches!(r.step(RelayEvent::Finished(Outcome::TimedOut)), RelayAction::Stop));
    assert_eq!(heartbeat_chunk(), b" ".to_vec());
}

#[test]
fn relay_stops_when_client_leaves() {
    let mut r = Relay::new(JobKind::Build);
    assert!(matches!(r.step(RelayEvent::Tick), RelayAction::Heartbeat));
    assert!(matches!(r.step(RelayEvent::SendFailed), RelayAction::Stop));
    assert!(matches!(r.step(RelayEvent::Finished(Outcome::Artifact(vec![1]))), RelayAction::Stop));
}

#[test]
fn combined_output_separates_streams() {
    assert_eq!(combine_output(&b"out".to_vec(), &b"err".to_vec()), b"out\nerr".to_vec());
    assert_eq!(combine_output(&b"out".to_vec(), &vec![]), b"out".to_vec());
    assert_eq!(combine_output(&vec![], &b"err".to_vec()), b"err".to_vec());
    assert_eq!(combine_output(&vec![], &vec![]), Vec::<u8>::new());
    assert_eq!(execution_result(true, b"o".to_vec(), &b"e".to_vec()), Ok(b"o".to_vec()));
    assert_eq!(execution_result(false, b"o".to_vec(), &b"e".to_vec()), Err(b"o\ne".to_vec()));
}

#[test]
fn per_job_paths_carry_the_digest_prefix() {
    let p = output_paths("my_contract", Some("0123456789abcdef"));
    assert_eq!(p.target_dir, "/mnt/cargo/target-0123456789ab");
    assert_eq!(p.output_file, "my_contract-0123456789ab.wasm");
    let q = output_paths("project", None);
    assert_eq!(q.target_dir, "/mnt/cargo/target");
    assert_eq!(q.output_file, "project.wasm");
}

#[test]
fn build_command_copies_the_artifact_out() {
    let p = output_paths("hello", Some("abcdef0123456789"));
    assert_eq!(
        command_line(BUILD_COMMAND, true, "hello", &p),
        "set -ex; cd /workspace/project && cargo build --release --target wasm32-unknown-unknown && cp /mnt/cargo/target-abcdef012345/wasm32-unknown-unknown/release/hello.wasm /host-tmp/hello-abcdef012345.wasm"
    );
    assert_eq!(command_line("cargo test", false, "hello", &p), "cd /workspace/project && cargo test");
}

#[test]
fn container_arguments_cap_resources() {
    let args = sandbox_args("/tmp/job", "/mnt/cargo/target-x", "cargo test", "sandbox-x");
    let expected = [
        "run", "--rm", "--name", "sandbox-x", "--memory=2G", "--cpus=2", "-v", "/tmp/job:/workspace", "-v",
        "cargo-cache:/mnt/cargo", "-v", "/tmp:/host-tmp", "-e", "CARGO_HOME=/mnt/cargo", "-e",
        "CARGO_TARGET_DIR=/mnt/cargo/target-x", "wasm_sandbox:latest", "bash", "-c", "cargo test",
    ];
    assert_eq!(args, expected.iter().map(|s| s.to_string()).collect::<Vec<_>>());
}

#[test]
fn container_is_named_after_the_digest() {
    assert_eq!(container_name("0123456789abcdef"), "sandbox-0123456789ab");
}

#[test]
fn interface_command_keeps_alphanumerics_only() {
    assert_eq!(
        interface_command("test;rm -rf /", "CA$B(C)1"),
        "stellar contract info interface --network testrmrf --contract-id CABC1"
    );
}
