//! What the isolated build process is given: the per-job cache and output
//! paths, the shell command it runs, the container arguments with their
//! fixed resource caps, and how its captured output is reported.
use vstd::prelude::*;
use vstd::string::StringExecFns;
use crate::identity::{digest_prefix, prefix_of};
use crate::validate::{alphanumeric, is_alphanumeric};

verus! {

/// The tool invocation of a build.
pub const BUILD_COMMAND: &'static str = "cargo build --release --target wasm32-unknown-unknown";

/// The tool invocation of a test run.
pub const TEST_COMMAND: &'static str = "cargo test";

/// Where a job's build writes inside the shared cache volume, and the name
/// under which its artifact is copied out to the host.
pub struct OutputPaths {
    pub target_dir: String,
    pub output_file: String,
}

pub open spec fn target_dir_of(digest: Option<Seq<char>>) -> Seq<char> {
    match digest {
        Some(d) => "/mnt/cargo/target-"@ + prefix_of(d),
        None => "/mnt/cargo/target"@,
    }
}

pub open spec fn output_file_of(artifact: Seq<char>, digest: Option<Seq<char>>) -> Seq<char> {
    match digest {
        Some(d) => artifact + "-"@ + prefix_of(d) + ".wasm"@,
        None => artifact + ".wasm"@,
    }
}

pub open spec fn opt_view(s: Option<&str>) -> Option<Seq<char>> {
    match s {
        Some(d) => Some(d@),
        None => None,
    }
}

/// The paths of a job. With a digest, the cache directory and the output
/// file carry its prefix, so that concurrent jobs never share either;
/// without one they fall back to a single shared path.
pub fn output_paths(artifact: &str, digest: Option<&str>) -> (r: OutputPaths)
    ensures
        r.target_dir@ == target_dir_of(opt_view(digest)),
        r.output_file@ == output_file_of(artifact@, opt_view(digest)),
{
    match digest {
        Some(d) => {
            let p = digest_prefix(d);
            let mut target_dir = String::from_str("/mnt/cargo/target-");
            target_dir.append(p.as_str());
            let mut output_file = String::from_str(artifact);
            output_file.append("-");
            output_file.append(p.as_str());
            output_file.append(".wasm");
            OutputPaths { target_dir, output_file }
        },
        None => {
            let target_dir = String::from_str("/mnt/cargo/target");
            let mut output_file = String::from_str(artifact);
            output_file.append(".wasm");
            OutputPaths { target_dir, output_file }
        },
    }
}

pub open spec fn container_name_of(digest: Seq<char>) -> Seq<char> {
    "sandbox-"@ + prefix_of(digest)
}

/// The name of a job's container, from its digest: with it the container
/// can be killed when the job is abandoned.
pub fn container_name(digest: &str) -> (r: String)
    ensures
        r@ == container_name_of(digest@),
{
    let mut r = String::from_str("sandbox-");
    let p = digest_prefix(digest);
    r.append(p.as_str());
    r
}

/// The shell command run in the container. Every command starts in the
/// staged project; a build also copies its artifact out of the job's
/// cache directory to the host-visible location.
pub open spec fn command_line_of(
    tool: Seq<char>,
    is_build: bool,
    artifact: Seq<char>,
    target_dir: Seq<char>,
    output_file: Seq<char>,
) -> Seq<char> {
    if is_build {
        "set -ex; cd /workspace/project && "@ + tool + " && cp "@ + target_dir
            + "/wasm32-unknown-unknown/release/"@ + artifact + ".wasm /host-tmp/"@ + output_file
    } else {
        "cd /workspace/project && "@ + tool
    }
}

pub fn command_line(tool: &str, is_build: bool, artifact: &str, paths: &OutputPaths) -> (r: String)
    ensures
        r@ == command_line_of(tool@, is_build, artifact@, paths.target_dir@, paths.output_file@),
{
    if is_build {
        let mut r = String::from_str("set -ex; cd /workspace/project && ");
        r.append(tool);
        r.append(" && cp ");
        r.append(paths.target_dir.as_str());
        r.append("/wasm32-unknown-unknown/release/");
        r.append(artifact);
        r.append(".wasm /host-tmp/");
        r.append(paths.output_file.as_str());
        r
    } else {
        let mut r = String::from_str("cd /workspace/project && ");
        r.append(tool);
        r
    }
}

/// The arguments of the container run: named so that it can be killed,
/// removed on exit, capped at 2 GiB of
/// memory and 2 CPUs, with the workspace, the shared cache volume and the
/// host's scratch directory mounted, and the job's cache directory as the
/// build's target directory.
pub open spec fn sandbox_args_of(
    workspace: Seq<char>,
    target_dir: Seq<char>,
    command: Seq<char>,
    container: Seq<char>,
) -> Seq<Seq<char>> {
    seq![
        "run"@, "--rm"@, "--name"@, container, "--memory=2G"@, "--cpus=2"@,
        "-v"@, workspace + ":/workspace"@,
        "-v"@, "cargo-cache:/mnt/cargo"@,
        "-v"@, "/tmp:/host-tmp"@,
        "-e"@, "CARGO_HOME=/mnt/cargo"@,
        "-e"@, "CARGO_TARGET_DIR="@ + target_dir,
        "wasm_sandbox:latest"@, "bash"@, "-c"@, command,
    ]
}

pub open spec fn strings_view(v: Seq<String>) -> Seq<Seq<char>> {
    v.map_values(|s: String| s@)
}

pub fn sandbox_args(workspace: &str, target_dir: &str, command: &str, container: &str) -> (r: Vec<String>)
    ensures
        strings_view(r@) == sandbox_args_of(workspace@, target_dir@, command@, container@),
{
    let mut mount = String::from_str(workspace);
    mount.append(":/workspace");
    let mut target = String::from_str("CARGO_TARGET_DIR=");
    target.append(target_dir);
    let r: Vec<String> = vec![
        String::from_str("run"), String::from_str("--rm"), String::from_str("--name"),
        String::from_str(container), String::from_str("--memory=2G"),
        String::from_str("--cpus=2"),
        String::from_str("-v"), mount,
        String::from_str("-v"), String::from_str("cargo-cache:/mnt/cargo"),
        String::from_str("-v"), String::from_str("/tmp:/host-tmp"),
        String::from_str("-e"), String::from_str("CARGO_HOME=/mnt/cargo"),
        String::from_str("-e"), target,
        String::from_str("wasm_sandbox:latest"), String::from_str("bash"), String::from_str("-c"),
        String::from_str(command),
    ];
    assert(strings_view(r@) =~= sandbox_args_of(workspace@, target_dir@, command@, container@));
    r
}

/// Standard output then standard error, with a newline between them only
/// when both are non-empty.
pub open spec fn combined_of(out: Seq<u8>, err: Seq<u8>) -> Seq<u8> {
    if out.len() > 0 && err.len() > 0 {
        out + seq![10u8] + err
    } else {
        out + err
    }
}

pub fn combine_output(out: &Vec<u8>, err: &Vec<u8>) -> (r: Vec<u8>)
    ensures
        r@ == combined_of(out@, err@),
{
    let mut r: Vec<u8> = Vec::new();
    let mut i: usize = 0;
    while i < out.len()
        invariant
            i <= out@.len(),
            r@ == out@.take(i as int),
        decreases out.len() - i,
    {
        r.push(out[i]);
        i = i + 1;
        assert(r@ =~= out@.take(i as int));
    }
    assert(out@.take(i as int) =~= out@);
    if out.len() > 0 && err.len() > 0 {
        r.push(10u8);
    }
    let ghost r0 = r@;
    let mut j: usize = 0;
    while j < err.len()
        invariant
            j <= err@.len(),
            r@ == r0 + err@.take(j as int),
        decreases err.len() - j,
    {
        r.push(err[j]);
        j = j + 1;
        assert(r@ =~= r0 + err@.take(j as int));
    }
    assert(err@.take(j as int) =~= err@);
    r
}

/// The result of a finished container run: its standard output when it
/// succeeded, else both captured streams as the error payload.
pub fn execution_result(success: bool, out: Vec<u8>, err: &Vec<u8>) -> (r: Result<Vec<u8>, Vec<u8>>)
    ensures
        success ==> r == Ok::<Vec<u8>, Vec<u8>>(out),
        !success ==> (r matches Err(e) && e@ == combined_of(out@, err@)),
{
    if success {
        Ok(out)
    } else {
        Err(combine_output(&out, err))
    }
}

/// The characters of `s` that are alphanumeric, in order.
pub open spec fn alphanumeric_only(s: Seq<char>) -> Seq<char>
    decreases s.len(),
{
    if s.len() == 0 {
        Seq::empty()
    } else if alphanumeric(s.last()) {
        alphanumeric_only(s.drop_last()).push(s.last())
    } else {
        alphanumeric_only(s.drop_last())
    }
}

fn keep_alphanumeric(s: &str) -> (r: String)
    ensures
        r@ == alphanumeric_only(s@),
{
    let cs = crate::text::chars_of(s);
    let mut r = String::new();
    let mut i: usize = 0;
    while i < cs.len()
        invariant
            cs@ == s@,
            i <= cs@.len(),
            r@ == alphanumeric_only(cs@.take(i as int)),
        decreases cs.len() - i,
    {
        assert(cs@.take(i + 1).drop_last() =~= cs@.take(i as int));
        if is_alphanumeric(cs[i]) {
            r.push(cs[i]);
        }
        i = i + 1;
    }
    assert(cs@.take(i as int) =~= cs@);
    r
}

/// The informational query that prints a deployed contract's interface.
/// Network and contract id are reduced to their alphanumeric characters,
/// so neither can carry shell syntax into the command.
pub fn interface_command(network: &str, contract: &str) -> (r: String)
    ensures
        r@ == "stellar contract info interface --network "@ + alphanumeric_only(network@)
            + " --contract-id "@ + alphanumeric_only(contract@),
{
    let mut r = String::from_str("stellar contract info interface --network ");
    let n = keep_alphanumeric(network);
    r.append(n.as_str());
    r.append(" --contract-id ");
    let c = keep_alphanumeric(contract);
    r.append(c.as_str());
    r
}

} // verus!
