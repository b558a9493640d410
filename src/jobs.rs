//! Everything decided about a job before anything runs: its digest, the
//! files of its project, the command the container runs, and where the
//! build writes and copies its artifact.
use vstd::prelude::*;
use crate::files::FileSet;
use crate::identity::{files_view, job_digest, job_digest_text};
use crate::naming::{artifact_name, artifact_name_of};
use crate::pipeline::JobKind;
use crate::sandbox::{
    BUILD_COMMAND, TEST_COMMAND, command_line, container_name, container_name_of, command_line_of, interface_command, output_file_of,
    output_paths, target_dir_of, alphanumeric_only,
};
use crate::workspace::{StageError, plan_of, plan_view, stage_plan};

verus! {

/// A job ready to run.
pub struct JobPlan {
    /// The job's digest, in hexadecimal.
    pub digest: String,
    /// The files of its project: path relative to the project root, content.
    pub staged: Vec<(String, String)>,
    /// The shell command run in the container.
    pub command: String,
    /// The job's own target directory in the shared cache volume.
    pub target_dir: String,
    /// The name under which a build's artifact is copied to the host.
    pub output_file: String,
    /// The name of the job's container.
    pub container: String,
}

/// The tool a job runs; an interface query names its network and contract.
pub open spec fn tool_of(kind: JobKind, network: Seq<char>, contract: Seq<char>) -> Seq<char> {
    match kind {
        JobKind::Build => BUILD_COMMAND@,
        JobKind::Test => TEST_COMMAND@,
        JobKind::Interface => "stellar contract info interface --network "@ + alphanumeric_only(network)
            + " --contract-id "@ + alphanumeric_only(contract),
    }
}

/// Plans a job: stages its project (or says why it cannot be staged),
/// names it by its digest, and builds the command that runs it, with the
/// job's own cache directory and output name. `network` and `contract`
/// are used by interface queries only.
pub fn plan_job(
    kind: JobKind,
    source: &str,
    files: Option<&FileSet>,
    network: &str,
    contract: &str,
) -> (r: Result<JobPlan, StageError>)
    requires
        files matches Some(f) ==> f.wf(),
    ensures
        match plan_of(source@, files_view(files)) {
            Err(fault) => r matches Err(e) && e@ == fault,
            Ok(staged) => r matches Ok(p) && {
                let d = job_digest_text(source@, files_view(files));
                let a = artifact_name_of(source@);
                &&& p.digest@ == d
                &&& plan_view(Ok(p.staged)) == Ok::<_, crate::workspace::StageFault>(staged)
                &&& p.target_dir@ == target_dir_of(Some(d))
                &&& p.output_file@ == output_file_of(a, Some(d))
                &&& p.container@ == container_name_of(d)
                &&& p.command@ == command_line_of(
                    tool_of(kind, network@, contract@),
                    kind == JobKind::Build,
                    a,
                    p.target_dir@,
                    p.output_file@,
                )
            },
        },
{
    let staged = match stage_plan(source, files) {
        Ok(s) => s,
        Err(e) => {
            return Err(e);
        },
    };
    let digest = job_digest(source, files);
    let artifact = artifact_name(source);
    let paths = output_paths(artifact.as_str(), Some(digest.as_str()));
    let tool = match kind {
        JobKind::Build => String::from_str(BUILD_COMMAND),
        JobKind::Test => String::from_str(TEST_COMMAND),
        JobKind::Interface => interface_command(network, contract),
    };
    let is_build = match kind {
        JobKind::Build => true,
        _ => false,
    };
    let command = command_line(tool.as_str(), is_build, artifact.as_str(), &paths);
    let container = container_name(digest.as_str());
    Ok(JobPlan {
        digest,
        staged,
        command,
        target_dir: paths.target_dir,
        output_file: paths.output_file,
        container,
    })
}

} // verus!
