//! The staging plan of a job: which files its project directory holds,
//! where each one goes, and which inputs stop the job before anything is
//! written.
use vstd::prelude::*;
use vstd::string::StringExecFns;
use crate::files::{FileSet, content_under, entry_view, has_name};
use crate::identity::files_view;
use crate::manifest::{default_manifest, default_manifest_for, rename_package, renamed};
use crate::naming::{artifact_name, artifact_name_of};
use crate::validate::{is_safe_file_content, is_safe_filename, safe_content, safe_filename};

verus! {

/// Why a job cannot be staged.
pub enum StageError {
    /// The primary source holds a deny-listed substring.
    UnsafeSource,
    /// Files were supplied without a `Cargo.toml` among them.
    MissingManifest,
    /// The supplied `Cargo.toml` holds a deny-listed substring.
    UnsafeManifest,
    /// A supplied file has a name that could leave the project directory.
    InvalidFilename(String),
    /// A supplied file holds a deny-listed substring.
    UnsafeContent(String),
}

/// A staging failure as the contracts see it.
pub enum StageFault {
    UnsafeSource,
    MissingManifest,
    UnsafeManifest,
    InvalidFilename(Seq<char>),
    UnsafeContent(Seq<char>),
}

impl View for StageError {
    type V = StageFault;

    open spec fn view(&self) -> StageFault {
        match self {
            StageError::UnsafeSource => StageFault::UnsafeSource,
            StageError::MissingManifest => StageFault::MissingManifest,
            StageError::UnsafeManifest => StageFault::UnsafeManifest,
            StageError::InvalidFilename(n) => StageFault::InvalidFilename(n@),
            StageError::UnsafeContent(n) => StageFault::UnsafeContent(n@),
        }
    }
}

pub open spec fn fault_message(f: StageFault) -> Seq<char> {
    match f {
        StageFault::UnsafeSource => "Unsafe code content detected in main file"@,
        StageFault::MissingManifest => "Cargo.toml file is required but not provided"@,
        StageFault::UnsafeManifest => "Unsafe content detected in Cargo.toml"@,
        StageFault::InvalidFilename(n) => "Invalid filename: "@ + n,
        StageFault::UnsafeContent(n) => "Unsafe content detected in file: "@ + n,
    }
}

impl StageError {
    /// The text reported to the client.
    pub fn message(&self) -> (r: String)
        ensures
            r@ == fault_message(self@),
    {
        match self {
            StageError::UnsafeSource => String::from_str("Unsafe code content detected in main file"),
            StageError::MissingManifest => String::from_str("Cargo.toml file is required but not provided"),
            StageError::UnsafeManifest => String::from_str("Unsafe content detected in Cargo.toml"),
            StageError::InvalidFilename(n) => {
                let mut r = String::from_str("Invalid filename: ");
                r.append(n.as_str());
                r
            },
            StageError::UnsafeContent(n) => {
                let mut r = String::from_str("Unsafe content detected in file: ");
                r.append(n.as_str());
                r
            },
        }
    }
}

/// The fault a supplied file causes, if any. The manifest is checked on its own.
pub open spec fn file_fault(e: (Seq<char>, Seq<char>)) -> Option<StageFault> {
    if e.0 == "Cargo.toml"@ {
        None
    } else if !safe_filename(e.0) {
        Some(StageFault::InvalidFilename(e.0))
    } else if !safe_content(e.1) {
        Some(StageFault::UnsafeContent(e.0))
    } else {
        None
    }
}

/// The fault of the first file, from position `i` on, that causes one.
pub open spec fn first_fault(s: Seq<(Seq<char>, Seq<char>)>, i: int) -> Option<StageFault>
    decreases s.len() - i,
{
    if i < 0 || i >= s.len() {
        None
    } else {
        match file_fault(s[i]) {
            Some(f) => Some(f),
            None => first_fault(s, i + 1),
        }
    }
}

pub open spec fn ends_with(s: Seq<char>, suffix: Seq<char>) -> bool {
    s.len() >= suffix.len() && s.subrange(s.len() - suffix.len(), s.len() as int) == suffix
}

/// Where a supplied file goes, relative to the project root: other source
/// files into `src/`, everything else (documentation, configuration) at
/// the root.
pub open spec fn placed_path(n: Seq<char>) -> Seq<char> {
    if ends_with(n, seq!['.', 'r', 's']) && n != "lib.rs"@ {
        "src/"@ + n
    } else {
        n
    }
}

/// The supplied files other than the manifest, at their places, in name order.
pub open spec fn placed_all(s: Seq<(Seq<char>, Seq<char>)>) -> Seq<(Seq<char>, Seq<char>)>
    decreases s.len(),
{
    if s.len() == 0 {
        Seq::empty()
    } else if s.last().0 == "Cargo.toml"@ {
        placed_all(s.drop_last())
    } else {
        placed_all(s.drop_last()).push((placed_path(s.last().0), s.last().1))
    }
}

/// A supplied manifest, with its package name set to the artifact name:
/// the normalized contract name, or `project` when the source declares no
/// contract, so that the build's artifact is found under a known name.
pub open spec fn manifest_for(source: Seq<char>, manifest: Seq<char>) -> Seq<char> {
    renamed(manifest, artifact_name_of(source))
}

/// The files of a staged project (path relative to the project root, and
/// content), or the fault that stops staging.
pub open spec fn plan_of(
    source: Seq<char>,
    files: Option<Seq<(Seq<char>, Seq<char>)>>,
) -> Result<Seq<(Seq<char>, Seq<char>)>, StageFault> {
    if !safe_content(source) {
        Err(StageFault::UnsafeSource)
    } else {
        match files {
            None => Ok(
                seq![
                    ("Cargo.toml"@, default_manifest(artifact_name_of(source))),
                    ("src/lib.rs"@, source),
                ],
            ),
            Some(s) => if !has_name(s, "Cargo.toml"@) {
                Err(StageFault::MissingManifest)
            } else if !safe_content(content_under(s, "Cargo.toml"@)) {
                Err(StageFault::UnsafeManifest)
            } else {
                match first_fault(s, 0) {
                    Some(f) => Err(f),
                    None => Ok(
                        seq![
                            ("Cargo.toml"@, manifest_for(source, content_under(s, "Cargo.toml"@))),
                            ("src/lib.rs"@, source),
                        ] + placed_all(s),
                    ),
                }
            },
        }
    }
}

pub open spec fn plan_view(r: Result<Vec<(String, String)>, StageError>) -> Result<Seq<(Seq<char>, Seq<char>)>, StageFault> {
    match r {
        Ok(v) => Ok(v@.map_values(|e: (String, String)| entry_view(e))),
        Err(e) => Err(e@),
    }
}

fn ends_with_rs(n: &str) -> (r: bool)
    ensures
        r == ends_with(n@, seq!['.', 'r', 's']),
{
    let cs = crate::text::chars_of(n);
    let k = cs.len();
    let r = k >= 3 && cs[k - 3] == '.' && cs[k - 2] == 'r' && cs[k - 1] == 's';
    if k >= 3 {
        assert(r == (cs@.subrange(k - 3, k as int) =~= seq!['.', 'r', 's']));
    }
    r
}

fn place(name: &String) -> (r: String)
    ensures
        r@ == placed_path(name@),
{
    let lib = String::from_str("lib.rs");
    if ends_with_rs(name.as_str()) && !(*name == lib) {
        let mut r = String::from_str("src/");
        r.append(name.as_str());
        r
    } else {
        name.clone()
    }
}

/// Plans the project of a job: the primary source as `src/lib.rs`, and
/// either the default manifest (when no files are supplied) or the
/// supplied `Cargo.toml`, renamed after the artifact, with the
/// other supplied files at their places. Staging stops at the first unsafe
/// input: the source, then the manifest's presence and content, then the
/// other files in name order.
pub fn stage_plan(source: &str, files: Option<&FileSet>) -> (r: Result<Vec<(String, String)>, StageError>)
    requires
        files matches Some(f) ==> f.wf(),
    ensures
        plan_view(r) == plan_of(source@, files_view(files)),
{
    if !is_safe_file_content(source) {
        return Err(StageError::UnsafeSource);
    }
    let manifest_key = String::from_str("Cargo.toml");
    match files {
        None => {
            let n = artifact_name(source);
            let m = default_manifest_for(n.as_str());
            let v: Vec<(String, String)> = vec![
                (manifest_key, m),
                (String::from_str("src/lib.rs"), String::from_str(source)),
            ];
            assert(plan_view(Ok(v)) == plan_of(source@, files_view(files))) by {
                assert(v@.map_values(|e: (String, String)| entry_view(e)) =~= seq![
                    ("Cargo.toml"@, default_manifest(artifact_name_of(source@))),
                    ("src/lib.rs"@, source@),
                ]);
            }
            Ok(v)
        },
        Some(f) => {
            let manifest = match f.get("Cargo.toml") {
                Some(m) => m,
                None => {
                    return Err(StageError::MissingManifest);
                },
            };
            if !is_safe_file_content(manifest.as_str()) {
                return Err(StageError::UnsafeManifest);
            }
            let ghost s = f.pairs();
            assert(has_name(s, "Cargo.toml"@));
            assert(content_under(s, "Cargo.toml"@) == manifest@);
            let n = f.len();
            let mut i: usize = 0;
            while i < n
                invariant
                    f.wf(),
                    s == f.pairs(),
                    n == s.len(),
                    i <= n,
                    manifest_key@ == "Cargo.toml"@,
                    first_fault(s, i as int) == first_fault(s, 0),
                    safe_content(source@),
                    files_view(files) == Some(s),
                    has_name(s, "Cargo.toml"@),
                    safe_content(content_under(s, "Cargo.toml"@)),
                decreases n - i,
            {
                let (name, content) = f.entry(i);
                assert(first_fault(s, i as int) == match file_fault(s[i as int]) {
                    Some(x) => Some(x),
                    None => first_fault(s, i + 1),
                });
                if !(*name == manifest_key) {
                    if !is_safe_filename(name.as_str()) {
                        let e = StageError::InvalidFilename(name.clone());
                        assert(e@ == StageFault::InvalidFilename(s[i as int].0));
                        return Err(e);
                    }
                    if !is_safe_file_content(content.as_str()) {
                        let e = StageError::UnsafeContent(name.clone());
                        assert(e@ == StageFault::UnsafeContent(s[i as int].0));
                        return Err(e);
                    }
                }
                i = i + 1;
            }
            let artifact = artifact_name(source);
            let m = rename_package(manifest.as_str(), artifact.as_str());
            let mut v: Vec<(String, String)> = vec![
                (manifest_key, m),
                (String::from_str("src/lib.rs"), String::from_str(source)),
            ];
            let ghost head = seq![
                ("Cargo.toml"@, manifest_for(source@, content_under(s, "Cargo.toml"@))),
                ("src/lib.rs"@, source@),
            ];
            assert(v@.map_values(|e: (String, String)| entry_view(e)) =~= head + placed_all(s.take(0)));
            let mut j: usize = 0;
            while j < n
                invariant
                    f.wf(),
                    s == f.pairs(),
                    n == s.len(),
                    j <= n,
                    v@.map_values(|e: (String, String)| entry_view(e)) == head + placed_all(s.take(j as int)),
                decreases n - j,
            {
                let (name, content) = f.entry(j);
                let lib_manifest = String::from_str("Cargo.toml");
                assert(s.take(j + 1).drop_last() =~= s.take(j as int));
                assert(s.take(j + 1).last() == s[j as int]);
                if !(*name == lib_manifest) {
                    let p = place(name);
                    let c = content.clone();
                    let ghost v0 = v@;
                    v.push((p, c));
                    assert(v@ == v0.push((p, c)));
                    assert(entry_view((p, c)) == (placed_path(s[j as int].0), s[j as int].1));
                    assert(placed_all(s.take(j + 1)) == placed_all(s.take(j as int)).push(
                        (placed_path(s[j as int].0), s[j as int].1)));
                    assert(v0.push((p, c)).map_values(|e: (String, String)| entry_view(e))
                        =~= v0.map_values(|e: (String, String)| entry_view(e)).push(entry_view((p, c))));
                    assert(v@.map_values(|e: (String, String)| entry_view(e)) =~= head + placed_all(s.take(j + 1)));
                }
                j = j + 1;
            }
            assert(s.take(n as int) =~= s);
            Ok(v)
        },
    }
}

} // verus!
