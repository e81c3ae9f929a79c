//! Putting a bundle together: what is built, what its manifest says, and how it is named.

use vstd::prelude::*;
use vstd::string::*;

use crate::bundle::{
    FileView, Manifest, ManifestFile, ManifestView, REQUIRED_FILES, first_named, is_digest,
    lemma_bundle_names_differ, native_target, required, required_file, target_of,
};
use crate::installer::{declares_all, digest_refusal, manifest_refusal};
use crate::text::{decimal, push_decimal, same_text};

verus! {

/// The oldest schema that the controller of this version reads.
pub const SCHEMA_READ_MIN: u32 = 1;

/// The newest schema that the controller of this version reads.
pub const SCHEMA_READ_MAX: u32 = 2;

/// The schema that the controller of this version writes.
pub const SCHEMA_WRITE: u32 = 2;

/// Whether bundles are built for a target.
pub open spec fn is_target(target: Seq<char>) -> bool {
    target == "x86_64-pc-windows-msvc"@ || target == "aarch64-pc-windows-msvc"@
}

/// The target of a bundle, or why none is built: `asked` is the target that was asked for, and
/// without one that of the machine is taken.
pub open spec fn packaged_target(
    version: Seq<char>,
    workspace: Seq<char>,
    asked: Option<Seq<char>>,
    architecture: Seq<char>,
) -> Result<Seq<char>, Seq<char>> {
    if version != workspace {
        Err(
            "package version "@ + version + " does not match workspace version "@ + workspace,
        )
    } else {
        match asked {
            Some(target) => if is_target(target) {
                Ok(target)
            } else {
                Err("unsupported target: "@ + target)
            },
            None => match target_of(architecture) {
                Some(target) => Ok(target),
                None => Err("unsupported architecture: "@ + architecture),
            },
        }
    }
}

/// The target of a bundle, or why none is built.
pub fn check_package(version: &str, workspace: &str, asked: Option<&str>, architecture: &str) -> (
result: Result<String, String>)
    ensures
        match result {
            Ok(target) => Ok::<Seq<char>, Seq<char>>(target@),
            Err(reason) => Err::<Seq<char>, Seq<char>>(reason@),
        } == packaged_target(
            version@,
            workspace@,
            match asked {
                Some(target) => Some(target@),
                None => None,
            },
            architecture@,
        ),
        result matches Ok(target) ==> is_target(target@),
{
    if !same_text(version, workspace) {
        let mut reason: String = "package version ".to_owned();
        reason.append(version);
        reason.append(" does not match workspace version ");
        reason.append(workspace);
        return Err(reason);
    }
    match asked {
        Some(target) => {
            if same_text(target, "x86_64-pc-windows-msvc") || same_text(
                target,
                "aarch64-pc-windows-msvc",
            ) {
                Ok(target.to_owned())
            } else {
                let mut reason: String = "unsupported target: ".to_owned();
                reason.append(target);
                Err(reason)
            }
        },
        None => match native_target(architecture) {
            Some(target) => Ok(target.to_owned()),
            None => {
                let mut reason: String = "unsupported architecture: ".to_owned();
                reason.append(architecture);
                Err(reason)
            },
        },
    }
}

/// The `i`-th package that is built.
pub open spec fn package(i: int) -> Seq<char> {
    if i <= 0 {
        "susm-cli"@
    } else if i == 1 {
        "susm-controller"@
    } else if i == 2 {
        "susm-supervisor"@
    } else {
        "susm-host"@
    }
}

/// The arguments with which the packages are built.
pub open spec fn build_line(target: Seq<char>) -> Seq<Seq<char>> {
    seq![
        "build"@,
        "--release"@,
        "--target"@,
        target,
        "--package"@,
        package(0),
        "--package"@,
        package(1),
        "--package"@,
        package(2),
        "--package"@,
        package(3),
    ]
}

/// The arguments with which the packages are built.
pub fn build_arguments(target: &str) -> (arguments: Vec<String>)
    ensures
        arguments@.map_values(|argument: String| argument@) == build_line(target@),
{
    let mut arguments: Vec<String> = Vec::new();
    arguments.push("build".to_owned());
    arguments.push("--release".to_owned());
    arguments.push("--target".to_owned());
    arguments.push(target.to_owned());
    arguments.push("--package".to_owned());
    arguments.push("susm-cli".to_owned());
    arguments.push("--package".to_owned());
    arguments.push("susm-controller".to_owned());
    arguments.push("--package".to_owned());
    arguments.push("susm-supervisor".to_owned());
    arguments.push("--package".to_owned());
    arguments.push("susm-host".to_owned());
    assert(arguments@.map_values(|argument: String| argument@) =~= build_line(target@));
    arguments
}

/// The directory of a bundle.
pub open spec fn bundle_directory(version: Seq<char>, target: Seq<char>) -> Seq<char> {
    "susm-"@ + version + "-"@ + target
}

/// The directory of a bundle, and the one in which it is put together by a process.
pub fn bundle_names(version: &str, target: &str, process_id: u32) -> (names: (String, String))
    ensures
        names.0@ == bundle_directory(version@, target@),
        names.1@ == "."@ + bundle_directory(version@, target@) + "."@ + decimal(process_id as nat)
            + ".tmp"@,
{
    let mut name: String = "susm-".to_owned();
    name.append(version);
    name.append("-");
    name.append(target);
    let mut staging: String = ".".to_owned();
    staging.append(name.as_str());
    staging.append(".");
    push_decimal(&mut staging, process_id as u64);
    staging.append(".tmp");
    (name, staging)
}

/// The size and the digest of an executable that was built.
#[derive(Debug)]
pub struct BuiltFile {
    pub size: u64,
    pub sha256: String,
}

/// The executables as the manifest declares them.
pub open spec fn packaged_files(built: Seq<BuiltFile>) -> Seq<FileView> {
    Seq::new(
        REQUIRED_FILES as nat,
        |i: int|
            FileView { path: required(i), size: built[i].size, sha256: built[i].sha256@ },
    )
}

/// The manifest of a bundle.
pub open spec fn packaged_manifest(version: Seq<char>, target: Seq<char>, built: Seq<BuiltFile>) -> ManifestView {
    ManifestView {
        bundle_format: 1,
        version,
        target,
        protocol_major: 1,
        controller_schema_read_min: SCHEMA_READ_MIN,
        controller_schema_read_max: SCHEMA_READ_MAX,
        controller_schema_write: SCHEMA_WRITE,
        supervisor_runtime_formats: seq![1u32],
        files: packaged_files(built),
    }
}

/// The manifest of a bundle whose executables were built, in their order.
pub fn package_manifest(version: &str, target: &str, built: &Vec<BuiltFile>) -> (manifest: Manifest)
    requires
        built.len() == REQUIRED_FILES,
    ensures
        manifest@ == packaged_manifest(version@, target@, built@),
{
    let mut formats: Vec<u32> = Vec::new();
    formats.push(1);
    let mut files: Vec<ManifestFile> = Vec::new();
    let mut i: usize = 0;
    while i < REQUIRED_FILES
        invariant
            i <= REQUIRED_FILES,
            built.len() == REQUIRED_FILES,
            files.len() == i,
            forall|j: int| 0 <= j < i ==> (#[trigger] files@[j])@ == packaged_files(built@)[j],
        decreases REQUIRED_FILES - i,
    {
        files.push(
            ManifestFile {
                path: required_file(i).to_owned(),
                size: built[i].size,
                sha256: built[i].sha256.clone(),
            },
        );
        i += 1;
    }
    let manifest: Manifest = Manifest {
        bundle_format: 1,
        version: version.to_owned(),
        target: target.to_owned(),
        protocol_major: 1,
        controller_schema_read_min: SCHEMA_READ_MIN,
        controller_schema_read_max: SCHEMA_READ_MAX,
        controller_schema_write: SCHEMA_WRITE,
        supervisor_runtime_formats: formats,
        files,
    };
    assert(manifest@.files =~= packaged_files(built@));
    assert(manifest@.supervisor_runtime_formats =~= seq![1u32]);
    manifest
}

/// The part of the text of a manifest that declares an executable.
pub open spec fn file_text(file: FileView) -> Seq<char> {
    "\n[[files]]\npath = \""@ + file.path + "\"\nsize = "@ + decimal(file.size as nat)
        + "\nsha256 = \""@ + file.sha256 + "\"\n"@
}

/// The parts of the first `n` executables.
pub open spec fn files_text(files: Seq<FileView>, n: int) -> Seq<char>
    decreases n,
{
    if n <= 0 {
        Seq::empty()
    } else {
        files_text(files, n - 1) + file_text(files[n - 1])
    }
}

/// The text of the manifest of a bundle.
pub open spec fn manifest_text(version: Seq<char>, target: Seq<char>, built: Seq<BuiltFile>) -> Seq<
    char,
> {
    "bundle_format = 1\nversion = \""@ + version + "\"\ntarget = \""@ + target
        + "\"\nprotocol_major = 1\ncontroller_schema_read_min = 1\ncontroller_schema_read_max = 2\ncontroller_schema_write = 2\nsupervisor_runtime_formats = [1]\n"@
        + files_text(packaged_files(built), REQUIRED_FILES as int)
}

/// The text of the manifest of a bundle whose executables were built, in their order.
pub fn write_manifest(version: &str, target: &str, built: &Vec<BuiltFile>) -> (text: String)
    requires
        built.len() == REQUIRED_FILES,
    ensures
        text@ == manifest_text(version@, target@, built@),
{
    let mut text: String = "bundle_format = 1\nversion = \"".to_owned();
    text.append(version);
    text.append("\"\ntarget = \"");
    text.append(target);
    text.append(
        "\"\nprotocol_major = 1\ncontroller_schema_read_min = 1\ncontroller_schema_read_max = 2\ncontroller_schema_write = 2\nsupervisor_runtime_formats = [1]\n",
    );
    let ghost head = text@;
    let ghost files = packaged_files(built@);
    let mut i: usize = 0;
    assert(text@ =~= head + files_text(files, 0));
    while i < REQUIRED_FILES
        invariant
            i <= REQUIRED_FILES,
            built.len() == REQUIRED_FILES,
            files == packaged_files(built@),
            text@ == head + files_text(files, i as int),
        decreases REQUIRED_FILES - i,
    {
        text.append("\n[[files]]\npath = \"");
        text.append(required_file(i));
        text.append("\"\nsize = ");
        push_decimal(&mut text, built[i].size);
        text.append("\nsha256 = \"");
        text.append(built[i].sha256.as_str());
        text.append("\"\n");
        assert(text@ =~= head + files_text(files, i + 1));
        i += 1;
    }
    text
}

/// A bundle that is put together for a machine is accepted there.
pub proof fn law_packaged_bundles_are_accepted(
    version: Seq<char>,
    target: Seq<char>,
    built: Seq<BuiltFile>,
    architecture: Seq<char>,
)
    requires
        target_of(architecture) == Some(target),
        forall|i: int| 0 <= i < REQUIRED_FILES ==> is_digest((#[trigger] built[i]).sha256@),
    ensures
        manifest_refusal(packaged_manifest(version, target, built), architecture) is None,
{
    let manifest = packaged_manifest(version, target, built);
    let files = manifest.files;
    assert(manifest.supervisor_runtime_formats[0] == 1u32);
    assert(files[0].path == required(0));
    assert(files[1].path == required(1));
    assert(files[2].path == required(2));
    lemma_bundle_names_differ();
    assert(declares_all(manifest)) by {
        reveal_with_fuel(first_named, 4);
        assert(files.drop_first()[0] == files[1]);
        assert(files.drop_first().drop_first()[0] == files[2]);
    }
    assert(is_digest(built[0].sha256@) && is_digest(built[1].sha256@) && is_digest(
        built[2].sha256@,
    ));
    reveal_with_fuel(digest_refusal, 4);
}

} // verus!
