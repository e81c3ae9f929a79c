//! What may be installed, what is selected and what goes.

use vstd::prelude::*;
use vstd::utf8::valid_utf8;

use crate::bundle::{
    FileView, ManifestView, SelectionView, belongs, digest_of, directory_of, first_named, is_digest,
    name_parts, required, target_of,
};
use crate::installer::{
    BundleEntry, FileFacts, InstallRefusal, PlanView, StepView, ZipPath, ZipView,
    bundle_entry_refusal, bundle_refusal, digest_refusal, first_entry_refusal, has_entry,
    installed_refusal, installed_files_refusal, is_zip, manifest_refusal, payload_refusal, plan_of,
    selection_text, source_refusal,
};
use crate::laws::names::holds_text;
use crate::paths::{extension, file_name, has_several_components, joined};
use crate::text::{ascii_lower, debug_form};
use crate::versions::{
    Collection, VersionEntry, VersionView, collected, garbage, is_staging, meant, selected,
    version_of,
};

verus! {

/// A bundle holds its manifest and three executables, and nothing else.
pub proof fn law_bundles_hold_four_files(name: Seq<char>)
    ensures
        belongs(name) <==> name == "manifest.toml"@ || name == "susm.exe"@ || name == "susmd.exe"@
            || name == "susm-supervisor.exe"@,
        required(0) == "susm.exe"@,
        required(1) == "susmd.exe"@,
        required(2) == "susm-supervisor.exe"@,
{
    assert(required(0) == "susm.exe"@);
    assert(required(1) == "susmd.exe"@);
    assert(required(2) == "susm-supervisor.exe"@);
}

/// A digest is written as sixty-four lower-case hexadecimal digits.
pub proof fn law_digests_are_written_in_full(text: Seq<char>)
    ensures
        is_digest(text) <==> text.len() == 64 && forall|i: int|
            0 <= i < text.len() ==> '0' <= #[trigger] text[i] <= '9' || 'a' <= text[i] <= 'f',
{
    if is_digest(text) {
        assert forall|i: int| 0 <= i < text.len() implies '0' <= #[trigger] text[i] <= '9' || 'a'
            <= text[i] <= 'f' by {
            assert(crate::bundle::is_hex_digit(text[i]));
        }
    }
}

/// Executables are built for two architectures, each with a target of its own.
pub proof fn law_targets_are_those_of_the_machine(architecture: Seq<char>)
    ensures
        target_of(architecture) is Some <==> architecture == "x86_64"@ || architecture
            == "aarch64"@,
        architecture == "x86_64"@ ==> target_of(architecture) == Some("x86_64-pc-windows-msvc"@),
        architecture == "aarch64"@ ==> target_of(architecture) == Some("aarch64-pc-windows-msvc"@),
{
    reveal_strlit("x86_64");
    reveal_strlit("aarch64");
    assert("x86_64"@.len() == 6 && "aarch64"@.len() == 7);
}

/// A file is found in a manifest exactly where it is declared, by its first declaration.
pub proof fn law_declarations_are_found(files: Seq<FileView>, name: Seq<char>)
    ensures
        first_named(files, name) is None <==> forall|i: int|
            0 <= i < files.len() ==> (#[trigger] files[i]).path != name,
        first_named(files, name) matches Some(found) ==> found.path == name && files.contains(found),
        first_named(files, name) matches Some(found) ==> exists|i: int|
            0 <= i < files.len() && #[trigger] files[i] == found && forall|j: int|
                0 <= j < i ==> (#[trigger] files[j]).path != name,
    decreases files.len(),
{
    if files.len() > 0 {
        let rest = files.drop_first();
        if files[0].path == name {
            assert(files[0] == first_named(files, name)->0);
        } else {
            law_declarations_are_found(rest, name);
            assert forall|i: int| 0 <= i < rest.len() implies #[trigger] rest[i] == files[i + 1] by {}
            if first_named(rest, name) is None {
                assert forall|i: int| 0 <= i < files.len() implies (#[trigger] files[i]).path
                    != name by {
                    if i > 0 {
                        assert(rest[i - 1] == files[i]);
                    }
                }
            } else {
                let found = first_named(rest, name)->0;
                let i = choose|i: int|
                    0 <= i < rest.len() && #[trigger] rest[i] == found && forall|j: int|
                        0 <= j < i ==> (#[trigger] rest[j]).path != name;
                assert(files[i + 1] == found);
                assert forall|j: int| 0 <= j < i + 1 implies (#[trigger] files[j]).path != name by {
                    if j > 0 {
                        assert(rest[j - 1] == files[j]);
                    }
                }
            }
        }
    }
}

/// A version is rolled back to exactly where its version is the one that is given, or its digest
/// begins with what is given.
pub proof fn law_versions_are_meant_by_name_or_digest(
    versions: Seq<VersionView>,
    prefix: Seq<char>,
    i: int,
)
    requires
        0 <= i < versions.len(),
    ensures
        meant(versions, prefix).contains(i) <==> versions[i].version == prefix || (prefix.len()
            <= versions[i].identity.len() && versions[i].identity.take(prefix.len() as int)
            == prefix),
{
}

/// Which entries are removed as unused: directories that are no links, and of those the ones that
/// were being put together, and the versions that are neither selected nor in use.
pub proof fn law_only_what_is_unused_goes(entry: VersionEntry, current: Option<Seq<char>>)
    ensures
        ({
            let staging = is_staging(entry.name@);
            let own = entry.is_directory && !entry.is_link;
            &&& collected(entry, current) == Collection::RemoveAbandoned <==> own && staging
            &&& collected(entry, current) == Collection::RemoveChecked <==> own && !staging
                && current != Some(entry.name@) && entry.pin_count == 0
            &&& collected(entry, current) == Collection::Keep <==> !own || !staging && (current
                == Some(entry.name@) || entry.pin_count > 0)
        }),
{
}

/// All of them go, and nothing else does, in the order in which they lie there.
pub proof fn law_everything_unused_goes(
    entries: Seq<VersionEntry>,
    current: Option<Seq<char>>,
    n: int,
    i: int,
)
    requires
        0 <= n <= entries.len(),
    ensures
        garbage(entries, current, n).contains(i) <==> 0 <= i < n && collected(entries[i], current)
            != Collection::Keep,
        forall|a: int, b: int|
            0 <= a < b < garbage(entries, current, n).len() ==> (#[trigger] garbage(
                entries,
                current,
                n,
            )[a]) < (#[trigger] garbage(entries, current, n)[b]),
        forall|a: int|
            0 <= a < garbage(entries, current, n).len() ==> (#[trigger] garbage(
                entries,
                current,
                n,
            )[a]) < n,
    decreases n,
{
    if n > 0 {
        law_everything_unused_goes(entries, current, n - 1, i);
        let before = garbage(entries, current, n - 1);
        let all = garbage(entries, current, n);
        if all.contains(i) {
            let at = choose|at: int| 0 <= at < all.len() && all[at] == i;
            if at < before.len() {
                assert(before[at] == i);
                assert(before.contains(i));
            }
        }
        if before.contains(i) {
            let at = choose|at: int| 0 <= at < before.len() && before[at] == i;
            assert(all[at] == i);
        }
        if collected(entries[n - 1], current) != Collection::Keep {
            assert(all[all.len() - 1] == n - 1);
        }
        assert forall|a: int| 0 <= a < all.len() implies (#[trigger] all[a]) < n by {
            if a < before.len() {
                assert(before[a] < n - 1);
            }
        }
        assert forall|a: int, b: int| 0 <= a < b < all.len() implies (#[trigger] all[a]) < (
        #[trigger] all[b]) by {
            assert(before[a] < n - 1);
            if b < before.len() {
                assert(before[a] < before[b]);
            }
        }
    }
}

/// What is installed is what lies there as a directory named after a version and a digest; the one
/// that is selected, and only that, is current.
pub proof fn law_directories_are_versions(
    entry: VersionEntry,
    current: Option<Seq<char>>,
    version: Seq<char>,
    identity: Seq<char>,
)
    requires
        is_digest(identity),
        entry.name@ == directory_of(version, identity),
        !is_staging(entry.name@),
    ensures
        version_of(entry, current) is Some <==> entry.is_directory,
        version_of(entry, current) matches Some(found) ==> found.version == version
            && found.identity == identity && found.path == entry.path@ && found.pin_count
            == entry.pin_count && (found.current <==> current == Some(entry.name@)),
{
    crate::bundle::law_directories_are_read_back(version, identity);
}

/// A selection names a directory exactly where it is text that reads as one, of the only format that
/// there is, with a version and a digest; and then the directory of these two.
pub proof fn law_selections_name_a_directory(
    bytes: Seq<u8>,
    parsed: Result<SelectionView, Seq<char>>,
    version: Result<Seq<char>, Seq<char>>,
)
    ensures
        selected(bytes, parsed, version) is Ok <==> valid_utf8(bytes) && version is Ok && (parsed
            matches Ok(selection) && selection.bundle_format == 1 && is_digest(
            selection.manifest_sha256,
        )),
        selected(bytes, parsed, version) matches Ok(name) ==> (parsed matches Ok(selection) && name
            == selection.version + "-"@ + selection.manifest_sha256),
        valid_utf8(bytes) ==> (parsed matches Err(reason) ==> selected(bytes, parsed, version)
            == Err::<Seq<char>, InstallRefusal>(InstallRefusal::Manifest(reason))),
{
}

/// An archive is one by its extension, in whatever case.
pub proof fn law_archives_end_in_zip(path: Seq<char>)
    ensures
        is_zip(path) <==> (extension(path) matches Some(found) && found.map_values(
            |c: char| ascii_lower(c),
        ) == "zip"@),
{
    reveal_strlit("zip");
    assert("zip"@.map_values(|c: char| ascii_lower(c)) =~= "zip"@);
}

/// A file of an archive is unpacked exactly where it lies directly in the archive, belongs to a
/// bundle, was not there before, and the archive does not become too large with it.
pub proof fn law_archives_are_unpacked_with_care(seen: ZipView, path: ZipPath, size: u64)
    ensures
        seen.entry_refusal(path, size) is None <==> {
            &&& path matches ZipPath::Text(text) && !has_several_components(text@) && (file_name(
                text@,
            ) matches Some(name) && belongs(name) && !seen.names.contains(name))
            &&& seen.total + size <= 768 * 1024 * 1024 + 64 * 1024
        },
{
}

proof fn lemma_first_entry_refusal(entries: Seq<BundleEntry>, n: int)
    requires
        0 <= n <= entries.len(),
    ensures
        first_entry_refusal(entries, n) is None <==> forall|i: int|
            0 <= i < n ==> bundle_entry_refusal(#[trigger] entries[i]) is None,
    decreases n,
{
    if n > 0 {
        lemma_first_entry_refusal(entries, n - 1);
    }
}

/// The directory of a bundle is accepted exactly where it holds the four files of a bundle, nothing
/// else, and no links.
pub proof fn law_bundles_hold_nothing_else(entries: Seq<BundleEntry>)
    ensures
        source_refusal(entries) is None <==> {
            &&& forall|i: int|
                0 <= i < entries.len() ==> (#[trigger] entries[i]).regular && (entries[i].name
                    matches Some(name) && belongs(name@))
            &&& has_entry(entries, "manifest.toml"@)
            &&& has_entry(entries, "susm.exe"@)
            &&& has_entry(entries, "susmd.exe"@)
            &&& has_entry(entries, "susm-supervisor.exe"@)
        },
{
    lemma_first_entry_refusal(entries, entries.len() as int);
    if first_entry_refusal(entries, entries.len() as int) is None {
        assert forall|i: int| 0 <= i < entries.len() implies (#[trigger] entries[i]).regular && (
        entries[i].name matches Some(name) && belongs(name@)) by {
            assert(bundle_entry_refusal(entries[i]) is None);
        }
    }
}

proof fn lemma_digest_refusal(files: Seq<FileView>, n: int)
    requires
        0 <= n <= files.len(),
    ensures
        digest_refusal(files, n) is None <==> forall|i: int|
            0 <= i < n ==> is_digest((#[trigger] files[i]).sha256),
    decreases n,
{
    if n > 0 {
        lemma_digest_refusal(files, n - 1);
    }
}

/// A manifest is accepted exactly where it is of the only format and protocol that there are, its
/// schemas make sense, its supervisor speaks the runtime format in use, it was made for this machine,
/// and it declares the three executables, each with a digest.
pub proof fn law_manifests_are_judged_in_full(manifest: ManifestView, architecture: Seq<char>)
    ensures
        manifest_refusal(manifest, architecture) is None <==> {
            &&& manifest.bundle_format == 1 && manifest.protocol_major == 1
            &&& manifest.controller_schema_read_min <= manifest.controller_schema_write
            &&& manifest.controller_schema_write <= manifest.controller_schema_read_max
            &&& manifest.supervisor_runtime_formats.contains(1)
            &&& target_of(architecture) == Some(manifest.target)
            &&& manifest.files.len() == 3
            &&& manifest.find("susm.exe"@) is Some && manifest.find("susmd.exe"@) is Some
                && manifest.find("susm-supervisor.exe"@) is Some
            &&& forall|i: int|
                0 <= i < manifest.files.len() ==> is_digest((#[trigger] manifest.files[i]).sha256)
        },
{
    lemma_digest_refusal(manifest.files, manifest.files.len() as int);
}

/// Whether an executable was found as it is declared.
pub open spec fn is_as_declared(facts: FileFacts, declared: FileView) -> bool {
    facts matches FileFacts::Present { is_file, size, digest } && size == declared.size && (digest
        matches Ok(text) && text@ == declared.sha256)
}

/// The executables of a bundle are accepted exactly where each is found as the manifest declares it,
/// none is too large, and neither are all of them together.
pub proof fn law_executables_are_as_declared(
    root: Seq<char>,
    manifest: ManifestView,
    facts: Seq<FileFacts>,
)
    requires
        manifest.find(required(0)) is Some,
        manifest.find(required(1)) is Some,
        manifest.find(required(2)) is Some,
    ensures
        ({
            let a = manifest.find("susm.exe"@)->0;
            let b = manifest.find("susmd.exe"@)->0;
            let c = manifest.find("susm-supervisor.exe"@)->0;
            payload_refusal(root, manifest, facts, 0, 0) is None <==> {
                &&& a.size <= 268_435_456 && b.size <= 268_435_456 && c.size <= 268_435_456
                &&& a.size + b.size + c.size <= 805_306_368
                &&& is_as_declared(facts[0], a) && is_as_declared(facts[1], b) && is_as_declared(
                    facts[2],
                    c,
                )
            }
        }),
{
    reveal_with_fuel(payload_refusal, 4);
}

/// The executables of an installed version pass exactly where each is a file as the manifest declares
/// it.
pub proof fn law_installed_executables_are_as_declared(
    path: Seq<char>,
    manifest: ManifestView,
    facts: Seq<FileFacts>,
)
    requires
        manifest.find(required(0)) is Some,
        manifest.find(required(1)) is Some,
        manifest.find(required(2)) is Some,
    ensures
        ({
            let a = manifest.find("susm.exe"@)->0;
            let b = manifest.find("susmd.exe"@)->0;
            let c = manifest.find("susm-supervisor.exe"@)->0;
            installed_files_refusal(path, manifest, facts, 0) is None <==> {
                &&& is_as_declared(facts[0], a) && facts[0]->is_file
                &&& is_as_declared(facts[1], b) && facts[1]->is_file
                &&& is_as_declared(facts[2], c) && facts[2]->is_file
            }
        }),
{
    reveal_with_fuel(installed_files_refusal, 4);
}

/// A bundle is accepted exactly where each part of it is: its directory, its manifest, which is text
/// that reads as one, its version, which has no build metadata, and its executables.
pub proof fn law_bundles_are_judged_in_full(
    root: Seq<char>,
    entries: Seq<BundleEntry>,
    bytes: Seq<u8>,
    parsed: Result<ManifestView, Seq<char>>,
    version: Result<Seq<char>, Seq<char>>,
    facts: Seq<FileFacts>,
    architecture: Seq<char>,
)
    ensures
        bundle_refusal(root, entries, bytes, parsed, version, facts, architecture) is None <==> {
            &&& source_refusal(entries) is None
            &&& valid_utf8(bytes)
            &&& parsed matches Ok(manifest) && manifest_refusal(manifest, architecture) is None
                && payload_refusal(root, manifest, facts, 0, 0) is None
            &&& version matches Ok(build) && build.len() == 0
        },
{
}

/// An installed version passes exactly where its directory is named after the digest of its manifest,
/// and the manifest and the executables pass.
pub proof fn law_installed_versions_are_judged_in_full(
    path: Seq<char>,
    name: Seq<char>,
    bytes: Seq<u8>,
    manifest: ManifestView,
    facts: Seq<FileFacts>,
    architecture: Seq<char>,
)
    ensures
        installed_refusal(path, Some(name), bytes, Ok(manifest), facts, architecture) is None <==> {
            &&& name_parts(name) matches Some((_, identity)) && identity == digest_of(bytes)
            &&& valid_utf8(bytes)
            &&& manifest_refusal(manifest, architecture) is None
            &&& installed_files_refusal(path, manifest, facts, 0) is None
        },
        installed_refusal(path, None, bytes, Ok(manifest), facts, architecture) is Some,
{
}

/// A version is installed in a directory of its own among the versions, named after it and its
/// digest; it is selected by a file beside them, and its executable is called from a directory that
/// all versions share.
pub proof fn law_versions_have_their_place(
    installation: Seq<char>,
    version: Seq<char>,
    identity: Seq<char>,
)
    ensures
        ({
            let plan = plan_of(installation, version, identity);
            &&& plan.version == version && plan.identity == identity
            &&& plan.versions == joined(installation, "versions"@)
            &&& plan.directory == joined(plan.versions, version + "-"@ + identity)
            &&& plan.selection_path == joined(installation, "current.susm-install"@)
            &&& plan.cli == joined(joined(installation, "bin"@), "susm.exe"@)
        }),
{
}

/// An installation ends with the version selected and its executable put in its place; a version
/// that is there already is checked and not written again, and one that is not is put together
/// aside from all of its files.
pub proof fn law_installations_are_complete(
    plan: PlanView,
    root: Seq<char>,
    bytes: Seq<u8>,
    installed: bool,
    id: Seq<char>,
    i: int,
)
    requires
        0 <= i < 3,
    ensures
        ({
            let steps = plan.steps(root, bytes, installed, id);
            let staging = joined(plan.versions, ".staging-"@ + id);
            &&& steps[0] == StepView::CreateDirectories(plan.versions)
            &&& steps.contains(
                StepView::Replace {
                    path: plan.selection_path,
                    bytes: vstd::utf8::encode_utf8(plan.selection),
                },
            )
            &&& steps[steps.len() - 1] == (StepView::ReplaceWithCopy {
                from: joined(plan.directory, "susm.exe"@),
                to: plan.cli,
                limit: 268_435_456,
            })
            &&& installed ==> steps.contains(StepView::CheckInstalled(plan.directory)) && steps.len()
                == 5
            &&& !installed ==> steps.contains(
                StepView::WriteFile { path: joined(staging, "manifest.toml"@), bytes },
            ) && steps.contains(
                StepView::CopyFile { from: joined(root, required(i)), to: joined(staging, required(i)) },
            ) && steps.contains(StepView::Rename { from: staging, to: plan.directory })
        }),
{
    let steps = plan.steps(root, bytes, installed, id);
    let n = steps.len() as int;
    assert(steps[n - 3] == (StepView::Replace {
        path: plan.selection_path,
        bytes: vstd::utf8::encode_utf8(plan.selection),
    }));
    let staging = joined(plan.versions, ".staging-"@ + id);
    if installed {
        assert(steps[1] == StepView::CheckInstalled(plan.directory));
    } else {
        assert(steps[2] == (StepView::WriteFile { path: joined(staging, "manifest.toml"@), bytes }));
        assert(steps[3 + i] == (StepView::CopyFile {
            from: joined(root, required(i)),
            to: joined(staging, required(i)),
        }));
        assert(steps[6] == (StepView::Rename { from: staging, to: plan.directory }));
    }
}

/// The selection that is written names the version, and ends with the identity of its manifest.
pub proof fn law_written_selections_name_their_version(version: Seq<char>, identity: Seq<char>)
    ensures
        holds_text(
            selection_text(version, identity),
            "\nversion = "@ + debug_form(version) + "\n"@,
        ),
        exists|before: Seq<char>|
            selection_text(version, identity) == #[trigger] (before + ("manifest_sha256 = "@
                + debug_form(identity) + "\n"@)),
{
    let text = selection_text(version, identity);
    reveal_strlit("bundle_format = 1\nversion = ");
    reveal_strlit("bundle_format = 1");
    reveal_strlit("\nversion = ");
    reveal_strlit("\nmanifest_sha256 = ");
    reveal_strlit("manifest_sha256 = ");
    reveal_strlit("\n");
    let before = "bundle_format = 1"@ + ("\nversion = "@ + debug_form(version) + "\n"@);
    let after = "manifest_sha256 = "@ + debug_form(identity) + "\n"@;
    assert("bundle_format = 1\nversion = "@ =~= "bundle_format = 1"@ + "\nversion = "@);
    assert("\nmanifest_sha256 = "@ =~= "\n"@ + "manifest_sha256 = "@);
    assert(text =~= before + after);
}

} // verus!
