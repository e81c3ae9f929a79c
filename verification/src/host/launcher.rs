//! Which controller the host launches for a user, and with what.

use vstd::prelude::*;
use vstd::string::*;
use vstd::utf8::valid_utf8;

use crate::bundle::{
    FileView, MAX_FILE_BYTES, Manifest, ManifestFile, ManifestView, SELECTION_NAME, Selection,
    SelectionView, digest_of, digest_text, directory_of, is_digest, native_target, parse_version,
    target_of, utf8_text, valid_digest, version_build, version_directory,
};
use crate::installer::{installation_of, parsed_manifest, version_view};
use crate::messages::copy_bytes;
use crate::paths::{join_paths, joined, parent, parent_path};
use crate::process::{
    copy_units, delimiter, lemma_delimiter, lemma_zero_position, lemma_zero_position_bound,
    zero_position,
};
use crate::text::{
    chars_of, eq_ignore_ascii_case, holds_char, join, same_ignoring_ascii_case, same_text,
    text_of_range,
};
use crate::utf16::{from_utf16_lossy, lossy_text_of_units, push_utf16, utf16};
use crate::versions::parsed_selection;

verus! {

/// Why a controller is not launched.
#[derive(Debug)]
pub enum LaunchError {
    Windows(String),
    LocalAppDataMissing,
    ControllerMissing(String),
    InstallationIo { path: String, source: String },
    InvalidInstallation(String),
    InstallationToml(String),
    InstallationVersion(String),
    Thread(String),
}

#[verifier::ext_equal]
pub enum LaunchRefusal {
    Windows(Seq<char>),
    LocalAppDataMissing,
    ControllerMissing(Seq<char>),
    InstallationIo { path: Seq<char>, source: Seq<char> },
    InvalidInstallation(Seq<char>),
    InstallationToml(Seq<char>),
    InstallationVersion(Seq<char>),
    Thread(Seq<char>),
}

impl LaunchRefusal {
    pub open spec fn text(self) -> Seq<char> {
        match self {
            LaunchRefusal::Windows(reason) => "Windows controller launch operation failed: "@
                + reason,
            LaunchRefusal::LocalAppDataMissing =>
                "the registering user's environment has no LOCALAPPDATA"@,
            LaunchRefusal::ControllerMissing(path) => "the installed controller does not exist: "@
                + path,
            LaunchRefusal::InstallationIo { path, source } =>
                "cannot read selected user installation at "@ + path + ": "@ + source,
            LaunchRefusal::InvalidInstallation(reason) =>
                "selected user installation is invalid: "@ + reason,
            LaunchRefusal::InstallationToml(reason) =>
                "selected user installation metadata is invalid: "@ + reason,
            LaunchRefusal::InstallationVersion(reason) =>
                "selected user installation version is invalid: "@ + reason,
            LaunchRefusal::Thread(reason) => "controller worker thread could not be started: "@
                + reason,
        }
    }
}

impl LaunchError {
    pub open spec fn view(&self) -> LaunchRefusal {
        match *self {
            LaunchError::Windows(reason) => LaunchRefusal::Windows(reason@),
            LaunchError::LocalAppDataMissing => LaunchRefusal::LocalAppDataMissing,
            LaunchError::ControllerMissing(path) => LaunchRefusal::ControllerMissing(path@),
            LaunchError::InstallationIo { path, source } => LaunchRefusal::InstallationIo {
                path: path@,
                source: source@,
            },
            LaunchError::InvalidInstallation(reason) => LaunchRefusal::InvalidInstallation(reason@),
            LaunchError::InstallationToml(reason) => LaunchRefusal::InstallationToml(reason@),
            LaunchError::InstallationVersion(reason) => LaunchRefusal::InstallationVersion(reason@),
            LaunchError::Thread(reason) => LaunchRefusal::Thread(reason@),
        }
    }

    pub fn message(&self) -> (message: String)
        ensures
            message@ == self@.text(),
    {
        match self {
            LaunchError::Windows(reason) => {
                join("Windows controller launch operation failed: ", reason.as_str())
            },
            LaunchError::LocalAppDataMissing => {
                "the registering user's environment has no LOCALAPPDATA".to_owned()
            },
            LaunchError::ControllerMissing(path) => {
                join("the installed controller does not exist: ", path.as_str())
            },
            LaunchError::InstallationIo { path, source } => {
                let mut message: String = join(
                    "cannot read selected user installation at ",
                    path.as_str(),
                );
                message.append(": ");
                message.append(source.as_str());
                message
            },
            LaunchError::InvalidInstallation(reason) => {
                join("selected user installation is invalid: ", reason.as_str())
            },
            LaunchError::InstallationToml(reason) => {
                join("selected user installation metadata is invalid: ", reason.as_str())
            },
            LaunchError::InstallationVersion(reason) => {
                join("selected user installation version is invalid: ", reason.as_str())
            },
            LaunchError::Thread(reason) => {
                join("controller worker thread could not be started: ", reason.as_str())
            },
        }
    }
}

/// What a check that passes or refuses says.
pub open spec fn launch_refusal<T>(result: Result<T, LaunchError>) -> Option<LaunchRefusal> {
    match result {
        Ok(_) => None,
        Err(error) => Some(error@),
    }
}

/// A refusal of what is installed.
pub open spec fn unfit(reason: Seq<char>) -> Option<LaunchRefusal> {
    Some(LaunchRefusal::InvalidInstallation(reason))
}

fn refuse(reason: &str) -> (error: LaunchError)
    ensures
        error@ == LaunchRefusal::InvalidInstallation(reason@),
{
    LaunchError::InvalidInstallation(reason.to_owned())
}

/// The file that tells which version a user has selected.
pub fn selection_path(local_app_data: &str) -> (path: String)
    ensures
        path@ == joined(installation_of(local_app_data@), SELECTION_NAME@),
{
    let programs: String = join_paths(local_app_data, "Programs");
    let installation: String = join_paths(programs.as_str(), "susm");
    join_paths(installation.as_str(), SELECTION_NAME)
}

/// Refuses what is no file of a proper size.
pub fn check_bounded(path: &str, is_file: bool, size: u64, maximum: u64) -> (result: Result<
    (),
    LaunchError,
>)
    ensures
        launch_refusal(result) == (if !is_file || size > maximum {
            unfit(path@ + " is not a bounded regular file"@)
        } else {
            None
        }),
{
    if !is_file || size > maximum {
        let mut reason: String = path.to_owned();
        reason.append(" is not a bounded regular file");
        return Err(LaunchError::InvalidInstallation(reason));
    }
    Ok(())
}

/// Refuses a link.
pub fn reject_reparse_point(path: &str, is_link: bool) -> (result: Result<(), LaunchError>)
    ensures
        launch_refusal(result) == (if is_link {
            unfit(path@ + " is a reparse point"@)
        } else {
            None
        }),
{
    if is_link {
        let mut reason: String = path.to_owned();
        reason.append(" is a reparse point");
        return Err(LaunchError::InvalidInstallation(reason));
    }
    Ok(())
}

/// Why a selection is refused, or nothing, where its version reads as `version`.
pub open spec fn selection_refusal(
    bytes: Seq<u8>,
    parsed: Result<SelectionView, Seq<char>>,
    version: Result<Seq<char>, Seq<char>>,
) -> Option<LaunchRefusal> {
    if !valid_utf8(bytes) {
        unfit("selection is not valid UTF-8"@)
    } else {
        match parsed {
            Err(reason) => Some(LaunchRefusal::InstallationToml(reason)),
            Ok(selection) => if selection.bundle_format != 1 {
                unfit("selection bundle_format must be 1"@)
            } else {
                match version {
                    Err(reason) => Some(LaunchRefusal::InstallationVersion(reason)),
                    Ok(build) => if build.len() > 0 || !is_digest(selection.manifest_sha256) {
                        unfit("selection version or manifest identity is invalid"@)
                    } else {
                        None
                    },
                }
            },
        }
    }
}

/// The directory of the version that a selection names.
pub open spec fn selected_directory(local_app_data: Seq<char>, selection: SelectionView) -> Seq<char> {
    joined(
        joined(installation_of(local_app_data), "versions"@),
        directory_of(selection.version, selection.manifest_sha256),
    )
}

/// Judges a selection whose version reads as `version`: the directory of the version that it
/// names.
pub fn judge_selection(
    local_app_data: &str,
    bytes: &Vec<u8>,
    parsed: &Result<Selection, String>,
    version: &Result<String, String>,
) -> (result: Result<String, LaunchError>)
    ensures
        launch_refusal(result) == selection_refusal(
            bytes@,
            parsed_selection(*parsed),
            version_view(*version),
        ),
        result matches Ok(path) ==> (parsed matches Ok(selection) && path@ == selected_directory(
            local_app_data@,
            selection@,
        )),
{
    if utf8_text(copy_bytes(bytes)).is_err() {
        return Err(refuse("selection is not valid UTF-8"));
    }
    let selection: &Selection = match parsed {
        Ok(selection) => selection,
        Err(reason) => {
            return Err(LaunchError::InstallationToml(reason.clone()));
        },
    };
    if selection.bundle_format != 1 {
        return Err(refuse("selection bundle_format must be 1"));
    }
    match version {
        Err(reason) => {
            return Err(LaunchError::InstallationVersion(reason.clone()));
        },
        Ok(build) => {
            if build.as_str().unicode_len() > 0 || !valid_digest(
                selection.manifest_sha256.as_str(),
            ) {
                return Err(refuse("selection version or manifest identity is invalid"));
            }
        },
    }
    let programs: String = join_paths(local_app_data, "Programs");
    let installation: String = join_paths(programs.as_str(), "susm");
    let versions: String = join_paths(installation.as_str(), "versions");
    let name: String = version_directory(
        selection.version.as_str(),
        selection.manifest_sha256.as_str(),
    );
    Ok(join_paths(versions.as_str(), name.as_str()))
}

/// The directory of the version that a user has selected: `bytes` are in the selection and read as
/// `parsed`.
pub fn check_selection(local_app_data: &str, bytes: &Vec<u8>, parsed: &Result<Selection, String>) -> (
result: Result<String, LaunchError>)
    ensures
        launch_refusal(result) == selection_refusal(
            bytes@,
            parsed_selection(*parsed),
            match parsed_selection(*parsed) {
                Ok(selection) => version_build(selection.version),
                Err(reason) => Err(reason),
            },
        ),
        result matches Ok(path) ==> (parsed matches Ok(selection) && path@ == selected_directory(
            local_app_data@,
            selection@,
        )),
{
    let version: Result<String, String> = match parsed {
        Ok(selection) => parse_version(selection.version.as_str()),
        Err(reason) => Err(reason.clone()),
    };
    judge_selection(local_app_data, bytes, parsed, &version)
}

/// Whether a manifest fits to a selection and a target.
pub open spec fn is_compatible(manifest: ManifestView, version: Seq<char>, target: Seq<char>) -> bool {
    &&& manifest.bundle_format == 1
    &&& manifest.protocol_major == 1
    &&& manifest.version == version
    &&& manifest.target == target
    &&& manifest.schemas_fit()
    &&& manifest.has_runtime_format()
}

/// Why a manifest is refused for a selection on a machine of an architecture, or nothing.
pub open spec fn compatibility_refusal(
    manifest: ManifestView,
    selection: SelectionView,
    architecture: Seq<char>,
) -> Option<LaunchRefusal> {
    match target_of(architecture) {
        None => unfit("unsupported native architecture "@ + architecture),
        Some(target) => if is_compatible(manifest, selection.version, target) {
            None
        } else {
            unfit("selected manifest is incompatible"@)
        },
    }
}

/// Checks a manifest for a selection on a machine of an architecture.
pub fn validate_manifest(manifest: &Manifest, selection: &Selection, architecture: &str) -> (result:
    Result<(), LaunchError>)
    ensures
        launch_refusal(result) == compatibility_refusal(manifest@, selection@, architecture@),
{
    let target: &str = match native_target(architecture) {
        Some(target) => target,
        None => {
            return Err(
                LaunchError::InvalidInstallation(
                    join("unsupported native architecture ", architecture),
                ),
            );
        },
    };
    if manifest.bundle_format == 1 && manifest.protocol_major == 1 && same_text(
        manifest.version.as_str(),
        selection.version.as_str(),
    ) && same_text(manifest.target.as_str(), target) && manifest.schemas_fit()
        && manifest.has_runtime_format() {
        Ok(())
    } else {
        Err(refuse("selected manifest is incompatible"))
    }
}

/// Why the controller that a manifest declares is refused, or nothing.
pub open spec fn declaration_refusal(manifest: ManifestView) -> Option<LaunchRefusal> {
    match manifest.find("susmd.exe"@) {
        None => unfit("manifest does not declare susmd.exe"@),
        Some(declared) => if declared.size > MAX_FILE_BYTES || !is_digest(declared.sha256) {
            unfit("susmd.exe manifest entry is invalid"@)
        } else {
            None
        },
    }
}

/// Why the manifest of the selected version is refused, or nothing.
pub open spec fn selected_manifest_refusal(
    selection: SelectionView,
    bytes: Seq<u8>,
    parsed: Result<ManifestView, Seq<char>>,
    architecture: Seq<char>,
) -> Option<LaunchRefusal> {
    if digest_of(bytes) != selection.manifest_sha256 {
        unfit("selected manifest digest does not match the selection"@)
    } else if !valid_utf8(bytes) {
        unfit("manifest is not valid UTF-8"@)
    } else {
        match parsed {
            Err(reason) => Some(LaunchRefusal::InstallationToml(reason)),
            Ok(manifest) => match compatibility_refusal(manifest, selection, architecture) {
                Some(refused) => Some(refused),
                None => declaration_refusal(manifest),
            },
        }
    }
}

/// Checks the manifest of the selected version, and gives the controller as it is declared there:
/// `bytes` are in the manifest and read as `parsed`.
pub fn check_selected_manifest(
    selection: &Selection,
    bytes: &Vec<u8>,
    parsed: &Result<Manifest, String>,
    architecture: &str,
) -> (result: Result<ManifestFile, LaunchError>)
    ensures
        launch_refusal(result) == selected_manifest_refusal(
            selection@,
            bytes@,
            parsed_manifest(*parsed),
            architecture@,
        ),
        result matches Ok(declared) ==> (parsed matches Ok(manifest) && manifest@.find("susmd.exe"@)
            == Some(declared@)),
{
    if !same_text(
        digest_text(bytes.as_slice()).as_str(),
        selection.manifest_sha256.as_str(),
    ) {
        return Err(refuse("selected manifest digest does not match the selection"));
    }
    if utf8_text(copy_bytes(bytes)).is_err() {
        return Err(refuse("manifest is not valid UTF-8"));
    }
    let manifest: &Manifest = match parsed {
        Ok(manifest) => manifest,
        Err(reason) => {
            return Err(LaunchError::InstallationToml(reason.clone()));
        },
    };
    match validate_manifest(manifest, selection, architecture) {
        Ok(_) => {},
        Err(error) => {
            return Err(error);
        },
    }
    let declared: &ManifestFile = match manifest.find("susmd.exe") {
        Some(index) => &manifest.files[index],
        None => {
            return Err(refuse("manifest does not declare susmd.exe"));
        },
    };
    if declared.size > MAX_FILE_BYTES || !valid_digest(declared.sha256.as_str()) {
        return Err(refuse("susmd.exe manifest entry is invalid"));
    }
    Ok(declared.clone())
}

/// Why the controller is refused that lies at a path, or nothing.
pub open spec fn controller_refusal(
    path: Seq<char>,
    is_file: bool,
    size: u64,
    digest: Seq<char>,
    declared: FileView,
) -> Option<LaunchRefusal> {
    if !is_file || size != declared.size {
        Some(LaunchRefusal::ControllerMissing(path))
    } else if digest != declared.sha256 {
        unfit("susmd.exe digest does not match its manifest"@)
    } else {
        None
    }
}

/// Holds the controller that lies at a path against its declaration.
pub fn check_controller(path: &str, is_file: bool, size: u64, digest: &str, declared: &ManifestFile) -> (
result: Result<(), LaunchError>)
    ensures
        launch_refusal(result) == controller_refusal(path@, is_file, size, digest@, declared@),
{
    if !is_file || size != declared.size {
        return Err(LaunchError::ControllerMissing(path.to_owned()));
    }
    if !same_text(digest, declared.sha256.as_str()) {
        return Err(refuse("susmd.exe digest does not match its manifest"));
    }
    Ok(())
}

/// A controller that is launched holds what the manifest of the selected version declares, and that
/// manifest is the one that was selected.
pub proof fn law_controllers_are_the_selected_ones(
    selection: SelectionView,
    manifest_bytes: Seq<u8>,
    manifest: ManifestView,
    architecture: Seq<char>,
    path: Seq<char>,
    contents: Seq<u8>,
    declared: FileView,
)
    requires
        selected_manifest_refusal(selection, manifest_bytes, Ok(manifest), architecture) is None,
        manifest.find("susmd.exe"@) == Some(declared),
        contents.len() <= u64::MAX,
        controller_refusal(path, true, contents.len() as u64, digest_of(contents), declared) is None,
    ensures
        digest_of(manifest_bytes) == selection.manifest_sha256,
        manifest.version == selection.version,
        digest_of(contents) == declared.sha256,
        contents.len() == declared.size,
        contents.len() <= MAX_FILE_BYTES,
{
}

/// What the controller of a session is called with.
pub open spec fn controller_line(controller: Seq<char>, manager_session_id: Seq<char>) -> Seq<char> {
    "\""@ + controller + "\" --manager-session-id "@ + manager_session_id
}

/// How a controller is launched: its path, the directory in which it runs, and its command line,
/// each as the system takes it.
#[derive(Debug)]
pub struct LaunchTexts {
    pub application: Vec<u16>,
    pub directory: Vec<u16>,
    pub command_line: Vec<u16>,
}

/// A path as the system takes it.
pub fn wide_path(path: &str) -> (result: Result<Vec<u16>, LaunchError>)
    ensures
        match result {
            Ok(units) => !path@.contains('\0') && units@ == utf16(path@).push(0),
            Err(error) => path@.contains('\0') && error@ == LaunchRefusal::Windows(
                "path contains a null character"@,
            ),
        },
{
    if holds_char(path, '\0') {
        return Err(LaunchError::Windows("path contains a null character".to_owned()));
    }
    let mut units: Vec<u16> = Vec::new();
    push_utf16(&mut units, path);
    assert(units@ =~= utf16(path@));
    units.push(0);
    Ok(units)
}

/// How the controller at a path is launched for a session.
pub fn launch_texts(controller: &str, manager_session_id: &str) -> (result: Result<
    LaunchTexts,
    LaunchError,
>)
    requires
        parent(controller@) is Some,
    ensures
        match result {
            Ok(texts) => !controller@.contains('\0') && !parent(controller@)->0.contains('\0')
                && texts.application@ == utf16(controller@).push(0) && texts.directory@ == utf16(
                parent(controller@)->0,
            ).push(0) && texts.command_line@ == utf16(
                controller_line(controller@, manager_session_id@),
            ).push(0),
            Err(error) => (controller@.contains('\0') || parent(controller@)->0.contains('\0'))
                && error@ == LaunchRefusal::Windows("path contains a null character"@),
        },
{
    let application: Vec<u16> = match wide_path(controller) {
        Ok(units) => units,
        Err(error) => {
            return Err(error);
        },
    };
    let directory: String = match parent_path(controller) {
        Some(directory) => directory,
        None => String::new(),
    };
    let directory: Vec<u16> = match wide_path(directory.as_str()) {
        Ok(units) => units,
        Err(error) => {
            return Err(error);
        },
    };
    let mut line: String = "\"".to_owned();
    line.append(controller);
    line.append("\" --manager-session-id ");
    line.append(manager_session_id);
    let mut command_line: Vec<u16> = Vec::new();
    push_utf16(&mut command_line, line.as_str());
    assert(command_line@ =~= utf16(controller_line(controller@, manager_session_id@)));
    command_line.push(0);
    Ok(LaunchTexts { application, directory, command_line })
}

/// A process, told apart from others that have had its id by when it was created.
#[derive(Clone, Copy, Debug, PartialEq, Eq, Structural)]
pub struct ProcessIdentity {
    pub process_id: u32,
    pub creation_time: u64,
}

/// A time of the system from its two halves.
pub fn file_time(high: u32, low: u32) -> (time: u64)
    ensures
        time == high * 0x1_0000_0000 + low,
{
    high as u64 * 0x1_0000_0000 + low as u64
}

/// Refuses to take over a process that is not the one that was recorded.
pub fn check_recorded(
    expected: ProcessIdentity,
    session_id: u32,
    actual_creation_time: u64,
    actual_session_id: u32,
) -> (result: Result<ProcessIdentity, LaunchError>)
    ensures
        launch_refusal(result) == (if actual_creation_time != expected.creation_time {
            unfit("recorded controller PID was reused"@)
        } else if actual_session_id != session_id {
            unfit("recorded controller belongs to another Windows session"@)
        } else {
            None
        }),
        result matches Ok(process) ==> process == expected,
{
    if actual_creation_time != expected.creation_time {
        return Err(refuse("recorded controller PID was reused"));
    }
    if actual_session_id != session_id {
        return Err(refuse("recorded controller belongs to another Windows session"));
    }
    Ok(expected)
}

/// The value of the first variable of an environment block with a name, in any case, where the
/// block has one. It ends at an empty entry.
pub open spec fn block_value(block: Seq<u16>, name: Seq<char>) -> Option<Seq<char>>
    decreases block.len(),
{
    let end = zero_position(block);
    proof {
        lemma_zero_position_bound(block);
    }
    if end <= 0 {
        None
    } else {
        let entry = from_utf16_lossy(block.take(end));
        let at = delimiter(entry, 0);
        if at < entry.len() && same_ignoring_ascii_case(entry.take(at), name) {
            Some(entry.skip(at + 1))
        } else if end < block.len() {
            block_value(block.skip(end + 1), name)
        } else {
            None
        }
    }
}

/// The directory of a user's local data, from the block of the user's environment.
pub fn user_local_app_data(block: &[u16]) -> (result: Result<String, LaunchError>)
    ensures
        match result {
            Ok(value) => block_value(block@, "LOCALAPPDATA"@) == Some(value@),
            Err(error) => block_value(block@, "LOCALAPPDATA"@) is None && error
                == LaunchError::LocalAppDataMissing,
        },
{
    let wanted: Vec<char> = chars_of("LOCALAPPDATA");
    let mut cursor: usize = 0;
    assert(block@.skip(0) =~= block@);
    loop
        invariant
            cursor <= block.len(),
            wanted@ == "LOCALAPPDATA"@,
            block_value(block@, "LOCALAPPDATA"@) == block_value(
                block@.skip(cursor as int),
                "LOCALAPPDATA"@,
            ),
        decreases block.len() - cursor,
    {
        let ghost rest = block@.skip(cursor as int);
        let mut end: usize = cursor;
        while end < block.len() && block[end] != 0
            invariant
                cursor <= end <= block.len(),
                forall|i: int| cursor <= i < end ==> block@[i] != 0,
            decreases block.len() - end,
        {
            end += 1;
        }
        proof {
            lemma_zero_position(rest, end - cursor);
        }
        if end == cursor {
            return Err(LaunchError::LocalAppDataMissing);
        }
        let units: Vec<u16> = copy_units(block, cursor, end);
        assert(units@ =~= rest.take(end - cursor));
        let entry: String = lossy_text_of_units(units.as_slice());
        let chars: Vec<char> = chars_of(entry.as_str());
        let mut at: usize = 0;
        while at < chars.len() && chars[at] != '='
            invariant
                at <= chars.len(),
                forall|i: int| 0 <= i < at ==> chars@[i] != '=',
            decreases chars.len() - at,
        {
            at += 1;
        }
        proof {
            lemma_delimiter(chars@, 0, at as int);
        }
        if at < chars.len() {
            let name: Vec<char> = chars_of(text_of_range(&chars, 0, at).as_str());
            assert(name@ =~= entry@.take(at as int));
            if eq_ignore_ascii_case(name.as_slice(), wanted.as_slice()) {
                let value: String = text_of_range(&chars, at + 1, chars.len());
                assert(value@ =~= entry@.skip(at + 1));
                return Ok(value);
            }
        }
        if end == block.len() {
            return Err(LaunchError::LocalAppDataMissing);
        }
        assert(rest.skip(end - cursor + 1) =~= block@.skip(end + 1));
        cursor = end + 1;
    }
}

} // verus!
