//! Installing bundles: what is accepted, in which steps a version comes to stand, and which
//! versions go.

use vstd::prelude::*;
use vstd::string::*;
use vstd::utf8::{decode_utf8, encode_utf8, valid_utf8};

use crate::bundle::{
    FileView, MANIFEST_NAME, MAX_FILE_BYTES, MAX_MANIFEST_BYTES, MAX_PAYLOAD_BYTES, MAX_ZIP_BYTES,
    Manifest, ManifestFile, ManifestView, REQUIRED_FILES, SELECTION_NAME, belongs,
    belongs_to_bundle, digest_of, digest_text, directory_of, first_named, is_digest,
    lemma_bundle_names_differ, name_parts, native_target, parse_version, required, required_file,
    split_directory, target_of, utf8_text, valid_digest, version_build, version_directory,
};
use crate::bytes::append;
use crate::config::model::texts;
use crate::messages::copy_bytes;
use crate::paths::{
    extension, file_name, has_several_components, join_paths, joined, parent, parent_path,
    path_extension, path_file_name, path_has_several_components,
};
use crate::text::{
    chars_of, debug_form, debug_text, decimal, eq_ignore_ascii_case, join, push_decimal,
    same_ignoring_ascii_case, same_text,
};

verus! {

/// Why something is not installed.
#[derive(Debug)]
pub enum InstallError {
    Io { path: String, source: String },
    Manifest(String),
    Version(String),
    Invalid(String),
    Zip(String),
    Windows(String),
}

#[verifier::ext_equal]
pub enum InstallRefusal {
    Io { path: Seq<char>, source: Seq<char> },
    Manifest(Seq<char>),
    Version(Seq<char>),
    Invalid(Seq<char>),
    Zip(Seq<char>),
    Windows(Seq<char>),
}

impl InstallRefusal {
    pub open spec fn text(self) -> Seq<char> {
        match self {
            InstallRefusal::Io { path, source } => "cannot access "@ + path + ": "@ + source,
            InstallRefusal::Manifest(reason) => "invalid bundle manifest: "@ + reason,
            InstallRefusal::Version(reason) => "invalid bundle version: "@ + reason,
            InstallRefusal::Invalid(reason) => "unsupported bundle: "@ + reason,
            InstallRefusal::Zip(reason) => "cannot open ZIP bundle: "@ + reason,
            InstallRefusal::Windows(reason) => "atomic selection replacement failed: "@ + reason,
        }
    }
}

impl InstallError {
    pub open spec fn view(&self) -> InstallRefusal {
        match *self {
            InstallError::Io { path, source } => InstallRefusal::Io { path: path@, source: source@ },
            InstallError::Manifest(reason) => InstallRefusal::Manifest(reason@),
            InstallError::Version(reason) => InstallRefusal::Version(reason@),
            InstallError::Invalid(reason) => InstallRefusal::Invalid(reason@),
            InstallError::Zip(reason) => InstallRefusal::Zip(reason@),
            InstallError::Windows(reason) => InstallRefusal::Windows(reason@),
        }
    }

    pub fn message(&self) -> (message: String)
        ensures
            message@ == self@.text(),
    {
        match self {
            InstallError::Io { path, source } => {
                let mut message: String = "cannot access ".to_owned();
                message.append(path.as_str());
                message.append(": ");
                message.append(source.as_str());
                message
            },
            InstallError::Manifest(reason) => join("invalid bundle manifest: ", reason.as_str()),
            InstallError::Version(reason) => join("invalid bundle version: ", reason.as_str()),
            InstallError::Invalid(reason) => join("unsupported bundle: ", reason.as_str()),
            InstallError::Zip(reason) => join("cannot open ZIP bundle: ", reason.as_str()),
            InstallError::Windows(reason) => {
                join("atomic selection replacement failed: ", reason.as_str())
            },
        }
    }
}

/// What a check that passes or refuses says.
pub open spec fn refusal<T>(result: Result<T, InstallError>) -> Option<InstallRefusal> {
    match result {
        Ok(_) => None,
        Err(error) => Some(error@),
    }
}

/// A refusal for what a bundle is.
pub open spec fn invalid(reason: Seq<char>) -> Option<InstallRefusal> {
    Some(InstallRefusal::Invalid(reason))
}

fn refuse(reason: &str) -> (error: InstallError)
    ensures
        error@ == InstallRefusal::Invalid(reason@),
{
    InstallError::Invalid(reason.to_owned())
}

fn refuse_with(before: &str, name: &str, after: &str) -> (error: InstallError)
    ensures
        error@ == InstallRefusal::Invalid(before@ + name@ + after@),
{
    let mut reason: String = before.to_owned();
    reason.append(name);
    reason.append(after);
    InstallError::Invalid(reason)
}

/// Refuses a file that is larger than it may be.
pub fn check_size(path: &str, size: u64, maximum: u64) -> (result: Result<(), InstallError>)
    ensures
        refusal(result) == (if size > maximum {
            invalid(path@ + " exceeds its size limit"@)
        } else {
            None
        }),
{
    if size > maximum {
        let error: InstallError = refuse_with(path, " exceeds its size limit", "");
        assert(path@ + " exceeds its size limit"@ + ""@ =~= path@ + " exceeds its size limit"@) by {
            reveal_strlit("");
        }
        Err(error)
    } else {
        Ok(())
    }
}

/// The directory under which versions are installed.
pub open spec fn installation_of(local_app_data: Seq<char>) -> Seq<char> {
    joined(joined(local_app_data, "Programs"@), "susm"@)
}

/// Why versions have nowhere to go, where the directory of a user's local data is missing. An empty
/// one counts as missing.
pub open spec fn root_refusal(local_app_data: Option<&str>) -> Option<InstallRefusal> {
    if local_app_data matches Some(data) && data@.len() > 0 {
        None
    } else {
        invalid("LOCALAPPDATA is missing"@)
    }
}

/// The directory under which versions are installed, for the directory of a user's local data.
pub fn installation_root(local_app_data: Option<&str>) -> (result: Result<String, InstallError>)
    ensures
        refusal(result) == root_refusal(local_app_data),
        result matches Ok(path) ==> (local_app_data matches Some(data) && path@ == installation_of(
            data@,
        )),
{
    match local_app_data {
        Some(data) => {
            if data.unicode_len() > 0 {
                let programs: String = join_paths(data, "Programs");
                return Ok(join_paths(programs.as_str(), "susm"));
            }
        },
        None => {},
    }
    Err(refuse("LOCALAPPDATA is missing"))
}

/// In which form a bundle comes.
#[derive(Clone, Copy, Debug, PartialEq, Eq, Structural)]
pub enum BundleKind {
    Directory,
    Zip,
}

/// Whether a path names an archive.
pub open spec fn is_zip(path: Seq<char>) -> bool {
    extension(path) matches Some(found) && same_ignoring_ascii_case(found, "zip"@)
}

/// In which form a bundle comes, by what its source is: its path, whether it is a link or a
/// directory, and its size.
pub fn bundle_kind(path: &str, is_link: bool, is_directory: bool, size: u64) -> (result: Result<
    BundleKind,
    InstallError,
>)
    ensures
        refusal(result) == (if is_link {
            invalid("bundle source must not be a symbolic link or junction"@)
        } else if is_directory {
            None
        } else if !is_zip(path@) {
            invalid("bundle must be a directory or .zip file"@)
        } else if size > MAX_ZIP_BYTES {
            invalid("ZIP exceeds 1 GiB"@)
        } else {
            None
        }),
        result matches Ok(kind) ==> kind == (if is_directory {
            BundleKind::Directory
        } else {
            BundleKind::Zip
        }),
{
    if is_link {
        return Err(refuse("bundle source must not be a symbolic link or junction"));
    }
    if is_directory {
        return Ok(BundleKind::Directory);
    }
    let zip: bool = match path_extension(path) {
        Some(found) => eq_ignore_ascii_case(found.as_slice(), chars_of("zip").as_slice()),
        None => false,
    };
    if !zip {
        return Err(refuse("bundle must be a directory or .zip file"));
    }
    if size > MAX_ZIP_BYTES {
        return Err(refuse("ZIP exceeds 1 GiB"));
    }
    Ok(BundleKind::Zip)
}

/// The path of an entry of an archive.
#[derive(Debug)]
pub enum ZipPath {
    /// It leads out of the archive.
    Unsafe,
    /// It is no Unicode; whether it has one part only.
    Opaque { flat: bool },
    Text(String),
}

/// An entry of an archive.
#[derive(Debug)]
pub struct ZipEntry {
    pub is_directory: bool,
    pub path: ZipPath,
    pub size: u64,
}

/// How far an archive has been looked through: the names that were found, and their bytes.
#[derive(Debug)]
pub struct ZipCheck {
    names: Vec<String>,
    total: u64,
}

#[verifier::ext_equal]
pub struct ZipView {
    pub names: Seq<Seq<char>>,
    pub total: u64,
}

impl ZipView {
    /// Why an entry with one name in its path is refused, or nothing.
    pub open spec fn name_refusal(self, name: Seq<char>, size: u64) -> Option<InstallRefusal> {
        if !belongs(name) {
            invalid("ZIP contains undeclared file "@ + name)
        } else if self.names.contains(name) {
            invalid("ZIP contains duplicate path "@ + name)
        } else if self.total + size > u64::MAX {
            invalid("ZIP payload size overflowed"@)
        } else if self.total + size > MAX_PAYLOAD_BYTES + MAX_MANIFEST_BYTES {
            invalid("ZIP payload is too large"@)
        } else {
            None
        }
    }

    /// Why a file of the archive is refused, or nothing.
    pub open spec fn entry_refusal(self, path: ZipPath, size: u64) -> Option<InstallRefusal> {
        match path {
            ZipPath::Unsafe => invalid("ZIP contains an unsafe path"@),
            ZipPath::Opaque { flat } => if flat {
                invalid("ZIP filename is not Unicode"@)
            } else {
                invalid("ZIP paths must be flat"@)
            },
            ZipPath::Text(text) => match file_name(text@) {
                Some(name) => if has_several_components(text@) {
                    invalid("ZIP paths must be flat"@)
                } else {
                    self.name_refusal(name, size)
                },
                None => invalid("ZIP paths must be flat"@),
            },
        }
    }
}

impl ZipCheck {
    pub closed spec fn view(&self) -> ZipView {
        ZipView { names: texts(self.names@), total: self.total }
    }

    pub fn new() -> (check: ZipCheck)
        ensures
            check@ == (ZipView { names: Seq::empty(), total: 0 }),
    {
        let check: ZipCheck = ZipCheck { names: Vec::new(), total: 0 };
        assert(check@.names =~= Seq::empty());
        check
    }

    fn has(&self, name: &str) -> (has: bool)
        ensures
            has == self@.names.contains(name@),
    {
        let mut i: usize = 0;
        while i < self.names.len()
            invariant
                i <= self.names.len(),
                forall|j: int| 0 <= j < i ==> #[trigger] self.names@[j]@ != name@,
            decreases self.names.len() - i,
        {
            if same_text(self.names[i].as_str(), name) {
                assert(self@.names[i as int] == name@);
                return true;
            }
            i += 1;
        }
        assert forall|j: int| 0 <= j < self@.names.len() implies #[trigger] self@.names[j]
            != name@ by {
            assert(self.names@[j]@ != name@);
        }
        false
    }

    /// Takes in an entry: the name under which it is unpacked, or nothing for a directory.
    pub fn entry(&mut self, entry: &ZipEntry) -> (result: Result<Option<String>, InstallError>)
        ensures
            refusal(result) == (if entry.is_directory {
                None
            } else {
                old(self)@.entry_refusal(entry.path, entry.size)
            }),
            match result {
                Ok(Some(name)) => (entry.path matches ZipPath::Text(text) && file_name(text@)
                    == Some(name@)) && !entry.is_directory && final(self)@ == (ZipView {
                    names: old(self)@.names.push(name@),
                    total: (old(self)@.total + entry.size) as u64,
                }),
                Ok(None) => entry.is_directory && final(self)@ == old(self)@,
                Err(_) => final(self)@ == old(self)@,
            },
    {
        if entry.is_directory {
            return Ok(None);
        }
        let text: &String = match &entry.path {
            ZipPath::Unsafe => {
                return Err(refuse("ZIP contains an unsafe path"));
            },
            ZipPath::Opaque { flat } => {
                return if *flat {
                    Err(refuse("ZIP filename is not Unicode"))
                } else {
                    Err(refuse("ZIP paths must be flat"))
                };
            },
            ZipPath::Text(text) => text,
        };
        let name: String = match path_file_name(text.as_str()) {
            Some(name) => name,
            None => {
                return Err(refuse("ZIP paths must be flat"));
            },
        };
        if path_has_several_components(text.as_str()) {
            return Err(refuse("ZIP paths must be flat"));
        }
        if !belongs_to_bundle(name.as_str()) {
            let mut reason: String = "ZIP contains undeclared file ".to_owned();
            reason.append(name.as_str());
            return Err(InstallError::Invalid(reason));
        }
        if self.has(name.as_str()) {
            let mut reason: String = "ZIP contains duplicate path ".to_owned();
            reason.append(name.as_str());
            return Err(InstallError::Invalid(reason));
        }
        let total: u64 = match self.total.checked_add(entry.size) {
            Some(total) => total,
            None => {
                return Err(refuse("ZIP payload size overflowed"));
            },
        };
        if total > MAX_PAYLOAD_BYTES + MAX_MANIFEST_BYTES {
            return Err(refuse("ZIP payload is too large"));
        }
        self.total = total;
        self.names.push(name.clone());
        assert(self@.names =~= old(self)@.names.push(name@));
        Ok(Some(name))
    }
}

/// An entry of the directory of a bundle.
#[derive(Debug)]
pub struct BundleEntry {
    pub path: String,
    /// Whether it is a file and no link.
    pub regular: bool,
    /// Its name, where that is Unicode.
    pub name: Option<String>,
}

/// Why an entry of a bundle is refused, or nothing.
pub open spec fn bundle_entry_refusal(entry: BundleEntry) -> Option<InstallRefusal> {
    if !entry.regular {
        invalid("bundle entry "@ + entry.path@ + " is not a regular file"@)
    } else {
        match entry.name {
            None => invalid("bundle filename is not Unicode"@),
            Some(name) => if belongs(name@) {
                None
            } else {
                invalid("bundle contains unexpected file "@ + name@)
            },
        }
    }
}

/// The first refusal among the first `n` entries.
pub open spec fn first_entry_refusal(entries: Seq<BundleEntry>, n: int) -> Option<InstallRefusal>
    decreases n,
{
    if n <= 0 {
        None
    } else {
        match first_entry_refusal(entries, n - 1) {
            Some(refused) => Some(refused),
            None => bundle_entry_refusal(entries[n - 1]),
        }
    }
}

/// Whether one of the entries has the name.
pub open spec fn has_entry(entries: Seq<BundleEntry>, name: Seq<char>) -> bool {
    exists|i: int|
        0 <= i < entries.len() && ((#[trigger] entries[i]).name matches Some(found) && found@ == name)
}

/// Why the directory of a bundle is refused, or nothing: it holds the manifest and the executables,
/// and nothing else.
pub open spec fn source_refusal(entries: Seq<BundleEntry>) -> Option<InstallRefusal> {
    match first_entry_refusal(entries, entries.len() as int) {
        Some(refused) => Some(refused),
        None => if has_entry(entries, MANIFEST_NAME@) && has_entry(entries, required(0))
            && has_entry(entries, required(1)) && has_entry(entries, required(2)) {
            None
        } else {
            invalid("bundle must contain exactly the manifest and three executables"@)
        },
    }
}

fn check_entry(entry: &BundleEntry) -> (result: Result<(), InstallError>)
    ensures
        refusal(result) == bundle_entry_refusal(*entry),
{
    if !entry.regular {
        return Err(refuse_with("bundle entry ", entry.path.as_str(), " is not a regular file"));
    }
    match &entry.name {
        None => Err(refuse("bundle filename is not Unicode")),
        Some(name) => {
            if belongs_to_bundle(name.as_str()) {
                Ok(())
            } else {
                let mut reason: String = "bundle contains unexpected file ".to_owned();
                reason.append(name.as_str());
                Err(InstallError::Invalid(reason))
            }
        },
    }
}

fn find_entry(entries: &Vec<BundleEntry>, name: &str) -> (found: bool)
    ensures
        found == has_entry(entries@, name@),
{
    let mut i: usize = 0;
    while i < entries.len()
        invariant
            i <= entries.len(),
            forall|j: int|
                0 <= j < i ==> !((#[trigger] entries@[j]).name matches Some(found) && found@
                    == name@),
        decreases entries.len() - i,
    {
        match &entries[i].name {
            Some(found) => {
                if same_text(found.as_str(), name) {
                    return true;
                }
            },
            None => {},
        }
        i += 1;
    }
    false
}

proof fn lemma_first_entry_stays(entries: Seq<BundleEntry>, n: int, m: int)
    requires
        0 <= n <= m,
        first_entry_refusal(entries, n) is Some,
    ensures
        first_entry_refusal(entries, m) == first_entry_refusal(entries, n),
    decreases m - n,
{
    if n < m {
        lemma_first_entry_stays(entries, n, m - 1);
    }
}

/// Looks through the directory of a bundle.
pub fn validate_source_root(entries: &Vec<BundleEntry>) -> (result: Result<(), InstallError>)
    ensures
        refusal(result) == source_refusal(entries@),
{
    let mut i: usize = 0;
    while i < entries.len()
        invariant
            i <= entries.len(),
            first_entry_refusal(entries@, i as int) is None,
        decreases entries.len() - i,
    {
        match check_entry(&entries[i]) {
            Ok(_) => {},
            Err(error) => {
                proof {
                    lemma_first_entry_stays(entries@, i + 1, entries@.len() as int);
                }
                return Err(error);
            },
        }
        i += 1;
    }
    if find_entry(entries, MANIFEST_NAME) && find_entry(entries, required_file(0)) && find_entry(
        entries,
        required_file(1),
    ) && find_entry(entries, required_file(2)) {
        Ok(())
    } else {
        Err(refuse("bundle must contain exactly the manifest and three executables"))
    }
}

/// The first refusal among the digests of the first `n` files.
pub open spec fn digest_refusal(files: Seq<FileView>, n: int) -> Option<InstallRefusal>
    decreases n,
{
    if n <= 0 {
        None
    } else {
        match digest_refusal(files, n - 1) {
            Some(refused) => Some(refused),
            None => if is_digest(files[n - 1].sha256) {
                None
            } else {
                invalid(files[n - 1].path + " has an invalid SHA-256"@)
            },
        }
    }
}

/// Whether each executable is declared.
pub open spec fn declares_all(manifest: ManifestView) -> bool {
    manifest.find(required(0)) is Some && manifest.find(required(1)) is Some && manifest.find(
        required(2),
    ) is Some
}

/// Why a manifest is refused on a machine of an architecture, or nothing.
pub open spec fn manifest_refusal(manifest: ManifestView, architecture: Seq<char>) -> Option<
    InstallRefusal,
> {
    if manifest.bundle_format != 1 || manifest.protocol_major != 1 {
        invalid("bundle_format and protocol_major must be 1"@)
    } else if !manifest.schemas_fit() {
        invalid("controller schema compatibility range is invalid"@)
    } else if !manifest.has_runtime_format() {
        invalid("supervisor runtime format 1 is required"@)
    } else {
        match target_of(architecture) {
            None => invalid("unsupported native architecture "@ + architecture),
            Some(expected) => if manifest.target != expected {
                invalid("bundle target "@ + manifest.target + " does not match "@ + expected)
            } else if manifest.files.len() != REQUIRED_FILES {
                invalid("manifest must declare exactly the three SUSM executables"@)
            } else if !declares_all(manifest) {
                invalid("manifest contains an unexpected file set"@)
            } else {
                digest_refusal(manifest.files, manifest.files.len() as int)
            },
        }
    }
}

proof fn lemma_digest_refusal_stays(files: Seq<FileView>, n: int, m: int)
    requires
        0 <= n <= m,
        digest_refusal(files, n) is Some,
    ensures
        digest_refusal(files, m) == digest_refusal(files, n),
    decreases m - n,
{
    if n < m {
        lemma_digest_refusal_stays(files, n, m - 1);
    }
}

/// Checks a manifest on a machine of an architecture.
pub fn validate_manifest(manifest: &Manifest, architecture: &str) -> (result: Result<
    (),
    InstallError,
>)
    ensures
        refusal(result) == manifest_refusal(manifest@, architecture@),
{
    if manifest.bundle_format != 1 || manifest.protocol_major != 1 {
        return Err(refuse("bundle_format and protocol_major must be 1"));
    }
    if !manifest.schemas_fit() {
        return Err(refuse("controller schema compatibility range is invalid"));
    }
    if !manifest.has_runtime_format() {
        return Err(refuse("supervisor runtime format 1 is required"));
    }
    let expected: &str = match native_target(architecture) {
        Some(target) => target,
        None => {
            let mut reason: String = "unsupported native architecture ".to_owned();
            reason.append(architecture);
            return Err(InstallError::Invalid(reason));
        },
    };
    if !same_text(manifest.target.as_str(), expected) {
        let mut reason: String = "bundle target ".to_owned();
        reason.append(manifest.target.as_str());
        reason.append(" does not match ");
        reason.append(expected);
        return Err(InstallError::Invalid(reason));
    }
    if manifest.files.len() != REQUIRED_FILES {
        return Err(refuse("manifest must declare exactly the three SUSM executables"));
    }
    if manifest.find(required_file(0)).is_none() || manifest.find(required_file(1)).is_none()
        || manifest.find(required_file(2)).is_none() {
        return Err(refuse("manifest contains an unexpected file set"));
    }
    let mut i: usize = 0;
    while i < manifest.files.len()
        invariant
            i <= manifest.files.len(),
            digest_refusal(manifest@.files, i as int) is None,
            manifest_refusal(manifest@, architecture@) == digest_refusal(
                manifest@.files,
                manifest@.files.len() as int,
            ),
        decreases manifest.files.len() - i,
    {
        let file: &ManifestFile = &manifest.files[i];
        assert(manifest@.files[i as int] == file@);
        if !valid_digest(file.sha256.as_str()) {
            let mut reason: String = file.path.clone();
            reason.append(" has an invalid SHA-256");
            proof {
                lemma_digest_refusal_stays(manifest@.files, i + 1, manifest@.files.len() as int);
            }
            return Err(InstallError::Invalid(reason));
        }
        i += 1;
    }
    Ok(())
}

/// A manifest that passes declares each executable once and nothing else, each with a proper
/// digest.
pub proof fn law_manifests_declare_each_file_once(
    manifest: ManifestView,
    architecture: Seq<char>,
    i: int,
    j: int,
)
    requires
        manifest_refusal(manifest, architecture) is None,
        0 <= i < manifest.files.len(),
        0 <= j < manifest.files.len(),
    ensures
        belongs(manifest.files[i].path) && manifest.files[i].path != MANIFEST_NAME@,
        manifest.files[i].path == manifest.files[j].path ==> i == j,
        is_digest(manifest.files[i].sha256),
{
    let files = manifest.files;
    lemma_bundle_names_differ();
    let a = lemma_found_at(files, required(0));
    let b = lemma_found_at(files, required(1));
    let c = lemma_found_at(files, required(2));
    assert(a != b && a != c && b != c);
    assert(required(0) == required(0) && required(1) == required(1) && required(2) == required(2));
    if i == a {
        assert(belongs(required(0)));
    } else if i == b {
        assert(belongs(required(1)));
    } else {
        assert(i == c);
        assert(belongs(required(2)));
    }
    lemma_digests_hold(files, files.len() as int, i);
}

proof fn lemma_found_at(files: Seq<FileView>, name: Seq<char>) -> (at: int)
    requires
        first_named(files, name) is Some,
    ensures
        0 <= at < files.len(),
        files[at].path == name,
        first_named(files, name) == Some(files[at]),
    decreases files.len(),
{
    if files[0].path == name {
        0
    } else {
        lemma_found_at(files.drop_first(), name) + 1
    }
}

proof fn lemma_digests_hold(files: Seq<FileView>, n: int, i: int)
    requires
        digest_refusal(files, n) is None,
        0 <= i < n,
    ensures
        is_digest(files[i].sha256),
    decreases n,
{
    if i < n - 1 {
        lemma_digests_hold(files, n - 1, i);
    }
}

/// What was found of an executable of a bundle.
#[derive(Debug)]
pub enum FileFacts {
    /// It cannot be looked at, for this reason.
    Unreadable(String),
    /// Whether it is a file, its size, and the digest of what it holds or why that cannot be read.
    Present { is_file: bool, size: u64, digest: Result<String, String> },
}

/// Why an executable that is declared is refused, or nothing, where `total` bytes stand before it.
pub open spec fn payload_file_refusal(
    root: Seq<char>,
    name: Seq<char>,
    declared: FileView,
    total: nat,
    facts: FileFacts,
) -> Option<InstallRefusal> {
    if declared.size > MAX_FILE_BYTES {
        invalid(name + " exceeds 256 MiB"@)
    } else if total + declared.size > u64::MAX {
        invalid("payload size overflowed"@)
    } else {
        match facts {
            FileFacts::Unreadable(source) => Some(
                InstallRefusal::Io { path: joined(root, name), source: source@ },
            ),
            FileFacts::Present { is_file: _, size, digest } => if size != declared.size {
                invalid(
                    name + " size is "@ + decimal(size as nat) + ", expected "@ + decimal(
                        declared.size as nat,
                    ),
                )
            } else {
                match digest {
                    Err(source) => Some(
                        InstallRefusal::Io { path: joined(root, name), source: source@ },
                    ),
                    Ok(text) => if text@ != declared.sha256 {
                        invalid(name + " SHA-256 does not match"@)
                    } else {
                        None
                    },
                }
            },
        }
    }
}

/// Why the executables from the `i`-th on are refused, or nothing.
pub open spec fn payload_refusal(
    root: Seq<char>,
    manifest: ManifestView,
    facts: Seq<FileFacts>,
    i: int,
    total: nat,
) -> Option<InstallRefusal>
    decreases REQUIRED_FILES - i,
{
    if i >= REQUIRED_FILES {
        if total > MAX_PAYLOAD_BYTES {
            invalid("payload exceeds 768 MiB"@)
        } else {
            None
        }
    } else {
        match manifest.find(required(i)) {
            None => invalid("manifest does not declare "@ + required(i)),
            Some(declared) => match payload_file_refusal(root, required(i), declared, total, facts[i]) {
                Some(refused) => Some(refused),
                None => payload_refusal(root, manifest, facts, i + 1, total + declared.size as nat),
            },
        }
    }
}

fn check_payload_file(root: &str, name: &str, declared: &ManifestFile, total: u64, facts: &FileFacts) -> (
result: Result<u64, InstallError>)
    ensures
        refusal(result) == payload_file_refusal(root@, name@, declared@, total as nat, *facts),
        result matches Ok(sum) ==> sum == total + declared.size,
{
    if declared.size > MAX_FILE_BYTES {
        let mut reason: String = name.to_owned();
        reason.append(" exceeds 256 MiB");
        return Err(InstallError::Invalid(reason));
    }
    let sum: u64 = match total.checked_add(declared.size) {
        Some(sum) => sum,
        None => {
            return Err(refuse("payload size overflowed"));
        },
    };
    match facts {
        FileFacts::Unreadable(source) => Err(
            InstallError::Io { path: join_paths(root, name), source: source.clone() },
        ),
        FileFacts::Present { is_file: _, size, digest } => {
            if *size != declared.size {
                let mut reason: String = name.to_owned();
                reason.append(" size is ");
                push_decimal(&mut reason, *size);
                reason.append(", expected ");
                push_decimal(&mut reason, declared.size);
                return Err(InstallError::Invalid(reason));
            }
            match digest {
                Err(source) => Err(
                    InstallError::Io { path: join_paths(root, name), source: source.clone() },
                ),
                Ok(text) => {
                    if !same_text(text.as_str(), declared.sha256.as_str()) {
                        let mut reason: String = name.to_owned();
                        reason.append(" SHA-256 does not match");
                        return Err(InstallError::Invalid(reason));
                    }
                    Ok(sum)
                },
            }
        },
    }
}

/// Holds the executables of a bundle against its manifest, in their order.
pub fn check_payload(root: &str, manifest: &Manifest, facts: &Vec<FileFacts>) -> (result: Result<
    (),
    InstallError,
>)
    requires
        facts.len() == REQUIRED_FILES,
    ensures
        refusal(result) == payload_refusal(root@, manifest@, facts@, 0, 0),
{
    let mut total: u64 = 0;
    let mut i: usize = 0;
    while i < REQUIRED_FILES
        invariant
            i <= REQUIRED_FILES,
            facts.len() == REQUIRED_FILES,
            payload_refusal(root@, manifest@, facts@, 0, 0) == payload_refusal(
                root@,
                manifest@,
                facts@,
                i as int,
                total as nat,
            ),
        decreases REQUIRED_FILES - i,
    {
        let name: &str = required_file(i);
        let declared: &ManifestFile = match manifest.find(name) {
            Some(index) => &manifest.files[index],
            None => {
                let mut reason: String = "manifest does not declare ".to_owned();
                reason.append(name);
                return Err(InstallError::Invalid(reason));
            },
        };
        total = check_payload_file(root, name, declared, total, &facts[i])?;
        i += 1;
    }
    if total > MAX_PAYLOAD_BYTES {
        return Err(refuse("payload exceeds 768 MiB"));
    }
    Ok(())
}

/// A manifest or a selection that was read, or why it was not.
pub open spec fn parsed_manifest(parsed: Result<Manifest, String>) -> Result<ManifestView, Seq<char>> {
    match parsed {
        Ok(manifest) => Ok(manifest@),
        Err(reason) => Err(reason@),
    }
}

/// The text of a manifest.
pub fn manifest_text(bytes: Vec<u8>) -> (result: Result<String, InstallError>)
    ensures
        match result {
            Ok(text) => valid_utf8(bytes@) && text@ == decode_utf8(bytes@),
            Err(error) => !valid_utf8(bytes@) && error@ == InstallRefusal::Invalid(
                "manifest is not UTF-8"@,
            ),
        },
{
    match utf8_text(bytes) {
        Ok(text) => Ok(text),
        Err(_) => Err(refuse("manifest is not UTF-8")),
    }
}

/// Results of texts by what they hold.
pub open spec fn version_view(version: Result<String, String>) -> Result<Seq<char>, Seq<char>> {
    match version {
        Ok(build) => Ok(build@),
        Err(reason) => Err(reason@),
    }
}

/// Why a bundle is refused, or nothing, where its version reads as `version`.
pub open spec fn bundle_refusal(
    root: Seq<char>,
    entries: Seq<BundleEntry>,
    bytes: Seq<u8>,
    parsed: Result<ManifestView, Seq<char>>,
    version: Result<Seq<char>, Seq<char>>,
    facts: Seq<FileFacts>,
    architecture: Seq<char>,
) -> Option<InstallRefusal> {
    match source_refusal(entries) {
        Some(refused) => Some(refused),
        None => if !valid_utf8(bytes) {
            invalid("manifest is not UTF-8"@)
        } else {
            match parsed {
                Err(reason) => Some(InstallRefusal::Manifest(reason)),
                Ok(manifest) => match manifest_refusal(manifest, architecture) {
                    Some(refused) => Some(refused),
                    None => match version {
                        Err(reason) => Some(InstallRefusal::Version(reason)),
                        Ok(build) => if build.len() > 0 {
                            invalid("bundle version must not contain build metadata"@)
                        } else {
                            payload_refusal(root, manifest, facts, 0, 0)
                        },
                    },
                },
            }
        },
    }
}

/// What is installed, and where.
#[derive(Debug)]
pub struct InstallPlan {
    pub version: String,
    pub identity: String,
    /// The directory of all versions.
    pub versions: String,
    /// The directory of this version.
    pub directory: String,
    pub selection_path: String,
    pub selection: String,
    /// The directory of the executable that users call.
    pub bin: String,
    pub cli: String,
}

#[verifier::ext_equal]
pub struct PlanView {
    pub version: Seq<char>,
    pub identity: Seq<char>,
    pub versions: Seq<char>,
    pub directory: Seq<char>,
    pub selection_path: Seq<char>,
    pub selection: Seq<char>,
    pub bin: Seq<char>,
    pub cli: Seq<char>,
}

impl InstallPlan {
    pub open spec fn view(&self) -> PlanView {
        PlanView {
            version: self.version@,
            identity: self.identity@,
            versions: self.versions@,
            directory: self.directory@,
            selection_path: self.selection_path@,
            selection: self.selection@,
            bin: self.bin@,
            cli: self.cli@,
        }
    }
}

/// The text of a selection.
pub open spec fn selection_text(version: Seq<char>, identity: Seq<char>) -> Seq<char> {
    "bundle_format = 1\nversion = "@ + debug_form(version) + "\nmanifest_sha256 = "@ + debug_form(
        identity,
    ) + "\n"@
}

/// Where a version of an identity is installed.
pub open spec fn plan_of(installation: Seq<char>, version: Seq<char>, identity: Seq<char>) -> PlanView {
    let versions = joined(installation, "versions"@);
    let bin = joined(installation, "bin"@);
    PlanView {
        version,
        identity,
        versions,
        directory: joined(versions, directory_of(version, identity)),
        selection_path: joined(installation, SELECTION_NAME@),
        selection: selection_text(version, identity),
        bin,
        cli: joined(bin, required(0)),
    }
}

fn make_plan(installation: &str, version: String, identity: String) -> (plan: InstallPlan)
    ensures
        plan@ == plan_of(installation@, version@, identity@),
{
    let mut selection: String = "bundle_format = 1\nversion = ".to_owned();
    let quoted: String = debug_text(version.as_str());
    selection.append(quoted.as_str());
    selection.append("\nmanifest_sha256 = ");
    let quoted: String = debug_text(identity.as_str());
    selection.append(quoted.as_str());
    selection.append("\n");
    let versions: String = join_paths(installation, "versions");
    let directory: String = join_paths(
        versions.as_str(),
        version_directory(version.as_str(), identity.as_str()).as_str(),
    );
    let bin: String = join_paths(installation, "bin");
    let cli: String = join_paths(bin.as_str(), required_file(0));
    InstallPlan {
        version,
        identity,
        versions,
        directory,
        selection_path: join_paths(installation, SELECTION_NAME),
        selection,
        bin,
        cli,
    }
}

/// Judges a bundle whose version reads as `version`, and plans its installation. Where versions go
/// matters only for a bundle that is accepted.
pub fn judge_bundle(
    root: &str,
    entries: &Vec<BundleEntry>,
    bytes: &Vec<u8>,
    parsed: &Result<Manifest, String>,
    version: &Result<String, String>,
    facts: &Vec<FileFacts>,
    architecture: &str,
    local_app_data: Option<&str>,
) -> (result: Result<InstallPlan, InstallError>)
    requires
        facts.len() == REQUIRED_FILES,
    ensures
        refusal(result) == (match bundle_refusal(
            root@,
            entries@,
            bytes@,
            parsed_manifest(*parsed),
            version_view(*version),
            facts@,
            architecture@,
        ) {
            Some(refusal) => Some(refusal),
            None => root_refusal(local_app_data),
        }),
        result matches Ok(plan) ==> (parsed matches Ok(manifest) && local_app_data matches Some(data)
            && plan@ == plan_of(installation_of(data@), manifest.version@, digest_of(bytes@))
            && is_digest(plan@.identity)),
{
    match validate_source_root(entries) {
        Ok(_) => {},
        Err(error) => {
            return Err(error);
        },
    }
    if utf8_text(copy_bytes(bytes)).is_err() {
        return Err(refuse("manifest is not UTF-8"));
    }
    let manifest: &Manifest = match parsed {
        Ok(manifest) => manifest,
        Err(reason) => {
            return Err(InstallError::Manifest(reason.clone()));
        },
    };
    match validate_manifest(manifest, architecture) {
        Ok(_) => {},
        Err(error) => {
            return Err(error);
        },
    }
    match version {
        Err(reason) => {
            return Err(InstallError::Version(reason.clone()));
        },
        Ok(build) => {
            if build.as_str().unicode_len() > 0 {
                return Err(refuse("bundle version must not contain build metadata"));
            }
        },
    }
    match check_payload(root, manifest, facts) {
        Ok(_) => {},
        Err(error) => {
            return Err(error);
        },
    }
    let installation: String = match installation_root(local_app_data) {
        Ok(installation) => installation,
        Err(error) => {
            return Err(error);
        },
    };
    let identity: String = digest_text(bytes.as_slice());
    Ok(make_plan(installation.as_str(), manifest.version.clone(), identity))
}

/// How the version of a manifest that was read reads.
pub open spec fn read_version(parsed: Result<ManifestView, Seq<char>>) -> Result<
    Seq<char>,
    Seq<char>,
> {
    match parsed {
        Ok(manifest) => version_build(manifest.version),
        Err(reason) => Err(reason),
    }
}

/// Checks a bundle in the directory `root` and plans its installation: `entries` lie in the
/// directory, `bytes` are in its manifest and read as `parsed`, and `facts` were found of its
/// executables in their order.
pub fn validate_and_install(
    root: &str,
    entries: &Vec<BundleEntry>,
    bytes: &Vec<u8>,
    parsed: &Result<Manifest, String>,
    facts: &Vec<FileFacts>,
    architecture: &str,
    local_app_data: Option<&str>,
) -> (result: Result<InstallPlan, InstallError>)
    requires
        facts.len() == REQUIRED_FILES,
    ensures
        refusal(result) == (match bundle_refusal(
            root@,
            entries@,
            bytes@,
            parsed_manifest(*parsed),
            read_version(parsed_manifest(*parsed)),
            facts@,
            architecture@,
        ) {
            Some(refusal) => Some(refusal),
            None => root_refusal(local_app_data),
        }),
        result matches Ok(plan) ==> (parsed matches Ok(manifest) && local_app_data matches Some(data)
            && plan@ == plan_of(installation_of(data@), manifest.version@, digest_of(bytes@))
            && is_digest(plan@.identity)),
{
    let version: Result<String, String> = match parsed {
        Ok(manifest) => parse_version(manifest.version.as_str()),
        Err(reason) => Err(reason.clone()),
    };
    judge_bundle(root, entries, bytes, parsed, &version, facts, architecture, local_app_data)
}

/// One step of an installation.
#[derive(Debug)]
pub enum InstallStep {
    CreateDirectories(String),
    /// An installed version is checked once more.
    CheckInstalled(String),
    CreateDirectory(String),
    WriteFile { path: String, bytes: Vec<u8> },
    CopyFile { from: String, to: String },
    Rename { from: String, to: String },
    /// A file is put in the place of another at once.
    Replace { path: String, bytes: Vec<u8> },
    /// A file is put in the place of another at once, with what a third one holds.
    ReplaceWithCopy { from: String, to: String, limit: u64 },
}

#[verifier::ext_equal]
pub enum StepView {
    CreateDirectories(Seq<char>),
    CheckInstalled(Seq<char>),
    CreateDirectory(Seq<char>),
    WriteFile { path: Seq<char>, bytes: Seq<u8> },
    CopyFile { from: Seq<char>, to: Seq<char> },
    Rename { from: Seq<char>, to: Seq<char> },
    Replace { path: Seq<char>, bytes: Seq<u8> },
    ReplaceWithCopy { from: Seq<char>, to: Seq<char>, limit: u64 },
}

impl InstallStep {
    pub open spec fn view(&self) -> StepView {
        match *self {
            InstallStep::CreateDirectories(path) => StepView::CreateDirectories(path@),
            InstallStep::CheckInstalled(path) => StepView::CheckInstalled(path@),
            InstallStep::CreateDirectory(path) => StepView::CreateDirectory(path@),
            InstallStep::WriteFile { path, bytes } => StepView::WriteFile {
                path: path@,
                bytes: bytes@,
            },
            InstallStep::CopyFile { from, to } => StepView::CopyFile { from: from@, to: to@ },
            InstallStep::Rename { from, to } => StepView::Rename { from: from@, to: to@ },
            InstallStep::Replace { path, bytes } => StepView::Replace { path: path@, bytes: bytes@ },
            InstallStep::ReplaceWithCopy { from, to, limit } => StepView::ReplaceWithCopy {
                from: from@,
                to: to@,
                limit,
            },
        }
    }
}

/// Steps by what they do.
pub open spec fn step_views(steps: Seq<InstallStep>) -> Seq<StepView> {
    steps.map_values(|step: InstallStep| step@)
}

impl PlanView {
    /// The directory in which a version is put together.
    pub open spec fn staging(self, id: Seq<char>) -> Seq<char> {
        joined(self.versions, ".staging-"@ + id)
    }

    /// How a version comes to stand that is not there yet: it is put together aside, and then moved
    /// to its place at once.
    pub open spec fn staging_steps(self, root: Seq<char>, bytes: Seq<u8>, id: Seq<char>) -> Seq<
        StepView,
    > {
        let staging = self.staging(id);
        seq![
            StepView::CreateDirectory(staging),
            StepView::WriteFile { path: joined(staging, MANIFEST_NAME@), bytes },
            StepView::CopyFile {
                from: joined(root, required(0)),
                to: joined(staging, required(0)),
            },
            StepView::CopyFile {
                from: joined(root, required(1)),
                to: joined(staging, required(1)),
            },
            StepView::CopyFile {
                from: joined(root, required(2)),
                to: joined(staging, required(2)),
            },
            StepView::Rename { from: staging, to: self.directory },
        ]
    }

    /// How the version is selected, and its executable put where users call it.
    pub open spec fn selecting_steps(self) -> Seq<StepView> {
        seq![
            StepView::Replace { path: self.selection_path, bytes: encode_utf8(self.selection) },
            StepView::CreateDirectories(self.bin),
            StepView::ReplaceWithCopy {
                from: joined(self.directory, required(0)),
                to: self.cli,
                limit: MAX_FILE_BYTES,
            },
        ]
    }

    /// The steps of the installation, where `installed` tells whether the version stands already.
    pub open spec fn steps(
        self,
        root: Seq<char>,
        bytes: Seq<u8>,
        installed: bool,
        id: Seq<char>,
    ) -> Seq<StepView> {
        seq![StepView::CreateDirectories(self.versions)] + (if installed {
            seq![StepView::CheckInstalled(self.directory)]
        } else {
            self.staging_steps(root, bytes, id)
        }) + self.selecting_steps()
    }
}

impl InstallPlan {
    /// The steps of the installation from `root`, whose manifest holds `bytes`. `installed` tells
    /// whether the version stands already, and `id` makes the directory unique in which it is put
    /// together.
    pub fn steps(&self, root: &str, bytes: &Vec<u8>, installed: bool, id: &str) -> (steps: Vec<
        InstallStep,
    >)
        ensures
            step_views(steps@) == self@.steps(root@, bytes@, installed, id@),
    {
        let mut steps: Vec<InstallStep> = Vec::new();
        steps.push(InstallStep::CreateDirectories(self.versions.clone()));
        if installed {
            steps.push(InstallStep::CheckInstalled(self.directory.clone()));
        } else {
            let mut staging_name: String = ".staging-".to_owned();
            staging_name.append(id);
            let staging: String = join_paths(self.versions.as_str(), staging_name.as_str());
            steps.push(InstallStep::CreateDirectory(staging.clone()));
            steps.push(
                InstallStep::WriteFile {
                    path: join_paths(staging.as_str(), MANIFEST_NAME),
                    bytes: copy_bytes(bytes),
                },
            );
            steps.push(
                InstallStep::CopyFile {
                    from: join_paths(root, required_file(0)),
                    to: join_paths(staging.as_str(), required_file(0)),
                },
            );
            steps.push(
                InstallStep::CopyFile {
                    from: join_paths(root, required_file(1)),
                    to: join_paths(staging.as_str(), required_file(1)),
                },
            );
            steps.push(
                InstallStep::CopyFile {
                    from: join_paths(root, required_file(2)),
                    to: join_paths(staging.as_str(), required_file(2)),
                },
            );
            steps.push(InstallStep::Rename { from: staging, to: self.directory.clone() });
        }
        let mut selection: Vec<u8> = Vec::new();
        append(&mut selection, self.selection.as_str().as_bytes());
        assert(selection@ =~= encode_utf8(self.selection@));
        steps.push(
            InstallStep::Replace { path: self.selection_path.clone(), bytes: selection },
        );
        steps.push(InstallStep::CreateDirectories(self.bin.clone()));
        steps.push(
            InstallStep::ReplaceWithCopy {
                from: join_paths(self.directory.as_str(), required_file(0)),
                to: self.cli.clone(),
                limit: MAX_FILE_BYTES,
            },
        );
        assert(step_views(steps@) =~= self@.steps(root@, bytes@, installed, id@));
        steps
    }
}

/// Whether a step changes which version is selected or what users call.
pub open spec fn is_visible(step: StepView) -> bool {
    step is Replace || step is ReplaceWithCopy
}

/// A version is complete in its place, or was checked there, before anything of it is visible, and
/// what is put together is only moved to its place once all of its files are there.
pub proof fn law_versions_stand_before_they_are_selected(
    plan: PlanView,
    root: Seq<char>,
    bytes: Seq<u8>,
    installed: bool,
    id: Seq<char>,
    i: int,
)
    requires
        0 <= i < plan.steps(root, bytes, installed, id).len(),
        is_visible(plan.steps(root, bytes, installed, id)[i]),
    ensures
        exists|j: int|
            0 <= j < i && (#[trigger] plan.steps(root, bytes, installed, id)[j]
                == StepView::CheckInstalled(plan.directory) || plan.steps(
                root,
                bytes,
                installed,
                id,
            )[j] == (StepView::Rename { from: plan.staging(id), to: plan.directory })),
        forall|k: int|
            0 <= k < plan.steps(root, bytes, installed, id).len() && ((#[trigger] plan.steps(
                root,
                bytes,
                installed,
                id,
            )[k]) is CopyFile || plan.steps(root, bytes, installed, id)[k] is WriteFile) ==> k < 6
                && !installed && plan.steps(root, bytes, installed, id)[6] is Rename,
{
    let steps = plan.steps(root, bytes, installed, id);
    let parts = plan.selecting_steps();
    if installed {
        assert(steps.len() == 5);
        assert(steps[1] == StepView::CheckInstalled(plan.directory));
        assert(steps[0] is CreateDirectories);
        assert(steps[2] == parts[0]);
        assert(steps[3] == parts[1]);
        assert(steps[4] == parts[2]);
        assert(i > 1);
    } else {
        let staged = plan.staging_steps(root, bytes, id);
        assert(steps.len() == 10);
        assert(forall|k: int| 1 <= k < 7 ==> #[trigger] steps[k] == staged[k - 1]);
        assert(forall|k: int| 7 <= k < 10 ==> #[trigger] steps[k] == parts[k - 7]);
        assert(steps[6] == staged[5]);
        assert(staged[0] is CreateDirectory && staged[1] is WriteFile && staged[2] is CopyFile
            && staged[3] is CopyFile && staged[4] is CopyFile && staged[5] is Rename);
        assert(parts[0] is Replace && parts[1] is CreateDirectories && parts[2] is ReplaceWithCopy);
        assert(i > 6);
    }
}

/// The directory and the path under which a file is written before it replaces another.
pub fn temporary_path(path: &str, id: &str) -> (result: Result<(String, String), InstallError>)
    ensures
        match result {
            Ok((directory, temporary)) => parent(path@) == Some(directory@) && temporary@ == joined(
                directory@,
                "."@ + (match file_name(path@) {
                    Some(name) => name,
                    None => Seq::empty(),
                }) + "."@ + id@ + ".tmp"@,
            ),
            Err(error) => parent(path@) is None && error@ == InstallRefusal::Invalid(
                "installation path has no parent"@,
            ),
        },
{
    let directory: String = match parent_path(path) {
        Some(directory) => directory,
        None => {
            return Err(refuse("installation path has no parent"));
        },
    };
    let file: String = match path_file_name(path) {
        Some(name) => name,
        None => String::new(),
    };
    let mut name: String = ".".to_owned();
    name.append(file.as_str());
    name.append(".");
    name.append(id);
    name.append(".tmp");
    proof {
        if file_name(path@) is None {
            assert(file@ =~= Seq::empty());
        }
    }
    let temporary: String = join_paths(directory.as_str(), name.as_str());
    Ok((directory, temporary))
}

/// Why an installed executable is refused, or nothing.
pub open spec fn installed_file_refusal(
    path: Seq<char>,
    name: Seq<char>,
    declared: FileView,
    facts: FileFacts,
) -> Option<InstallRefusal> {
    match facts {
        FileFacts::Unreadable(source) => Some(
            InstallRefusal::Io { path: joined(path, name), source: source@ },
        ),
        FileFacts::Present { is_file, size, digest } => if !is_file || size != declared.size {
            invalid("installed "@ + name + " does not match its manifest"@)
        } else {
            match digest {
                Err(source) => Some(
                    InstallRefusal::Io { path: joined(path, name), source: source@ },
                ),
                Ok(text) => if text@ != declared.sha256 {
                    invalid("installed "@ + name + " does not match its manifest"@)
                } else {
                    None
                },
            }
        },
    }
}

/// Why the installed executables from the `i`-th on are refused, or nothing.
pub open spec fn installed_files_refusal(
    path: Seq<char>,
    manifest: ManifestView,
    facts: Seq<FileFacts>,
    i: int,
) -> Option<InstallRefusal>
    decreases REQUIRED_FILES - i,
{
    if i >= REQUIRED_FILES {
        None
    } else {
        match manifest.find(required(i)) {
            None => invalid("manifest does not declare "@ + required(i)),
            Some(declared) => match installed_file_refusal(path, required(i), declared, facts[i]) {
                Some(refused) => Some(refused),
                None => installed_files_refusal(path, manifest, facts, i + 1),
            },
        }
    }
}

/// Why an installed version is refused, or nothing.
pub open spec fn installed_refusal(
    path: Seq<char>,
    name: Option<Seq<char>>,
    bytes: Seq<u8>,
    parsed: Result<ManifestView, Seq<char>>,
    facts: Seq<FileFacts>,
    architecture: Seq<char>,
) -> Option<InstallRefusal> {
    match name {
        None => invalid("installed directory name is invalid"@),
        Some(name) => match name_parts(name) {
            None => invalid("installed directory has no manifest identity"@),
            Some((_, identity)) => if digest_of(bytes) != identity {
                invalid("installed manifest identity does not match "@ + name)
            } else if !valid_utf8(bytes) {
                invalid("manifest is not UTF-8"@)
            } else {
                match parsed {
                    Err(reason) => Some(InstallRefusal::Manifest(reason)),
                    Ok(manifest) => match manifest_refusal(manifest, architecture) {
                        Some(refused) => Some(refused),
                        None => installed_files_refusal(path, manifest, facts, 0),
                    },
                }
            },
        },
    }
}

fn check_installed_file(path: &str, name: &str, declared: &ManifestFile, facts: &FileFacts) -> (
result: Result<(), InstallError>)
    ensures
        refusal(result) == installed_file_refusal(path@, name@, declared@, *facts),
{
    match facts {
        FileFacts::Unreadable(source) => Err(
            InstallError::Io { path: join_paths(path, name), source: source.clone() },
        ),
        FileFacts::Present { is_file, size, digest } => {
            if !*is_file || *size != declared.size {
                return Err(refuse_with("installed ", name, " does not match its manifest"));
            }
            match digest {
                Err(source) => Err(
                    InstallError::Io { path: join_paths(path, name), source: source.clone() },
                ),
                Ok(text) => {
                    if same_text(text.as_str(), declared.sha256.as_str()) {
                        Ok(())
                    } else {
                        Err(refuse_with("installed ", name, " does not match its manifest"))
                    }
                },
            }
        },
    }
}

fn check_installed_files(path: &str, manifest: &Manifest, facts: &Vec<FileFacts>) -> (result: Result<
    (),
    InstallError,
>)
    requires
        facts.len() == REQUIRED_FILES,
    ensures
        refusal(result) == installed_files_refusal(path@, manifest@, facts@, 0),
{
    let mut i: usize = 0;
    while i < REQUIRED_FILES
        invariant
            i <= REQUIRED_FILES,
            facts.len() == REQUIRED_FILES,
            installed_files_refusal(path@, manifest@, facts@, 0) == installed_files_refusal(
                path@,
                manifest@,
                facts@,
                i as int,
            ),
        decreases REQUIRED_FILES - i,
    {
        let file: &str = required_file(i);
        let declared: &ManifestFile = match manifest.find(file) {
            Some(index) => &manifest.files[index],
            None => {
                let mut reason: String = "manifest does not declare ".to_owned();
                reason.append(file);
                return Err(InstallError::Invalid(reason));
            },
        };
        match check_installed_file(path, file, declared, &facts[i]) {
            Ok(_) => {},
            Err(error) => {
                return Err(error);
            },
        }
        i += 1;
    }
    Ok(())
}

/// Checks an installed version: `name` is that of its directory, where that is Unicode, `bytes` are
/// in its manifest and read as `parsed`, and `facts` were found of its executables in their order.
pub fn validate_installed_directory(
    path: &str,
    name: Option<&str>,
    bytes: &Vec<u8>,
    parsed: &Result<Manifest, String>,
    facts: &Vec<FileFacts>,
    architecture: &str,
) -> (result: Result<(), InstallError>)
    requires
        facts.len() == REQUIRED_FILES,
    ensures
        refusal(result) == installed_refusal(
            path@,
            match name {
                Some(name) => Some(name@),
                None => None,
            },
            bytes@,
            parsed_manifest(*parsed),
            facts@,
            architecture@,
        ),
{
    let name: &str = match name {
        Some(name) => name,
        None => {
            return Err(refuse("installed directory name is invalid"));
        },
    };
    let (_, identity): (String, String) = match split_directory(name) {
        Some(parts) => parts,
        None => {
            return Err(refuse("installed directory has no manifest identity"));
        },
    };
    if !same_text(digest_text(bytes.as_slice()).as_str(), identity.as_str()) {
        let mut reason: String = "installed manifest identity does not match ".to_owned();
        reason.append(name);
        return Err(InstallError::Invalid(reason));
    }
    if utf8_text(copy_bytes(bytes)).is_err() {
        return Err(refuse("manifest is not UTF-8"));
    }
    let manifest: &Manifest = match parsed {
        Ok(manifest) => manifest,
        Err(reason) => {
            return Err(InstallError::Manifest(reason.clone()));
        },
    };
    match validate_manifest(manifest, architecture) {
        Ok(_) => {},
        Err(error) => {
            return Err(error);
        },
    }
    check_installed_files(path, manifest, facts)
}

} // verus!
