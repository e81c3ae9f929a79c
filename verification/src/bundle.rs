//! Bundles of executables: their manifest, the selection of an installed one, and what is asked of
//! both.

use vstd::prelude::*;
use vstd::string::*;
use vstd::utf8::{decode_utf8, valid_utf8};

use crate::config::canonical::{sha256, sha256_of};
use crate::text::{chars_of, digit, hex, hex_text, same_text, text_of_range};

verus! {

/// The largest manifest or selection, in bytes.
pub const MAX_MANIFEST_BYTES: u64 = 64 * 1024;

/// The largest executable, in bytes.
pub const MAX_FILE_BYTES: u64 = 256 * 1024 * 1024;

/// The largest sum of the executables, in bytes.
pub const MAX_PAYLOAD_BYTES: u64 = 768 * 1024 * 1024;

/// The largest archive, in bytes.
pub const MAX_ZIP_BYTES: u64 = 1024 * 1024 * 1024;

/// The name of the manifest in a bundle.
pub const MANIFEST_NAME: &'static str = "manifest.toml";

/// The file that tells which installed version is selected.
pub const SELECTION_NAME: &'static str = "current.susm-install";

/// How many executables a bundle holds.
pub const REQUIRED_FILES: usize = 3;

/// The `i`-th executable of a bundle.
pub open spec fn required(i: int) -> Seq<char> {
    if i <= 0 {
        "susm.exe"@
    } else if i == 1 {
        "susmd.exe"@
    } else {
        "susm-supervisor.exe"@
    }
}

/// The `i`-th executable of a bundle.
pub fn required_file(i: usize) -> (name: &'static str)
    ensures
        name@ == required(i as int),
{
    if i == 0 {
        "susm.exe"
    } else if i == 1 {
        "susmd.exe"
    } else {
        "susm-supervisor.exe"
    }
}

/// The executables of a bundle have different names, and none is named like the manifest.
pub proof fn lemma_bundle_names_differ()
    ensures
        required(0) != required(1),
        required(0) != required(2),
        required(1) != required(2),
        MANIFEST_NAME@ != required(0),
        MANIFEST_NAME@ != required(1),
        MANIFEST_NAME@ != required(2),
{
    reveal_strlit("susm.exe");
    reveal_strlit("susmd.exe");
    reveal_strlit("susm-supervisor.exe");
    reveal_strlit("manifest.toml");
    assert(required(0).len() == 8);
    assert(required(1).len() == 9);
    assert(required(2).len() == 19);
    assert(MANIFEST_NAME@.len() == 13);
}

/// Whether a bundle holds a file of this name.
pub open spec fn belongs(name: Seq<char>) -> bool {
    name == MANIFEST_NAME@ || exists|i: int| 0 <= i < REQUIRED_FILES && #[trigger] required(i) == name
}

/// Whether a bundle holds a file of this name.
pub fn belongs_to_bundle(name: &str) -> (belongs: bool)
    ensures
        belongs == self::belongs(name@),
{
    if same_text(name, MANIFEST_NAME) {
        return true;
    }
    let mut i: usize = 0;
    while i < REQUIRED_FILES
        invariant
            i <= REQUIRED_FILES,
            forall|j: int| 0 <= j < i ==> #[trigger] required(j) != name@,
        decreases REQUIRED_FILES - i,
    {
        if same_text(name, required_file(i)) {
            assert(required(i as int) == name@);
            return true;
        }
        i += 1;
    }
    false
}

/// Whether a character is a lower-case hexadecimal digit.
pub open spec fn is_hex_digit(c: char) -> bool {
    '0' <= c <= '9' || 'a' <= c <= 'f'
}

/// Whether a text is a SHA-256 digest in hexadecimal.
pub open spec fn is_digest(text: Seq<char>) -> bool {
    text.len() == 64 && forall|i: int| 0 <= i < text.len() ==> is_hex_digit(#[trigger] text[i])
}

/// Whether a text is a SHA-256 digest in hexadecimal.
pub fn valid_digest(value: &str) -> (valid: bool)
    ensures
        valid == is_digest(value@),
{
    let chars: Vec<char> = chars_of(value);
    if chars.len() != 64 {
        return false;
    }
    let mut i: usize = 0;
    while i < chars.len()
        invariant
            i <= chars.len(),
            chars@ == value@,
            forall|j: int| 0 <= j < i ==> is_hex_digit(#[trigger] chars@[j]),
        decreases chars.len() - i,
    {
        let c: char = chars[i];
        if !('0' <= c && c <= '9' || 'a' <= c && c <= 'f') {
            assert(!is_hex_digit(value@[i as int]));
            return false;
        }
        i += 1;
    }
    true
}

/// The digest of some bytes in hexadecimal.
pub open spec fn digest_of(bytes: Seq<u8>) -> Seq<char> {
    hex_text(sha256_of(bytes))
}

/// The digest of some bytes in hexadecimal.
pub fn digest_text(bytes: &[u8]) -> (text: String)
    ensures
        text@ == digest_of(bytes@),
        is_digest(text@),
{
    let digest: [u8; 32] = sha256(bytes);
    let text: String = hex(digest.as_slice());
    proof {
        lemma_hex_is_digest(digest@);
    }
    text
}

proof fn lemma_hex_is_digest(bytes: Seq<u8>)
    requires
        bytes.len() == 32,
    ensures
        is_digest(hex_text(bytes)),
{
    let text = hex_text(bytes);
    assert forall|i: int| 0 <= i < text.len() implies is_hex_digit(#[trigger] text[i]) by {
        let d = if i % 2 == 0 {
            (bytes[i / 2] / 16) as nat
        } else {
            (bytes[i / 2] % 16) as nat
        };
        assert(text[i] == digit(d));
        assert(d < 16);
        assert(is_hex_digit(digit(d)));
    }
}

/// What is wrong with bytes that are not valid UTF-8.
pub uninterp spec fn utf8_fault(bytes: Seq<u8>) -> Seq<char>;

/// The text that some bytes hold in UTF-8, by `String::from_utf8`, or what the error says where
/// they are not valid UTF-8. How the error words it is left to the name.
#[verifier::external_body]
pub(crate) fn utf8_text(bytes: Vec<u8>) -> (result: Result<String, String>)
    ensures
        match result {
            Ok(text) => valid_utf8(bytes@) && text@ == decode_utf8(bytes@),
            Err(reason) => !valid_utf8(bytes@) && reason@ == utf8_fault(bytes@),
        },
{
    String::from_utf8(bytes).map_err(|error| error.to_string())
}

/// The build metadata of a semantic version, or why the text is none.
pub uninterp spec fn version_build(text: Seq<char>) -> Result<Seq<char>, Seq<char>>;

/// Reads a semantic version by `semver::Version::parse` and gives its build metadata, or what the
/// error says. Which texts are versions is left to the name.
#[verifier::external_body]
pub(crate) fn parse_version(text: &str) -> (result: Result<String, String>)
    ensures
        match result {
            Ok(build) => version_build(text@) == Ok::<Seq<char>, Seq<char>>(build@),
            Err(reason) => version_build(text@) == Err::<Seq<char>, Seq<char>>(reason@),
        },
{
    match semver::Version::parse(text) {
        Ok(version) => Ok(version.build.as_str().to_owned()),
        Err(error) => Err(error.to_string()),
    }
}

/// The target for which executables of an architecture are built.
pub open spec fn target_of(architecture: Seq<char>) -> Option<Seq<char>> {
    if architecture == "x86_64"@ {
        Some("x86_64-pc-windows-msvc"@)
    } else if architecture == "aarch64"@ {
        Some("aarch64-pc-windows-msvc"@)
    } else {
        None
    }
}

/// The target for which executables of an architecture are built.
pub fn native_target(architecture: &str) -> (target: Option<&'static str>)
    ensures
        match target {
            Some(text) => target_of(architecture@) == Some(text@),
            None => target_of(architecture@) is None,
        },
{
    if same_text(architecture, "x86_64") {
        Some("x86_64-pc-windows-msvc")
    } else if same_text(architecture, "aarch64") {
        Some("aarch64-pc-windows-msvc")
    } else {
        None
    }
}

/// An executable as its manifest declares it.
#[derive(Debug)]
pub struct ManifestFile {
    pub path: String,
    pub size: u64,
    pub sha256: String,
}

#[verifier::ext_equal]
pub struct FileView {
    pub path: Seq<char>,
    pub size: u64,
    pub sha256: Seq<char>,
}

impl ManifestFile {
    pub open spec fn view(&self) -> FileView {
        FileView { path: self.path@, size: self.size, sha256: self.sha256@ }
    }
}

impl Clone for ManifestFile {
    fn clone(&self) -> (copy: ManifestFile)
        ensures
            copy@ == self@,
    {
        ManifestFile {
            path: self.path.clone(),
            size: self.size,
            sha256: self.sha256.clone(),
        }
    }
}

/// What a bundle says of itself.
#[derive(Debug)]
pub struct Manifest {
    pub bundle_format: u32,
    pub version: String,
    pub target: String,
    pub protocol_major: u32,
    pub controller_schema_read_min: u32,
    pub controller_schema_read_max: u32,
    pub controller_schema_write: u32,
    pub supervisor_runtime_formats: Vec<u32>,
    pub files: Vec<ManifestFile>,
}

#[verifier::ext_equal]
pub struct ManifestView {
    pub bundle_format: u32,
    pub version: Seq<char>,
    pub target: Seq<char>,
    pub protocol_major: u32,
    pub controller_schema_read_min: u32,
    pub controller_schema_read_max: u32,
    pub controller_schema_write: u32,
    pub supervisor_runtime_formats: Seq<u32>,
    pub files: Seq<FileView>,
}

impl Manifest {
    pub open spec fn view(&self) -> ManifestView {
        ManifestView {
            bundle_format: self.bundle_format,
            version: self.version@,
            target: self.target@,
            protocol_major: self.protocol_major,
            controller_schema_read_min: self.controller_schema_read_min,
            controller_schema_read_max: self.controller_schema_read_max,
            controller_schema_write: self.controller_schema_write,
            supervisor_runtime_formats: self.supervisor_runtime_formats@,
            files: self.files@.map_values(|file: ManifestFile| file@),
        }
    }

    /// Whether the schemas that the controller reads and writes make sense.
    pub fn schemas_fit(&self) -> (fit: bool)
        ensures
            fit == self@.schemas_fit(),
    {
        self.controller_schema_read_min <= self.controller_schema_read_max
            && self.controller_schema_read_min <= self.controller_schema_write
            && self.controller_schema_write <= self.controller_schema_read_max
    }

    /// Whether the supervisor reads and writes the runtime format in use.
    pub fn has_runtime_format(&self) -> (has: bool)
        ensures
            has == self@.has_runtime_format(),
    {
        let mut i: usize = 0;
        while i < self.supervisor_runtime_formats.len()
            invariant
                i <= self.supervisor_runtime_formats.len(),
                forall|j: int| 0 <= j < i ==> self.supervisor_runtime_formats@[j] != 1,
            decreases self.supervisor_runtime_formats.len() - i,
        {
            if self.supervisor_runtime_formats[i] == 1 {
                assert(self.supervisor_runtime_formats@.contains(1));
                return true;
            }
            i += 1;
        }
        false
    }

    /// The first declaration of a file.
    pub fn find(&self, name: &str) -> (index: Option<usize>)
        ensures
            match index {
                Some(i) => i < self.files.len() && self@.find(name@) == Some(self@.files[i as int])
                    && self.files@[i as int]@ == self@.files[i as int],
                None => self@.find(name@) is None,
            },
    {
        let mut i: usize = 0;
        assert(self@.files.skip(0) =~= self@.files);
        while i < self.files.len()
            invariant
                i <= self.files.len(),
                self@.find(name@) == first_named(self@.files.skip(i as int), name@),
            decreases self.files.len() - i,
        {
            let ghost rest = self@.files.skip(i as int);
            assert(rest[0] == self.files@[i as int]@);
            if same_text(self.files[i].path.as_str(), name) {
                return Some(i);
            }
            assert(rest.drop_first() =~= self@.files.skip(i + 1));
            i += 1;
        }
        None
    }
}

/// The first of some files with a name.
pub open spec fn first_named(files: Seq<FileView>, name: Seq<char>) -> Option<FileView>
    decreases files.len(),
{
    if files.len() == 0 {
        None
    } else if files[0].path == name {
        Some(files[0])
    } else {
        first_named(files.drop_first(), name)
    }
}

impl ManifestView {
    pub open spec fn schemas_fit(self) -> bool {
        self.controller_schema_read_min <= self.controller_schema_write
            <= self.controller_schema_read_max
    }

    pub open spec fn has_runtime_format(self) -> bool {
        self.supervisor_runtime_formats.contains(1)
    }

    pub open spec fn find(self, name: Seq<char>) -> Option<FileView> {
        first_named(self.files, name)
    }
}

/// Which installed version is selected.
#[derive(Debug)]
pub struct Selection {
    pub bundle_format: u32,
    pub version: String,
    pub manifest_sha256: String,
}

#[verifier::ext_equal]
pub struct SelectionView {
    pub bundle_format: u32,
    pub version: Seq<char>,
    pub manifest_sha256: Seq<char>,
}

impl Selection {
    pub open spec fn view(&self) -> SelectionView {
        SelectionView {
            bundle_format: self.bundle_format,
            version: self.version@,
            manifest_sha256: self.manifest_sha256@,
        }
    }
}

/// The directory of a version: its version and the digest of its manifest.
pub open spec fn directory_of(version: Seq<char>, identity: Seq<char>) -> Seq<char> {
    version + "-"@ + identity
}

/// The directory of a version.
pub fn version_directory(version: &str, identity: &str) -> (name: String)
    ensures
        name@ == directory_of(version@, identity@),
{
    let mut name: String = version.to_owned();
    name.append("-");
    name.append(identity);
    name
}

/// Where the last hyphen of a text stands, or -1.
pub open spec fn last_hyphen(text: Seq<char>) -> int
    decreases text.len(),
{
    if text.len() == 0 {
        -1
    } else if text.last() == '-' {
        text.len() - 1
    } else {
        last_hyphen(text.drop_last())
    }
}

/// The parts of a directory's name before and after its last hyphen.
pub open spec fn name_parts(name: Seq<char>) -> Option<(Seq<char>, Seq<char>)> {
    let at = last_hyphen(name);
    if at < 0 {
        None
    } else {
        Some((name.take(at), name.skip(at + 1)))
    }
}

/// The parts of a directory's name before and after its last hyphen.
pub fn split_directory(name: &str) -> (parts: Option<(String, String)>)
    ensures
        match parts {
            Some((version, identity)) => name_parts(name@) == Some((version@, identity@)),
            None => name_parts(name@) is None,
        },
{
    let chars: Vec<char> = chars_of(name);
    let mut end: usize = chars.len();
    assert(chars@.take(end as int) =~= chars@);
    while end > 0 && chars[end - 1] != '-'
        invariant
            end <= chars.len(),
            chars@ == name@,
            last_hyphen(chars@) == last_hyphen(chars@.take(end as int)),
        decreases end,
    {
        assert(chars@.take(end as int).drop_last() =~= chars@.take(end - 1));
        end -= 1;
    }
    if end == 0 {
        return None;
    }
    assert(chars@.take(end as int).last() == '-');
    let version: String = text_of_range(&chars, 0, end - 1);
    let identity: String = text_of_range(&chars, end, chars.len());
    assert(version@ =~= name@.take(end - 1));
    assert(identity@ =~= name@.skip(end as int));
    Some((version, identity))
}

proof fn lemma_last_hyphen(text: Seq<char>, at: int)
    requires
        0 <= at < text.len(),
        text[at] == '-',
        forall|i: int| at < i < text.len() ==> text[i] != '-',
    ensures
        last_hyphen(text) == at,
    decreases text.len(),
{
    if at < text.len() - 1 {
        lemma_last_hyphen(text.drop_last(), at);
    }
}

/// The version and the digest can be read back from the name of a directory.
pub proof fn law_directories_are_read_back(version: Seq<char>, identity: Seq<char>)
    requires
        is_digest(identity),
    ensures
        name_parts(directory_of(version, identity)) == Some((version, identity)),
{
    reveal_strlit("-");
    let name = directory_of(version, identity);
    let at = version.len() as int;
    assert(name[at] == '-');
    assert forall|i: int| at < i < name.len() implies name[i] != '-' by {
        assert(name[i] == identity[i - at - 1]);
        assert(is_hex_digit(identity[i - at - 1]));
    }
    lemma_last_hyphen(name, at);
    assert(name.take(at) =~= version);
    assert(name.skip(at + 1) =~= identity);
}

} // verus!
