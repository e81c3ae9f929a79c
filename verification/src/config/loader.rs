//! Loading a directory of definitions: which files count, what they may weigh, and what they
//! amount to.

use vstd::prelude::*;
use vstd::string::*;
use vstd::utf8::{encode_utf8, valid_utf8};

use crate::bundle::{utf8_fault, utf8_text};
use crate::config::canonical::{config_generation, generation_digest_input, sha256_of};
use crate::config::model::WorkloadDefinition;
use crate::config::raw::{DefinitionError, RawDefinition};
use crate::ids::{is_workload_id, ConfigGeneration, InvalidWorkloadId, WorkloadId};
use crate::ordered::{ascending, TextMap};
use crate::paths::last_dot;
use crate::text::{
    chars_of, eq_ignore_ascii_case, join, same_ignoring_ascii_case, same_text, text_of,
    upper_form, uppercase,
};

verus! {

/// The largest definition file, in bytes.
pub const MAX_FILE_BYTES: u64 = 1_048_576;

/// The most bytes that all definition files may have together.
pub const MAX_TOTAL_BYTES: u64 = 16_777_216;

/// The most definition files.
pub const MAX_WORKLOAD_FILES: usize = 4096;

/// An entry of the configuration directory. The extension and the name are missing where they
/// are not valid Unicode.
#[derive(Debug, PartialEq, Eq)]
pub struct DirectoryEntry {
    pub path: String,
    pub extension: Option<String>,
    pub file_name: Option<String>,
    pub regular: bool,
    pub size: u64,
    pub modified: u128,
}

/// What a definition file looked like when the directory was listed.
#[derive(Debug, PartialEq, Eq)]
pub struct FileSnapshot {
    pub path: String,
    pub size: u64,
    pub modified: u128,
}

/// What came of reading a definition file.
#[derive(Debug, PartialEq, Eq)]
pub enum FileContent {
    /// The file could not be read, for the reason that is given.
    Unreadable(String),
    /// The bytes of the file, and what their text defines or why it is not a definition.
    Read { bytes: Vec<u8>, parsed: Result<RawDefinition, String> },
}

/// Why a configuration cannot be loaded.
#[derive(Debug, PartialEq, Eq)]
pub enum LoadError {
    Io { path: String, source: String },
    MissingDirectory(String),
    NotRegularFile(String),
    NonUnicodeFilename(String),
    InvalidWorkloadId { path: String, source: InvalidWorkloadId },
    FileTooLarge(String),
    TooManyFiles,
    TooManyBytes,
    InvalidUtf8 { path: String, source: String },
    Toml { path: String, source: String },
    Definition { path: String, source: DefinitionError },
    DuplicateId { id: String, first: String, second: String },
    ChangedDuringRead,
}

impl LoadError {
    /// The text of the error.
    pub open spec fn text(self) -> Seq<char> {
        match self {
            LoadError::Io { path, source } => "cannot access "@ + path@ + ": "@ + source@,
            LoadError::MissingDirectory(path) => "configuration directory does not exist: "@
                + path@,
            LoadError::NotRegularFile(path) =>
                "configuration entry is not a regular file: "@ + path@,
            LoadError::NonUnicodeFilename(path) =>
                "configuration filename is not valid Unicode: "@ + path@,
            LoadError::InvalidWorkloadId { path, source } => "invalid workload ID from "@ + path@
                + ": "@ + source.text(),
            LoadError::FileTooLarge(path) => "configuration file exceeds 1 MiB: "@ + path@,
            LoadError::TooManyFiles => "configuration contains more than 4,096 workload files"@,
            LoadError::TooManyBytes => "configuration contains more than 16 MiB of TOML"@,
            LoadError::InvalidUtf8 { path, source } => "configuration file is not UTF-8: "@ + path@
                + ": "@ + source@,
            LoadError::Toml { path, source } => "invalid TOML in "@ + path@ + ": "@ + source@,
            LoadError::Definition { path, source } => "invalid workload definition in "@ + path@
                + ": "@ + source@.text(),
            LoadError::DuplicateId { id, first, second } => "duplicate workload ID "@
                + crate::text::debug_form(id@) + " from "@ + first@ + " and "@ + second@,
            LoadError::ChangedDuringRead =>
                "configuration changed while reload was reading it"@,
        }
    }

    pub fn message(&self) -> (message: String)
        ensures
            message@ == self.text(),
    {
        match self {
            LoadError::Io { path, source } => join(
                join(join("cannot access ", path.as_str()).as_str(), ": ").as_str(),
                source.as_str(),
            ),
            LoadError::MissingDirectory(path) => join(
                "configuration directory does not exist: ",
                path.as_str(),
            ),
            LoadError::NotRegularFile(path) => join(
                "configuration entry is not a regular file: ",
                path.as_str(),
            ),
            LoadError::NonUnicodeFilename(path) => join(
                "configuration filename is not valid Unicode: ",
                path.as_str(),
            ),
            LoadError::InvalidWorkloadId { path, source } => join(
                join(join("invalid workload ID from ", path.as_str()).as_str(), ": ").as_str(),
                source.message().as_str(),
            ),
            LoadError::FileTooLarge(path) => join(
                "configuration file exceeds 1 MiB: ",
                path.as_str(),
            ),
            LoadError::TooManyFiles =>
                "configuration contains more than 4,096 workload files".to_owned(),
            LoadError::TooManyBytes =>
                "configuration contains more than 16 MiB of TOML".to_owned(),
            LoadError::InvalidUtf8 { path, source } => join(
                join(
                    join("configuration file is not UTF-8: ", path.as_str()).as_str(),
                    ": ",
                ).as_str(),
                source.as_str(),
            ),
            LoadError::Toml { path, source } => join(
                join(join("invalid TOML in ", path.as_str()).as_str(), ": ").as_str(),
                source.as_str(),
            ),
            LoadError::Definition { path, source } => join(
                join(
                    join("invalid workload definition in ", path.as_str()).as_str(),
                    ": ",
                ).as_str(),
                source.message().as_str(),
            ),
            LoadError::DuplicateId { id, first, second } => join(
                join(
                    join(
                        join(
                            join(
                                "duplicate workload ID ",
                                crate::text::debug_text(id.as_str()).as_str(),
                            ).as_str(),
                            " from ",
                        ).as_str(),
                        first.as_str(),
                    ).as_str(),
                    " and ",
                ).as_str(),
                second.as_str(),
            ),
            LoadError::ChangedDuringRead =>
                "configuration changed while reload was reading it".to_owned(),
        }
    }
}

/// Whether an entry is a definition file, by its extension.
pub open spec fn is_definition_file(entry: DirectoryEntry) -> bool {
    entry.extension matches Some(extension) && same_ignoring_ascii_case(extension@, "toml"@)
}

/// Why the listing is refused at an entry, if it is. Names that differ only in case cannot
/// stand side by side, so that they show that the directory changed meanwhile.
pub open spec fn entry_refusal(entries: Seq<DirectoryEntry>, at: int) -> Option<LoadError> {
    let entry = entries[at];
    if !is_definition_file(entry) {
        None
    } else if !entry.regular {
        Some(LoadError::NotRegularFile(entry.path))
    } else if entry.size > MAX_FILE_BYTES {
        Some(LoadError::FileTooLarge(entry.path))
    } else if entry.file_name is None {
        Some(LoadError::NonUnicodeFilename(entry.path))
    } else if exists|i: int|
        0 <= i < at && is_definition_file(#[trigger] entries[i]) && upper_form(
            entries[i].file_name->0@,
        ) == upper_form(entry.file_name->0@) {
        Some(LoadError::ChangedDuringRead)
    } else {
        None
    }
}

/// Why the first `n` entries are refused: the first refusal among them.
pub open spec fn listing_refusal(entries: Seq<DirectoryEntry>, n: int) -> Option<LoadError>
    decreases n,
{
    if n <= 0 {
        None
    } else if listing_refusal(entries, n - 1) is Some {
        listing_refusal(entries, n - 1)
    } else {
        entry_refusal(entries, n - 1)
    }
}

/// The definition files among the first `n` entries, by name.
pub open spec fn listed_files(entries: Seq<DirectoryEntry>, n: int) -> Map<Seq<char>, FileSnapshot>
    decreases n,
{
    if n <= 0 {
        Map::empty()
    } else {
        let entry = entries[n - 1];
        let before = listed_files(entries, n - 1);
        if is_definition_file(entry) {
            before.insert(
                entry.file_name->0@,
                FileSnapshot { path: entry.path, size: entry.size, modified: entry.modified },
            )
        } else {
            before
        }
    }
}

/// The case-folded names of the definition files among the first `n` entries.
spec fn folded_names(entries: Seq<DirectoryEntry>, n: int) -> Map<Seq<char>, ()>
    decreases n,
{
    if n <= 0 {
        Map::empty()
    } else {
        let before = folded_names(entries, n - 1);
        if is_definition_file(entries[n - 1]) {
            before.insert(upper_form(entries[n - 1].file_name->0@), ())
        } else {
            before
        }
    }
}

proof fn lemma_folded_names(entries: Seq<DirectoryEntry>, n: int, key: Seq<char>)
    requires
        0 <= n <= entries.len(),
    ensures
        folded_names(entries, n).contains_key(key) <==> exists|i: int|
            0 <= i < n && is_definition_file(#[trigger] entries[i]) && upper_form(
                entries[i].file_name->0@,
            ) == key,
    decreases n,
{
    if n > 0 {
        lemma_folded_names(entries, n - 1, key);
        if folded_names(entries, n).contains_key(key) && !folded_names(
            entries,
            n - 1,
        ).contains_key(key) {
            assert(is_definition_file(entries[n - 1]));
        }
    }
}

proof fn lemma_listing_refusal_stays(entries: Seq<DirectoryEntry>, n: int, m: int)
    requires
        n <= m,
        listing_refusal(entries, n) is Some,
    ensures
        listing_refusal(entries, m) == listing_refusal(entries, n),
    decreases m - n,
{
    if n < m {
        lemma_listing_refusal_stays(entries, n, m - 1);
    }
}

/// The definition files of a directory, by name.
pub fn enumerate(entries: &Vec<DirectoryEntry>) -> (result: Result<
    TextMap<FileSnapshot>,
    LoadError,
>)
    ensures
        match result {
            Ok(files) => {
                &&& listing_refusal(entries@, entries@.len() as int) is None
                &&& files.map() == listed_files(entries@, entries@.len() as int)
                &&& ascending(files@)
            },
            Err(error) => listing_refusal(entries@, entries@.len() as int) == Some(error),
        },
{
    let toml: Vec<char> = chars_of("toml");
    let mut files: TextMap<FileSnapshot> = TextMap::new();
    let mut folded: TextMap<()> = TextMap::new();
    let mut index: usize = 0;
    while index < entries.len()
        invariant
            index <= entries.len(),
            toml@ == "toml"@,
            listing_refusal(entries@, index as int) is None,
            files.map() == listed_files(entries@, index as int),
            folded.map() == folded_names(entries@, index as int),
            ascending(files@),
        decreases entries.len() - index,
    {
        let entry: &DirectoryEntry = &entries[index];
        let is_toml: bool = match &entry.extension {
            Some(extension) => {
                let extension: Vec<char> = chars_of(extension.as_str());
                eq_ignore_ascii_case(extension.as_slice(), toml.as_slice())
            },
            None => false,
        };
        proof {
            if entry_refusal(entries@, index as int) is Some {
                lemma_listing_refusal_stays(entries@, index + 1, entries@.len() as int);
            }
        }
        if is_toml {
            if !entry.regular {
                return Err(LoadError::NotRegularFile(entry.path.clone()));
            }
            if entry.size > MAX_FILE_BYTES {
                return Err(LoadError::FileTooLarge(entry.path.clone()));
            }
            match &entry.file_name {
                None => {
                    return Err(LoadError::NonUnicodeFilename(entry.path.clone()));
                },
                Some(name) => {
                    proof {
                        lemma_folded_names(entries@, index as int, upper_form(name@));
                    }
                    if folded.insert(uppercase(name.as_str()), ()).is_some() {
                        return Err(LoadError::ChangedDuringRead);
                    }
                    let snapshot: FileSnapshot = FileSnapshot {
                        path: entry.path.clone(),
                        size: entry.size,
                        modified: entry.modified,
                    };
                    files.insert(name.clone(), snapshot);
                },
            }
        }
        index += 1;
    }
    Ok(files)
}

/// The bytes of the first `n` files together.
pub open spec fn total_bytes(files: Seq<(Seq<char>, FileSnapshot)>, n: int) -> nat
    decreases n,
{
    if n <= 0 {
        0
    } else {
        total_bytes(files, n - 1) + files[n - 1].1.size as nat
    }
}

proof fn lemma_total_grows(files: Seq<(Seq<char>, FileSnapshot)>, n: int, m: int)
    requires
        n <= m,
    ensures
        total_bytes(files, n) <= total_bytes(files, m),
    decreases m - n,
{
    if n < m {
        lemma_total_grows(files, n, m - 1);
    }
}

/// Whether a listing stays within what may be loaded.
pub open spec fn weight_refusal(files: Seq<(Seq<char>, FileSnapshot)>) -> Option<LoadError> {
    if files.len() > MAX_WORKLOAD_FILES {
        Some(LoadError::TooManyFiles)
    } else if total_bytes(files, files.len() as int) > MAX_TOTAL_BYTES {
        Some(LoadError::TooManyBytes)
    } else {
        None
    }
}

pub fn check_weight(files: &TextMap<FileSnapshot>) -> (result: Result<(), LoadError>)
    ensures
        match result {
            Ok(_) => weight_refusal(files@) is None,
            Err(error) => weight_refusal(files@) == Some(error),
        },
{
    if files.len() > MAX_WORKLOAD_FILES {
        return Err(LoadError::TooManyFiles);
    }
    let mut total: u64 = 0;
    let mut index: usize = 0;
    while index < files.len()
        invariant
            index <= files@.len() <= MAX_WORKLOAD_FILES,
            total == total_bytes(files@, index as int),
            total <= MAX_TOTAL_BYTES,
        decreases files@.len() - index,
    {
        let size: u64 = files.value(index).size;
        proof {
            lemma_total_grows(files@, index + 1, files@.len() as int);
        }
        if size > MAX_TOTAL_BYTES - total {
            return Err(LoadError::TooManyBytes);
        }
        total += size;
        index += 1;
    }
    Ok(())
}

/// The name of a file without its extension.
pub open spec fn file_stem(name: Seq<char>) -> Seq<char> {
    if last_dot(name) > 0 {
        name.take(last_dot(name))
    } else {
        name
    }
}

fn stem_of(name: &str) -> (stem: String)
    ensures
        stem@ == file_stem(name@),
{
    let mut chars: Vec<char> = chars_of(name);
    let mut dot: usize = chars.len();
    assert(name@.take(dot as int) =~= name@);
    while dot > 0 && chars[dot - 1] != '.'
        invariant
            dot <= chars.len(),
            chars@ == name@,
            last_dot(name@) == last_dot(name@.take(dot as int)),
        decreases dot,
    {
        assert(name@.take(dot as int).drop_last() =~= name@.take(dot - 1));
        dot -= 1;
    }
    if dot > 1 {
        chars.truncate(dot - 1);
    }
    text_of(chars.as_slice())
}

/// Whether the file at a place makes a definition.
pub open spec fn file_accepted(
    files: Seq<(Seq<char>, FileSnapshot)>,
    contents: Seq<FileContent>,
    at: int,
) -> bool {
    let id = file_stem(files[at].0);
    &&& is_workload_id(encode_utf8(id))
    &&& !exists|i: int| 0 <= i < at && file_stem((#[trigger] files[i]).0) == id
    &&& contents[at] matches FileContent::Read { bytes, parsed } && bytes@.len()
        == files[at].1.size && valid_utf8(bytes@) && (parsed matches Ok(raw) && raw.refusal() is None)
}

/// Whether the file at a place is refused with an error.
pub open spec fn file_refused(
    files: Seq<(Seq<char>, FileSnapshot)>,
    contents: Seq<FileContent>,
    at: int,
    error: LoadError,
) -> bool {
    let id = file_stem(files[at].0);
    let path = files[at].1.path;
    let known = is_workload_id(encode_utf8(id));
    let repeats = exists|i: int| 0 <= i < at && file_stem((#[trigger] files[i]).0) == id;
    match error {
        LoadError::InvalidWorkloadId { path: p, source } => !known && p == path && source.explains(
            encode_utf8(id),
        ),
        LoadError::DuplicateId { id: name, first, second } => known && name@ == id && second
            == path && exists|i: int|
            0 <= i < at && file_stem((#[trigger] files[i]).0) == id && first == files[i].1.path,
        LoadError::Io { path: p, source } => known && !repeats && p == path && (contents[at] matches
            FileContent::Unreadable(reason) && source@ == reason@),
        LoadError::ChangedDuringRead => known && !repeats && (contents[at] matches FileContent::Read {
            bytes,
            ..
        } && bytes@.len() != files[at].1.size),
        LoadError::InvalidUtf8 { path: p, source } => known && !repeats && p == path && (
        contents[at] matches FileContent::Read { bytes, .. } && bytes@.len() == files[at].1.size
            && !valid_utf8(bytes@) && source@ == utf8_fault(bytes@)),
        LoadError::Toml { path: p, source } => known && !repeats && p == path && (
        contents[at] matches FileContent::Read { bytes, parsed } && bytes@.len()
            == files[at].1.size && valid_utf8(bytes@) && (parsed matches Err(reason) && source@
            == reason@)),
        LoadError::Definition { path: p, source } => known && !repeats && p == path && (
        contents[at] matches FileContent::Read { bytes, parsed } && bytes@.len()
            == files[at].1.size && valid_utf8(bytes@) && (parsed matches Ok(raw) && raw.refusal()
            == Some(source@))),
        _ => false,
    }
}

/// Whether two listings show the same files.
pub open spec fn same_listing(
    a: Seq<(Seq<char>, FileSnapshot)>,
    b: Seq<(Seq<char>, FileSnapshot)>,
) -> bool {
    a.len() == b.len() && forall|i: int|
        0 <= i < a.len() ==> (#[trigger] a[i]).0 == b[i].0 && a[i].1.path@ == b[i].1.path@
            && a[i].1.size == b[i].1.size && a[i].1.modified == b[i].1.modified
}

fn compare_listings(a: &TextMap<FileSnapshot>, b: &TextMap<FileSnapshot>) -> (same: bool)
    ensures
        same == same_listing(a@, b@),
{
    if a.len() != b.len() {
        return false;
    }
    let mut index: usize = 0;
    while index < a.len()
        invariant
            index <= a@.len() == b@.len(),
            forall|i: int|
                0 <= i < index ==> (#[trigger] a@[i]).0 == b@[i].0 && a@[i].1.path@
                    == b@[i].1.path@ && a@[i].1.size == b@[i].1.size && a@[i].1.modified
                    == b@[i].1.modified,
        decreases a@.len() - index,
    {
        let left: &FileSnapshot = a.value(index);
        let right: &FileSnapshot = b.value(index);
        if !same_text(a.key(index), b.key(index)) || !same_text(
            left.path.as_str(),
            right.path.as_str(),
        ) || left.size != right.size || left.modified != right.modified {
            assert(!same_listing(a@, b@)) by {
                assert(a@[index as int].0 == a@[index as int].0);
            }
            return false;
        }
        index += 1;
    }
    true
}

/// A configuration that has been read in full.
#[derive(Debug, PartialEq, Eq)]
pub struct CandidateConfig {
    generation: ConfigGeneration,
    definitions: TextMap<WorkloadDefinition>,
}

impl CandidateConfig {
    #[verifier::type_invariant]
    spec fn well_formed(self) -> bool {
        &&& self.generation.0@ == sha256_of(generation_digest_input(self.definitions@))
        &&& forall|id: Seq<char>|
            #[trigger] self.definitions.map().contains_key(id)
                ==> self.definitions.map()[id].id@ == id
    }

    /// The definitions by the names of their workloads.
    pub closed spec fn workloads(self) -> TextMap<WorkloadDefinition> {
        self.definitions
    }

    /// The digest of the definitions, which is the generation of the configuration.
    pub fn generation(&self) -> (generation: ConfigGeneration)
        ensures
            generation.0@ == sha256_of(generation_digest_input(self.workloads()@)),
    {
        proof {
            use_type_invariant(self);
        }
        self.generation
    }

    pub fn definitions(&self) -> (definitions: &TextMap<WorkloadDefinition>)
        ensures
            *definitions == self.workloads(),
            forall|id: Seq<char>|
                #[trigger] definitions.map().contains_key(id) ==> definitions.map()[id].id@ == id,
    {
        proof {
            use_type_invariant(self);
        }
        &self.definitions
    }

    pub fn into_definitions(self) -> (definitions: TextMap<WorkloadDefinition>)
        ensures
            definitions == self.workloads(),
    {
        self.definitions
    }
}

/// Whether a configuration is what the files define: each file its workload, and nothing else.
pub open spec fn files_define(
    files: Seq<(Seq<char>, FileSnapshot)>,
    contents: Seq<FileContent>,
    n: int,
    workloads: Map<Seq<char>, WorkloadDefinition>,
) -> bool {
    &&& forall|i: int|
        0 <= i < n ==> {
            let id = file_stem((#[trigger] files[i]).0);
            &&& workloads.contains_key(id)
            &&& workloads[id].id@ == id
            &&& contents[i]->parsed->Ok_0.describes(workloads[id].id, workloads[id])
        }
    &&& forall|id: Seq<char>| #[trigger]
        workloads.contains_key(id) ==> exists|i: int|
            0 <= i < n && file_stem((#[trigger] files[i]).0) == id
}

/// Builds the configuration that some files define.
///
/// `files` is the listing of the directory, `contents` what came of reading each file in the
/// order of the listing, and `again` a listing made after the last file was read, or why there is
/// none. It counts only where all files are accepted.
pub fn load_directory(
    files: &TextMap<FileSnapshot>,
    contents: Vec<FileContent>,
    again: Result<TextMap<FileSnapshot>, LoadError>,
) -> (result: Result<CandidateConfig, LoadError>)
    requires
        contents@.len() == files@.len(),
        forall|i: int|
            0 <= i < contents@.len() ==> ((#[trigger] contents@[i]) matches FileContent::Read {
                parsed: Ok(raw),
                ..
            } ==> raw.sizes_readable()),
    ensures
        match result {
            Ok(config) => {
                &&& weight_refusal(files@) is None
                &&& forall|i: int|
                    0 <= i < files@.len() ==> #[trigger] file_accepted(files@, contents@, i)
                &&& again matches Ok(listing) && same_listing(files@, listing@)
                &&& files_define(
                    files@,
                    contents@,
                    files@.len() as int,
                    config.workloads().map(),
                )
            },
            Err(error) => if weight_refusal(files@) is Some {
                weight_refusal(files@) == Some(error)
            } else {
                ||| exists|at: int|
                    0 <= at < files@.len() && #[trigger] file_refused(files@, contents@, at, error)
                        && forall|i: int|
                        0 <= i < at ==> #[trigger] file_accepted(files@, contents@, i)
                ||| (match again {
                    Ok(listing) => error == LoadError::ChangedDuringRead && !same_listing(
                        files@,
                        listing@,
                    ),
                    Err(reason) => error == reason,
                }) && forall|i: int|
                    0 <= i < files@.len() ==> #[trigger] file_accepted(files@, contents@, i)
            },
        },
{
    check_weight(files)?;
    let ghost all = contents@;
    let mut rest: Vec<FileContent> = contents;
    let mut definitions: TextMap<WorkloadDefinition> = TextMap::new();
    let mut index: usize = 0;
    let count: usize = files.len();
    while index < count
        invariant
            index <= count == files@.len() == all.len(),
            weight_refusal(files@) is None,
            all == contents@,
            rest@ == all.skip(index as int),
            forall|i: int|
                0 <= i < all.len() ==> ((#[trigger] all[i]) matches FileContent::Read {
                    parsed: Ok(raw),
                    ..
                } ==> raw.sizes_readable()),
            forall|i: int| 0 <= i < index ==> #[trigger] file_accepted(files@, all, i),
            files_define(files@, all, index as int, definitions.map()),
        decreases count - index,
    {
        let snapshot: &FileSnapshot = files.value(index);
        let stem: String = stem_of(files.key(index));
        let ghost text = file_stem(files@[index as int].0);
        let id: WorkloadId = match WorkloadId::parse(stem) {
            Ok(id) => id,
            Err(source) => {
                let error: LoadError = LoadError::InvalidWorkloadId {
                    path: snapshot.path.clone(),
                    source,
                };
                assert(file_refused(files@, all, index as int, error));
                return Err(error);
            },
        };
        if definitions.contains_key(id.as_str()) {
            let error: LoadError = first_with_stem(files, index, id.as_str());
            assert(file_refused(files@, all, index as int, error));
            return Err(error);
        }
        proof {
            assert forall|i: int| 0 <= i < index implies file_stem((#[trigger] files@[i]).0)
                != text by {
                assert(definitions.map().contains_key(file_stem(files@[i].0)));
            }
        }
        assert(rest@[0] == all[index as int]);
        let content: FileContent = rest.remove(0);
        assert(rest@ =~= all.skip(index + 1));
        let raw: RawDefinition = match accept_content(content, snapshot) {
            Ok(raw) => raw,
            Err(error) => {
                assert(file_refused(files@, all, index as int, error));
                return Err(error);
            },
        };
        let ghost raw_is = raw;
        let key: String = id.as_str().to_owned();
        let definition: WorkloadDefinition = match raw.into_definition(id) {
            Ok(definition) => definition,
            Err(source) => {
                let error: LoadError = LoadError::Definition {
                    path: snapshot.path.clone(),
                    source,
                };
                assert(file_refused(files@, all, index as int, error));
                return Err(error);
            },
        };
        let ghost before = definitions.map();
        let _ = definitions.insert(key, definition);
        proof {
            assert(file_accepted(files@, all, index as int));
            let now = definitions.map();
            assert(now == before.insert(text, definition));
            assert forall|i: int| 0 <= i < index + 1 implies {
                let id = file_stem((#[trigger] files@[i]).0);
                &&& now.contains_key(id)
                &&& now[id].id@ == id
                &&& all[i]->parsed->Ok_0.describes(now[id].id, now[id])
            } by {
                if i < index {
                    assert(before.contains_key(file_stem(files@[i].0)));
                    assert(file_stem(files@[i].0) != text);
                }
            }
            assert forall|id: Seq<char>| #[trigger] now.contains_key(id) implies exists|i: int|
                0 <= i < index + 1 && file_stem((#[trigger] files@[i]).0) == id by {
                if before.contains_key(id) {
                    let i = choose|i: int|
                        0 <= i < index && file_stem((#[trigger] files@[i]).0) == id;
                    assert(file_stem(files@[i].0) == id);
                } else {
                    assert(file_stem(files@[index as int].0) == id);
                }
            }
        }
        index += 1;
    }
    match again {
        Ok(listing) => {
            if !compare_listings(files, &listing) {
                return Err(LoadError::ChangedDuringRead);
            }
        },
        Err(reason) => {
            return Err(reason);
        },
    }
    let generation: ConfigGeneration = config_generation(&definitions);
    proof {
        assert forall|id: Seq<char>| #[trigger] definitions.map().contains_key(id) implies
            definitions.map()[id].id@ == id by {
            let i = choose|i: int|
                0 <= i < count && file_stem((#[trigger] files@[i]).0) == id;
            assert(file_stem(files@[i].0) == id);
        }
    }
    Ok(CandidateConfig { generation, definitions })
}

fn accept_content(content: FileContent, snapshot: &FileSnapshot) -> (result: Result<
    RawDefinition,
    LoadError,
>)
    ensures
        match content {
            FileContent::Unreadable(reason) => result == Err::<RawDefinition, LoadError>(
                LoadError::Io { path: snapshot.path, source: reason },
            ),
            FileContent::Read { bytes, parsed } => if bytes@.len() != snapshot.size {
                result == Err::<RawDefinition, LoadError>(LoadError::ChangedDuringRead)
            } else if !valid_utf8(bytes@) {
                result matches Err(LoadError::InvalidUtf8 { path, source }) && path
                    == snapshot.path && source@ == utf8_fault(bytes@)
            } else {
                result == match parsed {
                    Ok(raw) => Ok::<RawDefinition, LoadError>(raw),
                    Err(reason) => Err(LoadError::Toml { path: snapshot.path, source: reason }),
                }
            },
        },
{
    match content {
        FileContent::Unreadable(source) => Err(
            LoadError::Io { path: snapshot.path.clone(), source },
        ),
        FileContent::Read { bytes, parsed } => {
            if bytes.len() as u64 != snapshot.size {
                return Err(LoadError::ChangedDuringRead);
            }
            match utf8_text(bytes) {
                Err(source) => Err(
                    LoadError::InvalidUtf8 { path: snapshot.path.clone(), source },
                ),
                Ok(_) => match parsed {
                    Ok(raw) => Ok(raw),
                    Err(source) => Err(LoadError::Toml { path: snapshot.path.clone(), source }),
                },
            }
        },
    }
}

fn first_with_stem(files: &TextMap<FileSnapshot>, at: usize, id: &str) -> (error: LoadError)
    requires
        at < files@.len(),
        exists|i: int| 0 <= i < at && file_stem((#[trigger] files@[i]).0) == id@,
    ensures
        error matches LoadError::DuplicateId { id: name, first, second } && name@ == id@ && second
            == files@[at as int].1.path && exists|i: int|
            0 <= i < at && file_stem((#[trigger] files@[i]).0) == id@ && first == files@[i].1.path,
{
    let mut index: usize = 0;
    while index < at
        invariant
            index <= at < files@.len(),
            exists|i: int| index <= i < at && file_stem((#[trigger] files@[i]).0) == id@,
        decreases at - index,
    {
        let stem: String = stem_of(files.key(index));
        if same_text(stem.as_str(), id) {
            let error: LoadError = LoadError::DuplicateId {
                id: id.to_owned(),
                first: files.value(index).path.clone(),
                second: files.value(at).path.clone(),
            };
            assert(file_stem(files@[index as int].0) == id@);
            return error;
        }
        index += 1;
    }
    LoadError::ChangedDuringRead
}

} // verus!
