//! Installed versions: which one is selected, how they are listed and found, and which of them are
//! removed.

use vstd::prelude::*;
use vstd::string::*;
use vstd::utf8::{encode_utf8, valid_utf8};

use crate::bundle::{
    ManifestView, REQUIRED_FILES, Selection, SelectionView, digest_of, directory_of, is_digest,
    law_directories_are_read_back, name_parts, parse_version, required, required_file,
    split_directory, utf8_text, valid_digest, version_build, version_directory,
};
use crate::installer::{
    BundleEntry, FileFacts, InstallError, InstallRefusal, bundle_refusal, installed_files_refusal,
    installed_refusal, invalid, payload_refusal, refusal, version_view,
};
use crate::messages::copy_bytes;
use crate::ordered::{
    Placement, lemma_order_is_total, lemma_order_is_transitive, place_text, text_precedes,
};
use crate::paths::{join_paths, joined};
use crate::text::{begins_with, same_text, starts_with, text_view};

verus! {

/// An installed version.
#[derive(Debug)]
pub struct InstalledVersion {
    pub version: String,
    pub identity: String,
    pub path: String,
    pub current: bool,
    pub pin_count: usize,
}

#[verifier::ext_equal]
pub struct VersionView {
    pub version: Seq<char>,
    pub identity: Seq<char>,
    pub path: Seq<char>,
    pub current: bool,
    pub pin_count: usize,
}

impl InstalledVersion {
    pub open spec fn view(&self) -> VersionView {
        VersionView {
            version: self.version@,
            identity: self.identity@,
            path: self.path@,
            current: self.current,
            pin_count: self.pin_count,
        }
    }
}

/// Versions by what they hold.
pub open spec fn version_views(versions: Seq<InstalledVersion>) -> Seq<VersionView> {
    versions.map_values(|version: InstalledVersion| version@)
}

/// A selection that was read, or why it was not.
pub open spec fn parsed_selection(parsed: Result<Selection, String>) -> Result<
    SelectionView,
    Seq<char>,
> {
    match parsed {
        Ok(selection) => Ok(selection@),
        Err(reason) => Err(reason@),
    }
}

/// Whether a selection is meaningful, where its version reads as `version`.
pub open spec fn is_selection(selection: SelectionView, version: Result<Seq<char>, Seq<char>>) -> bool {
    selection.bundle_format == 1 && version is Ok && is_digest(selection.manifest_sha256)
}

/// The directory that a selection names, or why it is refused, where its version reads as
/// `version`.
pub open spec fn selected(
    bytes: Seq<u8>,
    parsed: Result<SelectionView, Seq<char>>,
    version: Result<Seq<char>, Seq<char>>,
) -> Result<Seq<char>, InstallRefusal> {
    if !valid_utf8(bytes) {
        Err(InstallRefusal::Invalid("selection is not UTF-8"@))
    } else {
        match parsed {
            Err(reason) => Err(InstallRefusal::Manifest(reason)),
            Ok(selection) => if is_selection(selection, version) {
                Ok(directory_of(selection.version, selection.manifest_sha256))
            } else {
                Err(InstallRefusal::Invalid("current selection is invalid"@))
            },
        }
    }
}

/// A result of a text by what it holds.
pub open spec fn outcome(result: Result<String, InstallError>) -> Result<Seq<char>, InstallRefusal> {
    match result {
        Ok(text) => Ok(text@),
        Err(error) => Err(error@),
    }
}

/// Judges a selection whose version reads as `version`.
pub fn judge_selection(
    bytes: &Vec<u8>,
    parsed: &Result<Selection, String>,
    version: &Result<String, String>,
) -> (result: Result<String, InstallError>)
    ensures
        outcome(result) == selected(bytes@, parsed_selection(*parsed), version_view(*version)),
{
    if utf8_text(copy_bytes(bytes)).is_err() {
        return Err(InstallError::Invalid("selection is not UTF-8".to_owned()));
    }
    match parsed {
        Err(reason) => Err(InstallError::Manifest(reason.clone())),
        Ok(selection) => {
            if selection.bundle_format == 1 && version.is_ok() && valid_digest(
                selection.manifest_sha256.as_str(),
            ) {
                Ok(
                    version_directory(
                        selection.version.as_str(),
                        selection.manifest_sha256.as_str(),
                    ),
                )
            } else {
                Err(InstallError::Invalid("current selection is invalid".to_owned()))
            }
        },
    }
}

/// The directory of the selected version: `bytes` are in the selection and read as `parsed`.
pub fn current_selection(bytes: &Vec<u8>, parsed: &Result<Selection, String>) -> (result: Result<
    String,
    InstallError,
>)
    ensures
        outcome(result) == selected(
            bytes@,
            parsed_selection(*parsed),
            match parsed_selection(*parsed) {
                Ok(selection) => version_build(selection.version),
                Err(reason) => Err(reason),
            },
        ),
{
    let version: Result<String, String> = match parsed {
        Ok(selection) => parse_version(selection.version.as_str()),
        Err(reason) => Err(reason.clone()),
    };
    judge_selection(bytes, parsed, &version)
}

/// How many pins a version has, by what lies under the path of its pins: nothing, or a directory
/// with some entries.
pub fn count_pins(path: &str, found: bool, is_directory: bool, is_link: bool, entries: usize) -> (
result: Result<usize, InstallError>)
    ensures
        refusal(result) == (if found && (!is_directory || is_link) {
            invalid("pin path "@ + path@ + " is not a regular directory"@)
        } else {
            None
        }),
        result matches Ok(count) ==> count == if found {
            entries
        } else {
            0
        },
{
    if !found {
        return Ok(0);
    }
    if !is_directory || is_link {
        let mut reason: String = "pin path ".to_owned();
        reason.append(path);
        reason.append(" is not a regular directory");
        return Err(InstallError::Invalid(reason));
    }
    Ok(entries)
}

/// What lies in the directory of all versions.
#[derive(Debug)]
pub struct VersionEntry {
    pub name: String,
    pub path: String,
    pub is_directory: bool,
    pub is_link: bool,
    pub pin_count: usize,
}

/// Whether what has this name is being put together, or was and was abandoned.
pub open spec fn is_staging(name: Seq<char>) -> bool {
    begins_with(name, ".staging-"@)
}

/// The version that an entry is, if it is one: a directory that is named after its version and its
/// identity, and is not being put together.
pub open spec fn version_of(entry: VersionEntry, current: Option<Seq<char>>) -> Option<VersionView> {
    if !entry.is_directory || is_staging(entry.name@) {
        None
    } else {
        match name_parts(entry.name@) {
            None => None,
            Some((version, identity)) => Some(
                VersionView {
                    version,
                    identity,
                    path: entry.path@,
                    current: current == Some(entry.name@),
                    pin_count: entry.pin_count,
                },
            ),
        }
    }
}

/// Puts a version in its place: after all that do not come after it.
pub open spec fn place_version(versions: Seq<VersionView>, version: VersionView) -> Seq<VersionView>
    decreases versions.len(),
{
    if versions.len() == 0 || !text_precedes(version.version, versions.last().version) {
        versions.push(version)
    } else {
        place_version(versions.drop_last(), version).push(versions.last())
    }
}

/// The versions among the first `n` entries, in the order of their text.
pub open spec fn listed(entries: Seq<VersionEntry>, current: Option<Seq<char>>, n: int) -> Seq<
    VersionView,
>
    decreases n,
{
    if n <= 0 {
        Seq::empty()
    } else {
        let before = listed(entries, current, n - 1);
        match version_of(entries[n - 1], current) {
            Some(version) => place_version(before, version),
            None => before,
        }
    }
}

fn insert_version(versions: &mut Vec<InstalledVersion>, version: InstalledVersion)
    ensures
        version_views(final(versions)@) == place_version(version_views(old(versions)@), version@),
{
    let ghost before = version_views(versions@);
    let mut at: usize = versions.len();
    assert(before.take(at as int) =~= before);
    assert(place_version(before, version@) + before.skip(at as int) =~= place_version(
        before,
        version@,
    ));
    while at > 0 && precedes(version.version.as_str(), versions[at - 1].version.as_str())
        invariant
            at <= versions.len(),
            before == version_views(versions@),
            versions@ == old(versions)@,
            place_version(before, version@) == place_version(before.take(at as int), version@)
                + before.skip(at as int),
        decreases at,
    {
        proof {
            let shorter = before.take(at as int);
            assert(shorter.last() == versions@[at - 1]@);
            assert(shorter.drop_last() =~= before.take(at - 1));
            assert(place_version(shorter, version@) + before.skip(at as int) =~= place_version(
                before.take(at - 1),
                version@,
            ) + before.skip(at - 1));
        }
        at -= 1;
    }
    proof {
        let shorter = before.take(at as int);
        if at > 0 {
            assert(shorter.last() == versions@[at - 1]@);
        }
        assert(place_version(shorter, version@) =~= shorter.push(version@));
    }
    let ghost inserted = version@;
    versions.insert(at, version);
    assert(version_views(versions@) =~= before.take(at as int).push(inserted) + before.skip(
        at as int,
    ));
}

fn precedes(a: &str, b: &str) -> (before: bool)
    ensures
        before == text_precedes(a@, b@),
{
    match place_text(a, b) {
        Placement::Before => true,
        _ => false,
    }
}

/// Whether an entry is a version, so that its pins are counted when the versions are listed.
pub fn is_version(name: &str, is_directory: bool) -> (is: bool)
    ensures
        is == (is_directory && !is_staging(name@) && name_parts(name@) is Some),
{
    is_directory && !starts_with(name, ".staging-") && split_directory(name).is_some()
}

/// The installed versions in the order of their text: `entries` lie in the directory of all
/// versions, and `current` is the selected directory.
pub fn list_versions(entries: &Vec<VersionEntry>, current: &Option<String>) -> (versions: Vec<
    InstalledVersion,
>)
    ensures
        version_views(versions@) == listed(entries@, text_view(*current), entries@.len() as int),
{
    let mut versions: Vec<InstalledVersion> = Vec::new();
    let mut i: usize = 0;
    assert(version_views(versions@) =~= Seq::empty());
    while i < entries.len()
        invariant
            i <= entries.len(),
            version_views(versions@) == listed(entries@, text_view(*current), i as int),
        decreases entries.len() - i,
    {
        let entry: &VersionEntry = &entries[i];
        if entry.is_directory && !starts_with(entry.name.as_str(), ".staging-") {
            match split_directory(entry.name.as_str()) {
                Some((version, identity)) => {
                    let is_current: bool = match current {
                        Some(name) => same_text(name.as_str(), entry.name.as_str()),
                        None => false,
                    };
                    let version: InstalledVersion = InstalledVersion {
                        version,
                        identity,
                        path: entry.path.clone(),
                        current: is_current,
                        pin_count: entry.pin_count,
                    };
                    assert(Some(version@) == version_of(*entry, text_view(*current)));
                    insert_version(&mut versions, version);
                },
                None => {},
            }
        }
        i += 1;
    }
    versions
}

/// How many of the first `n` entries are versions.
pub open spec fn version_count(entries: Seq<VersionEntry>, current: Option<Seq<char>>, n: int) -> nat
    decreases n,
{
    if n <= 0 {
        0
    } else if version_of(entries[n - 1], current) is Some {
        version_count(entries, current, n - 1) + 1
    } else {
        version_count(entries, current, n - 1)
    }
}

proof fn lemma_not_before(a: Seq<char>, b: Seq<char>, c: Seq<char>)
    requires
        !text_precedes(a, b),
        !text_precedes(b, c),
    ensures
        !text_precedes(a, c),
{
    lemma_order_is_total(encode_utf8(b), encode_utf8(c));
    if text_precedes(a, c) && text_precedes(c, b) {
        lemma_order_is_transitive(encode_utf8(a), encode_utf8(c), encode_utf8(b));
    }
}

proof fn lemma_placed(versions: Seq<VersionView>, version: VersionView)
    requires
        forall|i: int, j: int|
            0 <= i < j < versions.len() ==> !text_precedes(
                (#[trigger] versions[j]).version,
                (#[trigger] versions[i]).version,
            ),
    ensures
        ({
            let placed = place_version(versions, version);
            &&& placed.len() == versions.len() + 1
            &&& placed.to_multiset() == versions.to_multiset().insert(version)
            &&& forall|i: int, j: int|
                0 <= i < j < placed.len() ==> !text_precedes(
                    (#[trigger] placed[j]).version,
                    (#[trigger] placed[i]).version,
                )
        }),
    decreases versions.len(),
{
    broadcast use vstd::seq_lib::group_to_multiset_ensures;

    let placed = place_version(versions, version);
    if versions.len() == 0 || !text_precedes(version.version, versions.last().version) {
        assert(placed == versions.push(version));
        assert forall|i: int, j: int| 0 <= i < j < placed.len() implies !text_precedes(
            (#[trigger] placed[j]).version,
            (#[trigger] placed[i]).version,
        ) by {
            if j == versions.len() {
                if i < versions.len() - 1 {
                    assert(versions[i] == placed[i]);
                    lemma_not_before(version.version, versions.last().version, versions[i].version);
                }
            } else {
                assert(placed[i] == versions[i] && placed[j] == versions[j]);
            }
        }
    } else {
        let shorter = versions.drop_last();
        let inner = place_version(shorter, version);
        lemma_placed(shorter, version);
        assert(versions =~= shorter.push(versions.last()));
        assert(placed.to_multiset() =~= versions.to_multiset().insert(version));
        assert forall|i: int, j: int| 0 <= i < j < placed.len() implies !text_precedes(
            (#[trigger] placed[j]).version,
            (#[trigger] placed[i]).version,
        ) by {
            assert(placed[i] == inner[i]);
            if j < inner.len() {
                assert(placed[j] == inner[j]);
            } else {
                assert(inner.to_multiset().count(inner[i]) > 0);
                if inner[i] == version {
                    lemma_order_is_total(
                        encode_utf8(version.version),
                        encode_utf8(versions.last().version),
                    );
                } else {
                    assert(shorter.to_multiset().count(inner[i]) > 0);
                    let k = choose|k: int| 0 <= k < shorter.len() && shorter[k] == inner[i];
                    assert(versions[k] == inner[i]);
                }
            }
        }
    }
}

/// The list holds one entry for each version and nothing else, in the order of the texts of the
/// versions. A directory that is being put together is none of them.
pub proof fn law_every_version_is_listed_once(
    entries: Seq<VersionEntry>,
    current: Option<Seq<char>>,
    n: int,
)
    requires
        0 <= n <= entries.len(),
    ensures
        listed(entries, current, n).len() == version_count(entries, current, n),
        forall|i: int|
            0 <= i < n && (version_of(#[trigger] entries[i], current) is Some) ==> listed(
                entries,
                current,
                n,
            ).contains(version_of(entries[i], current)->0),
        forall|k: int|
            0 <= k < listed(entries, current, n).len() ==> exists|i: int|
                0 <= i < n && !is_staging(entries[i].name@) && version_of(
                    #[trigger] entries[i],
                    current,
                ) == Some(#[trigger] listed(entries, current, n)[k]),
        forall|i: int, j: int|
            0 <= i < j < listed(entries, current, n).len() ==> !text_precedes(
                (#[trigger] listed(entries, current, n)[j]).version,
                (#[trigger] listed(entries, current, n)[i]).version,
            ),
    decreases n,
{
    broadcast use vstd::seq_lib::group_to_multiset_ensures;

    if n > 0 {
        law_every_version_is_listed_once(entries, current, n - 1);
        let before = listed(entries, current, n - 1);
        let after = listed(entries, current, n);
        match version_of(entries[n - 1], current) {
            Some(version) => {
                lemma_placed(before, version);
                assert forall|i: int|
                    0 <= i < n && (version_of(#[trigger] entries[i], current) is Some) implies after.contains(
                    version_of(entries[i], current)->0,
                ) by {
                    let shown = version_of(entries[i], current)->0;
                    if i < n - 1 {
                        assert(before.contains(shown));
                        assert(before.to_multiset().count(shown) > 0);
                    }
                    assert(after.to_multiset().count(shown) > 0);
                }
                assert forall|k: int| 0 <= k < after.len() implies exists|i: int|
                    0 <= i < n && !is_staging(entries[i].name@) && version_of(
                        #[trigger] entries[i],
                        current,
                    ) == Some(#[trigger] after[k]) by {
                    assert(after.to_multiset().count(after[k]) > 0);
                    if after[k] == version {
                        assert(version_of(entries[n - 1], current) == Some(after[k]));
                    } else {
                        assert(before.to_multiset().count(after[k]) > 0);
                        let m = choose|m: int| 0 <= m < before.len() && before[m] == after[k];
                        assert(before[m] == after[k]);
                    }
                }
            },
            None => {},
        }
    }
}

/// Whether a version is meant: by its version, or by what its digest begins with.
pub open spec fn is_meant(version: VersionView, prefix: Seq<char>) -> bool {
    version.version == prefix || begins_with(version.identity, prefix)
}

/// The places of the versions that are meant.
pub open spec fn meant(versions: Seq<VersionView>, prefix: Seq<char>) -> Set<int> {
    Set::new(|i: int| 0 <= i < versions.len() && is_meant(versions[i], prefix))
}

/// The version to which is rolled back: the only one that is meant.
pub fn rollback(versions: &Vec<InstalledVersion>, prefix: &str) -> (result: Result<
    usize,
    InstallError,
>)
    ensures
        match result {
            Ok(i) => i < versions.len() && meant(version_views(versions@), prefix@) == set![
                i as int,
            ],
            Err(error) => if meant(version_views(versions@), prefix@) == Set::<int>::empty() {
                error@ == InstallRefusal::Invalid("no installed version matches "@ + prefix@)
            } else {
                error@ == InstallRefusal::Invalid(
                    "installed version prefix "@ + prefix@ + " is ambiguous"@,
                ) && exists|i: int, j: int|
                    i != j && #[trigger] meant(version_views(versions@), prefix@).contains(i)
                        && #[trigger] meant(version_views(versions@), prefix@).contains(j)
            },
        },
{
    let ghost views = version_views(versions@);
    let mut found: Option<usize> = None;
    let mut i: usize = 0;
    while i < versions.len()
        invariant
            i <= versions.len(),
            views == version_views(versions@),
            match found {
                Some(at) => at < i && is_meant(views[at as int], prefix@) && forall|j: int|
                    0 <= j < i && j != at ==> !is_meant(#[trigger] views[j], prefix@),
                None => forall|j: int| 0 <= j < i ==> !is_meant(#[trigger] views[j], prefix@),
            },
        decreases versions.len() - i,
    {
        let version: &InstalledVersion = &versions[i];
        assert(views[i as int] == version@);
        if same_text(version.version.as_str(), prefix) || starts_with(
            version.identity.as_str(),
            prefix,
        ) {
            match found {
                Some(at) => {
                    proof {
                        assert(meant(views, prefix@).contains(at as int));
                        assert(meant(views, prefix@).contains(i as int));
                    }
                    let mut reason: String = "installed version prefix ".to_owned();
                    reason.append(prefix);
                    reason.append(" is ambiguous");
                    return Err(InstallError::Invalid(reason));
                },
                None => {
                    found = Some(i);
                },
            }
        }
        i += 1;
    }
    match found {
        Some(at) => {
            assert(meant(views, prefix@) =~= set![at as int]);
            Ok(at)
        },
        None => {
            assert(meant(views, prefix@) =~= Set::<int>::empty());
            let mut reason: String = "no installed version matches ".to_owned();
            reason.append(prefix);
            Err(InstallError::Invalid(reason))
        },
    }
}

/// What becomes of an entry when unused versions are removed.
#[derive(Clone, Copy, Debug, PartialEq, Eq, Structural)]
pub enum Collection {
    /// It stays.
    Keep,
    /// It was being put together and was abandoned: it goes.
    RemoveAbandoned,
    /// It goes after it has been checked.
    RemoveChecked,
}

/// What becomes of an entry when unused versions are removed.
pub open spec fn collected(entry: VersionEntry, current: Option<Seq<char>>) -> Collection {
    if !entry.is_directory || entry.is_link {
        Collection::Keep
    } else if is_staging(entry.name@) {
        Collection::RemoveAbandoned
    } else if current == Some(entry.name@) || entry.pin_count != 0 {
        Collection::Keep
    } else {
        Collection::RemoveChecked
    }
}

/// What becomes of an entry when unused versions are removed.
pub fn collect(entry: &VersionEntry, current: &Option<String>) -> (collection: Collection)
    ensures
        collection == collected(*entry, text_view(*current)),
{
    if !entry.is_directory || entry.is_link {
        return Collection::Keep;
    }
    if starts_with(entry.name.as_str(), ".staging-") {
        return Collection::RemoveAbandoned;
    }
    let is_current: bool = match current {
        Some(name) => same_text(name.as_str(), entry.name.as_str()),
        None => false,
    };
    if is_current || entry.pin_count != 0 {
        Collection::Keep
    } else {
        Collection::RemoveChecked
    }
}

/// Whether the pins of an entry decide what becomes of it when unused versions are removed.
pub open spec fn pins_decide(
    name: Seq<char>,
    is_directory: bool,
    is_link: bool,
    current: Option<Seq<char>>,
) -> bool {
    is_directory && !is_link && !is_staging(name) && current != Some(name)
}

/// Whether the pins of an entry have to be counted before unused versions are removed.
pub fn needs_pins(name: &str, is_directory: bool, is_link: bool, current: &Option<String>) -> (needs:
    bool)
    ensures
        needs == pins_decide(name@, is_directory, is_link, text_view(*current)),
{
    let is_current: bool = match current {
        Some(selected) => same_text(selected.as_str(), name),
        None => false,
    };
    is_directory && !is_link && !starts_with(name, ".staging-") && !is_current
}

/// Where the pins of an entry do not decide, it becomes the same of it whatever their number.
pub proof fn law_pins_decide(a: VersionEntry, b: VersionEntry, current: Option<Seq<char>>)
    requires
        a.name@ == b.name@,
        a.is_directory == b.is_directory,
        a.is_link == b.is_link,
    ensures
        !pins_decide(a.name@, a.is_directory, a.is_link, current) ==> collected(a, current)
            == collected(b, current),
        pins_decide(a.name@, a.is_directory, a.is_link, current) ==> (collected(a, current)
            == Collection::Keep <==> a.pin_count != 0),
{
}

/// The entries that are removed, among the first `n`.
pub open spec fn garbage(entries: Seq<VersionEntry>, current: Option<Seq<char>>, n: int) -> Seq<int>
    decreases n,
{
    if n <= 0 {
        Seq::empty()
    } else {
        let before = garbage(entries, current, n - 1);
        if collected(entries[n - 1], current) == Collection::Keep {
            before
        } else {
            before.push(n - 1)
        }
    }
}

/// The entries that are removed, in their order, each with whether it is checked first.
pub fn garbage_collect(entries: &Vec<VersionEntry>, current: &Option<String>) -> (gone: Vec<
    (usize, bool),
>)
    ensures
        gone@.map_values(|entry: (usize, bool)| entry.0 as int) == garbage(
            entries@,
            text_view(*current),
            entries@.len() as int,
        ),
        forall|i: int|
            0 <= i < gone.len() ==> (#[trigger] gone@[i]).0 < entries.len() && gone@[i].1 == (
            collected(entries@[gone@[i].0 as int], text_view(*current))
                == Collection::RemoveChecked),
{
    let mut gone: Vec<(usize, bool)> = Vec::new();
    let mut i: usize = 0;
    assert(gone@.map_values(|entry: (usize, bool)| entry.0 as int) =~= Seq::empty());
    while i < entries.len()
        invariant
            i <= entries.len(),
            gone@.map_values(|entry: (usize, bool)| entry.0 as int) == garbage(
                entries@,
                text_view(*current),
                i as int,
            ),
            forall|k: int|
                0 <= k < gone.len() ==> (#[trigger] gone@[k]).0 < entries.len() && gone@[k].1 == (
                collected(entries@[gone@[k].0 as int], text_view(*current))
                    == Collection::RemoveChecked),
        decreases entries.len() - i,
    {
        let ghost before = gone@;
        match collect(&entries[i], current) {
            Collection::Keep => {},
            Collection::RemoveAbandoned => {
                gone.push((i, false));
                assert(gone@.map_values(|entry: (usize, bool)| entry.0 as int)
                    =~= before.map_values(|entry: (usize, bool)| entry.0 as int).push(i as int));
            },
            Collection::RemoveChecked => {
                gone.push((i, true));
                assert(gone@.map_values(|entry: (usize, bool)| entry.0 as int)
                    =~= before.map_values(|entry: (usize, bool)| entry.0 as int).push(i as int));
            },
        }
        i += 1;
    }
    gone
}

/// Neither the selected version nor one with pins is removed, whatever else lies there.
pub proof fn law_versions_in_use_are_kept(
    entries: Seq<VersionEntry>,
    current: Option<Seq<char>>,
    n: int,
    i: int,
)
    requires
        0 <= i < n <= entries.len(),
        current == Some(entries[i].name@) || entries[i].pin_count != 0,
        !is_staging(entries[i].name@),
    ensures
        !garbage(entries, current, n).contains(i),
    decreases n,
{
    lemma_garbage_is_below(entries, current, n - 1);
    if i < n - 1 {
        law_versions_in_use_are_kept(entries, current, n - 1, i);
    }
    let before = garbage(entries, current, n - 1);
    assert forall|k: int| 0 <= k < garbage(entries, current, n).len() implies #[trigger] garbage(
        entries,
        current,
        n,
    )[k] != i by {
        if k < before.len() {
            assert(garbage(entries, current, n)[k] == before[k]);
            assert(before.contains(before[k]));
        }
    }
}

proof fn lemma_garbage_is_below(entries: Seq<VersionEntry>, current: Option<Seq<char>>, n: int)
    ensures
        forall|k: int|
            0 <= k < garbage(entries, current, n).len() ==> 0 <= #[trigger] garbage(
                entries,
                current,
                n,
            )[k] < n,
    decreases n,
{
    if n > 0 {
        lemma_garbage_is_below(entries, current, n - 1);
        let before = garbage(entries, current, n - 1);
        let after = garbage(entries, current, n);
        assert forall|k: int| 0 <= k < after.len() implies 0 <= #[trigger] after[k] < n by {
            if k < before.len() {
                assert(after[k] == before[k]);
            }
        }
    }
}

/// A bundle that was accepted is accepted again where it was installed: with the same manifest and
/// the same executables, in the directory that was planned for it.
pub proof fn law_installed_bundles_pass(
    root: Seq<char>,
    entries: Seq<BundleEntry>,
    bytes: Seq<u8>,
    manifest: ManifestView,
    version: Result<Seq<char>, Seq<char>>,
    facts: Seq<FileFacts>,
    architecture: Seq<char>,
    path: Seq<char>,
)
    requires
        bundle_refusal(root, entries, bytes, Ok(manifest), version, facts, architecture) is None,
        is_digest(digest_of(bytes)),
        forall|i: int|
            0 <= i < REQUIRED_FILES ==> (#[trigger] facts[i] matches FileFacts::Present {
                is_file,
                size: _,
                digest: _,
            } && is_file),
    ensures
        installed_refusal(
            path,
            Some(directory_of(manifest.version, digest_of(bytes))),
            bytes,
            Ok(manifest),
            facts,
            architecture,
        ) is None,
{
    law_directories_are_read_back(manifest.version, digest_of(bytes));
    lemma_payload_is_installed(root, path, manifest, facts, 0, 0);
}

proof fn lemma_payload_is_installed(
    root: Seq<char>,
    path: Seq<char>,
    manifest: ManifestView,
    facts: Seq<FileFacts>,
    i: int,
    total: nat,
)
    requires
        0 <= i,
        payload_refusal(root, manifest, facts, i, total) is None,
        forall|i: int|
            0 <= i < REQUIRED_FILES ==> (#[trigger] facts[i] matches FileFacts::Present {
                is_file,
                size: _,
                digest: _,
            } && is_file),
    ensures
        installed_files_refusal(path, manifest, facts, i) is None,
    decreases REQUIRED_FILES - i,
{
    if i < REQUIRED_FILES {
        let declared = manifest.find(required(i))->0;
        assert(facts[i] is Present);
        lemma_payload_is_installed(
            root,
            path,
            manifest,
            facts,
            i + 1,
            total + declared.size as nat,
        );
    }
}

/// The selection of a version that was installed names the directory in which it was installed.
pub proof fn law_selections_name_their_version(
    version: Seq<char>,
    identity: Seq<char>,
    bytes: Seq<u8>,
    build: Seq<char>,
)
    requires
        is_digest(identity),
        valid_utf8(bytes),
    ensures
        selected(
            bytes,
            Ok((SelectionView { bundle_format: 1, version, manifest_sha256: identity })),
            Ok(build),
        ) == Ok::<Seq<char>, InstallRefusal>(directory_of(version, identity)),
{
}

/// The files that are removed when a user's installation goes.
pub fn uninstall_user(bin: &str) -> (paths: Vec<String>)
    ensures
        paths.len() == REQUIRED_FILES,
        forall|i: int|
            0 <= i < REQUIRED_FILES ==> #[trigger] paths@[i]@ == joined(bin@, required(i)),
{
    let mut paths: Vec<String> = Vec::new();
    let mut i: usize = 0;
    while i < REQUIRED_FILES
        invariant
            i <= REQUIRED_FILES,
            paths.len() == i,
            forall|j: int| 0 <= j < i ==> #[trigger] paths@[j]@ == joined(bin@, required(j)),
        decreases REQUIRED_FILES - i,
    {
        paths.push(join_paths(bin, required_file(i)));
        i += 1;
    }
    paths
}

} // verus!
