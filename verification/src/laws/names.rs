//! What names and paths mean, and how long is waited.

use vstd::arithmetic::power::pow;
use vstd::prelude::*;

use crate::bundle::required;
use crate::ids::{InvalidWorkloadId, is_workload_id};
use crate::packaging::{
    BuiltFile, build_line, bundle_directory, file_text, files_text, manifest_text, packaged_files,
    packaged_manifest, packaged_target,
};
use crate::paths::{
    body, extension, file_name, followed, has_prefix, has_root, is_absolute, is_name, is_separator,
    is_verbatim, joined, last_dot, parent, prefix_len, search_entries, version_pin, written,
};
use crate::restart::backoff_nanos;
use crate::startup::{config_directory_in, given_or};
use crate::text::{decimal, same_ignoring_ascii_case};

verus! {

/// A workload is named with up to a hundred and twenty-eight lower-case letters, digits, hyphens,
/// underscores and dots, with a letter or a digit at both ends.
pub proof fn law_workload_ids_are_plain(bytes: Seq<u8>)
    ensures
        is_workload_id(bytes) <==> {
            &&& 1 <= bytes.len() <= 128
            &&& forall|i: int|
                0 <= i < bytes.len() ==> 'a' as u8 <= #[trigger] bytes[i] <= 'z' as u8 || '0' as u8
                    <= bytes[i] <= '9' as u8 || 0 < i < bytes.len() - 1 && (bytes[i] == '-' as u8
                    || bytes[i] == '_' as u8 || bytes[i] == '.' as u8)
        },
{
    if is_workload_id(bytes) {
        assert forall|i: int| 0 <= i < bytes.len() implies 'a' as u8 <= #[trigger] bytes[i]
            <= 'z' as u8 || '0' as u8 <= bytes[i] <= '9' as u8 || 0 < i < bytes.len() - 1 && (
        bytes[i] == '-' as u8 || bytes[i] == '_' as u8 || bytes[i] == '.' as u8) by {
            assert(crate::ids::is_id_byte(bytes[i]));
        }
    }
}

/// Every text that names no workload is refused with a reason, and none that names one is.
pub proof fn law_refused_ids_are_explained(bytes: Seq<u8>, reason: InvalidWorkloadId)
    requires
        reason.explains(bytes),
    ensures
        !is_workload_id(bytes),
        reason is Empty <==> bytes.len() == 0,
        reason is TooLong <==> bytes.len() > 128,
{
    if let InvalidWorkloadId::InvalidCharacter { index } = reason {
        assert(!crate::ids::is_id_byte(bytes[index as int]));
    }
}

/// A path with a drive is complete exactly where a separator follows the drive.
pub proof fn law_drives_need_a_root(letter: char, rest: Seq<char>)
    requires
        'a' <= letter <= 'z' || 'A' <= letter <= 'Z',
    ensures
        is_absolute(seq![letter, ':'] + rest) <==> rest.len() > 0 && (rest[0] == '\\' || rest[0]
            == '/'),
        prefix_len(seq![letter, ':'] + rest) == 2,
{
    let path = seq![letter, ':'] + rest;
    assert(path[0] == letter && path[1] == ':');
    if rest.len() > 0 {
        assert(path[2] == rest[0]);
    }
}

/// A path that begins with a plain name is not complete.
pub proof fn law_plain_names_are_not_complete(path: Seq<char>)
    requires
        path.len() > 0,
        !is_separator(path[0]),
        path.len() < 2 || path[1] != ':',
    ensures
        !is_absolute(path),
        !has_prefix(path),
        !has_root(path),
{
}

/// A name after a path: with a separator between them, unless one is there or the path is empty; and
/// a path that is complete with a drive stands alone.
pub proof fn law_paths_are_joined(base: Seq<char>, part: Seq<char>)
    requires
        !is_verbatim(base),
    ensures
        has_prefix(part) ==> joined(base, part) == part,
        !has_prefix(part) && !has_root(part) && base.len() > 2 ==> joined(base, part)
            == if base.last() == '\\' || base.last() == '/' {
            base + part
        } else {
            base + seq!['\\'] + part
        },
        !has_prefix(part) && !has_root(part) && base.len() == 0 ==> joined(base, part) == part,
        !has_prefix(part) && has_root(part) ==> joined(base, part) == base.take(prefix_len(base))
            + part,
{
    assert(base + (seq!['\\'] + part) =~= base + seq!['\\'] + part);
    if base.len() == 0 {
        assert(base + part =~= part);
    }
}

/// A path from the root, after one that is taken as it stands, leaves only its prefix: what stood
/// after the prefix does not matter.
pub proof fn law_rooted_paths_keep_the_prefix(base: Seq<char>, other: Seq<char>, part: Seq<char>)
    requires
        is_verbatim(base),
        is_verbatim(other),
        base.take(prefix_len(base)) == other.take(prefix_len(other)),
        has_root(part),
    ensures
        joined(base, part) == joined(other, part),
{
}

/// After a path that is taken as it stands, a name is one more component, and `..` takes the last
/// name away.
pub proof fn law_verbatim_paths_are_joined_by_components(
    base: Seq<char>,
    part: Seq<char>,
    name: Seq<char>,
)
    requires
        is_verbatim(base),
        part.len() > 0,
        !has_prefix(part),
        !has_root(part),
        body(part) == seq![name],
    ensures
        name != seq!['.', '.'] ==> joined(base, part) == base.take(prefix_len(base)) + written(
            body(base),
        ) + seq!['\\'] + name,
        name == seq!['.', '.'] && body(base).len() > 1 && is_name(body(base).last()) ==> joined(
            base,
            part,
        ) + seq!['\\'] + body(base).last() == base.take(prefix_len(base)) + written(body(base)),
{
    let names = body(base);
    assert(seq![name].drop_last() =~= Seq::<Seq<char>>::empty());
    reveal_with_fuel(followed, 2);
    assert(names.push(name).drop_last() =~= names);
    if name != seq!['.', '.'] {
        assert(followed(names, seq![name]) == names.push(name));
        assert(joined(base, part) =~= base.take(prefix_len(base)) + written(names) + seq!['\\']
            + name);
    } else if names.len() > 1 && is_name(names.last()) {
        assert(joined(base, part) + seq!['\\'] + names.last() =~= base.take(prefix_len(base))
            + written(names));
    }
}

/// The last dot of a name is one, and none follows it.
pub proof fn law_the_last_dot_is_the_last(name: Seq<char>)
    ensures
        -1 <= last_dot(name) < name.len(),
        last_dot(name) >= 0 ==> name[last_dot(name)] == '.',
        forall|i: int| last_dot(name) < i < name.len() ==> #[trigger] name[i] != '.',
    decreases name.len(),
{
    if name.len() > 0 && name.last() != '.' {
        let rest = name.drop_last();
        law_the_last_dot_is_the_last(rest);
        assert forall|i: int| last_dot(name) < i < name.len() implies #[trigger] name[i] != '.' by {
            if i < rest.len() {
                assert(rest[i] == name[i]);
            }
        }
        if last_dot(name) >= 0 {
            assert(rest[last_dot(name)] == name[last_dot(name)]);
        }
    }
}

/// The extension of a path is what follows the last dot of its file name, where something stands
/// before that dot.
pub proof fn law_extensions_follow_the_last_dot(path: Seq<char>)
    ensures
        extension(path) is Some <==> (file_name(path) matches Some(name) && exists|i: int|
            0 < i < name.len() && #[trigger] name[i] == '.'),
        extension(path) matches Some(found) ==> (file_name(path) matches Some(name) && !found.contains(
            '.',
        ) && exists|stem: Seq<char>| stem.len() > 0 && name == #[trigger] (stem + seq!['.'] + found)),
{
    if let Some(name) = file_name(path) {
        law_the_last_dot_is_the_last(name);
        let at = last_dot(name);
        if at > 0 {
            let found = name.skip(at + 1);
            let stem = name.take(at);
            assert(name =~= stem + seq!['.'] + found);
            if found.contains('.') {
                let i = choose|i: int| 0 <= i < found.len() && found[i] == '.';
                assert(name[at + 1 + i] == '.');
            }
            assert(name[at] == '.');
        }
    }
}

proof fn lemma_entry_grows(head: Seq<char>, rest: Seq<char>, entry: Seq<char>)
    requires
        !head.contains('"'),
        !head.contains(';'),
    ensures
        search_entries(head + rest, false, entry) == search_entries(rest, false, entry + head),
    decreases head.len(),
{
    if head.len() == 0 {
        assert(head + rest =~= rest);
        assert(entry + head =~= entry);
    } else {
        let tail = head.drop_first();
        assert(head.contains(head[0]));
        assert(!tail.contains('"')) by {
            if tail.contains('"') {
                let i = choose|i: int| 0 <= i < tail.len() && tail[i] == '"';
                assert(head[i + 1] == '"');
            }
        }
        assert(!tail.contains(';')) by {
            if tail.contains(';') {
                let i = choose|i: int| 0 <= i < tail.len() && tail[i] == ';';
                assert(head[i + 1] == ';');
            }
        }
        lemma_entry_grows(tail, rest, entry.push(head[0]));
        assert((head + rest).drop_first() =~= tail + rest);
        assert(entry.push(head[0]) + tail =~= entry + head);
    }
}

/// The entries of a search path stand between its semicolons, as they are written.
pub proof fn law_search_paths_are_split_at_semicolons(head: Seq<char>, tail: Seq<char>)
    requires
        !head.contains('"'),
        !head.contains(';'),
    ensures
        search_entries(head + seq![';'] + tail, false, Seq::empty()) == seq![head] + search_entries(
            tail,
            false,
            Seq::empty(),
        ),
        search_entries(head, false, Seq::empty()) == seq![head],
{
    let none = Seq::<char>::empty();
    assert(head + seq![';'] + tail =~= head + (seq![';'] + tail));
    lemma_entry_grows(head, seq![';'] + tail, none);
    lemma_entry_grows(head, none, none);
    assert(head + none =~= head);
    assert(none + head =~= head);
    assert((seq![';'] + tail).drop_first() =~= tail);
}

/// Inside quotation marks a semicolon is part of an entry, and the marks go.
pub proof fn law_quoted_semicolons_do_not_split(rest: Seq<char>, entry: Seq<char>, open: bool)
    ensures
        search_entries(seq!['"'] + rest, open, entry) == search_entries(rest, !open, entry),
        search_entries(seq![';'] + rest, true, entry) == search_entries(
            rest,
            true,
            entry.push(';'),
        ),
{
    assert((seq!['"'] + rest).drop_first() =~= rest);
    assert((seq![';'] + rest).drop_first() =~= rest);
}

/// An execution keeps the version of its supervisor in use by a file under that version's name beside
/// the versions; a supervisor that lies elsewhere is kept by none.
pub proof fn law_versions_in_use_are_pinned(executable: Seq<char>, execution_id: Seq<char>)
    ensures
        version_pin(executable, execution_id) is Some ==> {
            let version = parent(executable)->0;
            let versions = parent(version)->0;
            &&& parent(executable) is Some && parent(version) is Some && parent(versions) is Some
            &&& file_name(versions) matches Some(name) && same_ignoring_ascii_case(
                name,
                "versions"@,
            )
            &&& version_pin(executable, execution_id)->0 == joined(
                joined(joined(parent(versions)->0, "pins"@), file_name(version)->0),
                execution_id + ".pin"@,
            )
        },
        parent(executable) is None ==> version_pin(executable, execution_id) is None,
{
}

/// Each wait is the one before it times the factor, up to the longest, and the first is the initial
/// one.
pub proof fn law_waits_grow_by_the_factor(
    initial: nat,
    multiplier: nat,
    maximum: nat,
    retry: nat,
)
    requires
        retry > 0,
        multiplier > 0,
        initial <= maximum,
    ensures
        backoff_nanos(initial, multiplier, maximum, 1) == initial,
        backoff_nanos(initial, multiplier, maximum, retry + 1) == if backoff_nanos(
            initial,
            multiplier,
            maximum,
            retry,
        ) * multiplier < maximum {
            backoff_nanos(initial, multiplier, maximum, retry) * multiplier
        } else {
            maximum
        },
{
    let before = pow(multiplier as int, (retry - 1) as nat);
    let after = pow(multiplier as int, retry);
    vstd::arithmetic::power::lemma_pow0(multiplier as int);
    vstd::arithmetic::power::lemma_pow_positive(multiplier as int, (retry - 1) as nat);
    assert(after == multiplier * before) by {
        reveal(pow);
    }
    assert(initial * after == (initial * before) * multiplier) by (nonlinear_arith)
        requires
            after == multiplier * before,
    ;
    assert(initial * before >= 0) by (nonlinear_arith)
        requires
            before > 0,
            initial >= 0,
    ;
    if initial * before >= maximum {
        assert((initial * before) * multiplier >= maximum) by (nonlinear_arith)
            requires
                initial * before >= maximum,
                multiplier >= 1,
                maximum >= 0,
        ;
        assert(maximum * multiplier >= maximum) by (nonlinear_arith)
            requires
                multiplier >= 1,
                maximum >= 0,
        ;
    }
}

/// What was given takes the place of what is usual.
pub proof fn law_given_paths_come_first(given: Option<String>, other: Seq<char>, profile: Seq<char>)
    ensures
        given matches Some(text) ==> given_or(given, other) == text@,
        given is None ==> given_or(given, other) == other,
        config_directory_in(profile) == joined(
            joined(joined(profile, ".config"@), "susm"@),
            "workloads.d"@,
        ),
{
}

/// A bundle is built exactly where its version is that of the workspace and its target is one of the
/// two that there are: the one that was asked for, or that of the machine.
pub proof fn law_bundles_are_built_for_their_target(
    version: Seq<char>,
    workspace: Seq<char>,
    asked: Option<Seq<char>>,
    architecture: Seq<char>,
)
    ensures
        ({
            let result = packaged_target(version, workspace, asked, architecture);
            &&& result is Ok <==> version == workspace && match asked {
                Some(target) => target == "x86_64-pc-windows-msvc"@ || target
                    == "aarch64-pc-windows-msvc"@,
                None => architecture == "x86_64"@ || architecture == "aarch64"@,
            }
            &&& result is Ok ==> (asked matches Some(target) ==> result->Ok_0 == target)
            &&& result is Ok && asked is None && architecture == "x86_64"@ ==> result->Ok_0
                == "x86_64-pc-windows-msvc"@
            &&& result is Ok && asked is None && architecture == "aarch64"@ ==> result->Ok_0
                == "aarch64-pc-windows-msvc"@
        }),
{
    reveal_strlit("x86_64");
    reveal_strlit("aarch64");
    assert("x86_64"@.len() == 6 && "aarch64"@.len() == 7);
}

/// All four packages are built, for the target.
pub proof fn law_all_packages_are_built(target: Seq<char>, version: Seq<char>)
    ensures
        ({
            let line = build_line(target);
            &&& line[0] == "build"@ && line.contains("--release"@)
            &&& line[2] == "--target"@ && line[3] == target
            &&& line.contains("susm-cli"@) && line.contains("susm-controller"@) && line.contains(
                "susm-supervisor"@,
            ) && line.contains("susm-host"@)
            &&& bundle_directory(version, target) == "susm-"@ + version + "-"@ + target
        }),
{
    let line = build_line(target);
    assert(line[1] == "--release"@);
    assert(line[5] == "susm-cli"@ && line[7] == "susm-controller"@ && line[9]
        == "susm-supervisor"@ && line[11] == "susm-host"@);
}

/// The manifest of a bundle says what was built: the version, the target, and each executable with
/// its size and its digest.
pub proof fn law_manifests_say_what_was_built(
    version: Seq<char>,
    target: Seq<char>,
    built: Seq<BuiltFile>,
)
    ensures
        ({
            let manifest = packaged_manifest(version, target, built);
            &&& manifest.version == version && manifest.target == target
            &&& manifest.bundle_format == 1 && manifest.protocol_major == 1
            &&& manifest.controller_schema_read_min == 1 && manifest.controller_schema_read_max == 2
                && manifest.controller_schema_write == 2
            &&& manifest.supervisor_runtime_formats == seq![1u32]
            &&& manifest.files.len() == 3
            &&& manifest.files[0].path == "susm.exe"@ && manifest.files[0].size == built[0].size
                && manifest.files[0].sha256 == built[0].sha256@
            &&& manifest.files[1].path == "susmd.exe"@ && manifest.files[1].size == built[1].size
                && manifest.files[1].sha256 == built[1].sha256@
            &&& manifest.files[2].path == "susm-supervisor.exe"@ && manifest.files[2].size
                == built[2].size && manifest.files[2].sha256 == built[2].sha256@
        }),
{
}

/// Whether a text holds another one.
pub open spec fn holds_text(text: Seq<char>, part: Seq<char>) -> bool {
    exists|before: Seq<char>, after: Seq<char>| text == #[trigger] (before + part + after)
}

/// The manifest that is written holds the version, the target and each executable, under the names by
/// which they are read.
pub proof fn law_written_manifests_say_what_was_built(
    version: Seq<char>,
    target: Seq<char>,
    built: Seq<BuiltFile>,
)
    ensures
        ({
            let text = manifest_text(version, target, built);
            &&& holds_text(text, "version = \""@ + version + "\"\n"@)
            &&& holds_text(text, "target = \""@ + target + "\"\n"@)
            &&& forall|i: int|
                0 <= i < 3 ==> holds_text(
                    text,
                    "[[files]]\npath = \""@ + required(i) + "\"\nsize = "@ + decimal(
                        #[trigger] built[i].size as nat,
                    ) + "\nsha256 = \""@ + built[i].sha256@ + "\"\n"@,
                )
        }),
{
    let text = manifest_text(version, target, built);
    let files = packaged_files(built);
    let head = "bundle_format = 1\nversion = \""@ + version + "\"\ntarget = \""@ + target
        + "\"\nprotocol_major = 1\ncontroller_schema_read_min = 1\ncontroller_schema_read_max = 2\ncontroller_schema_write = 2\nsupervisor_runtime_formats = [1]\n"@;
    let rest = "protocol_major = 1\ncontroller_schema_read_min = 1\ncontroller_schema_read_max = 2\ncontroller_schema_write = 2\nsupervisor_runtime_formats = [1]\n"@;
    reveal_strlit("bundle_format = 1\nversion = \"");
    reveal_strlit("bundle_format = 1\n");
    reveal_strlit("version = \"");
    reveal_strlit("\"\ntarget = \"");
    reveal_strlit("target = \"");
    reveal_strlit("\"\n");
    reveal_strlit(
        "\"\nprotocol_major = 1\ncontroller_schema_read_min = 1\ncontroller_schema_read_max = 2\ncontroller_schema_write = 2\nsupervisor_runtime_formats = [1]\n",
    );
    reveal_strlit(
        "protocol_major = 1\ncontroller_schema_read_min = 1\ncontroller_schema_read_max = 2\ncontroller_schema_write = 2\nsupervisor_runtime_formats = [1]\n",
    );
    reveal_strlit("\n[[files]]\npath = \"");
    reveal_strlit("[[files]]\npath = \"");
    reveal_with_fuel(files_text, 4);
    let all = files_text(files, 3);
    let quote = "\"\n"@;
    assert("bundle_format = 1\nversion = \""@ =~= "bundle_format = 1\n"@ + "version = \""@);
    assert("\"\ntarget = \""@ =~= quote + "target = \""@);
    assert("\"\nprotocol_major = 1\ncontroller_schema_read_min = 1\ncontroller_schema_read_max = 2\ncontroller_schema_write = 2\nsupervisor_runtime_formats = [1]\n"@
        =~= quote + rest);
    assert("\n[[files]]\npath = \""@ =~= seq!['\n'] + "[[files]]\npath = \""@);
    assert(text =~= "bundle_format = 1\n"@ + ("version = \""@ + version + quote) + ("target = \""@
        + target + quote + rest + all));
    assert(text =~= ("bundle_format = 1\n"@ + "version = \""@ + version + quote) + ("target = \""@
        + target + quote) + (rest + all));
    assert forall|i: int| 0 <= i < 3 implies holds_text(
        text,
        "[[files]]\npath = \""@ + required(i) + "\"\nsize = "@ + decimal(
            #[trigger] built[i].size as nat,
        ) + "\nsha256 = \""@ + built[i].sha256@ + quote,
    ) by {
        let part = "[[files]]\npath = \""@ + required(i) + "\"\nsize = "@ + decimal(
            built[i].size as nat,
        ) + "\nsha256 = \""@ + built[i].sha256@ + quote;
        assert(file_text(files[i]) =~= seq!['\n'] + part);
        let before = head + files_text(files, i) + seq!['\n'];
        let after = if i == 0 {
            file_text(files[1]) + file_text(files[2])
        } else if i == 1 {
            file_text(files[2])
        } else {
            Seq::empty()
        };
        assert(text =~= before + part + after);
    }
}

} // verus!
