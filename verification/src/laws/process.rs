//! What a process is launched with.

use vstd::prelude::*;

use crate::config::model::texts;
use crate::messages::{CheckpointView, ConfigurationView};
use crate::paths::{extension, has_several_components, is_absolute, joined, search_entries};
use crate::preflight::{
    candidates, char_position, expanded, first_existing, looked_at, offers, process_environment,
    recovered, resolved, search_directory, settled, with_set, without_unset,
};
use crate::process::{
    ProcessSpec, WaitStep, command_line, command_line_refusal, environment_refusal, is_plain,
    is_white_space, quoted, variable_refusal, variable_texts, wait_meaning,
};
use crate::text::upper_form;
use crate::utf16::utf16;

verus! {

/// A character stands first where the position says, and nowhere before it.
pub proof fn law_positions_are_the_first(text: Seq<char>, c: char)
    ensures
        0 <= char_position(text, c) <= text.len(),
        forall|i: int| 0 <= i < char_position(text, c) ==> #[trigger] text[i] != c,
        char_position(text, c) < text.len() ==> text[char_position(text, c)] == c,
    decreases text.len(),
{
    if text.len() > 0 && text[0] != c {
        let rest = text.drop_first();
        law_positions_are_the_first(rest, c);
        assert forall|i: int| 0 <= i < char_position(text, c) implies #[trigger] text[i] != c by {
            if i > 0 {
                assert(rest[i - 1] == text[i]);
            }
        }
        if char_position(rest, c) < rest.len() {
            assert(rest[char_position(rest, c)] == text[char_position(text, c)]);
        }
    }
}

proof fn lemma_position_after(head: Seq<char>, tail: Seq<char>, c: char)
    requires
        !head.contains(c),
        tail.len() > 0,
        tail[0] == c,
    ensures
        char_position(head + tail, c) == head.len(),
{
    let text = head + tail;
    law_positions_are_the_first(text, c);
    let at = char_position(text, c);
    if at < head.len() {
        assert(head[at] == text[at]);
        assert(head.contains(c));
    }
    assert(text[head.len() as int] == c);
}

/// A text without a dollar sign stands for itself.
pub proof fn law_plain_text_stands_for_itself(
    text: Seq<char>,
    environment: Map<Seq<char>, Seq<char>>,
)
    requires
        !text.contains('$'),
    ensures
        expanded(text, environment) == Ok::<Seq<char>, Seq<char>>(text),
{
    law_positions_are_the_first(text, '$');
    if char_position(text, '$') < text.len() {
        assert(text.contains('$'));
    }
}

/// A reference stands for the value of its variable, whose name is looked up in upper case, and what
/// follows it is filled in as if it stood alone; one to a variable that is missing is refused.
pub proof fn law_references_stand_for_their_value(
    head: Seq<char>,
    name: Seq<char>,
    tail: Seq<char>,
    environment: Map<Seq<char>, Seq<char>>,
)
    requires
        !head.contains('$'),
        !name.contains('}'),
    ensures
        ({
            let text = head + seq!['$', '{'] + name + seq!['}'] + tail;
            let found = environment.contains_key(upper_form(name));
            &&& found ==> (expanded(tail, environment) matches Ok(rest) ==> expanded(
                text,
                environment,
            ) == Ok::<Seq<char>, Seq<char>>(head + environment[upper_form(name)] + rest))
            &&& found ==> (expanded(tail, environment) matches Err(reason) ==> expanded(
                text,
                environment,
            ) == Err::<Seq<char>, Seq<char>>(reason))
            &&& !found ==> expanded(text, environment) == Err::<Seq<char>, Seq<char>>(
                "environment variable is missing: "@ + name,
            )
        }),
{
    let text = head + seq!['$', '{'] + name + seq!['}'] + tail;
    let after = seq!['$', '{'] + name + seq!['}'] + tail;
    assert(text =~= head + after);
    lemma_position_after(head, after, '$');
    let rest = text.skip(head.len() as int + 1);
    assert(rest =~= seq!['{'] + name + seq!['}'] + tail);
    let inside = rest.skip(1);
    assert(inside =~= name + (seq!['}'] + tail));
    lemma_position_after(name, seq!['}'] + tail, '}');
    assert(inside.take(name.len() as int) =~= name);
    assert(inside.skip(name.len() as int + 1) =~= tail);
    assert(text.take(head.len() as int) =~= head);
}

/// A doubled dollar sign stands for one, and a single one for nothing.
pub proof fn law_single_dollars_are_refused(
    head: Seq<char>,
    tail: Seq<char>,
    environment: Map<Seq<char>, Seq<char>>,
)
    requires
        !head.contains('$'),
    ensures
        tail.len() == 0 || tail[0] != '$' && tail[0] != '{' ==> expanded(
            head + seq!['$'] + tail,
            environment,
        ) is Err,
        expanded(tail, environment) matches Ok(rest) ==> expanded(
            head + seq!['$', '$'] + tail,
            environment,
        ) == Ok::<Seq<char>, Seq<char>>(head.push('$') + rest),
{
    let single = head + seq!['$'] + tail;
    assert(single =~= head + (seq!['$'] + tail));
    lemma_position_after(head, seq!['$'] + tail, '$');
    assert(single.skip(head.len() as int + 1) =~= tail);
    let double = head + seq!['$', '$'] + tail;
    assert(double =~= head + (seq!['$', '$'] + tail));
    lemma_position_after(head, seq!['$', '$'] + tail, '$');
    assert(double.skip(head.len() as int + 1) =~= seq!['$'] + tail);
    assert(double.skip(head.len() as int + 1).skip(1) =~= tail);
    assert(double.take(head.len() as int) =~= head);
}

/// An executable is looked for under its own name, and with `.exe` after it only where it has no
/// extension; in a directory of the search path, which counts from the working directory on where it
/// is not complete.
pub proof fn law_executables_are_looked_for_by_name(
    value: Seq<char>,
    working_directory: Seq<char>,
    entry: Seq<char>,
)
    ensures
        offers(value, entry)[0] == joined(entry, value),
        offers(value, entry).len() == 2 <==> extension(value) is None,
        extension(value) is Some ==> offers(value, entry).len() == 1,
        extension(value) is None ==> offers(value, entry)[1] == joined(entry, value + ".exe"@),
        is_absolute(entry) ==> search_directory(working_directory, entry) == entry,
        !is_absolute(entry) ==> search_directory(working_directory, entry) == joined(
            working_directory,
            entry,
        ),
{
}

/// An executable is looked for in all directories of the search path, in their order.
pub proof fn law_the_search_path_is_followed(
    value: Seq<char>,
    working_directory: Seq<char>,
    entries: Seq<Seq<char>>,
    next: Seq<char>,
    file: Seq<char>,
)
    ensures
        candidates(value, working_directory, Seq::empty()).len() == 0,
        candidates(value, working_directory, entries.push(next)) == candidates(
            value,
            working_directory,
            entries,
        ) + offers(value, search_directory(working_directory, next)),
        candidates(value, working_directory, entries).contains(file) <==> exists|i: int|
            0 <= i < entries.len() && offers(
                value,
                search_directory(working_directory, #[trigger] entries[i]),
            ).contains(file),
    decreases entries.len(),
{
    assert(entries.push(next).drop_last() =~= entries);
    if entries.len() > 0 {
        let earlier = entries.drop_last();
        law_the_search_path_is_followed(value, working_directory, earlier, next, file);
        let before = candidates(value, working_directory, earlier);
        let own = offers(value, search_directory(working_directory, entries.last()));
        let all = before + own;
        if all.contains(file) {
            let at = choose|at: int| 0 <= at < all.len() && all[at] == file;
            if at < before.len() {
                assert(before[at] == file);
                assert(before.contains(file));
                let i = choose|i: int|
                    0 <= i < earlier.len() && offers(
                        value,
                        search_directory(working_directory, #[trigger] earlier[i]),
                    ).contains(file);
                assert(entries[i] == earlier[i]);
            } else {
                assert(own[at - before.len()] == file);
                assert(own.contains(file));
                assert(entries[entries.len() - 1] == entries.last());
            }
        }
        if exists|i: int|
            0 <= i < entries.len() && offers(
                value,
                search_directory(working_directory, #[trigger] entries[i]),
            ).contains(file) {
            let i = choose|i: int|
                0 <= i < entries.len() && offers(
                    value,
                    search_directory(working_directory, #[trigger] entries[i]),
                ).contains(file);
            if i < earlier.len() {
                assert(earlier[i] == entries[i]);
                assert(before.contains(file));
                let at = choose|at: int| 0 <= at < before.len() && before[at] == file;
                assert(all[at] == file);
            } else {
                let at = choose|at: int| 0 <= at < own.len() && own[at] == file;
                assert(all[before.len() + at] == file);
            }
        }
    }
}

/// The first file that exists is the one that is found.
pub proof fn law_the_first_file_is_found(files: Seq<bool>, count: int)
    requires
        0 <= count,
    ensures
        0 <= first_existing(files, count) <= count,
        forall|i: int| 0 <= i < first_existing(files, count) && i < files.len() ==> !#[trigger] files[i],
        first_existing(files, count) < count ==> first_existing(files, count) < files.len()
            && files[first_existing(files, count)],
    decreases count,
{
    if count > 0 {
        law_the_first_file_is_found(files, count - 1);
    }
}

/// How an executable is found: one with a directory only where that is complete, and one without
/// only on the search path.
pub proof fn law_executables_are_found(
    value: Seq<char>,
    working_directory: Seq<char>,
    environment: Map<Seq<char>, Seq<char>>,
    files: Seq<bool>,
)
    ensures
        ({
            let found = resolved(value, working_directory, environment, files);
            let looked = looked_at(value, working_directory, environment);
            &&& has_several_components(value) ==> (looked is Ok <==> is_absolute(value))
            &&& has_several_components(value) && looked is Ok ==> looked->Ok_0 == seq![value]
            &&& !has_several_components(value) ==> (looked is Ok <==> environment.contains_key(
                "PATH"@,
            ))
            &&& !has_several_components(value) && looked is Ok ==> looked->Ok_0 == candidates(
                value,
                working_directory,
                search_entries(environment["PATH"@], false, Seq::empty()),
            )
            &&& found is Ok <==> looked is Ok && exists|i: int|
                0 <= i < looked->Ok_0.len() && i < files.len() && #[trigger] files[i]
            &&& found matches Ok(path) ==> exists|i: int|
                0 <= i < looked->Ok_0.len() && i < files.len() && #[trigger] files[i] && path
                    == looked->Ok_0[i] && forall|j: int| 0 <= j < i ==> !#[trigger] files[j]
        }),
{
    let looked = looked_at(value, working_directory, environment);
    if let Ok(paths) = looked {
        law_the_first_file_is_found(files, paths.len() as int);
        let at = first_existing(files, paths.len() as int);
        if at < paths.len() {
            assert(files[at]);
        }
    }
}

/// A variable that is set has the value that is written, filled in from the environment that was
/// there before any was set; the last of one name counts, and no other variable changes.
pub proof fn law_variables_are_set(
    set: Seq<(Seq<char>, Seq<char>)>,
    base: Map<Seq<char>, Seq<char>>,
    n: int,
    name: Seq<char>,
)
    requires
        0 <= n <= set.len(),
    ensures
        with_set(set, base, n) is Ok <==> forall|i: int|
            0 <= i < n ==> expanded((#[trigger] set[i]).1, base) is Ok,
        with_set(set, base, n) matches Ok(environment) ==> ({
            &&& (forall|i: int| 0 <= i < n ==> upper_form((#[trigger] set[i]).0) != name) ==> (
            environment.contains_key(name) <==> base.contains_key(name)) && environment[name]
                == base[name]
            &&& n > 0 && upper_form(set[n - 1].0) == name ==> environment.contains_key(name) && Ok::<
                Seq<char>,
                Seq<char>,
            >(environment[name]) == expanded(set[n - 1].1, base)
            &&& n > 0 && upper_form(set[n - 1].0) != name ==> (with_set(set, base, n - 1)
                matches Ok(earlier) && (environment.contains_key(name) <==> earlier.contains_key(
                name,
            )) && environment[name] == earlier[name])
        }),
    decreases n,
{
    if n > 0 {
        law_variables_are_set(set, base, n - 1, name);
    }
}

/// A variable that is taken away is not there, in whatever case its name is written, and every other
/// is as it was.
pub proof fn law_variables_are_taken_away(
    unset: Seq<Seq<char>>,
    environment: Map<Seq<char>, Seq<char>>,
    n: int,
    name: Seq<char>,
)
    requires
        0 <= n <= unset.len(),
    ensures
        ({
            let after = without_unset(unset, environment, n);
            &&& after.contains_key(name) <==> environment.contains_key(name) && forall|i: int|
                0 <= i < n ==> upper_form(#[trigger] unset[i]) != name
            &&& after.contains_key(name) ==> after[name] == environment[name]
        }),
    decreases n,
{
    if n > 0 {
        law_variables_are_taken_away(unset, environment, n - 1, name);
    }
}

/// The environment of a process is the base with what is set and without what is taken away.
pub proof fn law_environments_are_overlaid(
    configuration: ConfigurationView,
    base: Map<Seq<char>, Seq<char>>,
    name: Seq<char>,
)
    ensures
        ({
            let set = configuration.environment_set;
            let unset = configuration.environment_unset;
            let result = process_environment(configuration, base);
            let removed = exists|i: int|
                0 <= i < unset.len() && upper_form(#[trigger] unset[i]) == name;
            &&& result is Ok <==> with_set(set, base, set.len() as int) is Ok
            &&& result matches Ok(environment) ==> {
                let with = with_set(set, base, set.len() as int)->Ok_0;
                &&& environment.contains_key(name) <==> !removed && with.contains_key(name)
                &&& environment.contains_key(name) ==> environment[name] == with[name]
            }
        }),
{
    let unset = configuration.environment_unset;
    let set = configuration.environment_set;
    if let Ok(environment) = with_set(set, base, set.len() as int) {
        law_variables_are_taken_away(unset, environment, unset.len() as int, name);
    }
}

/// A process is launched exactly where its directory, its executable and its environment can be
/// settled: the directory complete and there, and all references filled in from the base.
pub proof fn law_launches_are_settled_in_full(
    configuration: ConfigurationView,
    base: Map<Seq<char>, Seq<char>>,
    directory_exists: bool,
    files: Seq<bool>,
)
    ensures
        ({
            let directory = expanded(configuration.working_directory, base);
            let value = expanded(configuration.executable, base);
            let executable = resolved(value->Ok_0, directory->Ok_0, base, files);
            let environment = process_environment(configuration, base);
            let result = settled(configuration, base, directory_exists, files);
            &&& result is Ok <==> directory is Ok && is_absolute(directory->Ok_0)
                && directory_exists && value is Ok && executable is Ok && environment is Ok
            &&& result matches Ok(launch) ==> launch.executable == executable->Ok_0
                && launch.working_directory == directory->Ok_0 && launch.environment
                == environment->Ok_0
        }),
{
}

/// A process is launched again as it was launched before where that can be told from complete paths.
pub proof fn law_launches_are_recovered(checkpoint: CheckpointView)
    ensures
        recovered(checkpoint) is Some <==> is_absolute(checkpoint.resolved_executable)
            && is_absolute(checkpoint.resolved_working_directory),
        recovered(checkpoint) matches Some(launch) ==> launch.executable
            == checkpoint.resolved_executable && launch.working_directory
            == checkpoint.resolved_working_directory,
{
}

/// An argument is quoted exactly where it is empty or holds white space or a quotation mark.
pub proof fn law_arguments_are_quoted_where_they_must_be(argument: Seq<char>)
    ensures
        is_plain(argument) <==> argument.len() > 0 && forall|i: int|
            0 <= i < argument.len() ==> #[trigger] argument[i] != '"' && !is_white_space(argument[i]),
        is_plain(argument) ==> quoted(argument) == argument,
        !is_plain(argument) ==> quoted(argument).len() >= 2 && quoted(argument)[0] == '"' && quoted(
            argument,
        ).last() == '"',
        is_white_space(' ') && is_white_space('\t') && is_white_space('\n'),
        !is_white_space('a') && !is_white_space('"') && !is_white_space('\\'),
{
}

/// A command line is refused exactly where it is longer than the system takes, with the zero that
/// ends it.
pub proof fn law_command_lines_are_bounded(line: Seq<char>)
    ensures
        command_line_refusal(line) is None <==> utf16(line).len() + 1 <= 32_767,
{
}

/// A variable can stand in an environment exactly where it has a name, neither name nor value holds a
/// null character, and its name holds no sign of equality but at its beginning.
pub proof fn law_variables_are_judged(name: Seq<char>, value: Seq<char>)
    ensures
        variable_refusal(name, value) is None <==> name.len() > 0 && !name.contains('\0')
            && !value.contains('\0') && forall|i: int| 0 < i < name.len() ==> #[trigger] name[i]
            != '=',
{
    let rest = crate::process::name_rest(name);
    if name.len() > 0 {
        if name[0] == '=' {
            if rest.contains('=') {
                let i = choose|i: int| 0 <= i < rest.len() && rest[i] == '=';
                assert(name[i + 1] == '=');
            }
            assert forall|i: int| 0 < i < name.len() && !rest.contains('=') implies #[trigger] name[i]
                != '=' by {
                assert(rest[i - 1] == name[i]);
            }
        } else {
            if rest.contains('=') {
                let i = choose|i: int| 0 <= i < rest.len() && rest[i] == '=';
                assert(name[i] == '=');
            }
            assert forall|i: int| 0 < i < name.len() && !rest.contains('=') implies #[trigger] name[i]
                != '=' by {
                assert(rest[i] == name[i]);
            }
        }
    }
}

/// An environment is refused exactly where one of its variables is.
pub proof fn law_environments_are_judged(variables: Seq<(Seq<char>, Seq<char>)>, n: int)
    requires
        0 <= n <= variables.len(),
    ensures
        environment_refusal(variables, n) is None <==> forall|i: int|
            0 <= i < n ==> variable_refusal((#[trigger] variables[i]).0, variables[i].1) is None,
    decreases n,
{
    if n > 0 {
        law_environments_are_judged(variables, n - 1);
    }
}

/// A process is prepared exactly where nothing that is handed to the system holds a null character,
/// its command line is not too long, and its environment is accepted.
pub proof fn law_processes_are_judged(spec: ProcessSpec)
    ensures
        ({
            let line = command_line(spec.executable@, texts(spec.arguments@));
            let variables = variable_texts(spec.environment@);
            spec.refusal() is None <==> !spec.executable@.contains('\0') && !line.contains('\0')
                && !spec.working_directory@.contains('\0') && utf16(line).len() + 1 <= 32_767
                && environment_refusal(variables, variables.len() as int) is None
        }),
{
}

/// What the status of a wait means.
pub proof fn law_waits_are_understood(status: u32)
    ensures
        wait_meaning(status) == WaitStep::Ended <==> status == 0,
        wait_meaning(status) == WaitStep::Running <==> status == 258,
        wait_meaning(status) == WaitStep::Failed <==> status == u32::MAX,
        wait_meaning(status) matches WaitStep::Unexpected(found) ==> found == status,
{
}

/// An executable that is not there is refused by its name: as a file where it is a path, and as one
/// that the search path does not lead to where it is a name.
pub proof fn law_missing_executables_are_named(
    value: Seq<char>,
    working_directory: Seq<char>,
    environment: Map<Seq<char>, Seq<char>>,
    files: Seq<bool>,
)
    requires
        looked_at(value, working_directory, environment) matches Ok(paths) && first_existing(
            files,
            paths.len() as int,
        ) >= paths.len(),
    ensures
        ({
            let result = resolved(value, working_directory, environment, files);
            &&& has_several_components(value) ==> result == Err::<Seq<char>, Seq<char>>(
                "executable is not an existing absolute file: "@ + value,
            )
            &&& !has_several_components(value) ==> result == Err::<Seq<char>, Seq<char>>(
                "executable was not found on PATH: "@ + value,
            )
        }),
{
}

} // verus!
