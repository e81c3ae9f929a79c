//! What is settled before a process is launched: its directory, its executable and its
//! environment.

use vstd::prelude::*;
use vstd::string::*;

use crate::config::model::texts;
use crate::messages::{
    Checkpoint, CheckpointView, ConfigurationView, EnvironmentValue, ExecutionConfiguration,
    variables,
};
use crate::ordered::{
    TextMap, ascending, entries_map, lemma_drop_last_map, lemma_entry_in_map, lemma_listing_seen,
    listing, seen,
};
use crate::paths::{
    extension, has_several_components, is_absolute, is_absolute_path, join_paths, joined,
    path_extension, path_has_several_components, search_entries, split_search_path,
};
use crate::process::{text_values, variable_texts, with_variables};
use crate::text::{chars_of, join, push_char, upper_form, uppercase};

verus! {

/// Where a character first stands, or the end.
pub open spec fn char_position(text: Seq<char>, c: char) -> int
    decreases text.len(),
{
    if text.len() == 0 || text[0] == c {
        0
    } else {
        1 + char_position(text.drop_first(), c)
    }
}

pub proof fn lemma_char_position(text: Seq<char>, c: char, at: int)
    requires
        0 <= at <= text.len(),
        forall|i: int| 0 <= i < at ==> text[i] != c,
        at < text.len() ==> text[at] == c,
    ensures
        char_position(text, c) == at,
    decreases text.len(),
{
    if at > 0 {
        assert(text[0] != c);
        lemma_char_position(text.drop_first(), c, at - 1);
    }
}

pub proof fn lemma_char_position_bound(text: Seq<char>, c: char)
    ensures
        0 <= char_position(text, c) <= text.len(),
    decreases text.len(),
{
    if text.len() > 0 && text[0] != c {
        lemma_char_position_bound(text.drop_first(), c);
    }
}

/// Something before what follows, if that can be had.
pub open spec fn before(text: Seq<char>, rest: Result<Seq<char>, Seq<char>>) -> Result<
    Seq<char>,
    Seq<char>,
> {
    match rest {
        Ok(rest) => Ok(text + rest),
        Err(reason) => Err(reason),
    }
}

/// A text with its references filled in: `$$` stands for a dollar sign and `${NAME}` for the
/// value of a variable, whose name is looked up in upper case.
pub open spec fn expanded(
    text: Seq<char>,
    environment: Map<Seq<char>, Seq<char>>,
) -> Result<Seq<char>, Seq<char>>
    decreases text.len(),
{
    let dollar = char_position(text, '$');
    let head = text.take(dollar);
    let rest = text.skip(dollar + 1);
    proof {
        lemma_char_position_bound(text, '$');
    }
    if dollar >= text.len() {
        Ok(text)
    } else if rest.len() > 0 && rest[0] == '$' {
        before(head.push('$'), expanded(rest.skip(1), environment))
    } else if rest.len() > 0 && rest[0] == '{' {
        let inside = rest.skip(1);
        let end = char_position(inside, '}');
        let name = inside.take(end);
        proof {
            lemma_char_position_bound(inside, '}');
        }
        if end >= inside.len() {
            Err("unterminated environment reference"@)
        } else if !environment.contains_key(upper_form(name)) {
            Err("environment variable is missing: "@ + name)
        } else {
            before(
                head + environment[upper_form(name)],
                expanded(inside.skip(end + 1), environment),
            )
        }
    } else {
        Err("a single '$' is not a valid interpolation"@)
    }
}

/// Why a run cannot go on.
#[derive(Debug, PartialEq, Eq)]
pub enum RunError {
    SpecTooLarge,
    Preflight(String),
}

impl RunError {
    pub open spec fn text(self) -> Seq<char> {
        match self {
            RunError::SpecTooLarge => "execution snapshot exceeds 4 MiB"@,
            RunError::Preflight(reason) => "preflight failed: "@ + reason@,
        }
    }

    pub fn message(&self) -> (message: String)
        ensures
            message@ == self.text(),
    {
        match self {
            RunError::SpecTooLarge => "execution snapshot exceeds 4 MiB".to_owned(),
            RunError::Preflight(reason) => join("preflight failed: ", reason.as_str()),
        }
    }
}

/// Whether an error reports this reason.
pub open spec fn reports(error: RunError, reason: Seq<char>) -> bool {
    error matches RunError::Preflight(text) && text@ == reason
}

/// The largest execution snapshot.
pub const MAX_SPEC_BYTES: u64 = 4 * 1024 * 1024;

/// Refuses a snapshot that is too large.
pub fn check_spec_size(bytes: u64) -> (result: Result<(), RunError>)
    ensures
        match result {
            Ok(_) => bytes <= MAX_SPEC_BYTES,
            Err(error) => bytes > MAX_SPEC_BYTES && error == RunError::SpecTooLarge,
        },
{
    if bytes > MAX_SPEC_BYTES {
        Err(RunError::SpecTooLarge)
    } else {
        Ok(())
    }
}

fn find_char(chars: &Vec<char>, from: usize, c: char) -> (at: usize)
    requires
        from <= chars.len(),
    ensures
        from <= at <= chars.len(),
        at - from == char_position(chars@.skip(from as int), c),
{
    let mut at: usize = from;
    while at < chars.len() && chars[at] != c
        invariant
            from <= at <= chars.len(),
            forall|i: int| from <= i < at ==> chars@[i] != c,
        decreases chars.len() - at,
    {
        at += 1;
    }
    proof {
        lemma_char_position(chars@.skip(from as int), c, at - from);
    }
    at
}

fn push_range(text: &mut String, chars: &Vec<char>, start: usize, end: usize)
    requires
        start <= end <= chars.len(),
    ensures
        final(text)@ == old(text)@ + chars@.subrange(start as int, end as int),
{
    let mut i: usize = start;
    assert(old(text)@ + chars@.subrange(start as int, start as int) =~= old(text)@);
    while i < end
        invariant
            start <= i <= end <= chars.len(),
            text@ == old(text)@ + chars@.subrange(start as int, i as int),
        decreases end - i,
    {
        push_char(text, chars[i]);
        i += 1;
        assert(text@ =~= old(text)@ + chars@.subrange(start as int, i as int));
    }
}

/// Fills in the references of a text.
pub fn expand(value: &str, environment: &TextMap<String>) -> (result: Result<String, RunError>)
    ensures
        match result {
            Ok(text) => expanded(value@, text_values(environment.map())) == Ok::<
                Seq<char>,
                Seq<char>,
            >(text@),
            Err(error) => expanded(value@, text_values(environment.map())) matches Err(reason)
                && reports(error, reason),
        },
{
    let chars: Vec<char> = chars_of(value);
    let ghost values = text_values(environment.map());
    let mut output: String = String::new();
    let mut cursor: usize = 0;
    proof {
        assert(value@.skip(0) =~= value@);
        if let Ok(whole) = expanded(value@, values) {
            assert(output@ + whole =~= whole);
        }
    }
    loop
        invariant
            cursor <= chars.len(),
            chars@ == value@,
            values == text_values(environment.map()),
            expanded(value@, values) == before(
                output@,
                expanded(value@.skip(cursor as int), values),
            ),
        decreases chars.len() - cursor,
    {
        let ghost text = value@.skip(cursor as int);
        let ghost written = output@;
        let dollar: usize = find_char(&chars, cursor, '$');
        push_range(&mut output, &chars, cursor, dollar);
        let ghost head = text.take(dollar - cursor);
        assert(chars@.subrange(cursor as int, dollar as int) =~= head);
        if dollar == chars.len() {
            assert(head =~= text);
            return Ok(output);
        }
        let ghost rest = text.skip(dollar - cursor + 1);
        let next: usize = dollar + 1;
        assert(rest =~= value@.skip(next as int));
        if next < chars.len() && chars[next] == '$' {
            push_char(&mut output, '$');
            cursor = next + 1;
            proof {
                assert(rest.skip(1) =~= value@.skip(cursor as int));
                if let Ok(tail) = expanded(rest.skip(1), values) {
                    assert(written + (head.push('$') + tail) =~= output@ + tail);
                }
            }
        } else if next < chars.len() && chars[next] == '{' {
            let start: usize = next + 1;
            let ghost inside = rest.skip(1);
            assert(inside =~= value@.skip(start as int));
            let end: usize = find_char(&chars, start, '}');
            if end == chars.len() {
                return Err(RunError::Preflight("unterminated environment reference".to_owned()));
            }
            let mut name: String = String::new();
            push_range(&mut name, &chars, start, end);
            assert(name@ =~= inside.take(end - start));
            match environment.get(uppercase(name.as_str()).as_str()) {
                Some(replacement) => {
                    output.append(replacement.as_str());
                    cursor = end + 1;
                    proof {
                        assert(values[upper_form(name@)] == replacement@);
                        assert(inside.skip(end - start + 1) =~= value@.skip(cursor as int));
                        if let Ok(tail) = expanded(value@.skip(cursor as int), values) {
                            assert(written + (head + replacement@ + tail) =~= output@ + tail);
                        }
                    }
                },
                None => {
                    assert(!values.contains_key(upper_form(name@)));
                    return Err(
                        RunError::Preflight(
                            join("environment variable is missing: ", name.as_str()),
                        ),
                    );
                },
            }
        } else {
            return Err(
                RunError::Preflight("a single '$' is not a valid interpolation".to_owned()),
            );
        }
    }
}

/// A text with every dollar sign doubled.
pub open spec fn dollars_doubled(text: Seq<char>) -> Seq<char>
    decreases text.len(),
{
    if text.len() == 0 {
        Seq::empty()
    } else if text[0] == '$' {
        seq!['$', '$'] + dollars_doubled(text.drop_first())
    } else {
        seq![text[0]] + dollars_doubled(text.drop_first())
    }
}

/// Any text can be written so that it is filled in as itself: with its dollar signs doubled.
pub proof fn law_doubled_dollars_stand_for_themselves(
    text: Seq<char>,
    environment: Map<Seq<char>, Seq<char>>,
)
    ensures
        expanded(dollars_doubled(text), environment) == Ok::<Seq<char>, Seq<char>>(text),
    decreases text.len(),
{
    let written = dollars_doubled(text);
    if text.len() == 0 {
        assert(text =~= written);
    } else {
        let rest = text.drop_first();
        let tail = dollars_doubled(rest);
        law_doubled_dollars_stand_for_themselves(rest, environment);
        if text[0] == '$' {
            lemma_char_position(written, '$', 0);
            assert(written.skip(1)[0] == '$');
            assert(written.skip(1).skip(1) =~= tail);
            assert(written.take(0).push('$') + rest =~= text);
        } else {
            lemma_head(tail, environment, text[0]);
            assert(seq![text[0]] + rest =~= text);
        }
    }
}

/// A character that is no dollar sign stands for itself before a text.
proof fn lemma_head(tail: Seq<char>, environment: Map<Seq<char>, Seq<char>>, c: char)
    requires
        c != '$',
    ensures
        expanded(seq![c] + tail, environment) == before(seq![c], expanded(tail, environment)),
{
    let written = seq![c] + tail;
    let at = char_position(tail, '$');
    lemma_char_position_bound(tail, '$');
    assert(written.drop_first() =~= tail);
    assert(char_position(written, '$') == at + 1);
    assert(written.take(at + 1) =~= seq![c] + tail.take(at));
    let head = tail.take(at);
    let rest = tail.skip(at + 1);
    if at < tail.len() {
        assert(written.skip(at + 2) =~= rest);
        if rest.len() > 0 && rest[0] == '$' {
            if let Ok(more) = expanded(rest.skip(1), environment) {
                assert((seq![c] + head).push('$') + more =~= seq![c] + (head.push('$') + more));
            }
        } else if rest.len() > 0 && rest[0] == '{' {
            let inside = rest.skip(1);
            let end = char_position(inside, '}');
            let value = environment[upper_form(inside.take(end))];
            if let Ok(more) = expanded(inside.skip(end + 1), environment) {
                assert(seq![c] + head + value + more =~= seq![c] + (head + value + more));
            }
        }
    } else {
        assert(before(seq![c], expanded(tail, environment)) == Ok::<Seq<char>, Seq<char>>(
            written,
        ));
    }
}

/// What a directory offers for an executable without a directory: the name as it is, and with
/// `.exe` where it has no extension.
pub open spec fn offers(value: Seq<char>, directory: Seq<char>) -> Seq<Seq<char>> {
    if extension(value) is None {
        seq![joined(directory, value), joined(directory, value + ".exe"@)]
    } else {
        seq![joined(directory, value)]
    }
}

/// A directory of the search path, from the working directory on where it is not complete.
pub open spec fn search_directory(working_directory: Seq<char>, entry: Seq<char>) -> Seq<char> {
    if is_absolute(entry) {
        entry
    } else {
        joined(working_directory, entry)
    }
}

/// Where an executable is looked for, in order.
pub open spec fn candidates(
    value: Seq<char>,
    working_directory: Seq<char>,
    entries: Seq<Seq<char>>,
) -> Seq<Seq<char>>
    decreases entries.len(),
{
    if entries.len() == 0 {
        Seq::empty()
    } else {
        candidates(value, working_directory, entries.drop_last()) + offers(
            value,
            search_directory(working_directory, entries.last()),
        )
    }
}

/// The files that are looked at to find an executable, or why none is.
pub open spec fn looked_at(
    value: Seq<char>,
    working_directory: Seq<char>,
    environment: Map<Seq<char>, Seq<char>>,
) -> Result<Seq<Seq<char>>, Seq<char>> {
    if has_several_components(value) {
        if is_absolute(value) {
            Ok(seq![value])
        } else {
            Err("executable is not an existing absolute file: "@ + value)
        }
    } else if !environment.contains_key("PATH"@) {
        Err("PATH is missing"@)
    } else {
        Ok(
            candidates(
                value,
                working_directory,
                search_entries(environment["PATH"@], false, Seq::empty()),
            ),
        )
    }
}

/// The place of the first file that exists, or the end.
pub open spec fn first_existing(files: Seq<bool>, count: int) -> int
    decreases count,
{
    if count <= 0 {
        0
    } else {
        let earlier = first_existing(files, count - 1);
        if earlier < count - 1 || count - 1 < files.len() && files[count - 1] {
            earlier
        } else {
            count
        }
    }
}

/// The executable that is found: the first of those looked at that is a file.
pub open spec fn resolved(
    value: Seq<char>,
    working_directory: Seq<char>,
    environment: Map<Seq<char>, Seq<char>>,
    files: Seq<bool>,
) -> Result<Seq<char>, Seq<char>> {
    match looked_at(value, working_directory, environment) {
        Err(reason) => Err(reason),
        Ok(paths) => {
            let at = first_existing(files, paths.len() as int);
            if at < paths.len() {
                Ok(paths[at])
            } else if has_several_components(value) {
                Err("executable is not an existing absolute file: "@ + value)
            } else {
                Err("executable was not found on PATH: "@ + value)
            }
        },
    }
}

/// Lists the files that are looked at to find an executable.
pub fn executable_candidates(
    value: &str,
    working_directory: &str,
    environment: &TextMap<String>,
) -> (result: Result<Vec<String>, RunError>)
    ensures
        match result {
            Ok(paths) => looked_at(value@, working_directory@, text_values(environment.map()))
                == Ok::<Seq<Seq<char>>, Seq<char>>(texts(paths@)),
            Err(error) => looked_at(value@, working_directory@, text_values(environment.map()))
                matches Err(reason) && reports(error, reason),
        },
{
    let mut paths: Vec<String> = Vec::new();
    if path_has_several_components(value) {
        if is_absolute_path(value) {
            paths.push(value.to_owned());
            assert(texts(paths@) =~= seq![value@]);
            return Ok(paths);
        }
        return Err(
            RunError::Preflight(join("executable is not an existing absolute file: ", value)),
        );
    }
    let search: &String = match environment.get("PATH") {
        Some(search) => search,
        None => {
            assert(!text_values(environment.map()).contains_key("PATH"@));
            return Err(RunError::Preflight("PATH is missing".to_owned()));
        },
    };
    assert(text_values(environment.map())["PATH"@] == search@);
    let entries: Vec<String> = split_search_path(search.as_str());
    let ghost listed = texts(entries@);
    let bare: bool = path_extension(value).is_none();
    let mut i: usize = 0;
    assert(texts(paths@) =~= Seq::empty());
    assert(candidates(value@, working_directory@, listed.take(0)) =~= Seq::empty());
    while i < entries.len()
        invariant
            i <= entries.len(),
            listed == texts(entries@),
            bare == (extension(value@) is None),
            texts(paths@) == candidates(value@, working_directory@, listed.take(i as int)),
        decreases entries.len() - i,
    {
        let entry: &str = entries[i].as_str();
        let directory: String = if is_absolute_path(entry) {
            entry.to_owned()
        } else {
            join_paths(working_directory, entry)
        };
        let ghost before_push = paths@;
        paths.push(join_paths(directory.as_str(), value));
        assert(texts(paths@) =~= texts(before_push).push(joined(directory@, value@)));
        if bare {
            let ghost middle = paths@;
            let executable: String = join(value, ".exe");
            paths.push(join_paths(directory.as_str(), executable.as_str()));
            assert(texts(paths@) =~= texts(middle).push(joined(directory@, value@ + ".exe"@)));
        }
        i += 1;
        proof {
            let shown = listed.take(i as int);
            assert(shown.drop_last() =~= listed.take(i - 1));
            assert(shown.last() == entry@);
            assert(texts(paths@) =~= texts(before_push) + offers(value@, directory@));
        }
    }
    assert(listed.take(i as int) =~= listed);
    Ok(paths)
}

/// The place of the first file that exists among `count` files, or the end.
fn find_existing(files: &Vec<bool>, count: usize) -> (at: usize)
    ensures
        at == first_existing(files@, count as int),
        at <= count,
{
    let mut at: usize = 0;
    let mut n: usize = 0;
    while n < count
        invariant
            n <= count,
            at <= n,
            at == first_existing(files@, n as int),
        decreases count - n,
    {
        let exists: bool = n < files.len() && files[n];
        if at == n && !exists {
            at = n + 1;
        }
        n += 1;
    }
    at
}

/// Finds an executable, given which of the files that are looked at exist.
pub fn resolve_executable(
    value: &str,
    working_directory: &str,
    environment: &TextMap<String>,
    files: &Vec<bool>,
) -> (result: Result<String, RunError>)
    ensures
        match result {
            Ok(path) => resolved(
                value@,
                working_directory@,
                text_values(environment.map()),
                files@,
            ) == Ok::<Seq<char>, Seq<char>>(path@),
            Err(error) => resolved(
                value@,
                working_directory@,
                text_values(environment.map()),
                files@,
            ) matches Err(reason) && reports(error, reason),
        },
{
    let paths: Vec<String> = match executable_candidates(value, working_directory, environment) {
        Ok(paths) => paths,
        Err(error) => {
            return Err(error);
        },
    };
    let at: usize = find_existing(files, paths.len());
    if at < paths.len() {
        assert(texts(paths@)[at as int] == paths@[at as int]@);
        return Ok(paths[at].clone());
    }
    if path_has_several_components(value) {
        Err(RunError::Preflight(join("executable is not an existing absolute file: ", value)))
    } else {
        Err(RunError::Preflight(join("executable was not found on PATH: ", value)))
    }
}

/// What a process is launched with.
#[derive(Debug)]
pub struct Preflight {
    pub executable: String,
    pub working_directory: String,
    pub environment: TextMap<String>,
}

#[verifier::ext_equal]
pub struct PreflightView {
    pub executable: Seq<char>,
    pub working_directory: Seq<char>,
    pub environment: Map<Seq<char>, Seq<char>>,
}

impl Preflight {
    pub open spec fn view(&self) -> PreflightView {
        PreflightView {
            executable: self.executable@,
            working_directory: self.working_directory@,
            environment: text_values(self.environment.map()),
        }
    }
}

/// A copy of a map of texts.
pub fn copy_text_map(map: &TextMap<String>) -> (copy: TextMap<String>)
    ensures
        text_values(copy.map()) == text_values(map.map()),
{
    let mut copy: TextMap<String> = TextMap::new();
    let count: usize = map.len();
    let mut i: usize = 0;
    let ghost listed = variable_texts(map@);
    assert(text_values(copy.map()) =~= with_variables(Map::empty(), listed.take(0)));
    while i < count
        invariant
            i <= count,
            count == map@.len(),
            listed == variable_texts(map@),
            text_values(copy.map()) == with_variables(Map::empty(), listed.take(i as int)),
        decreases count - i,
    {
        let ghost before_insert = copy.map();
        let key: String = map.key(i).to_owned();
        let value: String = map.value(i).clone();
        let _ = copy.insert(key, value);
        i += 1;
        proof {
            let shown = listed.take(i as int);
            assert(shown.drop_last() =~= listed.take(i - 1));
            lemma_last_variable(Map::empty(), shown);
            assert(shown.last() == (key@, value@));
            assert(text_values(copy.map()) =~= text_values(before_insert).insert(key@, value@));
        }
    }
    proof {
        assert(listed.take(i as int) =~= listed);
        lemma_text_entries(map@);
        lemma_listed_variables(variable_texts(map@));
    }
    copy
}

pub proof fn lemma_last_variable(
    environment: Map<Seq<char>, Seq<char>>,
    listed: Seq<(Seq<char>, Seq<char>)>,
)
    requires
        listed.len() > 0,
    ensures
        with_variables(environment, listed) == with_variables(
            environment,
            listed.drop_last(),
        ).insert(listed.last().0, listed.last().1),
    decreases listed.len(),
{
    if listed.len() == 1 {
        assert(with_variables(environment, listed.drop_last()) == environment);
        assert(with_variables(
            environment.insert(listed[0].0, listed[0].1),
            listed.drop_first(),
        ) == environment.insert(listed[0].0, listed[0].1));
    } else {
        let next = environment.insert(listed[0].0, listed[0].1);
        lemma_last_variable(next, listed.drop_first());
        assert(listed.drop_first().drop_last() =~= listed.drop_last().drop_first());
        assert(listed.drop_first().last() == listed.last());
        assert(listed.drop_last()[0] == listed[0]);
    }
}

/// The entries of a map, one after the other, make up the map.
pub proof fn lemma_listed_variables(listed: Seq<(Seq<char>, Seq<char>)>)
    requires
        ascending(listed),
    ensures
        with_variables(Map::empty(), listed) == entries_map(listed),
    decreases listed.len(),
{
    let made = with_variables(Map::empty(), listed);
    if listed.len() == 0 {
        assert(made =~= entries_map(listed));
    } else {
        lemma_drop_last_map(listed);
        lemma_listed_variables(listed.drop_last());
        lemma_last_variable(Map::empty(), listed);
        lemma_entry_in_map(listed, listed.len() - 1);
        assert(made =~= entries_map(listed));
    }
}

/// The entries of a map of texts by what they hold.
proof fn lemma_text_entries(entries: Seq<(Seq<char>, String)>)
    requires
        ascending(entries),
    ensures
        ascending(variable_texts(entries)),
        entries_map(variable_texts(entries)) == text_values(entries_map(entries)),
        listing(text_values(entries_map(entries))) == variable_texts(entries),
{
    let sight = |text: String| text@;
    lemma_listing_seen(entries, sight);
    assert(entries_map(entries).map_values(sight) =~= text_values(entries_map(entries)));
    assert(seen(entries, sight) =~= variable_texts(entries));
}

impl Clone for Preflight {
    fn clone(&self) -> (copy: Preflight)
        ensures
            copy@ == self@,
    {
        Preflight {
            executable: self.executable.clone(),
            working_directory: self.working_directory.clone(),
            environment: copy_text_map(&self.environment),
        }
    }
}

/// The environment after the first `n` variables were set, each filled in from the base.
pub open spec fn with_set(
    set: Seq<(Seq<char>, Seq<char>)>,
    base: Map<Seq<char>, Seq<char>>,
    n: int,
) -> Result<Map<Seq<char>, Seq<char>>, Seq<char>>
    decreases n,
{
    if n <= 0 {
        Ok(base)
    } else {
        match with_set(set, base, n - 1) {
            Err(reason) => Err(reason),
            Ok(environment) => match expanded(set[n - 1].1, base) {
                Err(reason) => Err(reason),
                Ok(value) => Ok(environment.insert(upper_form(set[n - 1].0), value)),
            },
        }
    }
}

/// The environment after the first `n` variables were taken away.
pub open spec fn without_unset(
    unset: Seq<Seq<char>>,
    environment: Map<Seq<char>, Seq<char>>,
    n: int,
) -> Map<Seq<char>, Seq<char>>
    decreases n,
{
    if n <= 0 {
        environment
    } else {
        without_unset(unset, environment, n - 1).remove(upper_form(unset[n - 1]))
    }
}

/// The environment of a process.
pub open spec fn process_environment(
    configuration: ConfigurationView,
    base: Map<Seq<char>, Seq<char>>,
) -> Result<Map<Seq<char>, Seq<char>>, Seq<char>> {
    let set = configuration.environment_set;
    let unset = configuration.environment_unset;
    match with_set(set, base, set.len() as int) {
        Err(reason) => Err(reason),
        Ok(environment) => Ok(without_unset(unset, environment, unset.len() as int)),
    }
}

proof fn lemma_set_fails(
    set: Seq<(Seq<char>, Seq<char>)>,
    base: Map<Seq<char>, Seq<char>>,
    n: int,
    m: int,
)
    requires
        n <= m,
        with_set(set, base, n) is Err,
    ensures
        with_set(set, base, m) == with_set(set, base, n),
    decreases m,
{
    if n < m {
        lemma_set_fails(set, base, n, m - 1);
    }
}

/// Makes the environment of a process from the base.
pub fn overlay_environment(configuration: &ExecutionConfiguration, base: &TextMap<String>) -> (result:
    Result<TextMap<String>, RunError>)
    ensures
        match result {
            Ok(environment) => process_environment(configuration@, text_values(base.map()))
                == Ok::<Map<Seq<char>, Seq<char>>, Seq<char>>(text_values(environment.map())),
            Err(error) => process_environment(configuration@, text_values(base.map())) matches Err(
                reason,
            ) && reports(error, reason),
        },
{
    let ghost values = text_values(base.map());
    let ghost set = configuration@.environment_set;
    let ghost unset = configuration@.environment_unset;
    let mut environment: TextMap<String> = copy_text_map(base);
    let mut i: usize = 0;
    while i < configuration.environment_set.len()
        invariant
            i <= configuration.environment_set.len(),
            values == text_values(base.map()),
            set == variables(configuration.environment_set@),
            with_set(set, values, i as int) == Ok::<Map<Seq<char>, Seq<char>>, Seq<char>>(
                text_values(environment.map()),
            ),
            set == configuration@.environment_set,
        decreases configuration.environment_set.len() - i,
    {
        let variable: &EnvironmentValue = &configuration.environment_set[i];
        assert(set[i as int] == variable@);
        let ghost before_insert = environment.map();
        match expand(variable.value.as_str(), base) {
            Ok(value) => {
                let name: String = uppercase(variable.name.as_str());
                let _ = environment.insert(name, value);
                assert(text_values(environment.map()) =~= text_values(before_insert).insert(
                    name@,
                    value@,
                ));
            },
            Err(error) => {
                proof {
                    assert(with_set(set, values, i + 1) is Err);
                    lemma_set_fails(set, values, i + 1, set.len() as int);
                }
                return Err(error);
            },
        }
        i += 1;
    }
    let ghost all_set = text_values(environment.map());
    let mut j: usize = 0;
    while j < configuration.environment_unset.len()
        invariant
            j <= configuration.environment_unset.len(),
            unset == texts(configuration.environment_unset@),
            text_values(environment.map()) == without_unset(unset, all_set, j as int),
        decreases configuration.environment_unset.len() - j,
    {
        let name: &str = configuration.environment_unset[j].as_str();
        assert(unset[j as int] == name@);
        let ghost before_remove = environment.map();
        let _ = environment.remove(uppercase(name).as_str());
        assert(text_values(environment.map()) =~= text_values(before_remove).remove(
            upper_form(name@),
        ));
        j += 1;
    }
    Ok(environment)
}

/// What a process is launched with, given whether its directory exists and which of the files
/// that are looked at for its executable do; or the first thing that is wrong.
pub open spec fn settled(
    configuration: ConfigurationView,
    base: Map<Seq<char>, Seq<char>>,
    directory_exists: bool,
    files: Seq<bool>,
) -> Result<PreflightView, Seq<char>> {
    match expanded(configuration.working_directory, base) {
        Err(reason) => Err(reason),
        Ok(directory) => if !is_absolute(directory) || !directory_exists {
            Err("working directory is not an existing absolute directory: "@ + directory)
        } else {
            match expanded(configuration.executable, base) {
                Err(reason) => Err(reason),
                Ok(value) => match resolved(value, directory, base, files) {
                    Err(reason) => Err(reason),
                    Ok(executable) => match process_environment(configuration, base) {
                        Err(reason) => Err(reason),
                        Ok(environment) => Ok(
                            PreflightView {
                                executable,
                                working_directory: directory,
                                environment,
                            },
                        ),
                    },
                },
            }
        },
    }
}

/// Settles what a process is launched with.
pub fn preflight_configuration(
    configuration: &ExecutionConfiguration,
    base: &TextMap<String>,
    directory_exists: bool,
    files: &Vec<bool>,
) -> (result: Result<Preflight, RunError>)
    ensures
        match result {
            Ok(preflight) => settled(
                configuration@,
                text_values(base.map()),
                directory_exists,
                files@,
            ) == Ok::<PreflightView, Seq<char>>(preflight@),
            Err(error) => settled(
                configuration@,
                text_values(base.map()),
                directory_exists,
                files@,
            ) matches Err(reason) && reports(error, reason),
        },
{
    let working_directory: String = match expand(configuration.working_directory.as_str(), base) {
        Ok(directory) => directory,
        Err(error) => {
            return Err(error);
        },
    };
    if !is_absolute_path(working_directory.as_str()) || !directory_exists {
        return Err(
            RunError::Preflight(
                join(
                    "working directory is not an existing absolute directory: ",
                    working_directory.as_str(),
                ),
            ),
        );
    }
    let value: String = match expand(configuration.executable.as_str(), base) {
        Ok(value) => value,
        Err(error) => {
            return Err(error);
        },
    };
    let executable: String = match resolve_executable(
        value.as_str(),
        working_directory.as_str(),
        base,
        files,
    ) {
        Ok(executable) => executable,
        Err(error) => {
            return Err(error);
        },
    };
    match overlay_environment(configuration, base) {
        Ok(environment) => Ok(Preflight { executable, working_directory, environment }),
        Err(error) => Err(error),
    }
}

/// Lists the variables of an environment.
pub fn list_variables(environment: &TextMap<String>) -> (listed: Vec<EnvironmentValue>)
    ensures
        variables(listed@) == listing(text_values(environment.map())),
{
    let mut listed: Vec<EnvironmentValue> = Vec::new();
    let count: usize = environment.len();
    let mut i: usize = 0;
    assert(variables(listed@) =~= variable_texts(environment@).take(0));
    while i < count
        invariant
            i <= count,
            count == environment@.len(),
            variables(listed@) == variable_texts(environment@).take(i as int),
        decreases count - i,
    {
        let ghost before_push = listed@;
        let value = EnvironmentValue {
            name: environment.key(i).to_owned(),
            value: environment.value(i).clone(),
        };
        listed.push(value);
        i += 1;
        assert(variables(listed@) =~= variables(before_push).push(value@));
        assert(variables(listed@) =~= variable_texts(environment@).take(i as int));
    }
    proof {
        assert(variable_texts(environment@).take(i as int) =~= variable_texts(environment@));
        lemma_text_entries(environment@);
    }
    listed
}

/// What a checkpoint tells of how the process was launched.
pub open spec fn recovered(checkpoint: CheckpointView) -> Option<PreflightView> {
    if is_absolute(checkpoint.resolved_executable) && is_absolute(
        checkpoint.resolved_working_directory,
    ) {
        Some(
            PreflightView {
                executable: checkpoint.resolved_executable,
                working_directory: checkpoint.resolved_working_directory,
                environment: with_variables(Map::empty(), checkpoint.resolved_environment),
            },
        )
    } else {
        None
    }
}

/// The view of what may be there.
pub open spec fn preflight_view(preflight: Option<Preflight>) -> Option<PreflightView> {
    match preflight {
        Some(preflight) => Some(preflight@),
        None => None,
    }
}

/// Takes from a checkpoint how the process was launched.
pub fn recovered_preflight(checkpoint: &Checkpoint) -> (preflight: Option<Preflight>)
    ensures
        preflight_view(preflight) == recovered(checkpoint@),
{
    if !is_absolute_path(checkpoint.resolved_executable.as_str()) || !is_absolute_path(
        checkpoint.resolved_working_directory.as_str(),
    ) {
        return None;
    }
    let mut environment: TextMap<String> = TextMap::new();
    let ghost listed = variables(checkpoint.resolved_environment@);
    let mut i: usize = 0;
    assert(text_values(environment.map()) =~= with_variables(Map::empty(), listed.take(0)));
    while i < checkpoint.resolved_environment.len()
        invariant
            i <= checkpoint.resolved_environment.len(),
            listed == variables(checkpoint.resolved_environment@),
            text_values(environment.map()) == with_variables(Map::empty(), listed.take(i as int)),
        decreases checkpoint.resolved_environment.len() - i,
    {
        let value: &EnvironmentValue = &checkpoint.resolved_environment[i];
        let ghost before_insert = environment.map();
        let _ = environment.insert(value.name.clone(), value.value.clone());
        i += 1;
        proof {
            let shown = listed.take(i as int);
            assert(shown.drop_last() =~= listed.take(i - 1));
            assert(shown.last() == value@);
            lemma_last_variable(Map::empty(), shown);
            assert(text_values(environment.map()) =~= text_values(before_insert).insert(
                value.name@,
                value.value@,
            ));
        }
    }
    assert(listed.take(i as int) =~= listed);
    Some(
        Preflight {
            executable: checkpoint.resolved_executable.clone(),
            working_directory: checkpoint.resolved_working_directory.clone(),
            environment,
        },
    )
}

} // verus!
