//! What Windows is handed to start a process: its command line, its environment and its paths.

use vstd::prelude::*;
use vstd::string::*;

use crate::config::model::texts;
use crate::ordered::TextMap;
use crate::text::{
    chars_of, decimal, holds_char, push_char, push_decimal, text_of_range, upper_form, uppercase,
};
use crate::utf16::{
    from_utf16, law_utf16_round_trip, lemma_no_zero_units, lemma_utf16_concat, push_utf16,
    text_of_units, utf16,
};

verus! {

/// The most code units that a command line takes, with the zero that ends it.
pub const MAX_COMMAND_LINE_CODE_UNITS: usize = 32_767;

/// Why a process cannot be started or waited for.
#[derive(Debug, PartialEq, Eq)]
pub enum ProcessError {
    Invalid(String),
    Wait(u32),
}

/// A [`ProcessError`] as mathematical text.
pub enum ProcessRefusal {
    Invalid(Seq<char>),
    Wait(u32),
}

impl ProcessRefusal {
    pub open spec fn text(self) -> Seq<char> {
        match self {
            ProcessRefusal::Invalid(reason) => "invalid process specification: "@ + reason,
            ProcessRefusal::Wait(status) => "process wait returned unexpected status "@ + decimal(
                status as nat,
            ),
        }
    }
}

impl ProcessError {
    pub open spec fn view(&self) -> ProcessRefusal {
        match *self {
            ProcessError::Invalid(reason) => ProcessRefusal::Invalid(reason@),
            ProcessError::Wait(status) => ProcessRefusal::Wait(status),
        }
    }

    pub fn message(&self) -> (message: String)
        ensures
            message@ == self@.text(),
    {
        match self {
            ProcessError::Invalid(reason) => {
                let mut message: String = "invalid process specification: ".to_owned();
                message.append(reason.as_str());
                message
            },
            ProcessError::Wait(status) => {
                let mut message: String = "process wait returned unexpected status ".to_owned();
                push_decimal(&mut message, *status as u64);
                message
            },
        }
    }
}

/// A character with the Unicode property `White_Space`.
pub open spec fn is_white_space(c: char) -> bool {
    let scalar = c as u32;
    ||| 0x9 <= scalar <= 0xd
    ||| scalar == 0x20
    ||| scalar == 0x85
    ||| scalar == 0xa0
    ||| scalar == 0x1680
    ||| 0x2000 <= scalar <= 0x200a
    ||| scalar == 0x2028
    ||| scalar == 0x2029
    ||| scalar == 0x202f
    ||| scalar == 0x205f
    ||| scalar == 0x3000
}

/// Whether a character is white space.
pub fn is_whitespace(c: char) -> (white: bool)
    ensures
        white == is_white_space(c),
{
    let scalar: u32 = c as u32;
    (0x9 <= scalar && scalar <= 0xd) || scalar == 0x20 || scalar == 0x85 || scalar == 0xa0 || scalar
        == 0x1680 || (0x2000 <= scalar && scalar <= 0x200a) || scalar == 0x2028 || scalar == 0x2029
        || scalar == 0x202f || scalar == 0x205f || scalar == 0x3000
}

/// A row of backslashes.
pub open spec fn backslashes(n: nat) -> Seq<char> {
    Seq::new(n, |i: int| '\\')
}

/// Whether an argument stands on a command line as it is.
pub open spec fn is_plain(argument: Seq<char>) -> bool {
    &&& argument.len() > 0
    &&& forall|i: int|
        0 <= i < argument.len() ==> !is_white_space(#[trigger] argument[i]) && argument[i] != '"'
}

/// The inside of a quoted argument, after `pending` backslashes: backslashes are doubled where a
/// quotation mark follows them, and a quotation mark of the argument has one more before it.
pub open spec fn escaped(argument: Seq<char>, pending: nat) -> Seq<char>
    decreases argument.len(),
{
    if argument.len() == 0 {
        backslashes(2 * pending)
    } else {
        let rest = argument.drop_first();
        if argument[0] == '\\' {
            escaped(rest, pending + 1)
        } else if argument[0] == '"' {
            backslashes(2 * pending + 1) + (seq!['"'] + escaped(rest, 0))
        } else {
            backslashes(pending) + (seq![argument[0]] + escaped(rest, 0))
        }
    }
}

/// An argument as it stands on a command line.
pub open spec fn quoted(argument: Seq<char>) -> Seq<char> {
    if is_plain(argument) {
        argument
    } else {
        seq!['"'] + (escaped(argument, 0) + seq!['"'])
    }
}

fn push_backslashes(text: &mut String, n: usize)
    ensures
        final(text)@ == old(text)@ + backslashes(n as nat),
{
    let mut i: usize = 0;
    while i < n
        invariant
            i <= n,
            text@ == old(text)@ + backslashes(i as nat),
        decreases n - i,
    {
        push_char(text, '\\');
        i += 1;
        assert(text@ =~= old(text)@ + backslashes(i as nat));
    }
}

/// Writes an argument as it stands on a command line.
pub fn quote_windows_argument(argument: &str) -> (text: String)
    ensures
        text@ == quoted(argument@),
{
    let chars: Vec<char> = chars_of(argument);
    let mut plain: bool = chars.len() > 0;
    let mut i: usize = 0;
    while i < chars.len() && plain
        invariant
            i <= chars.len(),
            chars@ == argument@,
            plain ==> chars.len() > 0,
            plain ==> forall|j: int|
                0 <= j < i ==> !is_white_space(#[trigger] chars@[j]) && chars@[j] != '"',
            !plain ==> !is_plain(argument@),
        decreases chars.len() - i,
    {
        if is_whitespace(chars[i]) || chars[i] == '"' {
            assert(is_white_space(argument@[i as int]) || argument@[i as int] == '"');
            plain = false;
        }
        i += 1;
    }
    if plain {
        return argument.to_owned();
    }
    let mut text: String = String::new();
    push_char(&mut text, '"');
    let mut slashes: usize = 0;
    let mut k: usize = 0;
    assert(argument@.skip(0) =~= argument@);
    assert(text@ =~= seq!['"']);
    while k < chars.len()
        invariant
            k <= chars.len(),
            chars@ == argument@,
            slashes <= k,
            text@ + escaped(argument@.skip(k as int), slashes as nat) == seq!['"'] + escaped(
                argument@,
                0,
            ),
        decreases chars.len() - k,
    {
        let ghost before = text@;
        let ghost rest = argument@.skip(k as int);
        let c: char = chars[k];
        proof {
            assert(rest[0] == c);
            assert(rest.drop_first() =~= argument@.skip(k + 1));
        }
        let ghost tail = escaped(argument@.skip(k + 1), 0);
        if c == '\\' {
            slashes += 1;
        } else {
            push_backslashes(&mut text, slashes);
            if c == '"' {
                push_backslashes(&mut text, slashes);
                push_char(&mut text, '\\');
                assert(text@.push(c) + tail =~= before + (backslashes(
                    (2 * slashes + 1) as nat,
                ) + (seq!['"'] + tail)));
            } else {
                assert(text@.push(c) + tail =~= before + (backslashes(slashes as nat) + (seq![c]
                    + tail)));
            }
            push_char(&mut text, c);
            slashes = 0;
        }
        k += 1;
    }
    assert(argument@.skip(k as int).len() == 0);
    let ghost before = text@;
    push_backslashes(&mut text, slashes);
    push_backslashes(&mut text, slashes);
    push_char(&mut text, '"');
    assert(text@ =~= before + backslashes((2 * slashes) as nat) + seq!['"']);
    assert(text@ =~= seq!['"'] + escaped(argument@, 0) + seq!['"']);
    assert(text@ =~= quoted(argument@));
    text
}

/// The arguments on a command line, each after a space.
pub open spec fn argument_tail(arguments: Seq<Seq<char>>) -> Seq<char>
    decreases arguments.len(),
{
    if arguments.len() == 0 {
        Seq::empty()
    } else {
        argument_tail(arguments.drop_last()) + (seq![' '] + quoted(arguments.last()))
    }
}

/// A command line.
pub open spec fn command_line(executable: Seq<char>, arguments: Seq<Seq<char>>) -> Seq<char> {
    quoted(executable) + argument_tail(arguments)
}

/// Why a command line is refused.
pub open spec fn command_line_refusal(line: Seq<char>) -> Option<Seq<char>> {
    let length = utf16(line).len() + 1;
    if length > MAX_COMMAND_LINE_CODE_UNITS {
        Some(
            "encoded command line uses "@ + decimal(length)
                + " UTF-16 code units, maximum is 32767"@,
        )
    } else {
        None
    }
}

/// Writes a command line, where it is not too long.
pub fn encode_command_line(executable: &str, arguments: &Vec<String>) -> (result: Result<
    String,
    ProcessError,
>)
    ensures
        ({
            let line = command_line(executable@, texts(arguments@));
            match result {
                Ok(text) => command_line_refusal(line) is None && text@ == line,
                Err(error) => command_line_refusal(line) matches Some(reason) && error@
                    == ProcessRefusal::Invalid(reason),
            }
        }),
{
    let mut line: String = quote_windows_argument(executable);
    let ghost listed = texts(arguments@);
    let mut i: usize = 0;
    assert(line@ + argument_tail(listed.take(0)) =~= line@);
    while i < arguments.len()
        invariant
            i <= arguments.len(),
            listed == texts(arguments@),
            line@ == quoted(executable@) + argument_tail(listed.take(i as int)),
        decreases arguments.len() - i,
    {
        let ghost before = line@;
        push_char(&mut line, ' ');
        let argument: String = quote_windows_argument(arguments[i].as_str());
        line.append(argument.as_str());
        i += 1;
        proof {
            let shown = listed.take(i as int);
            assert(shown.drop_last() =~= listed.take(i - 1));
            assert(shown.last() == arguments@[i - 1]@);
            assert(line@ =~= before + (seq![' '] + quoted(shown.last())));
            assert(line@ =~= quoted(executable@) + argument_tail(shown));
        }
    }
    assert(listed.take(i as int) =~= listed);
    let mut units: Vec<u16> = Vec::new();
    push_utf16(&mut units, line.as_str());
    assert(units@ =~= utf16(line@));
    if units.len() >= MAX_COMMAND_LINE_CODE_UNITS {
        let mut reason: String = "encoded command line uses ".to_owned();
        push_length(&mut reason, units.len());
        reason.append(" UTF-16 code units, maximum is 32767");
        return Err(ProcessError::Invalid(reason));
    }
    Ok(line)
}

/// Appends one more than a count.
fn push_length(text: &mut String, count: usize)
    ensures
        final(text)@ == old(text)@ + decimal(count as nat + 1),
{
    if count as u64 == u64::MAX {
        text.append("18446744073709551616");
        proof {
            reveal_strlit("18446744073709551616");
            reveal_with_fuel(decimal, 21);
            assert(decimal(18446744073709551616) =~= "18446744073709551616"@);
        }
    } else {
        push_decimal(text, count as u64 + 1);
    }
}

/// How Windows programs read the rest of an argument on their command line: `open` tells
/// whether a quotation mark is open, `pending` how many backslashes came last, and `read` what
/// was read before them. The answer is the argument and what follows the blank after it.
pub open spec fn read_argument(rest: Seq<char>, open: bool, pending: nat, read: Seq<char>) -> (
    Seq<char>,
    Seq<char>,
)
    decreases rest.len(),
{
    if rest.len() == 0 {
        (read + backslashes(pending), Seq::empty())
    } else {
        let after = rest.drop_first();
        if rest[0] == '\\' {
            read_argument(after, open, pending + 1, read)
        } else if rest[0] == '"' {
            if pending % 2 == 0 {
                read_argument(after, !open, 0, read + backslashes(pending / 2))
            } else {
                read_argument(after, open, 0, (read + backslashes(pending / 2)).push('"'))
            }
        } else if !open && (rest[0] == ' ' || rest[0] == '\t') {
            (read + backslashes(pending), after)
        } else {
            read_argument(after, open, 0, (read + backslashes(pending)).push(rest[0]))
        }
    }
}

proof fn lemma_backslashes_are_counted(
    n: nat,
    rest: Seq<char>,
    open: bool,
    pending: nat,
    read: Seq<char>,
)
    ensures
        read_argument(backslashes(n) + rest, open, pending, read) == read_argument(
            rest,
            open,
            pending + n,
            read,
        ),
    decreases n,
{
    let all = backslashes(n) + rest;
    if n == 0 {
        assert(all =~= rest);
    } else {
        assert(all[0] == '\\');
        assert(all.drop_first() =~= backslashes((n - 1) as nat) + rest);
        lemma_backslashes_are_counted((n - 1) as nat, rest, open, pending + 1, read);
    }
}

proof fn lemma_escaped_is_read(argument: Seq<char>, pending: nat, rest: Seq<char>, read: Seq<char>)
    ensures
        read_argument(escaped(argument, pending) + (seq!['"'] + rest), true, 0, read)
            == read_argument(rest, false, 0, read + backslashes(pending) + argument),
    decreases argument.len(),
{
    let tail = seq!['"'] + rest;
    let all = escaped(argument, pending) + tail;
    if argument.len() == 0 {
        lemma_backslashes_are_counted(2 * pending, tail, true, 0, read);
        assert(tail.drop_first() =~= rest);
        assert((2 * pending) / 2 == pending);
        assert(read + backslashes(pending) + argument =~= read + backslashes(pending));
    } else {
        let c = argument[0];
        let after = argument.drop_first();
        let whole = read + backslashes(pending) + argument;
        if c == '\\' {
            lemma_escaped_is_read(after, pending + 1, rest, read);
            assert(read + backslashes(pending + 1) + after =~= whole);
        } else {
            let inside = escaped(after, 0) + tail;
            let shown = seq![c] + inside;
            assert(shown.drop_first() =~= inside);
            if c == '"' {
                assert(all =~= backslashes(2 * pending + 1) + shown);
                lemma_backslashes_are_counted(2 * pending + 1, shown, true, 0, read);
                assert((2 * pending + 1) / 2 == pending);
            } else {
                assert(all =~= backslashes(pending) + shown);
                lemma_backslashes_are_counted(pending, shown, true, 0, read);
            }
            let next = (read + backslashes(pending)).push(c);
            lemma_escaped_is_read(after, 0, rest, next);
            assert(next + backslashes(0) + after =~= whole);
        }
    }
}

/// Nothing, or something that a space begins.
pub open spec fn is_separate(rest: Seq<char>) -> bool {
    rest.len() == 0 || rest[0] == ' '
}

/// What follows the blank at the start.
pub open spec fn after_blank(rest: Seq<char>) -> Seq<char> {
    if rest.len() == 0 {
        rest
    } else {
        rest.drop_first()
    }
}

proof fn lemma_plain_is_read(argument: Seq<char>, pending: nat, rest: Seq<char>, read: Seq<char>)
    requires
        forall|i: int|
            0 <= i < argument.len() ==> !is_white_space(#[trigger] argument[i]) && argument[i]
                != '"',
        is_separate(rest),
    ensures
        read_argument(argument + rest, false, pending, read) == (
            read + backslashes(pending) + argument,
            after_blank(rest),
        ),
    decreases argument.len(),
{
    let all = argument + rest;
    let whole = read + backslashes(pending) + argument;
    if argument.len() == 0 {
        assert(all =~= rest);
        assert(whole =~= read + backslashes(pending));
        if rest.len() == 0 {
            assert(rest =~= Seq::empty());
        }
    } else {
        let c = argument[0];
        let after = argument.drop_first();
        assert(all.drop_first() =~= after + rest);
        assert(!is_white_space(argument[0]));
        if c == '\\' {
            lemma_plain_is_read(after, pending + 1, rest, read);
            assert(read + backslashes(pending + 1) + after =~= whole);
        } else {
            let next = (read + backslashes(pending)).push(c);
            lemma_plain_is_read(after, 0, rest, next);
            assert(next + backslashes(0) + after =~= whole);
        }
    }
}

/// An argument that was quoted is read back as it was, and the reading goes on after the blank
/// that follows it.
pub proof fn law_quoted_arguments_are_read_back(argument: Seq<char>, rest: Seq<char>)
    requires
        is_separate(rest),
    ensures
        read_argument(quoted(argument) + rest, false, 0, Seq::empty()) == (
            argument,
            after_blank(rest),
        ),
{
    let none = Seq::<char>::empty();
    if is_plain(argument) {
        lemma_plain_is_read(argument, 0, rest, none);
        assert(none + backslashes(0) + argument =~= argument);
    } else {
        let inside = escaped(argument, 0) + (seq!['"'] + rest);
        assert(quoted(argument) + rest =~= seq!['"'] + inside);
        assert((seq!['"'] + inside).drop_first() =~= inside);
        assert(none + backslashes(0) =~= none);
        lemma_escaped_is_read(argument, 0, rest, none);
        assert(none + backslashes(0) + argument =~= argument);
        let read = argument;
        assert(read + backslashes(0) =~= read);
        if rest.len() == 0 {
            assert(rest =~= Seq::empty());
        }
    }
}

/// The arguments of a command line, as Windows programs read them.
pub open spec fn read_arguments(rest: Seq<char>, count: nat) -> Seq<Seq<char>>
    decreases count,
{
    if count == 0 {
        Seq::empty()
    } else {
        let (argument, after) = read_argument(rest, false, 0, Seq::empty());
        seq![argument] + read_arguments(after, (count - 1) as nat)
    }
}

proof fn lemma_tail_from_the_front(arguments: Seq<Seq<char>>)
    requires
        arguments.len() > 0,
    ensures
        argument_tail(arguments) == seq![' '] + quoted(arguments[0]) + argument_tail(
            arguments.drop_first(),
        ),
    decreases arguments.len(),
{
    let first = seq![' '] + quoted(arguments[0]);
    if arguments.len() == 1 {
        assert(argument_tail(arguments.drop_last()) =~= Seq::empty());
        assert(argument_tail(arguments.drop_first()) =~= Seq::empty());
        assert(argument_tail(arguments) =~= first);
        assert(first + argument_tail(arguments.drop_first()) =~= first);
    } else {
        lemma_tail_from_the_front(arguments.drop_last());
        assert(arguments.drop_last().drop_first() =~= arguments.drop_first().drop_last());
        let inner = argument_tail(arguments.drop_first().drop_last());
        let last = seq![' '] + quoted(arguments.last());
        assert(first + inner + last =~= first + (inner + last));
    }
}

/// Every argument of a command line reaches the program as it was given, whatever it holds.
pub proof fn law_command_lines_are_read_back(arguments: Seq<Seq<char>>)
    ensures
        read_arguments(after_blank(argument_tail(arguments)), arguments.len()) == arguments,
    decreases arguments.len(),
{
    if arguments.len() == 0 {
        assert(arguments =~= Seq::empty());
    } else {
        let rest = arguments.drop_first();
        let tail = argument_tail(rest);
        law_command_lines_are_read_back(rest);
        lemma_tail_from_the_front(arguments);
        if rest.len() > 0 {
            lemma_tail_from_the_front(rest);
        }
        assert(after_blank(argument_tail(arguments)) =~= quoted(arguments[0]) + tail);
        law_quoted_arguments_are_read_back(arguments[0], tail);
        assert(seq![arguments[0]] + rest =~= arguments);
    }
}

/// The variables of a map, in the order of their names.
pub open spec fn variable_texts(entries: Seq<(Seq<char>, String)>) -> Seq<(Seq<char>, Seq<char>)> {
    entries.map_values(|entry: (Seq<char>, String)| (entry.0, entry.1@))
}

/// A name without the sign of equality that may begin it.
pub open spec fn name_rest(name: Seq<char>) -> Seq<char> {
    if name.len() > 0 && name[0] == '=' {
        name.skip(1)
    } else {
        name
    }
}

/// Why a variable cannot stand in an environment block.
pub open spec fn variable_refusal(name: Seq<char>, value: Seq<char>) -> Option<Seq<char>> {
    if name.len() == 0 || name.contains('\0') || value.contains('\0') {
        Some("environment names and values must not contain NUL"@)
    } else if name_rest(name).contains('=') {
        Some("environment name contains '=': "@ + name)
    } else {
        None
    }
}

/// The first refusal among the first `n` variables.
pub open spec fn environment_refusal(variables: Seq<(Seq<char>, Seq<char>)>, n: int) -> Option<
    Seq<char>,
>
    decreases n,
{
    if n <= 0 {
        None
    } else {
        match environment_refusal(variables, n - 1) {
            Some(refusal) => Some(refusal),
            None => variable_refusal(variables[n - 1].0, variables[n - 1].1),
        }
    }
}

/// One variable in an environment block.
pub open spec fn variable_units(variable: (Seq<char>, Seq<char>)) -> Seq<u16> {
    utf16(variable.0 + seq!['='] + variable.1).push(0)
}

/// The variables of an environment block, one after the other.
pub open spec fn variables_units(variables: Seq<(Seq<char>, Seq<char>)>) -> Seq<u16>
    decreases variables.len(),
{
    if variables.len() == 0 {
        Seq::empty()
    } else {
        variables_units(variables.drop_last()) + variable_units(variables.last())
    }
}

/// An environment block: the variables, and a zero after them; two where there are none.
pub open spec fn environment_block(variables: Seq<(Seq<char>, Seq<char>)>) -> Seq<u16> {
    if variables.len() == 0 {
        seq![0u16, 0u16]
    } else {
        variables_units(variables).push(0)
    }
}

proof fn lemma_refusal_stays(variables: Seq<(Seq<char>, Seq<char>)>, n: int, m: int)
    requires
        n <= m,
        environment_refusal(variables, n) is Some,
    ensures
        environment_refusal(variables, m) == environment_refusal(variables, n),
    decreases m,
{
    if n < m {
        lemma_refusal_stays(variables, n, m - 1);
    }
}

fn check_variable(name: &str, value: &str) -> (result: Result<(), ProcessError>)
    ensures
        match result {
            Ok(_) => variable_refusal(name@, value@) is None,
            Err(error) => variable_refusal(name@, value@) matches Some(reason) && error@
                == ProcessRefusal::Invalid(reason),
        },
{
    if name.is_empty() || holds_char(name, '\0') || holds_char(value, '\0') {
        return Err(
            ProcessError::Invalid("environment names and values must not contain NUL".to_owned()),
        );
    }
    let chars: Vec<char> = chars_of(name);
    let start: usize = if chars[0] == '=' {
        1
    } else {
        0
    };
    let mut i: usize = start;
    let ghost rest = name_rest(name@);
    assert(rest =~= name@.skip(start as int));
    while i < chars.len()
        invariant
            start <= i <= chars.len(),
            chars@ == name@,
            rest == name@.skip(start as int),
            rest == name_rest(name@),
            name@.len() > 0,
            !name@.contains('\0'),
            !value@.contains('\0'),
            forall|j: int| start <= j < i ==> chars@[j] != '=',
        decreases chars.len() - i,
    {
        if chars[i] == '=' {
            assert(rest[i - start] == '=');
            let mut reason: String = "environment name contains '=': ".to_owned();
            reason.append(name);
            return Err(ProcessError::Invalid(reason));
        }
        i += 1;
    }
    assert forall|j: int| 0 <= j < rest.len() implies rest[j] != '=' by {
        assert(rest[j] == chars@[j + start]);
    }
    Ok(())
}

/// Writes an environment block.
pub fn encode_environment(environment: &TextMap<String>) -> (result: Result<
    Vec<u16>,
    ProcessError,
>)
    ensures
        ({
            let variables = variable_texts(environment@);
            let refusal = environment_refusal(variables, variables.len() as int);
            match result {
                Ok(block) => refusal is None && block@ == environment_block(variables),
                Err(error) => refusal matches Some(reason) && error@ == ProcessRefusal::Invalid(
                    reason,
                ),
            }
        }),
{
    let ghost variables = variable_texts(environment@);
    let mut block: Vec<u16> = Vec::new();
    let count: usize = environment.len();
    let mut i: usize = 0;
    assert(variables_units(variables.take(0)) =~= Seq::empty());
    while i < count
        invariant
            i <= count,
            count == environment@.len(),
            variables == variable_texts(environment@),
            environment_refusal(variables, i as int) is None,
            block@ == variables_units(variables.take(i as int)),
        decreases count - i,
    {
        let name: &str = environment.key(i);
        let value: &str = environment.value(i).as_str();
        let ghost before = block@;
        assert(variables[i as int] == (name@, value@));
        if let Err(error) = check_variable(name, value) {
            proof {
                assert(environment_refusal(variables, i + 1) == variable_refusal(name@, value@));
                lemma_refusal_stays(variables, i + 1, count as int);
            }
            return Err(error);
        }
        push_utf16(&mut block, name);
        push_utf16(&mut block, "=");
        push_utf16(&mut block, value);
        block.push(0);
        i += 1;
        proof {
            reveal_strlit("=");
            assert("="@ =~= seq!['=']);
            lemma_utf16_concat(name@, seq!['=']);
            lemma_utf16_concat(name@ + seq!['='], value@);
            let shown = variables.take(i as int);
            assert(shown.drop_last() =~= variables.take(i - 1));
            assert(block@ =~= before + variable_units((name@, value@)));
        }
    }
    assert(variables.take(i as int) =~= variables);
    block.push(0);
    if count == 0 {
        block.push(0);
        assert(block@ =~= seq![0u16, 0u16]);
    }
    Ok(block)
}

/// Where the first zero stands, or the end.
pub open spec fn zero_position(units: Seq<u16>) -> int
    decreases units.len(),
{
    if units.len() == 0 || units[0] == 0 {
        0
    } else {
        1 + zero_position(units.drop_first())
    }
}

pub proof fn lemma_zero_position(units: Seq<u16>, at: int)
    requires
        0 <= at <= units.len(),
        forall|i: int| 0 <= i < at ==> units[i] != 0,
        at < units.len() ==> units[at] == 0,
    ensures
        zero_position(units) == at,
    decreases units.len(),
{
    if at > 0 {
        assert(units[0] != 0);
        lemma_zero_position(units.drop_first(), at - 1);
    }
}

pub proof fn lemma_zero_position_bound(units: Seq<u16>)
    ensures
        0 <= zero_position(units) <= units.len(),
    decreases units.len(),
{
    if units.len() > 0 && units[0] != 0 {
        lemma_zero_position_bound(units.drop_first());
    }
}

/// Where the sign of equality after the name of an entry stands: the first one that does not
/// begin the entry. The entry is as long as this where there is none.
pub open spec fn delimiter(entry: Seq<char>, from: int) -> int
    decreases entry.len() - from,
{
    if from >= entry.len() {
        entry.len() as int
    } else if entry[from] == '=' {
        from
    } else {
        delimiter(entry, from + 1)
    }
}

/// Where the name of an entry ends.
pub open spec fn name_end(entry: Seq<char>) -> int {
    if entry.len() > 0 && entry[0] == '=' {
        delimiter(entry, 1)
    } else {
        delimiter(entry, 0)
    }
}

pub proof fn lemma_delimiter(entry: Seq<char>, from: int, at: int)
    requires
        0 <= from <= at <= entry.len(),
        forall|i: int| from <= i < at ==> entry[i] != '=',
        at < entry.len() ==> entry[at] == '=',
    ensures
        delimiter(entry, from) == at,
    decreases at - from,
{
    if from < at {
        assert(entry[from] != '=');
        lemma_delimiter(entry, from + 1, at);
    }
}

/// The variables of an environment block, by their upper-case names, added to others; or why the
/// block cannot be read. The block ends at an empty entry.
pub open spec fn parsed_block(
    rest: Seq<u16>,
    environment: Map<Seq<char>, Seq<char>>,
) -> Result<Map<Seq<char>, Seq<char>>, ProcessRefusal>
    decreases rest.len(),
{
    let end = zero_position(rest);
    let after = if end < rest.len() {
        rest.skip(end + 1)
    } else {
        Seq::empty()
    };
    proof {
        lemma_zero_position_bound(rest);
    }
    if end <= 0 {
        Ok(environment)
    } else {
        match from_utf16(rest.take(end)) {
            None => Err(
                ProcessRefusal::Invalid("user environment contains invalid UTF-16"@),
            ),
            Some(entry) => {
                let at = name_end(entry);
                if at >= entry.len() {
                    Err(ProcessRefusal::Invalid("user environment entry has no '='"@))
                } else {
                    parsed_block(
                        after,
                        environment.insert(upper_form(entry.take(at)), entry.skip(at + 1)),
                    )
                }
            },
        }
    }
}

/// The values of a map as mathematical text.
pub open spec fn text_values(map: Map<Seq<char>, String>) -> Map<Seq<char>, Seq<char>> {
    map.map_values(|value: String| value@)
}

fn find_name_end(entry: &Vec<char>) -> (at: usize)
    ensures
        at <= entry.len(),
        at == name_end(entry@),
{
    let start: usize = if entry.len() > 0 && entry[0] == '=' {
        1
    } else {
        0
    };
    let mut at: usize = start;
    while at < entry.len() && entry[at] != '='
        invariant
            start <= at <= entry.len(),
            forall|i: int| start <= i < at ==> entry@[i] != '=',
        decreases entry.len() - at,
    {
        at += 1;
    }
    proof {
        lemma_delimiter(entry@, start as int, at as int);
    }
    at
}

/// Reads an environment block.
pub fn parse_environment_block(block: &[u16]) -> (result: Result<TextMap<String>, ProcessError>)
    ensures
        match result {
            Ok(environment) => parsed_block(block@, Map::empty()) == Ok::<
                Map<Seq<char>, Seq<char>>,
                ProcessRefusal,
            >(text_values(environment.map())),
            Err(error) => parsed_block(block@, Map::empty()) == Err::<
                Map<Seq<char>, Seq<char>>,
                ProcessRefusal,
            >(error@),
        },
{
    let mut environment: TextMap<String> = TextMap::new();
    let mut cursor: usize = 0;
    proof {
        assert(block@.skip(0) =~= block@);
        assert(text_values(environment.map()) =~= Map::empty());
    }
    loop
        invariant
            cursor <= block.len(),
            parsed_block(block@, Map::empty()) == parsed_block(
                block@.skip(cursor as int),
                text_values(environment.map()),
            ),
        decreases block.len() - cursor,
    {
        let ghost rest = block@.skip(cursor as int);
        let mut end: usize = cursor;
        while end < block.len() && block[end] != 0
            invariant
                cursor <= end <= block.len(),
                forall|i: int| cursor <= i < end ==> block@[i] != 0,
            decreases block.len() - end,
        {
            end += 1;
        }
        proof {
            lemma_zero_position(rest, end - cursor);
        }
        if end == cursor {
            return Ok(environment);
        }
        let units: Vec<u16> = copy_units(block, cursor, end);
        assert(units@ =~= rest.take(end - cursor));
        let entry: String = match text_of_units(units.as_slice()) {
            Some(entry) => entry,
            None => {
                return Err(
                    ProcessError::Invalid("user environment contains invalid UTF-16".to_owned()),
                );
            },
        };
        let chars: Vec<char> = chars_of(entry.as_str());
        let at: usize = find_name_end(&chars);
        if at == chars.len() {
            return Err(ProcessError::Invalid("user environment entry has no '='".to_owned()));
        }
        let name: String = text_of_range(&chars, 0, at);
        let value: String = text_of_range(&chars, at + 1, chars.len());
        let ghost before = environment.map();
        let upper: String = uppercase(name.as_str());
        proof {
            assert(name@ =~= entry@.take(at as int));
            assert(value@ =~= entry@.skip(at + 1));
        }
        let _ = environment.insert(upper, value);
        proof {
            assert(text_values(environment.map()) =~= text_values(before).insert(
                upper_form(name@),
                value@,
            ));
        }
        if end < block.len() {
            cursor = end + 1;
        } else {
            cursor = end;
        }
        proof {
            let start = block@.len() - rest.len();
            if end < block.len() {
                assert(rest.skip(end - start + 1) =~= block@.skip(cursor as int));
            } else {
                assert(block@.skip(cursor as int) =~= Seq::empty());
            }
        }
    }
}

/// A copy of some code units.
pub fn copy_units(units: &[u16], start: usize, end: usize) -> (out: Vec<u16>)
    requires
        start <= end <= units.len(),
    ensures
        out@ == units@.subrange(start as int, end as int),
{
    let mut out: Vec<u16> = Vec::new();
    let mut i: usize = start;
    while i < end
        invariant
            start <= i <= end <= units.len(),
            out@ == units@.subrange(start as int, i as int),
        decreases end - i,
    {
        out.push(units[i]);
        i += 1;
        assert(out@ =~= units@.subrange(start as int, i as int));
    }
    out
}

/// Some variables added to others, the later ones last.
pub open spec fn with_variables(
    environment: Map<Seq<char>, Seq<char>>,
    variables: Seq<(Seq<char>, Seq<char>)>,
) -> Map<Seq<char>, Seq<char>>
    decreases variables.len(),
{
    if variables.len() == 0 {
        environment
    } else {
        with_variables(
            environment.insert(variables[0].0, variables[0].1),
            variables.drop_first(),
        )
    }
}

proof fn lemma_units_from_the_front(variables: Seq<(Seq<char>, Seq<char>)>)
    requires
        variables.len() > 0,
    ensures
        variables_units(variables) == variable_units(variables[0]) + variables_units(
            variables.drop_first(),
        ),
    decreases variables.len(),
{
    let first = variable_units(variables[0]);
    if variables.len() == 1 {
        assert(variables_units(variables.drop_last()) =~= Seq::empty());
        assert(variables_units(variables.drop_first()) =~= Seq::empty());
        assert(variables_units(variables) =~= first);
        assert(first + variables_units(variables.drop_first()) =~= first);
    } else {
        lemma_units_from_the_front(variables.drop_last());
        assert(variables.drop_last().drop_first() =~= variables.drop_first().drop_last());
        let inner = variables_units(variables.drop_first().drop_last());
        let last = variable_units(variables.last());
        assert(first + inner + last =~= first + (inner + last));
    }
}

/// Whether a variable can stand in a block and is found under its own name in it.
pub open spec fn is_block_variable(variable: (Seq<char>, Seq<char>)) -> bool {
    variable_refusal(variable.0, variable.1) is None && upper_form(variable.0) == variable.0
}

proof fn lemma_variable_is_read(
    variable: (Seq<char>, Seq<char>),
    rest: Seq<u16>,
    environment: Map<Seq<char>, Seq<char>>,
)
    requires
        is_block_variable(variable),
    ensures
        parsed_block(variable_units(variable) + rest, environment) == parsed_block(
            rest,
            environment.insert(variable.0, variable.1),
        ),
{
    let (name, value) = variable;
    let entry = name + seq!['='] + value;
    let units = utf16(entry);
    let all = variable_units(variable) + rest;
    assert forall|i: int| 0 <= i < entry.len() implies entry[i] != '\0' by {
        if i < name.len() {
            assert(name.contains(name[i]));
            assert(entry[i] == name[i]);
        } else if i > name.len() {
            assert(value.contains(value[i - name.len() - 1]));
            assert(entry[i] == value[i - name.len() - 1]);
        }
    }
    lemma_no_zero_units(entry);
    law_utf16_round_trip(entry);
    assert forall|i: int| 0 <= i < units.len() implies all[i] != 0 by {
        assert(all[i] == units[i]);
    }
    lemma_zero_position(all, units.len() as int);
    assert(all.take(units.len() as int) =~= units);
    assert(all.skip(units.len() as int + 1) =~= rest);
    assert(units.len() > 0) by {
        lemma_utf16_concat(name, seq!['='] + value);
        lemma_utf16_concat(seq!['='], value);
        assert(name + (seq!['='] + value) =~= entry);
        assert(seq!['='].drop_last().len() == 0);
        assert(utf16(seq!['=']).len() > 0);
    }
    let start = if name[0] == '=' {
        1int
    } else {
        0int
    };
    assert(entry[0] == name[0]);
    assert forall|i: int| start <= i < name.len() implies entry[i] != '=' by {
        assert(name_rest(name)[i - start] == name[i]);
        assert(name_rest(name).contains(name_rest(name)[i - start]));
    }
    assert(entry[name.len() as int] == '=');
    lemma_delimiter(entry, start, name.len() as int);
    assert(entry.take(name.len() as int) =~= name);
    assert(entry.skip(name.len() as int + 1) =~= value);
}

proof fn lemma_block_is_read(
    variables: Seq<(Seq<char>, Seq<char>)>,
    environment: Map<Seq<char>, Seq<char>>,
)
    requires
        forall|i: int| 0 <= i < variables.len() ==> is_block_variable(#[trigger] variables[i]),
    ensures
        parsed_block(variables_units(variables).push(0), environment) == Ok::<
            Map<Seq<char>, Seq<char>>,
            ProcessRefusal,
        >(with_variables(environment, variables)),
    decreases variables.len(),
{
    if variables.len() == 0 {
        let end = variables_units(variables).push(0);
        assert(end[0] == 0);
        lemma_zero_position(end, 0);
    } else {
        let rest = variables.drop_first();
        let next = environment.insert(variables[0].0, variables[0].1);
        lemma_units_from_the_front(variables);
        assert forall|i: int| 0 <= i < rest.len() implies is_block_variable(
            #[trigger] rest[i],
        ) by {
            assert(rest[i] == variables[i + 1]);
        }
        lemma_block_is_read(rest, next);
        lemma_variable_is_read(variables[0], variables_units(rest).push(0), environment);
        assert(variables_units(variables).push(0) =~= variable_units(variables[0]) + variables_units(
            rest,
        ).push(0));
    }
}

/// An environment that was written into a block is read back from it, where its names are in
/// upper case.
pub proof fn law_environment_blocks_are_read_back(variables: Seq<(Seq<char>, Seq<char>)>)
    requires
        forall|i: int| 0 <= i < variables.len() ==> is_block_variable(#[trigger] variables[i]),
    ensures
        parsed_block(environment_block(variables), Map::empty()) == Ok::<
            Map<Seq<char>, Seq<char>>,
            ProcessRefusal,
        >(with_variables(Map::empty(), variables)),
{
    if variables.len() == 0 {
        lemma_zero_position(environment_block(variables), 0);
    } else {
        lemma_block_is_read(variables, Map::empty());
    }
}

/// A text for Windows: its code units and a zero.
pub open spec fn wide(text: Seq<char>) -> Seq<u16> {
    utf16(text).push(0)
}

/// Writes a text for Windows.
pub fn wide_null(value: &str) -> (result: Result<Vec<u16>, ProcessError>)
    ensures
        match result {
            Ok(units) => !value@.contains('\0') && units@ == wide(value@),
            Err(error) => value@.contains('\0') && error@ == ProcessRefusal::Invalid(
                "string contains NUL"@,
            ),
        },
{
    if holds_char(value, '\0') {
        return Err(ProcessError::Invalid("string contains NUL".to_owned()));
    }
    let mut units: Vec<u16> = Vec::new();
    push_utf16(&mut units, value);
    assert(units@ =~= utf16(value@));
    units.push(0);
    Ok(units)
}

/// Where the output of a process goes.
#[derive(Clone, Copy, Debug, PartialEq, Eq, Structural)]
pub enum OutputMode {
    Piped,
    Discard,
}

/// A process that is to be started.
#[derive(Debug)]
pub struct ProcessSpec {
    pub executable: String,
    pub arguments: Vec<String>,
    pub working_directory: String,
    pub environment: TextMap<String>,
    pub output: OutputMode,
}

/// What Windows is handed to start a process.
#[derive(Debug)]
pub struct PreparedProcess {
    pub application: Vec<u16>,
    pub command_line: Vec<u16>,
    pub current_directory: Vec<u16>,
    pub environment: Vec<u16>,
}

impl ProcessSpec {
    pub open spec fn line(&self) -> Seq<char> {
        command_line(self.executable@, texts(self.arguments@))
    }

    /// Why the process cannot be started: what is wrong first.
    pub open spec fn refusal(&self) -> Option<Seq<char>> {
        let variables = variable_texts(self.environment@);
        if self.executable@.contains('\0') {
            Some("string contains NUL"@)
        } else if command_line_refusal(self.line()) is Some {
            command_line_refusal(self.line())
        } else if self.line().contains('\0') || self.working_directory@.contains('\0') {
            Some("string contains NUL"@)
        } else {
            environment_refusal(variables, variables.len() as int)
        }
    }

    /// Prepares the process.
    pub fn prepare(&self) -> (result: Result<PreparedProcess, ProcessError>)
        ensures
            match result {
                Ok(prepared) => {
                    &&& self.refusal() is None
                    &&& prepared.application@ == wide(self.executable@)
                    &&& prepared.command_line@ == wide(self.line())
                    &&& prepared.current_directory@ == wide(self.working_directory@)
                    &&& prepared.environment@ == environment_block(
                        variable_texts(self.environment@),
                    )
                },
                Err(error) => self.refusal() matches Some(reason) && error@
                    == ProcessRefusal::Invalid(reason),
            },
    {
        let application: Vec<u16> = match wide_null(self.executable.as_str()) {
            Ok(units) => units,
            Err(error) => {
                return Err(error);
            },
        };
        let line: String = match encode_command_line(self.executable.as_str(), &self.arguments) {
            Ok(line) => line,
            Err(error) => {
                return Err(error);
            },
        };
        let command_line: Vec<u16> = match wide_null(line.as_str()) {
            Ok(units) => units,
            Err(error) => {
                return Err(error);
            },
        };
        let current_directory: Vec<u16> = match wide_null(self.working_directory.as_str()) {
            Ok(units) => units,
            Err(error) => {
                return Err(error);
            },
        };
        let environment: Vec<u16> = match encode_environment(&self.environment) {
            Ok(units) => units,
            Err(error) => {
                return Err(error);
            },
        };
        Ok(PreparedProcess { application, command_line, current_directory, environment })
    }
}

/// How long a process is left alone between two looks at it, in milliseconds.
pub const WAIT_INTERVAL_MS: u64 = 20;

/// What to make of the status of a wait for a process.
#[derive(Clone, Copy, Debug, PartialEq, Eq, Structural)]
pub enum WaitStep {
    /// The process has ended.
    Ended,
    /// The wait failed, and Windows knows why.
    Failed,
    /// The process still runs.
    Running,
    /// The status means nothing.
    Unexpected(u32),
}

/// What the status of a wait means: Windows says that the object is signaled, that the wait
/// failed or that it timed out.
pub open spec fn wait_meaning(status: u32) -> WaitStep {
    if status == 0 {
        WaitStep::Ended
    } else if status == 0xffff_ffff {
        WaitStep::Failed
    } else if status == 258 {
        WaitStep::Running
    } else {
        WaitStep::Unexpected(status)
    }
}

pub fn wait_step(status: u32) -> (step: WaitStep)
    ensures
        step == wait_meaning(status),
{
    if status == 0 {
        WaitStep::Ended
    } else if status == 0xffff_ffff {
        WaitStep::Failed
    } else if status == 258 {
        WaitStep::Running
    } else {
        WaitStep::Unexpected(status)
    }
}

} // verus!
