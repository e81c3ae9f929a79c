//! Windows paths as text: prefixes, components, file names, and how paths are joined.

use vstd::prelude::*;
use vstd::string::*;

use crate::config::model::texts;
use crate::text::{
    chars_of, eq_ignore_ascii_case, join, push_char, same_ignoring_ascii_case,
};

verus! {

/// A character between the components of a path.
pub open spec fn is_separator(c: char) -> bool {
    c == '/' || c == '\\'
}

/// A character between the components of a path that is taken as it stands, or of another one: a
/// slash separates only in the latter.
pub open spec fn separates(c: char, verbatim: bool) -> bool {
    c == '\\' || !verbatim && c == '/'
}

/// The place of the first separator at or after `from`, or the end.
pub open spec fn next_separator(path: Seq<char>, from: int, verbatim: bool) -> int
    decreases path.len() - from,
{
    if from >= path.len() {
        path.len() as int
    } else if separates(path[from], verbatim) {
        from
    } else {
        next_separator(path, from + 1, verbatim)
    }
}

/// A path that Windows takes as it stands: it begins with `\\?\`.
pub open spec fn is_verbatim(path: Seq<char>) -> bool {
    path.len() >= 4 && path[0] == '\\' && path[1] == '\\' && path[2] == '?' && path[3] == '\\'
}

/// A path into the namespace of devices: it begins with `\\.\`.
pub open spec fn is_device(path: Seq<char>) -> bool {
    path.len() >= 4 && is_separator(path[0]) && is_separator(path[1]) && path[2] == '.'
        && is_separator(path[3])
}

/// Whether the letter of a drive and its colon stand at a place.
pub open spec fn has_drive(path: Seq<char>, at: int) -> bool {
    path.len() >= at + 2 && ('a' <= path[at] <= 'z' || 'A' <= path[at] <= 'Z') && path[at + 1]
        == ':'
}

/// Whether the name of a server follows where a path is taken as it stands: after `UNC`.
pub open spec fn has_share_marker(path: Seq<char>) -> bool {
    path.len() >= 8 && path[4] == 'U' && path[5] == 'N' && path[6] == 'C' && is_separator(path[7])
}

/// The length of the prefix of a path. It is a drive letter with its colon, or two separators
/// followed by the names of a server and a share, or the name of a device. Of a path that is taken
/// as it stands it is the drive, or the names of a server and a share, of which the second may be
/// missing, or else the first name.
pub open spec fn prefix_len(path: Seq<char>) -> int {
    if is_verbatim(path) {
        if has_share_marker(path) {
            let server_end = next_separator(path, 8, true);
            let share_end = next_separator(path, server_end + 1, true);
            if share_end > server_end + 1 {
                share_end
            } else {
                server_end
            }
        } else if has_drive(path, 4) && (path.len() == 6 || is_separator(path[6])) {
            6
        } else {
            next_separator(path, 4, true)
        }
    } else if is_device(path) {
        next_separator(path, 4, false)
    } else if path.len() >= 2 && is_separator(path[0]) && is_separator(path[1]) {
        let server_end = next_separator(path, 2, false);
        let share_end = next_separator(path, server_end + 1, false);
        if server_end > 2 && share_end > server_end + 1 {
            share_end
        } else {
            0
        }
    } else if has_drive(path, 0) {
        2
    } else {
        0
    }
}

/// Whether a separator follows the prefix of a path, or begins it.
pub open spec fn has_root(path: Seq<char>) -> bool {
    let start = prefix_len(path);
    start < path.len() && is_separator(path[start])
}

/// Whether a path has a prefix.
pub open spec fn has_prefix(path: Seq<char>) -> bool {
    prefix_len(path) > 0
}

/// Whether a path is complete: a drive with a separator after it, or any other prefix.
pub open spec fn is_absolute(path: Seq<char>) -> bool {
    prefix_len(path) > 2 || prefix_len(path) == 2 && has_root(path)
}

/// Whether a path that is not complete begins with the component `.`.
pub open spec fn begins_here(path: Seq<char>) -> bool {
    let start = prefix_len(path);
    start <= 2 && start < path.len() && path[start] == '.' && (path.len() == start + 1
        || is_separator(path[start + 1]))
}

/// Where the further components of a path begin: after its prefix, and after the separator that
/// makes the root or the component `.` that begins it.
pub open spec fn body_start(path: Seq<char>) -> int {
    if has_root(path) || begins_here(path) {
        prefix_len(path) + 1
    } else {
        prefix_len(path)
    }
}

/// Where the piece that ends before `end` begins.
pub open spec fn piece_start(path: Seq<char>, floor: int, end: int, verbatim: bool) -> int
    decreases end - floor,
{
    if end <= floor || end > path.len() || separates(path[end - 1], verbatim) {
        end
    } else {
        piece_start(path, floor, end - 1, verbatim)
    }
}

/// Whether a piece between separators is a component: not an empty one, and `.` only in a path that
/// is taken as it stands.
pub open spec fn is_component(piece: Seq<char>, verbatim: bool) -> bool {
    piece.len() > 0 && (verbatim || piece != seq!['.'])
}

/// Whether a component names something.
pub open spec fn is_name(component: Seq<char>) -> bool {
    component != seq!['.'] && component != seq!['.', '.']
}

pub proof fn lemma_piece_start(path: Seq<char>, floor: int, end: int, verbatim: bool)
    requires
        floor <= end,
    ensures
        floor <= piece_start(path, floor, end, verbatim) <= end,
    decreases end - floor,
{
    if !(end <= floor || end > path.len() || separates(path[end - 1], verbatim)) {
        lemma_piece_start(path, floor, end - 1, verbatim);
    }
}

/// The components between two places, in their order.
pub open spec fn components(path: Seq<char>, floor: int, end: int, verbatim: bool) -> Seq<Seq<char>>
    decreases end - floor,
{
    if end <= floor || end > path.len() {
        Seq::empty()
    } else {
        let start = piece_start(path, floor, end, verbatim);
        let piece = path.subrange(start, end);
        proof {
            lemma_piece_start(path, floor, end, verbatim);
        }
        let before = if start > floor {
            components(path, floor, start - 1, verbatim)
        } else {
            Seq::empty()
        };
        if is_component(piece, verbatim) {
            before.push(piece)
        } else {
            before
        }
    }
}

/// The components of a path after its prefix and its root.
pub open spec fn body(path: Seq<char>) -> Seq<Seq<char>> {
    components(path, body_start(path), path.len() as int, is_verbatim(path))
}

/// The end of what comes before `end`, without the pieces that end it and are no components.
pub open spec fn kept_end(path: Seq<char>, floor: int, end: int, verbatim: bool) -> int
    decreases end - floor,
{
    if end <= floor || end > path.len() {
        end
    } else {
        let start = piece_start(path, floor, end, verbatim);
        proof {
            lemma_piece_start(path, floor, end, verbatim);
        }
        if is_component(path.subrange(start, end), verbatim) {
            end
        } else if start > floor {
            kept_end(path, floor, start - 1, verbatim)
        } else {
            floor
        }
    }
}

/// The file name of a path: its last component, where that names something.
pub open spec fn file_name(path: Seq<char>) -> Option<Seq<char>> {
    let floor = body_start(path);
    let end = kept_end(path, floor, path.len() as int, is_verbatim(path));
    let name = path.subrange(piece_start(path, floor, end, is_verbatim(path)), end);
    if end > floor && is_name(name) {
        Some(name)
    } else {
        None
    }
}

/// The place of the last dot, or -1.
pub open spec fn last_dot(name: Seq<char>) -> int
    decreases name.len(),
{
    if name.len() == 0 {
        -1
    } else if name.last() == '.' {
        name.len() - 1
    } else {
        last_dot(name.drop_last())
    }
}

/// What follows the last dot of the file name, unless the name only begins with one.
pub open spec fn extension(path: Seq<char>) -> Option<Seq<char>> {
    match file_name(path) {
        Some(name) => if last_dot(name) > 0 {
            Some(name.skip(last_dot(name) + 1))
        } else {
            None
        },
        None => None,
    }
}

/// The path without its last component, where it has one after its prefix and its root.
pub open spec fn parent(path: Seq<char>) -> Option<Seq<char>> {
    let verbatim = is_verbatim(path);
    let floor = body_start(path);
    let end = kept_end(path, floor, path.len() as int, verbatim);
    if end > floor {
        let start = piece_start(path, floor, end, verbatim);
        Some(
            path.take(
                if start > floor {
                    kept_end(path, floor, start - 1, verbatim)
                } else {
                    floor
                },
            ),
        )
    } else if begins_here(path) && !has_prefix(path) {
        Some(Seq::empty())
    } else {
        None
    }
}

/// Whether a path has more than one component. A prefix is one, and so is the root, which any
/// prefix but a drive has of itself unless the path is taken as it stands.
pub open spec fn has_several_components(path: Seq<char>) -> bool {
    let prefix: nat = if has_prefix(path) {
        1
    } else {
        0
    };
    let root: nat = if has_root(path) || prefix_len(path) > 2 && !is_verbatim(path) || begins_here(
        path,
    ) && !has_prefix(path) {
        1
    } else {
        0
    };
    prefix + root + body(path).len() > 1
}

proof fn lemma_last_component(path: Seq<char>, floor: int, end: int, verbatim: bool)
    requires
        0 <= floor <= end <= path.len(),
    ensures
        ({
            let last = kept_end(path, floor, end, verbatim);
            let found = components(path, floor, end, verbatim);
            &&& floor <= last <= end
            &&& last == floor ==> found.len() == 0
            &&& last > floor ==> found.len() > 0 && found.last() == path.subrange(
                piece_start(path, floor, last, verbatim),
                last,
            )
        }),
    decreases end - floor,
{
    if end > floor {
        lemma_piece_start(path, floor, end, verbatim);
        let start = piece_start(path, floor, end, verbatim);
        if !is_component(path.subrange(start, end), verbatim) && start > floor {
            lemma_last_component(path, floor, start - 1, verbatim);
        }
    }
}

proof fn lemma_next_separator(path: Seq<char>, from: int, verbatim: bool)
    requires
        0 <= from,
    ensures
        from <= path.len() ==> from <= next_separator(path, from, verbatim) <= path.len(),
        next_separator(path, from, verbatim) <= path.len(),
    decreases path.len() - from,
{
    if from < path.len() {
        lemma_next_separator(path, from + 1, verbatim);
    }
}

/// The file name of a path is the last of its components, where that names something; and only a
/// path that has such a component has a parent, except one that is just `.`.
pub proof fn law_file_names_are_last_components(path: Seq<char>)
    ensures
        file_name(path) == if body(path).len() > 0 && is_name(body(path).last()) {
            Some(body(path).last())
        } else {
            None
        },
        parent(path) is Some <==> body(path).len() > 0 || begins_here(path) && !has_prefix(path),
{
    lemma_next_separator(path, 2, false);
    lemma_next_separator(path, 4, false);
    lemma_next_separator(path, 4, true);
    lemma_next_separator(path, 8, true);
    lemma_next_separator(path, next_separator(path, 2, false) + 1, false);
    lemma_next_separator(path, next_separator(path, 8, true) + 1, true);
    lemma_last_component(path, body_start(path), path.len() as int, is_verbatim(path));
}

/// What is left of some components when others follow them, where `..` takes away the last name.
pub open spec fn followed(names: Seq<Seq<char>>, parts: Seq<Seq<char>>) -> Seq<Seq<char>>
    decreases parts.len(),
{
    if parts.len() == 0 {
        names
    } else {
        let before = followed(names, parts.drop_last());
        if parts.last() != seq!['.', '.'] {
            before.push(parts.last())
        } else if before.len() > 0 && is_name(before.last()) {
            before.drop_last()
        } else {
            before
        }
    }
}

/// Components as text, a backslash before each.
pub open spec fn written(names: Seq<Seq<char>>) -> Seq<char>
    decreases names.len(),
{
    if names.len() == 0 {
        Seq::empty()
    } else {
        written(names.drop_last()) + (seq!['\\'] + names.last())
    }
}

/// A path after one that is taken as it stands: component by component, since nothing cleans the
/// result afterwards.
pub open spec fn joined_verbatim(base: Seq<char>, part: Seq<char>) -> Seq<char> {
    let names = followed(
        if has_root(part) {
            Seq::empty()
        } else {
            body(base)
        },
        body(part),
    );
    base.take(prefix_len(base)) + if names.len() == 0 && (has_root(base) || has_root(part)) {
        seq!['\\']
    } else {
        written(names)
    }
}

/// One path after another: the second alone where it has a prefix, the prefix of the first with the
/// second where that begins at the root, and otherwise both with a separator between them.
pub open spec fn joined(base: Seq<char>, part: Seq<char>) -> Seq<char> {
    if has_prefix(part) {
        part
    } else if is_verbatim(base) && part.len() > 0 {
        joined_verbatim(base, part)
    } else if has_root(part) {
        base.take(prefix_len(base)) + part
    } else if base.len() == 0 || is_separator(base.last()) || base.len() == 2 && prefix_len(base)
        == 2 {
        base + part
    } else {
        base + (seq!['\\'] + part)
    }
}

fn separator(c: char, verbatim: bool) -> (is: bool)
    ensures
        is == separates(c, verbatim),
        !verbatim ==> is == is_separator(c),
{
    c == '\\' || !verbatim && c == '/'
}

fn find_separator(path: &[char], from: usize, verbatim: bool) -> (index: usize)
    requires
        from <= path.len(),
    ensures
        from <= index <= path.len(),
        index == next_separator(path@, from as int, verbatim),
{
    let mut i: usize = from;
    while i < path.len()
        invariant
            from <= i <= path.len(),
            next_separator(path@, from as int, verbatim) == next_separator(
                path@,
                i as int,
                verbatim,
            ),
        decreases path.len() - i,
    {
        if separator(path[i], verbatim) {
            return i;
        }
        i += 1;
    }
    i
}

fn starts_verbatim(path: &[char]) -> (is: bool)
    ensures
        is == is_verbatim(path@),
{
    path.len() >= 4 && path[0] == '\\' && path[1] == '\\' && path[2] == '?' && path[3] == '\\'
}

fn starts_device(path: &[char]) -> (is: bool)
    ensures
        is == is_device(path@),
{
    path.len() >= 4 && separator(path[0], false) && separator(path[1], false) && path[2] == '.'
        && separator(path[3], false)
}

fn find_drive(path: &[char], at: usize) -> (found: bool)
    requires
        at <= 4,
    ensures
        found == has_drive(path@, at as int),
{
    if path.len() < at + 2 {
        return false;
    }
    let letter: char = path[at];
    ('a' <= letter && letter <= 'z' || 'A' <= letter && letter <= 'Z') && path[at + 1] == ':'
}

/// The end of the names of a server and a share that begin at `from`, and the end of the first.
fn find_share(path: &[char], from: usize, verbatim: bool) -> (ends: (usize, usize))
    requires
        from <= path.len(),
    ensures
        from <= ends.0 <= path.len(),
        ends.0 == next_separator(path@, from as int, verbatim),
        ends.1 <= path.len(),
        ends.1 == next_separator(path@, ends.0 + 1, verbatim),
{
    let server_end: usize = find_separator(path, from, verbatim);
    let share_end: usize = if server_end < path.len() {
        find_separator(path, server_end + 1, verbatim)
    } else {
        path.len()
    };
    (server_end, share_end)
}

fn find_prefix(path: &[char]) -> (len: usize)
    ensures
        len == prefix_len(path@),
        len <= path.len(),
{
    if starts_verbatim(path) {
        if path.len() >= 8 && path[4] == 'U' && path[5] == 'N' && path[6] == 'C' && separator(
            path[7],
            false,
        ) {
            let (server_end, share_end): (usize, usize) = find_share(path, 8, true);
            if share_end > server_end && share_end - server_end > 1 {
                return share_end;
            }
            return server_end;
        }
        if find_drive(path, 4) && (path.len() == 6 || separator(path[6], false)) {
            return 6;
        }
        return find_separator(path, 4, true);
    }
    if starts_device(path) {
        return find_separator(path, 4, false);
    }
    if path.len() >= 2 && separator(path[0], false) && separator(path[1], false) {
        let (server_end, share_end): (usize, usize) = find_share(path, 2, false);
        if server_end > 2 && share_end > server_end && share_end - server_end > 1 {
            return share_end;
        }
        return 0;
    }
    if find_drive(path, 0) {
        2
    } else {
        0
    }
}

/// How a path begins.
struct Beginning {
    prefix: usize,
    rooted: bool,
    here: bool,
    verbatim: bool,
    floor: usize,
}

fn beginning(path: &[char]) -> (found: Beginning)
    ensures
        found.prefix == prefix_len(path@),
        found.rooted == has_root(path@),
        found.here == begins_here(path@),
        found.verbatim == is_verbatim(path@),
        found.floor == body_start(path@),
        found.prefix <= found.floor <= path.len(),
{
    let prefix: usize = find_prefix(path);
    let rooted: bool = prefix < path.len() && separator(path[prefix], false);
    let here: bool = prefix <= 2 && prefix < path.len() && path[prefix] == '.' && (path.len()
        == prefix + 1 || separator(path[prefix + 1], false));
    let floor: usize = if rooted || here {
        prefix + 1
    } else {
        prefix
    };
    Beginning { prefix, rooted, here, verbatim: starts_verbatim(path), floor }
}

/// Whether a path is complete.
pub fn is_absolute_path(path: &str) -> (is: bool)
    ensures
        is == is_absolute(path@),
{
    let chars: Vec<char> = chars_of(path);
    let found: Beginning = beginning(chars.as_slice());
    found.prefix > 2 || found.prefix == 2 && found.rooted
}

fn find_piece(path: &[char], floor: usize, end: usize, verbatim: bool) -> (start: usize)
    requires
        floor <= end <= path.len(),
    ensures
        floor <= start <= end,
        start == piece_start(path@, floor as int, end as int, verbatim),
{
    let mut start: usize = end;
    while start > floor && !separator(path[start - 1], verbatim)
        invariant
            floor <= start <= end <= path.len(),
            piece_start(path@, floor as int, end as int, verbatim) == piece_start(
                path@,
                floor as int,
                start as int,
                verbatim,
            ),
        decreases start,
    {
        start -= 1;
    }
    start
}

/// Whether a piece is `.`, and whether it is `..`.
fn find_dots(path: &[char], start: usize, end: usize) -> (dots: (bool, bool))
    requires
        start <= end <= path.len(),
    ensures
        dots.0 == (path@.subrange(start as int, end as int) == seq!['.']),
        dots.1 == (path@.subrange(start as int, end as int) == seq!['.', '.']),
{
    let ghost piece = path@.subrange(start as int, end as int);
    let one: bool = end - start == 1 && path[start] == '.';
    let two: bool = end - start == 2 && path[start] == '.' && path[start + 1] == '.';
    proof {
        if one {
            assert(piece =~= seq!['.']);
        } else if piece == seq!['.'] {
            assert(piece.len() == 1 && piece[0] == '.');
        }
        if two {
            assert(piece =~= seq!['.', '.']);
        } else if piece == seq!['.', '.'] {
            assert(piece.len() == 2 && piece[0] == '.' && piece[1] == '.');
        }
    }
    (one, two)
}

fn find_kept_end(path: &[char], floor: usize, from: usize, verbatim: bool) -> (end: usize)
    requires
        floor <= from <= path.len(),
    ensures
        floor <= end <= from,
        end == kept_end(path@, floor as int, from as int, verbatim),
{
    let mut end: usize = from;
    while end > floor
        invariant
            floor <= end <= from <= path.len(),
            kept_end(path@, floor as int, from as int, verbatim) == kept_end(
                path@,
                floor as int,
                end as int,
                verbatim,
            ),
        decreases end,
    {
        let start: usize = find_piece(path, floor, end, verbatim);
        let (dot, _): (bool, bool) = find_dots(path, start, end);
        if end > start && (verbatim || !dot) {
            return end;
        }
        if start == floor {
            return floor;
        }
        end = start - 1;
    }
    end
}

/// The bounds of the file name of a path.
fn find_name(path: &[char]) -> (bounds: Option<(usize, usize)>)
    ensures
        match bounds {
            Some((start, end)) => start <= end <= path.len() && file_name(path@) == Some(
                path@.subrange(start as int, end as int),
            ),
            None => file_name(path@) is None,
        },
{
    let found: Beginning = beginning(path);
    let end: usize = find_kept_end(path, found.floor, path.len(), found.verbatim);
    if end == found.floor {
        return None;
    }
    let start: usize = find_piece(path, found.floor, end, found.verbatim);
    let (one, two): (bool, bool) = find_dots(path, start, end);
    if one || two {
        None
    } else {
        Some((start, end))
    }
}

fn copy_chars(chars: &[char], start: usize, end: usize) -> (text: String)
    requires
        start <= end <= chars.len(),
    ensures
        text@ == chars@.subrange(start as int, end as int),
{
    let mut text: String = String::new();
    let mut i: usize = start;
    assert(text@ =~= chars@.subrange(start as int, start as int));
    while i < end
        invariant
            start <= i <= end <= chars.len(),
            text@ == chars@.subrange(start as int, i as int),
        decreases end - i,
    {
        push_char(&mut text, chars[i]);
        i += 1;
        assert(text@ =~= chars@.subrange(start as int, i as int));
    }
    text
}

/// The extension of the file name of a path.
pub fn path_extension(path: &str) -> (result: Option<Vec<char>>)
    ensures
        match result {
            Some(found) => extension(path@) == Some(found@),
            None => extension(path@) is None,
        },
{
    let chars: Vec<char> = chars_of(path);
    let (start, end): (usize, usize) = match find_name(chars.as_slice()) {
        Some(bounds) => bounds,
        None => {
            return None;
        },
    };
    let ghost name = chars@.subrange(start as int, end as int);
    let mut dot: usize = end;
    assert(name.take(dot - start) =~= name);
    while dot > start && chars[dot - 1] != '.'
        invariant
            start <= dot <= end <= chars.len(),
            name == chars@.subrange(start as int, end as int),
            last_dot(name) == last_dot(name.take(dot - start)),
        decreases dot,
    {
        assert(name.take(dot - start).drop_last() =~= name.take(dot - 1 - start));
        dot -= 1;
    }
    if dot - start <= 1 {
        return None;
    }
    assert(last_dot(name) == dot - 1 - start);
    let mut found: Vec<char> = Vec::new();
    let mut i: usize = dot;
    while i < end
        invariant
            start + 1 < dot <= i <= end <= chars.len(),
            found@ == chars@.subrange(dot as int, i as int),
        decreases end - i,
    {
        found.push(chars[i]);
        i += 1;
        assert(found@ =~= chars@.subrange(dot as int, i as int));
    }
    assert(found@ =~= name.skip(dot - start));
    Some(found)
}

/// The file name of a path.
pub fn path_file_name(path: &str) -> (result: Option<String>)
    ensures
        match result {
            Some(name) => file_name(path@) == Some(name@),
            None => file_name(path@) is None,
        },
{
    let chars: Vec<char> = chars_of(path);
    match find_name(chars.as_slice()) {
        Some((start, end)) => Some(copy_chars(chars.as_slice(), start, end)),
        None => None,
    }
}

/// The path without its last component.
pub fn parent_path(path: &str) -> (result: Option<String>)
    ensures
        match result {
            Some(found) => parent(path@) == Some(found@),
            None => parent(path@) is None,
        },
{
    let chars: Vec<char> = chars_of(path);
    let found: Beginning = beginning(chars.as_slice());
    let end: usize = find_kept_end(chars.as_slice(), found.floor, chars.len(), found.verbatim);
    if end > found.floor {
        let start: usize = find_piece(chars.as_slice(), found.floor, end, found.verbatim);
        let last: usize = if start > found.floor {
            find_kept_end(chars.as_slice(), found.floor, start - 1, found.verbatim)
        } else {
            found.floor
        };
        let text: String = copy_chars(chars.as_slice(), 0, last);
        assert(text@ =~= path@.take(last as int));
        return Some(text);
    }
    if found.here && found.prefix == 0 {
        let text: String = String::new();
        assert(text@ =~= Seq::empty());
        Some(text)
    } else {
        None
    }
}

fn list_components(path: &[char], floor: usize, end: usize, verbatim: bool) -> (found: Vec<String>)
    requires
        floor <= end <= path.len(),
    ensures
        texts(found@) == components(path@, floor as int, end as int, verbatim),
    decreases end,
{
    if end == floor {
        let found: Vec<String> = Vec::new();
        assert(texts(found@) =~= Seq::empty());
        return found;
    }
    let start: usize = find_piece(path, floor, end, verbatim);
    let mut found: Vec<String> = if start > floor {
        list_components(path, floor, start - 1, verbatim)
    } else {
        Vec::new()
    };
    assert(start == floor ==> texts(found@) =~= Seq::empty());
    let (dot, _): (bool, bool) = find_dots(path, start, end);
    if end > start && (verbatim || !dot) {
        let ghost before = found@;
        let piece: String = copy_chars(path, start, end);
        let ghost shown = piece@;
        found.push(piece);
        assert(texts(found@) =~= texts(before).push(shown));
    }
    found
}

/// Whether a path has more than one component.
pub fn path_has_several_components(path: &str) -> (several: bool)
    ensures
        several == has_several_components(path@),
{
    let chars: Vec<char> = chars_of(path);
    let found: Beginning = beginning(chars.as_slice());
    let names: Vec<String> = list_components(
        chars.as_slice(),
        found.floor,
        chars.len(),
        found.verbatim,
    );
    assert(texts(names@).len() == names.len());
    let root: bool = found.rooted || found.prefix > 2 && !found.verbatim || found.here && found.prefix
        == 0;
    if found.prefix > 0 {
        root || names.len() > 0
    } else if root {
        names.len() > 0
    } else {
        names.len() > 1
    }
}

/// Appends components to others, where `..` takes away the last name.
fn follow(names: &mut Vec<String>, parts: &Vec<String>)
    ensures
        texts(final(names)@) == followed(texts(old(names)@), texts(parts@)),
{
    let ghost all = texts(parts@);
    let mut i: usize = 0;
    assert(all.take(0) =~= Seq::empty());
    while i < parts.len()
        invariant
            i <= parts.len(),
            all == texts(parts@),
            texts(names@) == followed(texts(old(names)@), all.take(i as int)),
        decreases parts.len() - i,
    {
        let ghost before = names@;
        let part: &String = &parts[i];
        let ghost next = all.take(i + 1);
        proof {
            assert(next.drop_last() =~= all.take(i as int));
            assert(next.last() == part@);
        }
        let part_chars: Vec<char> = chars_of(part.as_str());
        let (_, up): (bool, bool) = find_dots(part_chars.as_slice(), 0, part_chars.len());
        assert(part@.subrange(0, part@.len() as int) =~= part@);
        if up {
            if names.len() > 0 {
                let last_chars: Vec<char> = chars_of(names[names.len() - 1].as_str());
                let (one, two): (bool, bool) = find_dots(
                    last_chars.as_slice(),
                    0,
                    last_chars.len(),
                );
                proof {
                    let last = before.last()@;
                    assert(last.subrange(0, last.len() as int) =~= last);
                    assert(texts(before).last() == last);
                }
                if !one && !two {
                    let _ = names.pop();
                    assert(texts(names@) =~= texts(before).drop_last());
                }
            }
        } else {
            let copy: String = part.clone();
            names.push(copy);
            assert(texts(names@) =~= texts(before).push(part@));
        }
        i += 1;
    }
    assert(all.take(i as int) =~= all);
}

fn write_components(text: &mut String, names: &Vec<String>)
    ensures
        final(text)@ == old(text)@ + written(texts(names@)),
{
    let ghost all = texts(names@);
    let mut i: usize = 0;
    assert(all.take(0) =~= Seq::empty());
    assert(old(text)@ + written(all.take(0)) =~= old(text)@);
    while i < names.len()
        invariant
            i <= names.len(),
            all == texts(names@),
            text@ == old(text)@ + written(all.take(i as int)),
        decreases names.len() - i,
    {
        let ghost next = all.take(i + 1);
        proof {
            assert(next.drop_last() =~= all.take(i as int));
            assert(next.last() == names@[i as int]@);
        }
        push_char(text, '\\');
        text.append(names[i].as_str());
        assert(text@ =~= old(text)@ + written(next));
        i += 1;
    }
    assert(all.take(i as int) =~= all);
}

fn join_verbatim(base: &[char], part: &[char]) -> (path: String)
    ensures
        path@ == joined_verbatim(base@, part@),
{
    let base_found: Beginning = beginning(base);
    let part_found: Beginning = beginning(part);
    let mut names: Vec<String> = if part_found.rooted {
        Vec::new()
    } else {
        list_components(base, base_found.floor, base.len(), base_found.verbatim)
    };
    assert(part_found.rooted ==> texts(names@) =~= Seq::empty());
    let parts: Vec<String> = list_components(
        part,
        part_found.floor,
        part.len(),
        part_found.verbatim,
    );
    follow(&mut names, &parts);
    let mut path: String = copy_chars(base, 0, base_found.prefix);
    assert(path@ =~= base@.take(base_found.prefix as int));
    assert(texts(names@).len() == names.len());
    if names.len() == 0 && (base_found.rooted || part_found.rooted) {
        push_char(&mut path, '\\');
    } else {
        write_components(&mut path, &names);
    }
    assert(path@ =~= joined_verbatim(base@, part@));
    path
}

/// Joins two paths.
pub fn join_paths(base: &str, part: &str) -> (path: String)
    ensures
        path@ == joined(base@, part@),
{
    let part_chars: Vec<char> = chars_of(part);
    let part_found: Beginning = beginning(part_chars.as_slice());
    if part_found.prefix > 0 {
        return part.to_owned();
    }
    let base_chars: Vec<char> = chars_of(base);
    let base_found: Beginning = beginning(base_chars.as_slice());
    if base_found.verbatim && part_chars.len() > 0 {
        return join_verbatim(base_chars.as_slice(), part_chars.as_slice());
    }
    if part_found.rooted {
        let mut path: String = copy_chars(base_chars.as_slice(), 0, base_found.prefix);
        path.append(part);
        assert(path@ =~= joined(base@, part@));
        return path;
    }
    let mut path: String = base.to_owned();
    let length: usize = base_chars.len();
    if !(length == 0 || separator(base_chars[length - 1], false) || length == 2 && base_found.prefix
        == 2) {
        push_char(&mut path, '\\');
    }
    path.append(part);
    assert(path@ =~= joined(base@, part@));
    path
}

/// The entries of a search path: they stand between semicolons, except those inside quotation
/// marks, and the quotation marks go.
pub open spec fn search_entries(rest: Seq<char>, open: bool, entry: Seq<char>) -> Seq<Seq<char>>
    decreases rest.len(),
{
    if rest.len() == 0 {
        seq![entry]
    } else if rest[0] == '"' {
        search_entries(rest.drop_first(), !open, entry)
    } else if rest[0] == ';' && !open {
        seq![entry] + search_entries(rest.drop_first(), false, Seq::empty())
    } else {
        search_entries(rest.drop_first(), open, entry.push(rest[0]))
    }
}

/// Splits a search path into its entries.
pub fn split_search_path(text: &str) -> (entries: Vec<String>)
    ensures
        texts(entries@) == search_entries(text@, false, Seq::empty()),
{
    let chars: Vec<char> = chars_of(text);
    let ghost all = search_entries(text@, false, Seq::empty());
    let mut entries: Vec<String> = Vec::new();
    let mut entry: String = String::new();
    let mut open: bool = false;
    let mut i: usize = 0;
    proof {
        assert(text@.skip(0) =~= text@);
        assert(texts(entries@) =~= Seq::empty());
        assert(entry@ =~= Seq::empty());
        assert(Seq::empty() + all =~= all);
    }
    while i < chars.len()
        invariant
            i <= chars.len(),
            chars@ == text@,
            all == texts(entries@) + search_entries(text@.skip(i as int), open, entry@),
        decreases chars.len() - i,
    {
        let ghost rest = text@.skip(i as int);
        let ghost before = entries@;
        let c: char = chars[i];
        proof {
            assert(rest[0] == c);
            assert(rest.drop_first() =~= text@.skip(i + 1));
        }
        if c == '"' {
            open = !open;
        } else if c == ';' && !open {
            let ghost closed = entry@;
            let ghost tail = search_entries(text@.skip(i + 1), false, Seq::empty());
            entries.push(entry);
            entry = String::new();
            proof {
                assert(texts(entries@) =~= texts(before).push(closed));
                assert(texts(before) + (seq![closed] + tail) =~= texts(entries@) + tail);
                assert(entry@ =~= Seq::empty());
            }
        } else {
            push_char(&mut entry, c);
        }
        i += 1;
    }
    let ghost before = entries@;
    let ghost last = entry@;
    entries.push(entry);
    assert(texts(entries@) =~= texts(before).push(last));
    assert(texts(before) + seq![last] =~= texts(entries@));
    entries
}

/// The file that keeps a version in use while an execution runs: it lies beside the versions, in
/// the directory `pins`, where the executable lies in a version at all.
pub open spec fn version_pin(executable: Seq<char>, execution_id: Seq<char>) -> Option<Seq<char>> {
    match parent(executable) {
        None => None,
        Some(version) => match parent(version) {
            None => None,
            Some(versions) => if !(file_name(versions) matches Some(name)
                && same_ignoring_ascii_case(name, "versions"@)) {
                None
            } else {
                match (parent(versions), file_name(version)) {
                    (Some(installation), Some(name)) => Some(
                        joined(
                            joined(joined(installation, "pins"@), name),
                            execution_id + ".pin"@,
                        ),
                    ),
                    _ => None,
                }
            },
        },
    }
}

pub fn version_pin_path(executable: &str, execution_id: &str) -> (result: Option<String>)
    ensures
        match result {
            Some(path) => version_pin(executable@, execution_id@) == Some(path@),
            None => version_pin(executable@, execution_id@) is None,
        },
{
    let version: String = match parent_path(executable) {
        Some(version) => version,
        None => {
            return None;
        },
    };
    let versions: String = match parent_path(version.as_str()) {
        Some(versions) => versions,
        None => {
            return None;
        },
    };
    match path_file_name(versions.as_str()) {
        Some(name) => {
            let name_chars: Vec<char> = chars_of(name.as_str());
            let wanted: Vec<char> = chars_of("versions");
            if !eq_ignore_ascii_case(name_chars.as_slice(), wanted.as_slice()) {
                return None;
            }
        },
        None => {
            return None;
        },
    }
    match (parent_path(versions.as_str()), path_file_name(version.as_str())) {
        (Some(installation), Some(name)) => {
            let pins: String = join_paths(installation.as_str(), "pins");
            let directory: String = join_paths(pins.as_str(), name.as_str());
            let file: String = join(execution_id, ".pin");
            Some(join_paths(directory.as_str(), file.as_str()))
        },
        _ => None,
    }
}

} // verus!
