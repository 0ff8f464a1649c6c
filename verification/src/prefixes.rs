//! The prefixes of Windows paths.
//!
//! A path may begin with a drive (`C:`), a share (`\\server\share`), a device (`\\.\COM1`), or with
//! `\\?\`, which makes it verbatim. A verbatim path goes on with a drive, with `UNC\` and a share, or
//! with anything else, and only `\` separates what follows. A prefix is not part of any name.

use vstd::prelude::*;
use crate::text::from_chars;

verus! {

/// Whether `c` is one of the two slashes.
pub open spec fn slash(c: char) -> bool {
    c == '/' || c == '\\'
}

/// Decides [`slash`].
fn is_slash(c: char) -> (yes: bool)
    ensures
        yes == slash(c),
{
    c == '/' || c == '\\'
}

/// Whether a drive is written at position `at` of `p`.
pub open spec fn drive_at(p: Seq<char>, at: int) -> bool {
    &&& at + 2 <= p.len()
    &&& ('a' <= p[at] <= 'z' || 'A' <= p[at] <= 'Z')
    &&& p[at + 1] == ':'
}

/// Decides [`drive_at`].
pub fn is_drive_at(chars: &Vec<char>, at: usize) -> (yes: bool)
    ensures
        yes == drive_at(chars@, at as int),
{
    if at >= chars.len() || chars.len() - at < 2 {
        return false;
    }
    let c: char = chars[at];
    (('a' <= c && c <= 'z') || ('A' <= c && c <= 'Z')) && chars[at + 1] == ':'
}

/// Whether a path is verbatim.
pub open spec fn verbatim(p: Seq<char>) -> bool {
    p.len() >= 4 && p[0] == '\\' && p[1] == '\\' && p[2] == '?' && p[3] == '\\'
}

/// Where the part that begins at `from` ends: at the next separator, or at the end of the path. In
/// a verbatim path only `\` separates.
pub open spec fn part_end(p: Seq<char>, from: int, verbatim: bool) -> int
    decreases p.len() - from,
{
    if from >= p.len() || p[from] == '\\' || (!verbatim && p[from] == '/') {
        from
    } else {
        part_end(p, from + 1, verbatim)
    }
}

/// Where a server that begins at `from`, and the share behind it, end. A share may be missing.
pub open spec fn share_end(p: Seq<char>, from: int, verbatim: bool) -> int {
    let server = part_end(p, from, verbatim);
    let share = part_end(p, server + 1, verbatim);
    if share > server + 1 {
        share
    } else {
        server
    }
}

/// Whether a path begins with a server and a share, both with a name.
pub open spec fn has_share(p: Seq<char>) -> bool {
    let server = part_end(p, 2, false);
    &&& p.len() >= 2
    &&& slash(p[0]) && slash(p[1])
    &&& server > 2
    &&& part_end(p, server + 1, false) > server + 1
}

/// The number of characters in the prefix of a path.
pub open spec fn prefix_len(p: Seq<char>) -> int {
    if verbatim(p) {
        if p.len() >= 8 && p[4] == 'U' && p[5] == 'N' && p[6] == 'C' && slash(p[7]) {
            share_end(p, 8, true)
        } else if drive_at(p, 4) && (p.len() == 6 || slash(p[6])) {
            6
        } else {
            part_end(p, 4, true)
        }
    } else if p.len() >= 4 && slash(p[0]) && slash(p[1]) && p[2] == '.' && slash(p[3]) {
        part_end(p, 4, false)
    } else if has_share(p) {
        share_end(p, 2, false)
    } else if drive_at(p, 0) {
        2
    } else {
        0
    }
}

/// A part ends within the path, not before it begins.
proof fn part_end_is_within(p: Seq<char>, from: int, verbatim: bool)
    requires
        0 <= from,
    ensures
        from <= part_end(p, from, verbatim),
        from <= p.len() ==> part_end(p, from, verbatim) <= p.len(),
        from > p.len() ==> part_end(p, from, verbatim) == from,
    decreases p.len() - from,
{
    if !(from >= p.len() || p[from] == '\\' || (!verbatim && p[from] == '/')) {
        part_end_is_within(p, from + 1, verbatim);
    }
}

/// A prefix lies within its path.
pub proof fn prefix_is_within(p: Seq<char>)
    ensures
        0 <= prefix_len(p) <= p.len(),
{
    part_end_is_within(p, 2, false);
    part_end_is_within(p, 4, false);
    part_end_is_within(p, 4, true);
    part_end_is_within(p, 8, true);
    part_end_is_within(p, part_end(p, 2, false) + 1, false);
    part_end_is_within(p, part_end(p, 8, true) + 1, true);
}

/// A path that begins with neither a slash nor a drive has no prefix.
pub proof fn no_prefix(p: Seq<char>)
    requires
        p.len() > 0 ==> !slash(p[0]),
        !drive_at(p, 0),
    ensures
        prefix_len(p) == 0,
        !verbatim(p),
{
}

/// Finds [`part_end`].
fn find_part_end(chars: &Vec<char>, from: usize, verbatim: bool) -> (end: usize)
    requires
        from <= chars@.len(),
    ensures
        end == part_end(chars@, from as int, verbatim),
        from <= end <= chars@.len(),
{
    let mut end: usize = from;
    while end < chars.len() && chars[end] != '\\' && (verbatim || chars[end] != '/')
        invariant
            from <= end <= chars@.len(),
            part_end(chars@, from as int, verbatim) == part_end(chars@, end as int, verbatim),
        ensures
            from <= end <= chars@.len(),
            part_end(chars@, from as int, verbatim) == end,
        decreases chars@.len() - end,
    {
        end += 1;
    }
    end
}

/// Finds [`share_end`], and says whether both server and share have a name.
fn find_share_end(chars: &Vec<char>, from: usize, verbatim: bool) -> (found: (usize, bool))
    requires
        from <= chars@.len(),
    ensures
        found.0 == share_end(chars@, from as int, verbatim),
        found.1 == {
            let server = part_end(chars@, from as int, verbatim);
            server > from && part_end(chars@, server + 1, verbatim) > server + 1
        },
{
    let server = find_part_end(chars, from, verbatim);
    if server == chars.len() {
        return (server, false);
    }
    let share = find_part_end(chars, server + 1, verbatim);
    if share > server + 1 {
        (share, server > from)
    } else {
        (server, false)
    }
}

/// Decides [`verbatim`].
pub fn is_verbatim(chars: &Vec<char>) -> (yes: bool)
    ensures
        yes == verbatim(chars@),
{
    chars.len() >= 4 && chars[0] == '\\' && chars[1] == '\\' && chars[2] == '?' && chars[3] == '\\'
}

/// Finds [`prefix_len`].
pub fn find_prefix(chars: &Vec<char>) -> (len: usize)
    ensures
        len == prefix_len(chars@),
        len <= chars@.len(),
{
    proof {
        prefix_is_within(chars@);
    }
    if is_verbatim(chars) {
        if chars.len() >= 8 && chars[4] == 'U' && chars[5] == 'N' && chars[6] == 'C' && is_slash(
            chars[7],
        ) {
            return find_share_end(chars, 8, true).0;
        }
        if is_drive_at(chars, 4) && (chars.len() == 6 || is_slash(chars[6])) {
            return 6;
        }
        return find_part_end(chars, 4, true);
    }
    if chars.len() >= 2 && is_slash(chars[0]) && is_slash(chars[1]) {
        if chars.len() >= 4 && chars[2] == '.' && is_slash(chars[3]) {
            return find_part_end(chars, 4, false);
        }
        let (end, named) = find_share_end(chars, 2, false);
        if named {
            return end;
        }
    }
    if is_drive_at(chars, 0) {
        2
    } else {
        0
    }
}

/// Where the last run of characters without `\` in `p` begins.
pub open spec fn after_backslash(p: Seq<char>) -> int
    decreases p.len(),
{
    if p.len() == 0 || p.last() == '\\' {
        p.len() as int
    } else {
        after_backslash(p.drop_last())
    }
}

/// The name that a verbatim path without its prefix ends in; nothing where it ends in `.` or `..`.
/// Such a name may hold `/`.
pub open spec fn verbatim_name(p: Seq<char>) -> Seq<char>
    decreases p.len(),
{
    if p.len() == 0 {
        p
    } else if p.last() == '\\' {
        verbatim_name(p.drop_last())
    } else {
        let segment = p.skip(after_backslash(p));
        if segment == seq!['.'] || segment == seq!['.', '.'] {
            Seq::empty()
        } else {
            segment
        }
    }
}

/// What follows the prefix of a verbatim path, without the slash between them.
pub open spec fn verbatim_body(p: Seq<char>) -> Seq<char> {
    let n = prefix_len(p);
    p.skip(
        if n < p.len() && slash(p[n]) {
            n + 1
        } else {
            n
        },
    )
}

/// The last run without `\` begins where [`after_backslash`] says.
pub proof fn after_backslash_is_last(p: Seq<char>)
    ensures
        0 <= after_backslash(p) <= p.len(),
        after_backslash(p) > 0 ==> p[after_backslash(p) - 1] == '\\',
        forall|k: int| after_backslash(p) <= k < p.len() ==> p[k] != '\\',
    decreases p.len(),
{
    if p.len() > 0 && p.last() != '\\' {
        let rest = p.drop_last();
        after_backslash_is_last(rest);
        assert forall|k: int| after_backslash(p) <= k < p.len() implies p[k] != '\\' by {
            if k < p.len() - 1 {
                assert(rest[k] == p[k]);
            }
        }
    }
}

/// The name of a verbatim path is neither `.` nor `..` and holds no `\`.
pub proof fn verbatim_name_has_no_backslash(p: Seq<char>)
    ensures
        verbatim_name(p) != seq!['.'],
        verbatim_name(p) != seq!['.', '.'],
        forall|k: int| 0 <= k < verbatim_name(p).len() ==> #[trigger] verbatim_name(p)[k] != '\\',
    decreases p.len(),
{
    let name = verbatim_name(p);
    if p.len() == 0 {
        assert(name.len() == 0);
    } else if p.last() == '\\' {
        verbatim_name_has_no_backslash(p.drop_last());
    } else {
        after_backslash_is_last(p);
        let segment = p.skip(after_backslash(p));
        assert forall|k: int| 0 <= k < segment.len() implies #[trigger] segment[k] != '\\' by {
            assert(segment[k] == p[after_backslash(p) + k]);
        }
    }
    assert(seq!['.'].len() == 1 && seq!['.', '.'].len() == 2);
}

/// Finds the name of a verbatim path.
pub fn find_verbatim_name(chars: &Vec<char>) -> (name: String)
    ensures
        name@ == verbatim_name(verbatim_body(chars@)),
{
    let prefix = find_prefix(chars);
    let base: usize = if prefix < chars.len() && is_slash(chars[prefix]) {
        prefix + 1
    } else {
        prefix
    };
    let ghost body = verbatim_body(chars@);
    let mut to: usize = chars.len();
    assert(chars@.subrange(base as int, to as int) == body);
    while to > base && chars[to - 1] == '\\'
        invariant
            base <= to <= chars@.len(),
            verbatim_name(chars@.subrange(base as int, to as int)) == verbatim_name(body),
        ensures
            base <= to <= chars@.len(),
            verbatim_name(chars@.subrange(base as int, to as int)) == verbatim_name(body),
            to > base ==> chars@[to - 1] != '\\',
        decreases to,
    {
        let ghost before = chars@.subrange(base as int, to as int);
        assert(before.last() == chars@[to - 1]);
        to -= 1;
        assert(before.drop_last() == chars@.subrange(base as int, to as int));
    }
    if to == base {
        return String::new();
    }
    let ghost rest = chars@.subrange(base as int, to as int);
    proof {
        after_backslash_is_last(rest);
    }
    let mut from: usize = to;
    while from > base && chars[from - 1] != '\\'
        invariant
            base <= from <= to <= chars@.len(),
            rest == chars@.subrange(base as int, to as int),
            0 <= after_backslash(rest) <= from - base,
            after_backslash(rest) > 0 ==> rest[after_backslash(rest) - 1] == '\\',
        ensures
            base <= from <= to,
            after_backslash(rest) <= from - base,
            from == base || chars@[from - 1] == '\\',
        decreases from,
    {
        assert(chars@[from - 1] == rest[from - 1 - base]);
        from -= 1;
    }
    assert(from - base == after_backslash(rest)) by {
        if from > base {
            assert(chars@[from - 1] == rest[from - 1 - base]);
        }
    }
    let ghost segment = rest.skip(from - base);
    assert(segment == chars@.subrange(from as int, to as int));
    assert(rest.last() == chars@[to - 1]);
    if (to - from == 1 && chars[from] == '.') || (to - from == 2 && chars[from] == '.' && chars[from
        + 1] == '.') {
        assert(segment == seq!['.'] || segment == seq!['.', '.']);
        return String::new();
    }
    assert(segment != seq!['.'] && segment != seq!['.', '.']) by {
        if segment == seq!['.'] {
            assert(segment.len() == 1 && segment[0] == '.');
        }
        if segment == seq!['.', '.'] {
            assert(segment.len() == 2 && segment[0] == '.' && segment[1] == '.');
        }
    }
    from_chars(chars, from, to)
}

} // verus!
