//! Which paths are safe and what their names are, told segment by segment.

use vstd::prelude::*;
use crate::paths::file_name_of;
use crate::paths::is_segment;
use crate::paths::last_name;
use crate::paths::last_start;
use crate::paths::last_start_is_last;
use crate::paths::safe_path;
use crate::paths::PathStyle;
use crate::prefixes::after_backslash;
use crate::prefixes::after_backslash_is_last;
use crate::prefixes::has_share;
use crate::prefixes::no_prefix;
use crate::prefixes::part_end;
use crate::prefixes::prefix_len;
use crate::prefixes::share_end;
use crate::prefixes::slash;
use crate::prefixes::verbatim;
use crate::prefixes::verbatim_name;

verus! {

/// Whether `s` holds no separator.
pub open spec fn unbroken(style: PathStyle, s: Seq<char>) -> bool {
    forall|i: int| 0 <= i < s.len() ==> !style.separates(#[trigger] s[i])
}

/// On Unix `/` separates and nothing else; on Windows `/` and `\` do and nothing else.
pub proof fn only_slashes_separate(c: char)
    ensures
        PathStyle::Unix.separates(c) <==> c == '/',
        PathStyle::Windows.separates(c) <==> c == '/' || c == '\\',
{
}

/// Only Windows knows drives: a letter and a colon at the very front.
pub proof fn drives_are_letters_and_colons(letter: char, mark: char, rest: Seq<char>)
    ensures
        !PathStyle::Unix.has_drive(seq![letter, mark] + rest),
        PathStyle::Windows.has_drive(seq![letter, mark] + rest) <==> mark == ':' && ('a' <= letter
            <= 'z' || 'A' <= letter <= 'Z'),
        !PathStyle::Windows.has_drive(Seq::empty()),
        !PathStyle::Windows.has_drive(seq![letter]),
{
    let p = seq![letter, mark] + rest;
    assert(p[0] == letter && p[1] == mark);
}

/// The empty path is not safe. A path of one segment is safe exactly if the segment is a name: not
/// empty, `.` or `..`, and without a drive.
pub proof fn one_name_is_safe(style: PathStyle, segment: Seq<char>)
    requires
        unbroken(style, segment),
    ensures
        safe_path(style, segment) <==> segment.len() > 0 && segment != seq!['.'] && segment != seq![
            '.',
            '.',
        ] && !style.has_drive(segment),
{
    let n = segment.len() as int;
    assert(segment.subrange(0, n) == segment);
    assert(is_segment(style, segment, 0, n));
    assert forall|i: int, j: int| #[trigger] is_segment(style, segment, i, j) implies i == 0 && j
        == n by {
        if i > 0 {
            assert(!style.separates(segment[i - 1]));
        }
        if j < n {
            assert(!style.separates(segment[j]));
        }
    }
}

/// A path with one more segment is safe exactly if it was safe without it and the segment does not
/// lead to the parent. Whatever else the segment holds makes no difference.
pub proof fn one_more_segment_is_safe(
    style: PathStyle,
    path: Seq<char>,
    separator: char,
    segment: Seq<char>,
)
    requires
        style.separates(separator),
        unbroken(style, segment),
    ensures
        safe_path(style, path + seq![separator] + segment) <==> safe_path(style, path) && segment
            != seq!['.', '.'],
{
    let p = path + seq![separator] + segment;
    let at = path.len() as int;
    let n = p.len() as int;
    assert(p[at] == separator);
    assert(p.subrange(at + 1, n) == segment);
    assert forall|k: int| at < k < n implies !style.separates(#[trigger] p[k]) by {
        assert(p[k] == segment[k - at - 1]);
    }
    assert(is_segment(style, p, at + 1, n));
    assert forall|k: int| 0 <= k < at implies #[trigger] p[k] == path[k] by {}
    assert(style.has_drive(p) == style.has_drive(path)) by {
        if path.len() >= 2 {
            assert(p[0] == path[0] && p[1] == path[1]);
        }
    }
    assert forall|i: int, j: int| #[trigger] is_segment(style, p, i, j) implies (i == at + 1 && j
        == n) || (j <= at && is_segment(style, path, i, j)) by {
        if j > at {
            if i <= at {
                assert(!style.separates(p[at]));
            }
            if i > at + 1 {
                assert(!style.separates(p[i - 1]));
            }
            if j < n {
                assert(!style.separates(p[j]));
            }
        } else {
            assert forall|k: int| i <= k < j implies !style.separates(#[trigger] path[k]) by {
                assert(p[k] == path[k]);
            }
            if i > 0 {
                assert(p[i - 1] == path[i - 1]);
            }
            if j < at {
                assert(p[j] == path[j]);
            }
        }
    }
    assert forall|i: int, j: int| #[trigger] is_segment(style, path, i, j) implies is_segment(
        style,
        p,
        i,
        j,
    ) && p.subrange(i, j) == path.subrange(i, j) by {
        assert forall|k: int| i <= k < j implies !style.separates(#[trigger] p[k]) by {
            assert(p[k] == path[k]);
        }
        if i > 0 {
            assert(p[i - 1] == path[i - 1]);
        }
        assert(p.subrange(i, j) =~= path.subrange(i, j));
    }
    if safe_path(style, path) && segment != seq!['.', '.'] {
        assert(p[0] == path[0]);
        assert forall|i: int, j: int| #[trigger] is_segment(style, p, i, j) implies {
            &&& p.subrange(i, j) != seq!['.', '.']
            &&& i == 0 ==> p.subrange(i, j) != seq!['.']
        } by {
            if j <= at {
                assert(is_segment(style, path, i, j));
            }
        }
    }
    if safe_path(style, p) {
        if at > 0 {
            assert(p[0] == path[0]);
        } else {
            assert(p[0] == separator);
        }
        assert forall|i: int, j: int| #[trigger] is_segment(style, path, i, j) implies {
            &&& path.subrange(i, j) != seq!['.', '.']
            &&& i == 0 ==> path.subrange(i, j) != seq!['.']
        } by {
            assert(is_segment(style, p, i, j));
        }
    }
}

/// A path that begins with a separator is not safe.
pub proof fn absolute_paths_are_not_safe(style: PathStyle, separator: char, rest: Seq<char>)
    requires
        style.separates(separator),
    ensures
        !safe_path(style, seq![separator] + rest),
{
    assert((seq![separator] + rest)[0] == separator);
}

proof fn last_name_of_segment(style: PathStyle, segment: Seq<char>)
    requires
        unbroken(style, segment),
    ensures
        last_name(style, segment) == if segment == seq!['.'] || segment == seq!['.', '.'] {
            Seq::empty()
        } else {
            segment
        },
{
    last_start_is_last(style, segment);
    let start = last_start(style, segment);
    if start > 0 {
        assert(!style.separates(segment[start - 1]));
    }
    assert(segment.skip(0) == segment);
    assert(seq!['.'].len() == 1 && seq!['.', '.'].len() == 2);
    if segment.len() == 0 {
        assert(segment == Seq::<char>::empty());
        assert(segment != seq!['.'] && segment != seq!['.', '.']);
    }
}

proof fn last_name_of_more(
    style: PathStyle,
    path: Seq<char>,
    separator: char,
    segment: Seq<char>,
)
    requires
        style.separates(separator),
        unbroken(style, segment),
    ensures
        last_name(style, path + seq![separator] + segment) == if segment.len() == 0 || segment
            == seq!['.'] {
            last_name(style, path)
        } else if segment == seq!['.', '.'] {
            Seq::empty()
        } else {
            segment
        },
{
    let p = path + seq![separator] + segment;
    let at = path.len() as int;
    last_start_is_last(style, p);
    let start = last_start(style, p);
    assert(p[at] == separator);
    if start <= at {
        assert(!style.separates(p[at]));
    }
    if start > at + 1 {
        assert(p[start - 1] == segment[start - at - 2]);
    }
    assert(p.skip(at + 1) == segment);
    assert(p.take(at) == path);
}

/// The file name of a path of one segment is the segment, if it is a name, and nothing otherwise.
pub proof fn one_name_is_its_name(style: PathStyle, segment: Seq<char>)
    requires
        unbroken(style, segment),
        !style.has_drive(segment),
    ensures
        file_name_of(style, segment) == if segment == seq!['.'] || segment == seq!['.', '.'] {
            Seq::empty()
        } else {
            segment
        },
{
    last_name_of_segment(style, segment);
    if style == PathStyle::Windows {
        if segment.len() > 0 {
            assert(!style.separates(segment[0]));
        }
        no_prefix(segment);
        assert(segment.skip(0) == segment);
    }
}

/// The file name of a path with one more segment is that segment, if it is a name; nothing, if it
/// leads to the parent; and the name that was there before, if it is empty or `.`. On Windows this
/// is said of paths that begin with neither a slash nor a drive.
pub proof fn one_more_segment_is_the_name(
    style: PathStyle,
    path: Seq<char>,
    separator: char,
    segment: Seq<char>,
)
    requires
        style.separates(separator),
        unbroken(style, segment),
        style == PathStyle::Windows ==> path.len() > 0 && !slash(path[0]) && !style.has_drive(path),
    ensures
        file_name_of(style, path + seq![separator] + segment) == if segment.len() == 0 || segment
            == seq!['.'] {
            file_name_of(style, path)
        } else if segment == seq!['.', '.'] {
            Seq::empty()
        } else {
            segment
        },
{
    let p = path + seq![separator] + segment;
    last_name_of_more(style, path, separator, segment);
    if style == PathStyle::Windows {
        assert(p[0] == path[0]);
        if path.len() >= 2 {
            assert(p[1] == path[1]);
        } else {
            assert(p[1] == separator);
        }
        no_prefix(path);
        no_prefix(p);
        assert(path.skip(0) == path);
        assert(p.skip(0) == p);
    }
}

/// On Windows a drive is no part of a name: behind it, the name is that of the rest, whether or not
/// a slash stands between them.
pub proof fn drives_are_no_names(letter: char, separator: char, rest: Seq<char>)
    requires
        'a' <= letter <= 'z' || 'A' <= letter <= 'Z',
        slash(separator),
        rest.len() > 0 ==> !slash(rest[0]),
        !PathStyle::Windows.has_drive(rest),
    ensures
        file_name_of(PathStyle::Windows, seq![letter, ':'] + rest) == file_name_of(
            PathStyle::Windows,
            rest,
        ),
        file_name_of(PathStyle::Windows, seq![letter, ':', separator] + rest) == file_name_of(
            PathStyle::Windows,
            rest,
        ),
{
    let style = PathStyle::Windows;
    let p = seq![letter, ':'] + rest;
    let q = seq![letter, ':', separator] + rest;
    no_prefix(rest);
    assert(rest.skip(0) == rest);
    assert(p[0] == letter && p[1] == ':' && q[0] == letter && q[1] == ':');
    assert(!slash(letter));
    assert(p.skip(2) == rest);
    assert(q.skip(2) == seq![separator] + rest);
    rooted_name(separator, rest);
}

/// A separator in front makes no difference to the last name.
proof fn rooted_name(separator: char, rest: Seq<char>)
    requires
        slash(separator),
    ensures
        last_name(PathStyle::Windows, seq![separator] + rest) == last_name(
            PathStyle::Windows,
            rest,
        ),
    decreases rest.len(),
{
    let style = PathStyle::Windows;
    let p = seq![separator] + rest;
    last_start_is_last(style, rest);
    last_start_is_last(style, p);
    let start = last_start(style, rest);
    assert(last_start(style, p) == start + 1) by {
        let other = last_start(style, p);
        assert(p[0] == separator);
        if other == 0 {
            assert(!style.separates(p[0]));
        }
        if other < start + 1 {
            assert(p[start] == rest[start - 1]);
            assert(!style.separates(p[start]));
        }
        if other > start + 1 {
            assert(p[other - 1] == rest[other - 2]);
            assert(!style.separates(rest[other - 2]));
        }
    }
    assert(p.skip(start + 1) == rest.skip(start));
    if start > 0 {
        assert(p.take(start) == seq![separator] + rest.take(start - 1));
        rooted_name(separator, rest.take(start - 1));
    } else {
        let nothing = p.take(0);
        assert(nothing.len() == 0);
        last_start_is_last(style, nothing);
        assert(last_name(style, nothing) == Seq::<char>::empty());
        assert(rest.skip(0) == rest);
    }
}

/// A part ends where the first separator stands.
proof fn part_ends_here(p: Seq<char>, from: int, to: int)
    requires
        0 <= from <= to <= p.len(),
        forall|k: int| from <= k < to ==> !slash(#[trigger] p[k]),
        to == p.len() || slash(p[to]),
    ensures
        part_end(p, from, false) == to,
    decreases to - from,
{
    if from < to {
        assert(!slash(p[from]));
        part_ends_here(p, from + 1, to);
    }
}

/// On Windows a server and a share are no part of a name: alone they have none, and behind them the
/// name is that of the rest.
pub proof fn shares_are_no_names(server: Seq<char>, share: Seq<char>, rest: Seq<char>)
    requires
        unbroken(PathStyle::Windows, server),
        unbroken(PathStyle::Windows, share),
        server.len() > 0,
        share.len() > 0,
        server != seq!['.'],
        server != seq!['?'],
        rest.len() > 0 ==> !slash(rest[0]),
        !PathStyle::Windows.has_drive(rest),
    ensures
        file_name_of(PathStyle::Windows, seq!['\\', '\\'] + server + seq!['\\'] + share).len() == 0,
        file_name_of(
            PathStyle::Windows,
            seq!['\\', '\\'] + server + seq!['\\'] + share + seq!['\\'] + rest,
        ) == file_name_of(PathStyle::Windows, rest),
{
    let style = PathStyle::Windows;
    let root = seq!['\\', '\\'] + server + seq!['\\'] + share;
    let p = root + seq!['\\'] + rest;
    let nothing = Seq::<char>::empty();
    share_is_the_prefix(root, server, share, nothing);
    assert(root.skip(root.len() as int) == nothing);
    assert(last_name(style, nothing).len() == 0) by {
        last_name_of_segment(style, nothing);
    }
    share_is_the_prefix(p, server, share, seq!['\\'] + rest);
    assert(p.skip(root.len() as int) == seq!['\\'] + rest);
    rooted_name('\\', rest);
    no_prefix(rest);
    assert(rest.skip(0) == rest);
}

proof fn share_is_the_prefix(p: Seq<char>, server: Seq<char>, share: Seq<char>, more: Seq<char>)
    requires
        unbroken(PathStyle::Windows, server),
        unbroken(PathStyle::Windows, share),
        server.len() > 0,
        share.len() > 0,
        server != seq!['.'],
        server != seq!['?'],
        more.len() > 0 ==> more[0] == '\\',
        p =~= seq!['\\', '\\'] + server + seq!['\\'] + share + more,
    ensures
        prefix_len(p) == 3 + server.len() + share.len(),
        !verbatim(p),
{
    let a: int = 2 + server.len() as int;
    let b: int = a + 1 + share.len();
    assert(p[0] == '\\' && p[1] == '\\');
    assert forall|k: int| 2 <= k < a implies !slash(#[trigger] p[k]) && p[k] == server[k - 2] by {
        assert(p[k] == server[k - 2]);
        assert(!PathStyle::Windows.separates(server[k - 2]));
    }
    assert(p[a] == '\\');
    assert forall|k: int| a + 1 <= k < b implies !slash(#[trigger] p[k]) by {
        assert(p[k] == share[k - a - 1]);
        assert(!PathStyle::Windows.separates(share[k - a - 1]));
    }
    if more.len() > 0 {
        assert(p[b] == more[0]);
    }
    part_ends_here(p, 2, a);
    part_ends_here(p, a + 1, b);
    if p[2] == '.' || p[2] == '?' {
        if server.len() == 1 {
            assert(server =~= seq![p[2]]);
        } else {
            assert(!slash(p[3]));
        }
    } else {
        assert(p[2] == server[0]);
    }
    assert(has_share(p));
    assert(share_end(p, 2, false) == b);
}

/// On Windows a device is no part of a name: alone it has none, and behind it the name is that of
/// the rest.
pub proof fn devices_are_no_names(device: Seq<char>, rest: Seq<char>)
    requires
        unbroken(PathStyle::Windows, device),
        rest.len() > 0 ==> !slash(rest[0]),
        !PathStyle::Windows.has_drive(rest),
    ensures
        file_name_of(PathStyle::Windows, seq!['\\', '\\', '.', '\\'] + device).len() == 0,
        file_name_of(
            PathStyle::Windows,
            seq!['\\', '\\', '.', '\\'] + device + seq!['\\'] + rest,
        ) == file_name_of(PathStyle::Windows, rest),
{
    let style = PathStyle::Windows;
    let root = seq!['\\', '\\', '.', '\\'] + device;
    let p = root + seq!['\\'] + rest;
    let n = root.len() as int;
    assert forall|k: int| 4 <= k < n implies !slash(#[trigger] root[k]) && p[k] == root[k] by {
        assert(root[k] == device[k - 4]);
        assert(!style.separates(device[k - 4]));
    }
    assert(root[0] == '\\' && root[1] == '\\' && root[2] == '.' && root[3] == '\\');
    assert(p[0] == '\\' && p[1] == '\\' && p[2] == '.' && p[3] == '\\' && p[n] == '\\');
    part_ends_here(root, 4, n);
    part_ends_here(p, 4, n);
    assert(root.skip(n).len() == 0);
    last_name_of_segment(style, root.skip(n));
    assert(p.skip(n) == seq!['\\'] + rest);
    rooted_name('\\', rest);
    no_prefix(rest);
    assert(rest.skip(0) == rest);
}

/// On Windows the prefix of a verbatim path with a drive is no part of a name.
pub proof fn verbatim_drives_are_no_names(letter: char, rest: Seq<char>)
    requires
        'a' <= letter <= 'z' || 'A' <= letter <= 'Z',
    ensures
        file_name_of(PathStyle::Windows, seq!['\\', '\\', '?', '\\', letter, ':']).len() == 0,
        file_name_of(
            PathStyle::Windows,
            seq!['\\', '\\', '?', '\\', letter, ':', '\\'] + rest,
        ) == verbatim_name(rest),
{
    let root = seq!['\\', '\\', '?', '\\', letter, ':'];
    let p = seq!['\\', '\\', '?', '\\', letter, ':', '\\'] + rest;
    assert(p[0] == '\\' && p[1] == '\\' && p[2] == '?' && p[3] == '\\' && p[4] == letter && p[5]
        == ':' && p[6] == '\\');
    assert(prefix_len(root) == 6);
    assert(root.skip(6).len() == 0);
    assert(prefix_len(p) == 6);
    assert(p.skip(7) == rest);
}

/// The name of what follows the prefix of a verbatim path is its last part between backslashes that
/// is not empty; there is none where that part is `.` or `..`.
pub proof fn verbatim_names_go_by_backslashes(path: Seq<char>, segment: Seq<char>)
    requires
        !segment.contains('\\'),
    ensures
        verbatim_name(path + seq!['\\'] + segment) == if segment.len() == 0 {
            verbatim_name(path)
        } else if segment == seq!['.'] || segment == seq!['.', '.'] {
            Seq::empty()
        } else {
            segment
        },
        verbatim_name(segment) == if segment == seq!['.'] || segment == seq!['.', '.'] {
            Seq::empty()
        } else {
            segment
        },
{
    let p = path + seq!['\\'] + segment;
    let at = path.len() as int;
    assert(p[at] == '\\');
    after_backslash_is_last(segment);
    let own = after_backslash(segment);
    if own > 0 {
        assert(segment.contains(segment[own - 1]));
    }
    assert(segment.skip(0) == segment);
    assert(seq!['.'].len() == 1 && seq!['.', '.'].len() == 2);
    if segment.len() == 0 {
        assert(segment != seq!['.'] && segment != seq!['.', '.']);
        assert(p.last() == '\\');
        assert(p.drop_last() == path);
    } else {
        assert(segment.contains(segment.last()));
        assert(p.last() == segment.last());
        after_backslash_is_last(p);
        let start = after_backslash(p);
        if start > at + 1 {
            assert(p[start - 1] == segment[start - at - 2]);
            assert(segment.contains(segment[start - at - 2]));
        }
        assert(start == at + 1);
        assert(p.skip(at + 1) == segment);
    }
}

/// On Windows one slash in front makes a path absolute and no difference to its name.
pub proof fn roots_are_no_names(separator: char, rest: Seq<char>)
    requires
        slash(separator),
        rest.len() > 0 ==> !slash(rest[0]),
        !PathStyle::Windows.has_drive(rest),
    ensures
        file_name_of(PathStyle::Windows, seq![separator] + rest) == file_name_of(
            PathStyle::Windows,
            rest,
        ),
{
    let p = seq![separator] + rest;
    assert(p[0] == separator);
    if p.len() > 1 {
        assert(p[1] == rest[0]);
    }
    assert(prefix_len(p) == 0 && !verbatim(p));
    assert(p.skip(0) == p);
    rooted_name(separator, rest);
    no_prefix(rest);
    assert(rest.skip(0) == rest);
}

/// In a verbatim path a part ends where the first backslash stands.
proof fn verbatim_part_ends_here(p: Seq<char>, from: int, to: int)
    requires
        0 <= from <= to <= p.len(),
        forall|k: int| from <= k < to ==> #[trigger] p[k] != '\\',
        to == p.len() || p[to] == '\\',
    ensures
        part_end(p, from, true) == to,
    decreases to - from,
{
    if from < to {
        assert(p[from] != '\\');
        verbatim_part_ends_here(p, from + 1, to);
    }
}

/// On Windows the prefix of a verbatim path with a server and a share is no part of a name.
pub proof fn verbatim_shares_are_no_names(server: Seq<char>, share: Seq<char>, rest: Seq<char>)
    requires
        !server.contains('\\'),
        !share.contains('\\'),
        share.len() > 0,
    ensures
        file_name_of(
            PathStyle::Windows,
            seq!['\\', '\\', '?', '\\', 'U', 'N', 'C', '\\'] + server + seq!['\\'] + share,
        ).len() == 0,
        file_name_of(
            PathStyle::Windows,
            seq!['\\', '\\', '?', '\\', 'U', 'N', 'C', '\\'] + server + seq!['\\'] + share + seq!['\\']
                + rest,
        ) == verbatim_name(rest),
{
    let root = seq!['\\', '\\', '?', '\\', 'U', 'N', 'C', '\\'] + server + seq!['\\'] + share;
    let p = root + seq!['\\'] + rest;
    let a = 8 + server.len() as int;
    let b = a + 1 + share.len();
    assert(root.len() == b);
    assert forall|k: int| 8 <= k < a implies #[trigger] root[k] != '\\' by {
        assert(root[k] == server[k - 8]);
        assert(server.contains(server[k - 8]));
    }
    assert forall|k: int| a + 1 <= k < b implies #[trigger] root[k] != '\\' by {
        assert(root[k] == share[k - a - 1]);
        assert(share.contains(share[k - a - 1]));
    }
    assert forall|k: int| 0 <= k < b implies #[trigger] p[k] == root[k] by {}
    assert(root[0] == '\\' && root[1] == '\\' && root[2] == '?' && root[3] == '\\' && root[4] == 'U'
        && root[5] == 'N' && root[6] == 'C' && root[7] == '\\' && root[a] == '\\');
    assert(p[0] == '\\' && p[1] == '\\' && p[2] == '?' && p[3] == '\\' && p[4] == 'U' && p[5] == 'N'
        && p[6] == 'C' && p[7] == '\\' && p[a] == '\\' && p[b] == '\\');
    verbatim_part_ends_here(root, 8, a);
    verbatim_part_ends_here(root, a + 1, b);
    verbatim_part_ends_here(p, 8, a);
    verbatim_part_ends_here(p, a + 1, b);
    assert(prefix_len(root) == b);
    assert(root.skip(b).len() == 0);
    assert(prefix_len(p) == b);
    assert(p.skip(b + 1) == rest);
}

/// On Windows the first part of any other verbatim path is no part of a name.
pub proof fn verbatim_parts_are_no_names(part: Seq<char>, rest: Seq<char>)
    requires
        !part.contains('\\'),
        !PathStyle::Windows.has_drive(part),
        part != seq!['U', 'N', 'C'],
        !(part.len() >= 4 && part[0] == 'U' && part[1] == 'N' && part[2] == 'C' && part[3] == '/'),
    ensures
        file_name_of(PathStyle::Windows, seq!['\\', '\\', '?', '\\'] + part).len() == 0,
        file_name_of(
            PathStyle::Windows,
            seq!['\\', '\\', '?', '\\'] + part + seq!['\\'] + rest,
        ) == verbatim_name(rest),
{
    let root = seq!['\\', '\\', '?', '\\'] + part;
    let p = root + seq!['\\'] + rest;
    let n = root.len() as int;
    assert forall|k: int| 4 <= k < n implies #[trigger] root[k] != '\\' && root[k] == part[k - 4] by {
        assert(root[k] == part[k - 4]);
        assert(part.contains(part[k - 4]));
    }
    assert forall|k: int| 0 <= k < n implies #[trigger] p[k] == root[k] by {}
    assert(root[0] == '\\' && root[1] == '\\' && root[2] == '?' && root[3] == '\\');
    assert(p[0] == '\\' && p[1] == '\\' && p[2] == '?' && p[3] == '\\' && p[n] == '\\');
    verbatim_part_ends_here(root, 4, n);
    verbatim_part_ends_here(p, 4, n);
    if p.len() >= 8 && p[4] == 'U' && p[5] == 'N' && p[6] == 'C' && slash(p[7]) {
        if part.len() >= 4 {
            assert(p[7] == part[3] && part.contains(part[3]));
        } else if part.len() == 3 {
            assert(part =~= seq!['U', 'N', 'C']);
        } else {
            assert(p[n] == '\\' && n < 7);
        }
        assert(false);
    }
    if part.len() >= 2 {
        assert(p[4] == part[0] && p[5] == part[1] && root[4] == part[0] && root[5] == part[1]);
    } else {
        assert(p[n] == '\\');
    }
    assert(prefix_len(root) == n);
    assert(root.skip(n).len() == 0);
    assert(prefix_len(p) == n);
    assert(p.skip(n + 1) == rest);
}

} // verus!
