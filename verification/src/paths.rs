//! Relative file paths: which ones may be shared, and what a path's last name is.
//!
//! A path is judged by the rules of one [`PathStyle`]. A segment of a path is a longest run of
//! characters without a separator; empty segments and the segment `.` stand for nothing, except
//! that a `.` at the very front names the current directory, and `..` leads to the parent.

use vstd::prelude::*;
use crate::prefixes::drive_at;
use crate::prefixes::find_prefix;
use crate::prefixes::find_verbatim_name;
use crate::prefixes::is_drive_at;
use crate::prefixes::is_verbatim;
use crate::prefixes::no_prefix;
use crate::prefixes::prefix_len;
use crate::prefixes::verbatim;
use crate::prefixes::verbatim_body;
use crate::prefixes::verbatim_name;
use crate::prefixes::verbatim_name_has_no_backslash;
use crate::text::from_chars;
use crate::text::to_chars;

verus! {

/// The two ways in which operating systems write paths.
#[derive(Clone, Copy, Debug, PartialEq, Eq, Structural)]
pub enum PathStyle {
    /// `/` separates, and a leading `/` makes a path absolute.
    Unix,
    /// `/` and `\` separate, and a path may begin with a drive such as `C:`.
    Windows,
}

/// `std::path::MAIN_SEPARATOR`: `/` on Unix, `\` on Windows. Which of the two it is depends on
/// the machine, so nothing more is claimed.
#[verifier::external_body]
fn main_separator() -> (c: char)
    ensures
        c == '/' || c == '\\',
{
    std::path::MAIN_SEPARATOR
}

impl PathStyle {
    /// The style of a machine whose paths are written with `separator`.
    pub fn of_separator(separator: char) -> (style: PathStyle)
        ensures
            style == if separator == '/' {
                PathStyle::Unix
            } else {
                PathStyle::Windows
            },
    {
        if separator == '/' {
            PathStyle::Unix
        } else {
            PathStyle::Windows
        }
    }

    /// The style of the machine that this runs on. Which one that is depends on the machine.
    pub fn host() -> PathStyle {
        PathStyle::of_separator(main_separator())
    }

    /// Whether `c` separates the segments of a path.
    pub open spec fn separates(self, c: char) -> bool {
        c == '/' || (self == PathStyle::Windows && c == '\\')
    }

    /// Decides [`PathStyle::separates`].
    pub fn is_separator(self, c: char) -> (yes: bool)
        ensures
            yes == self.separates(c),
    {
        c == '/' || (self == PathStyle::Windows && c == '\\')
    }

    /// Whether `p` begins with a drive letter and a colon.
    pub open spec fn has_drive(self, p: Seq<char>) -> bool {
        self == PathStyle::Windows && drive_at(p, 0)
    }
}

/// Whether the characters `i..j` of `p` are one segment.
pub open spec fn is_segment(style: PathStyle, p: Seq<char>, i: int, j: int) -> bool {
    &&& 0 <= i <= j <= p.len()
    &&& i == 0 || style.separates(p[i - 1])
    &&& j == p.len() || style.separates(p[j])
    &&& forall|k: int| i <= k < j ==> !style.separates(#[trigger] p[k])
}

/// Whether `p` is a relative path that never leads out of the folder that it starts from: it is
/// not empty, has neither root nor drive, its first segment is not `.`, and none is `..`.
pub open spec fn safe_path(style: PathStyle, p: Seq<char>) -> bool {
    &&& p.len() > 0
    &&& !style.separates(p[0])
    &&& !style.has_drive(p)
    &&& forall|i: int, j: int|
        #[trigger] is_segment(style, p, i, j) ==> {
            &&& p.subrange(i, j) != seq!['.', '.']
            &&& i == 0 ==> p.subrange(i, j) != seq!['.']
        }
}

/// The end of the segment that begins at `from`.
fn segment_end(style: PathStyle, chars: &Vec<char>, from: usize) -> (to: usize)
    requires
        from <= chars@.len(),
    ensures
        from <= to <= chars@.len(),
        to == chars@.len() || style.separates(chars@[to as int]),
        forall|k: int| from <= k < to ==> !style.separates(#[trigger] chars@[k]),
{
    let mut to: usize = from;
    while to < chars.len() && !style.is_separator(chars[to])
        invariant
            from <= to <= chars@.len(),
            forall|k: int| from <= k < to ==> !style.separates(#[trigger] chars@[k]),
        ensures
            from <= to <= chars@.len(),
            to == chars@.len() || style.separates(chars@[to as int]),
            forall|k: int| from <= k < to ==> !style.separates(#[trigger] chars@[k]),
        decreases chars@.len() - to,
    {
        to += 1;
    }
    to
}

/// Two segments that begin at the same place are one segment.
proof fn segments_do_not_nest(style: PathStyle, p: Seq<char>, i: int, j: int, k: int)
    requires
        is_segment(style, p, i, j),
        is_segment(style, p, i, k),
    ensures
        j == k,
{
    if j < k {
        assert(!style.separates(p[j]));
    }
    if k < j {
        assert(!style.separates(p[k]));
    }
}

impl PathStyle {
    /// Decides [`safe_path`] in this style.
    pub fn is_safe(self, file_path: &str) -> (safe: bool)
        ensures
            safe == safe_path(self, file_path@),
    {
        let chars = to_chars(file_path);
        let ghost p = file_path@;
        if chars.len() == 0 || self.is_separator(chars[0]) {
            return false;
        }
        if self == PathStyle::Windows && is_drive_at(&chars, 0) {
            return false;
        }
        let mut from: usize = 0;
        loop
            invariant
                chars@ == p,
                p == file_path@,
                p.len() > 0,
                !self.separates(p[0]),
                !self.has_drive(p),
                from <= p.len(),
                from == 0 || self.separates(p[from - 1]),
                forall|i: int, j: int|
                    i < from && #[trigger] is_segment(self, p, i, j) ==> {
                        &&& p.subrange(i, j) != seq!['.', '.']
                        &&& i == 0 ==> p.subrange(i, j) != seq!['.']
                    },
            decreases p.len() - from,
        {
            let to = segment_end(self, &chars, from);
            assert(is_segment(self, p, from as int, to as int));
            let ghost segment = p.subrange(from as int, to as int);
            if to - from == 2 && chars[from] == '.' && chars[from + 1] == '.' {
                assert(segment == seq!['.', '.']);
                return false;
            }
            if from == 0 && to == 1 && chars[0] == '.' {
                assert(segment == seq!['.']);
                return false;
            }
            assert forall|i: int, j: int|
                i < to + 1 && #[trigger] is_segment(self, p, i, j) implies {
                &&& p.subrange(i, j) != seq!['.', '.']
                &&& i == 0 ==> p.subrange(i, j) != seq!['.']
            } by {
                if i > from {
                    assert(!self.separates(p[i - 1]));
                } else if i == from {
                    segments_do_not_nest(self, p, i, j, to as int);
                    if segment == seq!['.', '.'] {
                        assert(segment.len() == 2 && segment[0] == '.' && segment[1] == '.');
                        assert(false);
                    }
                    if i == 0 && segment == seq!['.'] {
                        assert(segment.len() == 1 && segment[0] == '.');
                        assert(false);
                    }
                }
            }
            if to == chars.len() {
                return true;
            }
            from = to + 1;
        }
    }
}

/// Whether `file_path` is a safe relative path by the rules of the machine that this runs on.
pub fn is_safe_relative_path(file_path: &str) -> (safe: bool)
    ensures
        safe == safe_path(PathStyle::Unix, file_path@) || safe == safe_path(
            PathStyle::Windows,
            file_path@,
        ),
{
    PathStyle::host().is_safe(file_path)
}

/// Whatever is safe by the rules of Windows is safe by those of Unix.
pub proof fn windows_safe_is_unix_safe(p: Seq<char>)
    requires
        safe_path(PathStyle::Windows, p),
    ensures
        safe_path(PathStyle::Unix, p),
{
    let unix = PathStyle::Unix;
    let windows = PathStyle::Windows;
    assert forall|i: int, j: int| #[trigger] is_segment(unix, p, i, j) implies {
        &&& p.subrange(i, j) != seq!['.', '.']
        &&& i == 0 ==> p.subrange(i, j) != seq!['.']
    } by {
        let segment = p.subrange(i, j);
        if segment == seq!['.', '.'] {
            assert(segment.len() == 2 && segment[0] == '.' && segment[1] == '.');
            assert forall|k: int| i <= k < j implies !windows.separates(#[trigger] p[k]) by {
                assert(segment[k - i] == p[k]);
            }
            assert(is_segment(windows, p, i, j));
        }
        if i == 0 && segment == seq!['.'] {
            assert(segment.len() == 1 && segment[0] == '.');
            assert forall|k: int| i <= k < j implies !windows.separates(#[trigger] p[k]) by {
                assert(segment[k - i] == p[k]);
            }
            assert(is_segment(windows, p, i, j));
        }
    }
}

/// Where the last segment of `p` begins.
pub open spec fn last_start(style: PathStyle, p: Seq<char>) -> int
    decreases p.len(),
{
    if p.len() == 0 || style.separates(p.last()) {
        p.len() as int
    } else {
        last_start(style, p.drop_last())
    }
}

/// The last segment of `p` that stands for something, unless it is `..`; nothing if there is none.
pub open spec fn last_name(style: PathStyle, p: Seq<char>) -> Seq<char>
    decreases p.len(),
{
    let start = last_start(style, p);
    let segment = p.skip(start);
    if segment.len() == 0 || segment == seq!['.'] {
        if 0 < start <= p.len() {
            last_name(style, p.take(start - 1))
        } else {
            Seq::empty()
        }
    } else if segment == seq!['.', '.'] {
        Seq::empty()
    } else {
        segment
    }
}

/// The name of the file that `p` leads to; nothing where `p` names no file. What Windows takes for
/// a prefix is not part of the name.
pub open spec fn file_name_of(style: PathStyle, p: Seq<char>) -> Seq<char> {
    match style {
        PathStyle::Unix => last_name(style, p),
        PathStyle::Windows => if verbatim(p) {
            verbatim_name(verbatim_body(p))
        } else {
            last_name(style, p.skip(prefix_len(p)))
        },
    }
}

/// The last segment begins where [`last_start`] says, and holds no separator.
pub proof fn last_start_is_last(style: PathStyle, p: Seq<char>)
    ensures
        0 <= last_start(style, p) <= p.len(),
        is_segment(style, p, last_start(style, p), p.len() as int),
    decreases p.len(),
{
    if p.len() > 0 && !style.separates(p.last()) {
        let rest = p.drop_last();
        last_start_is_last(style, rest);
        let start = last_start(style, p);
        assert(start == 0 || rest[start - 1] == p[start - 1]);
        assert forall|k: int| start <= k < p.len() implies !style.separates(#[trigger] p[k]) by {
            if k < p.len() - 1 {
                assert(rest[k] == p[k]);
            }
        }
    }
}

impl PathStyle {
    /// The name of the file that `file_path` leads to; empty where it names no file.
    pub fn file_name(self, file_path: &str) -> (name: String)
        ensures
            name@ == file_name_of(self, file_path@),
    {
        let chars = to_chars(file_path);
        if self == PathStyle::Windows && is_verbatim(&chars) {
            return find_verbatim_name(&chars);
        }
        let base: usize = if self == PathStyle::Windows {
            find_prefix(&chars)
        } else {
            0
        };
        let ghost body = chars@.skip(base as int);
        assert(base == 0 ==> body == chars@);
        let mut to: usize = chars.len();
        assert(chars@.subrange(base as int, to as int) == body);
        loop
            invariant
                base <= to <= chars@.len(),
                last_name(self, chars@.subrange(base as int, to as int)) == file_name_of(
                    self,
                    file_path@,
                ),
            decreases to,
        {
            let ghost rest = chars@.subrange(base as int, to as int);
            proof {
                last_start_is_last(self, rest);
            }
            let mut from: usize = to;
            while from > base && !self.is_separator(chars[from - 1])
                invariant
                    base <= from <= to <= chars@.len(),
                    rest == chars@.subrange(base as int, to as int),
                    is_segment(self, rest, last_start(self, rest), rest.len() as int),
                    last_start(self, rest) <= from - base,
                ensures
                    base <= from <= to,
                    last_start(self, rest) <= from - base,
                    from == base || self.separates(chars@[from - 1]),
                decreases from,
            {
                assert(chars@[from - 1] == rest[from - 1 - base]);
                from -= 1;
            }
            assert(from - base == last_start(self, rest)) by {
                if from > base {
                    assert(chars@[from - 1] == rest[from - 1 - base]);
                }
            }
            let ghost segment = rest.skip(from - base);
            assert(segment == chars@.subrange(from as int, to as int));
            if from == to || (to - from == 1 && chars[from] == '.') {
                assert(segment.len() == 0 || segment == seq!['.']);
                if from == base {
                    return String::new();
                }
                to = from - 1;
                assert(rest.take(from - base - 1) == chars@.subrange(base as int, to as int));
            } else {
                assert(segment != seq!['.']) by {
                    if segment == seq!['.'] {
                        assert(segment.len() == 1 && segment[0] == '.');
                    }
                }
                if to - from == 2 && chars[from] == '.' && chars[from + 1] == '.' {
                    assert(segment == seq!['.', '.']);
                    return String::new();
                }
                assert(segment != seq!['.', '.']) by {
                    if segment == seq!['.', '.'] {
                        assert(segment.len() == 2 && segment[0] == '.' && segment[1] == '.');
                    }
                }
                return from_chars(&chars, from, to);
            }
        }
    }
}

/// Whether `name` is the name of one entry of a folder: neither empty, `.` nor `..`, and without a
/// separator or a drive.
pub open spec fn is_plain_name(style: PathStyle, name: Seq<char>) -> bool {
    &&& name.len() > 0
    &&& name != seq!['.']
    &&& name != seq!['.', '.']
    &&& !style.has_drive(name)
    &&& forall|k: int| 0 <= k < name.len() ==> !style.separates(#[trigger] name[k])
}

proof fn last_name_is_plain(style: PathStyle, p: Seq<char>)
    ensures
        last_name(style, p).len() == 0 || is_plain_name(style, last_name(style, p))
            || style.has_drive(last_name(style, p)),
    decreases p.len(),
{
    last_start_is_last(style, p);
    let start = last_start(style, p);
    let segment = p.skip(start);
    if segment.len() == 0 || segment == seq!['.'] {
        if 0 < start <= p.len() {
            last_name_is_plain(style, p.take(start - 1));
        }
    } else if segment != seq!['.', '.'] {
        assert forall|k: int| 0 <= k < segment.len() implies !style.separates(
            #[trigger] segment[k],
        ) by {
            assert(segment[k] == p[start + k]);
        }
    }
}

/// The file name of any path at all is empty or the name of one entry of a folder: a file saved
/// under it lands in the folder that it is saved in. Windows knows two exceptions, which are told
/// apart here: a name that looks like a drive, as in `a/C:b`, and a name with `/` at the end of a
/// verbatim path, as in `\\?\C:\a/b`.
pub proof fn file_name_is_plain(style: PathStyle, p: Seq<char>)
    ensures
        ({
            let name = file_name_of(style, p);
            ||| name.len() == 0
            ||| is_plain_name(style, name)
            ||| style.has_drive(name)
            ||| style == PathStyle::Windows && verbatim(p) && name.contains('/')
        }),
{
    if style == PathStyle::Unix {
        last_name_is_plain(style, p);
    } else if verbatim(p) {
        let name = file_name_of(style, p);
        verbatim_name_has_no_backslash(verbatim_body(p));
        if !name.contains('/') {
            assert forall|k: int| 0 <= k < name.len() implies !style.separates(#[trigger] name[k]) by {
                assert(name.contains(name[k]));
            }
        }
    } else {
        last_name_is_plain(style, p.skip(prefix_len(p)));
    }
}

proof fn last_name_of_safe(style: PathStyle, p: Seq<char>)
    requires
        p.len() > 0,
        !style.separates(p[0]),
        forall|i: int, j: int|
            #[trigger] is_segment(style, p, i, j) ==> {
                &&& p.subrange(i, j) != seq!['.', '.']
                &&& i == 0 ==> p.subrange(i, j) != seq!['.']
            },
    ensures
        last_name(style, p).len() > 0,
    decreases p.len(),
{
    last_start_is_last(style, p);
    let start = last_start(style, p);
    let segment = p.skip(start);
    assert(segment == p.subrange(start, p.len() as int));
    if segment.len() == 0 || segment == seq!['.'] {
        assert(start > 1);
        let rest = p.take(start - 1);
        assert forall|i: int, j: int| #[trigger] is_segment(style, rest, i, j) implies {
            &&& rest.subrange(i, j) != seq!['.', '.']
            &&& i == 0 ==> rest.subrange(i, j) != seq!['.']
        } by {
            assert forall|k: int| i <= k < j implies !style.separates(#[trigger] p[k]) by {
                assert(rest[k] == p[k]);
            }
            assert(is_segment(style, p, i, j));
            assert(rest.subrange(i, j) == p.subrange(i, j));
        }
        last_name_of_safe(style, rest);
    }
}

/// Where one segment leads from `at`: nowhere, to the parent, or to the entry of that name.
pub open spec fn entered(at: Seq<Seq<char>>, segment: Seq<char>) -> Seq<Seq<char>> {
    if segment.len() == 0 || segment == seq!['.'] {
        at
    } else if segment == seq!['.', '.'] {
        if at.len() > 0 {
            at.drop_last()
        } else {
            at
        }
    } else {
        at.push(segment)
    }
}

/// Where the relative path `p` leads from `folder`, segment by segment.
pub open spec fn leads_to(style: PathStyle, folder: Seq<Seq<char>>, p: Seq<char>) -> Seq<Seq<char>>
    decreases p.len(),
{
    let start = last_start(style, p);
    entered(
        if 0 < start <= p.len() {
            leads_to(style, folder, p.take(start - 1))
        } else {
            folder
        },
        p.skip(start),
    )
}

proof fn leads_inside(style: PathStyle, folder: Seq<Seq<char>>, p: Seq<char>)
    requires
        forall|i: int, j: int|
            #[trigger] is_segment(style, p, i, j) ==> p.subrange(i, j) != seq!['.', '.'],
    ensures
        folder.is_prefix_of(leads_to(style, folder, p)),
        last_name(style, p).len() > 0 ==> leads_to(style, folder, p).len() > folder.len() && leads_to(
            style,
            folder,
            p,
        ).last() == last_name(style, p),
    decreases p.len(),
{
    last_start_is_last(style, p);
    let start = last_start(style, p);
    let segment = p.skip(start);
    assert(segment == p.subrange(start, p.len() as int));
    if 0 < start {
        let rest = p.take(start - 1);
        assert forall|i: int, j: int| #[trigger] is_segment(style, rest, i, j) implies rest.subrange(
            i,
            j,
        ) != seq!['.', '.'] by {
            assert forall|k: int| i <= k < j implies !style.separates(#[trigger] p[k]) by {
                assert(rest[k] == p[k]);
            }
            assert(is_segment(style, p, i, j));
            assert(rest.subrange(i, j) == p.subrange(i, j));
        }
        leads_inside(style, folder, rest);
    }
}

/// A safe path leads to something below the folder that it starts from, whatever that folder is,
/// and what it leads to has the file name of the path.
pub proof fn safe_paths_stay_inside(style: PathStyle, folder: Seq<Seq<char>>, p: Seq<char>)
    requires
        safe_path(style, p),
    ensures
        folder.is_prefix_of(leads_to(style, folder, p)),
        leads_to(style, folder, p).len() > folder.len(),
        leads_to(style, folder, p).last() == file_name_of(style, p),
{
    leads_inside(style, folder, p);
    last_name_of_safe(style, p);
    name_without_prefix(style, p);
}

/// The name of a path without a prefix is its last name.
proof fn name_without_prefix(style: PathStyle, p: Seq<char>)
    requires
        p.len() > 0 ==> !style.separates(p[0]),
        !style.has_drive(p),
    ensures
        file_name_of(style, p) == last_name(style, p),
        style == PathStyle::Windows ==> !verbatim(p),
{
    if style == PathStyle::Windows {
        no_prefix(p);
        assert(p.skip(0) == p);
    }
}

/// A safe path always leads to a file with a name. It is the name of one entry of a folder, unless
/// it looks like a drive, as in `a/C:b` on Windows.
pub proof fn safe_path_has_a_name(style: PathStyle, p: Seq<char>)
    requires
        safe_path(style, p),
    ensures
        file_name_of(style, p).len() > 0,
        is_plain_name(style, file_name_of(style, p)) || style.has_drive(file_name_of(style, p)),
{
    last_name_of_safe(style, p);
    name_without_prefix(style, p);
    file_name_is_plain(style, p);
}

/// The name of one entry of a folder is a safe path by itself.
pub proof fn plain_name_is_safe(style: PathStyle, name: Seq<char>)
    requires
        is_plain_name(style, name),
    ensures
        safe_path(style, name),
        file_name_of(style, name) == name,
{
    assert forall|i: int, j: int| #[trigger] is_segment(style, name, i, j) implies i == 0 && j
        == name.len() by {
        if i > 0 {
            assert(!style.separates(name[i - 1]));
        }
        if j < name.len() {
            assert(!style.separates(name[j]));
        }
    }
    assert(name.subrange(0, name.len() as int) == name);
    last_start_is_last(style, name);
    assert(is_segment(style, name, last_start(style, name), name.len() as int));
    assert(name.skip(0) == name);
    name_without_prefix(style, name);
}

/// The bytes of the components of a resolved path, one after the other.
pub open spec fn components(path: Seq<Vec<u8>>) -> Seq<Seq<u8>> {
    path.map_values(|part: Vec<u8>| part@)
}

/// Compares two byte strings.
fn same_bytes(a: &Vec<u8>, b: &Vec<u8>) -> (same: bool)
    ensures
        same == (a@ == b@),
{
    if a.len() != b.len() {
        return false;
    }
    let mut i: usize = 0;
    while i < a.len()
        invariant
            a@.len() == b@.len(),
            i <= a@.len(),
            forall|j: int| 0 <= j < i ==> a@[j] == b@[j],
        decreases a@.len() - i,
    {
        if a[i] != b[i] {
            return false;
        }
        i += 1;
    }
    assert(a@ == b@);
    true
}

/// Whether the resolved path `path` is `folder` or lies below it. Both are given by their
/// components, with links and `..` already resolved.
pub fn is_inside(folder: &Vec<Vec<u8>>, path: &Vec<Vec<u8>>) -> (inside: bool)
    ensures
        inside == components(folder@).is_prefix_of(components(path@)),
        inside == (folder@.len() <= path@.len() && forall|i: int|
            0 <= i < folder@.len() ==> (#[trigger] folder@[i])@ == path@[i]@),
{
    if folder.len() > path.len() {
        return false;
    }
    let mut i: usize = 0;
    while i < folder.len()
        invariant
            i <= folder@.len() <= path@.len(),
            forall|j: int| 0 <= j < i ==> (#[trigger] folder@[j])@ == path@[j]@,
        decreases folder@.len() - i,
    {
        if !same_bytes(&folder[i], &path[i]) {
            assert(components(folder@)[i as int] != components(path@).subrange(
                0,
                folder@.len() as int,
            )[i as int]);
            return false;
        }
        i += 1;
    }
    assert(components(folder@) == components(path@).subrange(0, folder@.len() as int));
    true
}

} // verus!
