//! Which folders are accepted, and what is said of those that are not.

use vstd::prelude::*;
use vstd::utf8::encode_utf8;
use crate::folders::accepted_exactly_if_valid;
use crate::folders::fault;
use crate::folders::first_fault;
use crate::folders::first_fault_is_first;
use crate::folders::normalized;
use crate::folders::normalized_all;
use crate::folders::validated;
use crate::messages::FileView;
use crate::paths::safe_path;
use crate::paths::PathStyle;
use crate::text::decimal;
use crate::text::with_forward_slashes;

verus! {

/// A folder is accepted exactly if it has no more than ten thousand files, each at a safe path of no
/// more than 1024 bytes that no other file has, and none longer than a stream may be, where
/// backslashes count as slashes.
pub proof fn folders_are_accepted_exactly(style: PathStyle, files: Seq<FileView>, max: u64)
    ensures
        validated(style, files, max) is Ok <==> {
            &&& files.len() <= 10_000
            &&& forall|i: int|
                0 <= i < files.len() ==> {
                    let path = with_forward_slashes((#[trigger] files[i]).path);
                    &&& encode_utf8(path).len() <= 1024
                    &&& safe_path(style, path)
                    &&& files[i].size <= max
                }
            &&& forall|i: int, j: int|
                0 <= i < j < files.len() ==> with_forward_slashes((#[trigger] files[i]).path)
                    != with_forward_slashes((#[trigger] files[j]).path)
        },
{
    first_fault_is_first(style, files, 0, max);
    if validated(style, files, max) is Ok {
        assert forall|i: int| 0 <= i < files.len() implies {
            let path = with_forward_slashes((#[trigger] files[i]).path);
            &&& encode_utf8(path).len() <= 1024
            &&& safe_path(style, path)
            &&& files[i].size <= max
        } by {
            assert(fault(style, files, i, max) is None);
        }
        assert forall|i: int, j: int| 0 <= i < j < files.len() implies with_forward_slashes(
            (#[trigger] files[i]).path,
        ) != with_forward_slashes((#[trigger] files[j]).path) by {
            assert(fault(style, files, j, max) is None);
            assert(normalized(files[i]).path == with_forward_slashes(files[i].path));
        }
    }
    if {
        &&& files.len() <= 10_000
        &&& forall|i: int|
            0 <= i < files.len() ==> {
                let path = with_forward_slashes((#[trigger] files[i]).path);
                &&& encode_utf8(path).len() <= 1024
                &&& safe_path(style, path)
                &&& files[i].size <= max
            }
        &&& forall|i: int, j: int|
            0 <= i < j < files.len() ==> with_forward_slashes((#[trigger] files[i]).path)
                != with_forward_slashes((#[trigger] files[j]).path)
    } {
        assert forall|k: int| 0 <= k < files.len() implies fault(style, files, k, max) is None by {
            let path = with_forward_slashes(files[k].path);
            assert(files[k].size <= max);
            assert forall|j: int| 0 <= j < k implies (#[trigger] normalized(files[j])).path != path by {
                assert(with_forward_slashes(files[j].path) != with_forward_slashes(files[k].path));
            }
        }
    }
}

/// What is kept of a folder that is accepted is every file in its place, with its length and its path
/// with forward slashes.
pub proof fn folders_are_kept_file_by_file(
    style: PathStyle,
    files: Seq<FileView>,
    max: u64,
    i: int,
)
    requires
        validated(style, files, max) is Ok,
    ensures
        validated(style, files, max)->Ok_0.len() == files.len(),
        0 <= i < files.len() ==> validated(style, files, max)->Ok_0[i].size == files[i].size
            && validated(style, files, max)->Ok_0[i].path == with_forward_slashes(files[i].path),
{
    accepted_exactly_if_valid(style, files, max);
    assert(validated(style, files, max)->Ok_0 == normalized_all(files));
}

/// The numbers in the complaints.
proof fn limits_in_words()
    ensures
        decimal(10_000) == "10000"@,
        decimal(1024) == "1024"@,
{
    reveal_strlit("10000");
    reveal_strlit("1024");
    reveal_with_fuel(decimal, 6);
    assert(decimal(10_000) =~= "10000"@);
    assert(decimal(1024) =~= "1024"@);
}

/// Faults are looked for in the order of the files: whatever follows, a file with a fault behind
/// files without one decides what is said.
proof fn first_fault_decides(style: PathStyle, files: Seq<FileView>, k: int, max: u64)
    requires
        files.len() <= 10_000,
        0 <= k < files.len(),
        validated(style, files.take(k), max) is Ok,
        fault(style, files, k, max) is Some,
    ensures
        validated(style, files, max) == Err::<Seq<FileView>, Seq<char>>(
            fault(style, files, k, max)->0,
        ),
{
    let some = files.take(k);
    first_fault_is_first(style, some, 0, max);
    assert forall|j: int| 0 <= j < k implies fault(style, files, j, max) is None by {
        assert(fault(style, some, j, max) is None);
        assert(some[j] == files[j]);
        assert forall|i: int| 0 <= i < j implies (#[trigger] normalized(files[i])).path
            != normalized(files[j]).path by {
            assert(some[i] == files[i]);
            assert(normalized(some[i]).path != normalized(some[j]).path);
        }
    }
    reaches_the_fault(style, files, 0, k, max);
}

proof fn reaches_the_fault(style: PathStyle, files: Seq<FileView>, from: int, k: int, max: u64)
    requires
        0 <= from <= k < files.len(),
        forall|j: int| from <= j < k ==> fault(style, files, j, max) is None,
        fault(style, files, k, max) is Some,
    ensures
        first_fault(style, files, from, max) == fault(style, files, k, max),
    decreases k - from,
{
    if from < k {
        assert(fault(style, files, from, max) is None);
        reaches_the_fault(style, files, from + 1, k, max);
    }
}

/// What is said of a folder that is not accepted: of more than ten thousand files, that they are too
/// many; else of the first file that makes a difference, the first that applies of a path that is
/// too long, a path that is not safe, a file that is too long, and a path that was there before. The
/// path is told as it would be kept.
pub proof fn each_fault_has_its_complaint(
    style: PathStyle,
    files: Seq<FileView>,
    k: int,
    max: u64,
)
    ensures
        files.len() > 10_000 ==> validated(style, files, max) == Err::<Seq<FileView>, Seq<char>>(
            "Too many registered files; limit is 10000"@,
        ),
        files.len() <= 10_000 && 0 <= k < files.len() && validated(style, files.take(k), max) is Ok
            ==> {
            let path = with_forward_slashes(files[k].path);
            let outcome = validated(style, files, max);
            let long = encode_utf8(path).len() > 1024;
            let safe = safe_path(style, path);
            let big = files[k].size > max;
            let again = exists|j: int|
                0 <= j < k && with_forward_slashes((#[trigger] files[j]).path) == path;
            &&& long ==> outcome == Err::<Seq<FileView>, Seq<char>>(
                "File path is too long; limit is 1024 bytes"@,
            )
            &&& !long && !safe ==> outcome == Err::<Seq<FileView>, Seq<char>>(
                "Invalid registered file path: "@ + path,
            )
            &&& !long && safe && big ==> outcome == Err::<Seq<FileView>, Seq<char>>(
                "Registered file exceeds the stream limit: "@ + path,
            )
            &&& !long && safe && !big && again ==> outcome == Err::<Seq<FileView>, Seq<char>>(
                "Duplicate registered file path: "@ + path,
            )
        },
{
    limits_in_words();
    reveal_strlit("Too many registered files; limit is ");
    reveal_strlit("Too many registered files; limit is 10000");
    reveal_strlit("10000");
    reveal_strlit("File path is too long; limit is ");
    reveal_strlit("File path is too long; limit is 1024 bytes");
    reveal_strlit("1024");
    reveal_strlit(" bytes");
    assert("Too many registered files; limit is "@ + "10000"@
        =~= "Too many registered files; limit is 10000"@);
    assert("File path is too long; limit is "@ + "1024"@ + " bytes"@
        =~= "File path is too long; limit is 1024 bytes"@);
    if files.len() <= 10_000 && 0 <= k < files.len() && validated(style, files.take(k), max) is Ok {
        let path = with_forward_slashes(files[k].path);
        if exists|j: int| 0 <= j < k && with_forward_slashes((#[trigger] files[j]).path) == path {
            let j = choose|j: int|
                0 <= j < k && with_forward_slashes((#[trigger] files[j]).path) == path;
            assert(normalized(files[j]).path == path);
        }
        if fault(style, files, k, max) is Some {
            first_fault_decides(style, files, k, max);
        }
    }
}

} // verus!
