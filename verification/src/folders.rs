//! Shared folders: which lists of files a client may register, and looking a file up.

use vstd::prelude::*;
use vstd::hash_set::StringHashSet;
use vstd::utf8::encode_utf8;
use crate::messages::FileMetadata;
use crate::messages::FileView;
use crate::messages::SharedFolder;
use crate::paths::PathStyle;
use crate::text::same_text;
use crate::text::to_decimal;
use crate::text::use_forward_slashes;

verus! {

/// The number of files that a client may register.
pub const DEFAULT_MAX_REGISTERED_FILES: usize = 10_000;

/// The number of bytes that the path of a registered file may have.
pub const DEFAULT_MAX_FILE_PATH_BYTES: usize = 1024;

/// A file under its path with forward slashes.
pub open spec fn normalized(file: FileView) -> FileView {
    FileView { path: crate::text::with_forward_slashes(file.path), size: file.size }
}

/// A list of files, each under its path with forward slashes.
pub open spec fn normalized_all(files: Seq<FileView>) -> Seq<FileView> {
    files.map_values(|file: FileView| normalized(file))
}

/// The complaint about the number of files.
pub open spec fn too_many_files() -> Seq<char> {
    "Too many registered files; limit is "@ + crate::text::decimal(
        DEFAULT_MAX_REGISTERED_FILES as nat,
    )
}

/// The complaint about the length of a path.
pub open spec fn path_too_long() -> Seq<char> {
    "File path is too long; limit is "@ + crate::text::decimal(DEFAULT_MAX_FILE_PATH_BYTES as nat)
        + " bytes"@
}

/// What is wrong with the file at position `i`, if anything: the first of these that applies.
/// `max` is the length that a file may have.
pub open spec fn fault(style: PathStyle, files: Seq<FileView>, i: int, max: u64) -> Option<
    Seq<char>,
> {
    let path = normalized(files[i]).path;
    if encode_utf8(path).len() > DEFAULT_MAX_FILE_PATH_BYTES {
        Some(path_too_long())
    } else if !crate::paths::safe_path(style, path) {
        Some("Invalid registered file path: "@ + path)
    } else if files[i].size > max {
        Some("Registered file exceeds the stream limit: "@ + path)
    } else if exists|j: int| 0 <= j < i && (#[trigger] normalized(files[j])).path == path {
        Some("Duplicate registered file path: "@ + path)
    } else {
        None
    }
}

/// What is wrong with the first faulty file from position `i` on.
pub open spec fn first_fault(style: PathStyle, files: Seq<FileView>, i: int, max: u64) -> Option<
    Seq<char>,
>
    decreases files.len() - i,
{
    if i >= files.len() {
        None
    } else if fault(style, files, i, max) is Some {
        fault(style, files, i, max)
    } else {
        first_fault(style, files, i + 1, max)
    }
}

/// What comes of registering `files`: the list as it is kept, or the complaint.
pub open spec fn validated(style: PathStyle, files: Seq<FileView>, max: u64) -> Result<
    Seq<FileView>,
    Seq<char>,
> {
    if files.len() > DEFAULT_MAX_REGISTERED_FILES {
        Err(too_many_files())
    } else {
        match first_fault(style, files, 0, max) {
            Some(complaint) => Err(complaint),
            None => Ok(normalized_all(files)),
        }
    }
}

/// The view of what validation returns.
pub open spec fn outcome_view(outcome: Result<SharedFolder, String>) -> Result<
    Seq<FileView>,
    Seq<char>,
> {
    match outcome {
        Ok(folder) => Ok(folder@),
        Err(complaint) => Err(complaint@),
    }
}

/// Checks a folder that a client wants to register, its paths taken in the given style, and turns
/// their backslashes into forward slashes.
pub fn validate_folder(style: PathStyle, folder: SharedFolder, max_stream_bytes: u64) -> (outcome:
    Result<SharedFolder, String>)
    ensures
        outcome_view(outcome) == validated(style, folder@, max_stream_bytes),
{
    let ghost files = folder@;
    let count: usize = folder.files.len();
    if count > DEFAULT_MAX_REGISTERED_FILES {
        return Err(
            "Too many registered files; limit is ".to_string().concat(
                to_decimal(DEFAULT_MAX_REGISTERED_FILES as u64).as_str(),
            ),
        );
    }
    let mut seen_paths = StringHashSet::new();
    let mut kept: Vec<FileMetadata> = Vec::new();
    let mut i: usize = 0;
    while i < count
        invariant
            files == folder@,
            count == files.len() <= DEFAULT_MAX_REGISTERED_FILES,
            i <= count,
            kept@.len() == i,
            forall|j: int| 0 <= j < i ==> (#[trigger] kept@[j])@ == normalized(files[j]),
            forall|path: Seq<char>| #[trigger]
                seen_paths@.contains(path) <==> exists|j: int|
                    0 <= j < i && (#[trigger] normalized(files[j])).path == path,
            first_fault(style, files, 0, max_stream_bytes) == first_fault(
                style,
                files,
                i as int,
                max_stream_bytes,
            ),
        decreases count - i,
    {
        let file = &folder.files[i];
        assert(file@ == files[i as int]);
        let path = use_forward_slashes(file.path.as_str());
        assert(path@ == normalized(files[i as int]).path);
        if path.as_str().as_bytes().len() > DEFAULT_MAX_FILE_PATH_BYTES {
            return Err(
                "File path is too long; limit is ".to_string().concat(
                    to_decimal(DEFAULT_MAX_FILE_PATH_BYTES as u64).as_str(),
                ).concat(" bytes"),
            );
        }
        if !style.is_safe(path.as_str()) {
            return Err("Invalid registered file path: ".to_string().concat(path.as_str()));
        }
        if file.size > max_stream_bytes {
            return Err(
                "Registered file exceeds the stream limit: ".to_string().concat(path.as_str()),
            );
        }
        let ghost seen_before = seen_paths@;
        if !seen_paths.insert(path.clone()) {
            return Err("Duplicate registered file path: ".to_string().concat(path.as_str()));
        }
        kept.push(FileMetadata { path, size: file.size });
        assert(kept@[i as int]@ == normalized(files[i as int]));
        i += 1;
        assert forall|p: Seq<char>| #[trigger] seen_paths@.contains(p) <==> exists|j: int|
            0 <= j < i && (#[trigger] normalized(files[j])).path == p by {
            if seen_before.contains(p) {
                let j = choose|j: int|
                    0 <= j < i - 1 && (#[trigger] normalized(files[j])).path == p;
                assert(0 <= j < i && normalized(files[j]).path == p);
            }
            if p == path@ {
                assert(normalized(files[i - 1]).path == p);
            }
        }
    }
    let accepted = SharedFolder { files: kept };
    assert(accepted@ == normalized_all(files));
    Ok(accepted)
}

/// Checks a folder that a client wants to register by the rules of the machine that this runs on.
pub fn validate_shared_folder(folder: SharedFolder, max_stream_bytes: u64) -> (outcome: Result<
    SharedFolder,
    String,
>)
    ensures
        outcome_view(outcome) == validated(PathStyle::Unix, folder@, max_stream_bytes)
            || outcome_view(outcome) == validated(PathStyle::Windows, folder@, max_stream_bytes),
{
    validate_folder(PathStyle::host(), folder, max_stream_bytes)
}

/// Whether a list of files is one that the relay keeps: not too long, and every path short, safe,
/// written with forward slashes and there only once, and every file short enough to be streamed.
pub open spec fn valid_files(style: PathStyle, files: Seq<FileView>, max: u64) -> bool {
    &&& files.len() <= DEFAULT_MAX_REGISTERED_FILES
    &&& forall|i: int|
        0 <= i < files.len() ==> {
            let file = #[trigger] files[i];
            &&& encode_utf8(file.path).len() <= DEFAULT_MAX_FILE_PATH_BYTES
            &&& !file.path.contains('\\')
            &&& crate::paths::safe_path(style, file.path)
            &&& file.size <= max
        }
    &&& forall|i: int, j: int|
        0 <= i < j < files.len() ==> (#[trigger] files[i]).path != (#[trigger] files[j]).path
}

/// No fault is found from `i` on exactly when no file from `i` on has one.
pub proof fn first_fault_is_first(style: PathStyle, files: Seq<FileView>, i: int, max: u64)
    requires
        0 <= i <= files.len(),
    ensures
        first_fault(style, files, i, max) is None <==> forall|k: int|
            i <= k < files.len() ==> fault(style, files, k, max) is None,
        first_fault(style, files, i, max) is Some ==> exists|k: int|
            i <= k < files.len() && #[trigger] fault(style, files, k, max) == first_fault(
                style,
                files,
                i,
                max,
            ) && forall|j: int| i <= j < k ==> fault(style, files, j, max) is None,
    decreases files.len() - i,
{
    if i < files.len() {
        if fault(style, files, i, max) is None {
            first_fault_is_first(style, files, i + 1, max);
        }
    }
}

/// A path with its backslashes replaced holds none.
proof fn normalized_path_has_no_backslash(path: Seq<char>)
    ensures
        !crate::text::with_forward_slashes(path).contains('\\'),
{
}

/// A folder is refused with a complaint about the first file that has a fault, or about the number
/// of files.
pub proof fn complaint_is_about_the_first_fault(style: PathStyle, files: Seq<FileView>, max: u64)
    ensures
        match validated(style, files, max) {
            Ok(kept) => files.len() <= DEFAULT_MAX_REGISTERED_FILES && kept == normalized_all(files)
                && forall|k: int| 0 <= k < files.len() ==> fault(style, files, k, max) is None,
            Err(complaint) => {
                ||| files.len() > DEFAULT_MAX_REGISTERED_FILES && complaint == too_many_files()
                ||| files.len() <= DEFAULT_MAX_REGISTERED_FILES && exists|k: int|
                    0 <= k < files.len() && #[trigger] fault(style, files, k, max) == Some(complaint)
                        && forall|j: int| 0 <= j < k ==> fault(style, files, j, max) is None
            },
        },
{
    first_fault_is_first(style, files, 0, max);
}

/// A folder is accepted exactly when, its paths written with forward slashes, it is one that the
/// relay keeps; and that is then what is kept.
pub proof fn accepted_exactly_if_valid(style: PathStyle, files: Seq<FileView>, max: u64)
    ensures
        validated(style, files, max) is Ok <==> valid_files(style, normalized_all(files), max),
        validated(style, files, max) matches Ok(kept) ==> kept == normalized_all(files),
{
    let kept = normalized_all(files);
    first_fault_is_first(style, files, 0, max);
    if validated(style, files, max) is Ok {
        assert forall|i: int| 0 <= i < kept.len() implies {
            let file = #[trigger] kept[i];
            &&& encode_utf8(file.path).len() <= DEFAULT_MAX_FILE_PATH_BYTES
            &&& !file.path.contains('\\')
            &&& crate::paths::safe_path(style, file.path)
            &&& file.size <= max
        } by {
            assert(fault(style, files, i, max) is None);
            normalized_path_has_no_backslash(files[i].path);
        }
        assert forall|i: int, j: int| 0 <= i < j < kept.len() implies (#[trigger] kept[i]).path != (
        #[trigger] kept[j]).path by {
            assert(fault(style, files, j, max) is None);
            assert(normalized(files[i]).path == kept[i].path);
        }
    }
    if valid_files(style, kept, max) {
        assert forall|k: int| 0 <= k < files.len() implies fault(style, files, k, max) is None by {
            assert(kept[k] == normalized(files[k]));
            assert forall|j: int| 0 <= j < k implies (#[trigger] normalized(files[j])).path
                != normalized(files[k]).path by {
                assert(kept[j] == normalized(files[j]));
            }
        }
    }
}

/// What was kept once is accepted again as it is.
pub proof fn kept_folders_are_kept_as_they_are(style: PathStyle, files: Seq<FileView>, max: u64)
    requires
        valid_files(style, files, max),
    ensures
        validated(style, files, max) == Ok::<Seq<FileView>, Seq<char>>(files),
{
    let again = normalized_all(files);
    assert forall|i: int| 0 <= i < files.len() implies #[trigger] again[i] == files[i] by {
        let path = files[i].path;
        assert forall|k: int| 0 <= k < path.len() implies path[k] != '\\' by {
            assert(path.contains(path[k]));
        }
        assert(crate::text::with_forward_slashes(path) == path);
    }
    assert(again == files);
    accepted_exactly_if_valid(style, files, max);
}

/// The first file under `path`.
pub open spec fn find_file(files: Seq<FileView>, path: Seq<char>) -> Option<FileView>
    decreases files.len(),
{
    if files.len() == 0 {
        None
    } else if files.first().path == path {
        Some(files.first())
    } else {
        find_file(files.drop_first(), path)
    }
}

/// The view of a file that may be missing.
pub open spec fn file_view(file: Option<FileMetadata>) -> Option<FileView> {
    match file {
        Some(f) => Some(f@),
        None => None,
    }
}

/// The file that is registered under `file_path`.
pub fn find_registered_file(folder: &SharedFolder, file_path: &str) -> (found: Option<FileMetadata>)
    ensures
        file_view(found) == find_file(folder@, file_path@),
{
    let mut i: usize = 0;
    assert(folder@.skip(0) == folder@);
    while i < folder.files.len()
        invariant
            i <= folder.files@.len(),
            find_file(folder@, file_path@) == find_file(folder@.skip(i as int), file_path@),
        decreases folder.files@.len() - i,
    {
        let ghost rest = folder@.skip(i as int);
        assert(rest.first() == folder.files@[i as int]@);
        assert(rest.drop_first() == folder@.skip(i + 1));
        if same_text(folder.files[i].path.as_str(), file_path) {
            return Some(folder.files[i].clone());
        }
        i += 1;
    }
    None
}

/// A file is found exactly when one is listed under the path, and it is one of those listed.
pub proof fn found_exactly_if_listed(files: Seq<FileView>, path: Seq<char>)
    ensures
        find_file(files, path) is Some <==> exists|i: int|
            0 <= i < files.len() && (#[trigger] files[i]).path == path,
        find_file(files, path) matches Some(file) ==> file.path == path && files.contains(file),
    decreases files.len(),
{
    if files.len() > 0 {
        let rest = files.drop_first();
        found_exactly_if_listed(rest, path);
        if files.first().path != path {
            if find_file(rest, path) is Some {
                let file = find_file(rest, path).unwrap();
                let i = choose|i: int| 0 <= i < rest.len() && rest[i] == file;
                assert(files[i + 1] == file);
            }
            assert forall|i: int| 0 <= i < files.len() && (#[trigger] files[i]).path
                == path implies find_file(rest, path) is Some by {
                assert(rest[i - 1] == files[i]);
            }
        } else {
            assert(files[0].path == path);
        }
    }
}

} // verus!
