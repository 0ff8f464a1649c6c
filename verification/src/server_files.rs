//! Files that are read from a shared folder: what is listed, and what may be handed out.
//!
//! What the file system says is given as plain values. A path that the file system has resolved
//! is given by its components, as for [`is_inside`]; it is missing where it could not be resolved.

use vstd::prelude::*;
use crate::messages::files_view;
use crate::messages::FileMetadata;
use crate::messages::FileView;
use crate::paths::components;
use crate::paths::is_inside;
use crate::paths::safe_path;
use crate::paths::PathStyle;
use crate::text::decimal;
use crate::text::join3;
use crate::text::to_decimal;
use crate::text::use_forward_slashes;
use crate::text::with_forward_slashes;

verus! {

/// Why a file of a shared folder is not handed out.
#[derive(Clone, Copy, Debug, PartialEq, Eq, Structural)]
pub enum FileRefusal {
    /// The path that was asked for is not safe.
    InvalidPath,
    /// The folder itself cannot be resolved.
    FolderUnavailable,
    /// The file cannot be resolved, or lies outside the folder.
    OutsideFolder,
    /// There is no such file.
    Missing,
    /// The file is longer than a stream may be.
    TooLarge { limit: u64 },
}

impl FileRefusal {
    /// What the client that asked is told.
    pub open spec fn reply(self) -> Seq<char> {
        match self {
            FileRefusal::InvalidPath => "Invalid server file path"@,
            FileRefusal::FolderUnavailable => "Server file folder is unavailable"@,
            FileRefusal::OutsideFolder => "Server file does not exist or is outside the folder"@,
            FileRefusal::Missing => "Server file does not exist"@,
            FileRefusal::TooLarge { limit } => "Server file is larger than the configured stream limit ("@
                + decimal(limit as nat) + " bytes)"@,
        }
    }

    /// The words of [`FileRefusal::reply`].
    pub fn reply_text(self) -> (text: String)
        ensures
            text@ == self.reply(),
    {
        match self {
            FileRefusal::InvalidPath => "Invalid server file path".to_string(),
            FileRefusal::FolderUnavailable => "Server file folder is unavailable".to_string(),
            FileRefusal::OutsideFolder => "Server file does not exist or is outside the folder".to_string(),
            FileRefusal::Missing => "Server file does not exist".to_string(),
            FileRefusal::TooLarge { limit } => join3(
                "Server file is larger than the configured stream limit (",
                to_decimal(limit).as_str(),
                " bytes)",
            ),
        }
    }
}

/// The components of a path that may be missing.
pub open spec fn resolved(path: Option<Vec<Vec<u8>>>) -> Option<Seq<Seq<u8>>> {
    match path {
        Some(parts) => Some(components(parts@)),
        None => None,
    }
}

/// Why the place of a file forbids to hand it out, if it does.
pub open spec fn place_refusal(folder: Option<Seq<Seq<u8>>>, file: Option<Seq<Seq<u8>>>) -> Option<
    FileRefusal,
> {
    match (folder, file) {
        (None, _) => Some(FileRefusal::FolderUnavailable),
        (Some(root), Some(path)) if root.is_prefix_of(path) => None,
        _ => Some(FileRefusal::OutsideFolder),
    }
}

/// Decides whether a file lies where it may be handed out.
pub fn check_place(folder: &Option<Vec<Vec<u8>>>, file: &Option<Vec<Vec<u8>>>) -> (refusal: Option<
    FileRefusal,
>)
    ensures
        refusal == place_refusal(resolved(*folder), resolved(*file)),
{
    match folder {
        None => Some(FileRefusal::FolderUnavailable),
        Some(root) => match file {
            None => Some(FileRefusal::OutsideFolder),
            Some(path) => if is_inside(root, path) {
                None
            } else {
                Some(FileRefusal::OutsideFolder)
            },
        },
    }
}

/// The length of a file that may be handed out, or why it may not be. `size` is missing where there
/// is no such file.
pub open spec fn admitted_size(size: Option<u64>, max: u64) -> Result<u64, FileRefusal> {
    match size {
        None => Err(FileRefusal::Missing),
        Some(len) if len > max => Err(FileRefusal::TooLarge { limit: max }),
        Some(len) => Ok(len),
    }
}

/// Decides whether a file is short enough to be handed out.
pub fn check_size(size: Option<u64>, max_stream_bytes: u64) -> (decision: Result<u64, FileRefusal>)
    ensures
        decision == admitted_size(size, max_stream_bytes),
{
    match size {
        None => Err(FileRefusal::Missing),
        Some(len) => if len > max_stream_bytes {
            Err(FileRefusal::TooLarge { limit: max_stream_bytes })
        } else {
            Ok(len)
        },
    }
}

/// The length of the file at `path` that is handed out, or why it is not: first because of its
/// path, then because of where it lies, then because of its length.
pub open spec fn served_size(
    style: PathStyle,
    path: Seq<char>,
    folder: Option<Seq<Seq<u8>>>,
    file: Option<Seq<Seq<u8>>>,
    size: Option<u64>,
    max: u64,
) -> Result<u64, FileRefusal> {
    if !safe_path(style, path) {
        Err(FileRefusal::InvalidPath)
    } else {
        match place_refusal(folder, file) {
            Some(refusal) => Err(refusal),
            None => admitted_size(size, max),
        }
    }
}

/// A file is handed out exactly if its path is safe, it lies in the folder, exists and is no longer
/// than a stream may be.
pub proof fn only_files_inside_are_served(
    style: PathStyle,
    path: Seq<char>,
    folder: Option<Seq<Seq<u8>>>,
    file: Option<Seq<Seq<u8>>>,
    size: Option<u64>,
    max: u64,
)
    ensures
        served_size(style, path, folder, file, size, max) is Ok <==> safe_path(style, path)
            && folder is Some && file is Some && folder->0.is_prefix_of(file->0) && size is Some
            && size->0 <= max,
        served_size(style, path, folder, file, size, max) matches Ok(len) ==> Some(len) == size,
{
}

/// One step of a walk through a folder.
pub enum WalkedEntry {
    /// An entry that could not be reached; it is passed over.
    Unreachable,
    /// An entry that is no file, such as a folder.
    NotAFile,
    /// A file, by its path below the folder and its length.
    File { path: String, size: u64 },
    /// A file that could not be looked at, and why.
    Unreadable { error: String },
}

/// The view of a [`WalkedEntry`].
#[verifier::ext_equal]
pub enum EntryView {
    Unreachable,
    NotAFile,
    File { path: Seq<char>, size: u64 },
    Unreadable { error: Seq<char> },
}

impl View for WalkedEntry {
    type V = EntryView;

    open spec fn view(&self) -> EntryView {
        match self {
            WalkedEntry::Unreachable => EntryView::Unreachable,
            WalkedEntry::NotAFile => EntryView::NotAFile,
            WalkedEntry::File { path, size } => EntryView::File { path: path@, size: *size },
            WalkedEntry::Unreadable { error } => EntryView::Unreadable { error: error@ },
        }
    }
}

/// The view of a walk.
pub open spec fn walk_view(walk: Seq<WalkedEntry>) -> Seq<EntryView> {
    walk.map_values(|entry: WalkedEntry| entry@)
}

/// What a walk finds: the files in the order of the walk, each under its path with forward slashes;
/// or the first error.
pub open spec fn found(walk: Seq<EntryView>) -> Result<Seq<FileView>, Seq<char>>
    decreases walk.len(),
{
    if walk.len() == 0 {
        Ok(Seq::empty())
    } else {
        match (found(walk.drop_last()), walk.last()) {
            (Err(error), _) => Err(error),
            (Ok(files), EntryView::File { path, size }) => Ok(
                files.push(FileView { path: with_forward_slashes(path), size }),
            ),
            (Ok(_), EntryView::Unreadable { error }) => Err(error),
            (Ok(files), _) => Ok(files),
        }
    }
}

/// The view of a listing.
pub open spec fn found_view(outcome: Result<Vec<FileMetadata>, String>) -> Result<
    Seq<FileView>,
    Seq<char>,
> {
    match outcome {
        Ok(files) => Ok(files_view(files@)),
        Err(error) => Err(error@),
    }
}

/// An error anywhere in a walk makes what it finds an error.
proof fn error_stays(walk: Seq<EntryView>, n: int)
    requires
        0 <= n <= walk.len(),
        found(walk.take(n)) is Err,
    ensures
        found(walk) == found(walk.take(n)),
    decreases walk.len() - n,
{
    if n == walk.len() {
        assert(walk.take(n) == walk);
    } else {
        assert(walk.take(n + 1).drop_last() == walk.take(n));
        error_stays(walk, n + 1);
    }
}

/// Lists the files that a walk through a folder has come upon.
pub fn collect_files(walk: Vec<WalkedEntry>) -> (outcome: Result<Vec<FileMetadata>, String>)
    ensures
        found_view(outcome) == found(walk_view(walk@)),
{
    let ghost entries = walk_view(walk@);
    let mut files: Vec<FileMetadata> = Vec::new();
    assert(files_view(files@) == Seq::<FileView>::empty());
    let mut i: usize = 0;
    while i < walk.len()
        invariant
            i <= walk@.len(),
            entries == walk_view(walk@),
            found(entries.take(i as int)) == Ok::<Seq<FileView>, Seq<char>>(files_view(files@)),
        decreases walk@.len() - i,
    {
        let ghost before = files_view(files@);
        assert(entries.take(i + 1).drop_last() == entries.take(i as int));
        assert(entries.take(i + 1).last() == walk@[i as int]@);
        match &walk[i] {
            WalkedEntry::Unreachable => {},
            WalkedEntry::NotAFile => {},
            WalkedEntry::File { path, size } => {
                files.push(FileMetadata { path: use_forward_slashes(path.as_str()), size: *size });
                assert(files_view(files@) == before.push(files@.last()@));
            },
            WalkedEntry::Unreadable { error } => {
                proof {
                    error_stays(entries, i + 1);
                }
                return Err(error.clone());
            },
        }
        i += 1;
    }
    assert(entries.take(i as int) == entries);
    Ok(files)
}

/// Whether `entry` is the file that is listed as `file`.
pub open spec fn is_listed_as(entry: EntryView, file: FileView) -> bool {
    match entry {
        EntryView::File { path, size } => file == (FileView {
            path: with_forward_slashes(path),
            size,
        }),
        _ => false,
    }
}

/// A walk without errors lists exactly the files that it has come upon.
pub proof fn listed_exactly_if_walked(walk: Seq<EntryView>, file: FileView)
    requires
        found(walk) is Ok,
    ensures
        found(walk)->Ok_0.contains(file) <==> exists|i: int|
            0 <= i < walk.len() && is_listed_as(#[trigger] walk[i], file),
    decreases walk.len(),
{
    if walk.len() > 0 {
        let rest = walk.drop_last();
        listed_exactly_if_walked(rest, file);
        let before = found(rest)->Ok_0;
        let all = found(walk)->Ok_0;
        if before.contains(file) {
            let i = choose|i: int| 0 <= i < rest.len() && is_listed_as(#[trigger] rest[i], file);
            assert(walk[i] == rest[i]);
            let k = choose|k: int| 0 <= k < before.len() && before[k] == file;
            assert(all[k] == file);
        } else {
            assert forall|i: int| 0 <= i < rest.len() implies !is_listed_as(
                #[trigger] walk[i],
                file,
            ) by {
                assert(rest[i] == walk[i]);
            }
            if all.contains(file) {
                let k = choose|k: int| 0 <= k < all.len() && all[k] == file;
                assert(k == before.len()) by {
                    if k < before.len() {
                        assert(before[k] == file);
                    }
                }
                assert(is_listed_as(walk[walk.len() - 1], file));
            }
            if is_listed_as(walk.last(), file) {
                assert(all.last() == file);
            }
        }
    }
}

} // verus!
