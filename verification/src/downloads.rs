//! Downloads: where a file comes from, why it cannot be had, and what the two sides are told.

use vstd::prelude::*;
use crate::messages::ServerMessage;
use crate::messages::ServerMessageView;
use crate::paths::file_name_of;
use crate::paths::PathStyle;
use crate::secrets::alphanumeric;
use crate::secrets::generate_secret;
use crate::secrets::is_uuid_v4;
use crate::secrets::new_uuid;
use crate::secrets::TOKEN_LEN;
use crate::text::join3;
use crate::text::same_ignoring_case;
use crate::text::use_forward_slashes;
use crate::text::with_forward_slashes;

verus! {

/// Why a file cannot be downloaded.
#[derive(Clone, Copy, Debug, PartialEq, Eq, Structural)]
pub enum DownloadRefusal {
    /// The path is not safe; the server was asked for it.
    InvalidServerPath,
    /// The path is not safe; a client was asked for it.
    InvalidTargetPath,
    /// The client is not connected.
    TargetUnavailable,
    /// The client has not said what it shares.
    NoFileList,
    /// The client does not share the file.
    NotRegistered,
}

impl DownloadRefusal {
    /// What the client that asked is told.
    pub open spec fn reply(self) -> Seq<char> {
        match self {
            DownloadRefusal::InvalidServerPath => "Invalid server file path"@,
            DownloadRefusal::InvalidTargetPath => "Invalid target file path"@,
            DownloadRefusal::TargetUnavailable => "Target is unavailable"@,
            DownloadRefusal::NoFileList => "Target has not registered a file list yet"@,
            DownloadRefusal::NotRegistered => "File is not registered by target"@,
        }
    }

    /// The words of [`DownloadRefusal::reply`].
    pub fn reply_text(self) -> (text: String)
        ensures
            text@ == self.reply(),
    {
        match self {
            DownloadRefusal::InvalidServerPath => "Invalid server file path".to_string(),
            DownloadRefusal::InvalidTargetPath => "Invalid target file path".to_string(),
            DownloadRefusal::TargetUnavailable => "Target is unavailable".to_string(),
            DownloadRefusal::NoFileList => "Target has not registered a file list yet".to_string(),
            DownloadRefusal::NotRegistered => "File is not registered by target".to_string(),
        }
    }

    /// What the console is told about a download of `path` from `target`.
    pub open spec fn warning(self, target: Seq<char>, path: Seq<char>) -> Seq<char> {
        match self {
            DownloadRefusal::InvalidServerPath => "Invalid server file path"@,
            DownloadRefusal::InvalidTargetPath => "Invalid target file path"@,
            DownloadRefusal::TargetUnavailable => client_not_found(target),
            DownloadRefusal::NoFileList => no_file_list(target),
            DownloadRefusal::NotRegistered => "Client "@ + target
                + " has not registered requested file: "@ + with_forward_slashes(path),
        }
    }

    /// The words of [`DownloadRefusal::warning`].
    pub fn warning_text(self, target: &str, path: &str) -> (text: String)
        ensures
            text@ == self.warning(target@, path@),
    {
        match self {
            DownloadRefusal::InvalidServerPath => "Invalid server file path".to_string(),
            DownloadRefusal::InvalidTargetPath => "Invalid target file path".to_string(),
            DownloadRefusal::TargetUnavailable => client_not_found_text(target),
            DownloadRefusal::NoFileList => no_file_list_text(target),
            DownloadRefusal::NotRegistered => join3(
                "Client ",
                target,
                " has not registered requested file: ",
            ).concat(use_forward_slashes(path).as_str()),
        }
    }
}

/// Tells that no client `target` is connected.
pub open spec fn client_not_found(target: Seq<char>) -> Seq<char> {
    "Client not found: "@ + target
}

/// The words of [`client_not_found`].
pub fn client_not_found_text(target: &str) -> (text: String)
    ensures
        text@ == client_not_found(target@),
{
    "Client not found: ".to_string().concat(target)
}

/// Tells that the client `target` has not said what it shares.
pub open spec fn no_file_list(target: Seq<char>) -> Seq<char> {
    "Client "@ + target + " has not registered a file list yet"@
}

/// The words of [`no_file_list`].
pub fn no_file_list_text(target: &str) -> (text: String)
    ensures
        text@ == no_file_list(target@),
{
    join3("Client ", target, " has not registered a file list yet")
}

/// Whether `target` means the server itself.
pub open spec fn names_server(target: Seq<char>) -> bool {
    same_ignoring_case(target, "server"@)
}

/// Where a download comes from.
pub enum DownloadSource {
    /// A file of the server's own folder.
    Server { file_path: String },
    /// A file that a client has registered.
    Client { target_client_id: String, file_path: String, size: u64 },
}

/// The view of a [`DownloadSource`].
#[verifier::ext_equal]
pub enum SourceView {
    Server { path: Seq<char> },
    Client { target: Seq<char>, path: Seq<char>, size: u64 },
}

impl View for DownloadSource {
    type V = SourceView;

    open spec fn view(&self) -> SourceView {
        match self {
            DownloadSource::Server { file_path } => SourceView::Server { path: file_path@ },
            DownloadSource::Client { target_client_id, file_path, size } => SourceView::Client {
                target: target_client_id@,
                path: file_path@,
                size: *size,
            },
        }
    }
}

impl SourceView {
    /// The path of the file.
    pub open spec fn path(self) -> Seq<char> {
        match self {
            SourceView::Server { path } => path,
            SourceView::Client { path, .. } => path,
        }
    }
}

impl DownloadSource {
    /// The path of the file.
    pub fn file_path(&self) -> (path: &str)
        ensures
            path@ == self@.path(),
    {
        match self {
            DownloadSource::Server { file_path } => file_path.as_str(),
            DownloadSource::Client { file_path, .. } => file_path.as_str(),
        }
    }
}

/// The view of a decision about a download.
pub open spec fn decision_view(decision: Result<DownloadSource, DownloadRefusal>) -> Result<
    SourceView,
    DownloadRefusal,
> {
    match decision {
        Ok(source) => Ok(source@),
        Err(refusal) => Err(refusal),
    }
}

/// What a stream is known by and opened with.
pub struct StreamKeys {
    pub stream_id: String,
    pub upload_token: String,
    pub download_token: String,
}

/// The view of a [`StreamKeys`].
#[verifier::ext_equal]
pub struct KeysView {
    pub stream_id: Seq<char>,
    pub upload_token: Seq<char>,
    pub download_token: Seq<char>,
}

/// Whether `token` has the form of a generated token.
pub open spec fn token_form(token: Seq<char>) -> bool {
    &&& token.len() == TOKEN_LEN
    &&& forall|i: int| 0 <= i < token.len() ==> alphanumeric(#[trigger] token[i])
}

impl KeysView {
    /// Whether the keys have the form of fresh ones.
    pub open spec fn well_formed(self) -> bool {
        &&& is_uuid_v4(self.stream_id)
        &&& token_form(self.upload_token)
        &&& token_form(self.download_token)
    }
}

impl View for StreamKeys {
    type V = KeysView;

    open spec fn view(&self) -> KeysView {
        KeysView {
            stream_id: self.stream_id@,
            upload_token: self.upload_token@,
            download_token: self.download_token@,
        }
    }
}

impl StreamKeys {
    /// Keys for a new stream, drawn at random.
    pub fn fresh() -> (keys: StreamKeys)
        ensures
            keys@.well_formed(),
    {
        StreamKeys {
            stream_id: new_uuid(),
            upload_token: generate_secret(TOKEN_LEN),
            download_token: generate_secret(TOKEN_LEN),
        }
    }
}

/// A download that has been prepared.
pub struct StartedDownload {
    /// The stream that the file goes through.
    pub stream_id: String,
    /// What whoever asked for the file is told.
    pub ready: ServerMessage,
    /// What whoever has the file is told.
    pub instruction: ServerMessage,
}

/// The view of a [`StartedDownload`].
#[verifier::ext_equal]
pub struct StartedView {
    pub stream_id: Seq<char>,
    pub ready: ServerMessageView,
    pub instruction: ServerMessageView,
}

impl View for StartedDownload {
    type V = StartedView;

    open spec fn view(&self) -> StartedView {
        StartedView {
            stream_id: self.stream_id@,
            ready: self.ready@,
            instruction: self.instruction@,
        }
    }
}

/// What the two sides of a download of `path` are told.
pub open spec fn started(style: PathStyle, path: Seq<char>, keys: KeysView) -> StartedView {
    StartedView {
        stream_id: keys.stream_id,
        ready: ServerMessageView::DownloadReady {
            stream_id: keys.stream_id,
            name: file_name_of(style, path),
            token: keys.download_token,
        },
        instruction: ServerMessageView::UploadInstruction {
            path,
            stream_id: keys.stream_id,
            token: keys.upload_token,
        },
    }
}

} // verus!
