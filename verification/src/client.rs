//! The client's side: how it finds the server and what it does about what the server says.

use vstd::prelude::*;
use crate::messages::ServerMessage;
use crate::messages::ServerMessageView;
use crate::paths::file_name_is_plain;
use crate::paths::file_name_of;
use crate::paths::is_plain_name;
use crate::paths::safe_path;
use crate::paths::PathStyle;
use crate::prefixes::verbatim;
use crate::reports::lines_view;
use crate::reports::listing;
use crate::reports::print_files;
use crate::reports::print_targets;
use crate::reports::targets_listing;
use crate::text::is_empty;
use crate::text::join3;
use crate::text::optional_view;
use crate::text::trim;
use crate::text::trimmed;

verus! {

/// The folder that a client shares unless it is told otherwise.
pub const DEFAULT_SHARED_DIR: &'static str = "./shared_files";

/// The server that a client connects to unless it is told otherwise.
pub const DEFAULT_SERVER_URL: &'static str = "127.0.0.1:5000";

/// The folder that a client saves files in.
pub const DOWNLOADS_DIR: &'static str = "./downloads";

/// The token of a client: the configured one as it is, or else the one in its token file without
/// the white space around it.
pub open spec fn client_token_of(configured: Option<Seq<char>>, file: Option<Seq<char>>) -> Seq<char> {
    match (configured, file) {
        (Some(token), _) => token,
        (None, Some(text)) => trimmed(text),
        (None, None) => Seq::empty(),
    }
}

/// Chooses the token of a client.
pub fn client_token(configured: Option<&str>, file: Option<&str>) -> (choice: Result<String, String>)
    requires
        configured is Some || file is Some,
    ensures
        match choice {
            Ok(token) => token@.len() > 0 && token@ == client_token_of(
                optional_view(configured),
                optional_view(file),
            ),
            Err(text) => text@ == "Token cannot be empty"@ && client_token_of(
                optional_view(configured),
                optional_view(file),
            ).len() == 0,
        },
{
    let token = match configured {
        Some(token) => token.to_string(),
        None => match file {
            Some(text) => trim(text),
            None => String::new(),
        },
    };
    if is_empty(token.as_str()) {
        return Err("Token cannot be empty".to_string());
    }
    Ok(token)
}

/// Where the socket of the server `server_url` is.
pub fn ws_url(server_url: &str) -> (url: String)
    ensures
        url@ == "ws://"@ + server_url@ + "/ws"@,
{
    join3("ws://", server_url, "/ws")
}

/// Where the stream `stream_id` of the server `server_url` is.
pub fn stream_url(server_url: &str, stream_id: &str) -> (url: String)
    ensures
        url@ == "http://"@ + server_url@ + "/stream/"@ + stream_id@,
{
    join3("http://", server_url, "/stream/").concat(stream_id)
}

/// What a client does about a message of the server.
pub enum ClientAction {
    /// Shows some lines.
    Show { lines: Vec<String> },
    /// Shows an error.
    Complain { text: String },
    /// Uploads a file of its shared folder, if it lies there.
    Upload { file_path: String, stream_id: String, stream_token: String },
    /// Uploads nothing, and shows why.
    RefuseUpload { text: String },
    /// Downloads a file.
    Download { stream_id: String, file_name: String, stream_token: String },
}

/// The view of a [`ClientAction`].
#[verifier::ext_equal]
pub enum ActionView {
    Show { lines: Seq<Seq<char>> },
    Complain { text: Seq<char> },
    Upload { path: Seq<char>, stream_id: Seq<char>, token: Seq<char> },
    RefuseUpload { text: Seq<char> },
    Download { stream_id: Seq<char>, name: Seq<char>, token: Seq<char> },
}

impl View for ClientAction {
    type V = ActionView;

    open spec fn view(&self) -> ActionView {
        match self {
            ClientAction::Show { lines } => ActionView::Show { lines: lines_view(lines@) },
            ClientAction::Complain { text } => ActionView::Complain { text: text@ },
            ClientAction::Upload { file_path, stream_id, stream_token } => ActionView::Upload {
                path: file_path@,
                stream_id: stream_id@,
                token: stream_token@,
            },
            ClientAction::RefuseUpload { text } => ActionView::RefuseUpload { text: text@ },
            ClientAction::Download { stream_id, file_name, stream_token } => ActionView::Download {
                stream_id: stream_id@,
                name: file_name@,
                token: stream_token@,
            },
        }
    }
}

/// What a client does about `message`.
pub open spec fn action(style: PathStyle, message: ServerMessageView) -> ActionView {
    match message {
        ServerMessageView::Registered { client_id } => ActionView::Show {
            lines: seq!["Registered successfully. My ID: "@ + client_id],
        },
        ServerMessageView::ClientsList { clients } => ActionView::Show {
            lines: targets_listing(clients),
        },
        ServerMessageView::FileList { target, files } => ActionView::Show {
            lines: listing(target, files),
        },
        ServerMessageView::UploadInstruction { path, stream_id, token } => if safe_path(style, path) {
            ActionView::Upload { path, stream_id, token }
        } else {
            ActionView::RefuseUpload { text: "Invalid file path structure: "@ + path }
        },
        ServerMessageView::DownloadReady { stream_id, name, token } => ActionView::Download {
            stream_id,
            name,
            token,
        },
        ServerMessageView::Error { message } => ActionView::Complain {
            text: "Server error: "@ + message,
        },
    }
}

/// Decides what a client does about a message of the server.
pub fn handle_server_message(style: PathStyle, message: ServerMessage) -> (decision: ClientAction)
    ensures
        decision@ == action(style, message@),
{
    match message {
        ServerMessage::Registered { client_id } => {
            let mut lines: Vec<String> = Vec::new();
            lines.push("Registered successfully. My ID: ".to_string().concat(client_id.as_str()));
            assert(lines_view(lines@) == seq!["Registered successfully. My ID: "@ + client_id@]);
            ClientAction::Show { lines }
        },
        ServerMessage::ClientsList { clients } => ClientAction::Show {
            lines: print_targets(&clients),
        },
        ServerMessage::FileList { target_client_id, files } => ClientAction::Show {
            lines: print_files(target_client_id.as_str(), &files),
        },
        ServerMessage::UploadInstruction { file_path, stream_id, stream_token } => {
            if !style.is_safe(file_path.as_str()) {
                return ClientAction::RefuseUpload {
                    text: "Invalid file path structure: ".to_string().concat(file_path.as_str()),
                };
            }
            ClientAction::Upload { file_path, stream_id, stream_token }
        },
        ServerMessage::DownloadReady { stream_id, file_name, stream_token } => {
            ClientAction::Download { stream_id, file_name, stream_token }
        },
        ServerMessage::Error { message } => ClientAction::Complain {
            text: "Server error: ".to_string().concat(message.as_str()),
        },
    }
}

/// Whatever the server says, a client uploads nothing but what lies at a safe path.
pub proof fn only_safe_paths_are_uploaded(style: PathStyle, message: ServerMessageView)
    ensures
        action(style, message) matches ActionView::Upload { path, .. } ==> safe_path(style, path),
{
}

/// The name under which a client saves a file that the server calls `file_name`, or what it shows
/// where that leaves no name. The name is that of one entry of the folder that the file is saved in,
/// but for two kinds of name that only Windows knows: one that looks like a drive, and one with `/` at
/// the end of a verbatim path.
pub fn saved_name(style: PathStyle, file_name: &str) -> (choice: Result<String, String>)
    ensures
        match choice {
            Ok(name) => {
                &&& name@.len() > 0
                &&& name@ == file_name_of(style, file_name@)
                &&& {
                    ||| is_plain_name(style, name@)
                    ||| style.has_drive(name@)
                    ||| style == PathStyle::Windows && verbatim(file_name@) && name@.contains('/')
                }
            },
            Err(text) => file_name_of(style, file_name@).len() == 0 && text@
                == "Server returned an empty file name"@,
        },
{
    let name = style.file_name(file_name);
    if is_empty(name.as_str()) {
        return Err("Server returned an empty file name".to_string());
    }
    proof {
        file_name_is_plain(style, file_name@);
    }
    Ok(name)
}

/// What comes from the socket of the server.
pub enum ServerEvent {
    /// A message.
    Message { message: ServerMessage },
    /// A text that is no message.
    Unreadable,
    /// Something that is no text, such as a ping.
    Ignored,
    /// The server has closed the connection.
    Closed,
    /// The connection has failed.
    Failed,
    /// Nothing more comes.
    Ended,
}

/// What a client does about what comes from the socket of the server.
pub enum ClientStep {
    /// The next event is awaited.
    Wait,
    /// The server is followed, and the next event is awaited.
    Follow { action: ClientAction },
    /// The client ends; it says that it was disconnected, unless the server has closed the
    /// connection.
    End { report_disconnect: bool },
}

/// Decides what a client does about what comes from the socket of the server.
pub fn server_event(style: PathStyle, event: ServerEvent) -> (step: ClientStep)
    ensures
        match event {
            ServerEvent::Message { message } => step matches ClientStep::Follow { action: taken }
                && taken@ == action(style, message@),
            ServerEvent::Unreadable | ServerEvent::Ignored => step is Wait,
            ServerEvent::Closed => step == (ClientStep::End { report_disconnect: false }),
            ServerEvent::Failed | ServerEvent::Ended => step == (ClientStep::End {
                report_disconnect: true,
            }),
        },
{
    match event {
        ServerEvent::Message { message } => ClientStep::Follow {
            action: handle_server_message(style, message),
        },
        ServerEvent::Unreadable | ServerEvent::Ignored => ClientStep::Wait,
        ServerEvent::Closed => ClientStep::End { report_disconnect: false },
        ServerEvent::Failed | ServerEvent::Ended => ClientStep::End { report_disconnect: true },
    }
}

} // verus!
