//! Views leave nothing out: each tells every field of what it is the view of.

use vstd::prelude::*;
use crate::client::ActionView;
use crate::client::ClientAction;
use crate::commands::optional_message;
use crate::commands::ClientCommand;
use crate::commands::ClientCommandView;
use crate::commands::ServerCommand;
use crate::commands::ServerCommandView;
use crate::downloads::decision_view;
use crate::downloads::token_form;
use crate::downloads::DownloadRefusal;
use crate::downloads::DownloadSource;
use crate::downloads::KeysView;
use crate::downloads::SourceView;
use crate::downloads::StartedDownload;
use crate::downloads::StreamKeys;
use crate::folders::file_view;
use crate::folders::outcome_view;
use crate::http::Refusal;
use crate::messages::files_view;
use crate::messages::infos_view;
use crate::messages::ClientInfo;
use crate::messages::ClientMessage;
use crate::messages::ClientMessageView;
use crate::messages::FileMetadata;
use crate::messages::ServerMessage;
use crate::messages::ServerMessageView;
use crate::messages::SharedFolder;
use crate::paths::components;
use crate::relay::listing_view;
use crate::relay::Response;
use crate::relay::ResponseView;
use crate::reports::lines_view;
use crate::secrets::header_view;
use crate::secrets::is_uuid_v4;
use crate::secrets::RequestHeaders;
use crate::server_files::found_view;
use crate::server_files::resolved;
use crate::server_files::walk_view;
use crate::server_files::EntryView;
use crate::server_files::WalkedEntry;
use crate::streams::StreamEntry;
use crate::text::optional_view;

verus! {

/// Files, folders and lines of the target list are seen field by field and entry by entry.
pub proof fn lists_are_seen_whole(
    file: FileMetadata,
    folder: SharedFolder,
    info: ClientInfo,
    files: Seq<FileMetadata>,
    infos: Seq<ClientInfo>,
    lines: Seq<String>,
    i: int,
)
    ensures
        file@.path == file.path@,
        file@.size == file.size,
        info@.client_id == info.client_id@,
        info@.files_count == info.files_count,
        folder@.len() == folder.files@.len(),
        0 <= i < folder.files@.len() ==> folder@[i] == folder.files@[i]@,
        files_view(files).len() == files.len(),
        0 <= i < files.len() ==> files_view(files)[i] == files[i]@,
        infos_view(infos).len() == infos.len(),
        0 <= i < infos.len() ==> infos_view(infos)[i] == infos[i]@,
        lines_view(lines).len() == lines.len(),
        0 <= i < lines.len() ==> lines_view(lines)[i] == lines[i]@,
{
}

/// Messages of clients are seen as what they are, with all that they carry.
pub proof fn client_messages_are_seen_whole(message: ClientMessage)
    ensures
        match message {
            ClientMessage::Register { folder } => message@ == (ClientMessageView::Register {
                files: folder@,
            }),
            ClientMessage::ListClients => message@ == ClientMessageView::ListClients,
            ClientMessage::ListFiles { target_client_id } => message@ == (
            ClientMessageView::ListFiles { target: target_client_id@ }),
            ClientMessage::RequestDownload { target_client_id, file_path } => message@ == (
            ClientMessageView::RequestDownload { target: target_client_id@, path: file_path@ }),
        },
        optional_message(Some(message)) == Some(message@),
        optional_message(None) is None,
{
}

/// Messages of the server are seen as what they are, with all that they carry.
pub proof fn server_messages_are_seen_whole(message: ServerMessage)
    ensures
        match message {
            ServerMessage::Registered { client_id } => message@ == (ServerMessageView::Registered {
                client_id: client_id@,
            }),
            ServerMessage::ClientsList { clients } => message@ == (ServerMessageView::ClientsList {
                clients: infos_view(clients@),
            }),
            ServerMessage::FileList { target_client_id, files } => message@ == (
            ServerMessageView::FileList { target: target_client_id@, files: files_view(files@) }),
            ServerMessage::UploadInstruction { file_path, stream_id, stream_token } => message@ == (
            ServerMessageView::UploadInstruction {
                path: file_path@,
                stream_id: stream_id@,
                token: stream_token@,
            }),
            ServerMessage::DownloadReady { stream_id, file_name, stream_token } => message@ == (
            ServerMessageView::DownloadReady {
                stream_id: stream_id@,
                name: file_name@,
                token: stream_token@,
            }),
            ServerMessage::Error { message: text } => message@ == (ServerMessageView::Error {
                message: text@,
            }),
        },
{
}

/// Streams, keys and what is said of a download are seen field by field.
pub proof fn streams_are_seen_whole<S, R>(
    entry: StreamEntry<S, R>,
    keys: StreamKeys,
    download: StartedDownload,
    source: DownloadSource,
    refusal: DownloadRefusal,
)
    ensures
        entry@.sender == entry.sender,
        entry@.receiver == entry.receiver,
        entry@.upload_token == entry.upload_token@,
        entry@.download_token == entry.download_token@,
        entry@.expected_size == entry.expected_size,
        keys@.stream_id == keys.stream_id@,
        keys@.upload_token == keys.upload_token@,
        keys@.download_token == keys.download_token@,
        download@.stream_id == download.stream_id@,
        download@.ready == download.ready@,
        download@.instruction == download.instruction@,
        match source {
            DownloadSource::Server { file_path } => source@ == (SourceView::Server {
                path: file_path@,
            }) && source@.path() == file_path@,
            DownloadSource::Client { target_client_id, file_path, size } => source@ == (
            SourceView::Client { target: target_client_id@, path: file_path@, size })
                && source@.path() == file_path@,
        },
        decision_view(Ok(source)) == Ok::<SourceView, DownloadRefusal>(source@),
        decision_view(Err(refusal)) == Err::<SourceView, DownloadRefusal>(refusal),
{
}

/// Keys are well formed exactly if the stream has a UUID and both tokens are 48 letters or digits.
pub proof fn keys_have_their_form(keys: KeysView, token: Seq<char>)
    ensures
        keys.well_formed() <==> is_uuid_v4(keys.stream_id) && token_form(keys.upload_token)
            && token_form(keys.download_token),
        token_form(token) <==> token.len() == 48 && forall|i: int|
            0 <= i < 48 ==> {
                ||| 'a' <= #[trigger] token[i] <= 'z'
                ||| 'A' <= token[i] <= 'Z'
                ||| '0' <= token[i] <= '9'
            },
{
    if token_form(token) {
        assert forall|i: int| 0 <= i < 48 implies {
            ||| 'a' <= #[trigger] token[i] <= 'z'
            ||| 'A' <= token[i] <= 'Z'
            ||| '0' <= token[i] <= '9'
        } by {
            assert(crate::secrets::alphanumeric(token[i]));
        }
    }
}

/// What is done about a message, a request that is refused, and the headers of a request are seen
/// with all that they carry.
pub proof fn answers_are_seen_whole(
    response: Response,
    refusal: Refusal,
    headers: RequestHeaders,
    bytes: Vec<u8>,
)
    ensures
        match response {
            Response::Nothing => response@ == ResponseView::Nothing,
            Response::Reply { message } => response@ == (ResponseView::Reply { message: message@ }),
            Response::CountServerFiles => response@ == ResponseView::CountServerFiles,
            Response::ListServerFiles => response@ == ResponseView::ListServerFiles,
            Response::Download { source } => response@ == (ResponseView::Download {
                source: source@,
            }),
        },
        refusal@.status == refusal.status,
        refusal@.body == refusal.body@,
        headers@.authorization == header_view(headers.authorization),
        headers@.stream_token == header_view(headers.stream_token),
        header_view(Some(bytes)) == Some(bytes@),
        header_view(None) is None,
{
}

/// What a walk meets, what is found and what the file system resolves are seen whole.
pub proof fn walks_are_seen_whole(
    entry: WalkedEntry,
    walk: Seq<WalkedEntry>,
    files: Vec<FileMetadata>,
    folder: SharedFolder,
    file: FileMetadata,
    error: String,
    text: &str,
    parts: Vec<Vec<u8>>,
    i: int,
)
    ensures
        match entry {
            WalkedEntry::Unreachable => entry@ == EntryView::Unreachable,
            WalkedEntry::NotAFile => entry@ == EntryView::NotAFile,
            WalkedEntry::File { path, size } => entry@ == (EntryView::File { path: path@, size }),
            WalkedEntry::Unreadable { error: why } => entry@ == (EntryView::Unreadable {
                error: why@,
            }),
        },
        walk_view(walk).len() == walk.len(),
        0 <= i < walk.len() ==> walk_view(walk)[i] == walk[i]@,
        found_view(Ok(files)) matches Ok(seen) && seen == files_view(files@),
        found_view(Err(error)) matches Err(seen) && seen == error@,
        outcome_view(Ok(folder)) matches Ok(seen) && seen == folder@,
        outcome_view(Err(error)) matches Err(seen) && seen == error@,
        listing_view(Some(files)) == Some(files_view(files@)),
        listing_view(None) is None,
        file_view(Some(file)) == Some(file@),
        file_view(None) is None,
        optional_view(Some(text)) == Some(text@),
        optional_view(None) is None,
        resolved(Some(parts)) == Some(components(parts@)),
        resolved(None) is None,
        components(parts@).len() == parts@.len(),
        0 <= i < parts@.len() ==> components(parts@)[i] == parts@[i]@,
{
}

/// Commands are seen as what they are, with all that they carry.
pub proof fn commands_are_seen_whole(server: ServerCommand, client: ClientCommand)
    ensures
        match server {
            ServerCommand::Nothing => server@ == ServerCommandView::Nothing,
            ServerCommand::Help => server@ == ServerCommandView::Help,
            ServerCommand::Clients => server@ == ServerCommandView::Clients,
            ServerCommand::Files { target_client_id } => server@ == (ServerCommandView::Files {
                target: target_client_id@,
            }),
            ServerCommand::Download { target_client_id, file_path } => server@ == (
            ServerCommandView::Download { target: target_client_id@, path: file_path@ }),
            ServerCommand::Unknown => server@ == ServerCommandView::Unknown,
        },
        match client {
            ClientCommand::Nothing => client@ == ClientCommandView::Nothing,
            ClientCommand::Help => client@ == ClientCommandView::Help,
            ClientCommand::Clients => client@ == ClientCommandView::Clients,
            ClientCommand::ServerFiles => client@ == ClientCommandView::ServerFiles,
            ClientCommand::Files { target_client_id } => client@ == (ClientCommandView::Files {
                target: target_client_id@,
            }),
            ClientCommand::Download { target_client_id, file_path } => client@ == (
            ClientCommandView::Download { target: target_client_id@, path: file_path@ }),
            ClientCommand::Unknown => client@ == ClientCommandView::Unknown,
        },
{
}

/// What a client does is seen with all that it does it with.
pub proof fn actions_are_seen_whole(action: ClientAction)
    ensures
        match action {
            ClientAction::Show { lines } => action@ == (ActionView::Show {
                lines: lines_view(lines@),
            }),
            ClientAction::Complain { text } => action@ == (ActionView::Complain { text: text@ }),
            ClientAction::Upload { file_path, stream_id, stream_token } => action@ == (
            ActionView::Upload { path: file_path@, stream_id: stream_id@, token: stream_token@ }),
            ClientAction::RefuseUpload { text } => action@ == (ActionView::RefuseUpload {
                text: text@,
            }),
            ClientAction::Download { stream_id, file_name, stream_token } => action@ == (
            ActionView::Download { stream_id: stream_id@, name: file_name@, token: stream_token@ }),
        },
{
}

} // verus!
