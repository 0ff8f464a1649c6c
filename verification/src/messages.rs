//! The messages that clients and the server exchange, and what they carry.
//!
//! Each type has a view of the same shape in which strings are sequences of characters: two
//! messages with equal views say the same.

use vstd::prelude::*;

verus! {

/// A file that someone shares.
#[derive(Debug)]
pub struct FileMetadata {
    /// Relative path from the shared folder root.
    pub path: String,
    /// Length in bytes.
    pub size: u64,
}

/// The view of a [`FileMetadata`].
#[verifier::ext_equal]
pub struct FileView {
    pub path: Seq<char>,
    pub size: u64,
}

impl View for FileMetadata {
    type V = FileView;

    open spec fn view(&self) -> FileView {
        FileView { path: self.path@, size: self.size }
    }
}

impl Clone for FileMetadata {
    fn clone(&self) -> (copy: Self)
        ensures
            copy == *self,
    {
        FileMetadata { path: self.path.clone(), size: self.size }
    }
}

/// The view of a list of files.
pub open spec fn files_view(files: Seq<FileMetadata>) -> Seq<FileView> {
    files.map_values(|file: FileMetadata| file@)
}

/// Copies a list of files.
pub fn clone_files(files: &Vec<FileMetadata>) -> (copy: Vec<FileMetadata>)
    ensures
        copy@ == files@,
{
    let mut copy: Vec<FileMetadata> = Vec::new();
    let mut i: usize = 0;
    while i < files.len()
        invariant
            i <= files@.len(),
            copy@ == files@.take(i as int),
        decreases files@.len() - i,
    {
        copy.push(files[i].clone());
        i += 1;
        assert(files@.take(i as int) == files@.take(i - 1).push(files@[i - 1]));
    }
    assert(files@.take(files@.len() as int) == files@);
    copy
}

/// The files that a client shares.
#[derive(Debug)]
pub struct SharedFolder {
    pub files: Vec<FileMetadata>,
}

impl View for SharedFolder {
    type V = Seq<FileView>;

    open spec fn view(&self) -> Seq<FileView> {
        files_view(self.files@)
    }
}

impl Clone for SharedFolder {
    fn clone(&self) -> (copy: Self)
        ensures
            copy@ == self@,
    {
        SharedFolder { files: clone_files(&self.files) }
    }
}

/// One line of the list of download targets.
#[derive(Debug)]
pub struct ClientInfo {
    pub client_id: String,
    pub files_count: usize,
}

/// The view of a [`ClientInfo`].
#[verifier::ext_equal]
pub struct ClientInfoView {
    pub client_id: Seq<char>,
    pub files_count: usize,
}

impl View for ClientInfo {
    type V = ClientInfoView;

    open spec fn view(&self) -> ClientInfoView {
        ClientInfoView { client_id: self.client_id@, files_count: self.files_count }
    }
}

impl Clone for ClientInfo {
    fn clone(&self) -> (copy: Self)
        ensures
            copy == *self,
    {
        ClientInfo { client_id: self.client_id.clone(), files_count: self.files_count }
    }
}

/// The view of a list of download targets.
pub open spec fn infos_view(infos: Seq<ClientInfo>) -> Seq<ClientInfoView> {
    infos.map_values(|info: ClientInfo| info@)
}

/// Copies a list of download targets.
pub fn clone_infos(infos: &Vec<ClientInfo>) -> (copy: Vec<ClientInfo>)
    ensures
        copy@ == infos@,
{
    let mut copy: Vec<ClientInfo> = Vec::new();
    let mut i: usize = 0;
    while i < infos.len()
        invariant
            i <= infos@.len(),
            copy@ == infos@.take(i as int),
        decreases infos@.len() - i,
    {
        copy.push(infos[i].clone());
        i += 1;
        assert(infos@.take(i as int) == infos@.take(i - 1).push(infos@[i - 1]));
    }
    assert(infos@.take(infos@.len() as int) == infos@);
    copy
}

/// What a client says to the server.
#[derive(Debug)]
pub enum ClientMessage {
    /// The client registers its shared folder after startup.
    Register { folder: SharedFolder },
    /// The client requests the list of connected clients.
    ListClients,
    /// The client requests the file list for another client or the server.
    ListFiles { target_client_id: String },
    /// The client requests a file download from another client.
    RequestDownload { target_client_id: String, file_path: String },
}

/// The view of a [`ClientMessage`].
#[verifier::ext_equal]
pub enum ClientMessageView {
    Register { files: Seq<FileView> },
    ListClients,
    ListFiles { target: Seq<char> },
    RequestDownload { target: Seq<char>, path: Seq<char> },
}

impl View for ClientMessage {
    type V = ClientMessageView;

    open spec fn view(&self) -> ClientMessageView {
        match self {
            ClientMessage::Register { folder } => ClientMessageView::Register { files: folder@ },
            ClientMessage::ListClients => ClientMessageView::ListClients,
            ClientMessage::ListFiles { target_client_id } => ClientMessageView::ListFiles {
                target: target_client_id@,
            },
            ClientMessage::RequestDownload {
                target_client_id,
                file_path,
            } => ClientMessageView::RequestDownload {
                target: target_client_id@,
                path: file_path@,
            },
        }
    }
}

impl Clone for ClientMessage {
    fn clone(&self) -> (copy: Self)
        ensures
            copy@ == self@,
    {
        match self {
            ClientMessage::Register { folder } => ClientMessage::Register { folder: folder.clone() },
            ClientMessage::ListClients => ClientMessage::ListClients,
            ClientMessage::ListFiles { target_client_id } => ClientMessage::ListFiles {
                target_client_id: target_client_id.clone(),
            },
            ClientMessage::RequestDownload {
                target_client_id,
                file_path,
            } => ClientMessage::RequestDownload {
                target_client_id: target_client_id.clone(),
                file_path: file_path.clone(),
            },
        }
    }
}

/// What the server says to a client.
#[derive(Debug)]
pub enum ServerMessage {
    /// Registration confirmation with the assigned client ID.
    Registered { client_id: String },
    /// List of connected clients.
    ClientsList { clients: Vec<ClientInfo> },
    /// File list for a client or the server.
    FileList { target_client_id: String, files: Vec<FileMetadata> },
    /// Instruction for the source client to stream a file to the given endpoint.
    UploadInstruction { file_path: String, stream_id: String, stream_token: String },
    /// Information for the downloading client about where to fetch the file.
    DownloadReady { stream_id: String, file_name: String, stream_token: String },
    /// Error.
    Error { message: String },
}

/// The view of a [`ServerMessage`].
#[verifier::ext_equal]
pub enum ServerMessageView {
    Registered { client_id: Seq<char> },
    ClientsList { clients: Seq<ClientInfoView> },
    FileList { target: Seq<char>, files: Seq<FileView> },
    UploadInstruction { path: Seq<char>, stream_id: Seq<char>, token: Seq<char> },
    DownloadReady { stream_id: Seq<char>, name: Seq<char>, token: Seq<char> },
    Error { message: Seq<char> },
}

impl View for ServerMessage {
    type V = ServerMessageView;

    open spec fn view(&self) -> ServerMessageView {
        match self {
            ServerMessage::Registered { client_id } => ServerMessageView::Registered {
                client_id: client_id@,
            },
            ServerMessage::ClientsList { clients } => ServerMessageView::ClientsList {
                clients: infos_view(clients@),
            },
            ServerMessage::FileList { target_client_id, files } => ServerMessageView::FileList {
                target: target_client_id@,
                files: files_view(files@),
            },
            ServerMessage::UploadInstruction {
                file_path,
                stream_id,
                stream_token,
            } => ServerMessageView::UploadInstruction {
                path: file_path@,
                stream_id: stream_id@,
                token: stream_token@,
            },
            ServerMessage::DownloadReady {
                stream_id,
                file_name,
                stream_token,
            } => ServerMessageView::DownloadReady {
                stream_id: stream_id@,
                name: file_name@,
                token: stream_token@,
            },
            ServerMessage::Error { message } => ServerMessageView::Error { message: message@ },
        }
    }
}

impl Clone for ServerMessage {
    fn clone(&self) -> (copy: Self)
        ensures
            copy@ == self@,
    {
        match self {
            ServerMessage::Registered { client_id } => ServerMessage::Registered {
                client_id: client_id.clone(),
            },
            ServerMessage::ClientsList { clients } => ServerMessage::ClientsList {
                clients: clone_infos(clients),
            },
            ServerMessage::FileList { target_client_id, files } => ServerMessage::FileList {
                target_client_id: target_client_id.clone(),
                files: clone_files(files),
            },
            ServerMessage::UploadInstruction {
                file_path,
                stream_id,
                stream_token,
            } => ServerMessage::UploadInstruction {
                file_path: file_path.clone(),
                stream_id: stream_id.clone(),
                stream_token: stream_token.clone(),
            },
            ServerMessage::DownloadReady {
                stream_id,
                file_name,
                stream_token,
            } => ServerMessage::DownloadReady {
                stream_id: stream_id.clone(),
                file_name: file_name.clone(),
                stream_token: stream_token.clone(),
            },
            ServerMessage::Error { message } => ServerMessage::Error { message: message.clone() },
        }
    }
}

} // verus!
