//! The relay: who is connected, what they share, and what is on its way between them.
//!
//! `C` is whatever leads to a connected client, `S` and `R` are the two ends of a stream. The relay
//! keeps them and hands them out; it never uses them.

use vstd::prelude::*;
use crate::downloads::client_not_found;
use crate::downloads::client_not_found_text;
use crate::downloads::decision_view;
use crate::downloads::names_server;
use crate::downloads::no_file_list;
use crate::downloads::no_file_list_text;
use crate::downloads::started;
use crate::downloads::DownloadRefusal;
use crate::downloads::DownloadSource;
use crate::downloads::KeysView;
use crate::downloads::SourceView;
use crate::downloads::StartedDownload;
use crate::downloads::StreamKeys;
use crate::folders::find_file;
use crate::folders::find_registered_file;
use crate::folders::valid_files;
use crate::folders::validate_folder;
use crate::folders::validated;
use crate::http::upload_step;
use crate::http::Refusal;
use crate::http::RefusalView;
use crate::http::Status;
use crate::http::UploadEvent;
use crate::http::UploadStep;
use crate::messages::clone_files;
use crate::messages::files_view;
use crate::messages::infos_view;
use crate::messages::ClientInfo;
use crate::messages::ClientInfoView;
use crate::messages::ClientMessage;
use crate::messages::ClientMessageView;
use crate::messages::FileMetadata;
use crate::messages::FileView;
use crate::messages::ServerMessage;
use crate::messages::ServerMessageView;
use crate::messages::SharedFolder;
use crate::paths::file_name_of;
use crate::paths::is_plain_name;
use crate::paths::safe_path;
use crate::paths::safe_path_has_a_name;
use crate::paths::PathStyle;
use crate::secrets::is_authorized;
use crate::secrets::is_stream_token_authorized;
use crate::secrets::is_uuid_v4;
use crate::secrets::new_uuid;
use crate::secrets::secure_eq;
use crate::secrets::HeadersView;
use crate::secrets::RequestHeaders;
use crate::server_files::check_place;
use crate::server_files::check_size;
use crate::server_files::resolved;
use crate::server_files::served_size;
use crate::server_files::FileRefusal;
use crate::streams::after_download;
use crate::streams::after_take;
use crate::streams::after_upload;
use crate::streams::taken_from;
use crate::streams::upload_limit;
use crate::streams::StreamEntry;
use crate::streams::StreamMap;
use crate::streams::StreamView;
use crate::streams::Streams;
use crate::streams::Taken;
use crate::streams::UploadMeter;
use crate::table::Table;
use crate::text::eq_ignore_ascii_case;
use crate::text::use_forward_slashes;
use crate::text::with_forward_slashes;

verus! {

/// What the server knows.
pub struct Relay<C, S, R> {
    auth_token: String,
    clients: Table<C>,
    folders: Table<SharedFolder>,
    streams: Streams<S, R>,
    max_stream_bytes: u64,
    style: PathStyle,
}

/// The view of a [`Relay`].
#[verifier::ext_equal]
pub struct RelayView<C, S, R> {
    /// The token that every request must carry.
    pub auth_token: Seq<char>,
    /// The connected clients.
    pub clients: Map<Seq<char>, C>,
    /// The identifiers of the connected clients, in the order in which they connected.
    pub order: Seq<Seq<char>>,
    /// The files that were registered.
    pub folders: Map<Seq<char>, Seq<FileView>>,
    /// The open streams.
    pub streams: StreamMap<S, R>,
    /// The number of bytes that may go through a stream.
    pub max_stream_bytes: u64,
    /// How paths are written here.
    pub style: PathStyle,
}

impl<C, S, R> RelayView<C, S, R> {
    /// Every connected client stands in the order once and nobody else does, and every folder is
    /// one that passes validation.
    pub open spec fn valid(self) -> bool {
        &&& self.order.no_duplicates()
        &&& forall|id: Seq<char>| #[trigger] self.order.contains(id) <==> self.clients.contains_key(id)
        &&& forall|id: Seq<char>| #[trigger]
            self.folders.contains_key(id) ==> valid_files(
                self.style,
                self.folders[id],
                self.max_stream_bytes,
            )
    }
}

impl<C, S, R> View for Relay<C, S, R> {
    type V = RelayView<C, S, R>;

    closed spec fn view(&self) -> RelayView<C, S, R> {
        RelayView {
            auth_token: self.auth_token@,
            clients: self.clients@,
            order: self.clients.keys(),
            folders: self.folders@.map_values(|folder: SharedFolder| folder@),
            streams: self.streams@,
            max_stream_bytes: self.max_stream_bytes,
            style: self.style,
        }
    }
}

impl<C, S, R> RelayView<C, S, R> {
    /// Where the file `path` of `target` would come from, or why it cannot be had.
    pub open spec fn find_source(self, target: Seq<char>, path: Seq<char>) -> Result<
        SourceView,
        DownloadRefusal,
    > {
        let normal = with_forward_slashes(path);
        if names_server(target) {
            if safe_path(self.style, path) {
                Ok(SourceView::Server { path })
            } else {
                Err(DownloadRefusal::InvalidServerPath)
            }
        } else if !safe_path(self.style, normal) {
            Err(DownloadRefusal::InvalidTargetPath)
        } else if !self.clients.contains_key(target) {
            Err(DownloadRefusal::TargetUnavailable)
        } else if !self.folders.contains_key(target) {
            Err(DownloadRefusal::NoFileList)
        } else {
            match find_file(self.folders[target], normal) {
                None => Err(DownloadRefusal::NotRegistered),
                Some(file) => Ok(SourceView::Client { target, path: normal, size: file.size }),
            }
        }
    }

    /// The number of files that the client `id` shares.
    pub open spec fn files_count(self, id: Seq<char>) -> usize {
        if self.folders.contains_key(id) {
            self.folders[id].len() as usize
        } else {
            0
        }
    }

    /// The list of download targets, the server first.
    pub open spec fn targets(self, server_files: usize) -> Seq<ClientInfoView> {
        seq![ClientInfoView { client_id: "server"@, files_count: server_files }]
            + self.order.map_values(
            |id: Seq<char>| ClientInfoView { client_id: id, files_count: self.files_count(id) },
        )
    }

    /// The answer to a question about the files of the client `target`.
    pub open spec fn files_of_client(self, target: Seq<char>) -> ServerMessageView {
        if !self.clients.contains_key(target) {
            ServerMessageView::Error { message: client_not_found(target) }
        } else if !self.folders.contains_key(target) {
            ServerMessageView::Error { message: no_file_list(target) }
        } else {
            ServerMessageView::FileList { target, files: self.folders[target] }
        }
    }

    /// The relay after `id` has connected.
    pub open spec fn connected(self, id: Seq<char>, client: C) -> Self {
        RelayView {
            clients: self.clients.insert(id, client),
            order: if self.clients.contains_key(id) {
                self.order
            } else {
                self.order.push(id)
            },
            ..self
        }
    }

    /// The relay after `id` has gone.
    pub open spec fn disconnected(self, id: Seq<char>) -> Self {
        RelayView {
            clients: self.clients.remove(id),
            order: if self.clients.contains_key(id) {
                self.order.remove(self.order.index_of(id))
            } else {
                self.order
            },
            folders: self.folders.remove(id),
            ..self
        }
    }
}

impl<C, S, R> Relay<C, S, R> {
    /// Whether the tables are in order and what they hold is valid.
    pub closed spec fn wf(&self) -> bool {
        &&& self.clients.wf()
        &&& self.folders.wf()
        &&& self.streams.wf()
        &&& self@.valid()
    }

    /// A relay is valid whenever it is in order.
    pub proof fn wf_is_valid(&self)
        requires
            self.wf(),
        ensures
            self@.valid(),
    {
    }

    /// A relay that nobody is connected to.
    pub fn new(auth_token: String, max_stream_bytes: u64, style: PathStyle) -> (relay: Self)
        ensures
            relay.wf(),
            relay@ == (RelayView::<C, S, R> {
                auth_token: auth_token@,
                clients: Map::empty(),
                order: Seq::empty(),
                folders: Map::empty(),
                streams: Map::empty(),
                max_stream_bytes,
                style,
            }),
    {
        let relay = Relay {
            auth_token,
            clients: Table::new(),
            folders: Table::new(),
            streams: Streams::new(),
            max_stream_bytes,
            style,
        };
        assert(relay@.folders == Map::<Seq<char>, Seq<FileView>>::empty());
        relay
    }

    /// Lets a client in under the identifier `client_id`, and returns what it is told.
    pub fn connect_as(&mut self, client_id: String, client: C) -> (welcome: ServerMessage)
        requires
            old(self).wf(),
        ensures
            final(self).wf(),
            final(self)@ == old(self)@.connected(client_id@, client),
            welcome@ == (ServerMessageView::Registered { client_id: client_id@ }),
    {
        let ghost before = self@;
        self.clients.insert(client_id.clone(), client);
        proof {
            self.clients.keys_are_the_domain();
        }
        assert(self@ == before.connected(client_id@, client));
        ServerMessage::Registered { client_id }
    }

    /// Lets a client in under a fresh identifier.
    pub fn connect(&mut self, client: C) -> (admission: (String, ServerMessage))
        requires
            old(self).wf(),
        ensures
            final(self).wf(),
            is_uuid_v4(admission.0@),
            final(self)@ == old(self)@.connected(admission.0@, client),
            admission.1@ == (ServerMessageView::Registered { client_id: admission.0@ }),
    {
        let client_id = new_uuid();
        let welcome = self.connect_as(client_id.clone(), client);
        (client_id, welcome)
    }

    /// Forgets a client that has gone, and what it shared.
    pub fn cleanup_client(&mut self, client_id: &str)
        requires
            old(self).wf(),
        ensures
            final(self).wf(),
            final(self)@ == old(self)@.disconnected(client_id@),
    {
        let ghost before = self@;
        self.clients.remove(client_id);
        self.folders.remove(client_id);
        proof {
            self.clients.keys_are_the_domain();
        }
        assert(self@ == before.disconnected(client_id@));
    }

    /// What leads to the client `client_id`.
    pub fn client(&self, client_id: &str) -> (client: Option<&C>)
        requires
            self.wf(),
        ensures
            match client {
                Some(c) => self@.clients.contains_key(client_id@) && *c == self@.clients[client_id@],
                None => !self@.clients.contains_key(client_id@),
            },
    {
        self.clients.get(client_id)
    }

    /// The number of connected clients.
    pub fn clients_count(&self) -> (n: usize)
        ensures
            n == self@.order.len(),
    {
        self.clients.len()
    }

    /// The identifier of the client that connected as the `i`-th of those that are connected.
    pub fn client_id_at(&self, i: usize) -> (client_id: &str)
        requires
            i < self@.order.len(),
        ensures
            client_id@ == self@.order[i as int],
    {
        self.clients.key_at(i)
    }

    /// What the client `client_id` shares, where it has said so.
    pub fn folder(&self, client_id: &str) -> (folder: Option<&SharedFolder>)
        requires
            self.wf(),
        ensures
            match folder {
                Some(f) => self@.folders.contains_key(client_id@) && f@ == self@.folders[client_id@],
                None => !self@.folders.contains_key(client_id@),
            },
    {
        self.folders.get(client_id)
    }

    /// Finds where the file `file_path` of `target_client_id` would come from.
    pub fn find_download(&self, target_client_id: &str, file_path: &str) -> (decision: Result<
        DownloadSource,
        DownloadRefusal,
    >)
        requires
            self.wf(),
        ensures
            decision_view(decision) == self@.find_source(target_client_id@, file_path@),
    {
        if eq_ignore_ascii_case(target_client_id, "server") {
            if !self.style.is_safe(file_path) {
                return Err(DownloadRefusal::InvalidServerPath);
            }
            return Ok(DownloadSource::Server { file_path: file_path.to_string() });
        }
        let file_path = use_forward_slashes(file_path);
        if !self.style.is_safe(file_path.as_str()) {
            return Err(DownloadRefusal::InvalidTargetPath);
        }
        if !self.clients.contains_key(target_client_id) {
            return Err(DownloadRefusal::TargetUnavailable);
        }
        match self.folders.get(target_client_id) {
            None => Err(DownloadRefusal::NoFileList),
            Some(folder) => match find_registered_file(folder, file_path.as_str()) {
                None => Err(DownloadRefusal::NotRegistered),
                Some(file) => Ok(
                    DownloadSource::Client {
                        target_client_id: target_client_id.to_string(),
                        file_path,
                        size: file.size,
                    },
                ),
            },
        }
    }
}

/// The answer to a question about the server's own files; `files` is missing where they could not
/// be listed.
pub open spec fn files_of_server(files: Option<Seq<FileView>>) -> ServerMessageView {
    match files {
        Some(list) => ServerMessageView::FileList { target: "server"@, files: list },
        None => ServerMessageView::Error { message: "Could not list server files"@ },
    }
}

/// The view of a listing that may be missing.
pub open spec fn listing_view(files: Option<Vec<FileMetadata>>) -> Option<Seq<FileView>> {
    match files {
        Some(list) => Some(files_view(list@)),
        None => None,
    }
}

/// Answers a question about the server's own files.
pub fn server_files_list(files: Option<Vec<FileMetadata>>) -> (answer: ServerMessage)
    ensures
        answer@ == files_of_server(listing_view(files)),
{
    match files {
        Some(list) => ServerMessage::FileList {
            target_client_id: "server".to_string(),
            files: list,
        },
        None => ServerMessage::Error { message: "Could not list server files".to_string() },
    }
}

/// What is to be done about a message of a client.
pub enum Response {
    /// Nothing more.
    Nothing,
    /// The client is answered.
    Reply { message: ServerMessage },
    /// The server's own files are to be counted, for [`Relay::clients_list`].
    CountServerFiles,
    /// The server's own files are to be listed, for [`server_files_list`].
    ListServerFiles,
    /// A download is to be prepared.
    Download { source: DownloadSource },
}

/// The view of a [`Response`].
#[verifier::ext_equal]
pub enum ResponseView {
    Nothing,
    Reply { message: ServerMessageView },
    CountServerFiles,
    ListServerFiles,
    Download { source: SourceView },
}

impl View for Response {
    type V = ResponseView;

    open spec fn view(&self) -> ResponseView {
        match self {
            Response::Nothing => ResponseView::Nothing,
            Response::Reply { message } => ResponseView::Reply { message: message@ },
            Response::CountServerFiles => ResponseView::CountServerFiles,
            Response::ListServerFiles => ResponseView::ListServerFiles,
            Response::Download { source } => ResponseView::Download { source: source@ },
        }
    }
}

impl<C, S, R> RelayView<C, S, R> {
    /// The relay after the client `id` has registered `files`.
    pub open spec fn registered(self, id: Seq<char>, files: Seq<FileView>) -> Self {
        match validated(self.style, files, self.max_stream_bytes) {
            Ok(kept) => RelayView { folders: self.folders.insert(id, kept), ..self },
            Err(_) => self,
        }
    }

    /// What is done about a registration.
    pub open spec fn registration_response(self, files: Seq<FileView>) -> ResponseView {
        match validated(self.style, files, self.max_stream_bytes) {
            Ok(_) => ResponseView::Nothing,
            Err(complaint) => ResponseView::Reply {
                message: ServerMessageView::Error { message: complaint },
            },
        }
    }

    /// The relay after the client `id` has sent `message`.
    pub open spec fn after_message(self, id: Seq<char>, message: ClientMessageView) -> Self {
        match message {
            ClientMessageView::Register { files } => self.registered(id, files),
            _ => self,
        }
    }

    /// What is done about `message`.
    pub open spec fn response(self, message: ClientMessageView) -> ResponseView {
        match message {
            ClientMessageView::Register { files } => self.registration_response(files),
            ClientMessageView::ListClients => ResponseView::CountServerFiles,
            ClientMessageView::ListFiles { target } => if names_server(target) {
                ResponseView::ListServerFiles
            } else {
                ResponseView::Reply { message: self.files_of_client(target) }
            },
            ClientMessageView::RequestDownload { target, path } => match self.find_source(
                target,
                path,
            ) {
                Ok(source) => ResponseView::Download { source },
                Err(refusal) => ResponseView::Reply {
                    message: ServerMessageView::Error { message: refusal.reply() },
                },
            },
        }
    }
}

impl<C, S, R> Relay<C, S, R> {
    /// Answers a question about who is connected. `server_files` is the number of the server's own
    /// files; it is missing where they could not be listed.
    pub fn clients_list(&self, server_files: Option<usize>) -> (answer: ServerMessage)
        requires
            self.wf(),
        ensures
            answer@ == (ServerMessageView::ClientsList {
                clients: self@.targets(
                    match server_files {
                        Some(n) => n,
                        None => 0,
                    },
                ),
            }),
    {
        let own: usize = match server_files {
            Some(n) => n,
            None => 0,
        };
        let mut clients: Vec<ClientInfo> = Vec::new();
        clients.push(ClientInfo { client_id: "server".to_string(), files_count: own });
        let ghost targets = self@.targets(own);
        let mut i: usize = 0;
        while i < self.clients.len()
            invariant
                self.wf(),
                targets == self@.targets(own),
                i <= self@.order.len(),
                clients@.len() == i + 1,
                forall|j: int| 0 <= j <= i ==> (#[trigger] clients@[j])@ == targets[j],
            decreases self@.order.len() - i,
        {
            let client_id = self.clients.key_at(i);
            let files_count: usize = match self.folders.get(client_id) {
                Some(folder) => folder.files.len(),
                None => 0,
            };
            clients.push(ClientInfo { client_id: client_id.to_string(), files_count });
            i += 1;
            assert(clients@[i as int]@ == targets[i as int]);
        }
        assert(infos_view(clients@) == targets);
        ServerMessage::ClientsList { clients }
    }

    /// Answers a question about the files of a client.
    pub fn client_files_list(&self, target_client_id: &str) -> (answer: ServerMessage)
        requires
            self.wf(),
        ensures
            answer@ == self@.files_of_client(target_client_id@),
    {
        if !self.clients.contains_key(target_client_id) {
            return ServerMessage::Error { message: client_not_found_text(target_client_id) };
        }
        match self.folders.get(target_client_id) {
            None => ServerMessage::Error { message: no_file_list_text(target_client_id) },
            Some(folder) => ServerMessage::FileList {
                target_client_id: target_client_id.to_string(),
                files: clone_files(&folder.files),
            },
        }
    }

    /// Keeps the folder that a client registers, if it passes validation.
    pub fn register(&mut self, client_id: &str, folder: SharedFolder) -> (response: Response)
        requires
            old(self).wf(),
        ensures
            final(self).wf(),
            final(self)@ == old(self)@.registered(client_id@, folder@),
            response@ == old(self)@.registration_response(folder@),
    {
        let ghost before = self@;
        proof {
            crate::folders::accepted_exactly_if_valid(
                self.style,
                folder@,
                self.max_stream_bytes,
            );
        }
        match validate_folder(self.style, folder, self.max_stream_bytes) {
            Ok(kept) => {
                self.folders.insert(client_id.to_string(), kept);
                assert(self@ == before.registered(client_id@, folder@));
                Response::Nothing
            },
            Err(message) => Response::Reply { message: ServerMessage::Error { message } },
        }
    }

    /// Decides what is to be done about a message of the client `client_id`.
    pub fn handle_message(&mut self, client_id: &str, message: ClientMessage) -> (response: Response)
        requires
            old(self).wf(),
        ensures
            final(self).wf(),
            final(self)@ == old(self)@.after_message(client_id@, message@),
            response@ == old(self)@.response(message@),
    {
        match message {
            ClientMessage::Register { folder } => self.register(client_id, folder),
            ClientMessage::ListClients => Response::CountServerFiles,
            ClientMessage::ListFiles { target_client_id } => if eq_ignore_ascii_case(
                target_client_id.as_str(),
                "server",
            ) {
                Response::ListServerFiles
            } else {
                Response::Reply { message: self.client_files_list(target_client_id.as_str()) }
            },
            ClientMessage::RequestDownload { target_client_id, file_path } => match self.find_download(
                target_client_id.as_str(),
                file_path.as_str(),
            ) {
                Ok(source) => Response::Download { source },
                Err(refusal) => Response::Reply {
                    message: ServerMessage::Error { message: refusal.reply_text() },
                },
            },
        }
    }
}

impl<C, S, R> RelayView<C, S, R> {
    /// The relay after a stream for a file of length `size` has been opened.
    pub open spec fn with_stream(
        self,
        keys: KeysView,
        expected_size: Option<u64>,
        sender: S,
        receiver: R,
    ) -> Self {
        RelayView {
            streams: self.streams.insert(
                keys.stream_id,
                StreamView {
                    sender: Some(sender),
                    receiver: Some(receiver),
                    upload_token: keys.upload_token,
                    download_token: keys.download_token,
                    expected_size,
                },
            ),
            ..self
        }
    }
}

impl<C, S, R> Relay<C, S, R> {
    /// Opens a stream.
    pub fn create_stream(
        &mut self,
        keys: &StreamKeys,
        expected_size: Option<u64>,
        sender: S,
        receiver: R,
    )
        requires
            old(self).wf(),
        ensures
            final(self).wf(),
            final(self)@ == old(self)@.with_stream(keys@, expected_size, sender, receiver),
    {
        let ghost before = self@;
        self.streams.insert(
            keys.stream_id.clone(),
            StreamEntry {
                sender: Some(sender),
                receiver: Some(receiver),
                upload_token: keys.upload_token.clone(),
                download_token: keys.download_token.clone(),
                expected_size,
            },
        );
        assert(self@ == before.with_stream(keys@, expected_size, sender, receiver));
    }

    /// Prepares a download of the file `file_path` of length `size` through a stream with the given
    /// keys.
    pub fn start_download_with(
        &mut self,
        keys: StreamKeys,
        file_path: &str,
        size: u64,
        sender: S,
        receiver: R,
    ) -> (download: StartedDownload)
        requires
            old(self).wf(),
        ensures
            final(self).wf(),
            final(self)@ == old(self)@.with_stream(keys@, Some(size), sender, receiver),
            download@ == started(old(self)@.style, file_path@, keys@),
    {
        self.create_stream(&keys, Some(size), sender, receiver);
        let file_name = self.style.file_name(file_path);
        StartedDownload {
            stream_id: keys.stream_id.clone(),
            ready: ServerMessage::DownloadReady {
                stream_id: keys.stream_id.clone(),
                file_name,
                stream_token: keys.download_token,
            },
            instruction: ServerMessage::UploadInstruction {
                file_path: file_path.to_string(),
                stream_id: keys.stream_id,
                stream_token: keys.upload_token,
            },
        }
    }

    /// Prepares a download of the file `file_path` of length `size` through a fresh stream.
    pub fn start_download(&mut self, file_path: &str, size: u64, sender: S, receiver: R) -> (download:
        StartedDownload)
        requires
            old(self).wf(),
        ensures
            final(self).wf(),
            exists|keys: KeysView|
                {
                    &&& #[trigger] keys.well_formed()
                    &&& final(self)@ == old(self)@.with_stream(keys, Some(size), sender, receiver)
                    &&& download@ == started(old(self)@.style, file_path@, keys)
                },
    {
        let keys = StreamKeys::fresh();
        let ghost drawn = keys@;
        let download = self.start_download_with(keys, file_path, size, sender, receiver);
        assert(drawn.well_formed());
        download
    }

    /// Hands out the server's own file `file_path` through a stream with the given keys, if its path
    /// is safe, it lies in the server's folder and it is short enough. `folder` and `file` are the folder and the file as
    /// the file system resolves them, for [`check_place`]; `size` is the length of the file. Each is
    /// missing where there is none.
    pub fn serve_server_file_with(
        &mut self,
        keys: StreamKeys,
        file_path: &str,
        folder: &Option<Vec<Vec<u8>>>,
        file: &Option<Vec<Vec<u8>>>,
        size: Option<u64>,
        sender: S,
        receiver: R,
    ) -> (decision: Result<StartedDownload, FileRefusal>)
        requires
            old(self).wf(),
        ensures
            final(self).wf(),
            match served_size(
                old(self)@.style,
                file_path@,
                resolved(*folder),
                resolved(*file),
                size,
                old(self)@.max_stream_bytes,
            ) {
                Ok(_) => {
                    &&& final(self)@ == old(self)@.with_stream(keys@, size, sender, receiver)
                    &&& decision matches Ok(download) && download@ == started(
                        old(self)@.style,
                        file_path@,
                        keys@,
                    )
                },
                Err(refusal) => {
                    &&& final(self)@ == old(self)@
                    &&& decision == Err::<StartedDownload, FileRefusal>(refusal)
                },
            },
    {
        if !self.style.is_safe(file_path) {
            return Err(FileRefusal::InvalidPath);
        }
        match check_place(folder, file) {
            Some(refusal) => Err(refusal),
            None => match check_size(size, self.max_stream_bytes) {
                Err(refusal) => Err(refusal),
                Ok(len) => Ok(self.start_download_with(keys, file_path, len, sender, receiver)),
            },
        }
    }

    /// Hands out the server's own file `file_path` through a fresh stream, if its path is safe, it
    /// lies in the server's folder and it is short enough.
    pub fn serve_server_file(
        &mut self,
        file_path: &str,
        folder: &Option<Vec<Vec<u8>>>,
        file: &Option<Vec<Vec<u8>>>,
        size: Option<u64>,
        sender: S,
        receiver: R,
    ) -> (decision: Result<StartedDownload, FileRefusal>)
        requires
            old(self).wf(),
        ensures
            final(self).wf(),
            match served_size(
                old(self)@.style,
                file_path@,
                resolved(*folder),
                resolved(*file),
                size,
                old(self)@.max_stream_bytes,
            ) {
                Ok(_) => {
                    &&& decision is Ok
                    &&& exists|keys: KeysView|
                        {
                            &&& #[trigger] keys.well_formed()
                            &&& final(self)@ == old(self)@.with_stream(
                                keys,
                                size,
                                sender,
                                receiver,
                            )
                            &&& decision->Ok_0@ == started(old(self)@.style, file_path@, keys)
                        }
                },
                Err(refusal) => {
                    &&& final(self)@ == old(self)@
                    &&& decision == Err::<StartedDownload, FileRefusal>(refusal)
                },
            },
    {
        let keys = StreamKeys::fresh();
        let ghost drawn = keys@;
        let decision = self.serve_server_file_with(
            keys,
            file_path,
            folder,
            file,
            size,
            sender,
            receiver,
        );
        assert(drawn.well_formed());
        decision
    }

    /// Closes the stream of a download whose source could not be asked for the file, and returns
    /// what whoever wanted the file is told.
    pub fn upload_request_failed(&mut self, stream_id: &str) -> (answer: ServerMessage)
        requires
            old(self).wf(),
        ensures
            final(self).wf(),
            final(self)@ == (RelayView {
                streams: old(self)@.streams.remove(stream_id@),
                ..old(self)@
            }),
            answer@ == (ServerMessageView::Error { message: "Could not request file upload"@ }),
    {
        self.streams.remove(stream_id);
        ServerMessage::Error { message: "Could not request file upload".to_string() }
    }
}

/// A download that the console has asked for.
pub struct ConsoleDownload {
    /// Where the file comes from.
    pub source: DownloadSource,
    /// The name under which it is saved.
    pub file_name: String,
}

impl<C, S, R> Relay<C, S, R> {
    /// Finds where a file that the console asks for comes from and what it is saved as, or what the
    /// console is told. The name is never empty. It is the name of one entry of the folder that the
    /// file is saved in, unless it looks like a drive, which only Windows knows.
    pub fn console_download(&self, target_client_id: &str, file_path: &str) -> (decision: Result<
        ConsoleDownload,
        String,
    >)
        requires
            self.wf(),
        ensures
            match (decision, self@.find_source(target_client_id@, file_path@)) {
                (Ok(download), Ok(source)) => {
                    &&& download.source@ == source
                    &&& download.file_name@ == file_name_of(self@.style, source.path())
                    &&& download.file_name@.len() > 0
                    &&& is_plain_name(self@.style, download.file_name@) || self@.style.has_drive(
                        download.file_name@,
                    )
                },
                (Err(text), Err(refusal)) => text@ == refusal.warning(
                    target_client_id@,
                    file_path@,
                ),
                _ => false,
            },
    {
        match self.find_download(target_client_id, file_path) {
            Ok(source) => {
                let file_name = self.style.file_name(source.file_path());
                proof {
                    safe_path_has_a_name(self.style, source@.path());
                }
                Ok(ConsoleDownload { source, file_name })
            },
            Err(refusal) => Err(refusal.warning_text(target_client_id, file_path)),
        }
    }
}

/// What comes from the socket of a client.
pub enum SocketEvent {
    /// A message.
    Message { message: ClientMessage },
    /// A text that is no message.
    Unintelligible,
    /// Something that is no text, such as a ping.
    Ignored,
    /// The client has closed the connection.
    Closed,
    /// The connection has failed.
    Failed,
}

/// What is done about what comes from the socket of a client.
pub enum SocketStep {
    /// The next event is awaited.
    Wait,
    /// The client is served, and the next event is awaited.
    Serve { response: Response },
    /// The connection ends.
    Disconnect,
}

impl<C, S, R> Relay<C, S, R> {
    /// Decides what is done about what comes from the socket of the client `client_id`.
    pub fn socket_event(&mut self, client_id: &str, event: SocketEvent) -> (step: SocketStep)
        requires
            old(self).wf(),
        ensures
            final(self).wf(),
            match event {
                SocketEvent::Message { message } => {
                    &&& final(self)@ == old(self)@.after_message(client_id@, message@)
                    &&& step matches SocketStep::Serve { response } && response@ == old(
                        self,
                    )@.response(message@)
                },
                SocketEvent::Unintelligible | SocketEvent::Ignored => {
                    &&& final(self)@ == old(self)@
                    &&& step is Wait
                },
                SocketEvent::Closed | SocketEvent::Failed => {
                    &&& final(self)@ == old(self)@
                    &&& step is Disconnect
                },
            },
    {
        match event {
            SocketEvent::Message { message } => SocketStep::Serve {
                response: self.handle_message(client_id, message),
            },
            SocketEvent::Unintelligible | SocketEvent::Ignored => SocketStep::Wait,
            SocketEvent::Closed | SocketEvent::Failed => SocketStep::Disconnect,
        }
    }
}

/// An upload that was let in.
pub struct Upload<S> {
    /// Where the chunks go.
    pub sender: S,
    /// How many bytes may come.
    pub meter: UploadMeter,
}

impl<C, S, R> RelayView<C, S, R> {
    /// The status with which a request to upload to the stream `id` is refused, if it is.
    pub open spec fn upload_refusal(self, headers: HeadersView, id: Seq<char>) -> Option<Status> {
        if !headers.bears(self.auth_token) {
            Some(Status::Unauthorized)
        } else if !self.streams.contains_key(id) {
            Some(Status::NotFound)
        } else if !headers.opens(self.streams[id].upload_token) {
            Some(Status::Forbidden)
        } else if self.streams[id].sender is None {
            Some(Status::Conflict)
        } else {
            None
        }
    }

    /// The relay with other streams.
    pub open spec fn with_streams(self, streams: StreamMap<S, R>) -> Self {
        RelayView { streams, ..self }
    }

    /// The relay after a step of an upload to the stream `id`: an upload that was too long takes the
    /// stream with it, and one that has ended leaves what is still to be downloaded.
    pub open spec fn after_upload_step(self, id: Seq<char>, step: UploadStep) -> Self {
        match step {
            UploadStep::Finish(Status::PayloadTooLarge) => self.with_streams(
                self.streams.remove(id),
            ),
            UploadStep::Finish(Status::Success) => self.with_streams(after_upload(self.streams, id)),
            _ => self,
        }
    }

    /// How a request to download from the stream `id` is refused, if it is.
    pub open spec fn download_refusal(self, headers: HeadersView, id: Seq<char>) -> Option<
        RefusalView,
    > {
        if !headers.bears(self.auth_token) {
            Some(RefusalView { status: Status::Unauthorized, body: Seq::empty() })
        } else if !self.streams.contains_key(id) {
            Some(RefusalView { status: Status::NotFound, body: "Stream not found"@ })
        } else if !headers.opens(self.streams[id].download_token) {
            Some(RefusalView { status: Status::Forbidden, body: Seq::empty() })
        } else if self.streams[id].receiver is None {
            Some(RefusalView { status: Status::Conflict, body: "Stream already consumed"@ })
        } else {
            None
        }
    }

    /// The relay after a request to download from the stream `id`.
    pub open spec fn after_download_request(self, headers: HeadersView, id: Seq<char>) -> Self {
        if headers.bears(self.auth_token) && self.streams.contains_key(id) && headers.opens(
            self.streams[id].download_token,
        ) {
            self.with_streams(after_download(self.streams, id))
        } else {
            self
        }
    }
}

impl<C, S, R> Relay<C, S, R> {
    /// Whether a request to connect is let in: by its header, or by the token in its query.
    pub fn admits(&self, headers: &RequestHeaders, query_token: Option<&str>) -> (yes: bool)
        ensures
            yes == (headers@.bears(self@.auth_token) || match query_token {
                Some(token) => token@ == self@.auth_token,
                None => false,
            }),
    {
        if is_authorized(headers, self.auth_token.as_str()) {
            return true;
        }
        match query_token {
            Some(token) => secure_eq(token, self.auth_token.as_str()),
            None => false,
        }
    }

    /// Decides about a request to upload to a stream.
    pub fn handle_upload(&self, headers: &RequestHeaders, stream_id: &str) -> (decision: Result<
        Upload<S>,
        Status,
    >) where S: Clone
        requires
            self.wf(),
        ensures
            match decision {
                Ok(upload) => {
                    let stream = self@.streams[stream_id@];
                    &&& self@.upload_refusal(headers@, stream_id@) is None
                    &&& cloned::<S>(stream.sender->0, upload.sender)
                    &&& upload.meter.wf()
                    &&& upload.meter.received() == 0
                    &&& upload.meter.limit() == upload_limit(
                        stream.expected_size,
                        self@.max_stream_bytes,
                    )
                },
                Err(status) => self@.upload_refusal(headers@, stream_id@) == Some(status),
            },
    {
        if !is_authorized(headers, self.auth_token.as_str()) {
            return Err(Status::Unauthorized);
        }
        match self.streams.get(stream_id) {
            None => Err(Status::NotFound),
            Some(entry) => {
                if !is_stream_token_authorized(headers, entry.upload_token.as_str()) {
                    return Err(Status::Forbidden);
                }
                match &entry.sender {
                    None => Err(Status::Conflict),
                    Some(sender) => Ok(
                        Upload {
                            sender: sender.clone(),
                            meter: UploadMeter::new(entry.expected_size, self.max_stream_bytes),
                        },
                    ),
                }
            },
        }
    }

    /// Decides about an event of an upload to a stream.
    pub fn upload_event(&mut self, stream_id: &str, meter: &mut UploadMeter, event: UploadEvent) -> (step:
        UploadStep)
        requires
            old(self).wf(),
            old(meter).wf(),
        ensures
            final(self).wf(),
            final(meter).wf(),
            step == upload_step(
                old(meter).received(),
                old(meter).limit(),
                event,
            ),
            final(self)@ == old(self)@.after_upload_step(stream_id@, step),
            final(meter).limit() == old(meter).limit(),
            final(meter).received() == match (event, step) {
                (UploadEvent::Chunk(len), UploadStep::Forward) => old(meter).received() + len,
                _ => old(meter).received() as int,
            },
    {
        match event {
            UploadEvent::Chunk(len) => {
                if meter.accept(len) {
                    UploadStep::Forward
                } else {
                    self.streams.remove(stream_id);
                    UploadStep::Finish(Status::PayloadTooLarge)
                }
            },
            UploadEvent::NoData => UploadStep::Wait,
            UploadEvent::ReceiverGone | UploadEvent::End => {
                self.streams.finish_upload(stream_id);
                UploadStep::Finish(Status::Success)
            },
            UploadEvent::BodyError => UploadStep::Finish(Status::BadRequest),
        }
    }

    /// Ends the upload to a stream that the server fills itself.
    pub fn finish_upload(&mut self, stream_id: &str)
        requires
            old(self).wf(),
        ensures
            final(self).wf(),
            final(self)@ == old(self)@.with_streams(after_upload(old(self)@.streams, stream_id@)),
    {
        self.streams.finish_upload(stream_id);
    }

    /// Decides about a request to download from a stream, and hands out its receiver.
    pub fn handle_download(&mut self, headers: &RequestHeaders, stream_id: &str) -> (decision: Result<
        R,
        Refusal,
    >)
        requires
            old(self).wf(),
        ensures
            final(self).wf(),
            final(self)@ == old(self)@.after_download_request(headers@, stream_id@),
            match decision {
                Ok(receiver) => old(self)@.download_refusal(headers@, stream_id@) is None
                    && old(self)@.streams[stream_id@].receiver == Some(receiver),
                Err(refusal) => old(self)@.download_refusal(headers@, stream_id@) == Some(refusal@),
            },
    {
        if !is_authorized(headers, self.auth_token.as_str()) {
            return Err(Refusal { status: Status::Unauthorized, body: String::new() });
        }
        match self.streams.get(stream_id) {
            None => {
                return Err(Refusal::new(Status::NotFound, "Stream not found"));
            },
            Some(entry) => {
                if !is_stream_token_authorized(headers, entry.download_token.as_str()) {
                    return Err(Refusal { status: Status::Forbidden, body: String::new() });
                }
            },
        }
        match self.streams.take_for_download(stream_id) {
            Taken::Receiver(receiver) => Ok(receiver),
            Taken::AlreadyUsed | Taken::NoStream => Err(
                Refusal::new(Status::Conflict, "Stream already consumed"),
            ),
        }
    }

    /// Takes the receiver of a stream for the server itself.
    pub fn take_receiver(&mut self, stream_id: &str) -> (taken: Taken<R>)
        requires
            old(self).wf(),
        ensures
            final(self).wf(),
            final(self)@ == old(self)@.with_streams(after_take(old(self)@.streams, stream_id@)),
            taken == taken_from(old(self)@.streams, stream_id@),
    {
        self.streams.take_receiver(stream_id)
    }

    /// Closes a stream whose time is over or that is no longer needed, and says whether it was open.
    pub fn remove_stream(&mut self, stream_id: &str) -> (was_open: bool)
        requires
            old(self).wf(),
        ensures
            final(self).wf(),
            was_open == old(self)@.streams.contains_key(stream_id@),
            final(self)@ == old(self)@.with_streams(old(self)@.streams.remove(stream_id@)),
    {
        self.streams.remove(stream_id)
    }
}

} // verus!
