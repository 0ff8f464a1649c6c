//! The relay: clients, their folders, and the streams between them.

use aeroshare::downloads::{DownloadRefusal, DownloadSource, StreamKeys};
use aeroshare::folders::{find_registered_file, validate_folder};
use aeroshare::http::{Status, UploadEvent, UploadStep};
use aeroshare::messages::{ClientMessage, FileMetadata, ServerMessage, SharedFolder};
use aeroshare::paths::PathStyle;
use aeroshare::relay::{server_files_list, Relay, Response, SocketEvent, SocketStep};
use aeroshare::reports::{list_connected_clients, list_files_for_target, FilesAnswer};
use aeroshare::secrets::{bearer_header, RequestHeaders};
use aeroshare::server_files::{
    check_place, check_size, collect_files, FileRefusal, WalkedEntry,
};
use aeroshare::streams::{Taken, UploadMeter};

type TestRelay = Relay<u32, String, String>;

fn file(path: &str, size: u64) -> FileMetadata {
    FileMetadata { path: path.to_string(), size }
}

fn relay() -> TestRelay {
    Relay::new("secret".to_string(), 1000, PathStyle::Unix)
}

fn with_folder(files: Vec<FileMetadata>) -> TestRelay {
    let mut relay = relay();
    relay.connect_as("alice".to_string(), 1);
    relay.connect_as("bob".to_string(), 2);
    assert!(matches!(relay.register("alice", SharedFolder { files }), Response::Nothing));
    relay
}

fn headers(token: &str, stream_token: &str) -> RequestHeaders {
    RequestHeaders {
        authorization: bearer_header(token),
        stream_token: Some(stream_token.as_bytes().to_vec()),
    }
}

fn keys() -> StreamKeys {
    StreamKeys {
        stream_id: "stream".to_string(),
        upload_token: "up".to_string(),
        download_token: "down".to_string(),
    }
}

fn with_stream(size: u64) -> TestRelay {
    let mut relay = relay();
    relay.start_download_with(keys(), "docs/a.txt", size, "tx".to_string(), "rx".to_string());
    relay
}

fn text_of(message: &ServerMessage) -> String {
    format!("{:?}", message)
}

fn reply(response: Response) -> String {
    match response {
        Response::Reply { message } => text_of(&message),
        Response::Nothing => "nothing".to_string(),
        Response::CountServerFiles => "count".to_string(),
        Response::ListServerFiles => "list".to_string(),
        Response::Download { .. } => "download".to_string(),
    }
}

fn complaint(style: PathStyle, files: Vec<FileMetadata>) -> String {
    match validate_folder(style, SharedFolder { files }, 1000) {
        Ok(folder) => format!("{} files", folder.files.len()),
        Err(text) => text,
    }
}

#[test]
fn each_fault_of_a_folder_has_its_complaint() {
    let unix = PathStyle::Unix;
    let many: Vec<FileMetadata> = (0..10_001).map(|i| file(&format!("f{}", i), 1)).collect();
    assert_eq!(complaint(unix, many), "Too many registered files; limit is 10000");
    let enough: Vec<FileMetadata> = (0..10_000).map(|i| file(&format!("f{}", i), 1)).collect();
    assert_eq!(complaint(unix, enough), "10000 files");
    assert_eq!(
        complaint(unix, vec![file(&"x".repeat(1025), 1)]),
        "File path is too long; limit is 1024 bytes"
    );
    assert_eq!(complaint(unix, vec![file(&"x".repeat(1024), 1)]), "1 files");
    assert_eq!(
        complaint(unix, vec![file(&"é".repeat(513), 1)]),
        "File path is too long; limit is 1024 bytes"
    );
    assert_eq!(
        complaint(unix, vec![file("..\\a", 1)]),
        "Invalid registered file path: ../a"
    );
    assert_eq!(complaint(unix, vec![file("", 1)]), "Invalid registered file path: ");
    assert_eq!(
        complaint(unix, vec![file("big", 1001)]),
        "Registered file exceeds the stream limit: big"
    );
    assert_eq!(complaint(unix, vec![file("exact", 1000)]), "1 files");
    assert_eq!(
        complaint(unix, vec![file("d/a", 1), file("b", 1), file("d\\a", 2)]),
        "Duplicate registered file path: d/a"
    );
    assert_eq!(
        complaint(unix, vec![file("b", 1), file("/a", 1), file("b", 1)]),
        "Invalid registered file path: /a"
    );
    assert_eq!(
        complaint(PathStyle::Windows, vec![file("C:\\a", 1)]),
        "Invalid registered file path: C:/a"
    );
    assert_eq!(complaint(unix, vec![]), "0 files");
}

#[test]
fn registered_files_are_found_by_their_path() {
    let folder = SharedFolder { files: vec![file("a", 1), file("b", 2)] };
    match find_registered_file(&folder, "b") {
        Some(found) => assert_eq!((found.path.as_str(), found.size), ("b", 2)),
        None => panic!("b is registered"),
    }
    assert!(find_registered_file(&folder, "c").is_none());
}

#[test]
fn what_is_registered_is_listed_with_forward_slashes() {
    let mut relay = with_folder(vec![file("docs\\a.txt", 3), file("b.txt", 4)]);
    let answer = relay.handle_message(
        "bob",
        ClientMessage::ListFiles { target_client_id: "alice".to_string() },
    );
    let expected = ServerMessage::FileList {
        target_client_id: "alice".to_string(),
        files: vec![file("docs/a.txt", 3), file("b.txt", 4)],
    };
    assert_eq!(reply(answer), text_of(&expected));
}

#[test]
fn questions_about_files_are_answered_or_refused() {
    let mut relay = with_folder(vec![]);
    let mut ask = |target: &str| {
        reply(relay.handle_message(
            "bob",
            ClientMessage::ListFiles { target_client_id: target.to_string() },
        ))
    };
    assert_eq!(ask("SERVER"), "list");
    assert_eq!(ask("carol"), "Error { message: \"Client not found: carol\" }");
    assert_eq!(
        ask("bob"),
        "Error { message: \"Client bob has not registered a file list yet\" }"
    );
    assert_eq!(ask("alice"), "FileList { target_client_id: \"alice\", files: [] }");
    assert_eq!(
        text_of(&server_files_list(Some(vec![file("x", 1)]))),
        "FileList { target_client_id: \"server\", files: [FileMetadata { path: \"x\", size: 1 }] }"
    );
    assert_eq!(
        text_of(&server_files_list(None)),
        "Error { message: \"Could not list server files\" }"
    );
}

#[test]
fn targets_are_the_server_and_everyone_connected() {
    let mut relay = with_folder(vec![file("a", 1), file("b", 1)]);
    assert_eq!(reply(relay.handle_message("bob", ClientMessage::ListClients)), "count");
    assert_eq!(
        text_of(&relay.clients_list(Some(5))),
        "ClientsList { clients: [ClientInfo { client_id: \"server\", files_count: 5 }, \
         ClientInfo { client_id: \"alice\", files_count: 2 }, \
         ClientInfo { client_id: \"bob\", files_count: 0 }] }"
    );
    relay.cleanup_client("alice");
    assert_eq!(
        text_of(&relay.clients_list(None)),
        "ClientsList { clients: [ClientInfo { client_id: \"server\", files_count: 0 }, \
         ClientInfo { client_id: \"bob\", files_count: 0 }] }"
    );
}

#[test]
fn clients_get_fresh_identifiers() {
    let mut relay = relay();
    let (first, welcome) = relay.connect(10);
    let (second, _) = relay.connect(11);
    assert_ne!(first, second);
    assert_eq!(text_of(&welcome), format!("Registered {{ client_id: {:?} }}", first));
    for id in [&first, &second] {
        assert_eq!(id.len(), 36);
        for (i, c) in id.chars().enumerate() {
            match i {
                8 | 13 | 18 | 23 => assert_eq!(c, '-'),
                14 => assert_eq!(c, '4'),
                19 => assert!("89ab".contains(c)),
                _ => assert!("0123456789abcdef".contains(c)),
            }
        }
    }
    assert_eq!(relay.clients_count(), 2);
    assert_eq!(relay.client_id_at(1), second);
    assert_eq!(relay.client(&first), Some(&10));
    assert_eq!(relay.client("nobody"), None);
}

fn refusal(relay: &TestRelay, target: &str, path: &str) -> Option<DownloadRefusal> {
    relay.find_download(target, path).err()
}

#[test]
fn each_refused_download_has_its_reason() {
    let relay = with_folder(vec![file("a.txt", 3)]);
    assert_eq!(refusal(&relay, "Server", "../x"), Some(DownloadRefusal::InvalidServerPath));
    assert_eq!(refusal(&relay, "alice", "..\\x"), Some(DownloadRefusal::InvalidTargetPath));
    assert_eq!(refusal(&relay, "carol", "a.txt"), Some(DownloadRefusal::TargetUnavailable));
    assert_eq!(refusal(&relay, "bob", "a.txt"), Some(DownloadRefusal::NoFileList));
    assert_eq!(refusal(&relay, "alice", "b.txt"), Some(DownloadRefusal::NotRegistered));
    assert_eq!(refusal(&relay, "alice", "a.txt"), None);
    assert_eq!(refusal(&relay, "server", "a.txt"), None);

    let replies = [
        (DownloadRefusal::InvalidServerPath, "Invalid server file path"),
        (DownloadRefusal::InvalidTargetPath, "Invalid target file path"),
        (DownloadRefusal::TargetUnavailable, "Target is unavailable"),
        (DownloadRefusal::NoFileList, "Target has not registered a file list yet"),
        (DownloadRefusal::NotRegistered, "File is not registered by target"),
    ];
    for (refusal, text) in replies {
        assert_eq!(refusal.reply_text(), text);
    }
}

#[test]
fn the_console_is_told_why_it_gets_no_file() {
    let relay = with_folder(vec![file("a.txt", 3)]);
    let warning = |target: &str, path: &str| relay.console_download(target, path).err();
    let said = |text: &str| Some(text.to_string());
    assert_eq!(warning("server", "/x"), said("Invalid server file path"));
    assert_eq!(warning("alice", "/x"), said("Invalid target file path"));
    assert_eq!(warning("carol", "x"), said("Client not found: carol"));
    assert_eq!(warning("bob", "x"), said("Client bob has not registered a file list yet"));
    assert_eq!(
        warning("alice", "d\\x"),
        said("Client alice has not registered requested file: d/x")
    );
    match relay.console_download("alice", "a.txt") {
        Ok(download) => {
            assert_eq!(download.file_name, "a.txt");
            match download.source {
                DownloadSource::Client { target_client_id, file_path, size } => {
                    assert_eq!((target_client_id.as_str(), file_path.as_str(), size), ("alice", "a.txt", 3))
                }
                DownloadSource::Server { .. } => panic!("alice has the file"),
            }
        }
        Err(_) => panic!("alice has the file"),
    }
    match relay.console_download("server", "d/./b.txt") {
        Ok(download) => assert_eq!(download.file_name, "b.txt"),
        Err(_) => panic!("the path is safe"),
    }
}

#[test]
fn registered_files_can_be_asked_for() {
    let mut relay = with_folder(vec![file("docs\\a.txt", 3)]);
    let response = relay.handle_message(
        "bob",
        ClientMessage::RequestDownload {
            target_client_id: "alice".to_string(),
            file_path: "docs\\a.txt".to_string(),
        },
    );
    match response {
        Response::Download { source: DownloadSource::Client { target_client_id, file_path, size } } => {
            assert_eq!((target_client_id.as_str(), file_path.as_str(), size), ("alice", "docs/a.txt", 3))
        }
        _ => panic!("the file is registered"),
    }
    let refused = relay.handle_message(
        "bob",
        ClientMessage::RequestDownload {
            target_client_id: "alice".to_string(),
            file_path: "other".to_string(),
        },
    );
    assert_eq!(reply(refused), "Error { message: \"File is not registered by target\" }");
}

#[test]
fn a_refused_registration_leaves_the_old_folder() {
    let mut relay = with_folder(vec![file("a.txt", 3)]);
    let response = relay.handle_message(
        "alice",
        ClientMessage::Register { folder: SharedFolder { files: vec![file("../b", 1)] } },
    );
    assert_eq!(reply(response), "Error { message: \"Invalid registered file path: ../b\" }");
    assert!(relay.find_download("alice", "a.txt").is_ok());
    relay.register("alice", SharedFolder { files: vec![file("c", 1)] });
    assert!(relay.find_download("alice", "a.txt").is_err());
    assert!(relay.find_download("alice", "c").is_ok());
}

#[test]
fn a_client_that_has_gone_is_forgotten() {
    let mut relay = with_folder(vec![file("a.txt", 3)]);
    relay.cleanup_client("alice");
    assert_eq!(refusal(&relay, "alice", "a.txt"), Some(DownloadRefusal::TargetUnavailable));
    assert!(relay.folder("alice").is_none());
    assert_eq!(relay.client("bob"), Some(&2));
    relay.connect_as("alice".to_string(), 3);
    assert_eq!(refusal(&relay, "alice", "a.txt"), Some(DownloadRefusal::NoFileList));
}

#[test]
fn sockets_are_served_until_they_close() {
    let mut relay = with_folder(vec![]);
    assert!(matches!(
        relay.socket_event("bob", SocketEvent::Message { message: ClientMessage::ListClients }),
        SocketStep::Serve { response: Response::CountServerFiles }
    ));
    assert!(matches!(relay.socket_event("bob", SocketEvent::Unintelligible), SocketStep::Wait));
    assert!(matches!(relay.socket_event("bob", SocketEvent::Ignored), SocketStep::Wait));
    assert!(matches!(relay.socket_event("bob", SocketEvent::Closed), SocketStep::Disconnect));
    assert!(matches!(relay.socket_event("bob", SocketEvent::Failed), SocketStep::Disconnect));
}

#[test]
fn sockets_are_admitted_by_header_or_query() {
    let relay = relay();
    let nothing = RequestHeaders { authorization: None, stream_token: None };
    assert!(relay.admits(&headers("secret", ""), None));
    assert!(relay.admits(&nothing, Some("secret")));
    assert!(!relay.admits(&nothing, Some("Secret")));
    assert!(!relay.admits(&headers("wrong", ""), None));
    assert!(!relay.admits(&nothing, None));
}

#[test]
fn both_sides_of_a_download_are_told_what_they_need() {
    let mut relay = relay();
    let download =
        relay.start_download_with(keys(), "docs/a.txt", 3, "tx".to_string(), "rx".to_string());
    assert_eq!(download.stream_id, "stream");
    assert_eq!(
        text_of(&download.ready),
        "DownloadReady { stream_id: \"stream\", file_name: \"a.txt\", stream_token: \"down\" }"
    );
    assert_eq!(
        text_of(&download.instruction),
        "UploadInstruction { file_path: \"docs/a.txt\", stream_id: \"stream\", stream_token: \"up\" }"
    );
    let fresh = relay.start_download("b.txt", 3, "tx".to_string(), "rx".to_string());
    match (&fresh.ready, &fresh.instruction) {
        (
            ServerMessage::DownloadReady { stream_id, stream_token: down, .. },
            ServerMessage::UploadInstruction { stream_id: same, stream_token: up, .. },
        ) => {
            assert_eq!(stream_id, same);
            assert_eq!(stream_id.len(), 36);
            assert_eq!((down.len(), up.len()), (48, 48));
            assert_ne!(down, up);
            assert!(relay.handle_upload(&headers("secret", up), stream_id).is_ok());
            assert_eq!(
                relay.handle_download(&headers("secret", down), stream_id).ok(),
                Some("rx".to_string())
            );
        }
        _ => panic!("a download has two sides"),
    }
}

#[test]
fn uploads_are_let_in_with_both_tokens() {
    let mut relay = with_stream(3);
    let status = |relay: &TestRelay, token: &str, stream_token: &str, id: &str| {
        relay.handle_upload(&headers(token, stream_token), id).err()
    };
    assert_eq!(status(&relay, "wrong", "up", "stream"), Some(Status::Unauthorized));
    assert_eq!(status(&relay, "secret", "up", "other"), Some(Status::NotFound));
    assert_eq!(status(&relay, "secret", "down", "stream"), Some(Status::Forbidden));
    assert_eq!(status(&relay, "secret", "up", "stream"), None);
    match relay.handle_upload(&headers("secret", "up"), "stream") {
        Ok(upload) => assert_eq!(upload.sender, "tx"),
        Err(_) => panic!("both tokens are right"),
    }
    relay.finish_upload("stream");
    assert_eq!(status(&relay, "secret", "up", "stream"), Some(Status::Conflict));
}

fn download(relay: &mut TestRelay, token: &str, stream_token: &str, id: &str) -> (u16, String) {
    match relay.handle_download(&headers(token, stream_token), id) {
        Ok(receiver) => (Status::Success.code(), receiver),
        Err(refusal) => (refusal.status.code(), refusal.body),
    }
}

#[test]
fn a_receiver_is_given_out_once() {
    let mut relay = with_stream(3);
    assert_eq!(download(&mut relay, "wrong", "down", "stream"), (401, String::new()));
    assert_eq!(
        download(&mut relay, "secret", "down", "other"),
        (404, "Stream not found".to_string())
    );
    assert_eq!(download(&mut relay, "secret", "up", "stream"), (403, String::new()));
    assert_eq!(download(&mut relay, "secret", "down", "stream"), (200, "rx".to_string()));
    assert_eq!(
        download(&mut relay, "secret", "down", "stream"),
        (409, "Stream already consumed".to_string())
    );
    assert!(relay.handle_upload(&headers("secret", "up"), "stream").is_ok());
    relay.finish_upload("stream");
    assert_eq!(
        download(&mut relay, "secret", "down", "stream"),
        (404, "Stream not found".to_string())
    );
}

#[test]
fn an_upload_may_end_before_its_download_begins() {
    let mut relay = with_stream(3);
    relay.finish_upload("stream");
    assert_eq!(download(&mut relay, "secret", "down", "stream"), (200, "rx".to_string()));
    assert!(!relay.remove_stream("stream"));
}

#[test]
fn a_stream_with_nothing_left_is_closed_by_the_next_download() {
    let mut relay = with_stream(3);
    relay.finish_upload("stream");
    assert!(matches!(relay.take_receiver("stream"), Taken::Receiver(_)));
    assert_eq!(download(&mut relay, "secret", "down", "stream").0, 409);
    assert_eq!(download(&mut relay, "secret", "down", "stream").0, 404);
}

#[test]
fn an_upload_is_cut_off_at_its_limit() {
    let mut relay = with_stream(10);
    let mut meter = match relay.handle_upload(&headers("secret", "up"), "stream") {
        Ok(upload) => upload.meter,
        Err(_) => panic!("both tokens are right"),
    };
    let mut event = |meter: &mut UploadMeter, event: UploadEvent| {
        relay.upload_event("stream", meter, event)
    };
    assert_eq!(event(&mut meter, UploadEvent::Chunk(6)), UploadStep::Forward);
    assert_eq!(event(&mut meter, UploadEvent::NoData), UploadStep::Wait);
    assert_eq!(event(&mut meter, UploadEvent::Chunk(4)), UploadStep::Forward);
    assert_eq!(event(&mut meter, UploadEvent::Chunk(0)), UploadStep::Forward);
    assert_eq!(
        event(&mut meter, UploadEvent::Chunk(1)),
        UploadStep::Finish(Status::PayloadTooLarge)
    );
    assert_eq!(download(&mut relay, "secret", "down", "stream").0, 404);
}

#[test]
fn an_upload_ends_with_its_body_or_its_receiver() {
    for (event, status, left) in [
        (UploadEvent::End, Status::Success, Some(Status::Conflict)),
        (UploadEvent::ReceiverGone, Status::Success, Some(Status::Conflict)),
        (UploadEvent::BodyError, Status::BadRequest, None),
    ] {
        let mut relay = with_stream(10);
        let mut meter = UploadMeter::new(Some(10), 1000);
        assert_eq!(
            relay.upload_event("stream", &mut meter, event),
            UploadStep::Finish(status)
        );
        assert_eq!(relay.handle_upload(&headers("secret", "up"), "stream").err(), left);
    }
}

#[test]
fn a_meter_goes_by_the_smaller_limit() {
    let fits = |expected: Option<u64>, max: u64, len: u64| UploadMeter::new(expected, max).accept(len);
    assert!(fits(Some(5), 10, 5));
    assert!(!fits(Some(5), 10, 6));
    assert!(fits(Some(50), 10, 10));
    assert!(!fits(Some(50), 10, 11));
    assert!(fits(None, 10, 10));
    assert!(!fits(None, 10, 11));
    let mut meter = UploadMeter::new(None, u64::MAX);
    assert!(meter.accept(u64::MAX));
    assert!(!meter.accept(1));
    assert!(meter.accept(0));
}

#[test]
fn the_console_takes_a_receiver_for_itself() {
    let mut relay = with_stream(3);
    assert_eq!(relay.take_receiver("stream").into_result(), Ok("rx".to_string()));
    assert_eq!(
        relay.take_receiver("stream").into_result(),
        Err("Download stream has already been used".to_string())
    );
    assert_eq!(
        relay.take_receiver("other").into_result(),
        Err("Download stream does not exist".to_string())
    );
    assert!(relay.remove_stream("stream"));
    assert!(!relay.remove_stream("stream"));
}

#[test]
fn a_download_whose_source_cannot_be_asked_is_closed() {
    let mut relay = with_stream(3);
    assert_eq!(
        text_of(&relay.upload_request_failed("stream")),
        "Error { message: \"Could not request file upload\" }"
    );
    assert_eq!(download(&mut relay, "secret", "down", "stream").0, 404);
}

#[test]
fn what_happens_to_one_stream_leaves_the_others() {
    let mut relay = with_stream(3);
    let other = StreamKeys {
        stream_id: "other".to_string(),
        upload_token: "up2".to_string(),
        download_token: "down2".to_string(),
    };
    relay.create_stream(&other, None, "tx2".to_string(), "rx2".to_string());
    relay.finish_upload("stream");
    assert_eq!(download(&mut relay, "secret", "down", "stream").0, 200);
    assert_eq!(download(&mut relay, "secret", "down", "other").0, 403);
    assert!(relay.handle_upload(&headers("secret", "up2"), "other").is_ok());
    assert_eq!(download(&mut relay, "secret", "down2", "other"), (200, "rx2".to_string()));
}

fn place(path: &[&str]) -> Option<Vec<Vec<u8>>> {
    Some(path.iter().map(|part| part.as_bytes().to_vec()).collect())
}

#[test]
fn only_files_in_the_folder_are_served() {
    let folder = place(&["/", "srv"]);
    assert_eq!(check_place(&folder, &place(&["/", "srv", "a"])), None);
    assert_eq!(check_place(&folder, &place(&["/", "etc", "a"])), Some(FileRefusal::OutsideFolder));
    assert_eq!(check_place(&folder, &None), Some(FileRefusal::OutsideFolder));
    assert_eq!(check_place(&None, &place(&["/", "srv"])), Some(FileRefusal::FolderUnavailable));
    assert_eq!(check_place(&None, &None), Some(FileRefusal::FolderUnavailable));
    assert_eq!(check_size(Some(10), 10), Ok(10));
    assert_eq!(check_size(Some(11), 10), Err(FileRefusal::TooLarge { limit: 10 }));
    assert_eq!(check_size(None, 10), Err(FileRefusal::Missing));

    let replies = [
        (FileRefusal::InvalidPath, "Invalid server file path"),
        (FileRefusal::FolderUnavailable, "Server file folder is unavailable"),
        (FileRefusal::OutsideFolder, "Server file does not exist or is outside the folder"),
        (FileRefusal::Missing, "Server file does not exist"),
        (
            FileRefusal::TooLarge { limit: 1000 },
            "Server file is larger than the configured stream limit (1000 bytes)",
        ),
    ];
    for (refusal, text) in replies {
        assert_eq!(refusal.reply_text(), text);
    }
}

#[test]
fn server_files_are_streamed_if_they_are_in_place_and_short_enough() {
    let mut relay = relay();
    let folder = place(&["/", "srv"]);
    let inside = place(&["/", "srv", "d", "a.txt"]);
    let outside = place(&["/", "etc", "a.txt"]);
    let serve = |relay: &mut TestRelay, folder, file, size: Option<u64>| {
        relay.serve_server_file(
            "d/a.txt",
            folder,
            file,
            size,
            "tx".to_string(),
            "rx".to_string(),
        )
    };
    assert_eq!(
        serve(&mut relay, &folder, &inside, Some(1001)).err(),
        Some(FileRefusal::TooLarge { limit: 1000 })
    );
    assert_eq!(serve(&mut relay, &folder, &inside, None).err(), Some(FileRefusal::Missing));
    assert_eq!(
        serve(&mut relay, &folder, &outside, Some(2000)).err(),
        Some(FileRefusal::OutsideFolder)
    );
    assert_eq!(
        serve(&mut relay, &folder, &None, Some(3)).err(),
        Some(FileRefusal::OutsideFolder)
    );
    assert_eq!(
        serve(&mut relay, &None, &inside, Some(3)).err(),
        Some(FileRefusal::FolderUnavailable)
    );
    match serve(&mut relay, &folder, &inside, Some(1000)) {
        Ok(download) => match download.ready {
            ServerMessage::DownloadReady { stream_id, file_name, stream_token } => {
                assert_eq!(file_name, "a.txt");
                assert_eq!(
                    relay.handle_download(&headers("secret", &stream_token), &stream_id).ok(),
                    Some("rx".to_string())
                );
            }
            _ => panic!("whoever asked is told"),
        },
        Err(_) => panic!("the file is short enough"),
    }
    let unsafe_path = relay.serve_server_file(
        "../srv/d/a.txt",
        &folder,
        &inside,
        Some(3),
        "tx".to_string(),
        "rx".to_string(),
    );
    assert_eq!(unsafe_path.err(), Some(FileRefusal::InvalidPath));
    let serve_with = |relay: &mut TestRelay, file, size| {
        relay.serve_server_file_with(
            keys(),
            "a",
            &folder,
            file,
            Some(size),
            "tx".to_string(),
            "rx".to_string(),
        )
    };
    assert!(serve_with(&mut relay, &outside, 3).is_err());
    assert!(serve_with(&mut relay, &inside, 2000).is_err());
    assert!(!relay.remove_stream("stream"));
    assert!(serve_with(&mut relay, &inside, 3).is_ok());
    assert!(relay.remove_stream("stream"));
}

#[test]
fn a_walk_lists_its_files() {
    let found = |walk: Vec<WalkedEntry>| match collect_files(walk) {
        Ok(files) => files.iter().map(|f| format!("{} {}", f.path, f.size)).collect::<Vec<String>>(),
        Err(error) => vec![format!("error {}", error)],
    };
    let a = || WalkedEntry::File { path: "d\\a".to_string(), size: 1 };
    let b = || WalkedEntry::File { path: "b".to_string(), size: 2 };
    assert!(found(vec![]).is_empty());
    assert_eq!(
        found(vec![WalkedEntry::NotAFile, a(), WalkedEntry::Unreachable, b()]),
        vec!["d/a 1", "b 2"]
    );
    assert_eq!(
        found(vec![
            a(),
            WalkedEntry::Unreadable { error: "first".to_string() },
            WalkedEntry::Unreadable { error: "second".to_string() },
        ]),
        vec!["error first"]
    );
}

#[test]
fn the_console_lists_who_is_connected() {
    let empty = relay();
    assert_eq!(
        list_connected_clients(&empty, &Err("gone".to_string())),
        vec![
            "Error listing server files: gone",
            "Available targets:",
            "- server (0 files)",
            "  no files",
            "No connected clients",
        ]
    );
    let mut relay = with_folder(vec![file("a.txt", 3)]);
    relay.connect_as("carol".to_string(), 3);
    relay.register("carol", SharedFolder { files: vec![] });
    assert_eq!(
        list_connected_clients(&relay, &Ok(vec![file("s.txt", 9)])),
        vec![
            "Available targets:",
            "- server (1 files)",
            "  - s.txt (9 B)",
            "Connected clients:",
            "- alice (1 files)",
            "  - a.txt (3 B)",
            "- bob (no registered file list)",
            "- carol (0 files)",
            "  no files",
        ]
    );
}

#[test]
fn the_console_lists_the_files_of_a_target() {
    let relay = with_folder(vec![file("a.txt", 3)]);
    let lines = |target: &str| match list_files_for_target(&relay, target) {
        FilesAnswer::Lines { lines } => lines,
        FilesAnswer::ListServerFiles => vec!["own files".to_string()],
    };
    assert_eq!(lines("Server"), vec!["own files"]);
    assert_eq!(lines("alice"), vec!["Files for alice:", "- a.txt (3 B)"]);
    assert_eq!(lines("bob"), vec!["Client bob has not registered a file list yet"]);
    assert_eq!(lines("dave"), vec!["Client not found: dave"]);
}

#[test]
fn status_codes_have_their_numbers() {
    let codes: Vec<u16> = [
        Status::Success,
        Status::BadRequest,
        Status::Unauthorized,
        Status::Forbidden,
        Status::NotFound,
        Status::Conflict,
        Status::PayloadTooLarge,
    ]
    .iter()
    .map(|status| status.code())
    .collect();
    assert_eq!(codes, vec![200, 400, 401, 403, 404, 409, 413]);
}

#[test]
fn kept_folders_are_accepted_again_as_they_are() {
    let folder = SharedFolder { files: vec![file("d\\a", 1), file("b", 2)] };
    let kept = match validate_folder(PathStyle::Unix, folder, 1000) {
        Ok(kept) => kept,
        Err(text) => panic!("{}", text),
    };
    let shown = format!("{:?}", kept);
    match validate_folder(PathStyle::Unix, kept, 1000) {
        Ok(again) => assert_eq!(format!("{:?}", again), shown),
        Err(text) => panic!("{}", text),
    }
}

#[test]
fn a_newcomer_who_goes_leaves_no_trace() {
    let mut relay = with_folder(vec![file("a", 1)]);
    let before = text_of(&relay.clients_list(Some(1)));
    relay.connect_as("carol".to_string(), 3);
    assert_ne!(text_of(&relay.clients_list(Some(1))), before);
    assert_eq!(relay.client_id_at(2), "carol");
    relay.cleanup_client("carol");
    assert_eq!(text_of(&relay.clients_list(Some(1))), before);
}

#[test]
fn expired_streams_are_not_found() {
    let mut relay = with_stream(3);
    assert!(relay.remove_stream("stream"));
    assert_eq!(
        relay.handle_upload(&headers("secret", "up"), "stream").err(),
        Some(Status::NotFound)
    );
    assert_eq!(
        download(&mut relay, "secret", "down", "stream"),
        (404, "Stream not found".to_string())
    );
}

#[test]
fn refused_requests_change_nothing() {
    let mut relay = with_stream(3);
    for (token, stream_token) in [("wrong", "down"), ("secret", "wrong"), ("secret", "up")] {
        assert_ne!(download(&mut relay, token, stream_token, "stream").0, 200);
    }
    assert_eq!(download(&mut relay, "secret", "down", "stream"), (200, "rx".to_string()));
    assert_eq!(download(&mut relay, "secret", "down", "stream").0, 409);
    assert_eq!(download(&mut relay, "secret", "down", "stream").0, 409);
    assert!(relay.handle_upload(&headers("secret", "up"), "stream").is_ok());
}
