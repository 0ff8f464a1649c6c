//! The consoles of the server and of the client, and how both are set up.

use aeroshare::client::{
    client_token, handle_server_message, saved_name, server_event, stream_url, ws_url,
    ClientAction, ClientStep, ServerEvent,
};
use aeroshare::commands::{
    parse_client_command, parse_server_command, HELP, SERVER_GREETING, USAGE,
};
use aeroshare::config::{
    number_setting, read_u64_env, server_token, ServerToken, DEFAULT_MAX_STREAM_BYTES,
    DEFAULT_STREAM_TTL_SECS,
};
use aeroshare::messages::{ClientInfo, FileMetadata, ServerMessage};
use aeroshare::paths::PathStyle;
use aeroshare::reports::{list_server_files, print_files, print_targets};
use aeroshare::text::to_decimal;

fn server(line: &str) -> String {
    format!("{:?}", parse_server_command(line))
}

fn client(line: &str) -> String {
    format!("{:?}", parse_client_command(line))
}

fn sent(line: &str) -> String {
    match parse_client_command(line).to_message() {
        Some(message) => format!("{:?}", message),
        None => "nothing".to_string(),
    }
}

#[test]
fn server_console_knows_its_commands() {
    assert_eq!(server(""), "Nothing");
    assert_eq!(server("  \t "), "Nothing");
    assert_eq!(server("help"), "Help");
    assert_eq!(server(" HELP\r"), "Help");
    assert_eq!(server("clients"), "Clients");
    assert_eq!(server("Server-Files"), "Files { target_client_id: \"server\" }");
    assert_eq!(server("files server"), server("server-files"));
    assert_eq!(server("files abc"), "Files { target_client_id: \"abc\" }");
    assert_eq!(
        server("download abc docs\\my file.txt"),
        "Download { target_client_id: \"abc\", file_path: \"docs/my file.txt\" }"
    );
    assert_eq!(
        server("DOWNLOAD Server   a.txt"),
        "Download { target_client_id: \"Server\", file_path: \"a.txt\" }"
    );
    assert_eq!(server("files"), "Unknown");
    assert_eq!(server("files abc def"), "Unknown");
    assert_eq!(server("files  abc"), "Unknown");
    assert_eq!(server("download abc"), "Unknown");
    assert_eq!(server("download  abc"), "Unknown");
    assert_eq!(server("clients now"), "Unknown");
    assert_eq!(server("helpme"), "Unknown");
}

#[test]
fn client_console_sends_messages() {
    assert_eq!(sent("clients"), "ListClients");
    assert_eq!(sent("server-files"), "ListFiles { target_client_id: \"server\" }");
    assert_eq!(sent("files server"), sent("server-files"));
    assert_eq!(sent("Files abc"), "ListFiles { target_client_id: \"abc\" }");
    assert_eq!(
        sent("download 8f3c2f6a-0f6d-4c57-9c6e-cf7f9d6f4b1a test.txt"),
        "RequestDownload { target_client_id: \"8f3c2f6a-0f6d-4c57-9c6e-cf7f9d6f4b1a\", file_path: \"test.txt\" }"
    );
    assert_eq!(
        sent("download server sub\\test.txt"),
        "RequestDownload { target_client_id: \"server\", file_path: \"sub/test.txt\" }"
    );
    assert_eq!(sent("help"), "nothing");
    assert_eq!(sent(""), "nothing");
    assert_eq!(sent("upload x"), "nothing");
    assert_eq!(client("help"), "Help");
    assert_eq!(client(" "), "Nothing");
    assert_eq!(client("clients x"), "Unknown");
    assert_eq!(client("server-files  x"), "Unknown");
}

#[test]
fn both_consoles_read_a_line_alike() {
    let lines = [
        "", "help", "clients", "CLIENTS ", "clients  x", "files a", "files a b", "download a b",
        "download a  b c ", "nonsense", "\u{a0}clients\u{a0}", "clients \u{a0}x", "files",
    ];
    for line in lines {
        assert_eq!(server(line), client(line), "{:?}", line);
    }
}

#[test]
fn the_consoles_tell_their_commands() {
    assert_eq!(HELP, "Commands: clients, server-files, files <client_id|server>, download <client_id|server> <file_path>, help");
    assert_eq!(SERVER_GREETING, format!("Server {}", HELP.replace("Commands", "commands")));
    assert_eq!(USAGE, "Unknown command. Usage: clients, server-files, files <client_id|server>, download <client_id|server> <file_path>");
}

fn file(path: &str, size: u64) -> FileMetadata {
    FileMetadata { path: path.to_string(), size }
}

#[test]
fn listings_are_printed_line_by_line() {
    assert_eq!(print_files("abc", &vec![]), vec!["No files for: abc"]);
    assert_eq!(
        print_files("abc", &vec![file("a.txt", 3), file("d/b.bin", 1_000_000)]),
        vec!["Files for abc:", "- a.txt (3 B)", "- d/b.bin (1000000 B)"]
    );
    assert_eq!(
        list_server_files(&Ok(vec![file("a.txt", 0)])),
        vec!["Files for server:", "- a.txt (0 B)"]
    );
    assert_eq!(
        list_server_files(&Err("no access".to_string())),
        vec!["Error listing server files: no access"]
    );
    assert_eq!(print_targets(&vec![]), vec!["No available targets"]);
    assert_eq!(
        print_targets(&vec![ClientInfo { client_id: "server".to_string(), files_count: 12 }]),
        vec!["Available targets:", "- server (12 files)"]
    );
}

fn shown(message: ServerMessage) -> Vec<String> {
    match handle_server_message(PathStyle::Unix, message) {
        ClientAction::Show { lines } => lines,
        _ => vec!["something else".to_string()],
    }
}

#[test]
fn clients_show_what_the_server_tells_them() {
    assert_eq!(
        shown(ServerMessage::Registered { client_id: "abc".to_string() }),
        vec!["Registered successfully. My ID: abc"]
    );
    assert_eq!(
        shown(ServerMessage::ClientsList { clients: vec![] }),
        vec!["No available targets"]
    );
    assert_eq!(
        shown(ServerMessage::FileList {
            target_client_id: "abc".to_string(),
            files: vec![file("a.txt", 5)],
        }),
        vec!["Files for abc:", "- a.txt (5 B)"]
    );
    let error = ServerMessage::Error { message: "Target is unavailable".to_string() };
    match handle_server_message(PathStyle::Unix, error) {
        ClientAction::Complain { text } => assert_eq!(text, "Server error: Target is unavailable"),
        _ => panic!("an error is complained about"),
    }
}

fn instruction(path: &str) -> ServerMessage {
    ServerMessage::UploadInstruction {
        file_path: path.to_string(),
        stream_id: "id".to_string(),
        stream_token: "token".to_string(),
    }
}

#[test]
fn clients_upload_only_from_safe_paths() {
    match handle_server_message(PathStyle::Unix, instruction("sub/a.txt")) {
        ClientAction::Upload { file_path, stream_id, stream_token } => {
            assert_eq!(file_path, "sub/a.txt");
            assert_eq!(stream_id, "id");
            assert_eq!(stream_token, "token");
        }
        _ => panic!("a safe path is uploaded"),
    }
    for path in ["../a.txt", "/etc/passwd", "", "./a.txt"] {
        match handle_server_message(PathStyle::Unix, instruction(path)) {
            ClientAction::RefuseUpload { text } => {
                assert_eq!(text, format!("Invalid file path structure: {}", path))
            }
            _ => panic!("an unsafe path is refused"),
        }
    }
}

#[test]
fn clients_save_under_a_plain_name() {
    let ready = ServerMessage::DownloadReady {
        stream_id: "id".to_string(),
        file_name: "../../evil.txt".to_string(),
        stream_token: "token".to_string(),
    };
    match handle_server_message(PathStyle::Unix, ready) {
        ClientAction::Download { stream_id, file_name, stream_token } => {
            assert_eq!((stream_id.as_str(), stream_token.as_str()), ("id", "token"));
            assert_eq!(saved_name(PathStyle::Unix, &file_name), Ok("evil.txt".to_string()));
        }
        _ => panic!("a download is started"),
    }
    let complaint = Err("Server returned an empty file name".to_string());
    assert_eq!(saved_name(PathStyle::Unix, ""), complaint);
    assert_eq!(saved_name(PathStyle::Unix, "a/.."), complaint);
    assert_eq!(saved_name(PathStyle::Windows, "C:\\x\\y.txt"), Ok("y.txt".to_string()));
    assert_eq!(saved_name(PathStyle::Windows, "\\\\server\\share"), complaint);
    assert_eq!(saved_name(PathStyle::Windows, "\\\\.\\COM1"), complaint);
    assert_eq!(saved_name(PathStyle::Windows, "\\\\?\\C:"), complaint);
    assert_eq!(saved_name(PathStyle::Windows, "a/C:b"), Ok("C:b".to_string()));
}

#[test]
fn addresses_are_made_from_the_server_url() {
    assert_eq!(ws_url("127.0.0.1:5000"), "ws://127.0.0.1:5000/ws");
    assert_eq!(stream_url("127.0.0.1:5000", "abc"), "http://127.0.0.1:5000/stream/abc");
}

#[test]
fn client_token_comes_from_the_environment_or_the_file() {
    assert_eq!(client_token(Some(" x "), Some("y")), Ok(" x ".to_string()));
    assert_eq!(client_token(None, Some(" y\n")), Ok("y".to_string()));
    let complaint = Err("Token cannot be empty".to_string());
    assert_eq!(client_token(Some(""), Some("y")), complaint);
    assert_eq!(client_token(None, Some(" \n")), complaint);
}

#[test]
fn server_token_is_configured_kept_or_fresh() {
    match server_token(Some(" abc\n"), Some("file")) {
        Ok(ServerToken::Configured { token }) => assert_eq!(token, "abc"),
        _ => panic!("the configured token is used"),
    }
    match server_token(Some(" \n"), Some("file")) {
        Err(complaint) => assert_eq!(complaint, "SERVER_TOKEN cannot be empty"),
        _ => panic!("an empty token is refused"),
    }
    match server_token(None, Some("file\n")) {
        Ok(ServerToken::Kept { token }) => assert_eq!(token, "file"),
        _ => panic!("the kept token is used"),
    }
    match server_token(None, None) {
        Ok(ServerToken::Fresh { token }) => {
            assert_eq!(token.len(), 48);
            match server_token(None, Some(&token)) {
                Ok(ServerToken::Kept { token: again }) => assert_eq!(again, token),
                _ => panic!("a fresh token is kept"),
            }
            assert_eq!(client_token(None, Some(&token)), Ok(token));
        }
        _ => panic!("a token is made"),
    }
}

#[test]
fn number_settings_are_read_or_complained_about() {
    assert_eq!(DEFAULT_MAX_STREAM_BYTES, 1_073_741_824);
    assert_eq!(DEFAULT_STREAM_TTL_SECS, 600);
    assert_eq!(read_u64_env("N", None, 7), Ok(7));
    assert_eq!(read_u64_env("N", Some("0"), 7), Ok(0));
    assert_eq!(read_u64_env("N", Some("+0042"), 7), Ok(42));
    assert_eq!(read_u64_env("N", Some("18446744073709551615"), 7), Ok(u64::MAX));
    assert_eq!(
        read_u64_env("MAX_STREAM_BYTES", Some("many"), 7),
        Err("Invalid MAX_STREAM_BYTES value: invalid digit found in string".to_string())
    );
    for text in ["", "-1", " 1", "1 ", "1_000", "+", "++1", "18446744073709551616", "0x10"] {
        let words = match text.parse::<u64>() {
            Ok(_) => panic!("{:?} is no number", text),
            Err(error) => error.to_string(),
        };
        assert_eq!(
            read_u64_env("N", Some(text), 7),
            Err(format!("Invalid N value: {}", words))
        );
    }
    assert_eq!(number_setting("N", Ok(3)), Ok(3));
    assert_eq!(number_setting("N", Err("why".to_string())), Err("Invalid N value: why".to_string()));
}

#[test]
fn numbers_are_read_back() {
    for n in [0, 9, 10, 600, 1_073_741_824, u64::MAX] {
        assert_eq!(read_u64_env("N", Some(&to_decimal(n)), 1), Ok(n));
    }
}

#[test]
fn clients_go_on_until_the_connection_ends() {
    let step = |event: ServerEvent| match server_event(PathStyle::Unix, event) {
        ClientStep::Wait => "wait",
        ClientStep::Follow { action: ClientAction::Upload { .. } } => "upload",
        ClientStep::Follow { action: ClientAction::RefuseUpload { .. } } => "refuse",
        ClientStep::Follow { .. } => "follow",
        ClientStep::End { report_disconnect: true } => "disconnected",
        ClientStep::End { report_disconnect: false } => "closed",
    };
    assert_eq!(step(ServerEvent::Message { message: instruction("a") }), "upload");
    assert_eq!(step(ServerEvent::Message { message: instruction("../a") }), "refuse");
    let error = ServerMessage::Error { message: "x".to_string() };
    assert_eq!(step(ServerEvent::Message { message: error }), "follow");
    assert_eq!(step(ServerEvent::Unreadable), "wait");
    assert_eq!(step(ServerEvent::Ignored), "wait");
    assert_eq!(step(ServerEvent::Closed), "closed");
    assert_eq!(step(ServerEvent::Failed), "disconnected");
    assert_eq!(step(ServerEvent::Ended), "disconnected");
}
