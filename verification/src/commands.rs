//! What is typed at the consoles of the server and of the client.
//!
//! A line is trimmed, then split at its first two spaces into a command, a target and a path; the
//! target and the path are trimmed in turn. Commands are known in capitals and in small letters.

use vstd::prelude::*;
use crate::messages::ClientMessage;
use crate::messages::ClientMessageView;
use crate::text::ascii_lower;
use crate::text::eq_ignore_ascii_case;
use crate::text::first_space;
use crate::text::first_space_is_first;
use crate::text::head;
use crate::text::is_empty;
use crate::text::same_ignoring_case;
use crate::text::split_at_space;
use crate::text::tail;
use crate::text::trim;
use crate::text::trimmed;
use crate::text::trimmed_is_trimmed;
use crate::text::use_forward_slashes;
use crate::text::white_space;
use crate::text::with_forward_slashes;

verus! {

/// What the server prints when it starts to listen to its console.
pub const SERVER_GREETING: &'static str =
    "Server commands: clients, server-files, files <client_id|server>, download <client_id|server> <file_path>, help";

/// The answer to `help`, at both consoles.
pub const HELP: &'static str =
    "Commands: clients, server-files, files <client_id|server>, download <client_id|server> <file_path>, help";

/// The answer to a line that is no command, at both consoles.
pub const USAGE: &'static str =
    "Unknown command. Usage: clients, server-files, files <client_id|server>, download <client_id|server> <file_path>";

/// A line in three parts.
struct Parts {
    command: String,
    target: String,
    path: String,
}

/// The target on a trimmed line.
pub open spec fn target_on(line: Seq<char>) -> Seq<char> {
    trimmed(head(tail(line)))
}

/// The path on a trimmed line.
pub open spec fn path_on(line: Seq<char>) -> Seq<char> {
    trimmed(tail(tail(line)))
}

/// Splits a trimmed line.
fn split(line: &str) -> (parts: Parts)
    ensures
        parts.command@ == head(line@),
        parts.target@ == target_on(line@),
        parts.path@ == path_on(line@),
{
    let (command, rest) = split_at_space(line);
    let (target, path) = split_at_space(rest.as_str());
    Parts { command, target: trim(target.as_str()), path: trim(path.as_str()) }
}

/// A command of the server's console.
#[derive(Debug)]
pub enum ServerCommand {
    /// An empty line.
    Nothing,
    /// Tell the commands.
    Help,
    /// List who is connected.
    Clients,
    /// List the files of a target.
    Files { target_client_id: String },
    /// Fetch a file from a target.
    Download { target_client_id: String, file_path: String },
    /// No command.
    Unknown,
}

/// The view of a [`ServerCommand`].
#[verifier::ext_equal]
pub enum ServerCommandView {
    Nothing,
    Help,
    Clients,
    Files { target: Seq<char> },
    Download { target: Seq<char>, path: Seq<char> },
    Unknown,
}

impl View for ServerCommand {
    type V = ServerCommandView;

    open spec fn view(&self) -> ServerCommandView {
        match self {
            ServerCommand::Nothing => ServerCommandView::Nothing,
            ServerCommand::Help => ServerCommandView::Help,
            ServerCommand::Clients => ServerCommandView::Clients,
            ServerCommand::Files { target_client_id } => ServerCommandView::Files {
                target: target_client_id@,
            },
            ServerCommand::Download { target_client_id, file_path } => ServerCommandView::Download {
                target: target_client_id@,
                path: file_path@,
            },
            ServerCommand::Unknown => ServerCommandView::Unknown,
        }
    }
}

/// The command that a line at the server's console stands for.
pub open spec fn server_command(text: Seq<char>) -> ServerCommandView {
    let line = trimmed(text);
    let target = target_on(line);
    let path = path_on(line);
    if line.len() == 0 {
        ServerCommandView::Nothing
    } else if same_ignoring_case(line, "help"@) {
        ServerCommandView::Help
    } else if same_ignoring_case(line, "clients"@) {
        ServerCommandView::Clients
    } else if same_ignoring_case(line, "server-files"@) {
        ServerCommandView::Files { target: "server"@ }
    } else if same_ignoring_case(head(line), "files"@) && target.len() > 0 && path.len() == 0 {
        ServerCommandView::Files { target }
    } else if same_ignoring_case(head(line), "download"@) && target.len() > 0 && path.len() > 0 {
        ServerCommandView::Download { target, path: with_forward_slashes(path) }
    } else {
        ServerCommandView::Unknown
    }
}

/// Reads a line that was typed at the server's console.
pub fn parse_server_command(text: &str) -> (command: ServerCommand)
    ensures
        command@ == server_command(text@),
{
    let line = trim(text);
    if is_empty(line.as_str()) {
        return ServerCommand::Nothing;
    }
    if eq_ignore_ascii_case(line.as_str(), "help") {
        return ServerCommand::Help;
    }
    if eq_ignore_ascii_case(line.as_str(), "clients") {
        return ServerCommand::Clients;
    }
    if eq_ignore_ascii_case(line.as_str(), "server-files") {
        return ServerCommand::Files { target_client_id: "server".to_string() };
    }
    let parts = split(line.as_str());
    if eq_ignore_ascii_case(parts.command.as_str(), "files") && !is_empty(parts.target.as_str())
        && is_empty(parts.path.as_str()) {
        return ServerCommand::Files { target_client_id: parts.target };
    }
    if !eq_ignore_ascii_case(parts.command.as_str(), "download") || is_empty(parts.target.as_str())
        || is_empty(parts.path.as_str()) {
        return ServerCommand::Unknown;
    }
    ServerCommand::Download {
        target_client_id: parts.target,
        file_path: use_forward_slashes(parts.path.as_str()),
    }
}

/// A command of a client's console.
#[derive(Debug)]
pub enum ClientCommand {
    /// An empty line.
    Nothing,
    /// Tell the commands.
    Help,
    /// Ask who is connected.
    Clients,
    /// Ask for the server's own files.
    ServerFiles,
    /// Ask for the files of a target.
    Files { target_client_id: String },
    /// Ask for a file of a target.
    Download { target_client_id: String, file_path: String },
    /// No command.
    Unknown,
}

/// The view of a [`ClientCommand`].
#[verifier::ext_equal]
pub enum ClientCommandView {
    Nothing,
    Help,
    Clients,
    ServerFiles,
    Files { target: Seq<char> },
    Download { target: Seq<char>, path: Seq<char> },
    Unknown,
}

impl View for ClientCommand {
    type V = ClientCommandView;

    open spec fn view(&self) -> ClientCommandView {
        match self {
            ClientCommand::Nothing => ClientCommandView::Nothing,
            ClientCommand::Help => ClientCommandView::Help,
            ClientCommand::Clients => ClientCommandView::Clients,
            ClientCommand::ServerFiles => ClientCommandView::ServerFiles,
            ClientCommand::Files { target_client_id } => ClientCommandView::Files {
                target: target_client_id@,
            },
            ClientCommand::Download { target_client_id, file_path } => ClientCommandView::Download {
                target: target_client_id@,
                path: file_path@,
            },
            ClientCommand::Unknown => ClientCommandView::Unknown,
        }
    }
}

impl ClientCommandView {
    /// The message that the command sends, where it sends one.
    pub open spec fn message(self) -> Option<ClientMessageView> {
        match self {
            ClientCommandView::Clients => Some(ClientMessageView::ListClients),
            ClientCommandView::ServerFiles => Some(
                ClientMessageView::ListFiles { target: "server"@ },
            ),
            ClientCommandView::Files { target } => Some(ClientMessageView::ListFiles { target }),
            ClientCommandView::Download { target, path } => Some(
                ClientMessageView::RequestDownload { target, path },
            ),
            _ => None,
        }
    }
}

/// The view of a message that may be missing.
pub open spec fn optional_message(message: Option<ClientMessage>) -> Option<ClientMessageView> {
    match message {
        Some(m) => Some(m@),
        None => None,
    }
}

impl ClientCommand {
    /// The message that the command sends, where it sends one.
    pub fn to_message(&self) -> (message: Option<ClientMessage>)
        ensures
            optional_message(message) == self@.message(),
    {
        match self {
            ClientCommand::Clients => Some(ClientMessage::ListClients),
            ClientCommand::ServerFiles => Some(
                ClientMessage::ListFiles { target_client_id: "server".to_string() },
            ),
            ClientCommand::Files { target_client_id } => Some(
                ClientMessage::ListFiles { target_client_id: target_client_id.clone() },
            ),
            ClientCommand::Download { target_client_id, file_path } => Some(
                ClientMessage::RequestDownload {
                    target_client_id: target_client_id.clone(),
                    file_path: file_path.clone(),
                },
            ),
            ClientCommand::Nothing | ClientCommand::Help | ClientCommand::Unknown => None,
        }
    }
}

/// The command that a line at a client's console stands for.
pub open spec fn client_command(text: Seq<char>) -> ClientCommandView {
    let line = trimmed(text);
    let target = target_on(line);
    let path = path_on(line);
    if line.len() == 0 {
        ClientCommandView::Nothing
    } else if same_ignoring_case(line, "help"@) {
        ClientCommandView::Help
    } else if same_ignoring_case(head(line), "clients"@) && target.len() == 0 && path.len() == 0 {
        ClientCommandView::Clients
    } else if same_ignoring_case(head(line), "server-files"@) && target.len() == 0 && path.len()
        == 0 {
        ClientCommandView::ServerFiles
    } else if same_ignoring_case(head(line), "files"@) && target.len() > 0 && path.len() == 0 {
        ClientCommandView::Files { target }
    } else if same_ignoring_case(head(line), "download"@) && target.len() > 0 && path.len() > 0 {
        ClientCommandView::Download { target, path: with_forward_slashes(path) }
    } else {
        ClientCommandView::Unknown
    }
}

/// Reads a line that was typed at a client's console.
pub fn parse_client_command(text: &str) -> (command: ClientCommand)
    ensures
        command@ == client_command(text@),
{
    let line = trim(text);
    if is_empty(line.as_str()) {
        return ClientCommand::Nothing;
    }
    if eq_ignore_ascii_case(line.as_str(), "help") {
        return ClientCommand::Help;
    }
    let parts = split(line.as_str());
    let bare = is_empty(parts.target.as_str()) && is_empty(parts.path.as_str());
    if eq_ignore_ascii_case(parts.command.as_str(), "clients") && bare {
        return ClientCommand::Clients;
    }
    if eq_ignore_ascii_case(parts.command.as_str(), "server-files") && bare {
        return ClientCommand::ServerFiles;
    }
    if eq_ignore_ascii_case(parts.command.as_str(), "files") && !is_empty(parts.target.as_str())
        && is_empty(parts.path.as_str()) {
        return ClientCommand::Files { target_client_id: parts.target };
    }
    if !eq_ignore_ascii_case(parts.command.as_str(), "download") || is_empty(parts.target.as_str())
        || is_empty(parts.path.as_str()) {
        return ClientCommand::Unknown;
    }
    ClientCommand::Download {
        target_client_id: parts.target,
        file_path: use_forward_slashes(parts.path.as_str()),
    }
}

/// White space around a line makes no difference.
pub proof fn surrounding_space_is_ignored(text: Seq<char>)
    ensures
        server_command(trimmed(text)) == server_command(text),
        client_command(trimmed(text)) == client_command(text),
{
    trimmed_is_trimmed(text);
}

/// Whether `word` can stand as a word on a line: it is not empty and holds no white space.
pub open spec fn is_word(word: Seq<char>) -> bool {
    &&& word.len() > 0
    &&& forall|i: int| 0 <= i < word.len() ==> !white_space(#[trigger] word[i])
}

/// A word is trimmed already.
proof fn word_is_trimmed(word: Seq<char>)
    requires
        is_word(word),
    ensures
        trimmed(word) == word,
{
    assert(!white_space(word[0]) && !white_space(word[word.len() - 1]));
}

/// A word and something behind it are told apart.
proof fn word_and_rest(word: Seq<char>, rest: Seq<char>)
    requires
        is_word(word),
    ensures
        head(word + seq![' '] + rest) == word,
        tail(word + seq![' '] + rest) == rest,
{
    let line = word + seq![' '] + rest;
    first_space_is_first(line);
    let at = first_space(line);
    assert(line[word.len() as int] == ' ');
    if at < word.len() {
        assert(line[at] == word[at]);
        assert(!white_space(word[at]));
    }
    assert(line.take(at) == word);
    assert(line.skip(at + 1) == rest);
}

/// A word alone has nothing behind it.
proof fn word_alone(word: Seq<char>)
    requires
        is_word(word),
    ensures
        head(word) == word,
        tail(word).len() == 0,
{
    first_space_is_first(word);
    let at = first_space(word);
    if at < word.len() {
        assert(!white_space(word[at]));
    }
    assert(word.take(at) == word);
}

/// Texts that differ only in case match the same words.
pub proof fn case_is_transitive(a: Seq<char>, b: Seq<char>, word: Seq<char>)
    requires
        same_ignoring_case(a, b),
    ensures
        same_ignoring_case(a, word) <==> same_ignoring_case(b, word),
{
    if same_ignoring_case(a, word) {
        assert forall|i: int| 0 <= i < b.len() implies ascii_lower(#[trigger] b[i]) == ascii_lower(
            word[i],
        ) by {
            assert(ascii_lower(a[i]) == ascii_lower(b[i]));
        }
    }
    if same_ignoring_case(b, word) {
        assert forall|i: int| 0 <= i < a.len() implies ascii_lower(#[trigger] a[i]) == ascii_lower(
            word[i],
        ) by {
            assert(ascii_lower(b[i]) == ascii_lower(word[i]));
        }
    }
}

/// A word with a space and a text behind it, none of which ends in white space, is a trimmed line.
proof fn line_is_trimmed(word: Seq<char>, rest: Seq<char>)
    requires
        is_word(word),
        rest.len() > 0,
        trimmed(rest) == rest,
    ensures
        trimmed(word + seq![' '] + rest) == word + seq![' '] + rest,
{
    let line = word + seq![' '] + rest;
    trimmed_is_trimmed(rest);
    assert(line.first() == word[0]);
    assert(!white_space(word[0]));
    assert(line.last() == rest.last());
}

/// `files`, however written, and a target ask for the files of the target, at both consoles.
pub proof fn files_line_is_read(command: Seq<char>, target: Seq<char>)
    requires
        same_ignoring_case(command, "files"@),
        is_word(target),
    ensures
        server_command(command + seq![' '] + target) == (ServerCommandView::Files { target }),
        client_command(command + seq![' '] + target) == (ClientCommandView::Files { target }),
{
    reveal_strlit("files");
    reveal_strlit("help");
    reveal_strlit("clients");
    reveal_strlit("server-files");
    reveal_strlit("download");
    assert(is_word(command)) by {
        assert forall|i: int| 0 <= i < command.len() implies !white_space(#[trigger] command[i]) by {
            letters_are_no_space(command[i], "files"@[i]);
        }
    }
    let line = command + seq![' '] + target;
    word_is_trimmed(target);
    line_is_trimmed(command, target);
    word_and_rest(command, target);
    word_alone(target);
    not_a_whole_word(command, target);
}

/// A small letter, however written, is no white space.
proof fn letters_are_no_space(c: char, letter: char)
    requires
        'a' <= letter <= 'z',
        ascii_lower(c) == ascii_lower(letter),
    ensures
        !white_space(c),
{
}

/// A line with a space in it is none of the commands that stand alone.
pub proof fn not_a_whole_word(word: Seq<char>, rest: Seq<char>)
    ensures
        !same_ignoring_case(word + seq![' '] + rest, "help"@),
        !same_ignoring_case(word + seq![' '] + rest, "clients"@),
        !same_ignoring_case(word + seq![' '] + rest, "server-files"@),
{
    reveal_strlit("help");
    reveal_strlit("clients");
    reveal_strlit("server-files");
    let line = word + seq![' '] + rest;
    let at = word.len() as int;
    assert(line[at] == ' ');
    assert(ascii_lower(line[at]) == ' ');
}

/// `download`, however written, a target and a path ask for the file of the target at that path, at
/// both consoles. The path may hold spaces.
pub proof fn download_line_is_read(command: Seq<char>, target: Seq<char>, path: Seq<char>)
    requires
        same_ignoring_case(command, "download"@),
        is_word(target),
        path.len() > 0,
        trimmed(path) == path,
    ensures
        server_command(command + seq![' '] + (target + seq![' '] + path)) == (
        ServerCommandView::Download { target, path: with_forward_slashes(path) }),
        client_command(command + seq![' '] + (target + seq![' '] + path)) == (
        ClientCommandView::Download { target, path: with_forward_slashes(path) }),
{
    reveal_strlit("files");
    reveal_strlit("clients");
    reveal_strlit("server-files");
    reveal_strlit("download");
    assert(is_word(command)) by {
        assert forall|i: int| 0 <= i < command.len() implies !white_space(#[trigger] command[i]) by {
            letters_are_no_space(command[i], "download"@[i]);
        }
    }
    let rest = target + seq![' '] + path;
    word_is_trimmed(target);
    line_is_trimmed(target, path);
    line_is_trimmed(command, rest);
    word_and_rest(command, rest);
    word_and_rest(target, path);
    not_a_whole_word(command, rest);
}

/// How a command word is written makes no difference: two trimmed lines whose words are the same
/// but for case and are followed by the same mean the same.
pub proof fn case_of_the_command_is_ignored(a: Seq<char>, b: Seq<char>)
    requires
        trimmed(a) == a,
        trimmed(b) == b,
        a.len() == b.len(),
        same_ignoring_case(head(a), head(b)),
        tail(a) == tail(b),
    ensures
        server_command(a) == server_command(b),
        client_command(a) == client_command(b),
{
    first_space_is_first(a);
    first_space_is_first(b);
    assert(same_ignoring_case(a, b)) by {
        let at = first_space(a);
        assert(at == first_space(b));
        assert forall|i: int| 0 <= i < a.len() implies ascii_lower(#[trigger] a[i]) == ascii_lower(
            b[i],
        ) by {
            if i < at {
                assert(head(a)[i] == a[i] && head(b)[i] == b[i]);
            } else if i > at {
                assert(tail(a)[i - at - 1] == a[i] && tail(b)[i - at - 1] == b[i]);
            }
        }
    }
    case_is_transitive(a, b, "help"@);
    case_is_transitive(a, b, "clients"@);
    case_is_transitive(a, b, "server-files"@);
    case_is_transitive(head(a), head(b), "clients"@);
    case_is_transitive(head(a), head(b), "server-files"@);
    case_is_transitive(head(a), head(b), "files"@);
    case_is_transitive(head(a), head(b), "download"@);
}

/// A text that trims to nothing is white space throughout.
proof fn nothing_left(s: Seq<char>)
    requires
        trimmed(s).len() == 0,
    ensures
        forall|i: int| 0 <= i < s.len() ==> white_space(#[trigger] s[i]),
    decreases s.len(),
{
    if s.len() > 0 {
        if white_space(s.first()) {
            nothing_left(s.drop_first());
            assert forall|i: int| 0 <= i < s.len() implies white_space(#[trigger] s[i]) by {
                if i > 0 {
                    assert(s.drop_first()[i - 1] == s[i]);
                }
            }
        } else {
            nothing_left(s.drop_last());
            assert forall|i: int| 0 <= i < s.len() implies white_space(#[trigger] s[i]) by {
                if i < s.len() - 1 {
                    assert(s.drop_last()[i] == s[i]);
                }
            }
        }
    }
}

/// A trimmed line without target and path is its command word alone.
pub proof fn bare_line(line: Seq<char>)
    requires
        trimmed(line) == line,
        target_on(line).len() == 0,
        path_on(line).len() == 0,
    ensures
        head(line) == line,
{
    let rest = tail(line);
    first_space_is_first(line);
    first_space_is_first(rest);
    trimmed_is_trimmed(line);
    nothing_left(head(rest));
    nothing_left(tail(rest));
    let at = first_space(line);
    if at < line.len() {
        let last = line.last();
        if rest.len() > 0 {
            assert(rest.last() == last);
            let k = first_space(rest);
            let i = rest.len() - 1;
            if i < k {
                assert(head(rest)[i] == rest[i]);
            } else if i > k {
                assert(tail(rest)[i - k - 1] == rest[i]);
            }
        }
        assert(white_space(last));
    }
    assert(line.take(line.len() as int) == line);
}

/// The command of the server's console that does what a command of a client's console asks for.
pub open spec fn counterpart(command: ClientCommandView) -> ServerCommandView {
    match command {
        ClientCommandView::Nothing => ServerCommandView::Nothing,
        ClientCommandView::Help => ServerCommandView::Help,
        ClientCommandView::Clients => ServerCommandView::Clients,
        ClientCommandView::ServerFiles => ServerCommandView::Files { target: "server"@ },
        ClientCommandView::Files { target } => ServerCommandView::Files { target },
        ClientCommandView::Download { target, path } => ServerCommandView::Download { target, path },
        ClientCommandView::Unknown => ServerCommandView::Unknown,
    }
}

/// A command that is one word is the whole line.
pub proof fn whole_line(line: Seq<char>, word: Seq<char>)
    requires
        trimmed(line) == line,
        is_word(word),
        forall|i: int| 0 <= i < word.len() ==> ascii_lower(#[trigger] word[i]) != ' ',
    ensures
        same_ignoring_case(line, word) <==> same_ignoring_case(head(line), word) && target_on(
            line,
        ).len() == 0 && path_on(line).len() == 0,
{
    if same_ignoring_case(line, word) {
        first_space_is_first(line);
        let at = first_space(line);
        if at < line.len() {
            assert(ascii_lower(line[at]) == ' ');
            assert(ascii_lower(word[at]) != ' ');
        }
        assert(line.take(line.len() as int) == line);
        let nothing = tail(line);
        assert(nothing.len() == 0);
        assert(head(nothing).len() == 0);
        assert(tail(nothing).len() == 0);
    }
    if same_ignoring_case(head(line), word) && target_on(line).len() == 0 && path_on(line).len()
        == 0 {
        bare_line(line);
    }
}

/// Every line means the same at both consoles.
pub proof fn consoles_agree(text: Seq<char>)
    ensures
        server_command(text) == counterpart(client_command(text)),
{
    reveal_strlit("clients");
    reveal_strlit("server-files");
    reveal_strlit("files");
    reveal_strlit("download");
    trimmed_is_trimmed(text);
    let line = trimmed(text);
    whole_line(line, "clients"@);
    whole_line(line, "server-files"@);
}

} // verus!
