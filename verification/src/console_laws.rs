//! What the consoles read and what they show.

use vstd::prelude::*;
use crate::client::action;
use crate::client::client_token_of;
use crate::client::ActionView;
use crate::commands::bare_line;
use crate::commands::client_command;
use crate::commands::is_word;
use crate::commands::not_a_whole_word;
use crate::commands::path_on;
use crate::commands::server_command;
use crate::commands::target_on;
use crate::commands::ClientCommandView;
use crate::commands::ServerCommandView;
use crate::config::invalid_setting;
use crate::messages::ClientInfoView;
use crate::messages::ClientMessageView;
use crate::messages::FileView;
use crate::messages::ServerMessageView;
use crate::paths::safe_path;
use crate::paths::PathStyle;
use crate::relay::RelayView;
use crate::reports::below;
use crate::reports::file_lines;
use crate::reports::listing;
use crate::reports::own_files;
use crate::reports::targets_listing;
use crate::text::decimal;
use crate::text::same_ignoring_case;
use crate::text::trimmed;
use crate::text::trimmed_is_trimmed;
use crate::text::with_forward_slashes;
use crate::text_laws::blank;
use crate::text_laws::splitting_finds_the_parts;
use crate::text_laws::trimming_takes_only_space;

verus! {

/// A command sends exactly what it asks for: the message carries that very target and that very
/// path, and a command that asks for nothing sends nothing.
pub proof fn commands_send_what_they_ask(target: Seq<char>, path: Seq<char>)
    ensures
        (ClientCommandView::Download { target, path }).message() matches Some(
            ClientMessageView::RequestDownload { target: t, path: p },
        ) && t == target && p == path,
        (ClientCommandView::Files { target }).message() matches Some(
            ClientMessageView::ListFiles { target: t },
        ) && t == target,
        ClientCommandView::ServerFiles.message() matches Some(
            ClientMessageView::ListFiles { target: t },
        ) && t == "server"@,
        ClientCommandView::Clients.message() matches Some(ClientMessageView::ListClients),
        ClientCommandView::Nothing.message() is None,
        ClientCommandView::Help.message() is None,
        ClientCommandView::Unknown.message() is None,
{
}

/// What is typed as `download`, a target and a path is sent as a request for that file of that
/// target, whatever spaces the path holds; what is typed as `files` and a target, as a question
/// about the files of that target.
pub proof fn lines_are_sent_as_typed(
    download: Seq<char>,
    files: Seq<char>,
    target: Seq<char>,
    path: Seq<char>,
)
    requires
        same_ignoring_case(download, "download"@),
        same_ignoring_case(files, "files"@),
        is_word(target),
        path.len() > 0,
        trimmed(path) == path,
    ensures
        client_command(download + seq![' '] + (target + seq![' '] + path)).message() == Some(
            ClientMessageView::RequestDownload { target, path: with_forward_slashes(path) },
        ),
        client_command(files + seq![' '] + target).message() == Some(
            ClientMessageView::ListFiles { target },
        ),
{
    crate::commands::download_line_is_read(download, target, path);
    crate::commands::files_line_is_read(files, target);
}

/// A line of white space asks for nothing, and every other line asks for something or is unknown.
pub proof fn blank_lines_ask_for_nothing(text: Seq<char>)
    ensures
        server_command(text) is Nothing <==> blank(text),
        client_command(text) is Nothing <==> blank(text),
{
    let ends = trimming_takes_only_space(text);
}

/// A line of one word is one of the commands that stand alone, or unknown.
pub proof fn single_words_are_read(word: Seq<char>)
    requires
        !word.contains(' '),
        word.len() > 0,
        trimmed(word) == word,
    ensures
        server_command(word) == if same_ignoring_case(word, "help"@) {
            ServerCommandView::Help
        } else if same_ignoring_case(word, "clients"@) {
            ServerCommandView::Clients
        } else if same_ignoring_case(word, "server-files"@) {
            ServerCommandView::Files { target: "server"@ }
        } else {
            ServerCommandView::Unknown
        },
        client_command(word) == if same_ignoring_case(word, "help"@) {
            ClientCommandView::Help
        } else if same_ignoring_case(word, "clients"@) {
            ClientCommandView::Clients
        } else if same_ignoring_case(word, "server-files"@) {
            ClientCommandView::ServerFiles
        } else {
            ClientCommandView::Unknown
        },
{
    splitting_finds_the_parts(word, Seq::empty());
    let nothing = crate::text::tail(word);
    assert(nothing =~= Seq::<char>::empty());
    splitting_finds_the_parts(nothing, Seq::empty());
    assert(trimmed(nothing).len() == 0);
    assert(crate::text::tail(nothing) =~= Seq::<char>::empty());
    assert(target_on(word).len() == 0);
    assert(path_on(word).len() == 0);
}

/// A trimmed line of two words is `files` and a target, or unknown.
pub proof fn two_words_are_read(command: Seq<char>, target: Seq<char>)
    requires
        !command.contains(' '),
        !target.contains(' '),
        trimmed(command + seq![' '] + target) == command + seq![' '] + target,
    ensures
        server_command(command + seq![' '] + target) == if same_ignoring_case(command, "files"@)
            && !blank(target) {
            ServerCommandView::Files { target: trimmed(target) }
        } else {
            ServerCommandView::Unknown
        },
        client_command(command + seq![' '] + target) == if same_ignoring_case(command, "files"@)
            && !blank(target) {
            ClientCommandView::Files { target: trimmed(target) }
        } else {
            ClientCommandView::Unknown
        },
{
    let line = command + seq![' '] + target;
    splitting_finds_the_parts(command, target);
    splitting_finds_the_parts(target, Seq::empty());
    not_a_whole_word(command, target);
    let ends = trimming_takes_only_space(target);
    let nothing = crate::text::tail(target);
    assert(nothing =~= Seq::<char>::empty());
    assert(trimmed(nothing).len() == 0);
    if target_on(line).len() == 0 && path_on(line).len() == 0 {
        bare_line(line);
    }
}

/// A trimmed line of a word, a target and a path is `download` with both, or unknown. The path is
/// all the rest of the line.
pub proof fn long_lines_are_read(command: Seq<char>, target: Seq<char>, path: Seq<char>)
    requires
        !command.contains(' '),
        !target.contains(' '),
        trimmed(command + seq![' '] + (target + seq![' '] + path)) == command + seq![' '] + (target
            + seq![' '] + path),
    ensures
        !blank(path),
        server_command(command + seq![' '] + (target + seq![' '] + path)) == if same_ignoring_case(
            command,
            "download"@,
        ) && !blank(target) {
            ServerCommandView::Download {
                target: trimmed(target),
                path: with_forward_slashes(trimmed(path)),
            }
        } else {
            ServerCommandView::Unknown
        },
        client_command(command + seq![' '] + (target + seq![' '] + path)) == if same_ignoring_case(
            command,
            "download"@,
        ) && !blank(target) {
            ClientCommandView::Download {
                target: trimmed(target),
                path: with_forward_slashes(trimmed(path)),
            }
        } else {
            ClientCommandView::Unknown
        },
{
    let rest = target + seq![' '] + path;
    let line = command + seq![' '] + rest;
    splitting_finds_the_parts(command, rest);
    splitting_finds_the_parts(target, path);
    not_a_whole_word(command, rest);
    let ends = trimming_takes_only_space(target);
    let others = trimming_takes_only_space(path);
    trimmed_is_trimmed(line);
    assert(!blank(path)) by {
        if blank(path) {
            let last = line.last();
            if path.len() > 0 {
                assert(last == path[path.len() - 1]);
            } else {
                assert(last == ' ');
            }
            assert(crate::text::white_space(last));
        }
    }
    reveal_strlit("download");
    reveal_strlit("files");
}

/// The answer about the files of a target is one line where there are none; else a line with the
/// target, and then one line for each file, in order, with its path and its length.
pub proof fn listings_show_every_file(target: Seq<char>, files: Seq<FileView>, i: int)
    ensures
        files.len() == 0 ==> listing(target, files) == seq!["No files for: "@ + target],
        files.len() > 0 ==> {
            &&& listing(target, files).len() == 1 + files.len()
            &&& listing(target, files)[0] == "Files for "@ + target + ":"@
            &&& 0 <= i < files.len() ==> listing(target, files)[i + 1] == "- "@ + files[i].path
                + " ("@ + decimal(files[i].size as nat) + " B)"@
        },
{
    if files.len() > 0 && 0 <= i < files.len() {
        assert(listing(target, files)[i + 1] == file_lines(Seq::empty(), files)[i]);
        assert(Seq::<char>::empty() + "- "@ =~= "- "@);
    }
}

/// What is shown of the server's own files is what is shown of any files, or that they could not be
/// listed, and why.
pub proof fn own_files_are_shown_alike(found: Result<Seq<FileView>, Seq<char>>)
    ensures
        found matches Ok(files) ==> own_files(found) == listing("server"@, files),
        found matches Err(error) ==> own_files(found) == seq![
            "Error listing server files: "@ + error,
        ],
{
}

/// The targets are shown one by one, in order, each with its number of files.
pub proof fn targets_are_shown_one_by_one(infos: Seq<ClientInfoView>, i: int)
    ensures
        infos.len() == 0 ==> targets_listing(infos) == seq!["No available targets"@],
        infos.len() > 0 ==> {
            &&& targets_listing(infos).len() == 1 + infos.len()
            &&& targets_listing(infos)[0] == "Available targets:"@
            &&& 0 <= i < infos.len() ==> targets_listing(infos)[i + 1] == "- "@ + infos[i].client_id
                + " ("@ + decimal(infos[i].files_count as nat) + " files)"@
        },
{
}

/// The files below a target are shown one by one, in order, or that there are none.
proof fn files_below(files: Seq<FileView>, i: int)
    ensures
        files.len() == 0 ==> below(files) == seq!["  no files"@],
        files.len() > 0 ==> below(files).len() == files.len(),
        0 <= i < files.len() ==> below(files)[i] == "  - "@ + files[i].path + " ("@ + decimal(
            files[i].size as nat,
        ) + " B)"@,
{
    reveal_strlit("  ");
    reveal_strlit("- ");
    reveal_strlit("  - ");
    assert("  "@ + "- "@ =~= "  - "@);
}

/// A client is shown with the number of its files and then each of them, or that it has none; or
/// that it has not registered any.
pub proof fn clients_are_shown_with_their_files<C, S, R>(
    relay: RelayView<C, S, R>,
    id: Seq<char>,
    i: int,
)
    requires
        relay.valid(),
    ensures
        !relay.folders.contains_key(id) ==> relay.client_lines(id) == seq![
            "- "@ + id + " (no registered file list)"@,
        ],
        relay.folders.contains_key(id) ==> {
            let files = relay.folders[id];
            let lines = relay.client_lines(id);
            &&& lines[0] == "- "@ + id + " ("@ + decimal(files.len()) + " files)"@
            &&& files.len() == 0 ==> lines.len() == 2 && lines[1] == "  no files"@
            &&& files.len() > 0 ==> lines.len() == 1 + files.len()
            &&& 0 <= i < files.len() ==> lines[i + 1] == "  - "@ + files[i].path + " ("@ + decimal(
                files[i].size as nat,
            ) + " B)"@
        },
{
    if relay.folders.contains_key(id) {
        assert(relay.folders[id].len() <= 10_000);
        files_below(relay.folders[id], i);
    }
}

/// The overview begins with the server and its files.
pub proof fn the_overview_begins_with_the_server<C, S, R>(
    relay: RelayView<C, S, R>,
    files: Seq<FileView>,
    i: int,
)
    requires
        files.len() <= 0xffff_ffff,
    ensures
        ({
            let shown = relay.overview(Ok(files));
            let n: int = if files.len() == 0 {
                1
            } else {
                files.len() as int
            };
            &&& shown.len() > 2 + n
            &&& shown[0] == "Available targets:"@
            &&& shown[1] == "- server ("@ + decimal(files.len()) + " files)"@
            &&& files.len() == 0 ==> shown[2] == "  no files"@
            &&& 0 <= i < files.len() ==> shown[i + 2] == "  - "@ + files[i].path + " ("@ + decimal(
                files[i].size as nat,
            ) + " B)"@
            &&& relay.order.len() == 0 ==> shown.len() == 3 + n && shown[2 + n]
                == "No connected clients"@
            &&& relay.order.len() > 0 ==> shown[2 + n] == "Connected clients:"@
        }),
{
    files_below(files, i);
    reveal_strlit("- ");
    reveal_strlit("server");
    reveal_strlit(" (");
    reveal_strlit("- server (");
    assert("- "@ + "server"@ + " ("@ =~= "- server ("@);
}

/// Where the server's files cannot be listed, the overview says so and goes on as without files.
pub proof fn the_overview_says_what_failed<C, S, R>(relay: RelayView<C, S, R>, error: Seq<char>)
    ensures
        relay.overview(Err(error)) == seq!["Error listing server files: "@ + error]
            + relay.overview(Ok(Seq::empty())),
{
    assert(relay.overview(Err(error)) =~= seq!["Error listing server files: "@ + error]
        + relay.overview(Ok(Seq::empty())));
}

/// One more client at the end is shown at the end of the overview, behind all the others.
pub proof fn the_overview_goes_client_by_client<C, S, R>(
    relay: RelayView<C, S, R>,
    earlier: Seq<Seq<char>>,
    id: Seq<char>,
    found: Result<Seq<FileView>, Seq<char>>,
)
    requires
        relay.order == earlier + seq![id],
    ensures
        ({
            let before = RelayView { order: earlier, ..relay };
            &&& earlier.len() > 0 ==> relay.overview(found) == before.overview(found)
                + relay.client_lines(id)
            &&& earlier.len() == 0 ==> relay.overview(found) == before.overview(found).drop_last()
                + seq!["Connected clients:"@] + relay.client_lines(id)
        }),
{
    let before = RelayView { order: earlier, ..relay };
    let n = earlier.len() as int;
    same_first_clients(relay, before, n);
    assert(relay.order[n] == id);
    assert(relay.first_clients(n + 1) == relay.first_clients(n) + relay.client_lines(id));
    if n > 0 {
        assert(relay.overview(found) =~= before.overview(found) + relay.client_lines(id));
    } else {
        assert(relay.first_clients(0) =~= Seq::<Seq<char>>::empty());
        assert(relay.overview(found) =~= before.overview(found).drop_last() + seq![
            "Connected clients:"@,
        ] + relay.client_lines(id));
    }
}

proof fn same_first_clients<C, S, R>(a: RelayView<C, S, R>, b: RelayView<C, S, R>, n: int)
    requires
        a.folders == b.folders,
        0 <= n <= a.order.len(),
        n <= b.order.len(),
        forall|i: int| 0 <= i < n ==> a.order[i] == b.order[i],
    ensures
        a.first_clients(n) == b.first_clients(n),
    decreases n,
{
    if n > 0 {
        same_first_clients(a, b, n - 1);
        assert(a.order[n - 1] == b.order[n - 1]);
        assert(a.client_lines(a.order[n - 1]) == b.client_lines(b.order[n - 1]));
    }
}

/// What the console shows of the files of a client is the client's list, or why there is none.
pub proof fn client_files_are_shown<C, S, R>(relay: RelayView<C, S, R>, target: Seq<char>)
    ensures
        !relay.clients.contains_key(target) ==> relay.client_listing(target) == seq![
            "Client not found: "@ + target,
        ],
        relay.clients.contains_key(target) && !relay.folders.contains_key(target)
            ==> relay.client_listing(target) == seq![
            "Client "@ + target + " has not registered a file list yet"@,
        ],
        relay.clients.contains_key(target) && relay.folders.contains_key(target)
            ==> relay.client_listing(target) == listing(target, relay.folders[target]),
{
}

/// A client does what the server says and nothing else: it uploads the very file, to the very
/// stream and with the very token that it was told, exactly if the path is safe; it downloads what it
/// was told; and what is meant for its user it shows.
pub proof fn clients_do_as_they_are_told(
    style: PathStyle,
    path: Seq<char>,
    name: Seq<char>,
    id: Seq<char>,
    token: Seq<char>,
    text: Seq<char>,
    files: Seq<FileView>,
    clients: Seq<ClientInfoView>,
)
    ensures
        action(style, ServerMessageView::UploadInstruction { path, stream_id: id, token }) == (
        ActionView::Upload { path, stream_id: id, token }) <==> safe_path(style, path),
        !safe_path(style, path) ==> action(
            style,
            ServerMessageView::UploadInstruction { path, stream_id: id, token },
        ) == (ActionView::RefuseUpload { text: "Invalid file path structure: "@ + path }),
        action(style, ServerMessageView::DownloadReady { stream_id: id, name, token }) == (
        ActionView::Download { stream_id: id, name, token }),
        action(style, ServerMessageView::Registered { client_id: id }) == (ActionView::Show {
            lines: seq!["Registered successfully. My ID: "@ + id],
        }),
        action(style, ServerMessageView::ClientsList { clients }) == (ActionView::Show {
            lines: targets_listing(clients),
        }),
        action(style, ServerMessageView::FileList { target: id, files }) == (ActionView::Show {
            lines: listing(id, files),
        }),
        action(style, ServerMessageView::Error { message: text }) == (ActionView::Complain {
            text: "Server error: "@ + text,
        }),
{
}

/// A client uses the token that it was given as it is; without one, that in its file, without the
/// white space around it.
pub proof fn client_tokens_are_used_as_given(
    token: Seq<char>,
    file: Option<Seq<char>>,
    text: Seq<char>,
)
    ensures
        client_token_of(Some(token), file) == token,
        client_token_of(None, Some(text)) == trimmed(text),
{
}

/// What is said of a setting that is no number names the setting and what is wrong with it.
pub proof fn complaints_name_the_setting(name: Seq<char>, words: Seq<char>)
    ensures
        invalid_setting(name, words) == "Invalid "@ + name + " value: "@ + words,
{
}

} // verus!
