//! What clients are told and what may be had from whom.

use vstd::prelude::*;
use crate::downloads::client_not_found;
use crate::downloads::names_server;
use crate::downloads::no_file_list;
use crate::downloads::DownloadRefusal;
use crate::downloads::SourceView;
use crate::folders::find_file;
use crate::folders::found_exactly_if_listed;
use crate::folders::validated;
use crate::messages::ClientInfoView;
use crate::messages::ClientMessageView;
use crate::messages::FileView;
use crate::messages::ServerMessageView;
use crate::paths::safe_path;
use crate::paths::PathStyle;
use crate::relay::files_of_server;
use crate::relay::RelayView;
use crate::relay::ResponseView;
use crate::server_files::admitted_size;
use crate::server_files::found;
use crate::server_files::place_refusal;
use crate::server_files::served_size;
use crate::server_files::EntryView;
use crate::server_files::FileRefusal;
use crate::text::decimal;
use crate::text::with_forward_slashes;
use crate::text::without_prefix;
use crate::text_laws::case_means_ascii_letters;
use crate::text_laws::prefix_and_rest_are_the_text;

verus! {

/// A target means the server exactly if it is the word `server`, each letter of it in capitals or
/// small.
pub proof fn the_server_is_named_by_its_name(target: Seq<char>)
    ensures
        names_server(target) <==> target.len() == 6 && forall|i: int|
            0 <= i < 6 ==> #[trigger] target[i] == seq!['s', 'e', 'r', 'v', 'e', 'r'][i] || target[i]
                == seq!['S', 'E', 'R', 'V', 'E', 'R'][i],
{
    reveal_strlit("server");
    let small = seq!['s', 'e', 'r', 'v', 'e', 'r'];
    let large = seq!['S', 'E', 'R', 'V', 'E', 'R'];
    assert("server"@ =~= small);
    case_means_ascii_letters(target, "server"@);
    if target.len() == 6 {
        assert forall|i: int| 0 <= i < 6 implies ({
            ||| #[trigger] target[i] == small[i]
            ||| 'A' <= target[i] <= 'Z' && small[i] as int == target[i] as int + 32
            ||| 'A' <= small[i] <= 'Z' && target[i] as int == small[i] as int + 32
        } <==> target[i] == small[i] || target[i] == large[i]) by {
            capital_of(target[i], small[i], large[i]);
        }
    }
}

proof fn capital_of(c: char, small: char, large: char)
    requires
        'a' <= small <= 'z',
        'A' <= large <= 'Z',
        small as int == large as int + 32,
    ensures
        ({
            ||| c == small
            ||| 'A' <= c <= 'Z' && small as int == c as int + 32
            ||| 'A' <= small <= 'Z' && c as int == small as int + 32
        }) <==> c == small || c == large,
{
}

/// The server's own files are granted exactly if their path is safe, under that very path, and are
/// never looked for elsewhere.
pub proof fn server_paths_are_granted_exactly_if_safe<C, S, R>(
    relay: RelayView<C, S, R>,
    target: Seq<char>,
    path: Seq<char>,
)
    ensures
        relay.find_source(target, path) == Ok::<SourceView, DownloadRefusal>(
            SourceView::Server { path },
        ) <==> names_server(target) && safe_path(relay.style, path),
        relay.find_source(target, path) == Err::<SourceView, DownloadRefusal>(
            DownloadRefusal::InvalidServerPath,
        ) <==> names_server(target) && !safe_path(relay.style, path),
        names_server(target) ==> !(relay.find_source(target, path) matches Ok(
            SourceView::Client { .. },
        )),
        !names_server(target) ==> !(relay.find_source(target, path) matches Ok(
            SourceView::Server { .. },
        )),
{
}

/// A file of a client is granted exactly if its path is safe, the client is connected, has said
/// what it shares, and has the file on its list; the first of these that is missing is the reason
/// why not. Backslashes in the path count as slashes.
pub proof fn client_files_are_granted_exactly_if_listed<C, S, R>(
    relay: RelayView<C, S, R>,
    target: Seq<char>,
    path: Seq<char>,
)
    requires
        !names_server(target),
    ensures
        ({
            let p = with_forward_slashes(path);
            let safe = safe_path(relay.style, p);
            let here = relay.clients.contains_key(target);
            let told = relay.folders.contains_key(target);
            let listed = exists|i: int|
                0 <= i < relay.folders[target].len() && (#[trigger] relay.folders[target][i]).path
                    == p;
            let decision = relay.find_source(target, path);
            &&& decision is Ok <==> safe && here && told && listed
            &&& decision matches Ok(source) ==> (source matches SourceView::Client {
                target: from,
                path: at,
                size,
            } && from == target && at == p && relay.folders[target].contains(
                FileView { path: p, size },
            ))
            &&& !safe ==> decision == Err::<SourceView, DownloadRefusal>(
                DownloadRefusal::InvalidTargetPath,
            )
            &&& safe && !here ==> decision == Err::<SourceView, DownloadRefusal>(
                DownloadRefusal::TargetUnavailable,
            )
            &&& safe && here && !told ==> decision == Err::<SourceView, DownloadRefusal>(
                DownloadRefusal::NoFileList,
            )
            &&& safe && here && told && !listed ==> decision == Err::<SourceView, DownloadRefusal>(
                DownloadRefusal::NotRegistered,
            )
        }),
{
    let p = with_forward_slashes(path);
    let files = relay.folders[target];
    found_exactly_if_listed(files, p);
    if find_file(files, p) is Some {
        let file = find_file(files, p)->0;
        assert(file == (FileView { path: p, size: file.size }));
    }
}

/// The file that is found under a path is the first that is listed there.
pub proof fn the_first_listed_is_found(files: Seq<FileView>, path: Seq<char>, i: int)
    requires
        0 <= i < files.len(),
        files[i].path == path,
        forall|j: int| 0 <= j < i ==> (#[trigger] files[j]).path != path,
    ensures
        find_file(files, path) == Some(files[i]),
    decreases i,
{
    if i > 0 {
        assert(files[0].path != path);
        let rest = files.drop_first();
        assert(rest[i - 1] == files[i]);
        assert forall|j: int| 0 <= j < i - 1 implies (#[trigger] rest[j]).path != path by {
            assert(rest[j] == files[j + 1]);
        }
        the_first_listed_is_found(rest, path, i - 1);
    }
}

/// The answer about the server's own files holds every file that was listed, in order, and nothing
/// else; together with what a walk finds, it holds every file in the server's folder.
pub proof fn server_files_are_told_as_listed(list: Seq<FileView>, i: int)
    ensures
        files_of_server(Some(list)) matches ServerMessageView::FileList { target, files } && target
            == "server"@ && files.len() == list.len() && (0 <= i < list.len() ==> files[i]
            == list[i]),
        files_of_server(None) matches ServerMessageView::Error { message } && message
            == "Could not list server files"@,
{
}

/// A walk in two parts finds what its parts find, one after the other, or the first error.
pub proof fn walks_add_up(a: Seq<EntryView>, b: Seq<EntryView>)
    ensures
        found(a) is Err ==> found(a + b) == found(a),
        found(a) is Ok && found(b) is Err ==> found(a + b) == found(b),
        found(a) is Ok && found(b) is Ok ==> found(a + b) == Ok::<Seq<FileView>, Seq<char>>(
            found(a)->Ok_0 + found(b)->Ok_0,
        ),
    decreases b.len(),
{
    if b.len() == 0 {
        assert(a + b == a);
        if found(a) is Ok {
            assert(found(a)->Ok_0 + Seq::<FileView>::empty() == found(a)->Ok_0);
        }
    } else {
        let rest = b.drop_last();
        walks_add_up(a, rest);
        assert((a + b).drop_last() == a + rest);
        assert((a + b).last() == b.last());
        if found(a) is Ok && found(b) is Ok {
            let files = found(a)->Ok_0;
            let more = found(rest)->Ok_0;
            if let EntryView::File { path, size } = b.last() {
                let file = FileView { path: with_forward_slashes(path), size };
                assert((files + more).push(file) == files + more.push(file));
            }
        }
    }
}

/// One step of a walk finds the file that it comes upon, under its path with forward slashes; an
/// entry that is none, or that cannot be reached, is passed over; and an error is an error.
pub proof fn steps_find_what_they_meet(path: Seq<char>, size: u64, error: Seq<char>)
    ensures
        found(Seq::empty()) == Ok::<Seq<FileView>, Seq<char>>(Seq::empty()),
        found(seq![EntryView::File { path, size }]) == Ok::<Seq<FileView>, Seq<char>>(
            seq![FileView { path: with_forward_slashes(path), size }],
        ),
        found(seq![EntryView::NotAFile]) == Ok::<Seq<FileView>, Seq<char>>(Seq::empty()),
        found(seq![EntryView::Unreachable]) == Ok::<Seq<FileView>, Seq<char>>(Seq::empty()),
        found(seq![EntryView::Unreadable { error }]) == Err::<Seq<FileView>, Seq<char>>(error),
{
    let none = Seq::<EntryView>::empty();
    assert(found(none) == Ok::<Seq<FileView>, Seq<char>>(Seq::empty()));
    assert(seq![EntryView::File { path, size }].drop_last() == none);
    assert(seq![EntryView::NotAFile].drop_last() == none);
    assert(seq![EntryView::Unreachable].drop_last() == none);
    assert(seq![EntryView::Unreadable { error }].drop_last() == none);
    let file = FileView { path: with_forward_slashes(path), size };
    assert(Seq::<FileView>::empty().push(file) == seq![file]);
}

/// Why a file of the server is not handed out: the first that applies of an unsafe path, a folder
/// that cannot be resolved, a file outside of it or that cannot be resolved, a file that is none,
/// and one that is longer than a stream may be.
pub proof fn refused_files_have_their_reason(
    style: PathStyle,
    path: Seq<char>,
    folder: Option<Seq<Seq<u8>>>,
    file: Option<Seq<Seq<u8>>>,
    size: Option<u64>,
    max: u64,
)
    ensures
        ({
            let decision = served_size(style, path, folder, file, size, max);
            let safe = safe_path(style, path);
            let inside = folder is Some && file is Some && folder->0.len() <= file->0.len() && forall|
                i: int,
            |
                0 <= i < folder->0.len() ==> #[trigger] folder->0[i] == file->0[i];
            &&& !safe ==> decision == Err::<u64, FileRefusal>(FileRefusal::InvalidPath)
            &&& safe && folder is None ==> decision == Err::<u64, FileRefusal>(
                FileRefusal::FolderUnavailable,
            )
            &&& safe && folder is Some && !inside ==> decision == Err::<u64, FileRefusal>(
                FileRefusal::OutsideFolder,
            )
            &&& safe && inside && size is None ==> decision == Err::<u64, FileRefusal>(
                FileRefusal::Missing,
            )
            &&& safe && inside && size is Some && size->0 > max ==> decision == Err::<
                u64,
                FileRefusal,
            >(FileRefusal::TooLarge { limit: max })
            &&& safe && inside && size is Some && size->0 <= max ==> decision == Ok::<
                u64,
                FileRefusal,
            >(size->0)
            &&& inside <==> place_refusal(folder, file) is None
            &&& folder is None ==> place_refusal(folder, file) == Some(
                FileRefusal::FolderUnavailable,
            )
            &&& folder is Some && !inside ==> place_refusal(folder, file) == Some(
                FileRefusal::OutsideFolder,
            )
            &&& size matches Some(len) ==> (admitted_size(size, max) == Ok::<u64, FileRefusal>(len)
                <==> len <= max)
        }),
{
    if folder is Some && file is Some {
        let a = folder->0;
        let b = file->0;
        if a.is_prefix_of(b) {
            assert forall|i: int| 0 <= i < a.len() implies #[trigger] a[i] == b[i] by {
                assert(b.subrange(0, a.len() as int)[i] == b[i]);
            }
        }
        if a.len() <= b.len() && forall|i: int| 0 <= i < a.len() ==> #[trigger] a[i] == b[i] {
            assert(a =~= b.subrange(0, a.len() as int));
        }
    }
}

/// What is said of a file that is too long ends with the limit and the word `bytes`.
pub proof fn too_large_names_the_limit(limit: u64)
    ensures
        without_prefix(
            (FileRefusal::TooLarge { limit }).reply(),
            "Server file is larger than the configured stream limit ("@,
        ) == Some(decimal(limit as nat) + " bytes)"@),
{
    let start = "Server file is larger than the configured stream limit ("@;
    let rest = decimal(limit as nat) + " bytes)"@;
    let text = (FileRefusal::TooLarge { limit }).reply();
    assert(text =~= start + rest);
    prefix_and_rest_are_the_text(text, start, rest);
}

/// What the console is told of a file that it cannot have names the client and the file.
pub proof fn warnings_name_client_and_file(target: Seq<char>, path: Seq<char>)
    ensures
        without_prefix(
            DownloadRefusal::NotRegistered.warning(target, path),
            "Client "@ + target + " has not registered requested file: "@,
        ) == Some(with_forward_slashes(path)),
        without_prefix(
            DownloadRefusal::TargetUnavailable.warning(target, path),
            "Client not found: "@,
        ) == Some(target),
        without_prefix(DownloadRefusal::NoFileList.warning(target, path), "Client "@) == Some(
            target + " has not registered a file list yet"@,
        ),
        without_prefix(client_not_found(target), "Client not found: "@) == Some(target),
        without_prefix(no_file_list(target), "Client "@) == Some(
            target + " has not registered a file list yet"@,
        ),
{
    prefix_and_rest_are_the_text(
        DownloadRefusal::NotRegistered.warning(target, path),
        "Client "@ + target + " has not registered requested file: "@,
        with_forward_slashes(path),
    );
    prefix_and_rest_are_the_text(client_not_found(target), "Client not found: "@, target);
    let rest = target + " has not registered a file list yet"@;
    assert(no_file_list(target) =~= "Client "@ + rest);
    prefix_and_rest_are_the_text(no_file_list(target), "Client "@, rest);
}

/// Every question of a client is answered as it should be: about who is connected, about the
/// server's files, about another client's files, and about a file that it wants.
pub proof fn questions_get_their_answers<C, S, R>(
    relay: RelayView<C, S, R>,
    id: Seq<char>,
    target: Seq<char>,
    path: Seq<char>,
)
    ensures
        relay.response(ClientMessageView::ListClients) is CountServerFiles,
        relay.response(ClientMessageView::ListFiles { target }) is ListServerFiles <==> names_server(
            target,
        ),
        !names_server(target) && !relay.clients.contains_key(target) ==> relay.response(
            ClientMessageView::ListFiles { target },
        ) == (ResponseView::Reply {
            message: ServerMessageView::Error { message: client_not_found(target) },
        }),
        !names_server(target) && relay.clients.contains_key(target) && !relay.folders.contains_key(
            target,
        ) ==> relay.response(ClientMessageView::ListFiles { target }) == (ResponseView::Reply {
            message: ServerMessageView::Error { message: no_file_list(target) },
        }),
        !names_server(target) && relay.clients.contains_key(target) && relay.folders.contains_key(
            target,
        ) ==> relay.response(ClientMessageView::ListFiles { target }) == (ResponseView::Reply {
            message: ServerMessageView::FileList { target, files: relay.folders[target] },
        }),
        match relay.find_source(target, path) {
            Ok(source) => relay.response(ClientMessageView::RequestDownload { target, path }) == (
            ResponseView::Download { source }),
            Err(refusal) => relay.response(ClientMessageView::RequestDownload { target, path }) == (
            ResponseView::Reply {
                message: ServerMessageView::Error { message: refusal.reply() },
            }),
        },
        relay.after_message(id, ClientMessageView::ListClients) == relay,
        relay.after_message(id, ClientMessageView::ListFiles { target }) == relay,
        relay.after_message(id, ClientMessageView::RequestDownload { target, path }) == relay,
{
}

/// A registration that is accepted says nothing, and puts the list in the place of what the client
/// shared before. Nothing else changes.
pub proof fn registrations_change_one_folder<C, S, R>(
    relay: RelayView<C, S, R>,
    id: Seq<char>,
    files: Seq<FileView>,
    other: Seq<char>,
)
    ensures
        ({
            let after = relay.after_message(id, ClientMessageView::Register { files });
            let outcome = validated(relay.style, files, relay.max_stream_bytes);
            &&& outcome is Ok ==> relay.response(ClientMessageView::Register { files }) is Nothing
            &&& outcome is Ok ==> after.folders.contains_key(id) && after.folders[id]
                == outcome->Ok_0
            &&& outcome is Err ==> after == relay
            &&& after.auth_token == relay.auth_token
            &&& after.clients == relay.clients
            &&& after.order == relay.order
            &&& after.streams == relay.streams
            &&& after.max_stream_bytes == relay.max_stream_bytes
            &&& after.style == relay.style
            &&& other != id ==> after.folders.contains_key(other) == relay.folders.contains_key(
                other,
            ) && after.folders[other] == relay.folders[other]
        }),
{
}

/// Who connects can be reached by what leads to them, and nothing else changes.
pub proof fn connecting_changes_one_client<C, S, R>(
    relay: RelayView<C, S, R>,
    id: Seq<char>,
    client: C,
    other: Seq<char>,
)
    ensures
        ({
            let after = relay.connected(id, client);
            &&& after.clients.contains_key(id)
            &&& after.clients[id] == client
            &&& other != id ==> after.clients.contains_key(other) == relay.clients.contains_key(
                other,
            ) && after.clients[other] == relay.clients[other]
            &&& after.auth_token == relay.auth_token
            &&& after.folders == relay.folders
            &&& after.streams == relay.streams
            &&& after.max_stream_bytes == relay.max_stream_bytes
            &&& after.style == relay.style
            &&& relay.clients.contains_key(id) ==> after.order == relay.order
            &&& !relay.clients.contains_key(id) ==> after.order == relay.order + seq![id]
        }),
{
    if !relay.clients.contains_key(id) {
        assert(relay.order.push(id) == relay.order + seq![id]);
    }
}

/// Who goes takes what leads to them and what they share with them, and nothing else changes; those
/// who stay keep their order.
pub proof fn going_changes_one_client<C, S, R>(
    relay: RelayView<C, S, R>,
    id: Seq<char>,
    other: Seq<char>,
    earlier: Seq<Seq<char>>,
    later: Seq<Seq<char>>,
)
    requires
        relay.valid(),
    ensures
        ({
            let after = relay.disconnected(id);
            &&& !after.clients.contains_key(id)
            &&& !after.folders.contains_key(id)
            &&& other != id ==> {
                &&& after.clients.contains_key(other) == relay.clients.contains_key(other)
                &&& after.clients[other] == relay.clients[other]
                &&& after.folders.contains_key(other) == relay.folders.contains_key(other)
                &&& after.folders[other] == relay.folders[other]
            }
            &&& after.auth_token == relay.auth_token
            &&& after.streams == relay.streams
            &&& after.max_stream_bytes == relay.max_stream_bytes
            &&& after.style == relay.style
            &&& !relay.clients.contains_key(id) ==> after.order == relay.order
            &&& relay.order == earlier + seq![id] + later ==> after.order == earlier + later
        }),
{
    if relay.order == earlier + seq![id] + later {
        let at = earlier.len() as int;
        assert(relay.order[at] == id);
        assert(relay.order.contains(id));
        let k = relay.order.index_of(id);
        assert(0 <= k < relay.order.len() && relay.order[k] == id);
        assert(k == at);
        assert(relay.order.remove(at) =~= earlier + later);
    }
}

/// The list of targets is the server with its number of files, then the clients in the order in
/// which they connected, each with the number of files on its list, or none where it has no list.
pub proof fn targets_are_listed_in_order<C, S, R>(relay: RelayView<C, S, R>, own: usize, i: int)
    requires
        relay.valid(),
        0 <= i < relay.order.len(),
    ensures
        relay.targets(own).len() == 1 + relay.order.len(),
        relay.targets(own)[0] == (ClientInfoView { client_id: "server"@, files_count: own }),
        relay.targets(own)[i + 1].client_id == relay.order[i],
        relay.folders.contains_key(relay.order[i]) ==> relay.targets(own)[i + 1].files_count
            == relay.folders[relay.order[i]].len(),
        !relay.folders.contains_key(relay.order[i]) ==> relay.targets(own)[i + 1].files_count == 0,
{
    if relay.folders.contains_key(relay.order[i]) {
        assert(relay.folders[relay.order[i]].len() <= 10_000);
    }
}

} // verus!
