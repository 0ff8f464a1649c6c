//! What holds of the relay across several of its operations.

use vstd::prelude::*;
use crate::client::client_token_of;
use crate::downloads::client_not_found;
use crate::downloads::names_server;
use crate::downloads::started;
use crate::downloads::DownloadRefusal;
use crate::downloads::KeysView;
use crate::downloads::SourceView;
use crate::folders::accepted_exactly_if_valid;
use crate::folders::find_file;
use crate::folders::found_exactly_if_listed;
use crate::folders::normalized;
use crate::folders::normalized_all;
use crate::folders::valid_files;
use crate::folders::validated;
use crate::http::upload_step;
use crate::http::Status;
use crate::http::UploadEvent;
use crate::http::UploadStep;
use crate::messages::ClientInfoView;
use crate::messages::ClientMessageView;
use crate::messages::FileView;
use crate::messages::ServerMessageView;
use crate::paths::is_plain_name;
use crate::paths::safe_path;
use crate::paths::safe_path_has_a_name;
use crate::relay::RelayView;
use crate::relay::ResponseView;
use crate::secrets::bearer_opens_with_the_right_token;
use crate::secrets::generated_tokens_are_visible;
use crate::secrets::header_bytes;
use crate::secrets::header_gives_back_its_text;
use crate::secrets::visible_text;
use crate::secrets::HeadersView;
use crate::server_files::admitted_size;
use crate::server_files::place_refusal;
use crate::server_files::served_size;
use crate::streams::after_download;
use crate::streams::after_take;
use crate::streams::after_upload;
use crate::streams::taken_from;
use crate::streams::upload_limit;
use crate::streams::StreamMap;
use crate::text::trimmed;
use crate::text::with_forward_slashes;

verus! {

/// Whatever happens to a valid relay, it stays valid: clients connect and go, they send messages,
/// and streams are opened and changed.
pub proof fn validity_is_kept<C, S, R>(
    relay: RelayView<C, S, R>,
    id: Seq<char>,
    client: C,
    message: ClientMessageView,
    streams: StreamMap<S, R>,
)
    requires
        relay.valid(),
    ensures
        relay.connected(id, client).valid(),
        relay.disconnected(id).valid(),
        relay.after_message(id, message).valid(),
        relay.with_streams(streams).valid(),
{
    let on = relay.connected(id, client);
    assert forall|other: Seq<char>| #[trigger]
        on.order.contains(other) <==> on.clients.contains_key(other) by {
        if !relay.clients.contains_key(id) {
            assert(on.order == relay.order.push(id));
            if relay.order.contains(other) {
                let i = choose|i: int| 0 <= i < relay.order.len() && relay.order[i] == other;
                assert(on.order[i] == other);
            }
            assert(on.order[relay.order.len() as int] == id);
        }
    }
    assert(on.order.no_duplicates()) by {
        if !relay.clients.contains_key(id) {
            assert(!relay.order.contains(id));
        }
    }
    let off = relay.disconnected(id);
    if relay.clients.contains_key(id) {
        assert(relay.order.contains(id));
        let at = relay.order.index_of(id);
        assert(0 <= at < relay.order.len() && relay.order[at] == id);
        assert forall|other: Seq<char>| #[trigger]
            off.order.contains(other) <==> off.clients.contains_key(other) by {
            if off.order.contains(other) {
                let i = choose|i: int| 0 <= i < off.order.len() && off.order[i] == other;
                let k = if i < at {
                    i
                } else {
                    i + 1
                };
                assert(relay.order[k] == other);
                assert(relay.order.contains(other));
            }
            if off.clients.contains_key(other) {
                assert(relay.order.contains(other));
                let k = choose|k: int| 0 <= k < relay.order.len() && relay.order[k] == other;
                let i = if k < at {
                    k
                } else {
                    k - 1
                };
                assert(off.order[i] == other);
            }
        }
    }
    if let ClientMessageView::Register { files } = message {
        accepted_exactly_if_valid(relay.style, files, relay.max_stream_bytes);
    }
}

/// The list of targets begins with the server, and then holds every connected client once, with the
/// number of files that it has registered.
pub proof fn targets_are_listed_once<C, S, R>(relay: RelayView<C, S, R>, own: usize, id: Seq<char>)
    requires
        relay.valid(),
    ensures
        relay.targets(own).len() == relay.order.len() + 1,
        relay.targets(own)[0] == (ClientInfoView { client_id: "server"@, files_count: own }),
        relay.clients.contains_key(id) <==> exists|i: int|
            1 <= i < relay.targets(own).len() && (#[trigger] relay.targets(own)[i]).client_id == id,
        forall|i: int|
            1 <= i < relay.targets(own).len() ==> (#[trigger] relay.targets(own)[i]).files_count
                == relay.files_count(relay.targets(own)[i].client_id),
        forall|i: int, j: int|
            1 <= i < j < relay.targets(own).len() ==> (#[trigger] relay.targets(own)[i]).client_id
                != (#[trigger] relay.targets(own)[j]).client_id,
{
    let targets = relay.targets(own);
    if relay.clients.contains_key(id) {
        assert(relay.order.contains(id));
        let k = choose|k: int| 0 <= k < relay.order.len() && relay.order[k] == id;
        assert(targets[k + 1].client_id == id);
    }
    assert forall|i: int| 1 <= i < targets.len() && (#[trigger] targets[i]).client_id
        == id implies relay.clients.contains_key(id) by {
        assert(relay.order[i - 1] == id);
        assert(relay.order.contains(id));
    }
}

/// What a client registers is what others are told of it: every file, under its path with forward
/// slashes.
pub proof fn registered_files_are_listed<C, S, R>(
    relay: RelayView<C, S, R>,
    id: Seq<char>,
    files: Seq<FileView>,
)
    requires
        relay.clients.contains_key(id),
        !names_server(id),
        validated(relay.style, files, relay.max_stream_bytes) is Ok,
    ensures
        relay.after_message(id, ClientMessageView::Register { files }).response(
            ClientMessageView::ListFiles { target: id },
        ) == (ResponseView::Reply {
            message: ServerMessageView::FileList { target: id, files: normalized_all(files) },
        }),
        relay.after_message(id, ClientMessageView::Register { files }).files_count(id)
            == files.len(),
{
    accepted_exactly_if_valid(relay.style, files, relay.max_stream_bytes);
}

/// In a list without repetitions, the file that is found under a path is the one that is there.
proof fn found_file_is_the_one(files: Seq<FileView>, i: int)
    requires
        0 <= i < files.len(),
        forall|a: int, b: int|
            0 <= a < b < files.len() ==> (#[trigger] files[a]).path != (#[trigger] files[b]).path,
    ensures
        find_file(files, files[i].path) == Some(files[i]),
{
    let path = files[i].path;
    found_exactly_if_listed(files, path);
    let file = find_file(files, path)->0;
    let k = choose|k: int| 0 <= k < files.len() && files[k] == file;
    assert(files[k].path == files[i].path);
}

/// Every file that a client has registered can be asked for under the path that it was registered
/// with, and nothing but its own length is promised of it.
pub proof fn registered_files_can_be_had<C, S, R>(
    relay: RelayView<C, S, R>,
    id: Seq<char>,
    files: Seq<FileView>,
    i: int,
)
    requires
        relay.clients.contains_key(id),
        !names_server(id),
        validated(relay.style, files, relay.max_stream_bytes) is Ok,
        0 <= i < files.len(),
    ensures
        relay.after_message(id, ClientMessageView::Register { files }).response(
            ClientMessageView::RequestDownload { target: id, path: files[i].path },
        ) == (ResponseView::Download {
            source: SourceView::Client {
                target: id,
                path: with_forward_slashes(files[i].path),
                size: files[i].size,
            },
        }),
{
    accepted_exactly_if_valid(relay.style, files, relay.max_stream_bytes);
    let kept = normalized_all(files);
    assert(kept[i] == normalized(files[i]));
    found_file_is_the_one(kept, i);
}

/// Nothing but what a connected client has registered can be had from it: what is granted lies at a
/// safe path, is on the client's list and is no longer than a stream may be.
pub proof fn only_registered_files_can_be_had<C, S, R>(
    relay: RelayView<C, S, R>,
    target: Seq<char>,
    path: Seq<char>,
)
    requires
        relay.valid(),
    ensures
        match relay.find_source(target, path) {
            Ok(SourceView::Client { target: id, path: p, size }) => {
                &&& id == target
                &&& p == with_forward_slashes(path)
                &&& relay.clients.contains_key(id)
                &&& relay.folders.contains_key(id)
                &&& relay.folders[id].contains(FileView { path: p, size })
                &&& safe_path(relay.style, p)
                &&& size <= relay.max_stream_bytes
            },
            Ok(SourceView::Server { path: p }) => p == path && names_server(target) && safe_path(
                relay.style,
                p,
            ),
            Err(_) => true,
        },
{
    if let Ok(SourceView::Client { target: id, path: p, size }) = relay.find_source(target, path) {
        let files = relay.folders[id];
        found_exactly_if_listed(files, p);
        let file = find_file(files, p)->0;
        assert(file == (FileView { path: p, size }));
        let i = choose|i: int| 0 <= i < files.len() && files[i] == file;
        assert(files[i].size <= relay.max_stream_bytes);
    }
}

/// What is granted of the server's own files is not refused for its path when it is served: a file
/// in its place that is short enough is then handed out.
pub proof fn granted_server_files_are_served<C, S, R>(
    relay: RelayView<C, S, R>,
    target: Seq<char>,
    path: Seq<char>,
    folder: Option<Seq<Seq<u8>>>,
    file: Option<Seq<Seq<u8>>>,
    size: Option<u64>,
)
    requires
        relay.find_source(target, path) == Ok::<SourceView, DownloadRefusal>(
            SourceView::Server { path },
        ),
    ensures
        served_size(relay.style, path, folder, file, size, relay.max_stream_bytes) == match place_refusal(
            folder,
            file,
        ) {
            Some(refusal) => Err(refusal),
            None => admitted_size(size, relay.max_stream_bytes),
        },
{
}

/// A registration that is refused leaves everything as it was, and the client is told why.
pub proof fn refused_registration_changes_nothing<C, S, R>(
    relay: RelayView<C, S, R>,
    id: Seq<char>,
    files: Seq<FileView>,
)
    requires
        !valid_files(relay.style, normalized_all(files), relay.max_stream_bytes),
    ensures
        relay.after_message(id, ClientMessageView::Register { files }) == relay,
        validated(relay.style, files, relay.max_stream_bytes) matches Err(complaint)
            && relay.response(ClientMessageView::Register { files }) == (ResponseView::Reply {
            message: ServerMessageView::Error { message: complaint },
        }),
{
    accepted_exactly_if_valid(relay.style, files, relay.max_stream_bytes);
}

/// A client that has gone is forgotten: it is not listed, its files are not told, nothing can be
/// had from it, and nobody else is affected.
pub proof fn gone_clients_are_forgotten<C, S, R>(
    relay: RelayView<C, S, R>,
    id: Seq<char>,
    other: Seq<char>,
    path: Seq<char>,
)
    requires
        relay.valid(),
        !names_server(id),
        other != id,
    ensures
        !relay.disconnected(id).order.contains(id),
        relay.disconnected(id).response(ClientMessageView::ListFiles { target: id }) == (
        ResponseView::Reply { message: ServerMessageView::Error { message: client_not_found(id) } }),
        relay.disconnected(id).find_source(id, path) == Err::<SourceView, DownloadRefusal>(
            if safe_path(relay.style, with_forward_slashes(path)) {
                DownloadRefusal::TargetUnavailable
            } else {
                DownloadRefusal::InvalidTargetPath
            },
        ),
        relay.disconnected(id).clients.contains_key(other) == relay.clients.contains_key(other),
        relay.disconnected(id).files_of_client(other) == relay.files_of_client(other),
        relay.disconnected(id).find_source(other, path) == relay.find_source(other, path),
        relay.disconnected(id).streams == relay.streams,
{
    let off = relay.disconnected(id);
    if relay.clients.contains_key(id) {
        assert(relay.order.contains(id));
        let at = relay.order.index_of(id);
        assert(0 <= at < relay.order.len() && relay.order[at] == id);
        assert forall|i: int| 0 <= i < off.order.len() implies off.order[i] != id by {
            let k = if i < at {
                i
            } else {
                i + 1
            };
            assert(off.order[i] == relay.order[k]);
        }
    }
}

/// Somebody who has just connected is listed last, without files, and has no file list.
pub proof fn newcomers_are_listed<C, S, R>(
    relay: RelayView<C, S, R>,
    id: Seq<char>,
    client: C,
    own: usize,
)
    requires
        relay.valid(),
        !relay.clients.contains_key(id),
        !relay.folders.contains_key(id),
    ensures
        relay.connected(id, client).targets(own) == relay.targets(own).push(
            ClientInfoView { client_id: id, files_count: 0 },
        ),
{
    let on = relay.connected(id, client);
    let old_list = relay.targets(own);
    assert(on.targets(own).len() == old_list.len() + 1);
    assert forall|i: int| 0 <= i < on.targets(own).len() implies on.targets(own)[i] == old_list.push(
        ClientInfoView { client_id: id, files_count: 0 },
    )[i] by {
        if 0 < i < old_list.len() {
            assert(on.order[i - 1] == relay.order[i - 1]);
        }
    }
}

/// Somebody new who goes again leaves no trace.
pub proof fn going_undoes_connecting<C, S, R>(relay: RelayView<C, S, R>, id: Seq<char>, client: C)
    requires
        relay.valid(),
        !relay.clients.contains_key(id),
        !relay.folders.contains_key(id),
    ensures
        relay.connected(id, client).disconnected(id) == relay,
{
    let on = relay.connected(id, client);
    let last = relay.order.len() as int;
    assert(!relay.order.contains(id));
    assert(on.order[last] == id);
    let at = on.order.index_of(id);
    assert(on.order.contains(id));
    assert(0 <= at < on.order.len() && on.order[at] == id);
    assert(at == last) by {
        if at < last {
            assert(relay.order[at] == id);
        }
    }
    assert(on.disconnected(id) =~= relay);
}

/// Closing a stream undoes opening it.
pub proof fn closing_undoes_opening<C, S, R>(
    relay: RelayView<C, S, R>,
    keys: KeysView,
    size: Option<u64>,
    sender: S,
    receiver: R,
)
    requires
        !relay.streams.contains_key(keys.stream_id),
    ensures
        ({
            let open = relay.with_stream(keys, size, sender, receiver);
            open.with_streams(open.streams.remove(keys.stream_id)) == relay
        }),
{
    let open = relay.with_stream(keys, size, sender, receiver);
    assert(open.streams.remove(keys.stream_id) =~= relay.streams);
}

/// A stream closes when both its upload and its download are through, in whichever order.
pub proof fn either_order_closes_the_stream<S, R>(streams: StreamMap<S, R>, id: Seq<char>)
    ensures
        after_download(after_upload(streams, id), id) == streams.remove(id),
        after_upload(after_download(streams, id), id) == streams.remove(id),
        after_upload(after_take(streams, id), id) == streams.remove(id),
{
    assert(after_download(after_upload(streams, id), id) =~= streams.remove(id));
    assert(after_upload(after_download(streams, id), id) =~= streams.remove(id));
    assert(after_upload(after_take(streams, id), id) =~= streams.remove(id));
}

/// What happens to one stream leaves every other stream as it was.
pub proof fn other_streams_are_untouched<S, R>(
    streams: StreamMap<S, R>,
    id: Seq<char>,
    other: Seq<char>,
)
    requires
        other != id,
    ensures
        after_upload(streams, id).contains_key(other) == streams.contains_key(other),
        after_upload(streams, id)[other] == streams[other],
        after_download(streams, id).contains_key(other) == streams.contains_key(other),
        after_download(streams, id)[other] == streams[other],
        after_take(streams, id).contains_key(other) == streams.contains_key(other),
        after_take(streams, id)[other] == streams[other],
        streams.remove(id).contains_key(other) == streams.contains_key(other),
        streams.remove(id)[other] == streams[other],
{
}

/// A receiver is handed out once: after a download has been let in, no other request gets it,
/// whatever its headers are, and neither does the server itself. One with the same tokens is told
/// that the stream is used, or, once its upload has ended too, that there is none.
pub proof fn receiver_is_handed_out_once<C, S, R>(
    relay: RelayView<C, S, R>,
    first: HeadersView,
    second: HeadersView,
    id: Seq<char>,
)
    requires
        relay.download_refusal(first, id) is None,
    ensures
        relay.after_download_request(first, id).download_refusal(second, id) is Some,
        relay.after_download_request(first, id).download_refusal(first, id)->0.status
            == if relay.streams[id].sender is Some {
            Status::Conflict
        } else {
            Status::NotFound
        },
        !(taken_from(relay.after_download_request(first, id).streams, id) is Receiver),
        !(taken_from(after_take(relay.streams, id), id) is Receiver),
{
}

/// What can happen to an open stream.
pub enum StreamOp {
    /// Its upload ends.
    EndUpload,
    /// Somebody with the right tokens asks to download from it.
    Download,
    /// The server itself asks for its receiver.
    Take,
    /// It is closed.
    Close,
}

/// The streams after something has happened to the stream `id`.
pub open spec fn after_op<S, R>(streams: StreamMap<S, R>, id: Seq<char>, op: StreamOp) -> StreamMap<
    S,
    R,
> {
    match op {
        StreamOp::EndUpload => after_upload(streams, id),
        StreamOp::Download => after_download(streams, id),
        StreamOp::Take => after_take(streams, id),
        StreamOp::Close => streams.remove(id),
    }
}

/// How often the receiver of the stream `id` is handed out while `history` happens to the streams,
/// each time to the one that is named.
pub open spec fn handed_out<S, R>(
    streams: StreamMap<S, R>,
    id: Seq<char>,
    history: Seq<(Seq<char>, StreamOp)>,
) -> nat
    decreases history.len(),
{
    if history.len() == 0 {
        0
    } else {
        let (at, op) = history.first();
        let now: nat = if at == id && (op is Download || op is Take) && taken_from(
            streams,
            id,
        ) is Receiver {
            1
        } else {
            0
        };
        now + handed_out(after_op(streams, at, op), id, history.drop_first())
    }
}

/// Whatever happens to the streams that are open, and in whatever order, no receiver is handed out
/// twice.
pub proof fn receivers_are_never_shared<S, R>(
    streams: StreamMap<S, R>,
    id: Seq<char>,
    history: Seq<(Seq<char>, StreamOp)>,
)
    ensures
        handed_out(streams, id, history) <= 1,
        !(taken_from(streams, id) is Receiver) ==> handed_out(streams, id, history) == 0,
    decreases history.len(),
{
    if history.len() > 0 {
        let (at, op) = history.first();
        if at != id {
            other_streams_are_untouched(streams, at, id);
        }
        receivers_are_never_shared(after_op(streams, at, op), id, history.drop_first());
    }
}

/// After an upload has ended, no other upload to its stream is let in, whatever its headers are. One
/// with the same tokens is told that the stream is used, or, once its receiver is gone too, that there
/// is none.
pub proof fn uploads_end_once<C, S, R>(
    relay: RelayView<C, S, R>,
    headers: HeadersView,
    id: Seq<char>,
)
    ensures
        relay.after_upload_step(id, UploadStep::Finish(Status::Success)).upload_refusal(
            headers,
            id,
        ) is Some,
        relay.upload_refusal(headers, id) is None ==> relay.after_upload_step(
            id,
            UploadStep::Finish(Status::Success),
        ).upload_refusal(headers, id) == Some(
            if relay.streams[id].receiver is Some {
                Status::Conflict
            } else {
                Status::NotFound
            },
        ),
{
}

/// A stream that was closed is not found any more, by whoever may ask.
pub proof fn closed_streams_are_not_found<C, S, R>(
    relay: RelayView<C, S, R>,
    headers: HeadersView,
    id: Seq<char>,
)
    requires
        headers.bears(relay.auth_token),
    ensures
        relay.with_streams(relay.streams.remove(id)).upload_refusal(headers, id) == Some(
            Status::NotFound,
        ),
        relay.with_streams(relay.streams.remove(id)).download_refusal(headers, id) matches Some(
            refusal,
        ) && refusal.status == Status::NotFound && refusal.body == "Stream not found"@,
        relay.after_upload_step(id, UploadStep::Finish(Status::PayloadTooLarge)).upload_refusal(
            headers,
            id,
        ) == Some(Status::NotFound),
{
}

/// A request without the token of the server is answered 401, whatever it asks for, and nothing
/// comes of it.
pub proof fn strangers_are_turned_away<C, S, R>(
    relay: RelayView<C, S, R>,
    headers: HeadersView,
    id: Seq<char>,
)
    requires
        !headers.bears(relay.auth_token),
    ensures
        relay.upload_refusal(headers, id) == Some(Status::Unauthorized),
        relay.download_refusal(headers, id) matches Some(refusal) && refusal.status
            == Status::Unauthorized && refusal.body.len() == 0,
        relay.after_download_request(headers, id) == relay,
{
}

/// A request for a stream without the stream's token is answered 403, and nothing comes of it.
pub proof fn wrong_stream_tokens_are_forbidden<C, S, R>(
    relay: RelayView<C, S, R>,
    headers: HeadersView,
    id: Seq<char>,
)
    requires
        headers.bears(relay.auth_token),
        relay.streams.contains_key(id),
    ensures
        !headers.opens(relay.streams[id].upload_token) ==> relay.upload_refusal(headers, id)
            == Some(Status::Forbidden),
        !headers.opens(relay.streams[id].download_token) ==> {
            &&& relay.download_refusal(headers, id) matches Some(refusal) && refusal.status
                == Status::Forbidden
            &&& relay.after_download_request(headers, id) == relay
        },
{
}

/// A download that is refused leaves everything as it was, unless nothing was left of the stream
/// but its name.
pub proof fn refused_downloads_change_nothing<C, S, R>(
    relay: RelayView<C, S, R>,
    headers: HeadersView,
    id: Seq<char>,
)
    requires
        relay.download_refusal(headers, id) is Some,
        relay.streams.contains_key(id) ==> relay.streams[id].sender is Some
            || relay.streams[id].receiver is Some,
    ensures
        relay.after_download_request(headers, id) == relay,
{
    if relay.streams.contains_key(id) {
        assert(relay.after_download_request(headers, id).streams =~= relay.streams);
    }
}

/// The request that a client sends for a stream: its own token and the token of the stream, each in
/// its header.
pub open spec fn request_with(token: Seq<char>, stream_token: Seq<char>) -> HeadersView {
    HeadersView {
        authorization: header_bytes("Bearer "@ + token),
        stream_token: header_bytes(stream_token),
    }
}

/// A client that was given the server's token file has the server's token: it is let in, if a
/// header can carry the token.
pub proof fn copied_token_file_lets_in(file: Seq<char>, stream_token: Seq<char>)
    requires
        visible_text(trimmed(file)),
    ensures
        request_with(client_token_of(None, Some(file)), stream_token).bears(trimmed(file)),
{
    bearer_opens_with_the_right_token(
        trimmed(file),
        trimmed(file),
        request_with(trimmed(file), stream_token),
    );
}

/// The two sides of a download that was prepared are let in with what they were told: whoever has
/// the file may upload as much as the file is long, and whoever asked for it gets the receiver. The
/// token of the server must be one that a header can carry.
pub proof fn both_sides_are_let_in<C, S, R>(
    relay: RelayView<C, S, R>,
    keys: KeysView,
    path: Seq<char>,
    size: u64,
    sender: S,
    receiver: R,
)
    requires
        keys.well_formed(),
        visible_text(relay.auth_token),
        size <= relay.max_stream_bytes,
    ensures
        ({
            let open = relay.with_stream(keys, Some(size), sender, receiver);
            let told = started(relay.style, path, keys);
            &&& told.instruction matches ServerMessageView::UploadInstruction {
                path: wanted,
                stream_id,
                token,
            } && wanted == path && open.upload_refusal(
                request_with(relay.auth_token, token),
                stream_id,
            ) is None && open.streams[stream_id].sender == Some(sender) && upload_limit(
                open.streams[stream_id].expected_size,
                open.max_stream_bytes,
            ) == size
            &&& told.ready matches ServerMessageView::DownloadReady { stream_id, token, .. }
                && open.download_refusal(request_with(relay.auth_token, token), stream_id) is None
                && open.streams[stream_id].receiver == Some(receiver)
        }),
{
    generated_tokens_are_visible(keys.upload_token);
    generated_tokens_are_visible(keys.download_token);
    header_gives_back_its_text(keys.upload_token);
    header_gives_back_its_text(keys.download_token);
    bearer_opens_with_the_right_token(
        relay.auth_token,
        relay.auth_token,
        request_with(relay.auth_token, keys.upload_token),
    );
    bearer_opens_with_the_right_token(
        relay.auth_token,
        relay.auth_token,
        request_with(relay.auth_token, keys.download_token),
    );
}

/// The tokens of the two sides are not interchangeable: unless they happen to be the same, what
/// lets the one side in keeps the other out.
pub proof fn tokens_are_not_interchangeable<C, S, R>(
    relay: RelayView<C, S, R>,
    keys: KeysView,
    size: Option<u64>,
    sender: S,
    receiver: R,
    headers: HeadersView,
)
    requires
        keys.upload_token != keys.download_token,
        headers.bears(relay.auth_token),
    ensures
        ({
            let open = relay.with_stream(keys, size, sender, receiver);
            &&& open.download_refusal(headers, keys.stream_id) is None ==> open.upload_refusal(
                headers,
                keys.stream_id,
            ) == Some(Status::Forbidden)
            &&& open.upload_refusal(headers, keys.stream_id) is None ==> (open.download_refusal(
                headers,
                keys.stream_id,
            ) matches Some(refusal) && refusal.status == Status::Forbidden)
        }),
{
}

/// The name that is announced with a file is the name of one entry of a folder, wherever the file
/// comes from, unless it looks like a drive, which only Windows knows.
pub proof fn announced_names_are_plain<C, S, R>(
    relay: RelayView<C, S, R>,
    target: Seq<char>,
    path: Seq<char>,
    keys: KeysView,
)
    requires
        relay.find_source(target, path) is Ok,
    ensures
        started(relay.style, relay.find_source(target, path)->Ok_0.path(), keys).ready matches
        ServerMessageView::DownloadReady { name, .. } && name.len() > 0 && (is_plain_name(
            relay.style,
            name,
        ) || relay.style.has_drive(name)),
{
    let p = relay.find_source(target, path)->Ok_0.path();
    safe_path_has_a_name(relay.style, p);
}

/// The number of bytes in some chunks.
pub open spec fn total(chunks: Seq<u64>) -> nat
    decreases chunks.len(),
{
    if chunks.len() == 0 {
        0
    } else {
        total(chunks.drop_last()) + chunks.last() as nat
    }
}

/// The number of bytes that are sent on of an upload that comes in `chunks` and may have `limit`
/// bytes; nothing where a chunk is too much, and the upload ends there.
pub open spec fn sent_on(chunks: Seq<u64>, limit: u64) -> Option<u64>
    decreases chunks.len(),
{
    if chunks.len() == 0 {
        Some(0)
    } else {
        match sent_on(chunks.drop_last(), limit) {
            None => None,
            Some(received) => match upload_step(
                received,
                limit,
                UploadEvent::Chunk(chunks.last()),
            ) {
                UploadStep::Forward => Some((received + chunks.last()) as u64),
                _ => None,
            },
        }
    }
}

/// An upload goes through as a whole exactly when it is no longer than it may be; and until it is
/// refused, never more than that has been sent on.
pub proof fn uploads_keep_to_the_limit(chunks: Seq<u64>, limit: u64)
    ensures
        sent_on(chunks, limit) is Some <==> total(chunks) <= limit,
        sent_on(chunks, limit) matches Some(received) ==> received == total(chunks) && received
            <= limit,
    decreases chunks.len(),
{
    if chunks.len() > 0 {
        uploads_keep_to_the_limit(chunks.drop_last(), limit);
    }
}

/// No upload may be longer than the server lets a stream be, nor longer than its file.
pub proof fn limits_are_kept(expected_size: Option<u64>, max: u64)
    ensures
        upload_limit(expected_size, max) <= max,
        expected_size matches Some(size) ==> upload_limit(expected_size, max) <= size,
{
}

} // verus!
