//! What uploads, downloads and streams do to each other.

use vstd::prelude::*;
use crate::downloads::started;
use crate::downloads::KeysView;
use crate::http::upload_step;
use crate::http::Status;
use crate::http::UploadEvent;
use crate::http::UploadStep;
use crate::messages::ServerMessageView;
use crate::paths::file_name_of;
use crate::paths::PathStyle;
use crate::relay::RelayView;
use crate::secrets::HeadersView;
use crate::streams::after_take;
use crate::streams::after_upload;
use crate::streams::taken_from;
use crate::streams::upload_limit;
use crate::streams::StreamMap;
use crate::streams::Taken;

verus! {

/// Whether two relays are the same but for their streams.
pub open spec fn same_but_streams<C, S, R>(a: RelayView<C, S, R>, b: RelayView<C, S, R>) -> bool {
    &&& a.auth_token == b.auth_token
    &&& a.clients == b.clients
    &&& a.order == b.order
    &&& a.folders == b.folders
    &&& a.max_stream_bytes == b.max_stream_bytes
    &&& a.style == b.style
}

/// Whether two relays have the same streams but for `id`.
pub open spec fn same_other_streams<C, S, R>(
    a: RelayView<C, S, R>,
    b: RelayView<C, S, R>,
    id: Seq<char>,
) -> bool {
    forall|other: Seq<char>|
        other != id ==> #[trigger] a.streams.contains_key(other) == b.streams.contains_key(other)
            && a.streams[other] == b.streams[other]
}

/// A download takes the receiver from its stream and nothing else: while the stream is open, uploads
/// are let in and refused as before, with the same sender and the same limit. Once the upload has
/// ended, the stream closes.
pub proof fn downloads_leave_the_upload<C, S, R>(
    relay: RelayView<C, S, R>,
    first: HeadersView,
    id: Seq<char>,
    headers: HeadersView,
)
    requires
        relay.download_refusal(first, id) is None,
    ensures
        ({
            let after = relay.after_download_request(first, id);
            let was = relay.streams[id];
            let now = after.streams[id];
            &&& same_but_streams(after, relay)
            &&& same_other_streams(after, relay, id)
            &&& after.streams.contains_key(id) == was.sender is Some
            &&& was.sender is Some ==> {
                &&& after.upload_refusal(headers, id) == relay.upload_refusal(headers, id)
                &&& now.sender == was.sender
                &&& now.receiver is None
                &&& now.upload_token == was.upload_token
                &&& now.download_token == was.download_token
                &&& upload_limit(now.expected_size, after.max_stream_bytes) == upload_limit(
                    was.expected_size,
                    relay.max_stream_bytes,
                )
                &&& now.expected_size == was.expected_size
            }
        }),
{
}

/// The server itself takes the receiver from a stream and nothing else: uploads are let in and
/// refused as before, with the same sender, the same tokens and the same limit.
pub proof fn taking_leaves_the_upload<C, S, R>(
    relay: RelayView<C, S, R>,
    id: Seq<char>,
    headers: HeadersView,
)
    ensures
        ({
            let after = relay.with_streams(after_take(relay.streams, id));
            let was = relay.streams[id];
            let now = after.streams[id];
            &&& same_but_streams(after, relay)
            &&& same_other_streams(after, relay, id)
            &&& after.upload_refusal(headers, id) == relay.upload_refusal(headers, id)
            &&& after.streams.contains_key(id) == relay.streams.contains_key(id)
            &&& relay.streams.contains_key(id) ==> {
                &&& now.sender == was.sender
                &&& now.receiver is None
                &&& now.upload_token == was.upload_token
                &&& now.download_token == was.download_token
                &&& now.expected_size == was.expected_size
            }
        }),
{
}

/// The end of an upload takes the sender from its stream and nothing else: while the stream is open,
/// downloads are let in and refused as before, with the same receiver. Once the receiver is gone,
/// the stream closes. Where there is no stream, nothing happens.
pub proof fn uploads_leave_the_download<C, S, R>(
    relay: RelayView<C, S, R>,
    id: Seq<char>,
    headers: HeadersView,
)
    ensures
        ({
            let after = relay.after_upload_step(id, UploadStep::Finish(Status::Success));
            let was = relay.streams[id];
            let now = after.streams[id];
            &&& same_but_streams(after, relay)
            &&& same_other_streams(after, relay, id)
            &&& after.streams.contains_key(id) == (relay.streams.contains_key(id)
                && was.receiver is Some)
            &&& after.streams.contains_key(id) ==> {
                &&& after.download_refusal(headers, id) == relay.download_refusal(headers, id)
                &&& now.receiver == was.receiver
                &&& now.sender is None
                &&& now.upload_token == was.upload_token
                &&& now.download_token == was.download_token
                &&& now.expected_size == was.expected_size
            }
            &&& after == relay.with_streams(after_upload(relay.streams, id))
        }),
{
}

/// An upload that is too long takes its stream with it and nothing else; every other step of an
/// upload but its end leaves everything as it was.
pub proof fn other_upload_steps_change_nothing<C, S, R>(
    relay: RelayView<C, S, R>,
    id: Seq<char>,
    status: Status,
)
    ensures
        ({
            let after = relay.after_upload_step(id, UploadStep::Finish(Status::PayloadTooLarge));
            &&& same_but_streams(after, relay)
            &&& same_other_streams(after, relay, id)
            &&& !after.streams.contains_key(id)
        }),
        relay.after_upload_step(id, UploadStep::Forward) == relay,
        relay.after_upload_step(id, UploadStep::Wait) == relay,
        status != Status::PayloadTooLarge && status != Status::Success ==> relay.after_upload_step(
            id,
            UploadStep::Finish(status),
        ) == relay,
{
}

/// What an upload comes to: a chunk goes on exactly if it still fits, something that is no data is
/// passed over, and the upload ends well with its body or its receiver, badly where its body cannot
/// be read. How much has come makes a difference to chunks only.
pub proof fn uploads_end_as_they_should(received: u64, limit: u64, len: u64)
    ensures
        upload_step(received, limit, UploadEvent::Chunk(len)) == UploadStep::Forward <==> received
            as int + len as int <= limit as int,
        upload_step(received, limit, UploadEvent::Chunk(len)) != UploadStep::Forward
            ==> upload_step(received, limit, UploadEvent::Chunk(len)) == UploadStep::Finish(
            Status::PayloadTooLarge,
        ),
        upload_step(received, limit, UploadEvent::NoData) == UploadStep::Wait,
        upload_step(received, limit, UploadEvent::End) == UploadStep::Finish(Status::Success),
        upload_step(received, limit, UploadEvent::ReceiverGone) == UploadStep::Finish(
            Status::Success,
        ),
        upload_step(received, limit, UploadEvent::BodyError) == UploadStep::Finish(
            Status::BadRequest,
        ),
{
}

/// An upload may be as long as its file and as long as a stream may be, whichever is less; where the
/// length of the file is not known, as long as a stream may be.
pub proof fn the_smaller_limit_counts(size: u64, max: u64)
    ensures
        upload_limit(None, max) == max,
        upload_limit(Some(size), max) <= size,
        upload_limit(Some(size), max) <= max,
        upload_limit(Some(size), max) == size || upload_limit(Some(size), max) == max,
{
}

/// Who asks for the receiver of a stream gets the one that is there, or is told whether the stream
/// or only its receiver is missing.
pub proof fn receivers_are_taken_as_they_are<S, R>(streams: StreamMap<S, R>, id: Seq<char>, r: R)
    ensures
        taken_from(streams, id) == Taken::Receiver(r) <==> streams.contains_key(id)
            && streams[id].receiver == Some(r),
        taken_from(streams, id) is NoStream <==> !streams.contains_key(id),
        taken_from(streams, id) is AlreadyUsed <==> streams.contains_key(id)
            && streams[id].receiver is None,
{
}

/// An upload is let in exactly if the request carries the server's token, the stream is open, the
/// request carries the stream's upload token and no upload has ended; the first of these that is
/// missing decides how it is refused.
pub proof fn uploads_are_let_in_exactly<C, S, R>(
    relay: RelayView<C, S, R>,
    headers: HeadersView,
    id: Seq<char>,
)
    ensures
        ({
            let known = headers.bears(relay.auth_token);
            let open = relay.streams.contains_key(id);
            let right = headers.opens(relay.streams[id].upload_token);
            let ready = relay.streams[id].sender is Some;
            let refusal = relay.upload_refusal(headers, id);
            &&& refusal is None <==> known && open && right && ready
            &&& refusal == Some(Status::Unauthorized) <==> !known
            &&& refusal == Some(Status::NotFound) <==> known && !open
            &&& refusal == Some(Status::Forbidden) <==> known && open && !right
            &&& refusal == Some(Status::Conflict) <==> known && open && right && !ready
        }),
{
}

/// A download is let in exactly if the request carries the server's token, the stream is open, the
/// request carries the stream's download token and nobody has the receiver; the first of these that
/// is missing decides how it is refused and what is said.
pub proof fn downloads_are_let_in_exactly<C, S, R>(
    relay: RelayView<C, S, R>,
    headers: HeadersView,
    id: Seq<char>,
)
    ensures
        ({
            let known = headers.bears(relay.auth_token);
            let open = relay.streams.contains_key(id);
            let right = headers.opens(relay.streams[id].download_token);
            let ready = relay.streams[id].receiver is Some;
            let refusal = relay.download_refusal(headers, id);
            let status = refusal->0.status;
            let body = refusal->0.body;
            &&& refusal is None <==> known && open && right && ready
            &&& !known ==> status == Status::Unauthorized && body.len() == 0
            &&& known && !open ==> status == Status::NotFound && body == "Stream not found"@
            &&& known && open && !right ==> status == Status::Forbidden && body.len() == 0
            &&& known && open && right && !ready ==> status == Status::Conflict && body
                == "Stream already consumed"@
        }),
{
}

/// A request to download does something exactly if it carries both tokens of an open stream: then
/// the receiver goes, and the stream closes if its upload has ended.
pub proof fn download_requests_do_only_that<C, S, R>(
    relay: RelayView<C, S, R>,
    headers: HeadersView,
    id: Seq<char>,
)
    ensures
        ({
            let after = relay.after_download_request(headers, id);
            let known = headers.bears(relay.auth_token) && relay.streams.contains_key(id)
                && headers.opens(relay.streams[id].download_token);
            &&& same_but_streams(after, relay)
            &&& same_other_streams(after, relay, id)
            &&& !known ==> after == relay
            &&& known && relay.streams[id].sender is None ==> !after.streams.contains_key(id)
            &&& known && relay.streams[id].sender is Some ==> {
                let was = relay.streams[id];
                let now = after.streams[id];
                &&& after.streams.contains_key(id)
                &&& now.receiver is None
                &&& now.sender == was.sender
                &&& now.upload_token == was.upload_token
                &&& now.download_token == was.download_token
                &&& now.expected_size == was.expected_size
            }
        }),
{
}

/// A stream that is opened has both its ends, its tokens and its length, and is the only thing that
/// changes.
pub proof fn streams_are_opened_as_asked<C, S, R>(
    relay: RelayView<C, S, R>,
    keys: KeysView,
    expected_size: Option<u64>,
    sender: S,
    receiver: R,
)
    ensures
        ({
            let after = relay.with_stream(keys, expected_size, sender, receiver);
            let stream = after.streams[keys.stream_id];
            &&& same_but_streams(after, relay)
            &&& same_other_streams(after, relay, keys.stream_id)
            &&& after.streams.contains_key(keys.stream_id)
            &&& stream.sender == Some(sender)
            &&& stream.receiver == Some(receiver)
            &&& stream.upload_token == keys.upload_token
            &&& stream.download_token == keys.download_token
            &&& stream.expected_size == expected_size
        }),
{
}

/// Streams change without anything else.
pub proof fn streams_change_alone<C, S, R>(relay: RelayView<C, S, R>, streams: StreamMap<S, R>)
    ensures
        same_but_streams(relay.with_streams(streams), relay),
        relay.with_streams(streams).streams == streams,
{
}

/// Whoever has a file is told its whole path, the stream and the upload token; whoever asked for it
/// is told its name, the same stream and the download token. Neither is told the other's token,
/// unless the two are the same.
pub proof fn each_side_gets_its_own_token(style: PathStyle, wanted: Seq<char>, keys: KeysView)
    ensures
        started(style, wanted, keys).stream_id == keys.stream_id,
        started(style, wanted, keys).instruction matches ServerMessageView::UploadInstruction {
            path,
            stream_id,
            token,
        } && path == wanted && stream_id == keys.stream_id && token == keys.upload_token,
        started(style, wanted, keys).ready matches ServerMessageView::DownloadReady {
            stream_id,
            name,
            token,
        } && stream_id == keys.stream_id && name == file_name_of(style, wanted) && token
            == keys.download_token,
{
}

/// A file goes through its stream whichever side comes first: whether the download or the upload is
/// asked for first, both are let in with what they were told, and the upload may have as many bytes
/// as the file.
pub proof fn either_side_may_come_first<C, S, R>(
    relay: RelayView<C, S, R>,
    keys: KeysView,
    size: u64,
    sender: S,
    receiver: R,
    source: HeadersView,
    requester: HeadersView,
)
    requires
        size <= relay.max_stream_bytes,
        source.bears(relay.auth_token),
        source.opens(keys.upload_token),
        requester.bears(relay.auth_token),
        requester.opens(keys.download_token),
    ensures
        ({
            let open = relay.with_stream(keys, Some(size), sender, receiver);
            let id = keys.stream_id;
            let asked = open.after_download_request(requester, id);
            let taken = open.with_streams(after_take(open.streams, id));
            let sent = open.after_upload_step(id, UploadStep::Finish(Status::Success));
            &&& open.download_refusal(requester, id) is None
            &&& open.upload_refusal(source, id) is None
            &&& asked.upload_refusal(source, id) is None
            &&& asked.streams[id].sender == Some(sender)
            &&& upload_limit(asked.streams[id].expected_size, asked.max_stream_bytes) == size
            &&& taken.upload_refusal(source, id) is None
            &&& taken.streams[id].sender == Some(sender)
            &&& upload_limit(taken.streams[id].expected_size, taken.max_stream_bytes) == size
            &&& sent.download_refusal(requester, id) is None
            &&& sent.streams[id].receiver == Some(receiver)
            &&& !sent.after_download_request(requester, id).streams.contains_key(id)
            &&& !asked.after_upload_step(
                id,
                UploadStep::Finish(Status::Success),
            ).streams.contains_key(id)
        }),
{
}

} // verus!
