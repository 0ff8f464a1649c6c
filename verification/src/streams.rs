//! Streams: the files on their way through the relay.
//!
//! A stream has two ends. Its sender takes what the source uploads, its receiver yields it to
//! whoever downloads. `S` and `R` are the types of the two ends; the relay only hands them out.

use vstd::prelude::*;
use crate::table::Table;

verus! {

/// A stream.
pub struct StreamEntry<S, R> {
    /// Where uploads go; gone once an upload has ended.
    pub sender: Option<S>,
    /// Where downloads come from; gone once somebody has it.
    pub receiver: Option<R>,
    /// The token with which the source uploads.
    pub upload_token: String,
    /// The token with which the requester downloads.
    pub download_token: String,
    /// The length of the file, where it is known.
    pub expected_size: Option<u64>,
}

/// The view of a [`StreamEntry`].
#[verifier::ext_equal]
pub struct StreamView<S, R> {
    pub sender: Option<S>,
    pub receiver: Option<R>,
    pub upload_token: Seq<char>,
    pub download_token: Seq<char>,
    pub expected_size: Option<u64>,
}

impl<S, R> View for StreamEntry<S, R> {
    type V = StreamView<S, R>;

    open spec fn view(&self) -> StreamView<S, R> {
        StreamView {
            sender: self.sender,
            receiver: self.receiver,
            upload_token: self.upload_token@,
            download_token: self.download_token@,
            expected_size: self.expected_size,
        }
    }
}

/// The streams by their identifiers.
pub type StreamMap<S, R> = Map<Seq<char>, StreamView<S, R>>;

/// The streams after the upload to `id` has ended: its sender is gone, and with it the stream, if
/// its receiver is gone already.
pub open spec fn after_upload<S, R>(streams: StreamMap<S, R>, id: Seq<char>) -> StreamMap<S, R> {
    if !streams.contains_key(id) {
        streams
    } else if streams[id].receiver is None {
        streams.remove(id)
    } else {
        streams.insert(id, StreamView { sender: None, ..streams[id] })
    }
}

/// The streams after somebody has asked for the receiver of `id` to download from it: its receiver
/// is gone, and with it the stream, if its sender is gone already.
pub open spec fn after_download<S, R>(streams: StreamMap<S, R>, id: Seq<char>) -> StreamMap<S, R> {
    if !streams.contains_key(id) {
        streams
    } else if streams[id].sender is None {
        streams.remove(id)
    } else {
        streams.insert(id, StreamView { receiver: None, ..streams[id] })
    }
}

/// The streams after the server itself has taken the receiver of `id`.
pub open spec fn after_take<S, R>(streams: StreamMap<S, R>, id: Seq<char>) -> StreamMap<S, R> {
    if !streams.contains_key(id) {
        streams
    } else {
        streams.insert(id, StreamView { receiver: None, ..streams[id] })
    }
}

/// What came of taking the receiver of a stream.
pub enum Taken<R> {
    /// There is no such stream.
    NoStream,
    /// Somebody else has the receiver.
    AlreadyUsed,
    /// Here it is.
    Receiver(R),
}

impl<R> Taken<R> {
    /// The receiver, or what the console is told.
    pub fn into_result(self) -> (outcome: Result<R, String>)
        ensures
            match (self, outcome) {
                (Taken::Receiver(r), Ok(receiver)) => r == receiver,
                (Taken::NoStream, Err(text)) => text@ == "Download stream does not exist"@,
                (Taken::AlreadyUsed, Err(text)) => text@
                    == "Download stream has already been used"@,
                _ => false,
            },
    {
        match self {
            Taken::Receiver(receiver) => Ok(receiver),
            Taken::NoStream => Err("Download stream does not exist".to_string()),
            Taken::AlreadyUsed => Err("Download stream has already been used".to_string()),
        }
    }
}

/// The streams that are open.
pub struct Streams<S, R> {
    table: Table<StreamEntry<S, R>>,
}

impl<S, R> View for Streams<S, R> {
    type V = StreamMap<S, R>;

    closed spec fn view(&self) -> StreamMap<S, R> {
        self.table@.map_values(|entry: StreamEntry<S, R>| entry@)
    }
}

impl<S, R> Streams<S, R> {
    /// Whether the table of the streams is in order.
    pub closed spec fn wf(&self) -> bool {
        self.table.wf()
    }

    /// No stream.
    pub fn new() -> (streams: Self)
        ensures
            streams.wf(),
            streams@ == Map::<Seq<char>, StreamView<S, R>>::empty(),
    {
        let streams = Streams { table: Table::new() };
        assert(streams@ == Map::<Seq<char>, StreamView<S, R>>::empty());
        streams
    }

    /// Opens a stream.
    pub fn insert(&mut self, id: String, entry: StreamEntry<S, R>)
        requires
            old(self).wf(),
        ensures
            final(self).wf(),
            final(self)@ == old(self)@.insert(id@, entry@),
    {
        let ghost before = self@;
        self.table.insert(id, entry);
        assert(self@ == before.insert(id@, entry@));
    }

    /// The stream `id`.
    pub fn get(&self, id: &str) -> (entry: Option<&StreamEntry<S, R>>)
        requires
            self.wf(),
        ensures
            match entry {
                Some(e) => self@.contains_key(id@) && e@ == self@[id@],
                None => !self@.contains_key(id@),
            },
    {
        self.table.get(id)
    }

    /// Closes a stream, whatever state it is in, and says whether it was open.
    pub fn remove(&mut self, id: &str) -> (was_open: bool)
        requires
            old(self).wf(),
        ensures
            final(self).wf(),
            was_open == old(self)@.contains_key(id@),
            final(self)@ == old(self)@.remove(id@),
    {
        let ghost before = self@;
        let removed = self.table.remove(id);
        assert(self@ == before.remove(id@));
        removed.is_some()
    }

    /// Ends the upload to a stream.
    pub fn finish_upload(&mut self, id: &str)
        requires
            old(self).wf(),
        ensures
            final(self).wf(),
            final(self)@ == after_upload(old(self)@, id@),
    {
        let ghost before = self@;
        let dead = match self.table.get_mut(id) {
            None => false,
            Some(entry) => {
                entry.sender = None;
                entry.receiver.is_none()
            },
        };
        if dead {
            self.table.remove(id);
        }
        assert(self@ == after_upload(before, id@));
    }

    /// Takes the receiver of a stream for a download.
    pub fn take_for_download(&mut self, id: &str) -> (taken: Taken<R>)
        requires
            old(self).wf(),
        ensures
            final(self).wf(),
            final(self)@ == after_download(old(self)@, id@),
            taken == taken_from(old(self)@, id@),
    {
        let ghost before = self@;
        let (receiver, dead) = match self.table.get_mut(id) {
            None => {
                assert(self@ == before);
                return Taken::NoStream;
            },
            Some(entry) => {
                let receiver = entry.receiver.take();
                (receiver, entry.sender.is_none())
            },
        };
        if dead {
            self.table.remove(id);
        }
        assert(self@ == after_download(before, id@));
        match receiver {
            None => Taken::AlreadyUsed,
            Some(r) => Taken::Receiver(r),
        }
    }

    /// Takes the receiver of a stream for the server itself. The stream stays open.
    pub fn take_receiver(&mut self, id: &str) -> (taken: Taken<R>)
        requires
            old(self).wf(),
        ensures
            final(self).wf(),
            final(self)@ == after_take(old(self)@, id@),
            taken == taken_from(old(self)@, id@),
    {
        let ghost before = self@;
        let receiver = match self.table.get_mut(id) {
            None => {
                assert(self@ == before);
                return Taken::NoStream;
            },
            Some(entry) => entry.receiver.take(),
        };
        assert(self@ == after_take(before, id@));
        match receiver {
            None => Taken::AlreadyUsed,
            Some(r) => Taken::Receiver(r),
        }
    }
}

/// What taking the receiver of `id` yields.
pub open spec fn taken_from<S, R>(streams: StreamMap<S, R>, id: Seq<char>) -> Taken<R> {
    if !streams.contains_key(id) {
        Taken::NoStream
    } else {
        match streams[id].receiver {
            None => Taken::AlreadyUsed,
            Some(r) => Taken::Receiver(r),
        }
    }
}

/// How much of an upload has come and how much may come.
pub struct UploadMeter {
    received: u64,
    limit: u64,
}

impl UploadMeter {
    /// The bytes that have been let through.
    pub closed spec fn received(&self) -> u64 {
        self.received
    }

    /// The bytes that may be let through in all.
    pub closed spec fn limit(&self) -> u64 {
        self.limit
    }

    /// Whether no more has been let through than may be.
    pub open spec fn wf(&self) -> bool {
        self.received() <= self.limit()
    }

    /// A meter for an upload of a file of length `expected_size`.
    pub fn new(expected_size: Option<u64>, max_stream_bytes: u64) -> (meter: UploadMeter)
        ensures
            meter.wf(),
            meter.received() == 0,
            meter.limit() == upload_limit(expected_size, max_stream_bytes),
    {
        let wanted: u64 = match expected_size {
            Some(size) => size,
            None => max_stream_bytes,
        };
        let limit: u64 = if wanted <= max_stream_bytes {
            wanted
        } else {
            max_stream_bytes
        };
        UploadMeter { received: 0, limit }
    }

    /// Lets a chunk of `chunk_len` bytes through, unless it is too much.
    pub fn accept(&mut self, chunk_len: u64) -> (fits: bool)
        requires
            old(self).wf(),
        ensures
            final(self).wf(),
            final(self).limit() == old(self).limit(),
            fits == (old(self).received() + chunk_len <= old(self).limit()),
            final(self).received() == if fits {
                old(self).received() + chunk_len
            } else {
                old(self).received() as int
            },
    {
        if chunk_len > self.limit - self.received {
            return false;
        }
        self.received = self.received + chunk_len;
        true
    }
}

/// How many bytes an upload of a file of length `expected_size` may have.
pub open spec fn upload_limit(expected_size: Option<u64>, max_stream_bytes: u64) -> u64 {
    match expected_size {
        Some(size) if size <= max_stream_bytes => size,
        _ => max_stream_bytes,
    }
}

} // verus!
