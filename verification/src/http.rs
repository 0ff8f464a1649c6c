//! What the server's HTTP side answers, and the events of an upload.

use vstd::prelude::*;

verus! {

/// The status codes that the server answers with.
#[derive(Clone, Copy, Debug, PartialEq, Eq, Structural)]
pub enum Status {
    Success,
    BadRequest,
    Unauthorized,
    Forbidden,
    NotFound,
    Conflict,
    PayloadTooLarge,
}

impl Status {
    /// The number of a status code.
    pub open spec fn number(self) -> u16 {
        match self {
            Status::Success => 200,
            Status::BadRequest => 400,
            Status::Unauthorized => 401,
            Status::Forbidden => 403,
            Status::NotFound => 404,
            Status::Conflict => 409,
            Status::PayloadTooLarge => 413,
        }
    }

    /// The number of a status code.
    pub fn code(self) -> (code: u16)
        ensures
            code == self.number(),
    {
        match self {
            Status::Success => 200,
            Status::BadRequest => 400,
            Status::Unauthorized => 401,
            Status::Forbidden => 403,
            Status::NotFound => 404,
            Status::Conflict => 409,
            Status::PayloadTooLarge => 413,
        }
    }
}

/// The answer to a request that is refused.
pub struct Refusal {
    pub status: Status,
    /// The text that goes with the status; often none.
    pub body: String,
}

/// The view of a [`Refusal`].
#[verifier::ext_equal]
pub struct RefusalView {
    pub status: Status,
    pub body: Seq<char>,
}

impl View for Refusal {
    type V = RefusalView;

    open spec fn view(&self) -> RefusalView {
        RefusalView { status: self.status, body: self.body@ }
    }
}

impl Refusal {
    /// A refusal with a text.
    pub fn new(status: Status, body: &str) -> (refusal: Refusal)
        ensures
            refusal@ == (RefusalView { status, body: body@ }),
    {
        Refusal { status, body: body.to_string() }
    }
}

/// What happens next in an upload.
#[derive(Clone, Copy, Debug, PartialEq, Eq, Structural)]
pub enum UploadEvent {
    /// A chunk of so many bytes has come.
    Chunk(u64),
    /// Something has come that is no data.
    NoData,
    /// Nobody takes what is sent any more.
    ReceiverGone,
    /// The body of the request could not be read.
    BodyError,
    /// The body of the request has ended.
    End,
}

/// What is to be done next in an upload.
#[derive(Clone, Copy, Debug, PartialEq, Eq, Structural)]
pub enum UploadStep {
    /// The chunk is to be sent on.
    Forward,
    /// The next event is to be awaited.
    Wait,
    /// The upload is over and answered so.
    Finish(Status),
}

/// What is done about an event of an upload of which `received` bytes have come and `limit` may
/// come.
pub open spec fn upload_step(received: u64, limit: u64, event: UploadEvent) -> UploadStep {
    match event {
        UploadEvent::Chunk(len) => if received + len <= limit {
            UploadStep::Forward
        } else {
            UploadStep::Finish(Status::PayloadTooLarge)
        },
        UploadEvent::NoData => UploadStep::Wait,
        UploadEvent::ReceiverGone | UploadEvent::End => UploadStep::Finish(Status::Success),
        UploadEvent::BodyError => UploadStep::Finish(Status::BadRequest),
    }
}

} // verus!
