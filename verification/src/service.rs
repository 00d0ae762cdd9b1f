//! The gRPC side: how storage errors become statuses, and the client-streaming
//! upload protocol as a state machine driven by its caller.
use vstd::prelude::*;
use crate::storage::{FileMetadata, StorageError};
use crate::text::decimal;

verus! {

/// The gRPC status codes this service answers with.
#[derive(Clone, Copy, Debug, PartialEq, Eq, Structural)]
pub enum GrpcCode {
    InvalidArgument,
    NotFound,
    ResourceExhausted,
    Internal,
}

/// A gRPC error status: a code and a message.
#[derive(Debug, Clone)]
pub struct GrpcStatus {
    pub code: GrpcCode,
    pub message: String,
}

/// The status a storage error is answered with. I/O failures are reported
/// with a fixed message, so that no detail of the server leaks to clients.
pub open spec fn storage_status(err: StorageError) -> (GrpcCode, Seq<char>) {
    match err {
        StorageError::NotFound(id) => (GrpcCode::NotFound, id@),
        StorageError::TooLarge { size, limit } => (
            GrpcCode::ResourceExhausted,
            "file size "@ + decimal(size as nat) + " exceeds limit "@ + decimal(limit as nat),
        ),
        StorageError::InvalidFileName(reason) => (GrpcCode::InvalidArgument, reason@),
        StorageError::Io(_) => (GrpcCode::Internal, "internal storage error"@),
    }
}

/// Maps a storage error to the status sent to the client.
pub fn status_from_storage_error(err: StorageError) -> (s: GrpcStatus)
    ensures
        (s.code, s.message@) == storage_status(err),
{
    match err {
        StorageError::NotFound(id) => GrpcStatus { code: GrpcCode::NotFound, message: id },
        StorageError::TooLarge { size, limit } => {
            let mut m = String::from_str("file size ");
            crate::text::push_decimal(&mut m, size);
            m.append(" exceeds limit ");
            crate::text::push_decimal(&mut m, limit);
            GrpcStatus { code: GrpcCode::ResourceExhausted, message: m }
        },
        StorageError::InvalidFileName(reason) => GrpcStatus { code: GrpcCode::InvalidArgument, message: reason },
        StorageError::Io(_) => GrpcStatus {
            code: GrpcCode::Internal,
            message: String::from_str("internal storage error"),
        },
    }
}

/// One message of the upload stream.
#[derive(Debug, Clone)]
pub enum UploadMessage {
    /// The file's name and content type; must come first, and only first.
    Metadata { file_name: String, content_type: String },
    /// The next bytes of the file.
    Chunk(Vec<u8>),
    /// A message that carries neither.
    Empty,
}

/// The reply to a completed upload.
#[derive(Debug, Clone)]
pub struct UploadResponse {
    pub file_id: String,
    pub size_bytes: u64,
    pub sha256_checksum: String,
}

/// What the driver of an upload observed, in answer to the last action.
#[derive(Debug)]
pub enum UploadEvent {
    /// The stream delivered a message.
    Received(UploadMessage),
    /// The stream failed; the text describes the failure.
    StreamFailed(String),
    /// The stream ended.
    StreamEnded,
    /// Storage answered `create`.
    Created(Result<String, StorageError>),
    /// Storage answered `append`.
    Appended(Result<(), StorageError>),
    /// Storage answered `finalize`.
    Finalized(Result<FileMetadata, StorageError>),
}

/// What the driver is to do next.
#[derive(Debug)]
pub enum UploadAction {
    /// Read the next message of the stream.
    ReadNext,
    /// Create the upload in storage.
    Create { file_name: String, content_type: String },
    /// Append bytes to the upload.
    Append { file_id: String, data: Vec<u8> },
    /// Finalize the upload.
    Finalize { file_id: String },
    /// Abort the upload (whatever that answers), then fail with the status.
    AbortThenFail { file_id: String, status: GrpcStatus },
    /// Fail with the status; nothing to clean up.
    Fail(GrpcStatus),
    /// Answer the client.
    Respond(UploadResponse),
}

/// Where an upload stands.
#[derive(Debug, Clone)]
pub enum UploadPhase {
    /// Waiting for the first message of the stream.
    AwaitingFirst,
    /// Waiting for storage to create the upload.
    AwaitingCreate,
    /// Waiting for the next message; `file_id` is open in storage.
    Streaming { file_id: String },
    /// Waiting for storage to append a chunk.
    AwaitingAppend { file_id: String },
    /// Waiting for storage to finalize.
    AwaitingFinalize { file_id: String },
    /// The upload has been answered.
    Done,
}

/// Whether `event` answers what the upload is waiting for in `phase`.
pub open spec fn upload_expects(phase: UploadPhase, event: UploadEvent) -> bool {
    match phase {
        UploadPhase::AwaitingFirst | UploadPhase::Streaming { .. } => event is Received || event is StreamFailed
            || event is StreamEnded,
        UploadPhase::AwaitingCreate => event is Created,
        UploadPhase::AwaitingAppend { .. } => event is Appended,
        UploadPhase::AwaitingFinalize { .. } => event is Finalized,
        UploadPhase::Done => false,
    }
}

/// Whether `action` fails with `code` and the message `message`, nothing to clean up.
pub open spec fn fails_with(action: UploadAction, code: GrpcCode, message: Seq<char>) -> bool {
    action matches UploadAction::Fail(s) && s.code == code && s.message@ == message
}

/// Whether `action` aborts `file_id`, then fails with `code` and `message`.
pub open spec fn aborts_with(action: UploadAction, file_id: Seq<char>, code: GrpcCode, message: Seq<char>) -> bool {
    action matches UploadAction::AbortThenFail { file_id: f, status } && f@ == file_id && status.code == code
        && status.message@ == message
}

/// The upload protocol: from `phase`, on `event`, the upload moves to `next`
/// and asks for `action`.
pub open spec fn upload_step(phase: UploadPhase, event: UploadEvent, next: UploadPhase, action: UploadAction) -> bool {
    match (phase, event) {
        (UploadPhase::AwaitingFirst, UploadEvent::StreamEnded) => next is Done && fails_with(
            action,
            GrpcCode::InvalidArgument,
            "empty upload stream"@,
        ),
        (UploadPhase::AwaitingFirst, UploadEvent::StreamFailed(m)) => next is Done && fails_with(
            action,
            GrpcCode::Internal,
            m@,
        ),
        (UploadPhase::AwaitingFirst, UploadEvent::Received(msg)) => match msg {
            UploadMessage::Metadata { file_name, content_type } => {
                &&& next is AwaitingCreate
                &&& action matches UploadAction::Create { file_name: n, content_type: c }
                &&& n@ == file_name@
                &&& c@ == content_type@
            },
            _ => next is Done && fails_with(action, GrpcCode::InvalidArgument, "first message must be metadata"@),
        },
        (UploadPhase::AwaitingCreate, UploadEvent::Created(res)) => match res {
            Ok(id) => next matches UploadPhase::Streaming { file_id } && file_id@ == id@ && action is ReadNext,
            Err(e) => next is Done && fails_with(action, storage_status(e).0, storage_status(e).1),
        },
        (UploadPhase::Streaming { file_id }, UploadEvent::StreamEnded) => {
            &&& next matches UploadPhase::AwaitingFinalize { file_id: f }
            &&& f@ == file_id@
            &&& action matches UploadAction::Finalize { file_id: g }
            &&& g@ == file_id@
        },
        (UploadPhase::Streaming { file_id }, UploadEvent::StreamFailed(m)) => next is Done && aborts_with(
            action,
            file_id@,
            GrpcCode::Internal,
            m@,
        ),
        (UploadPhase::Streaming { file_id }, UploadEvent::Received(msg)) => match msg {
            UploadMessage::Chunk(data) => {
                &&& next matches UploadPhase::AwaitingAppend { file_id: f }
                &&& f@ == file_id@
                &&& action matches UploadAction::Append { file_id: g, data: d }
                &&& g@ == file_id@
                &&& d@ == data@
            },
            UploadMessage::Metadata { .. } => next is Done && aborts_with(
                action,
                file_id@,
                GrpcCode::InvalidArgument,
                "metadata must only be sent as first message"@,
            ),
            UploadMessage::Empty => next matches UploadPhase::Streaming { file_id: f } && f@ == file_id@
                && action is ReadNext,
        },
        (UploadPhase::AwaitingAppend { file_id }, UploadEvent::Appended(res)) => match res {
            Ok(()) => next matches UploadPhase::Streaming { file_id: f } && f@ == file_id@ && action is ReadNext,
            Err(e) => next is Done && aborts_with(action, file_id@, storage_status(e).0, storage_status(e).1),
        },
        (UploadPhase::AwaitingFinalize { file_id }, UploadEvent::Finalized(res)) => match res {
            Ok(meta) => {
                &&& next is Done
                &&& action matches UploadAction::Respond(r)
                &&& r.file_id@ == meta.file_id@
                &&& r.size_bytes == meta.size_bytes
                &&& r.sha256_checksum@ == meta.sha256_checksum@
            },
            Err(e) => next is Done && fails_with(action, storage_status(e).0, storage_status(e).1),
        },
        _ => false,
    }
}

/// One client-streaming upload in progress.
pub struct GrpcUpload {
    phase: UploadPhase,
}

impl GrpcUpload {
    pub closed spec fn spec_phase(&self) -> UploadPhase {
        self.phase
    }

    /// An upload that waits for its first message.
    pub fn new() -> (u: GrpcUpload)
        ensures
            u.spec_phase() is AwaitingFirst,
    {
        GrpcUpload { phase: UploadPhase::AwaitingFirst }
    }

    /// Where the upload stands.
    pub fn phase(&self) -> (p: &UploadPhase)
        ensures
            *p == self.spec_phase(),
    {
        &self.phase
    }

    /// Whether `event` answers what the upload waits for.
    pub fn expects(&self, event: &UploadEvent) -> (r: bool)
        ensures
            r == upload_expects(self.spec_phase(), *event),
    {
        match (&self.phase, event) {
            (UploadPhase::AwaitingFirst, UploadEvent::Received(_)) => true,
            (UploadPhase::AwaitingFirst, UploadEvent::StreamFailed(_)) => true,
            (UploadPhase::AwaitingFirst, UploadEvent::StreamEnded) => true,
            (UploadPhase::Streaming { .. }, UploadEvent::Received(_)) => true,
            (UploadPhase::Streaming { .. }, UploadEvent::StreamFailed(_)) => true,
            (UploadPhase::Streaming { .. }, UploadEvent::StreamEnded) => true,
            (UploadPhase::AwaitingCreate, UploadEvent::Created(_)) => true,
            (UploadPhase::AwaitingAppend { .. }, UploadEvent::Appended(_)) => true,
            (UploadPhase::AwaitingFinalize { .. }, UploadEvent::Finalized(_)) => true,
            _ => false,
        }
    }

    /// Takes in what the driver observed and says what to do next.
    pub fn step(&mut self, event: UploadEvent) -> (action: UploadAction)
        requires
            upload_expects(old(self).spec_phase(), event),
        ensures
            upload_step(old(self).spec_phase(), event, final(self).spec_phase(), action),
    {
        let mut phase = UploadPhase::Done;
        std::mem::swap(&mut phase, &mut self.phase);
        match (phase, event) {
            (UploadPhase::AwaitingFirst, UploadEvent::StreamEnded) => UploadAction::Fail(
                GrpcStatus { code: GrpcCode::InvalidArgument, message: String::from_str("empty upload stream") },
            ),
            (UploadPhase::AwaitingFirst, UploadEvent::StreamFailed(m)) => UploadAction::Fail(
                GrpcStatus { code: GrpcCode::Internal, message: m },
            ),
            (UploadPhase::AwaitingFirst, UploadEvent::Received(msg)) => match msg {
                UploadMessage::Metadata { file_name, content_type } => {
                    self.phase = UploadPhase::AwaitingCreate;
                    UploadAction::Create { file_name, content_type }
                },
                _ => UploadAction::Fail(
                    GrpcStatus {
                        code: GrpcCode::InvalidArgument,
                        message: String::from_str("first message must be metadata"),
                    },
                ),
            },
            (UploadPhase::AwaitingCreate, UploadEvent::Created(res)) => match res {
                Ok(id) => {
                    self.phase = UploadPhase::Streaming { file_id: id };
                    UploadAction::ReadNext
                },
                Err(e) => UploadAction::Fail(status_from_storage_error(e)),
            },
            (UploadPhase::Streaming { file_id }, UploadEvent::StreamEnded) => {
                self.phase = UploadPhase::AwaitingFinalize { file_id: file_id.clone() };
                UploadAction::Finalize { file_id }
            },
            (UploadPhase::Streaming { file_id }, UploadEvent::StreamFailed(m)) => UploadAction::AbortThenFail {
                file_id,
                status: GrpcStatus { code: GrpcCode::Internal, message: m },
            },
            (UploadPhase::Streaming { file_id }, UploadEvent::Received(msg)) => match msg {
                UploadMessage::Chunk(data) => {
                    self.phase = UploadPhase::AwaitingAppend { file_id: file_id.clone() };
                    UploadAction::Append { file_id, data }
                },
                UploadMessage::Metadata { .. } => UploadAction::AbortThenFail {
                    file_id,
                    status: GrpcStatus {
                        code: GrpcCode::InvalidArgument,
                        message: String::from_str("metadata must only be sent as first message"),
                    },
                },
                UploadMessage::Empty => {
                    self.phase = UploadPhase::Streaming { file_id };
                    UploadAction::ReadNext
                },
            },
            (UploadPhase::AwaitingAppend { file_id }, UploadEvent::Appended(res)) => match res {
                Ok(()) => {
                    self.phase = UploadPhase::Streaming { file_id };
                    UploadAction::ReadNext
                },
                Err(e) => UploadAction::AbortThenFail { file_id, status: status_from_storage_error(e) },
            },
            (UploadPhase::AwaitingFinalize { .. }, UploadEvent::Finalized(res)) => match res {
                Ok(meta) => UploadAction::Respond(
                    UploadResponse {
                        file_id: meta.file_id,
                        size_bytes: meta.size_bytes,
                        sha256_checksum: meta.sha256_checksum,
                    },
                ),
                Err(e) => UploadAction::Fail(status_from_storage_error(e)),
            },
            (p, _) => {
                self.phase = p;
                UploadAction::ReadNext
            },
        }
    }
}

/// The first message decides whether anything is created: only a metadata
/// message opens an upload in storage; any other first message, an empty
/// stream or a failed one is refused without touching storage.
pub proof fn law_first_message_must_be_metadata(
    event: UploadEvent,
    next: UploadPhase,
    action: UploadAction,
)
    requires
        upload_step(UploadPhase::AwaitingFirst, event, next, action),
    ensures
        (action is Create) <==> (event matches UploadEvent::Received(UploadMessage::Metadata { .. })),
        !(action is Create) ==> action is Fail && next is Done,
{
}

/// Once storage has created the upload, every failure while chunks stream in
/// aborts that very upload, so that no partial data stays behind.
pub proof fn law_failure_after_create_aborts(
    phase: UploadPhase,
    event: UploadEvent,
    next: UploadPhase,
    action: UploadAction,
)
    requires
        upload_step(phase, event, next, action),
        phase is Streaming || phase is AwaitingAppend,
        action is Fail || action is AbortThenFail,
    ensures
        action matches UploadAction::AbortThenFail { file_id, .. } && (match phase {
            UploadPhase::Streaming { file_id: f } => f@ == file_id@,
            UploadPhase::AwaitingAppend { file_id: f } => f@ == file_id@,
            _ => false,
        }),
{
}

/// Storage is only ever asked about the upload it created: every append,
/// finalize and abort names the ID that `create` returned, and chunks are
/// passed on unchanged, in the order they arrive.
pub proof fn law_operations_target_created_upload(
    phase: UploadPhase,
    event: UploadEvent,
    next: UploadPhase,
    action: UploadAction,
)
    requires
        upload_step(phase, event, next, action),
    ensures
        (match (phase, event) {
            (UploadPhase::AwaitingCreate, UploadEvent::Created(Ok(id))) => match next {
                UploadPhase::Streaming { file_id } => file_id@ == id@,
                _ => false,
            },
            _ => true,
        }),
        (match action {
            UploadAction::Append { file_id, data } => match (phase, event) {
                (UploadPhase::Streaming { file_id: f }, UploadEvent::Received(UploadMessage::Chunk(d))) => f@
                    == file_id@ && d@ == data@,
                _ => false,
            },
            UploadAction::Finalize { file_id } => match (phase, event) {
                (UploadPhase::Streaming { file_id: f }, UploadEvent::StreamEnded) => f@ == file_id@,
                _ => false,
            },
            _ => true,
        }),
        action matches UploadAction::AbortThenFail { file_id, .. } ==> (match phase {
            UploadPhase::Streaming { file_id: f } => f@ == file_id@,
            UploadPhase::AwaitingAppend { file_id: f } => f@ == file_id@,
            _ => false,
        }),
{
}


/// A completed upload is answered with what storage finalized: its ID, size
/// and checksum.
pub proof fn law_response_is_what_storage_finalized(
    phase: UploadPhase,
    meta: FileMetadata,
    next: UploadPhase,
    action: UploadAction,
)
    requires
        upload_step(phase, UploadEvent::Finalized(Ok(meta)), next, action),
    ensures
        action matches UploadAction::Respond(r) && r.file_id@ == meta.file_id@ && r.size_bytes == meta.size_bytes
            && r.sha256_checksum@ == meta.sha256_checksum@,
{
}

} // verus!
