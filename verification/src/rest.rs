//! The REST side: HTTP errors, the header check, download headers, the body
//! limit, and the multipart upload as a state machine driven by its caller.
use vstd::prelude::*;
use crate::auth::AuthRejection;
use crate::storage::{FileMetadata, StorageError};
use crate::text::decimal;

verus! {

/// HTTP status codes of the REST API.
pub const OK: u16 = 200;
pub const NO_CONTENT: u16 = 204;
pub const BAD_REQUEST: u16 = 400;
pub const UNAUTHORIZED: u16 = 401;
pub const NOT_FOUND: u16 = 404;
pub const PAYLOAD_TOO_LARGE: u16 = 413;
pub const INTERNAL_SERVER_ERROR: u16 = 500;

/// An HTTP error answer: a status code and the message of its JSON body.
#[derive(Debug, Clone)]
pub struct AppError {
    pub status: u16,
    pub message: String,
}

/// The answer to a storage error. I/O failures get a fixed message, so that
/// no detail of the server leaks to clients; the others carry the error's
/// own message.
pub open spec fn storage_answer(err: StorageError) -> (u16, Seq<char>) {
    match err {
        StorageError::NotFound(_) => (NOT_FOUND, err.message_spec()),
        StorageError::TooLarge { .. } => (PAYLOAD_TOO_LARGE, err.message_spec()),
        StorageError::InvalidFileName(_) => (BAD_REQUEST, err.message_spec()),
        StorageError::Io(_) => (INTERNAL_SERVER_ERROR, "internal server error"@),
    }
}

impl AppError {
    /// A `400 Bad Request` with the given message.
    pub fn bad_request(message: String) -> (e: AppError)
        ensures
            e.status == BAD_REQUEST,
            e.message == message,
    {
        AppError { status: BAD_REQUEST, message }
    }

    /// The `401 Unauthorized` answer to a refused token.
    pub fn unauthorized(rejection: AuthRejection) -> (e: AppError)
        ensures
            e.status == UNAUTHORIZED,
            e.message@ == rejection.message_spec(),
    {
        AppError { status: UNAUTHORIZED, message: rejection.message() }
    }

    /// The answer to a storage error.
    pub fn from_storage_error(err: StorageError) -> (e: AppError)
        ensures
            (e.status, e.message@) == storage_answer(err),
    {
        match err {
            StorageError::Io(_) => AppError {
                status: INTERNAL_SERVER_ERROR,
                message: String::from_str("internal server error"),
            },
            StorageError::NotFound(_) => AppError { status: NOT_FOUND, message: err.to_string() },
            StorageError::TooLarge { .. } => AppError { status: PAYLOAD_TOO_LARGE, message: err.to_string() },
            StorageError::InvalidFileName(_) => AppError { status: BAD_REQUEST, message: err.to_string() },
        }
    }
}

/// Bytes allowed in a request body beyond the file itself, for the multipart
/// framing: 1 MiB.
pub const MULTIPART_OVERHEAD: u64 = 1048576;

/// The largest request body accepted: the file size limit plus the framing
/// allowance.
pub fn body_limit(max_file_size: u64) -> (limit: usize)
    requires
        max_file_size + MULTIPART_OVERHEAD <= usize::MAX,
    ensures
        limit == max_file_size + MULTIPART_OVERHEAD,
{
    (max_file_size + MULTIPART_OVERHEAD) as usize
}

/// The headers of a download: content type, length, and the file name as an
/// attachment.
pub fn download_headers(meta: &FileMetadata) -> (headers: Vec<(String, String)>)
    ensures
        headers@.len() == 3,
        headers@[0].0@ == "content-type"@ && headers@[0].1@ == meta.content_type@,
        headers@[1].0@ == "content-length"@ && headers@[1].1@ == decimal(meta.size_bytes as nat),
        headers@[2].0@ == "content-disposition"@ && headers@[2].1@ == "attachment; filename=\""@
            + meta.file_name@ + "\""@,
{
    let mut disposition = String::from_str("attachment; filename=\"");
    disposition.append(meta.file_name.as_str());
    disposition.append("\"");
    let mut headers: Vec<(String, String)> = Vec::new();
    headers.push((String::from_str("content-type"), meta.content_type.clone()));
    headers.push((String::from_str("content-length"), crate::text::u64_to_decimal(meta.size_bytes)));
    headers.push((String::from_str("content-disposition"), disposition));
    headers
}

/// The reply to a completed REST upload.
#[derive(Debug, Clone)]
pub struct RestUploadResponse {
    pub file_id: String,
    pub size_bytes: u64,
    pub checksum: String,
}

/// What the first part of a multipart body says of the file.
#[derive(Debug, Clone)]
pub struct FilePart {
    pub file_name: Option<String>,
    pub content_type: Option<String>,
}

/// What the driver of a REST upload observed, in answer to the last action.
#[derive(Debug)]
pub enum RestUploadEvent {
    /// The first part of the body: `Ok(None)` when there is none, `Err` with
    /// the reason when the body cannot be read.
    Part(Result<Option<FilePart>, String>),
    /// Storage answered `create`.
    Created(Result<String, StorageError>),
    /// The next chunk of the part: `Ok(None)` at its end, `Err` with the reason
    /// when the body cannot be read.
    Chunk(Result<Option<Vec<u8>>, String>),
    /// Storage answered `append`.
    Appended(Result<(), StorageError>),
    /// Storage answered `finalize`.
    Finalized(Result<FileMetadata, StorageError>),
}

/// What the driver of a REST upload is to do next.
#[derive(Debug)]
pub enum RestUploadAction {
    /// Open the first part of the body.
    ReadPart,
    /// Create the upload in storage.
    Create { file_name: String, content_type: String },
    /// Read the next chunk of the part.
    ReadChunk,
    /// Append bytes to the upload.
    Append { file_id: String, data: Vec<u8> },
    /// Finalize the upload.
    Finalize { file_id: String },
    /// Abort the upload (whatever that answers), then answer with the error.
    AbortThenFail { file_id: String, error: AppError },
    /// Answer with the error.
    Fail(AppError),
    /// Answer with the upload's ID, size and checksum.
    Respond(RestUploadResponse),
}

/// Where a REST upload stands.
#[derive(Debug, Clone)]
pub enum RestUploadPhase {
    AwaitingPart,
    AwaitingCreate,
    Reading { file_id: String },
    AwaitingAppend { file_id: String },
    AwaitingFinalize { file_id: String },
    Done,
}

/// Whether `event` answers what the upload is waiting for in `phase`.
pub open spec fn rest_upload_expects(phase: RestUploadPhase, event: RestUploadEvent) -> bool {
    match phase {
        RestUploadPhase::AwaitingPart => event is Part,
        RestUploadPhase::AwaitingCreate => event is Created,
        RestUploadPhase::Reading { .. } => event is Chunk,
        RestUploadPhase::AwaitingAppend { .. } => event is Appended,
        RestUploadPhase::AwaitingFinalize { .. } => event is Finalized,
        RestUploadPhase::Done => false,
    }
}

/// Whether `action` answers with `status` and `message`, nothing to clean up.
pub open spec fn rest_fails_with(action: RestUploadAction, status: u16, message: Seq<char>) -> bool {
    action matches RestUploadAction::Fail(e) && e.status == status && e.message@ == message
}

/// Whether `action` aborts `file_id`, then answers with `status` and `message`.
pub open spec fn rest_aborts_with(action: RestUploadAction, file_id: Seq<char>, status: u16, message: Seq<char>) -> bool {
    action matches RestUploadAction::AbortThenFail { file_id: f, error } && f@ == file_id && error.status == status
        && error.message@ == message
}

/// The multipart upload: from `phase`, on `event`, the upload moves to
/// `next` and asks for `action`. A part without a file name is stored as
/// `unnamed`, one without a content type as `application/octet-stream`.
pub open spec fn rest_upload_step(
    phase: RestUploadPhase,
    event: RestUploadEvent,
    next: RestUploadPhase,
    action: RestUploadAction,
) -> bool {
    match (phase, event) {
        (RestUploadPhase::AwaitingPart, RestUploadEvent::Part(res)) => match res {
            Err(m) => next is Done && rest_fails_with(action, BAD_REQUEST, m@),
            Ok(None) => next is Done && rest_fails_with(action, BAD_REQUEST, "no file field"@),
            Ok(Some(part)) => {
                &&& next is AwaitingCreate
                &&& action matches RestUploadAction::Create { file_name, content_type }
                &&& file_name@ == match part.file_name {
                    Some(n) => n@,
                    None => "unnamed"@,
                }
                &&& content_type@ == match part.content_type {
                    Some(c) => c@,
                    None => "application/octet-stream"@,
                }
            },
        },
        (RestUploadPhase::AwaitingCreate, RestUploadEvent::Created(res)) => match res {
            Ok(id) => {
                &&& next matches RestUploadPhase::Reading { file_id }
                &&& file_id@ == id@
                &&& action is ReadChunk
            },
            Err(e) => next is Done && rest_fails_with(action, storage_answer(e).0, storage_answer(e).1),
        },
        (RestUploadPhase::Reading { file_id }, RestUploadEvent::Chunk(res)) => match res {
            Err(m) => next is Done && rest_aborts_with(action, file_id@, BAD_REQUEST, m@),
            Ok(None) => {
                &&& next matches RestUploadPhase::AwaitingFinalize { file_id: f }
                &&& f@ == file_id@
                &&& action matches RestUploadAction::Finalize { file_id: g }
                &&& g@ == file_id@
            },
            Ok(Some(data)) => {
                &&& next matches RestUploadPhase::AwaitingAppend { file_id: f }
                &&& f@ == file_id@
                &&& action matches RestUploadAction::Append { file_id: g, data: d }
                &&& g@ == file_id@
                &&& d@ == data@
            },
        },
        (RestUploadPhase::AwaitingAppend { file_id }, RestUploadEvent::Appended(res)) => match res {
            Ok(()) => {
                &&& next matches RestUploadPhase::Reading { file_id: f }
                &&& f@ == file_id@
                &&& action is ReadChunk
            },
            Err(e) => next is Done && rest_aborts_with(action, file_id@, storage_answer(e).0, storage_answer(e).1),
        },
        (RestUploadPhase::AwaitingFinalize { file_id }, RestUploadEvent::Finalized(res)) => match res {
            Ok(meta) => {
                &&& next is Done
                &&& action matches RestUploadAction::Respond(r)
                &&& r.file_id@ == meta.file_id@
                &&& r.size_bytes == meta.size_bytes
                &&& r.checksum@ == meta.sha256_checksum@
            },
            Err(e) => next is Done && rest_aborts_with(action, file_id@, storage_answer(e).0, storage_answer(e).1),
        },
        _ => false,
    }
}

/// One multipart upload in progress.
pub struct RestUpload {
    phase: RestUploadPhase,
}

impl RestUpload {
    pub closed spec fn spec_phase(&self) -> RestUploadPhase {
        self.phase
    }

    /// An upload that waits for the first part of the body.
    pub fn new() -> (u: RestUpload)
        ensures
            u.spec_phase() is AwaitingPart,
    {
        RestUpload { phase: RestUploadPhase::AwaitingPart }
    }

    /// Where the upload stands.
    pub fn phase(&self) -> (p: &RestUploadPhase)
        ensures
            *p == self.spec_phase(),
    {
        &self.phase
    }

    /// Whether `event` answers what the upload waits for.
    pub fn expects(&self, event: &RestUploadEvent) -> (r: bool)
        ensures
            r == rest_upload_expects(self.spec_phase(), *event),
    {
        match (&self.phase, event) {
            (RestUploadPhase::AwaitingPart, RestUploadEvent::Part(_)) => true,
            (RestUploadPhase::AwaitingCreate, RestUploadEvent::Created(_)) => true,
            (RestUploadPhase::Reading { .. }, RestUploadEvent::Chunk(_)) => true,
            (RestUploadPhase::AwaitingAppend { .. }, RestUploadEvent::Appended(_)) => true,
            (RestUploadPhase::AwaitingFinalize { .. }, RestUploadEvent::Finalized(_)) => true,
            _ => false,
        }
    }

    /// Takes in what the driver observed and says what to do next.
    pub fn step(&mut self, event: RestUploadEvent) -> (action: RestUploadAction)
        requires
            rest_upload_expects(old(self).spec_phase(), event),
        ensures
            rest_upload_step(old(self).spec_phase(), event, final(self).spec_phase(), action),
    {
        let mut phase = RestUploadPhase::Done;
        std::mem::swap(&mut phase, &mut self.phase);
        match (phase, event) {
            (RestUploadPhase::AwaitingPart, RestUploadEvent::Part(res)) => match res {
                Err(m) => RestUploadAction::Fail(AppError::bad_request(m)),
                Ok(None) => RestUploadAction::Fail(AppError::bad_request(String::from_str("no file field"))),
                Ok(Some(part)) => {
                    let file_name = match part.file_name {
                        Some(n) => n,
                        None => String::from_str("unnamed"),
                    };
                    let content_type = match part.content_type {
                        Some(c) => c,
                        None => String::from_str("application/octet-stream"),
                    };
                    self.phase = RestUploadPhase::AwaitingCreate;
                    RestUploadAction::Create { file_name, content_type }
                },
            },
            (RestUploadPhase::AwaitingCreate, RestUploadEvent::Created(res)) => match res {
                Ok(id) => {
                    self.phase = RestUploadPhase::Reading { file_id: id };
                    RestUploadAction::ReadChunk
                },
                Err(e) => RestUploadAction::Fail(AppError::from_storage_error(e)),
            },
            (RestUploadPhase::Reading { file_id }, RestUploadEvent::Chunk(res)) => match res {
                Err(m) => RestUploadAction::AbortThenFail { file_id, error: AppError::bad_request(m) },
                Ok(None) => {
                    self.phase = RestUploadPhase::AwaitingFinalize { file_id: file_id.clone() };
                    RestUploadAction::Finalize { file_id }
                },
                Ok(Some(data)) => {
                    self.phase = RestUploadPhase::AwaitingAppend { file_id: file_id.clone() };
                    RestUploadAction::Append { file_id, data }
                },
            },
            (RestUploadPhase::AwaitingAppend { file_id }, RestUploadEvent::Appended(res)) => match res {
                Ok(()) => {
                    self.phase = RestUploadPhase::Reading { file_id };
                    RestUploadAction::ReadChunk
                },
                Err(e) => RestUploadAction::AbortThenFail { file_id, error: AppError::from_storage_error(e) },
            },
            (RestUploadPhase::AwaitingFinalize { file_id }, RestUploadEvent::Finalized(res)) => match res {
                Ok(meta) => RestUploadAction::Respond(
                    RestUploadResponse {
                        file_id: meta.file_id,
                        size_bytes: meta.size_bytes,
                        checksum: meta.sha256_checksum,
                    },
                ),
                Err(e) => RestUploadAction::AbortThenFail { file_id, error: AppError::from_storage_error(e) },
            },
            (p, _) => {
                self.phase = p;
                RestUploadAction::ReadPart
            },
        }
    }
}

/// Every failure after the REST upload was created aborts that upload: a body
/// that cannot be read further, a failed append and a failed finalization
/// alike, so that no partial data stays behind.
pub proof fn law_rest_failure_after_create_aborts(
    phase: RestUploadPhase,
    event: RestUploadEvent,
    next: RestUploadPhase,
    action: RestUploadAction,
)
    requires
        rest_upload_step(phase, event, next, action),
        event matches RestUploadEvent::Chunk(Err(_)) || event matches RestUploadEvent::Appended(Err(_))
            || event matches RestUploadEvent::Finalized(Err(_)),
    ensures
        action matches RestUploadAction::AbortThenFail { file_id, .. } && (match phase {
            RestUploadPhase::Reading { file_id: f } => f@ == file_id@,
            RestUploadPhase::AwaitingAppend { file_id: f } => f@ == file_id@,
            RestUploadPhase::AwaitingFinalize { file_id: f } => f@ == file_id@,
            _ => false,
        }),
{
}


/// The first part names the upload: the stored file gets the part's own file
/// name and content type, falling back to `unnamed` and
/// `application/octet-stream` only where the part carries none; and nothing
/// is created without a part.
pub proof fn law_part_names_the_upload(event: RestUploadEvent, next: RestUploadPhase, action: RestUploadAction)
    requires
        rest_upload_step(RestUploadPhase::AwaitingPart, event, next, action),
    ensures
        event matches RestUploadEvent::Part(Ok(Some(part))) ==> {
            &&& action is Create
            &&& part.file_name matches Some(n) ==> action->file_name@ == n@
            &&& part.file_name is None ==> action->file_name@ == "unnamed"@
            &&& part.content_type matches Some(c) ==> action->content_type@ == c@
            &&& part.content_type is None ==> action->content_type@ == "application/octet-stream"@
        },
        !(event matches RestUploadEvent::Part(Ok(Some(_)))) ==> !(action is Create) && next is Done,
{
}


/// A REST upload only ever touches the upload storage created: chunks are
/// appended to it unchanged and in order, it is the one finalized, and the
/// answer carries the ID, size and checksum that finalizing returned.
pub proof fn law_rest_upload_follows_storage(
    phase: RestUploadPhase,
    event: RestUploadEvent,
    next: RestUploadPhase,
    action: RestUploadAction,
)
    requires
        rest_upload_step(phase, event, next, action),
    ensures
        (match (phase, event) {
            (RestUploadPhase::AwaitingCreate, RestUploadEvent::Created(Ok(id))) => match next {
                RestUploadPhase::Reading { file_id } => file_id@ == id@,
                _ => false,
            },
            (RestUploadPhase::AwaitingFinalize { .. }, RestUploadEvent::Finalized(Ok(meta))) => match action {
                RestUploadAction::Respond(r) => r.file_id@ == meta.file_id@ && r.size_bytes == meta.size_bytes
                    && r.checksum@ == meta.sha256_checksum@,
                _ => false,
            },
            _ => true,
        }),
        (match action {
            RestUploadAction::Append { file_id, data } => match (phase, event) {
                (RestUploadPhase::Reading { file_id: f }, RestUploadEvent::Chunk(Ok(Some(d)))) => f@ == file_id@
                    && d@ == data@,
                _ => false,
            },
            RestUploadAction::Finalize { file_id } => match (phase, event) {
                (RestUploadPhase::Reading { file_id: f }, RestUploadEvent::Chunk(Ok(None))) => f@ == file_id@,
                _ => false,
            },
            _ => true,
        }),
{
}

} // verus!
