use tn_file_upload::service::{
    status_from_storage_error, GrpcCode, GrpcStatus, GrpcUpload, UploadAction, UploadEvent, UploadMessage,
    UploadResponse,
};
use tn_file_upload::driver::upload_to_memory;
use tn_file_upload::storage::memory::MemoryStorage;
use tn_file_upload::storage::StorageError;

/// The in-memory store, with what the upload loop did to it.
struct Harness {
    store: MemoryStorage,
    created: Vec<String>,
    aborted: Vec<String>,
    clock_ns: u64,
}

impl Harness {
    fn new(max_file_size: u64) -> Self {
        Harness { store: MemoryStorage::new(max_file_size), created: Vec::new(), aborted: Vec::new(), clock_ns: 0 }
    }

    /// Whether the store still holds anything of `id`.
    fn holds(&mut self, id: &str) -> bool {
        !matches!(self.store.append(id, b""), Err(StorageError::NotFound(_)))
    }

    /// Whether nothing of any upload the loop created is left.
    fn holds_nothing(&mut self) -> bool {
        let ids = self.created.clone();
        ids.iter().all(|id| !self.holds(id))
    }
}

fn handle_upload(h: &mut Harness, items: Vec<Result<UploadMessage, String>>) -> Result<UploadResponse, GrpcStatus> {
    let mut stream = items.into_iter();
    let mut upload = GrpcUpload::new();
    let mut action = UploadAction::ReadNext;
    loop {
        let event = match action {
            UploadAction::ReadNext => match stream.next() {
                Some(Ok(msg)) => UploadEvent::Received(msg),
                Some(Err(e)) => UploadEvent::StreamFailed(e),
                None => UploadEvent::StreamEnded,
            },
            UploadAction::Create { file_name, content_type } => {
                h.clock_ns += 1;
                let r = h.store.create(&file_name, &content_type, h.clock_ns);
                if let Ok(id) = &r {
                    h.created.push(id.clone());
                }
                UploadEvent::Created(r)
            }
            UploadAction::Append { file_id, data } => UploadEvent::Appended(h.store.append(&file_id, &data)),
            UploadAction::Finalize { file_id } => UploadEvent::Finalized(h.store.finalize(&file_id)),
            UploadAction::AbortThenFail { file_id, status } => {
                h.store.abort(&file_id).unwrap();
                h.aborted.push(file_id);
                return Err(status);
            }
            UploadAction::Fail(status) => return Err(status),
            UploadAction::Respond(resp) => return Ok(resp),
        };
        assert!(upload.expects(&event));
        action = upload.step(event);
    }
}

fn metadata(name: &str, content_type: &str) -> UploadMessage {
    UploadMessage::Metadata { file_name: name.to_string(), content_type: content_type.to_string() }
}

#[test]
fn upload_rejects_empty_stream() {
    let mut h = Harness::new(1024 * 1024);
    let err = upload_to_memory(&mut h.store, vec![], 0).unwrap_err();
    assert_eq!(err.code, GrpcCode::InvalidArgument);
}

#[test]
fn upload_rejects_chunk_as_first_message() {
    let mut h = Harness::new(1024 * 1024);
    let err = upload_to_memory(&mut h.store, vec![Ok(UploadMessage::Chunk(b"data".to_vec()))], 0).unwrap_err();
    assert_eq!(err.code, GrpcCode::InvalidArgument);
}

#[test]
fn upload_and_download_round_trip() {
    let mut h = Harness::new(1024 * 1024);
    let messages = vec![Ok(metadata("test.txt", "text/plain")), Ok(UploadMessage::Chunk(b"hello world".to_vec()))];
    let resp = upload_to_memory(&mut h.store, messages, 0).unwrap();
    assert_eq!(resp.size_bytes, 11);
    assert!(!resp.sha256_checksum.is_empty());
    let downloaded = h.store.read(&resp.file_id).unwrap();
    assert_eq!(downloaded, b"hello world");
}

#[test]
fn get_metadata_not_found() {
    let h = Harness::new(1024 * 1024);
    let err = status_from_storage_error(h.store.metadata("nonexistent").unwrap_err());
    assert_eq!(err.code, GrpcCode::NotFound);
}

#[test]
fn delete_not_found() {
    let mut h = Harness::new(1024 * 1024);
    let err = status_from_storage_error(h.store.delete("nonexistent").unwrap_err());
    assert_eq!(err.code, GrpcCode::NotFound);
}

#[test]
fn round_trip_checksum_is_sha256_of_the_data() {
    let mut h = Harness::new(1024 * 1024);
    let messages = vec![
        Ok(metadata("test.txt", "text/plain")),
        Ok(UploadMessage::Chunk(b"hello".to_vec())),
        Ok(UploadMessage::Empty),
        Ok(UploadMessage::Chunk(b" world".to_vec())),
    ];
    let resp = upload_to_memory(&mut h.store, messages, 0).unwrap();
    assert_eq!(resp.sha256_checksum, "b94d27b9934d3e08a52e52d7da7dabfac484efe37a5380ee9088f7ace2efcde9");
    let meta = h.store.metadata(&resp.file_id).unwrap();
    assert_eq!(meta.file_name, "test.txt");
    assert_eq!(meta.content_type, "text/plain");
    assert_eq!(meta.size_bytes, 11);
}

#[test]
fn second_metadata_message_aborts() {
    let mut h = Harness::new(1024 * 1024);
    let messages = vec![Ok(metadata("a.txt", "text/plain")), Ok(metadata("b.txt", "text/plain"))];
    let err = handle_upload(&mut h, messages).unwrap_err();
    assert_eq!(err.code, GrpcCode::InvalidArgument);
    assert_eq!(err.message, "metadata must only be sent as first message");
    assert_eq!(h.aborted.len(), 1);
    assert!(h.holds_nothing());
}

#[test]
fn oversized_upload_is_aborted() {
    let mut h = Harness::new(8);
    let messages = vec![
        Ok(metadata("big.bin", "application/octet-stream")),
        Ok(UploadMessage::Chunk(b"12345".to_vec())),
        Ok(UploadMessage::Chunk(b"6789".to_vec())),
    ];
    let err = handle_upload(&mut h, messages).unwrap_err();
    assert_eq!(err.code, GrpcCode::ResourceExhausted);
    assert_eq!(err.message, "file size 9 exceeds limit 8");
    assert_eq!(h.aborted.len(), 1);
    assert!(h.holds_nothing());
}

#[test]
fn stream_failure_after_create_aborts() {
    let mut h = Harness::new(1024);
    let messages = vec![Ok(metadata("a.txt", "text/plain")), Err("connection reset".to_string())];
    let err = handle_upload(&mut h, messages).unwrap_err();
    assert_eq!(err.code, GrpcCode::Internal);
    assert_eq!(err.message, "connection reset");
    assert_eq!(h.aborted.len(), 1);
    assert!(h.holds_nothing());
}

#[test]
fn stream_failure_before_create_only_fails() {
    let mut h = Harness::new(1024);
    let err = handle_upload(&mut h, vec![Err("broken".to_string())]).unwrap_err();
    assert_eq!(err.code, GrpcCode::Internal);
    assert!(h.aborted.is_empty() && h.created.is_empty());
}

#[test]
fn invalid_file_name_creates_nothing() {
    let mut h = Harness::new(1024);
    let err = handle_upload(&mut h, vec![Ok(metadata("../etc/passwd", "text/plain"))]).unwrap_err();
    assert_eq!(err.code, GrpcCode::InvalidArgument);
    assert_eq!(err.message, "path traversal detected: ../etc/passwd");
    assert!(h.created.is_empty() && h.aborted.is_empty());
}

#[test]
fn finalize_failure_is_reported_without_abort() {
    let mut upload = GrpcUpload::new();
    upload.step(UploadEvent::Received(metadata("a", "b")));
    upload.step(UploadEvent::Created(Ok("id".to_string())));
    assert!(matches!(upload.step(UploadEvent::StreamEnded), UploadAction::Finalize { file_id } if file_id == "id"));
    match upload.step(UploadEvent::Finalized(Err(StorageError::Io(std::io::Error::other("disk"))))) {
        UploadAction::Fail(status) => {
            assert_eq!(status.code, GrpcCode::Internal);
            assert_eq!(status.message, "internal storage error");
        }
        other => panic!("{other:?}"),
    }
}

#[test]
fn storage_errors_map_to_statuses() {
    let s = status_from_storage_error(StorageError::NotFound("abc".into()));
    assert_eq!((s.code, s.message.as_str()), (GrpcCode::NotFound, "abc"));
    let s = status_from_storage_error(StorageError::TooLarge { size: 20, limit: 10 });
    assert_eq!((s.code, s.message.as_str()), (GrpcCode::ResourceExhausted, "file size 20 exceeds limit 10"));
    let s = status_from_storage_error(StorageError::InvalidFileName("empty file name".into()));
    assert_eq!((s.code, s.message.as_str()), (GrpcCode::InvalidArgument, "empty file name"));
    let s = status_from_storage_error(StorageError::Io(std::io::Error::other("secret path /srv")));
    assert_eq!((s.code, s.message.as_str()), (GrpcCode::Internal, "internal storage error"));
}

#[test]
fn full_upload_download_delete_cycle() {
    let mut h = Harness::new(1024 * 1024);
    let messages = vec![
        Ok(metadata("integration.txt", "text/plain")),
        Ok(UploadMessage::Chunk(b"integration test data".to_vec())),
    ];
    let resp = upload_to_memory(&mut h.store, messages, 0).unwrap();
    assert_eq!(resp.size_bytes, 21);
    assert!(!resp.file_id.is_empty());

    let meta = h.store.metadata(&resp.file_id).unwrap();
    assert_eq!(meta.file_name, "integration.txt");
    assert_eq!(meta.size_bytes, 21);

    let downloaded = h.store.read(&resp.file_id).unwrap();
    assert_eq!(downloaded, b"integration test data");

    h.store.delete(&resp.file_id).unwrap();

    let err = status_from_storage_error(h.store.metadata(&resp.file_id).unwrap_err());
    assert_eq!(err.code, GrpcCode::NotFound);
}

#[test]
fn driver_refuses_what_exceeds_the_limit() {
    let mut store = MemoryStorage::new(8);
    let messages = vec![
        Ok(metadata("big.bin", "application/octet-stream")),
        Ok(UploadMessage::Chunk(b"12345".to_vec())),
        Ok(UploadMessage::Chunk(b"6789".to_vec())),
    ];
    let err = upload_to_memory(&mut store, messages, 0).unwrap_err();
    assert_eq!(err.code, GrpcCode::ResourceExhausted);
    assert_eq!(err.message, "file size 9 exceeds limit 8");
    let exact = vec![Ok(metadata("fits.bin", "application/octet-stream")), Ok(UploadMessage::Chunk(b"12345678".to_vec()))];
    assert_eq!(upload_to_memory(&mut store, exact, 1).unwrap().size_bytes, 8);
}

#[test]
fn driver_leaves_other_files_alone() {
    let mut store = MemoryStorage::new(1024);
    let first = vec![Ok(metadata("a.txt", "text/plain")), Ok(UploadMessage::Chunk(b"hello world".to_vec()))];
    let a = upload_to_memory(&mut store, first, 0).unwrap();
    let failing = vec![Ok(metadata("b.txt", "text/plain")), Ok(UploadMessage::Chunk(b"x".to_vec())), Err("reset".to_string())];
    let err = upload_to_memory(&mut store, failing, 1).unwrap_err();
    assert_eq!((err.code, err.message.as_str()), (GrpcCode::Internal, "reset"));
    assert_eq!(store.read(&a.file_id).unwrap(), b"hello world");
    assert_eq!(store.metadata(&a.file_id).unwrap().sha256_checksum, a.sha256_checksum);
}

#[test]
fn driver_refusal_statuses() {
    let mut store = MemoryStorage::new(1024);
    let cases: Vec<(Vec<Result<UploadMessage, String>>, GrpcCode, &str)> = vec![
        (vec![], GrpcCode::InvalidArgument, "empty upload stream"),
        (vec![Err("gone".to_string())], GrpcCode::Internal, "gone"),
        (vec![Ok(UploadMessage::Empty)], GrpcCode::InvalidArgument, "first message must be metadata"),
        (vec![Ok(metadata("", "text/plain"))], GrpcCode::InvalidArgument, "empty file name"),
        (
            vec![Ok(metadata("a.txt", "text/plain")), Ok(UploadMessage::Empty), Ok(metadata("b.txt", "text/plain"))],
            GrpcCode::InvalidArgument,
            "metadata must only be sent as first message",
        ),
    ];
    for (messages, code, message) in cases {
        let err = upload_to_memory(&mut store, messages, 0).unwrap_err();
        assert_eq!((err.code, err.message.as_str()), (code, message));
    }
}

#[test]
fn driver_checksum_has_sixty_four_digits() {
    let mut store = MemoryStorage::new(1024);
    let resp = upload_to_memory(&mut store, vec![Ok(metadata("e.txt", "text/plain"))], 0).unwrap();
    assert_eq!(resp.size_bytes, 0);
    assert_eq!(resp.sha256_checksum, "e3b0c44298fc1c149afbf4c8996fb92427ae41e4649b934ca495991b7852b855");
}
