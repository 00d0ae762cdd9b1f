use tn_file_upload::storage::memory::MemoryStorage;
use tn_file_upload::storage::StorageError;

const HELLO_WORLD_SHA256: &str = "b94d27b9934d3e08a52e52d7da7dabfac484efe37a5380ee9088f7ace2efcde9";
const EMPTY_SHA256: &str = "e3b0c44298fc1c149afbf4c8996fb92427ae41e4649b934ca495991b7852b855";

fn uploaded(store: &mut MemoryStorage, name: &str, chunks: &[&[u8]]) -> String {
    let id = store.create(name, "text/plain", 0).unwrap();
    for chunk in chunks {
        store.append(&id, chunk).unwrap();
    }
    id
}

#[test]
fn created_upload_is_hidden_until_finalized() {
    let mut store = MemoryStorage::new(1024);
    let id = store.create("a.txt", "text/plain", 0).unwrap();
    assert_eq!(id.len(), 36);
    assert!(matches!(store.metadata(&id), Err(StorageError::NotFound(m)) if m == id));
    assert!(matches!(store.read(&id), Err(StorageError::NotFound(_))));
    store.append(&id, b"x").unwrap();
    store.finalize(&id).unwrap();
    assert_eq!(store.read(&id).unwrap(), b"x");
}

#[test]
fn finalize_reports_the_uploaded_bytes() {
    let mut store = MemoryStorage::new(1024);
    let id = uploaded(&mut store, "hello.txt", &[b"hello", b"", b" world"]);
    let m = store.finalize(&id).unwrap();
    assert_eq!(m.file_id, id);
    assert_eq!(m.file_name, "hello.txt");
    assert_eq!(m.content_type, "text/plain");
    assert_eq!(m.size_bytes, 11);
    assert_eq!(m.sha256_checksum, HELLO_WORLD_SHA256);
    assert!(m.uploaded_at.ends_with("+00:00"));
}

#[test]
fn empty_upload_has_the_checksum_of_nothing() {
    let mut store = MemoryStorage::new(1024);
    let id = uploaded(&mut store, "empty.txt", &[]);
    let m = store.finalize(&id).unwrap();
    assert_eq!(m.size_bytes, 0);
    assert_eq!(m.sha256_checksum, EMPTY_SHA256);
}

#[test]
fn metadata_reads_back_what_finalize_returned() {
    let mut store = MemoryStorage::new(1024);
    let id = uploaded(&mut store, "hello.txt", &[b"hello world"]);
    let m = store.finalize(&id).unwrap();
    let back = store.metadata(&id).unwrap();
    assert_eq!(back.file_id, m.file_id);
    assert_eq!(back.file_name, m.file_name);
    assert_eq!(back.content_type, m.content_type);
    assert_eq!(back.size_bytes, m.size_bytes);
    assert_eq!(back.sha256_checksum, m.sha256_checksum);
    assert_eq!(back.uploaded_at, m.uploaded_at);
}

#[test]
fn second_finalize_reports_the_same_file() {
    let mut store = MemoryStorage::new(1024);
    let id = uploaded(&mut store, "hello.txt", &[b"hello", b" world"]);
    let first = store.finalize(&id).unwrap();
    let second = store.finalize(&id).unwrap();
    assert_eq!(second.file_id, first.file_id);
    assert_eq!(second.file_name, first.file_name);
    assert_eq!(second.size_bytes, first.size_bytes);
    assert_eq!(second.sha256_checksum, HELLO_WORLD_SHA256);
}

#[test]
fn evicted_upload_is_finalized_from_stored_data() {
    let mut store = MemoryStorage::new(1024);
    let id = store.create("hello.txt", "text/plain", 1_000).unwrap();
    store.append(&id, b"hello world").unwrap();
    let evicted = store.evict_stale(1_000 + 30 * 60 * 1_000_000_000 + 1, 30 * 60 * 1_000_000_000);
    assert_eq!(evicted, vec![id.clone()]);
    let m = store.finalize(&id).unwrap();
    assert_eq!(m.size_bytes, 11);
    assert_eq!(m.sha256_checksum, HELLO_WORLD_SHA256);
}

#[test]
fn young_uploads_survive_eviction() {
    let mut store = MemoryStorage::new(1024);
    let id = store.create("hello.txt", "text/plain", 1_000).unwrap();
    assert!(store.evict_stale(1_000 + 30 * 60 * 1_000_000_000, 30 * 60 * 1_000_000_000).is_empty());
    store.append(&id, b"hello world").unwrap();
    assert_eq!(store.finalize(&id).unwrap().sha256_checksum, HELLO_WORLD_SHA256);
}

#[test]
fn refused_chunk_is_not_written() {
    let mut store = MemoryStorage::new(8);
    let id = uploaded(&mut store, "big.bin", &[b"12345"]);
    match store.append(&id, b"6789") {
        Err(StorageError::TooLarge { size, limit }) => assert_eq!((size, limit), (9, 8)),
        other => panic!("{other:?}"),
    }
    store.append(&id, b"678").unwrap();
    let m = store.finalize(&id).unwrap();
    assert_eq!(m.size_bytes, 8);
    assert_eq!(store.read(&id).unwrap(), b"12345678");
}

#[test]
fn unknown_ids_are_not_found() {
    let mut store = MemoryStorage::new(8);
    assert!(matches!(store.append("nope", b"x"), Err(StorageError::NotFound(m)) if m == "nope"));
    assert!(matches!(store.finalize("nope"), Err(StorageError::NotFound(m)) if m == "nope"));
    assert!(matches!(store.delete("nope"), Err(StorageError::NotFound(m)) if m == "nope"));
    assert!(matches!(store.metadata("nope"), Err(StorageError::NotFound(m)) if m == "nope"));
}

#[test]
fn invalid_names_create_nothing() {
    let mut store = MemoryStorage::new(8);
    match store.create("../secret", "text/plain", 0) {
        Err(StorageError::InvalidFileName(m)) => assert_eq!(m, "path traversal detected: ../secret"),
        other => panic!("{other:?}"),
    }
    assert!(matches!(store.create("", "text/plain", 0), Err(StorageError::InvalidFileName(_))));
}

#[test]
fn abort_removes_everything_and_can_repeat() {
    let mut store = MemoryStorage::new(1024);
    let keep = uploaded(&mut store, "keep.txt", &[b"hello world"]);
    store.finalize(&keep).unwrap();
    let gone = uploaded(&mut store, "gone.txt", &[b"partial"]);
    store.abort(&gone).unwrap();
    assert!(matches!(store.append(&gone, b"x"), Err(StorageError::NotFound(_))));
    assert!(matches!(store.finalize(&gone), Err(StorageError::NotFound(_))));
    assert!(matches!(store.metadata(&gone), Err(StorageError::NotFound(_))));
    store.abort(&gone).unwrap();
    store.abort("never-created").unwrap();
    assert_eq!(store.read(&keep).unwrap(), b"hello world");
    assert_eq!(store.metadata(&keep).unwrap().sha256_checksum, HELLO_WORLD_SHA256);
}

#[test]
fn delete_removes_the_file_once() {
    let mut store = MemoryStorage::new(1024);
    let keep = uploaded(&mut store, "keep.txt", &[b"hello world"]);
    store.finalize(&keep).unwrap();
    let id = uploaded(&mut store, "doomed.txt", &[b"bye"]);
    store.finalize(&id).unwrap();
    store.delete(&id).unwrap();
    assert!(matches!(store.metadata(&id), Err(StorageError::NotFound(_))));
    assert!(matches!(store.delete(&id), Err(StorageError::NotFound(m)) if m == id));
    assert_eq!(store.read(&keep).unwrap(), b"hello world");
}

#[test]
fn unfinished_uploads_can_be_deleted() {
    let mut store = MemoryStorage::new(1024);
    let id = uploaded(&mut store, "half.txt", &[b"half"]);
    store.delete(&id).unwrap();
    assert!(matches!(store.append(&id, b"x"), Err(StorageError::NotFound(_))));
}
