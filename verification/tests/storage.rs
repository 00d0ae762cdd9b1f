use tn_file_upload::digest::StreamingChecksum;
use tn_file_upload::storage::local::{
    list_finalized, metadata_from_read, record_from_read, LocalStorage, MetaRead, MetaRecord,
};
use tn_file_upload::storage::uploads::UploadRegistry;
use tn_file_upload::storage::StorageError;

fn invalid_name_message(name: &str) -> String {
    match LocalStorage::validate_file_name(name) {
        Err(StorageError::InvalidFileName(m)) => m,
        other => panic!("expected a refusal of {name:?}, got {other:?}"),
    }
}

#[test]
fn ordinary_names_are_accepted() {
    for name in ["test.txt", "a/b.txt", "a/./b", "a//b", "dir/", "..a", "a..", ".hidden", "a/.../b"] {
        assert!(LocalStorage::validate_file_name(name).is_ok(), "{name}");
    }
}

#[test]
fn traversal_names_are_refused() {
    for name in ["..", "../x", "a/../b", "a/..", "/etc/passwd", "/", ".", "./a"] {
        assert_eq!(invalid_name_message(name), format!("path traversal detected: {name}"));
    }
}

#[test]
fn empty_name_is_refused() {
    assert_eq!(invalid_name_message(""), "empty file name");
}

#[test]
fn file_names_of_an_upload() {
    assert_eq!(LocalStorage::data_file_name("abc"), "abc.data");
    assert_eq!(LocalStorage::meta_file_name("abc"), "abc.meta");
}

#[test]
fn new_storage_settings() {
    let storage = LocalStorage::new("./uploads".to_string(), 1024);
    assert_eq!(storage.base_path(), "./uploads");
    assert_eq!(storage.max_file_size(), 1024);
    assert_eq!(storage.upload_ttl_ns(), 30 * 60 * 1_000_000_000);
    assert_eq!(storage.sweep_interval_ns(), 15 * 60 * 1_000_000_000);
}

#[test]
fn begin_record_assigns_a_fresh_id() {
    let storage = LocalStorage::new("./uploads".to_string(), 1024);
    let rec = storage.begin_record("report.pdf", "application/pdf").unwrap();
    assert_eq!(rec.file_id.len(), 36);
    assert_eq!(rec.file_name, "report.pdf");
    assert_eq!(rec.content_type, "application/pdf");
    assert_eq!(rec.size_bytes, 0);
    assert!(rec.sha256_checksum.is_empty() && rec.uploaded_at.is_empty() && !rec.finalized);
    assert!(matches!(storage.begin_record("../x", "text/plain"), Err(StorageError::InvalidFileName(_))));
}

#[test]
fn append_size_limit() {
    let storage = LocalStorage::new("./uploads".to_string(), 10);
    assert_eq!(storage.check_append(0, 10).unwrap(), 10);
    assert_eq!(storage.check_append(4, 0).unwrap(), 4);
    match storage.check_append(6, 5) {
        Err(StorageError::TooLarge { size, limit }) => assert_eq!((size, limit), (11, 10)),
        other => panic!("{other:?}"),
    }
    match storage.check_append(u64::MAX, 1) {
        Err(StorageError::TooLarge { size, limit }) => assert_eq!((size, limit), (u64::MAX, 10)),
        other => panic!("{other:?}"),
    }
    let unlimited = LocalStorage::new("x".to_string(), u64::MAX);
    assert!(matches!(unlimited.check_append(u64::MAX, 1), Err(StorageError::TooLarge { size: u64::MAX, limit: u64::MAX })));
}

#[test]
fn existence_check() {
    assert!(LocalStorage::check_exists("id", true).is_ok());
    match LocalStorage::check_exists("nonexistent", false) {
        Err(StorageError::NotFound(id)) => assert_eq!(id, "nonexistent"),
        other => panic!("{other:?}"),
    }
}

#[test]
fn storage_error_messages() {
    assert_eq!(StorageError::NotFound("abc".into()).to_string(), "file not found: abc");
    assert_eq!(StorageError::TooLarge { size: 11, limit: 10 }.to_string(), "file too large: 11 exceeds limit 10");
    assert_eq!(StorageError::InvalidFileName("empty file name".into()).to_string(), "invalid file name: empty file name");
    assert_eq!(StorageError::Io(std::io::Error::other("disk full")).to_string(), "io error: disk full");
}

fn record(id: &str, uploaded_at: &str, finalized: bool) -> MetaRecord {
    MetaRecord {
        file_id: id.to_string(),
        file_name: format!("{id}.txt"),
        content_type: "text/plain".to_string(),
        size_bytes: 3,
        sha256_checksum: "c".to_string(),
        uploaded_at: uploaded_at.to_string(),
        finalized,
    }
}

#[test]
fn metadata_only_of_finalized_records() {
    let meta = metadata_from_read("a", MetaRead::Found(record("a", "2024-01-01T00:00:00+00:00", true))).unwrap();
    assert_eq!(meta.file_id, "a");
    assert_eq!(meta.file_name, "a.txt");
    assert!(matches!(metadata_from_read("b", MetaRead::Found(record("b", "", false))), Err(StorageError::NotFound(id)) if id == "b"));
    assert!(matches!(metadata_from_read("c", MetaRead::Missing), Err(StorageError::NotFound(id)) if id == "c"));
    assert!(matches!(metadata_from_read("d", MetaRead::Corrupt(std::io::Error::other("bad json"))), Err(StorageError::Io(_))));
}

#[test]
fn listing_is_newest_first_and_skips_unfinished() {
    let records = vec![
        record("old", "2024-01-01T00:00:00+00:00", true),
        record("pending", "", false),
        record("new", "2024-03-01T00:00:00+00:00", true),
        record("mid", "2024-02-01T00:00:00+00:00", true),
    ];
    let files = list_finalized(&records);
    let ids: Vec<&str> = files.iter().map(|f| f.file_id.as_str()).collect();
    assert_eq!(ids, vec!["new", "mid", "old"]);
    assert!(list_finalized(&Vec::new()).is_empty());
}

#[test]
fn completed_record_is_finalized() {
    let rec = record("x", "", false).completed(5, "abc".into(), "2024-05-05T00:00:00+00:00".into());
    assert!(rec.finalized);
    assert_eq!(rec.size_bytes, 5);
    assert_eq!(rec.sha256_checksum, "abc");
    let meta = rec.describe_as("y");
    assert_eq!(meta.file_id, "y");
    assert_eq!(meta.uploaded_at, "2024-05-05T00:00:00+00:00");
    let stamped = record("z", "", false).completed_now(1, "d".into());
    assert!(stamped.finalized && !stamped.uploaded_at.is_empty());
}

#[test]
fn checksum_covers_every_chunk_in_order() {
    let mut registry = UploadRegistry::new();
    registry.begin("f".to_string(), 0);
    registry.record_chunk("f", b"hello");
    registry.record_chunk("f", b" ");
    registry.record_chunk("f", b"world");
    assert_eq!(
        registry.take_checksum("f").unwrap(),
        "b94d27b9934d3e08a52e52d7da7dabfac484efe37a5380ee9088f7ace2efcde9"
    );
    assert!(!registry.contains("f"));
    assert_eq!(registry.take_checksum("f"), None);
}

#[test]
fn checksum_of_empty_upload() {
    let mut registry = UploadRegistry::new();
    registry.begin("e".to_string(), 0);
    assert_eq!(
        registry.take_checksum("e").unwrap(),
        "e3b0c44298fc1c149afbf4c8996fb92427ae41e4649b934ca495991b7852b855"
    );
}

#[test]
fn chunks_of_unknown_uploads_are_ignored() {
    let mut registry = UploadRegistry::new();
    registry.record_chunk("ghost", b"data");
    assert!(!registry.contains("ghost"));
    registry.begin("a".to_string(), 0);
    registry.forget("a");
    assert!(!registry.contains("a"));
    registry.forget("a");
}

#[test]
fn stale_uploads_are_evicted() {
    let mut registry = UploadRegistry::new();
    registry.begin("old".to_string(), 0);
    registry.begin("fresh".to_string(), 5_000);
    registry.begin("edge".to_string(), 1_000);
    let mut evicted = registry.evict_stale(11_000, 10_000);
    evicted.sort();
    assert_eq!(evicted, vec!["old".to_string()]);
    assert!(!registry.contains("old"));
    assert!(registry.contains("fresh") && registry.contains("edge"));
    let again = registry.evict_stale(11_000, 10_000);
    assert!(again.is_empty());
    let mut later = registry.evict_stale(20_000, 10_000);
    later.sort();
    assert_eq!(later, vec!["edge".to_string(), "fresh".to_string()]);
}

#[test]
fn clock_earlier_than_opening_is_not_stale() {
    let mut registry = UploadRegistry::new();
    registry.begin("a".to_string(), 50_000);
    assert!(registry.evict_stale(0, 1).is_empty());
    assert!(registry.contains("a"));
}

#[test]
fn restarted_upload_starts_a_new_checksum() {
    let mut registry = UploadRegistry::new();
    registry.begin("r".to_string(), 0);
    registry.record_chunk("r", b"junk");
    registry.begin("r".to_string(), 1);
    registry.record_chunk("r", b"hello world");
    assert_eq!(
        registry.take_checksum("r").unwrap(),
        "b94d27b9934d3e08a52e52d7da7dabfac484efe37a5380ee9088f7ace2efcde9"
    );
    assert!(registry.evict_stale(u64::MAX, 0).is_empty());
}

#[test]
fn streaming_checksum_matches_one_shot() {
    let mut a = StreamingChecksum::new();
    a.feed(b"hello ");
    let b = a.fork();
    a.feed(b"world");
    assert_eq!(a.finish_hex(), "b94d27b9934d3e08a52e52d7da7dabfac484efe37a5380ee9088f7ace2efcde9");
    let mut b = b;
    b.feed(b"world");
    assert_eq!(b.finish_hex(), "b94d27b9934d3e08a52e52d7da7dabfac484efe37a5380ee9088f7ace2efcde9");
}

#[test]
fn metadata_records_are_told_by_their_extension() {
    assert!(LocalStorage::is_meta_file_name("0190a1b2-0000-7000-8000-000000000000.meta"));
    assert!(LocalStorage::is_meta_file_name("x.meta"));
    assert!(LocalStorage::is_meta_file_name("..meta"));
    assert!(!LocalStorage::is_meta_file_name(".meta"));
    assert!(!LocalStorage::is_meta_file_name("x.data"));
    assert!(!LocalStorage::is_meta_file_name("x.meta.bak"));
    assert!(!LocalStorage::is_meta_file_name("xmeta"));
    assert!(!LocalStorage::is_meta_file_name(""));
}

#[test]
fn listing_keeps_record_order_for_equal_times() {
    let records = vec![
        record("first", "2024-02-01T00:00:00+00:00", true),
        record("newest", "2024-03-01T00:00:00+00:00", true),
        record("second", "2024-02-01T00:00:00+00:00", true),
        record("third", "2024-02-01T00:00:00+00:00", true),
    ];
    let files = list_finalized(&records);
    let ids: Vec<&str> = files.iter().map(|f| f.file_id.as_str()).collect();
    assert_eq!(ids, vec!["newest", "first", "second", "third"]);
}

#[test]
fn completion_is_stamped_in_utc() {
    let stamped = record("z", "", false).completed_now(1, "d".into());
    assert!(stamped.uploaded_at.len() >= 25);
    assert!(stamped.uploaded_at.ends_with("+00:00"));
    assert!(stamped.uploaded_at.contains('T'));
}

#[test]
fn record_reads_map_to_errors() {
    let rec = record_from_read("p", MetaRead::Found(record("p", "", false))).unwrap();
    assert!(!rec.finalized);
    assert!(matches!(record_from_read("q", MetaRead::Missing), Err(StorageError::NotFound(id)) if id == "q"));
    assert!(matches!(record_from_read("r", MetaRead::Corrupt(std::io::Error::other("bad"))), Err(StorageError::Io(_))));
}

#[test]
fn checksums_are_sixty_four_hex_digits() {
    let mut registry = UploadRegistry::new();
    registry.begin("h".to_string(), 0);
    registry.record_chunk("h", b"any bytes at all");
    let hex = registry.take_checksum("h").unwrap();
    assert_eq!(hex.len(), 64);
    assert!(hex.chars().all(|c| c.is_ascii_hexdigit() && !c.is_ascii_uppercase()));
}

#[test]
fn first_sweep_past_the_ttl_evicts() {
    let mut registry = UploadRegistry::new();
    registry.begin("a".to_string(), 3);
    assert!(registry.evict_stale(0, 10).is_empty());
    assert!(registry.evict_stale(5, 10).is_empty());
    assert!(registry.evict_stale(10, 10).is_empty());
    assert_eq!(registry.evict_stale(15, 10), vec!["a".to_string()]);
}
