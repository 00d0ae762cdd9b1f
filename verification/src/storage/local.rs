//! The decisions of the local file system backend: which names are
//! accepted, how far an upload may grow, what a metadata record says, and in
//! which order finished files are listed.
use vstd::prelude::*;
use crate::interceptor::{fresh_uuid_v7_text, is_uuid_v7_text};
use crate::storage::{FileMetadata, StorageError};
use vstd::utf8::encode_utf8;

verus! {

/// Whether `name` begins at the root (`/...`).
pub open spec fn starts_at_root(name: Seq<char>) -> bool {
    name.len() > 0 && name[0] == '/'
}

/// Whether `name` begins with a current-directory component (`.` or `./...`).
pub open spec fn starts_with_cur_dir(name: Seq<char>) -> bool {
    name.len() > 0 && name[0] == '.' && (name.len() == 1 || name[1] == '/')
}

/// Whether a `..` component begins at index `i` of `name`.
pub open spec fn parent_component_at(name: Seq<char>, i: int) -> bool {
    &&& 0 <= i
    &&& i + 2 <= name.len()
    &&& name[i] == '.'
    &&& name[i + 1] == '.'
    &&& (i == 0 || name[i - 1] == '/')
    &&& (i + 2 == name.len() || name[i + 2] == '/')
}

/// Whether every component of the relative path `name` is an ordinary name,
/// as `std::path::Path::components` splits it on Unix: no root, no leading
/// `.` component and no `..` component (empty and inner `.` components are
/// skipped by the split).
pub open spec fn only_normal_components(name: Seq<char>) -> bool {
    &&& !starts_at_root(name)
    &&& !starts_with_cur_dir(name)
    &&& !exists|i: int| parent_component_at(name, i)
}

/// The outcome of checking an uploaded file name.
pub open spec fn file_name_check(name: Seq<char>) -> Result<(), Seq<char>> {
    if name.len() == 0 {
        Err("empty file name"@)
    } else if !only_normal_components(name) {
        Err("path traversal detected: "@ + name)
    } else {
        Ok(())
    }
}

/// A single ordinary name, with no `/` in it and other than `.` and `..`, is
/// accepted, whatever other characters (spaces, dots, dashes) it holds.
pub proof fn law_plain_names_are_accepted(name: Seq<char>)
    requires
        name.len() > 0,
        forall|i: int| 0 <= i < name.len() ==> name[i] != '/',
        name != seq!['.'],
        name != seq!['.', '.'],
    ensures
        file_name_check(name) == Ok::<(), Seq<char>>(()),
{
    if name.len() == 1 && name[0] == '.' {
        assert(name =~= seq!['.']);
    }
    assert forall|i: int| !parent_component_at(name, i) by {
        if parent_component_at(name, i) {
            assert(i == 0 && name.len() == 2);
            assert(name =~= seq!['.', '.']);
        }
    }
}

/// Names joined by `/` from accepted names are accepted.
pub proof fn law_nested_names_are_accepted(dir: Seq<char>, name: Seq<char>)
    requires
        file_name_check(dir) is Ok,
        file_name_check(name) is Ok,
    ensures
        file_name_check(dir + seq!['/'] + name) is Ok,
{
    let joined = dir + seq!['/'] + name;
    let d = dir.len() as int;
    assert(joined[0] == dir[0]);
    if dir.len() == 1 {
        assert(joined[1] == '/');
    } else {
        assert(joined[1] == dir[1]);
    }
    assert forall|i: int| !parent_component_at(joined, i) by {
        if parent_component_at(joined, i) {
            if i + 2 <= d {
                assert(joined[i] == dir[i] && joined[i + 1] == dir[i + 1]);
                if i > 0 {
                    assert(joined[i - 1] == dir[i - 1]);
                }
                if i + 2 < d {
                    assert(joined[i + 2] == dir[i + 2]);
                }
                assert(parent_component_at(dir, i));
            } else if i == d || i + 1 == d {
                assert(joined[d] == '/');
            } else {
                let j = i - d - 1;
                assert(joined[i] == name[j] && joined[i + 1] == name[j + 1]);
                if j > 0 {
                    assert(joined[i - 1] == name[j - 1]);
                }
                if i + 2 < joined.len() {
                    assert(joined[i + 2] == name[j + 2]);
                }
                if j == 0 {
                    assert(name.len() == 2 || name[2] == '/');
                    assert(starts_with_cur_dir(name) || parent_component_at(name, 0));
                }
                assert(parent_component_at(name, j));
            }
        }
    }
}

/// A name with a `..` component anywhere, or one that starts at the root,
/// is refused as path traversal, and the refusal quotes the name.
pub proof fn law_traversal_is_refused(name: Seq<char>, i: int)
    requires
        name[0] == '/' || (
            0 <= i && i + 2 <= name.len() && name[i] == '.' && name[i + 1] == '.'
            && (i == 0 || name[i - 1] == '/') && (i + 2 == name.len() || name[i + 2] == '/')
        ),
        name.len() > 0,
    ensures
        file_name_check(name) == Err::<(), Seq<char>>(seq!['p', 'a', 't', 'h', ' ', 't', 'r', 'a', 'v', 'e', 'r', 's', 'a', 'l', ' ', 'd', 'e', 't', 'e', 'c', 't', 'e', 'd', ':', ' '] + name),
{
    reveal_strlit("path traversal detected: ");
    assert("path traversal detected: "@ =~= seq!['p', 'a', 't', 'h', ' ', 't', 'r', 'a', 'v', 'e', 'r', 's', 'a', 'l', ' ', 'd', 'e', 't', 'e', 'c', 't', 'e', 'd', ':', ' ']);
    if name[0] != '/' {
        assert(parent_component_at(name, i));
    }
}

/// The empty name is refused.
pub proof fn law_empty_name_is_refused()
    ensures
        file_name_check(Seq::<char>::empty()) is Err,
{
}

/// Whether a chunk of `chunk_len` bytes may join a data file of
/// `current_size` bytes under the limit `limit`: the new size, or the size
/// that is refused (the largest `u64` when the sum does not fit one) with the
/// limit.
pub open spec fn append_outcome(current_size: u64, chunk_len: u64, limit: u64) -> Result<u64, (u64, u64)> {
    if current_size + chunk_len > u64::MAX {
        Err((u64::MAX, limit))
    } else if current_size + chunk_len > limit {
        Err(((current_size + chunk_len) as u64, limit))
    } else {
        Ok((current_size + chunk_len) as u64)
    }
}

/// Size limits are enforced chunk by chunk: an accepted append never takes a
/// file past the limit, and a refused one really goes past it, and reports
/// the size it would reach (capped at the largest `u64`) with the limit.
pub proof fn law_append_respects_limit(current_size: u64, chunk_len: u64, limit: u64)
    ensures
        append_outcome(current_size, chunk_len, limit) matches Ok(n) ==> n <= limit && n == current_size + chunk_len,
        append_outcome(current_size, chunk_len, limit) matches Err((s, l)) ==> l == limit && current_size
            + chunk_len > limit && s == (if current_size + chunk_len > u64::MAX {
            u64::MAX as int
        } else {
            current_size + chunk_len
        }),
{
}

/// The JSON record kept beside each data file.
#[derive(Debug, Clone)]
pub struct MetaRecord {
    pub file_id: String,
    pub file_name: String,
    pub content_type: String,
    pub size_bytes: u64,
    pub sha256_checksum: String,
    pub uploaded_at: String,
    pub finalized: bool,
}

/// The metadata that a record publishes.
pub open spec fn described(r: MetaRecord) -> FileMetadata {
    FileMetadata {
        file_id: r.file_id,
        file_name: r.file_name,
        content_type: r.content_type,
        size_bytes: r.size_bytes,
        sha256_checksum: r.sha256_checksum,
        uploaded_at: r.uploaded_at,
    }
}

/// Whether `s` has the shape of every RFC 3339 reading of a UTC clock: at
/// least `YYYY-MM-DDTHH:MM:SS` followed by the offset `+00:00`.
pub open spec fn is_utc_rfc3339_text(s: Seq<char>) -> bool {
    s.len() >= 25 && s.subrange(s.len() - 6, s.len() as int) == "+00:00"@
}

/// `chrono::Utc::now().to_rfc3339()`: the current time as RFC 3339 text with
/// the UTC offset written `+00:00`. Which time it reads depends on the clock;
/// only the shape of the text is stated.
#[verifier::external_body]
fn now_rfc3339() -> (s: String)
    ensures
        is_utc_rfc3339_text(s@),
{
    chrono::Utc::now().to_rfc3339()
}

impl MetaRecord {
    /// The record of an upload that has just begun: nothing written yet.
    pub open spec fn is_fresh_upload(self, file_name: Seq<char>, content_type: Seq<char>) -> bool {
        &&& self.file_name@ == file_name
        &&& self.content_type@ == content_type
        &&& self.size_bytes == 0
        &&& self.sha256_checksum@ == Seq::<char>::empty()
        &&& self.uploaded_at@ == Seq::<char>::empty()
        &&& !self.finalized
    }

    /// The record once the upload is complete.
    pub fn completed(self, size_bytes: u64, sha256_checksum: String, uploaded_at: String) -> (r: MetaRecord)
        ensures
            r == (MetaRecord { size_bytes, sha256_checksum, uploaded_at, finalized: true, ..self }),
    {
        MetaRecord { size_bytes, sha256_checksum, uploaded_at, finalized: true, ..self }
    }

    /// The record once the upload is complete, stamped with the current time.
    pub fn completed_now(self, size_bytes: u64, sha256_checksum: String) -> (r: MetaRecord)
        ensures
            r.file_id == self.file_id,
            r.file_name == self.file_name,
            r.content_type == self.content_type,
            r.size_bytes == size_bytes,
            r.sha256_checksum == sha256_checksum,
            is_utc_rfc3339_text(r.uploaded_at@),
            r.finalized,
    {
        let now = now_rfc3339();
        self.completed(size_bytes, sha256_checksum, now)
    }

    /// A copy of this record.
    pub fn duplicate(&self) -> (r: MetaRecord)
        ensures
            r == *self,
    {
        MetaRecord {
            file_id: self.file_id.clone(),
            file_name: self.file_name.clone(),
            content_type: self.content_type.clone(),
            size_bytes: self.size_bytes,
            sha256_checksum: self.sha256_checksum.clone(),
            uploaded_at: self.uploaded_at.clone(),
            finalized: self.finalized,
        }
    }

    /// The metadata this record publishes, under the ID `file_id`.
    pub fn describe_as(&self, file_id: &str) -> (m: FileMetadata)
        ensures
            m == (FileMetadata { file_id: m.file_id, ..described(*self) }),
            m.file_id@ == file_id@,
    {
        FileMetadata {
            file_id: String::from_str(file_id),
            file_name: self.file_name.clone(),
            content_type: self.content_type.clone(),
            size_bytes: self.size_bytes,
            sha256_checksum: self.sha256_checksum.clone(),
            uploaded_at: self.uploaded_at.clone(),
        }
    }

    /// The metadata this record publishes.
    pub fn describe(&self) -> (m: FileMetadata)
        ensures
            m == described(*self),
    {
        FileMetadata {
            file_id: self.file_id.clone(),
            file_name: self.file_name.clone(),
            content_type: self.content_type.clone(),
            size_bytes: self.size_bytes,
            sha256_checksum: self.sha256_checksum.clone(),
            uploaded_at: self.uploaded_at.clone(),
        }
    }
}

/// What reading a metadata record gave.
#[derive(Debug)]
pub enum MetaRead {
    /// There is no record under this ID (or it cannot be read).
    Missing,
    /// The record exists but does not parse; the error says why.
    Corrupt(std::io::Error),
    /// The record.
    Found(MetaRecord),
}

/// Local file system storage: the settings and decisions; the files
/// themselves are written by the caller.
#[derive(Debug, Clone)]
pub struct LocalStorage {
    base_path: String,
    max_file_size: u64,
    upload_ttl_ns: u64,
}

/// How long an upload may stay open before its checksum is evicted: 30 minutes.
pub const UPLOAD_TTL_NS: u64 = 1800000000000;

impl LocalStorage {
    pub closed spec fn spec_base_path(&self) -> Seq<char> {
        self.base_path@
    }

    pub closed spec fn spec_max_file_size(&self) -> u64 {
        self.max_file_size
    }

    pub closed spec fn spec_upload_ttl_ns(&self) -> u64 {
        self.upload_ttl_ns
    }

    /// A backend storing under `base_path`, accepting files of at most
    /// `max_file_size` bytes, evicting uploads open longer than 30 minutes.
    pub fn new(base_path: String, max_file_size: u64) -> (s: LocalStorage)
        ensures
            s.spec_base_path() == base_path@,
            s.spec_max_file_size() == max_file_size,
            s.spec_upload_ttl_ns() == UPLOAD_TTL_NS,
    {
        LocalStorage { base_path, max_file_size, upload_ttl_ns: UPLOAD_TTL_NS }
    }

    /// The directory that holds the files.
    pub fn base_path(&self) -> (p: &String)
        ensures
            p@ == self.spec_base_path(),
    {
        &self.base_path
    }

    /// The largest accepted file, in bytes.
    pub fn max_file_size(&self) -> (m: u64)
        ensures
            m == self.spec_max_file_size(),
    {
        self.max_file_size
    }

    /// How long an upload may stay open, in nanoseconds.
    pub fn upload_ttl_ns(&self) -> (t: u64)
        ensures
            t == self.spec_upload_ttl_ns(),
    {
        self.upload_ttl_ns
    }

    /// How often stale uploads are swept: at half the time-to-live.
    pub fn sweep_interval_ns(&self) -> (t: u64)
        ensures
            t == self.spec_upload_ttl_ns() / 2,
    {
        self.upload_ttl_ns / 2
    }

    /// The name of the data file of `file_id` (`{file_id}.data`).
    pub fn data_file_name(file_id: &str) -> (n: String)
        ensures
            n@ == file_id@ + ".data"@,
    {
        let mut n = String::from_str(file_id);
        n.append(".data");
        n
    }

    /// The name of the metadata file of `file_id` (`{file_id}.meta`).
    pub fn meta_file_name(file_id: &str) -> (n: String)
        ensures
            n@ == file_id@ + ".meta"@,
    {
        let mut n = String::from_str(file_id);
        n.append(".meta");
        n
    }

    /// Whether a directory entry named `name` is a metadata record: its
    /// extension, as `std::path::Path::extension` reads it (the text after the
    /// last `.`, when something precedes that `.`), is `meta`.
    pub fn is_meta_file_name(name: &str) -> (r: bool)
        ensures
            r == (name@.len() > 5 && name@.subrange(name@.len() - 5, name@.len() as int) == ".meta"@),
    {
        let len = name.unicode_len();
        if len <= 5 {
            return false;
        }
        let tail = name.substring_char(len - 5, len);
        let suffix = String::from_str(".meta");
        let tail_owned = String::from_str(tail);
        tail_owned == suffix
    }

    /// Checks an uploaded file name: not empty, and no component that could
    /// leave the storage directory.
    pub fn validate_file_name(name: &str) -> (r: Result<(), StorageError>)
        ensures
            match (r, file_name_check(name@)) {
                (Ok(()), Ok(())) => true,
                (Err(StorageError::InvalidFileName(m)), Err(n)) => m@ == n,
                _ => false,
            },
    {
        let len = name.unicode_len();
        if len == 0 {
            return Err(StorageError::InvalidFileName(String::from_str("empty file name")));
        }
        let first = name.get_char(0);
        let mut bad = first == '/' || (first == '.' && (len == 1 || name.get_char(1) == '/'));
        let mut i: usize = 0;
        while i < len && !bad
            invariant
                i <= len,
                len == name@.len(),
                bad == (starts_at_root(name@) || starts_with_cur_dir(name@) || exists|j: int|
                    0 <= j < i && parent_component_at(name@, j)),
            decreases len - i,
        {
            if i + 1 < len && name.get_char(i) == '.' && name.get_char(i + 1) == '.' && (i == 0
                || name.get_char(i - 1) == '/') && (i + 2 == len || name.get_char(i + 2) == '/') {
                assert(parent_component_at(name@, i as int));
                bad = true;
            } else {
                assert(!parent_component_at(name@, i as int));
            }
            i = i + 1;
        }
        if bad {
            let mut m = String::from_str("path traversal detected: ");
            m.append(name);
            return Err(StorageError::InvalidFileName(m));
        }
        assert forall|j: int| !parent_component_at(name@, j) by {
            if parent_component_at(name@, j) {
                assert(0 <= j < i);
            }
        }
        Ok(())
    }

    /// Starts an upload: checks the file name, then gives the upload a fresh
    /// UUID v7 as its ID. An invalid name gets no ID.
    pub fn begin_record(&self, file_name: &str, content_type: &str) -> (r: Result<MetaRecord, StorageError>)
        ensures
            match (r, file_name_check(file_name@)) {
                (Ok(rec), Ok(())) => rec.is_fresh_upload(file_name@, content_type@) && is_uuid_v7_text(
                    rec.file_id@,
                ),
                (Err(StorageError::InvalidFileName(m)), Err(n)) => m@ == n,
                _ => false,
            },
    {
        match LocalStorage::validate_file_name(file_name) {
            Err(e) => Err(e),
            Ok(()) => {
                let file_id = fresh_uuid_v7_text();
                Ok(MetaRecord {
                    file_id,
                    file_name: String::from_str(file_name),
                    content_type: String::from_str(content_type),
                    size_bytes: 0,
                    sha256_checksum: String::new(),
                    uploaded_at: String::new(),
                    finalized: false,
                })
            },
        }
    }

    /// The answer when `file_id` has no metadata record: `NotFound`.
    pub fn check_exists(file_id: &str, meta_exists: bool) -> (r: Result<(), StorageError>)
        ensures
            meta_exists ==> r is Ok,
            !meta_exists ==> (r matches Err(StorageError::NotFound(id)) && id@ == file_id@),
    {
        if meta_exists {
            Ok(())
        } else {
            Err(StorageError::NotFound(String::from_str(file_id)))
        }
    }

    /// Decides whether a chunk of `chunk_len` bytes may be appended to a data
    /// file that holds `current_size` bytes; on success, the new size.
    pub fn check_append(&self, current_size: u64, chunk_len: u64) -> (r: Result<u64, StorageError>)
        ensures
            match (r, append_outcome(current_size, chunk_len, self.spec_max_file_size())) {
                (Ok(n), Ok(m)) => n == m,
                (Err(StorageError::TooLarge { size, limit }), Err((s, l))) => size == s && limit == l,
                _ => false,
            },
    {
        match current_size.checked_add(chunk_len) {
            None => Err(StorageError::TooLarge { size: u64::MAX, limit: self.max_file_size }),
            Some(new_size) => if new_size > self.max_file_size {
                Err(StorageError::TooLarge { size: new_size, limit: self.max_file_size })
            } else {
                Ok(new_size)
            },
        }
    }
}

/// The record of `file_id` as it was read, whether finalized or not.
pub fn record_from_read(file_id: &str, read: MetaRead) -> (r: Result<MetaRecord, StorageError>)
    ensures
        match read {
            MetaRead::Missing => r matches Err(StorageError::NotFound(id)) && id@ == file_id@,
            MetaRead::Corrupt(_) => r matches Err(StorageError::Io(_)),
            MetaRead::Found(rec) => r == Ok::<MetaRecord, StorageError>(rec),
        },
{
    match read {
        MetaRead::Missing => Err(StorageError::NotFound(String::from_str(file_id))),
        MetaRead::Corrupt(e) => Err(StorageError::Io(e)),
        MetaRead::Found(rec) => Ok(rec),
    }
}

/// The metadata of `file_id` as its record tells it: only a finalized
/// upload is visible.
pub fn metadata_from_read(file_id: &str, read: MetaRead) -> (r: Result<FileMetadata, StorageError>)
    ensures
        match read {
            MetaRead::Missing => r matches Err(StorageError::NotFound(id)) && id@ == file_id@,
            MetaRead::Corrupt(_) => r matches Err(StorageError::Io(_)),
            MetaRead::Found(rec) => if rec.finalized {
                r == Ok::<FileMetadata, StorageError>(described(rec))
            } else {
                r matches Err(StorageError::NotFound(id)) && id@ == file_id@
            },
        },
{
    match read {
        MetaRead::Missing => Err(StorageError::NotFound(String::from_str(file_id))),
        MetaRead::Corrupt(e) => Err(StorageError::Io(e)),
        MetaRead::Found(rec) => if rec.finalized {
            Ok(rec.describe())
        } else {
            Err(StorageError::NotFound(String::from_str(file_id)))
        },
    }
}

/// Whether `a` sorts strictly before `b`, byte by byte, a proper prefix
/// first (the order of `String`).
pub open spec fn bytes_less(a: Seq<u8>, b: Seq<u8>) -> bool
    decreases a.len(),
{
    if a.len() == 0 {
        b.len() > 0
    } else if b.len() == 0 {
        false
    } else if a[0] != b[0] {
        a[0] < b[0]
    } else {
        bytes_less(a.drop_first(), b.drop_first())
    }
}

proof fn lemma_bytes_less_irreflexive(a: Seq<u8>)
    ensures
        !bytes_less(a, a),
    decreases a.len(),
{
    if a.len() > 0 {
        lemma_bytes_less_irreflexive(a.drop_first());
    }
}

proof fn lemma_bytes_less_asymmetric(a: Seq<u8>, b: Seq<u8>)
    ensures
        !(bytes_less(a, b) && bytes_less(b, a)),
    decreases a.len(),
{
    if a.len() > 0 && b.len() > 0 && a[0] == b[0] {
        lemma_bytes_less_asymmetric(a.drop_first(), b.drop_first());
    }
}

proof fn lemma_bytes_less_transitive(a: Seq<u8>, b: Seq<u8>, c: Seq<u8>)
    requires
        bytes_less(a, b),
        bytes_less(b, c),
    ensures
        bytes_less(a, c),
    decreases a.len(),
{
    if a.len() > 0 && b.len() > 0 && c.len() > 0 && a[0] == b[0] && b[0] == c[0] {
        lemma_bytes_less_transitive(a.drop_first(), b.drop_first(), c.drop_first());
    }
}

proof fn lemma_bytes_less_total(a: Seq<u8>, b: Seq<u8>)
    ensures
        bytes_less(a, b) || bytes_less(b, a) || a == b,
    decreases a.len(),
{
    if a.len() > 0 && b.len() > 0 && a[0] == b[0] {
        lemma_bytes_less_total(a.drop_first(), b.drop_first());
        if a.drop_first() == b.drop_first() {
            assert(a =~= seq![a[0]] + a.drop_first());
            assert(b =~= seq![b[0]] + b.drop_first());
        }
    } else if a.len() == 0 && b.len() == 0 {
        assert(a =~= b);
    }
}

/// Compares two byte strings in the order of `String`.
fn bytes_lt(a: &[u8], b: &[u8]) -> (r: bool)
    ensures
        r == bytes_less(a@, b@),
{
    let mut i: usize = 0;
    assert(a@.skip(0) =~= a@ && b@.skip(0) =~= b@);
    while i < a.len() && i < b.len() && a[i] == b[i]
        invariant
            i <= a@.len(),
            i <= b@.len(),
            bytes_less(a@, b@) == bytes_less(a@.skip(i as int), b@.skip(i as int)),
        decreases a@.len() - i,
    {
        assert(a@.skip(i as int).drop_first() =~= a@.skip(i + 1));
        assert(b@.skip(i as int).drop_first() =~= b@.skip(i + 1));
        i = i + 1;
    }
    if i == a.len() {
        i < b.len()
    } else if i == b.len() {
        false
    } else {
        a[i] < b[i]
    }
}

/// The sort key of a listed file: the bytes of its upload time.
pub open spec fn upload_time_key(m: FileMetadata) -> Seq<u8> {
    encode_utf8(m.uploaded_at@)
}

/// The files that a listing shows: the finalized records, as metadata.
pub open spec fn finalized_files(records: Seq<MetaRecord>) -> Seq<FileMetadata>
    decreases records.len(),
{
    if records.len() == 0 {
        Seq::empty()
    } else if records.last().finalized {
        finalized_files(records.drop_last()).push(described(records.last()))
    } else {
        finalized_files(records.drop_last())
    }
}

/// Whether `files` runs from the newest upload time to the oldest.
pub open spec fn newest_first(files: Seq<FileMetadata>) -> bool {
    forall|i: int, j: int|
        0 <= i < j < files.len() ==> !bytes_less(
            upload_time_key(#[trigger] files[i]),
            upload_time_key(#[trigger] files[j]),
        )
}

/// `files` shows the entries of `listed`, the `i`-th being the entry at
/// position `origin[i]`, each entry at most once; files with equal upload
/// times keep the order they have in `listed`.
pub open spec fn keeps_listed_order(files: Seq<FileMetadata>, listed: Seq<FileMetadata>, origin: Seq<int>) -> bool {
    &&& origin.len() == files.len()
    &&& forall|i: int|
        0 <= i < files.len() ==> 0 <= #[trigger] origin[i] < listed.len() && files[i] == listed[origin[i]]
    &&& forall|i: int, j: int| 0 <= i < j < files.len() ==> #[trigger] origin[i] != #[trigger] origin[j]
    &&& forall|i: int, j: int|
        0 <= i < j < files.len() && upload_time_key(#[trigger] files[i]) == upload_time_key(#[trigger] files[j])
            ==> origin[i] < origin[j]
}

/// Where `a` and `b` agree on their first `k` bytes and then `a` ends first
/// or has the smaller byte, `a` sorts before `b`.
proof fn lemma_bytes_less_at(a: Seq<u8>, b: Seq<u8>, k: int)
    requires
        0 <= k <= a.len(),
        k <= b.len(),
        a.subrange(0, k) == b.subrange(0, k),
        (k == a.len() && k < b.len()) || (k < a.len() && k < b.len() && a[k] < b[k]),
    ensures
        bytes_less(a, b),
    decreases k,
{
    if k > 0 {
        assert(a[0] == a.subrange(0, k)[0]);
        assert(b[0] == b.subrange(0, k)[0]);
        assert(a.drop_first().subrange(0, k - 1) =~= a.subrange(0, k).drop_first());
        assert(b.drop_first().subrange(0, k - 1) =~= b.subrange(0, k).drop_first());
        lemma_bytes_less_at(a.drop_first(), b.drop_first(), k - 1);
    }
}

/// A newest-first listing is ordered by the whole text of the upload times:
/// for a file listed before another, wherever the two times first differ
/// the earlier-listed one has the greater byte, and the later-listed time is
/// never a longer text that begins with the earlier-listed one.
pub proof fn law_listing_orders_by_whole_upload_time(files: Seq<FileMetadata>, i: int, j: int, k: int)
    requires
        newest_first(files),
        0 <= i < j < files.len(),
        0 <= k <= encode_utf8(files[i].uploaded_at@).len(),
        k <= encode_utf8(files[j].uploaded_at@).len(),
        encode_utf8(files[i].uploaded_at@).subrange(0, k) == encode_utf8(files[j].uploaded_at@).subrange(0, k),
    ensures
        k == encode_utf8(files[i].uploaded_at@).len() ==> k == encode_utf8(files[j].uploaded_at@).len(),
        k < encode_utf8(files[i].uploaded_at@).len() && k < encode_utf8(files[j].uploaded_at@).len()
            ==> encode_utf8(files[i].uploaded_at@)[k] >= encode_utf8(files[j].uploaded_at@)[k],
{
    let a = encode_utf8(files[i].uploaded_at@);
    let b = encode_utf8(files[j].uploaded_at@);
    assert(!bytes_less(upload_time_key(files[i]), upload_time_key(files[j])));
    if (k == a.len() && k < b.len()) || (k < a.len() && k < b.len() && a[k] < b[k]) {
        lemma_bytes_less_at(a, b, k);
    }
}

/// Whether `m` publishes a finalized record among `records`.
pub open spec fn published_by(records: Seq<MetaRecord>, m: FileMetadata) -> bool {
    exists|i: int|
        0 <= i < records.len() && (#[trigger] records[i]).finalized && m == (FileMetadata {
            file_id: records[i].file_id,
            file_name: records[i].file_name,
            content_type: records[i].content_type,
            size_bytes: records[i].size_bytes,
            sha256_checksum: records[i].sha256_checksum,
            uploaded_at: records[i].uploaded_at,
        })
}

proof fn lemma_finalized_files_contains(records: Seq<MetaRecord>, m: FileMetadata)
    ensures
        finalized_files(records).contains(m) <==> published_by(records, m),
    decreases records.len(),
{
    if records.len() > 0 {
        let rest = records.drop_last();
        lemma_finalized_files_contains(rest, m);
        let n = records.len() - 1;
        if published_by(rest, m) {
            let i = choose|i: int|
                0 <= i < rest.len() && (#[trigger] rest[i]).finalized && m == (FileMetadata {
                    file_id: rest[i].file_id,
                    file_name: rest[i].file_name,
                    content_type: rest[i].content_type,
                    size_bytes: rest[i].size_bytes,
                    sha256_checksum: rest[i].sha256_checksum,
                    uploaded_at: rest[i].uploaded_at,
                });
            assert(records[i] == rest[i]);
        }
        if published_by(records, m) {
            let i = choose|i: int|
                0 <= i < records.len() && (#[trigger] records[i]).finalized && m == (FileMetadata {
                    file_id: records[i].file_id,
                    file_name: records[i].file_name,
                    content_type: records[i].content_type,
                    size_bytes: records[i].size_bytes,
                    sha256_checksum: records[i].sha256_checksum,
                    uploaded_at: records[i].uploaded_at,
                });
            if i < n {
                assert(rest[i] == records[i]);
            }
        }
        if records.last().finalized {
            let f = finalized_files(rest).push(described(records.last()));
            assert(f[f.len() - 1] == described(records.last()));
            if f.contains(m) {
                let k = choose|k: int| 0 <= k < f.len() && f[k] == m;
                if k < f.len() - 1 {
                    assert(finalized_files(rest)[k] == m);
                }
            }
            if finalized_files(rest).contains(m) {
                let k = choose|k: int| 0 <= k < finalized_files(rest).len() && finalized_files(rest)[k] == m;
                assert(f[k] == m);
            }
        }
    } else {
        assert(finalized_files(records) =~= Seq::<FileMetadata>::empty());
    }
}

/// A listing shows the finalized records and nothing else: a file is listed
/// exactly when it publishes a finalized record, field for field.
pub proof fn law_listing_shows_exactly_the_finalized(
    records: Seq<MetaRecord>,
    files: Seq<FileMetadata>,
    m: FileMetadata,
)
    requires
        files.to_multiset() == finalized_files(records).to_multiset(),
    ensures
        files.contains(m) <==> published_by(records, m),
{
    broadcast use vstd::seq_lib::to_multiset_contains;

    lemma_finalized_files_contains(records, m);
    assert(files.contains(m) <==> files.to_multiset().count(m) > 0);
    assert(finalized_files(records).contains(m) <==> finalized_files(records).to_multiset().count(m) > 0);
}

/// The listing of the stored files: every finalized record once, ordered by
/// upload time, newest first; files uploaded at the same time keep the order
/// of their records.
pub fn list_finalized(records: &Vec<MetaRecord>) -> (files: Vec<FileMetadata>)
    ensures
        files@.to_multiset() == finalized_files(records@).to_multiset(),
        newest_first(files@),
        exists|origin: Seq<int>| keeps_listed_order(files@, finalized_files(records@), origin),
{
    broadcast use {vstd::seq_lib::to_multiset_insert, vstd::seq_lib::to_multiset_build};
    let mut files: Vec<FileMetadata> = Vec::new();
    let ghost mut origin: Seq<int> = Seq::empty();
    let mut i: usize = 0;
    while i < records.len()
        invariant
            i <= records@.len(),
            files@.to_multiset() == finalized_files(records@.subrange(0, i as int)).to_multiset(),
            newest_first(files@),
            keeps_listed_order(files@, finalized_files(records@.subrange(0, i as int)), origin),
        decreases records@.len() - i,
    {
        let ghost prefix = records@.subrange(0, i + 1);
        assert(prefix.drop_last() =~= records@.subrange(0, i as int));
        assert(prefix.last() == records@[i as int]);
        let ghost done = finalized_files(records@.subrange(0, i as int));
        if records[i].finalized {
            let item = records[i].describe();
            let key = item.uploaded_at.as_str().as_bytes();
            let mut p: usize = 0;
            while p < files.len() && !bytes_lt(files[p].uploaded_at.as_str().as_bytes(), key)
                invariant
                    p <= files@.len(),
                    key@ == upload_time_key(item),
                    forall|q: int| 0 <= q < p ==> !bytes_less(upload_time_key(#[trigger] files@[q]), key@),
                decreases files@.len() - p,
            {
                p = p + 1;
            }
            let ghost before = files@;
            let ghost item_g = item;
            proof {
                assert forall|q: int| p <= q < before.len() implies !bytes_less(
                    key@,
                    upload_time_key(#[trigger] before[q]),
                ) by {
                    let kp = upload_time_key(before[p as int]);
                    let kq = upload_time_key(before[q]);
                    assert(bytes_less(kp, key@));
                    lemma_bytes_less_irreflexive(key@);
                    if q > p {
                        assert(!bytes_less(kp, kq));
                        lemma_bytes_less_total(kp, kq);
                        if bytes_less(key@, kq) {
                            if kq == kp {
                                lemma_bytes_less_asymmetric(kp, key@);
                            } else {
                                lemma_bytes_less_transitive(key@, kq, kp);
                                lemma_bytes_less_asymmetric(kp, key@);
                            }
                        }
                    } else {
                        lemma_bytes_less_asymmetric(kp, key@);
                    }
                }
            }
            proof {
                assert forall|q: int| p <= q < before.len() implies upload_time_key(#[trigger] before[q]) != key@ by {
                    let kp = upload_time_key(before[p as int]);
                    assert(bytes_less(kp, key@));
                    lemma_bytes_less_irreflexive(key@);
                    if q > p {
                        assert(!bytes_less(kp, upload_time_key(before[q])));
                    }
                }
            }
            let ghost old_origin = origin;
            files.insert(p, item);
            proof {
                origin = old_origin.insert(p as int, done.len() as int);
                let newdone = done.push(described(records@[i as int]));
                assert forall|a: int| 0 <= a < files@.len() implies 0 <= #[trigger] origin[a] < newdone.len()
                    && files@[a] == newdone[origin[a]] by {
                    if a < p {
                        assert(origin[a] == old_origin[a] && files@[a] == before[a]);
                    } else if a > p {
                        assert(origin[a] == old_origin[a - 1] && files@[a] == before[a - 1]);
                    }
                }
                assert forall|a: int, b: int| 0 <= a < b < files@.len() implies #[trigger] origin[a]
                    != #[trigger] origin[b] by {
                    if a < p && b < p {
                        assert(origin[a] == old_origin[a] && origin[b] == old_origin[b]);
                    } else if a < p && b == p {
                        assert(origin[a] == old_origin[a]);
                    } else if a < p && b > p {
                        assert(origin[a] == old_origin[a] && origin[b] == old_origin[b - 1]);
                    } else if a == p {
                        assert(origin[b] == old_origin[b - 1]);
                    } else {
                        assert(origin[a] == old_origin[a - 1] && origin[b] == old_origin[b - 1]);
                    }
                }
                assert forall|a: int, b: int|
                    0 <= a < b < files@.len() && upload_time_key(#[trigger] files@[a]) == upload_time_key(
                        #[trigger] files@[b],
                    ) implies origin[a] < origin[b] by {
                    if a < p && b < p {
                        assert(origin[a] == old_origin[a] && origin[b] == old_origin[b]);
                        assert(files@[a] == before[a] && files@[b] == before[b]);
                    } else if a < p && b == p {
                        assert(origin[a] == old_origin[a]);
                    } else if a < p && b > p {
                        assert(origin[a] == old_origin[a] && origin[b] == old_origin[b - 1]);
                        assert(files@[a] == before[a] && files@[b] == before[b - 1]);
                    } else if a == p {
                        assert(files@[b] == before[b - 1]);
                    } else {
                        assert(origin[a] == old_origin[a - 1] && origin[b] == old_origin[b - 1]);
                        assert(files@[a] == before[a - 1] && files@[b] == before[b - 1]);
                    }
                }
            }
            proof {
                assert forall|a: int, b: int| 0 <= a < b < files@.len() implies !bytes_less(
                    upload_time_key(#[trigger] files@[a]),
                    upload_time_key(#[trigger] files@[b]),
                ) by {
                    if a < p && b < p {
                        assert(files@[a] == before[a] && files@[b] == before[b]);
                    } else if a < p && b == p {
                        assert(files@[a] == before[a]);
                    } else if a < p && b > p {
                        assert(files@[a] == before[a] && files@[b] == before[b - 1]);
                    } else if a == p {
                        assert(files@[b] == before[b - 1]);
                    } else {
                        assert(files@[a] == before[a - 1] && files@[b] == before[b - 1]);
                    }
                }
                assert(finalized_files(prefix) == done.push(described(records@[i as int])));
                assert(files@ == before.insert(p as int, item_g));
                vstd::seq_lib::to_multiset_insert(before, p as int, item_g);
                vstd::seq_lib::to_multiset_build(done, item_g);
                assert(keeps_listed_order(files@, finalized_files(prefix), origin));
            }
        }
        i = i + 1;
    }
    assert(records@.subrange(0, records@.len() as int) =~= records@);
    assert(keeps_listed_order(files@, finalized_files(records@), origin));
    files
}

} // verus!
