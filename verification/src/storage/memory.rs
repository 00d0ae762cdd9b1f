//! An in-memory storage backend. It runs the same decisions as the local
//! backend, over records and data held in memory, and so states the
//! lifecycle of an upload (create, append, finalize, abort, delete) whole.
use vstd::prelude::*;
use vstd::hash_map::StringHashMap;
use crate::digest::{hex_lower, sha256, StreamingChecksum};
use crate::storage::local::{is_utc_rfc3339_text, append_outcome, file_name_check, LocalStorage, MetaRecord};
use crate::storage::uploads::{after_chunk, is_stale, without_stale, InFlightView, UploadRegistry};
use crate::storage::{FileMetadata, StorageError};
use crate::interceptor::is_uuid_v7_text;

verus! {

/// What the store holds: the metadata records and the data by file ID, the
/// in-flight uploads, and the size limit.
pub ghost struct StoreView {
    pub records: Map<Seq<char>, MetaRecord>,
    pub data: Map<Seq<char>, Seq<u8>>,
    pub inflight: Map<Seq<char>, InFlightView>,
    pub max_file_size: u64,
}

/// The invariant of the store: records and data exist together, each record
/// is filed under its own ID, and the running checksum of an upload covers
/// exactly the data stored for it.
pub open spec fn consistent(v: StoreView) -> bool {
    &&& v.records.dom() == v.data.dom()
    &&& forall|k: Seq<char>| #[trigger] v.records.contains_key(k) ==> v.records[k].file_id@ == k
    &&& forall|k: Seq<char>|
        #[trigger] v.inflight.contains_key(k) && v.records.contains_key(k) ==> v.inflight[k].0 == v.data[k]
}

/// The store once the upload `id` has been created with the record `rec` at
/// `now_ns`: an empty data file and a checksum over nothing yet.
pub open spec fn created(v: StoreView, id: Seq<char>, rec: MetaRecord, now_ns: u64) -> StoreView {
    StoreView {
        records: v.records.insert(id, rec),
        data: v.data.insert(id, Seq::empty()),
        inflight: v.inflight.insert(id, (Seq::empty(), now_ns)),
        ..v
    }
}

/// The store once `chunk` has been appended to `id`.
pub open spec fn appended(v: StoreView, id: Seq<char>, chunk: Seq<u8>) -> StoreView {
    StoreView { data: v.data.insert(id, v.data[id] + chunk), inflight: after_chunk(v.inflight, id, chunk), ..v }
}

/// The store once `chunks` have been appended to `id`, in order.
pub open spec fn appended_all(v: StoreView, id: Seq<char>, chunks: Seq<Seq<u8>>) -> StoreView
    decreases chunks.len(),
{
    if chunks.len() == 0 {
        v
    } else {
        appended_all(appended(v, id, chunks[0]), id, chunks.drop_first())
    }
}

/// The store once `id` has been aborted: no record, data or checksum.
pub open spec fn aborted(v: StoreView, id: Seq<char>) -> StoreView {
    StoreView { records: v.records.remove(id), data: v.data.remove(id), inflight: v.inflight.remove(id), ..v }
}

/// The store once `id` has been deleted: no record or data.
pub open spec fn deleted(v: StoreView, id: Seq<char>) -> StoreView {
    StoreView { records: v.records.remove(id), data: v.data.remove(id), ..v }
}

/// Whether `id` is visible to readers: its upload has been finalized.
pub open spec fn visible(v: StoreView, id: Seq<char>) -> bool {
    v.records.contains_key(id) && v.records[id].finalized
}

/// The size and checksum that finalizing `id` reports: those of its data.
pub open spec fn finalize_report(v: StoreView, id: Seq<char>) -> (nat, Seq<char>) {
    (v.data[id].len(), hex_lower(sha256(v.data[id])))
}

/// Whether `m` publishes the record `r`.
pub open spec fn describes(m: FileMetadata, r: MetaRecord) -> bool {
    &&& m.file_id@ == r.file_id@
    &&& m.file_name@ == r.file_name@
    &&& m.content_type@ == r.content_type@
    &&& m.size_bytes == r.size_bytes
    &&& m.sha256_checksum@ == r.sha256_checksum@
    &&& m.uploaded_at@ == r.uploaded_at@
}

/// Whether `new` is the store once `id` has been finalized in `old`: its
/// record now holds the size and checksum of its data, a UTC time stamp and
/// the finalized mark; the running checksum is gone; the data is untouched.
pub open spec fn finalized_in(old: StoreView, new: StoreView, id: Seq<char>) -> bool {
    let rec = old.records[id];
    let done = new.records[id];
    &&& new.records == old.records.insert(id, done)
    &&& new.data == old.data
    &&& new.inflight == old.inflight.remove(id)
    &&& new.max_file_size == old.max_file_size
    &&& done.file_id == rec.file_id
    &&& done.file_name == rec.file_name
    &&& done.content_type == rec.content_type
    &&& done.size_bytes == finalize_report(old, id).0
    &&& done.sha256_checksum@ == finalize_report(old, id).1
    &&& done.sha256_checksum@.len() == 64
    &&& is_utc_rfc3339_text(done.uploaded_at@)
    &&& done.finalized
}

/// The contents of each data buffer.
pub open spec fn data_contents(m: Map<Seq<char>, Vec<u8>>) -> Map<Seq<char>, Seq<u8>> {
    m.map_values(|d: Vec<u8>| d@)
}

/// Creating an upload under the ID its record carries keeps the store
/// consistent.
pub proof fn law_create_keeps_consistent(v: StoreView, id: Seq<char>, rec: MetaRecord, now_ns: u64)
    requires
        consistent(v),
        rec.file_id@ == id,
    ensures
        consistent(created(v, id, rec, now_ns)),
{
    let w = created(v, id, rec, now_ns);
    assert(w.records.dom() =~= w.data.dom());
}

/// Appending to an existing upload keeps the store consistent.
pub proof fn law_append_keeps_consistent(v: StoreView, id: Seq<char>, chunk: Seq<u8>)
    requires
        consistent(v),
        v.records.contains_key(id),
    ensures
        consistent(appended(v, id, chunk)),
{
    let w = appended(v, id, chunk);
    assert(w.records.dom() =~= w.data.dom());
}

/// Finalizing an existing upload keeps the store consistent.
pub proof fn law_finalize_keeps_consistent(v: StoreView, w: StoreView, id: Seq<char>)
    requires
        consistent(v),
        v.records.contains_key(id),
        finalized_in(v, w, id),
    ensures
        consistent(w),
{
    assert(w.records.dom() =~= w.data.dom());
}

/// Aborting keeps the store consistent.
pub proof fn law_abort_keeps_consistent(v: StoreView, id: Seq<char>)
    requires
        consistent(v),
    ensures
        consistent(aborted(v, id)),
{
    let w = aborted(v, id);
    assert(w.records.dom() =~= w.data.dom());
}

/// Deleting keeps the store consistent.
pub proof fn law_delete_keeps_consistent(v: StoreView, id: Seq<char>)
    requires
        consistent(v),
    ensures
        consistent(deleted(v, id)),
{
    let w = deleted(v, id);
    assert(w.records.dom() =~= w.data.dom());
}

/// Evicting stale uploads keeps the store consistent.
pub proof fn law_evict_keeps_consistent(v: StoreView, now_ns: u64, ttl_ns: u64)
    requires
        consistent(v),
    ensures
        consistent(StoreView { inflight: without_stale(v.inflight, now_ns, ttl_ns), ..v }),
{
}

/// Appending `chunks` in order to an upload extends its data and its running
/// checksum by their concatenation, and touches nothing else.
proof fn lemma_appended_all(v: StoreView, id: Seq<char>, chunks: Seq<Seq<u8>>)
    requires
        v.data.contains_key(id),
        v.inflight.contains_key(id),
    ensures
        appended_all(v, id, chunks).records == v.records,
        appended_all(v, id, chunks).max_file_size == v.max_file_size,
        appended_all(v, id, chunks).data == v.data.insert(id, v.data[id] + chunks.flatten()),
        appended_all(v, id, chunks).inflight == v.inflight.insert(
            id,
            (v.inflight[id].0 + chunks.flatten(), v.inflight[id].1),
        ),
    decreases chunks.len(),
{
    if chunks.len() == 0 {
        assert(v.data[id] + chunks.flatten() =~= v.data[id]);
        assert(v.inflight[id].0 + chunks.flatten() =~= v.inflight[id].0);
        assert(v.data.insert(id, v.data[id]) =~= v.data);
        assert(v.inflight.insert(id, (v.inflight[id].0, v.inflight[id].1)) =~= v.inflight);
    } else {
        let w = appended(v, id, chunks[0]);
        lemma_appended_all(w, id, chunks.drop_first());
        assert(w.data[id] + chunks.drop_first().flatten() =~= v.data[id] + chunks.flatten());
        assert(w.inflight[id].0 + chunks.drop_first().flatten() =~= v.inflight[id].0 + chunks.flatten());
        assert(w.data.insert(id, w.data[id] + chunks.drop_first().flatten()) =~= v.data.insert(
            id,
            v.data[id] + chunks.flatten(),
        ));
        assert(w.inflight.insert(id, (w.inflight[id].0 + chunks.drop_first().flatten(), w.inflight[id].1))
            =~= v.inflight.insert(id, (v.inflight[id].0 + chunks.flatten(), v.inflight[id].1)));
    }
}

/// Finalizing an upload created and then fed `chunks` reports the size and
/// the SHA-256 of their concatenation: the bytes that were uploaded, both as
/// stored and as the running checksum saw them. Until then the upload stays
/// hidden.
pub proof fn law_finalize_reports_uploaded_bytes(
    v: StoreView,
    id: Seq<char>,
    rec: MetaRecord,
    now_ns: u64,
    chunks: Seq<Seq<u8>>,
)
    ensures
        ({
            let w = appended_all(created(v, id, rec, now_ns), id, chunks);
            &&& w.records.contains_key(id)
            &&& w.records[id] == rec
            &&& w.data[id] == chunks.flatten()
            &&& w.inflight[id].0 == chunks.flatten()
            &&& finalize_report(w, id) == (chunks.flatten().len(), hex_lower(sha256(chunks.flatten())))
            &&& !rec.finalized ==> !visible(w, id)
        }),
{
    let c = created(v, id, rec, now_ns);
    lemma_appended_all(c, id, chunks);
    assert(Seq::<u8>::empty() + chunks.flatten() =~= chunks.flatten());
}

/// Creating an upload, appending `chunks` to it and finalizing it, in one
/// piece: the finalized record keeps the upload's ID, name and content type,
/// holds the size and the 64-digit SHA-256 of the concatenated chunks, is
/// stamped in UTC and is visible; so is any metadata that describes it.
pub proof fn law_finalize_after_appends(
    v: StoreView,
    id: Seq<char>,
    rec: MetaRecord,
    now_ns: u64,
    chunks: Seq<Seq<u8>>,
    w: StoreView,
    m: FileMetadata,
)
    requires
        finalized_in(appended_all(created(v, id, rec, now_ns), id, chunks), w, id),
        describes(m, w.records[id]),
    ensures
        visible(w, id),
        w.data[id] == chunks.flatten(),
        w.records[id].file_id == rec.file_id,
        m.file_name@ == rec.file_name@,
        m.content_type@ == rec.content_type@,
        m.size_bytes == chunks.flatten().len(),
        m.sha256_checksum@ == hex_lower(sha256(chunks.flatten())),
        m.sha256_checksum@.len() == 64,
        is_utc_rfc3339_text(m.uploaded_at@),
{
    law_finalize_reports_uploaded_bytes(v, id, rec, now_ns, chunks);
}

/// In a consistent store, the running checksum of an upload covers exactly
/// its stored data, so finalizing by the running checksum and by hashing the
/// stored data again give the same text.
pub proof fn law_streamed_checksum_matches_stored(v: StoreView, id: Seq<char>)
    requires
        consistent(v),
        v.records.contains_key(id),
        v.inflight.contains_key(id),
    ensures
        hex_lower(sha256(v.inflight[id].0)) == finalize_report(v, id).1,
{
}

/// Finalizing twice with nothing in between reports the same file: the
/// second record differs from the first at most in its time stamp.
pub proof fn law_second_finalize_same_report(v0: StoreView, v1: StoreView, v2: StoreView, id: Seq<char>)
    requires
        v0.records.contains_key(id),
        finalized_in(v0, v1, id),
        finalized_in(v1, v2, id),
    ensures
        finalize_report(v2, id) == finalize_report(v0, id),
        v2.records[id].file_id == v1.records[id].file_id,
        v2.records[id].file_name == v1.records[id].file_name,
        v2.records[id].content_type == v1.records[id].content_type,
        v2.records[id].size_bytes == v1.records[id].size_bytes,
        v2.records[id].sha256_checksum@ == v1.records[id].sha256_checksum@,
        v2.records[id].finalized,
        v2.data == v0.data,
{
}

/// A newly created upload is hidden from readers.
pub proof fn law_created_upload_hidden(
    v: StoreView,
    id: Seq<char>,
    rec: MetaRecord,
    now_ns: u64,
    file_name: Seq<char>,
    content_type: Seq<char>,
)
    requires
        rec.is_fresh_upload(file_name, content_type),
    ensures
        !visible(created(v, id, rec, now_ns), id),
{
}

/// Once finalized, an upload is visible, and any metadata read back for it
/// is the metadata that finalizing returned.
pub proof fn law_metadata_after_finalize(v: StoreView, w: StoreView, id: Seq<char>, from_finalize: FileMetadata, read_back: FileMetadata)
    requires
        finalized_in(v, w, id),
        describes(from_finalize, w.records[id]),
        describes(read_back, w.records[id]),
    ensures
        visible(w, id),
        read_back.file_id@ == from_finalize.file_id@,
        read_back.file_name@ == from_finalize.file_name@,
        read_back.content_type@ == from_finalize.content_type@,
        read_back.size_bytes == from_finalize.size_bytes,
        read_back.sha256_checksum@ == from_finalize.sha256_checksum@,
        read_back.uploaded_at@ == from_finalize.uploaded_at@,
{
}

/// Aborting leaves no record, data or checksum of the upload, hides it,
/// changes no other file, and aborting again changes nothing.
pub proof fn law_abort_removes_upload(v: StoreView, id: Seq<char>, other: Seq<char>)
    requires
        other != id,
    ensures
        !aborted(v, id).records.contains_key(id),
        !aborted(v, id).data.contains_key(id),
        !aborted(v, id).inflight.contains_key(id),
        !visible(aborted(v, id), id),
        aborted(aborted(v, id), id) == aborted(v, id),
        aborted(v, id).records.contains_key(other) == v.records.contains_key(other),
        aborted(v, id).records[other] == v.records[other],
        aborted(v, id).data.contains_key(other) == v.data.contains_key(other),
        aborted(v, id).data[other] == v.data[other],
        aborted(v, id).inflight.contains_key(other) == v.inflight.contains_key(other),
        aborted(v, id).inflight[other] == v.inflight[other],
{
    let w = aborted(v, id);
    assert(w.records.remove(id) =~= w.records);
    assert(w.data.remove(id) =~= w.data);
    assert(w.inflight.remove(id) =~= w.inflight);
}

/// Deleting leaves no record or data of the file, so it is hidden and a
/// second delete finds nothing; no other file changes.
pub proof fn law_delete_removes_file(v: StoreView, id: Seq<char>, other: Seq<char>)
    requires
        other != id,
    ensures
        !deleted(v, id).records.contains_key(id),
        !deleted(v, id).data.contains_key(id),
        !visible(deleted(v, id), id),
        deleted(v, id).records.contains_key(other) == v.records.contains_key(other),
        deleted(v, id).records[other] == v.records[other],
        deleted(v, id).data.contains_key(other) == v.data.contains_key(other),
        deleted(v, id).data[other] == v.data[other],
{
}

/// Evicting stale uploads changes no record or stored data, so every later
/// finalize reports what it would have; uploads that are not stale keep
/// their running checksum.
pub proof fn law_eviction_keeps_files(v: StoreView, now_ns: u64, ttl_ns: u64, id: Seq<char>)
    ensures
        ({
            let w = StoreView { inflight: without_stale(v.inflight, now_ns, ttl_ns), ..v };
            &&& w.records == v.records
            &&& w.data == v.data
            &&& finalize_report(w, id) == finalize_report(v, id)
            &&& visible(w, id) == visible(v, id)
            &&& (v.inflight.contains_key(id) && !is_stale(v.inflight[id].1, now_ns, ttl_ns)) ==> w.inflight.contains_key(id)
                && w.inflight[id] == v.inflight[id]
            &&& (v.inflight.contains_key(id) && is_stale(v.inflight[id].1, now_ns, ttl_ns)) ==> !w.inflight.contains_key(id)
        }),
{
}

/// Storage held in memory.
pub struct MemoryStorage {
    settings: LocalStorage,
    records: StringHashMap<MetaRecord>,
    data: StringHashMap<Vec<u8>>,
    uploads: UploadRegistry,
}

/// What a store made of these parts holds.
spec fn parts_view(
    settings: LocalStorage,
    records: StringHashMap<MetaRecord>,
    data: StringHashMap<Vec<u8>>,
    uploads: UploadRegistry,
) -> StoreView {
    StoreView {
        records: records@,
        data: data_contents(data@),
        inflight: uploads@,
        max_file_size: settings.spec_max_file_size(),
    }
}

impl View for MemoryStorage {
    type V = StoreView;

    closed spec fn view(&self) -> StoreView {
        parts_view(self.settings, self.records, self.data, self.uploads)
    }
}

impl MemoryStorage {
    #[verifier::type_invariant]
    closed spec fn well_formed(self) -> bool {
        consistent(self@)
    }

    /// An empty store accepting files of at most `max_file_size` bytes.
    pub fn new(max_file_size: u64) -> (s: MemoryStorage)
        ensures
            s@.records == Map::<Seq<char>, MetaRecord>::empty(),
            s@.data == Map::<Seq<char>, Seq<u8>>::empty(),
            s@.inflight == Map::<Seq<char>, InFlightView>::empty(),
            s@.max_file_size == max_file_size,
    {
        let settings = LocalStorage::new(String::new(), max_file_size);
        let records: StringHashMap<MetaRecord> = StringHashMap::new();
        let data: StringHashMap<Vec<u8>> = StringHashMap::new();
        let uploads = UploadRegistry::new();
        proof {
            assert(data_contents(data@) =~= Map::<Seq<char>, Seq<u8>>::empty());
            assert(records@.dom() =~= data_contents(data@).dom());
        }
        MemoryStorage { settings, records, data, uploads }
    }

    /// Takes the store's parts out, leaving an empty store behind.
    fn take_parts(&mut self) -> (parts: (LocalStorage, StringHashMap<MetaRecord>, StringHashMap<Vec<u8>>, UploadRegistry))
        ensures
            consistent(old(self)@),
            parts_view(parts.0, parts.1, parts.2, parts.3) == old(self)@,
    {
        proof { use_type_invariant(&*self); }
        let mut taken = MemoryStorage::new(0);
        std::mem::swap(self, &mut taken);
        let MemoryStorage { settings, records, data, uploads } = taken;
        (settings, records, data, uploads)
    }

    /// Begins an upload of `file_name` at `now_ns` (nanoseconds on a
    /// monotonic clock): checks the name, then files an unfinalized record
    /// and empty data under a fresh UUID v7.
    pub fn create(&mut self, file_name: &str, content_type: &str, now_ns: u64) -> (r: Result<String, StorageError>)
        ensures
            match (r, file_name_check(file_name@)) {
                (Ok(id), Ok(())) => {
                    &&& is_uuid_v7_text(id@)
                    &&& final(self)@ == created(old(self)@, id@, final(self)@.records[id@], now_ns)
                    &&& final(self)@.records[id@].file_id@ == id@
                    &&& final(self)@.records[id@].is_fresh_upload(file_name@, content_type@)
                },
                (Err(StorageError::InvalidFileName(m)), Err(n)) => m@ == n && final(self)@ == old(self)@,
                _ => false,
            },
    {
        let rec = match self.settings.begin_record(file_name, content_type) {
            Ok(rec) => rec,
            Err(e) => return Err(e),
        };
        let (settings, mut records, mut data, mut uploads) = self.take_parts();
        let ghost old_view = old(self)@;
        let ghost rec_g = rec;
        let id = rec.file_id.clone();
        records.insert(id.clone(), rec);
        data.insert(id.clone(), Vec::new());
        uploads.begin(id.clone(), now_ns);
        proof {
            assert(data_contents(data@) =~= old_view.data.insert(id@, Seq::empty()));
            assert(parts_view(settings, records, data, uploads) == created(old_view, id@, rec_g, now_ns));
            law_create_keeps_consistent(old_view, id@, rec_g, now_ns);
        }
        *self = MemoryStorage { settings, records, data, uploads };
        Ok(id)
    }

    /// Appends `chunk` to the upload `file_id`, unless the file would grow
    /// past the limit; a refused chunk leaves the store as it was.
    pub fn append(&mut self, file_id: &str, chunk: &[u8]) -> (r: Result<(), StorageError>)
        ensures
            !old(self)@.records.contains_key(file_id@) ==> (r matches Err(StorageError::NotFound(id)) && id@
                == file_id@ && final(self)@ == old(self)@),
            old(self)@.records.contains_key(file_id@) ==> match append_outcome(
                old(self)@.data[file_id@].len() as u64,
                chunk@.len() as u64,
                old(self)@.max_file_size,
            ) {
                Ok(_) => r is Ok && final(self)@ == appended(old(self)@, file_id@, chunk@),
                Err((s, l)) => (r matches Err(StorageError::TooLarge { size, limit }) && size == s && limit == l)
                    && final(self)@ == old(self)@,
            },
    {
        proof { use_type_invariant(&*self); }
        if !self.records.contains_key(file_id) {
            return Err(StorageError::NotFound(String::from_str(file_id)));
        }
        let current: u64 = match self.data.get(file_id) {
            Some(d) => d.len() as u64,
            None => 0,
        };
        match self.settings.check_append(current, chunk.len() as u64) {
            Err(e) => return Err(e),
            Ok(_) => {},
        }
        let (settings, records, mut data, mut uploads) = self.take_parts();
        let ghost old_view = old(self)@;
        let mut grown: Vec<u8> = Vec::new();
        match data.get(file_id) {
            Some(d) => grown.extend_from_slice(d.as_slice()),
            None => {},
        }
        grown.extend_from_slice(chunk);
        proof {
            assert(grown@ =~= old_view.data[file_id@] + chunk@);
        }
        data.insert(String::from_str(file_id), grown);
        uploads.record_chunk(file_id, chunk);
        proof {
            assert(data_contents(data@) =~= old_view.data.insert(file_id@, old_view.data[file_id@] + chunk@));
            assert(parts_view(settings, records, data, uploads) == appended(old_view, file_id@, chunk@));
            law_append_keeps_consistent(old_view, file_id@, chunk@);
        }
        *self = MemoryStorage { settings, records, data, uploads };
        Ok(())
    }

    /// Finalizes `file_id`: its record gets the size and SHA-256 of its data,
    /// taken from the running checksum, or computed over the stored data when
    /// there is none (both agree), and a UTC time stamp.
    pub fn finalize(&mut self, file_id: &str) -> (r: Result<FileMetadata, StorageError>)
        ensures
            !old(self)@.records.contains_key(file_id@) ==> (r matches Err(StorageError::NotFound(id)) && id@
                == file_id@ && final(self)@ == old(self)@),
            old(self)@.records.contains_key(file_id@) ==> (r matches Ok(m) && describes(
                m,
                final(self)@.records[file_id@],
            ) && finalized_in(old(self)@, final(self)@, file_id@)),
    {
        if !self.records.contains_key(file_id) {
            return Err(StorageError::NotFound(String::from_str(file_id)));
        }
        let (settings, mut records, data, mut uploads) = self.take_parts();
        let ghost old_view = old(self)@;
        let rec = match records.get(file_id) {
            Some(r) => r.duplicate(),
            None => return Err(StorageError::NotFound(String::from_str(file_id))),
        };
        let stored: &[u8] = match data.get(file_id) {
            Some(d) => d.as_slice(),
            None => &[],
        };
        proof {
            assert(stored@ == old_view.data[file_id@]);
        }
        let checksum = match uploads.take_checksum(file_id) {
            Some(c) => c,
            None => {
                let mut c = StreamingChecksum::new();
                c.feed(stored);
                proof {
                    assert(c@ =~= stored@);
                }
                c.finish_hex()
            },
        };
        let size = stored.len() as u64;
        let done = rec.completed_now(size, checksum);
        let meta = done.describe_as(file_id);
        let ghost done_g = done;
        records.insert(String::from_str(file_id), done);
        proof {
            let w = parts_view(settings, records, data, uploads);
            assert(w.records == old_view.records.insert(file_id@, done_g));
            assert(finalized_in(old_view, w, file_id@));
            law_finalize_keeps_consistent(old_view, w, file_id@);
        }
        *self = MemoryStorage { settings, records, data, uploads };
        Ok(meta)
    }

    /// Aborts `file_id`: drops its record, data and running checksum,
    /// whatever state it was in.
    pub fn abort(&mut self, file_id: &str) -> (r: Result<(), StorageError>)
        ensures
            r is Ok,
            final(self)@ == aborted(old(self)@, file_id@),
    {
        let (settings, mut records, mut data, mut uploads) = self.take_parts();
        let ghost old_view = old(self)@;
        uploads.forget(file_id);
        records.remove(file_id);
        data.remove(file_id);
        proof {
            assert(data_contents(data@) =~= old_view.data.remove(file_id@));
            assert(parts_view(settings, records, data, uploads) == aborted(old_view, file_id@));
            law_abort_keeps_consistent(old_view, file_id@);
        }
        *self = MemoryStorage { settings, records, data, uploads };
        Ok(())
    }

    /// Deletes `file_id`: its record and data, if it has a record.
    pub fn delete(&mut self, file_id: &str) -> (r: Result<(), StorageError>)
        ensures
            !old(self)@.records.contains_key(file_id@) ==> (r matches Err(StorageError::NotFound(id)) && id@
                == file_id@ && final(self)@ == old(self)@),
            old(self)@.records.contains_key(file_id@) ==> r is Ok && final(self)@ == deleted(old(self)@, file_id@),
    {
        if !self.records.contains_key(file_id) {
            return Err(StorageError::NotFound(String::from_str(file_id)));
        }
        let (settings, mut records, mut data, uploads) = self.take_parts();
        let ghost old_view = old(self)@;
        records.remove(file_id);
        data.remove(file_id);
        proof {
            assert(data_contents(data@) =~= old_view.data.remove(file_id@));
            assert(parts_view(settings, records, data, uploads) == deleted(old_view, file_id@));
            law_delete_keeps_consistent(old_view, file_id@);
        }
        *self = MemoryStorage { settings, records, data, uploads };
        Ok(())
    }

    /// The metadata of `file_id`, once its upload is finalized.
    pub fn metadata(&self, file_id: &str) -> (r: Result<FileMetadata, StorageError>)
        ensures
            visible(self@, file_id@) ==> (r matches Ok(m) && describes(m, self@.records[file_id@])),
            !visible(self@, file_id@) ==> (r matches Err(StorageError::NotFound(id)) && id@ == file_id@),
    {
        match self.records.get(file_id) {
            Some(rec) => if rec.finalized {
                Ok(rec.describe())
            } else {
                Err(StorageError::NotFound(String::from_str(file_id)))
            },
            None => Err(StorageError::NotFound(String::from_str(file_id))),
        }
    }

    /// The stored bytes of `file_id`, once its upload is finalized.
    pub fn read(&self, file_id: &str) -> (r: Result<Vec<u8>, StorageError>)
        ensures
            visible(self@, file_id@) ==> (r matches Ok(d) && d@ == self@.data[file_id@]),
            !visible(self@, file_id@) ==> (r matches Err(StorageError::NotFound(id)) && id@ == file_id@),
    {
        proof { use_type_invariant(self); }
        match self.metadata(file_id) {
            Err(e) => Err(e),
            Ok(_) => {
                let mut out: Vec<u8> = Vec::new();
                match self.data.get(file_id) {
                    Some(d) => out.extend_from_slice(d.as_slice()),
                    None => {},
                }
                proof {
                    assert(out@ =~= self@.data[file_id@]);
                }
                Ok(out)
            },
        }
    }

    /// Drops the running checksums of uploads open longer than `ttl_ns` at
    /// `now_ns`; records and data stay as they are. Returns the dropped IDs.
    pub fn evict_stale(&mut self, now_ns: u64, ttl_ns: u64) -> (evicted: Vec<String>)
        ensures
            final(self)@ == (StoreView { inflight: without_stale(old(self)@.inflight, now_ns, ttl_ns), ..old(self)@ }),
    {
        let (settings, records, data, mut uploads) = self.take_parts();
        let ghost old_view = old(self)@;
        let evicted = uploads.evict_stale(now_ns, ttl_ns);
        proof {
            law_evict_keeps_consistent(old_view, now_ns, ttl_ns);
        }
        *self = MemoryStorage { settings, records, data, uploads };
        evicted
    }
}

} // verus!
