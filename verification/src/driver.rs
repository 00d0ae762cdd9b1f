//! The upload protocol run to its end over an in-memory store: the stream
//! of messages is at hand, and every storage call is made here.
use vstd::prelude::*;
use crate::digest::{hex_lower, sha256};
use crate::service::{storage_status, GrpcCode, GrpcStatus, GrpcUpload, UploadAction, UploadEvent, UploadMessage, UploadPhase, UploadResponse};
use crate::storage::local::{append_outcome, file_name_check};
use crate::storage::StorageError;
use crate::storage::memory::{appended, created, visible, MemoryStorage, StoreView};

verus! {

/// A message as the stream delivered it, or the stream's failure.
pub type Delivered = Result<UploadMessage, String>;

/// The bytes that the chunk messages among `msgs` carry, in order.
pub open spec fn chunk_bytes(msgs: Seq<Delivered>) -> Seq<u8>
    decreases msgs.len(),
{
    if msgs.len() == 0 {
        Seq::empty()
    } else {
        chunk_bytes(msgs.drop_last()) + match msgs.last() {
            Ok(UploadMessage::Chunk(d)) => d@,
            _ => Seq::<u8>::empty(),
        }
    }
}

/// Whether the message at `i` was delivered and carries data (a chunk or nothing).
pub open spec fn carries_data(msgs: Seq<Delivered>, i: int) -> bool {
    msgs[i] matches Ok(m) && !(m is Metadata)
}

/// Whether `msgs` make a complete upload: a metadata message with an
/// acceptable file name first, then only data, all delivered, and no more
/// bytes than `limit`.
pub open spec fn upload_accepted(msgs: Seq<Delivered>, limit: u64) -> bool {
    &&& msgs.len() > 0
    &&& msgs[0] matches Ok(UploadMessage::Metadata { file_name, .. }) && file_name_check(file_name@) is Ok
    &&& forall|i: int| 1 <= i < msgs.len() ==> #[trigger] carries_data(msgs, i)
    &&& chunk_bytes(msgs).len() <= limit
}

/// The status that refuses the stream `msgs` from its message at `i` on:
/// that of the first message that fails, is metadata, or carries a chunk
/// that would take the upload past `limit`. A stream with none of these is
/// not refused, and the value is then of no use.
pub open spec fn refusal_from(msgs: Seq<Delivered>, i: int, limit: u64) -> (GrpcCode, Seq<char>)
    decreases msgs.len() - i,
{
    if i < 0 || i >= msgs.len() {
        (GrpcCode::Internal, Seq::empty())
    } else {
        match msgs[i] {
            Err(e) => (GrpcCode::Internal, e@),
            Ok(UploadMessage::Metadata { .. }) => (
                GrpcCode::InvalidArgument,
                "metadata must only be sent as first message"@,
            ),
            Ok(UploadMessage::Chunk(d)) => match append_outcome(
                chunk_bytes(msgs.subrange(0, i)).len() as u64,
                d@.len() as u64,
                limit,
            ) {
                Err((size, l)) => storage_status(StorageError::TooLarge { size, limit: l }),
                Ok(_) => refusal_from(msgs, i + 1, limit),
            },
            Ok(UploadMessage::Empty) => refusal_from(msgs, i + 1, limit),
        }
    }
}

/// The status a refused upload of `msgs` is answered with, by what goes
/// wrong first: the stream is empty or fails at once, its first message is
/// not metadata, the file name is refused, or a later message is refused.
pub open spec fn upload_refusal(msgs: Seq<Delivered>, limit: u64) -> (GrpcCode, Seq<char>) {
    if msgs.len() == 0 {
        (GrpcCode::InvalidArgument, "empty upload stream"@)
    } else {
        match msgs[0] {
            Err(e) => (GrpcCode::Internal, e@),
            Ok(UploadMessage::Metadata { file_name, .. }) => match file_name_check(file_name@) {
                Err(reason) => (GrpcCode::InvalidArgument, reason),
                Ok(()) => refusal_from(msgs, 1, limit),
            },
            Ok(_) => (GrpcCode::InvalidArgument, "first message must be metadata"@),
        }
    }
}

/// The store `c` once the upload `id` holds `bytes`, all fed to its checksum.
spec fn fed(c: StoreView, id: Seq<char>, bytes: Seq<u8>) -> StoreView {
    StoreView {
        data: c.data.insert(id, bytes),
        inflight: c.inflight.insert(id, (bytes, c.inflight[id].1)),
        ..c
    }
}

proof fn lemma_chunk_bytes_prefix(msgs: Seq<Delivered>, k: int)
    requires
        0 <= k <= msgs.len(),
    ensures
        chunk_bytes(msgs.subrange(0, k)).len() <= chunk_bytes(msgs).len(),
    decreases msgs.len(),
{
    if k < msgs.len() {
        assert(msgs.drop_last().subrange(0, k) =~= msgs.subrange(0, k));
        lemma_chunk_bytes_prefix(msgs.drop_last(), k);
    } else {
        assert(msgs.subrange(0, k) =~= msgs);
    }
}

proof fn lemma_chunk_bytes_step(msgs: Seq<Delivered>, k: int)
    requires
        0 <= k < msgs.len(),
    ensures
        chunk_bytes(msgs.subrange(0, k + 1)) == chunk_bytes(msgs.subrange(0, k)) + match msgs[k] {
            Ok(UploadMessage::Chunk(d)) => d@,
            _ => Seq::<u8>::empty(),
        },
{
    assert(msgs.subrange(0, k + 1).drop_last() =~= msgs.subrange(0, k));
}

proof fn lemma_fed_append(c: StoreView, id: Seq<char>, bytes: Seq<u8>, chunk: Seq<u8>)
    requires
        c.inflight.contains_key(id),
    ensures
        appended(fed(c, id, bytes), id, chunk) == fed(c, id, bytes + chunk),
{
    assert(appended(fed(c, id, bytes), id, chunk).data =~= fed(c, id, bytes + chunk).data);
    assert(appended(fed(c, id, bytes), id, chunk).inflight =~= fed(c, id, bytes + chunk).inflight);
}

proof fn lemma_removal_is_submap(start: StoreView, id: Seq<char>, now: StoreView)
    requires
        now.records == start.records.remove(id),
        now.data == start.data.remove(id),
    ensures
        now.records.submap_of(start.records),
        now.data.submap_of(start.data),
{
}

/// Runs one upload over `store`: reads `messages` in order, drives the
/// upload protocol, and makes the storage calls it asks for, `now_ns` being
/// the time of creation. The upload succeeds exactly when the messages make
/// a complete upload within the size limit; it then answers with the size
/// and SHA-256 of the uploaded bytes, which the store now holds, visible, and
/// nothing else changes. When it fails, nothing of it is left in the store.
pub fn upload_to_memory(store: &mut MemoryStorage, messages: Vec<Delivered>, now_ns: u64) -> (r: Result<
    UploadResponse,
    GrpcStatus,
>)
    ensures
        r is Ok <==> upload_accepted(messages@, old(store)@.max_file_size),
        r matches Ok(resp) ==> {
            let id = resp.file_id@;
            &&& resp.size_bytes == chunk_bytes(messages@).len()
            &&& resp.sha256_checksum@ == hex_lower(sha256(chunk_bytes(messages@)))
            &&& resp.sha256_checksum@.len() == 64
            &&& visible(final(store)@, id)
            &&& final(store)@.data[id] == chunk_bytes(messages@)
            &&& messages@[0] matches Ok(UploadMessage::Metadata { file_name, content_type })
                && final(store)@.records[id].file_name@ == file_name@
                && final(store)@.records[id].content_type@ == content_type@
            &&& final(store)@.records.remove(id) == old(store)@.records.remove(id)
            &&& final(store)@.data.remove(id) == old(store)@.data.remove(id)
        },
        r matches Err(s) ==> s.code == upload_refusal(messages@, old(store)@.max_file_size).0
            && s.message@ == upload_refusal(messages@, old(store)@.max_file_size).1,
        r is Err ==> final(store)@.records.submap_of(old(store)@.records) && final(store)@.data.submap_of(
            old(store)@.data,
        ),
{
    let ghost all = messages@;
    let ghost start = store@;
    let mut rest = messages;
    proof { assert(start == old(store)@); }
    let mut upload = GrpcUpload::new();
    let first = if rest.len() == 0 {
        UploadEvent::StreamEnded
    } else {
        match rest.remove(0) {
            Ok(m) => UploadEvent::Received(m),
            Err(e) => UploadEvent::StreamFailed(e),
        }
    };
    let (file_name, content_type) = match upload.step(first) {
        UploadAction::Create { file_name, content_type } => (file_name, content_type),
        UploadAction::Fail(status) => return Err(status),
        _ => {
            proof { assert(false); }
            return Err(GrpcStatus { code: GrpcCode::Internal, message: String::new() });
        },
    };
    proof {
        assert(all[0] matches Ok(UploadMessage::Metadata { file_name: n, content_type: c }) && n@ == file_name@
            && c@ == content_type@);
    }
    let created_res = store.create(&file_name, &content_type, now_ns);
    let id = match &created_res {
        Ok(id) => id.clone(),
        Err(_) => String::new(),
    };
    match upload.step(UploadEvent::Created(created_res)) {
        UploadAction::ReadNext => {},
        UploadAction::Fail(status) => return Err(status),
        _ => {
            proof { assert(false); }
            return Err(GrpcStatus { code: GrpcCode::Internal, message: String::new() });
        },
    }
    let ghost c0 = store@;
    let ghost limit = start.max_file_size;
    proof {
        assert(c0 == created(start, id@, c0.records[id@], now_ns));
        let s1 = all.subrange(0, 1);
        assert(s1.drop_last() =~= Seq::<Delivered>::empty());
        assert(s1.last() == all[0]);
        assert(chunk_bytes(s1.drop_last()) =~= Seq::<u8>::empty());
        assert(chunk_bytes(s1) =~= Seq::<u8>::empty());
        assert(fed(c0, id@, chunk_bytes(all.subrange(0, 1))) == c0) by {
            assert(fed(c0, id@, chunk_bytes(all.subrange(0, 1))).data =~= c0.data);
            assert(fed(c0, id@, chunk_bytes(all.subrange(0, 1))).inflight =~= c0.inflight);
        }
        assert(rest@ =~= all.subrange(1, all.len() as int));
    }
    loop
        invariant
            1 <= all.len(),
            all[0] matches Ok(UploadMessage::Metadata { file_name: n, content_type: c }) && file_name_check(n@) is Ok
                && c0.records[id@].file_name@ == n@ && c0.records[id@].content_type@ == c@,
            rest@.len() <= all.len() - 1,
            rest@ == all.subrange(all.len() - rest@.len(), all.len() as int),
            forall|i: int| 1 <= i < all.len() - rest@.len() ==> #[trigger] carries_data(all, i),
            upload.spec_phase() matches UploadPhase::Streaming { file_id } && file_id@ == id@,
            store@ == fed(c0, id@, chunk_bytes(all.subrange(0, all.len() - rest@.len()))),
            chunk_bytes(all.subrange(0, all.len() - rest@.len())).len() <= limit,
            c0 == created(start, id@, c0.records[id@], now_ns),
            c0.records[id@].file_id@ == id@,
            !c0.records[id@].finalized,
            limit == start.max_file_size,
            all == messages@,
            start == old(store)@,
            upload_refusal(all, limit) == refusal_from(all, all.len() - rest@.len(), limit),
        decreases rest@.len(),
    {
        let ghost k = all.len() - rest@.len();
        let ghost before = store@;
        let event = if rest.len() == 0 {
            UploadEvent::StreamEnded
        } else {
            match rest.remove(0) {
                Ok(m) => UploadEvent::Received(m),
                Err(e) => UploadEvent::StreamFailed(e),
            }
        };
        match upload.step(event) {
            UploadAction::ReadNext => {
                proof {
                    lemma_chunk_bytes_step(all, k);
                    assert(chunk_bytes(all.subrange(0, k)) + Seq::<u8>::empty() =~= chunk_bytes(all.subrange(0, k)));
                    assert(carries_data(all, k));
                }
            },
            UploadAction::Append { file_id, data } => {
                let appended_res = store.append(&file_id, data.as_slice());
                proof {
                    lemma_chunk_bytes_step(all, k);
                    assert(carries_data(all, k));
                    assert(before.data[id@].len() as u64 == before.data[id@].len());
                    assert(data@.len() == data.len());
                    assert(data@.len() as u64 == data@.len());
                }
                match upload.step(UploadEvent::Appended(appended_res)) {
                    UploadAction::ReadNext => {
                        proof {
                            lemma_fed_append(c0, id@, chunk_bytes(all.subrange(0, k)), data@);
                        }
                    },
                    UploadAction::AbortThenFail { file_id, status } => {
                        proof {
                            assert(before.data[id@].len() + data@.len() > limit);
                            assert(chunk_bytes(all.subrange(0, k + 1)).len() > limit);
                            lemma_chunk_bytes_prefix(all, k + 1);
                            assert(!upload_accepted(all, limit));
                        }
                        let _ = store.abort(&file_id);
                        proof {
                            assert(store@.records =~= start.records.remove(id@));
                    assert(store@.data =~= start.data.remove(id@));
                    lemma_removal_is_submap(start, id@, store@);
                        }
                        return Err(status);
                    },
                    _ => {
                        proof { assert(false); }
                        return Err(GrpcStatus { code: GrpcCode::Internal, message: String::new() });
                    },
                }
            },
            UploadAction::Finalize { file_id } => {
                let finalized = store.finalize(&file_id);
                match upload.step(UploadEvent::Finalized(finalized)) {
                    UploadAction::Respond(resp) => {
                        proof {
                            assert(all.subrange(0, all.len() as int) =~= all);
                            assert(store@.records.remove(id@) =~= start.records.remove(id@));
                            assert(store@.data.remove(id@) =~= start.data.remove(id@));
                        }
                        return Ok(resp);
                    },
                    _ => {
                        proof { assert(false); }
                        return Err(GrpcStatus { code: GrpcCode::Internal, message: String::new() });
                    },
                }
            },
            UploadAction::AbortThenFail { file_id, status } => {
                proof {
                    assert(k < all.len());
                    assert(!carries_data(all, k));
                    assert(!upload_accepted(all, limit));
                }
                let _ = store.abort(&file_id);
                proof {
                    assert(store@.records =~= start.records.remove(id@));
                    assert(store@.data =~= start.data.remove(id@));
                    lemma_removal_is_submap(start, id@, store@);
                }
                return Err(status);
            },
            _ => {
                proof { assert(false); }
                return Err(GrpcStatus { code: GrpcCode::Internal, message: String::new() });
            },
        }
    }
}

} // verus!
