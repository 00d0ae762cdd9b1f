//! In-flight uploads: a running checksum per upload, and eviction of uploads
//! that stay open too long.
use vstd::prelude::*;
use vstd::hash_map::StringHashMap;
use crate::digest::{StreamingChecksum, hex_lower, sha256};

verus! {

/// What is known of one in-flight upload: the bytes fed to its checksum,
/// and when it was opened (nanoseconds on a monotonic clock).
pub type InFlightView = (Seq<u8>, u64);

/// One upload that has been created but neither finalized nor aborted.
pub struct InFlightUpload {
    checksum: StreamingChecksum,
    created_at_ns: u64,
}

impl InFlightUpload {
    pub closed spec fn view_of(self) -> InFlightView {
        (self.checksum@, self.created_at_ns)
    }
}

/// The in-flight uploads, by file ID.
pub struct UploadRegistry {
    entries: StringHashMap<InFlightUpload>,
    /// Every ID in `entries`, each once.
    ids: Vec<String>,
}

/// Whether an upload opened at `created_at_ns` has, at `now_ns`, stayed open
/// longer than `ttl_ns` (a clock that reads earlier than the opening counts
/// as no time elapsed).
pub open spec fn is_stale(created_at_ns: u64, now_ns: u64, ttl_ns: u64) -> bool {
    now_ns > created_at_ns && now_ns - created_at_ns > ttl_ns
}

/// With sweeps at every multiple of `ttl_ns / 2` (the reaper's interval),
/// an upload opened at `created_ns` is evicted by the first sweep after it
/// has stayed open `ttl_ns`, which comes at most one interval late; no
/// earlier sweep evicts it.
pub proof fn law_sweeps_evict_within_an_interval(created_ns: u64, ttl_ns: u64)
    requires
        ttl_ns >= 2,
        created_ns + ttl_ns + ttl_ns / 2 <= u64::MAX,
    ensures
        ({
            let every = (ttl_ns / 2) as int;
            let k = (created_ns + ttl_ns) / every + 1;
            &&& created_ns + ttl_ns < k * every <= created_ns + ttl_ns + every
            &&& is_stale(created_ns, (k * every) as u64, ttl_ns)
            &&& forall|j: int| 0 <= j < k ==> !#[trigger] is_stale(created_ns, (j * every) as u64, ttl_ns)
        }),
{
    let every = (ttl_ns / 2) as int;
    let t = created_ns + ttl_ns;
    let q = t / every;
    let k = q + 1;
    assert(every > 0);
    assert(q * every <= t < q * every + every) by (nonlinear_arith)
        requires
            every > 0,
            q == t / every,
            t >= 0,
    ;
    assert(k * every == q * every + every) by (nonlinear_arith)
        requires
            k == q + 1,
    ;
    assert forall|j: int| 0 <= j < k implies !#[trigger] is_stale(created_ns, (j * every) as u64, ttl_ns) by {
        assert(j * every <= q * every) by (nonlinear_arith)
            requires
                0 <= j <= q,
                every > 0,
        ;
        assert(0 <= j * every) by (nonlinear_arith)
            requires
                0 <= j,
                every > 0,
        ;
    }
}

/// The registry after the chunk `data` arrives for `file_id`: it is fed to that
/// upload's checksum, when the upload is in flight.
pub open spec fn after_chunk(
    v: Map<Seq<char>, InFlightView>,
    file_id: Seq<char>,
    data: Seq<u8>,
) -> Map<Seq<char>, InFlightView> {
    if v.contains_key(file_id) {
        v.insert(file_id, (v[file_id].0 + data, v[file_id].1))
    } else {
        v
    }
}

/// The registry after `chunks` arrive, in order, for `file_id`.
pub open spec fn after_chunks(
    v: Map<Seq<char>, InFlightView>,
    file_id: Seq<char>,
    chunks: Seq<Seq<u8>>,
) -> Map<Seq<char>, InFlightView>
    decreases chunks.len(),
{
    if chunks.len() == 0 {
        v
    } else {
        after_chunks(after_chunk(v, file_id, chunks[0]), file_id, chunks.drop_first())
    }
}

/// The registry with the uploads that are stale at `now_ns` removed.
pub open spec fn without_stale(
    v: Map<Seq<char>, InFlightView>,
    now_ns: u64,
    ttl_ns: u64,
) -> Map<Seq<char>, InFlightView> {
    v.filter_keys(|k: Seq<char>| !is_stale(v[k].1, now_ns, ttl_ns))
}

/// Every key of `entries` is among `ids`.
spec fn ids_cover(entries: Map<Seq<char>, InFlightUpload>, ids: Seq<String>) -> bool {
    forall|k: Seq<char>|
        #[trigger] entries.contains_key(k) ==> exists|i: int| 0 <= i < ids.len() && (#[trigger] ids[i])@ == k
}

/// Whether one of `names` is `k`.
spec fn names(names: Seq<String>, k: Seq<char>) -> bool {
    exists|a: int| 0 <= a < names.len() && (#[trigger] names[a])@ == k
}

/// Whether one of the first `n` of `ids` is `k`.
spec fn seen(ids: Seq<String>, n: int, k: Seq<char>) -> bool {
    names(ids.subrange(0, n), k)
}

proof fn lemma_names_push(s: Seq<String>, x: String)
    ensures
        forall|k: Seq<char>| #[trigger] names(s.push(x), k) <==> (names(s, k) || x@ == k),
{
    assert forall|k: Seq<char>| #[trigger] names(s.push(x), k) <==> (names(s, k) || x@ == k) by {
        if names(s.push(x), k) {
            let a = choose|a: int| 0 <= a < s.push(x).len() && (#[trigger] s.push(x)[a])@ == k;
            if a < s.len() {
                assert(s[a] == s.push(x)[a]);
            }
        }
        if names(s, k) {
            let a = choose|a: int| 0 <= a < s.len() && (#[trigger] s[a])@ == k;
            assert(s.push(x)[a] == s[a]);
        }
        if x@ == k {
            assert(s.push(x)[s.len() as int] == x);
        }
    }
}

proof fn lemma_seen_step(ids: Seq<String>, i: int)
    requires
        0 <= i < ids.len(),
    ensures
        forall|k: Seq<char>| #[trigger] seen(ids, i + 1, k) <==> (seen(ids, i, k) || ids[i]@ == k),
{
    assert(ids.subrange(0, i + 1) =~= ids.subrange(0, i).push(ids[i]));
    lemma_names_push(ids.subrange(0, i), ids[i]);
}

proof fn lemma_names_all(ids: Seq<String>, k: Seq<char>)
    ensures
        names(ids, k) == seen(ids, ids.len() as int, k),
{
    assert(ids.subrange(0, ids.len() as int) =~= ids);
}

impl View for UploadRegistry {
    type V = Map<Seq<char>, InFlightView>;

    closed spec fn view(&self) -> Map<Seq<char>, InFlightView> {
        self.entries@.map_values(|e: InFlightUpload| e.view_of())
    }
}

impl UploadRegistry {
    #[verifier::type_invariant]
    closed spec fn well_formed(self) -> bool {
        ids_cover(self.entries@, self.ids@)
    }

    /// No upload in flight.
    pub fn new() -> (r: UploadRegistry)
        ensures
            r@ == Map::<Seq<char>, InFlightView>::empty(),
    {
        let r = UploadRegistry { entries: StringHashMap::new(), ids: Vec::new() };
        assert(r@ =~= Map::<Seq<char>, InFlightView>::empty());
        r
    }

    /// Whether `file_id` is in flight.
    pub fn contains(&self, file_id: &str) -> (r: bool)
        ensures
            r == self@.contains_key(file_id@),
    {
        self.entries.contains_key(file_id)
    }

    /// Opens `file_id` at `now_ns` with a checksum over nothing yet; an upload
    /// already open under this ID starts over.
    pub fn begin(&mut self, file_id: String, now_ns: u64)
        ensures
            final(self)@ == old(self)@.insert(file_id@, (Seq::<u8>::empty(), now_ns)),
    {
        let mut taken = UploadRegistry::new();
        std::mem::swap(self, &mut taken);
        proof { use_type_invariant(&taken); }
        let UploadRegistry { mut entries, mut ids } = taken;
        let ghost old_ids = ids@;
        let key = file_id.clone();
        entries.insert(file_id, InFlightUpload { checksum: StreamingChecksum::new(), created_at_ns: now_ns });
        ids.push(key);
        proof {
            assert forall|k: Seq<char>| #[trigger] entries@.contains_key(k) implies exists|i: int|
                0 <= i < ids@.len() && (#[trigger] ids@[i])@ == k by {
                if k == key@ {
                    assert(ids@[ids@.len() - 1] == key);
                } else {
                    let i = choose|i: int| 0 <= i < old_ids.len() && (#[trigger] old_ids[i])@ == k;
                    assert(ids@[i] == old_ids[i]);
                }
            }
        }
        *self = UploadRegistry { entries, ids };
        assert(self@ =~= old(self)@.insert(key@, (Seq::<u8>::empty(), now_ns)));
    }

    /// Feeds `data` to the checksum of `file_id`, if it is in flight.
    pub fn record_chunk(&mut self, file_id: &str, data: &[u8])
        ensures
            final(self)@ == after_chunk(old(self)@, file_id@, data@),
    {
        let mut taken = UploadRegistry::new();
        std::mem::swap(self, &mut taken);
        proof { use_type_invariant(&taken); }
        let UploadRegistry { mut entries, ids } = taken;
        let ghost old_entries = entries@;
        match entries.get(file_id) {
            Some(entry) => {
                let mut checksum = entry.checksum.fork();
                let created_at_ns = entry.created_at_ns;
                checksum.feed(data);
                entries.insert(String::from_str(file_id), InFlightUpload { checksum, created_at_ns });
                proof {
                    assert forall|k: Seq<char>| #[trigger] entries@.contains_key(k) implies exists|i: int|
                        0 <= i < ids@.len() && (#[trigger] ids@[i])@ == k by {
                        assert(old_entries.contains_key(k));
                    }
                }
            },
            None => {},
        }
        *self = UploadRegistry { entries, ids };
        assert(self@ =~= after_chunk(old(self)@, file_id@, data@));
    }

    /// Removes `file_id` and returns the hexadecimal SHA-256 of everything fed
    /// to it, if it was in flight.
    pub fn take_checksum(&mut self, file_id: &str) -> (r: Option<String>)
        ensures
            final(self)@ == old(self)@.remove(file_id@),
            match r {
                Some(hex) => old(self)@.contains_key(file_id@) && hex@ == hex_lower(
                    sha256(old(self)@[file_id@].0),
                ) && hex@.len() == 64,
                None => !old(self)@.contains_key(file_id@),
            },
    {
        let r = match self.entries.get(file_id) {
            Some(entry) => Some(entry.checksum.fork().finish_hex()),
            None => None,
        };
        self.forget(file_id);
        r
    }

    /// Drops `file_id`, if it was in flight.
    pub fn forget(&mut self, file_id: &str)
        ensures
            final(self)@ == old(self)@.remove(file_id@),
    {
        let mut taken = UploadRegistry::new();
        std::mem::swap(self, &mut taken);
        proof { use_type_invariant(&taken); }
        let UploadRegistry { mut entries, ids } = taken;
        let ghost old_entries = entries@;
        entries.remove(file_id);
        proof {
            assert forall|k: Seq<char>| #[trigger] entries@.contains_key(k) implies exists|i: int|
                0 <= i < ids@.len() && (#[trigger] ids@[i])@ == k by {
                assert(old_entries.contains_key(k));
            }
        }
        let r = UploadRegistry { entries, ids };
        *self = r;
        assert(self@ =~= old(self)@.remove(file_id@));
    }

    /// Removes every upload that is stale at `now_ns` and returns their IDs,
    /// each once.
    pub fn evict_stale(&mut self, now_ns: u64, ttl_ns: u64) -> (evicted: Vec<String>)
        ensures
            final(self)@ == without_stale(old(self)@, now_ns, ttl_ns),
            forall|a: int, b: int|
                0 <= a < b < evicted@.len() ==> (#[trigger] evicted@[a])@ != (#[trigger] evicted@[b])@,
            forall|k: Seq<char>|
                (exists|a: int| 0 <= a < evicted@.len() && (#[trigger] evicted@[a])@ == k) <==> (
                #[trigger] old(self)@.contains_key(k) && is_stale(old(self)@[k].1, now_ns, ttl_ns)),
    {
        let mut taken = UploadRegistry::new();
        std::mem::swap(self, &mut taken);
        proof { use_type_invariant(&taken); }
        let UploadRegistry { mut entries, ids } = taken;
        let ghost old_entries = entries@;
        proof {
            assert forall|k: Seq<char>| #[trigger] old_entries.contains_key(k) implies seen(ids@, ids@.len() as int, k) by {
                lemma_names_all(ids@, k);
            }
            assert forall|k: Seq<char>| !#[trigger] seen(ids@, 0, k) by {
                assert(ids@.subrange(0, 0).len() == 0);
            }
        }
        let mut kept: Vec<String> = Vec::new();
        let mut evicted: Vec<String> = Vec::new();
        let mut i: usize = 0;
        while i < ids.len()
            invariant
                i <= ids@.len(),
                forall|k: Seq<char>| #[trigger] old_entries.contains_key(k) ==> seen(ids@, ids@.len() as int, k),
                forall|k: Seq<char>|
                    #[trigger] entries@.contains_key(k) <==> old_entries.contains_key(k) && !(is_stale(
                        old_entries[k].created_at_ns,
                        now_ns,
                        ttl_ns,
                    ) && seen(ids@, i as int, k)),
                forall|k: Seq<char>| #[trigger] entries@.contains_key(k) ==> entries@[k] == old_entries[k],
                forall|k: Seq<char>|
                    #[trigger] names(evicted@, k) <==> old_entries.contains_key(k) && is_stale(
                        old_entries[k].created_at_ns,
                        now_ns,
                        ttl_ns,
                    ) && seen(ids@, i as int, k),
                forall|a: int, b: int|
                    0 <= a < b < evicted@.len() ==> (#[trigger] evicted@[a])@ != (#[trigger] evicted@[b])@,
                forall|k: Seq<char>| #[trigger] seen(ids@, i as int, k) && entries@.contains_key(k) ==> names(kept@, k),
            decreases ids@.len() - i,
        {
            let id = &ids[i];
            proof { lemma_seen_step(ids@, i as int); }
            let decision = match entries.get(id.as_str()) {
                Some(entry) => Some(now_ns > entry.created_at_ns && now_ns - entry.created_at_ns > ttl_ns),
                None => None,
            };
            match decision {
                Some(true) => {
                    let ghost before = evicted@;
                    entries.remove(id.as_str());
                    evicted.push(id.clone());
                    proof {
                        lemma_names_push(before, *id);
                        assert(!names(before, id@));
                        assert forall|a: int, b: int|
                            0 <= a < b < evicted@.len() implies (#[trigger] evicted@[a])@ != (#[trigger] evicted@[b])@ by {
                            assert(evicted@[a] == before[a]);
                            if b < before.len() {
                                assert(evicted@[b] == before[b]);
                            }
                        }
                    }
                },
                Some(false) => {
                    let ghost before = kept@;
                    kept.push(id.clone());
                    proof { lemma_names_push(before, *id); }
                },
                None => {},
            }
            i = i + 1;
        }
        *self = UploadRegistry { entries, ids: kept };
        proof {
            assert forall|k: Seq<char>|
                (exists|a: int| 0 <= a < evicted@.len() && (#[trigger] evicted@[a])@ == k) <==> (
                #[trigger] old(self)@.contains_key(k) && is_stale(old(self)@[k].1, now_ns, ttl_ns)) by {
                assert(names(evicted@, k) == (exists|a: int| 0 <= a < evicted@.len() && (#[trigger] evicted@[a])@ == k));
            }
        }
        assert(self@ =~= without_stale(old(self)@, now_ns, ttl_ns));
        evicted
    }
}

/// Feeding chunks one by one leaves the upload's checksum over their
/// concatenation: after an upload is opened and its chunks arrive, what its
/// checksum covers is exactly the uploaded bytes, in order. Other uploads are
/// untouched.
pub proof fn law_checksum_covers_every_chunk(
    v: Map<Seq<char>, InFlightView>,
    file_id: Seq<char>,
    now_ns: u64,
    chunks: Seq<Seq<u8>>,
)
    ensures
        after_chunks(v.insert(file_id, (Seq::<u8>::empty(), now_ns)), file_id, chunks)
            =~= v.insert(file_id, (chunks.flatten(), now_ns)),
    decreases chunks.len(),
{
    lemma_chunks_append(v, file_id, Seq::<u8>::empty(), now_ns, chunks);
    assert(Seq::<u8>::empty() + chunks.flatten() =~= chunks.flatten());
}

proof fn lemma_chunks_append(
    v: Map<Seq<char>, InFlightView>,
    file_id: Seq<char>,
    fed: Seq<u8>,
    now_ns: u64,
    chunks: Seq<Seq<u8>>,
)
    ensures
        after_chunks(v.insert(file_id, (fed, now_ns)), file_id, chunks)
            =~= v.insert(file_id, (fed + chunks.flatten(), now_ns)),
    decreases chunks.len(),
{
    if chunks.len() == 0 {
        assert(fed + chunks.flatten() =~= fed);
    } else {
        let start = v.insert(file_id, (fed, now_ns));
        assert(after_chunk(start, file_id, chunks[0]) =~= v.insert(file_id, (fed + chunks[0], now_ns)));
        lemma_chunks_append(v, file_id, fed + chunks[0], now_ns, chunks.drop_first());
        assert(fed + chunks[0] + chunks.drop_first().flatten() =~= fed + chunks.flatten());
    }
}

} // verus!
