//! The server's record of a chunked upload in progress.
use vstd::prelude::*;
use std::collections::HashSet;
use crate::storage::{ascending, sort_ascending, ChunkStorage};

verus! {

broadcast use vstd::std_specs::hash::group_hash_axioms;

/// Seconds since the Unix epoch by the system clock (`SystemTime::now()`), `None` when the
/// clock reads earlier than the epoch.
///
/// Trusted for nothing: the time is whatever the clock says.
#[verifier::external_body]
fn unix_time_secs() -> Option<u64> {
    match std::time::SystemTime::now().duration_since(std::time::UNIX_EPOCH) {
        Ok(d) => Some(d.as_secs()),
        Err(_) => None,
    }
}

/// The timestamp that a reading of the clock gives, in whole seconds since the Unix epoch
/// like every other time the server records: the seconds converted as `as` converts them,
/// and 0 for a clock that reads earlier than the epoch.
pub fn timestamp_from_clock(reading: Option<u64>) -> (r: i64)
    ensures
        r == match reading {
            Some(s) => s as i64,
            None => 0i64,
        },
{
    match reading {
        Some(s) => s as i64,
        None => 0,
    }
}

/// The number of chunks of `chunk_size` bytes that hold `total_size` bytes.
pub open spec fn chunk_count(total_size: u64, chunk_size: u64) -> nat
    recommends
        chunk_size > 0,
{
    ((total_size + chunk_size - 1) / (chunk_size as int)) as nat
}

pub struct ChunkedUpload {
    pub upload_id: String,
    pub filename: String,
    pub total_size: u64,
    pub chunk_size: u64,
    pub total_chunks: u64,
    pub received_chunks: HashSet<u64>,
    pub one_time: bool,
    pub max_downloads: Option<u32>,
    pub expires_at: Option<i64>,
    pub has_password: bool,
    pub created_at: i64,
    pub storage: ChunkStorage,
}

impl ChunkedUpload {
    /// A new upload, created at the given time, that has received no chunk yet.
    pub fn new_at(
        upload_id: String,
        filename: String,
        total_size: u64,
        chunk_size: u64,
        chunks_dir: String,
        one_time: bool,
        max_downloads: Option<u32>,
        expires_at: Option<i64>,
        has_password: bool,
        created_at: i64,
    ) -> (r: Self)
        requires
            chunk_size > 0,
            total_size + chunk_size <= u64::MAX,
        ensures
            r.upload_id@ == upload_id@,
            r.filename@ == filename@,
            r.total_size == total_size,
            r.chunk_size == chunk_size,
            r.total_chunks == chunk_count(total_size, chunk_size),
            r.received_chunks@ == Set::<u64>::empty(),
            r.one_time == one_time,
            r.max_downloads == max_downloads,
            r.expires_at == expires_at,
            r.has_password == has_password,
            r.created_at == created_at,
            r.storage.base_path@ == chunks_dir@,
    {
        let total_chunks = (total_size + chunk_size - 1) / chunk_size;
        ChunkedUpload {
            upload_id,
            filename,
            total_size,
            chunk_size,
            total_chunks,
            received_chunks: HashSet::new(),
            one_time,
            max_downloads,
            expires_at,
            has_password,
            created_at,
            storage: ChunkStorage::new(chunks_dir),
        }
    }

    /// A new upload that has received no chunk yet, created now: its creation time is
    /// `timestamp_from_clock` of the system clock's reading (seconds since the Unix epoch; a
    /// clock before the epoch counts as time 0).
    pub fn new(
        upload_id: String,
        filename: String,
        total_size: u64,
        chunk_size: u64,
        chunks_dir: String,
        one_time: bool,
        max_downloads: Option<u32>,
        expires_at: Option<i64>,
        has_password: bool,
    ) -> (r: Self)
        requires
            chunk_size > 0,
            total_size + chunk_size <= u64::MAX,
        ensures
            r.upload_id@ == upload_id@,
            r.filename@ == filename@,
            r.total_size == total_size,
            r.chunk_size == chunk_size,
            r.total_chunks == chunk_count(total_size, chunk_size),
            r.received_chunks@ == Set::<u64>::empty(),
            r.one_time == one_time,
            r.max_downloads == max_downloads,
            r.expires_at == expires_at,
            r.has_password == has_password,
            r.storage.base_path@ == chunks_dir@,
    {
        let created_at: i64 = timestamp_from_clock(unix_time_secs());
        Self::new_at(
            upload_id,
            filename,
            total_size,
            chunk_size,
            chunks_dir,
            one_time,
            max_downloads,
            expires_at,
            has_password,
            created_at,
        )
    }

    /// Notes that a chunk has arrived (after it has been stored).
    pub fn record_chunk(&mut self, chunk_num: u64)
        ensures
            final(self).received_chunks@ == old(self).received_chunks@.insert(chunk_num),
            final(self).upload_id == old(self).upload_id,
            final(self).filename == old(self).filename,
            final(self).total_size == old(self).total_size,
            final(self).chunk_size == old(self).chunk_size,
            final(self).total_chunks == old(self).total_chunks,
            final(self).one_time == old(self).one_time,
            final(self).max_downloads == old(self).max_downloads,
            final(self).expires_at == old(self).expires_at,
            final(self).has_password == old(self).has_password,
            final(self).created_at == old(self).created_at,
            final(self).storage == old(self).storage,
    {
        self.received_chunks.insert(chunk_num);
    }

    /// Whether as many distinct chunks have arrived as the upload has.
    pub fn is_complete(&self) -> (r: bool)
        ensures
            r == (self.received_chunks@.len() == self.total_chunks),
    {
        self.received_chunks.len() as u64 == self.total_chunks
    }

    /// The chunks that have arrived, in ascending order, each once.
    pub fn get_received_chunks(&self) -> (r: Vec<u64>)
        ensures
            ascending(r@),
            r@.no_duplicates(),
            r@.to_set() == self.received_chunks@,
    {
        let mut v: Vec<u64> = Vec::new();
        let ghost keys = vstd::std_specs::iter::IteratorSpec::remaining(&vstd::std_specs::hash::spec_hash_keys_iter(&self.received_chunks));
        for x in it: self.received_chunks.iter()
            invariant
                keys == vstd::std_specs::iter::IteratorSpec::remaining(&vstd::std_specs::hash::spec_hash_keys_iter(&self.received_chunks)),
                it.seq() == keys,
                v@.len() == it.index(),
                forall|i: int| 0 <= i < v@.len() ==> v@[i] == *keys[i],
        {
            v.push(*x);
        }
        proof {
            assert(v@.len() == keys.len());
            assert(v@ =~= keys.unref());
            v@.lemma_multiset_has_no_duplicates();
        }
        let r = sort_ascending(&v);
        proof {
            broadcast use vstd::seq_lib::to_multiset_contains;
            assert forall|x: u64| r@.to_multiset().contains(x) implies r@.to_multiset().count(x) == 1 by {
                assert(v@.to_multiset().contains(x));
            }
            r@.lemma_multiset_has_no_duplicates_conv();
            assert forall|x: u64| r@.to_set().contains(x) <==> v@.to_set().contains(x) by {
                assert(r@.to_multiset().count(x) == v@.to_multiset().count(x));
            }
            assert(r@.to_set() =~= v@.to_set());
        }
        r
    }
}

/// The chunk count covers the upload and no more: `total_chunks` chunks of `chunk_size`
/// bytes hold `total_size` bytes, and one chunk fewer would not.
pub proof fn lemma_chunk_count_covers(total_size: u64, chunk_size: u64)
    requires
        chunk_size > 0,
    ensures
        chunk_count(total_size, chunk_size) * chunk_size >= total_size,
        chunk_count(total_size, chunk_size) > 0 ==> (chunk_count(total_size, chunk_size) - 1)
            * chunk_size < total_size,
{
    let t = total_size as int;
    let c = chunk_size as int;
    let n = (t + c - 1) / c;
    assert(n * c >= t && (n > 0 ==> (n - 1) * c < t)) by (nonlinear_arith)
        requires
            c > 0,
            t >= 0,
            n == (t + c - 1) / c,
    {
        assert((t + c - 1) == n * c + (t + c - 1) % c);
        assert(0 <= (t + c - 1) % c < c);
    }
}

/// An upload is complete exactly when every chunk number below the total has arrived,
/// provided that only chunk numbers below the total were recorded (the server refuses the
/// others before it records one).
pub proof fn lemma_complete_iff_every_chunk(received: Set<u64>, total_chunks: u64)
    requires
        received.finite(),
        forall|c: u64| #[trigger] received.contains(c) ==> c < total_chunks,
    ensures
        (received.len() == total_chunks) <==> (received == Set::<u64>::range(0, total_chunks)),
{
    broadcast use vstd::set_lib::range_set_properties;

    let all = Set::<u64>::range(0, total_chunks);
    assert(all.finite() && all.len() == total_chunks);
    assert(received.subset_of(all));
    if received.len() == total_chunks {
        vstd::set_lib::lemma_subset_equality(received, all);
    }
}

} // verus!
