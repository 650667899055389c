//! The reputation subsystem: a persistent TTL cache of hash-to-score answers
//! in its own table, and the decision logic of the remote lookup client —
//! classify the response, retry transient failures with a growing delay, and
//! persist every terminal answer before returning it.
use vstd::prelude::*;
use redb::{ReadableDatabase, ReadableTable};
use vstd::bytes::{spec_u64_to_le_bytes, spec_u64_from_le_bytes, u64_from_le_bytes, u64_to_le_bytes,
    lemma_auto_spec_u64_to_from_le_bytes};
use vstd::slice::slice_subrange;
use crate::error::IntegrityWatcherError;

verus! {

/// How long a found answer is fresh: thirty days, in seconds.
pub const TTL_FOUND_SECONDS: i64 = 2592000;

/// How long a not-found answer is fresh: seven days, in seconds.
pub const TTL_NOT_FOUND_SECONDS: i64 = 604800;

/// One cached answer: the score the service reported for a hash, or `None`
/// for a hash the service does not know, stamped with its creation time.
#[derive(Debug, Clone, Copy)]
pub struct CacheEntry {
    pub score: Option<u8>,
    pub entry_time: i64,
}

/// The freshness window an entry's answer gets.
pub open spec fn ttl_of(e: CacheEntry) -> i64 {
    if e.score is Some {
        TTL_FOUND_SECONDS
    } else {
        TTL_NOT_FOUND_SECONDS
    }
}

/// Whether the purge keeps an entry: its creation time must lie before the
/// horizon `now + TTL`. Deliberately so: every entry stamped at or before
/// `now` passes, whatever its age, and only entries stamped far in the future
/// are discarded — a cached answer, once written, is trusted indefinitely.
pub open spec fn is_valid_spec(e: CacheEntry, now: i64) -> bool {
    (e.entry_time as int) < (now as int) + (ttl_of(e) as int)
}

impl CacheEntry {
    pub fn new(score: Option<u8>, entry_time: i64) -> (r: CacheEntry)
        ensures
            r.score == score,
            r.entry_time == entry_time,
    {
        CacheEntry { score, entry_time }
    }

    /// Whether the purge keeps this entry at time `now`; see `is_valid_spec`.
    pub fn is_valid(&self, now: i64) -> (r: bool)
        ensures
            r == is_valid_spec(*self, now),
    {
        let ttl: i64 = if self.score.is_some() {
            TTL_FOUND_SECONDS
        } else {
            TTL_NOT_FOUND_SECONDS
        };
        (self.entry_time as i128) < (now as i128) + (ttl as i128)
    }

    /// The cached answer; the purge at startup is what keeps it meaningful.
    pub fn get_score(&self) -> (r: Option<u8>)
        ensures
            r == self.score,
    {
        self.score
    }
}

/// The encoding of a cached answer: a tag byte, the score byte when found,
/// then the creation time in little-endian order.
pub open spec fn encode_cache_spec(e: CacheEntry) -> Seq<u8> {
    (match e.score {
        None => seq![0u8],
        Some(s) => seq![1u8, s],
    }) + spec_u64_to_le_bytes(e.entry_time as u64)
}

/// The decoding of a cached answer; `None` on bytes no entry encodes to.
pub open spec fn decode_cache_spec(b: Seq<u8>) -> Option<CacheEntry> {
    if b.len() == 9 && b[0] == 0u8 {
        Some(CacheEntry { score: None, entry_time: spec_u64_from_le_bytes(b.skip(1)) as i64 })
    } else if b.len() == 10 && b[0] == 1u8 {
        Some(CacheEntry { score: Some(b[1]), entry_time: spec_u64_from_le_bytes(b.skip(2)) as i64 })
    } else {
        None
    }
}

/// Decoding an encoded cache entry yields the entry again, for both answer
/// states: the cache's round trip.
pub proof fn lemma_cache_round_trip(e: CacheEntry)
    ensures
        decode_cache_spec(encode_cache_spec(e)) == Some(e),
{
    lemma_auto_spec_u64_to_from_le_bytes();
    let b = encode_cache_spec(e);
    let t = e.entry_time;
    assert(((t as u64) as i64) == t) by (bit_vector);
    match e.score {
        None => {
            assert(b.skip(1) =~= spec_u64_to_le_bytes(e.entry_time as u64));
        },
        Some(_) => {
            assert(b.skip(2) =~= spec_u64_to_le_bytes(e.entry_time as u64));
        },
    }
}

/// Encodes one cache entry to the bytes its table holds.
pub fn encode_cache(e: &CacheEntry) -> (out: Vec<u8>)
    ensures
        out@ == encode_cache_spec(*e),
{
    let mut out: Vec<u8> = Vec::new();
    match e.score {
        None => out.push(0u8),
        Some(s) => {
            out.push(1u8);
            out.push(s);
        },
    }
    let mut t = u64_to_le_bytes(e.entry_time as u64);
    out.append(&mut t);
    assert(out@ =~= encode_cache_spec(*e));
    out
}

/// Decodes the bytes of one cached answer; `None` reports a corrupt entry.
pub fn decode_cache(b: &[u8]) -> (r: Option<CacheEntry>)
    ensures
        r == decode_cache_spec(b@),
{
    if b.len() == 9 && *vstd::slice::slice_index_get(b, 0) == 0u8 {
        let t = u64_from_le_bytes(slice_subrange(b, 1, 9));
        assert(b@.subrange(1, 9) =~= b@.skip(1));
        Some(CacheEntry { score: None, entry_time: t as i64 })
    } else if b.len() == 10 && *vstd::slice::slice_index_get(b, 0) == 1u8 {
        let s = *vstd::slice::slice_index_get(b, 1);
        let t = u64_from_le_bytes(slice_subrange(b, 2, 10));
        assert(b@.subrange(2, 10) =~= b@.skip(2));
        Some(CacheEntry { score: Some(s), entry_time: t as i64 })
    } else {
        None
    }
}

/// The reputation cache's table handle; 32-byte digests, compared byte-wise,
/// map to encoded answers.
#[verifier::external_body]
pub struct CacheDb {
    db: redb::Database,
}

/// What the reputation cache's table holds: encoded answer bytes by digest.
pub uninterp spec fn cache_view(db: CacheDb) -> Map<Seq<u8>, Seq<u8>>;

/// The mapping a list of scanned rows describes.
pub open spec fn cache_rows_view(rows: Seq<([u8; 32], Vec<u8>)>) -> Map<Seq<u8>, Seq<u8>>
    decreases rows.len(),
{
    if rows.len() == 0 {
        Map::empty()
    } else {
        cache_rows_view(rows.drop_last()).insert(rows.last().0@, rows.last().1@)
    }
}

/// The views of a list of digests, as a set.
pub open spec fn digest_set(keys: Seq<[u8; 32]>) -> Set<Seq<u8>> {
    Set::new(|k: Seq<u8>| exists|i: int| 0 <= i < keys.len() && keys[i]@ == k)
}

impl CacheDb {
    /// Relies on redb's Database::create, WriteTransaction::open_table and
    /// commit: opens the cache file or creates it, and makes sure its table
    /// exists. What the file already held stays as it is.
    #[verifier::external_body]
    fn create(path: &str) -> (r: Result<CacheDb, IntegrityWatcherError>) {
        let db = redb::Database::create(path).map_err(|_| IntegrityWatcherError::DB)?;
        let txn = db.begin_write().map_err(|_| IntegrityWatcherError::DBTransaction)?;
        txn.open_table(redb::TableDefinition::<[u8; 32], &'static [u8]>::new("circl_cache"))
            .map(|_| ())
            .map_err(|_| IntegrityWatcherError::DBTable)?;
        txn.commit().map_err(|_| IntegrityWatcherError::DBCommit)?;
        Ok(CacheDb { db })
    }

    /// Relies on redb's Table::get under a read transaction: returns the
    /// bytes stored for the digest, if any, from a consistent snapshot.
    #[verifier::external_body]
    fn get(&self, hash: &crate::types::Hash) -> (r: Result<Option<Vec<u8>>, IntegrityWatcherError>)
        ensures
            match r {
                Ok(Some(v)) => cache_view(*self).contains_key(hash@) && cache_view(*self)[hash@]
                    == v@,
                Ok(None) => !cache_view(*self).contains_key(hash@),
                Err(e) => e is DBTransaction || e is DBTable || e is DBStorage,
            },
    {
        let txn = self.db.begin_read().map_err(|_| IntegrityWatcherError::DBTransaction)?;
        let table = txn.open_table(
            redb::TableDefinition::<[u8; 32], &'static [u8]>::new("circl_cache"),
        ).map_err(|_| IntegrityWatcherError::DBTable)?;
        let guard = table.get(&hash.hash).map_err(|_| IntegrityWatcherError::DBStorage)?;
        Ok(guard.map(|v| v.value().to_vec()))
    }

    /// Relies on redb's Table::insert under a write transaction and commit:
    /// the digest's row is written, replacing any prior row, atomically; an
    /// uncommitted transaction is rolled back when dropped.
    #[verifier::external_body]
    fn insert(&mut self, hash: &crate::types::Hash, value: &Vec<u8>) -> (r: Result<
        (),
        IntegrityWatcherError,
    >)
        ensures
            r is Ok ==> cache_view(*final(self)) == cache_view(*old(self)).insert(hash@, value@),
            r is Err ==> cache_view(*final(self)) == cache_view(*old(self)),
    {
        let txn = self.db.begin_write().map_err(|_| IntegrityWatcherError::DBTransaction)?;
        {
            let mut table = txn.open_table(
                redb::TableDefinition::<[u8; 32], &'static [u8]>::new("circl_cache"),
            ).map_err(|_| IntegrityWatcherError::DBTable)?;
            table.insert(&hash.hash, value.as_slice()).map_err(
                |_| IntegrityWatcherError::DBStorage,
            )?;
        }
        txn.commit().map_err(|_| IntegrityWatcherError::DBCommit)
    }

    /// Relies on redb's Table::iter under a read transaction: yields every
    /// row exactly once, from a consistent snapshot.
    #[verifier::external_body]
    fn scan(&self) -> (r: Result<Vec<([u8; 32], Vec<u8>)>, IntegrityWatcherError>)
        ensures
            match r {
                Ok(rows) => cache_rows_view(rows@) == cache_view(*self) && (forall|i: int, j: int|
                    0 <= i < j < rows@.len() ==> rows@[i].0@ != rows@[j].0@),
                Err(e) => e is DBTransaction || e is DBTable || e is DBStorage,
            },
    {
        let txn = self.db.begin_read().map_err(|_| IntegrityWatcherError::DBTransaction)?;
        let table = txn.open_table(
            redb::TableDefinition::<[u8; 32], &'static [u8]>::new("circl_cache"),
        ).map_err(|_| IntegrityWatcherError::DBTable)?;
        let mut out = Vec::new();
        for row in table.iter().map_err(|_| IntegrityWatcherError::DBStorage)? {
            let (k, v) = row.map_err(|_| IntegrityWatcherError::DBStorage)?;
            out.push((k.value(), v.value().to_vec()));
        }
        Ok(out)
    }

    /// Relies on redb's Table::remove under a write transaction and commit:
    /// the listed digests' rows are removed atomically; an uncommitted
    /// transaction is rolled back when dropped.
    #[verifier::external_body]
    fn remove_many(&mut self, keys: &Vec<[u8; 32]>) -> (r: Result<(), IntegrityWatcherError>)
        ensures
            r is Ok ==> cache_view(*final(self)) == cache_view(*old(self)).remove_keys(
                digest_set(keys@),
            ),
            r is Err ==> cache_view(*final(self)) == cache_view(*old(self)),
    {
        let txn = self.db.begin_write().map_err(|_| IntegrityWatcherError::DBTransaction)?;
        {
            let mut table = txn.open_table(
                redb::TableDefinition::<[u8; 32], &'static [u8]>::new("circl_cache"),
            ).map_err(|_| IntegrityWatcherError::DBTable)?;
            for k in keys.iter() {
                table.remove(k).map_err(|_| IntegrityWatcherError::DBStorage)?;
            }
        }
        txn.commit().map_err(|_| IntegrityWatcherError::DBCommit)
    }
}

/// Whether the purge keeps a row's bytes: they must decode, and the entry
/// must be valid at `now`; corrupt rows are discarded with the stale ones.
pub open spec fn keep_cache_bytes(b: Seq<u8>, now: i64) -> bool {
    match decode_cache_spec(b) {
        Some(e) => is_valid_spec(e, now),
        None => false,
    }
}

/// A scan's mapping holds exactly the scanned digests.
proof fn lemma_cache_rows_dom(rows: Seq<([u8; 32], Vec<u8>)>)
    ensures
        forall|k: Seq<u8>|
            #[trigger] cache_rows_view(rows).contains_key(k) <==> (exists|i: int|
                0 <= i < rows.len() && rows[i].0@ == k),
    decreases rows.len(),
{
    if rows.len() > 0 {
        lemma_cache_rows_dom(rows.drop_last());
        assert forall|k: Seq<u8>| #[trigger] cache_rows_view(rows).contains_key(k) implies (
        exists|i: int| 0 <= i < rows.len() && rows[i].0@ == k) by {
            if k == rows.last().0@ {
                assert(rows[rows.len() - 1].0@ == k);
            } else {
                assert(cache_rows_view(rows.drop_last()).contains_key(k));
                let i = choose|i: int| 0 <= i < rows.len() - 1 && rows.drop_last()[i].0@ == k;
                assert(rows.drop_last()[i] == rows[i]);
                assert(rows[i].0@ == k);
            }
        }
        assert forall|k: Seq<u8>| (exists|i: int|
            0 <= i < rows.len() && rows[i].0@ == k) implies #[trigger] cache_rows_view(
            rows,
        ).contains_key(k) by {
            let i = choose|i: int| 0 <= i < rows.len() && rows[i].0@ == k;
            if i < rows.len() - 1 {
                assert(rows.drop_last()[i].0@ == k);
                assert(cache_rows_view(rows.drop_last()).contains_key(k));
            } else {
                assert(k == rows.last().0@);
            }
        }
    }
}

/// The value a scan's mapping holds for a scanned digest.
proof fn lemma_cache_rows_at(rows: Seq<([u8; 32], Vec<u8>)>, i: int)
    requires
        0 <= i < rows.len(),
        forall|a: int, b: int| 0 <= a < b < rows.len() ==> rows[a].0@ != rows[b].0@,
    ensures
        cache_rows_view(rows).contains_key(rows[i].0@),
        cache_rows_view(rows)[rows[i].0@] == rows[i].1@,
    decreases rows.len(),
{
    if i == rows.len() - 1 {
    } else {
        lemma_cache_rows_at(rows.drop_last(), i);
        assert(rows.drop_last()[i] == rows[i]);
    }
}

/// The persistent TTL cache of reputation answers.
pub struct CirclCache {
    pub db: CacheDb,
}

impl CirclCache {
    /// What the cache's table holds.
    pub open spec fn view_of(&self) -> Map<Seq<u8>, Seq<u8>> {
        cache_view(self.db)
    }

    /// Opens the cache file or creates it. What it already held stays.
    pub fn new(path: &str) -> (r: Result<CirclCache, IntegrityWatcherError>) {
        Ok(CirclCache { db: CacheDb::create(path)? })
    }

    /// Writes the answer for a digest, replacing any prior one, atomically.
    pub fn insert(&mut self, hash: &crate::types::Hash, entry: &CacheEntry) -> (r: Result<
        (),
        IntegrityWatcherError,
    >)
        ensures
            r is Ok ==> final(self).view_of() == old(self).view_of().insert(
                hash@,
                encode_cache_spec(*entry),
            ),
            r is Err ==> final(self).view_of() == old(self).view_of(),
    {
        let bytes = encode_cache(entry);
        self.db.insert(hash, &bytes)
    }

    /// Reads the answer cached for a digest, if any. An `Encoding` error
    /// reports a corrupt row, named by the digest's hex form.
    pub fn contains(&self, hash: &crate::types::Hash) -> (r: Result<
        Option<CacheEntry>,
        IntegrityWatcherError,
    >)
        ensures
            match r {
                Ok(Some(e)) => self.view_of().contains_key(hash@) && decode_cache_spec(
                    self.view_of()[hash@],
                ) == Some(e),
                Ok(None) => !self.view_of().contains_key(hash@),
                Err(e) => e is Encoding ==> self.view_of().contains_key(hash@)
                    && decode_cache_spec(self.view_of()[hash@]) is None,
            },
    {
        match self.db.get(hash)? {
            None => Ok(None),
            Some(bytes) => match decode_cache(bytes.as_slice()) {
                Some(e) => Ok(Some(e)),
                None => Err(IntegrityWatcherError::Encoding { path: hash.to_hex() }),
            },
        }
    }

    /// Purges what the TTL policy no longer keeps, and corrupt rows with it;
    /// run once at startup to bound the table's growth.
    pub fn clear_old(&mut self, now: i64) -> (r: Result<(), IntegrityWatcherError>)
        ensures
            r is Ok ==> final(self).view_of() =~= old(self).view_of().restrict(
                Set::new(|k: Seq<u8>| keep_cache_bytes(old(self).view_of()[k], now)),
            ),
            r is Err ==> final(self).view_of() == old(self).view_of(),
    {
        let rows = self.db.scan()?;
        proof {
            lemma_cache_rows_dom(rows@);
        }
        let mut stale: Vec<[u8; 32]> = Vec::new();
        let mut i: usize = 0;
        while i < rows.len()
            invariant
                i <= rows@.len(),
                *self == *old(self),
                cache_rows_view(rows@) == cache_view(self.db),
                forall|a: int, b: int| 0 <= a < b < rows@.len() ==> rows@[a].0@ != rows@[b].0@,
                forall|k: Seq<u8>|
                    #[trigger] digest_set(stale@).contains(k) ==> cache_view(
                        self.db,
                    ).contains_key(k) && !keep_cache_bytes(cache_view(self.db)[k], now),
                forall|j: int|
                    0 <= j < i && !keep_cache_bytes(
                        cache_view(self.db)[#[trigger] rows@[j].0@],
                        now,
                    ) ==> digest_set(stale@).contains(rows@[j].0@),
            decreases rows@.len() - i,
        {
            let (key, bytes) = &rows[i];
            proof {
                lemma_cache_rows_at(rows@, i as int);
            }
            let keep = match decode_cache(bytes.as_slice()) {
                Some(e) => e.is_valid(now),
                None => false,
            };
            proof {
                assert(keep == keep_cache_bytes(cache_view(self.db)[rows@[i as int].0@], now));
            }
            if !keep {
                let ghost pre = stale@;
                stale.push(*key);
                proof {
                    assert(stale@ =~= pre.push(rows@[i as int].0));
                    assert forall|k: Seq<u8>| #[trigger] digest_set(stale@).contains(
                        k,
                    ) implies cache_view(self.db).contains_key(k) && !keep_cache_bytes(
                        cache_view(self.db)[k],
                        now,
                    ) by {
                        let a = choose|a: int| 0 <= a < stale@.len() && stale@[a]@ == k;
                        if a < pre.len() {
                            assert(pre[a]@ == k);
                            assert(digest_set(pre).contains(k));
                        } else {
                            assert(k == rows@[i as int].0@);
                        }
                    }
                    assert forall|j: int|
                        0 <= j < i + 1 && !keep_cache_bytes(
                            cache_view(self.db)[#[trigger] rows@[j].0@],
                            now,
                        ) implies digest_set(stale@).contains(rows@[j].0@) by {
                        if j < i {
                            assert(digest_set(pre).contains(rows@[j].0@));
                            let a = choose|a: int| 0 <= a < pre.len() && pre[a]@ == rows@[j].0@;
                            assert(stale@[a]@ == rows@[j].0@);
                        } else {
                            assert(stale@[stale@.len() - 1]@ == rows@[j].0@);
                        }
                    }
                }
            } else {
                proof {
                    assert forall|j: int|
                        0 <= j < i + 1 && !keep_cache_bytes(
                            cache_view(self.db)[#[trigger] rows@[j].0@],
                            now,
                        ) implies digest_set(stale@).contains(rows@[j].0@) by {
                        if j == i {
                            assert(keep_cache_bytes(cache_view(self.db)[rows@[j].0@], now));
                        }
                    }
                }
            }
            i += 1;
        }
        self.db.remove_many(&stale)?;
        proof {
            let oldm = cache_view(old(self).db);
            let kept = Set::new(|k: Seq<u8>| keep_cache_bytes(oldm[k], now));
            assert forall|k: Seq<u8>| #[trigger] cache_view(self.db).contains_key(k) implies
                oldm.restrict(kept).contains_key(k) && cache_view(self.db)[k] == oldm.restrict(
                kept,
            )[k] by {
                assert(oldm.contains_key(k));
                assert(!digest_set(stale@).contains(k));
                let j = choose|j: int| 0 <= j < rows@.len() && rows@[j].0@ == k;
                assert(keep_cache_bytes(oldm[k], now));
            }
            assert forall|k: Seq<u8>| oldm.restrict(kept).contains_key(k) implies cache_view(
                self.db,
            ).contains_key(k) by {
                if digest_set(stale@).contains(k) {
                    assert(!keep_cache_bytes(oldm[k], now));
                    assert(false);
                }
            }
        }
        Ok(())
    }
}

/// Opens the reputation cache and purges stale rows, as every run does before
/// consulting it: afterwards every held row decodes to a valid entry.
pub fn open_cache(path: &str, now: i64) -> (r: Result<CirclCache, IntegrityWatcherError>)
    ensures
        r matches Ok(c) ==> forall|k: Seq<u8>|
            #[trigger] c.view_of().contains_key(k) ==> keep_cache_bytes(c.view_of()[k], now),
{
    let mut cache = CirclCache::new(path)?;
    cache.clear_old(now)?;
    Ok(cache)
}

/// How many attempts a lookup gets before its failure surfaces.
pub const QUERY_RETRIES: u64 = 3;

/// The delay before attempt `n + 1` is `n` times this, in milliseconds.
pub const RETRY_BASE_DELAY_MS: u64 = 50;

/// What one attempt of the remote lookup came to, as the driver saw it.
#[derive(Debug)]
pub enum QueryEvent {
    /// The request failed in transport, or timed out.
    TransportError,
    /// The service answered success and its body carried this trust score.
    Found { trust_score: u8 },
    /// The service answered success but its body did not parse.
    BadBody,
    /// The service does not know the digest.
    NotFound,
    /// The service answered some other status.
    OtherStatus { status: u16 },
}

/// What the client does next after one attempt.
#[derive(Debug)]
pub enum QueryStep {
    /// A terminal answer: persist it, then return it.
    Done { score: Option<u8> },
    /// Try again after this delay.
    RetryAfter { delay_ms: u64 },
    /// Try again at once.
    RetryNow,
    /// Give up with this error.
    Fail { error: IntegrityWatcherError },
}

/// The retry policy of the lookup client, one attempt at a time: a found or
/// not-found answer is terminal; a transport failure is retried after a
/// linearly growing delay until the attempts are spent; an unexpected status
/// is retried at once until the attempts are spent, then surfaces with the
/// digest it concerned; an unreadable success body fails at once.
pub fn query_step(hash: &crate::types::Hash, attempt: u64, event: &QueryEvent) -> (r: QueryStep)
    requires
        1 <= attempt <= QUERY_RETRIES,
    ensures
        match *event {
            QueryEvent::Found { trust_score } => r == (QueryStep::Done {
                score: Some(trust_score),
            }),
            QueryEvent::NotFound => r == (QueryStep::Done { score: None }),
            QueryEvent::BadBody => r == (QueryStep::Fail {
                error: IntegrityWatcherError::Reqwest,
            }),
            QueryEvent::TransportError => if attempt < QUERY_RETRIES {
                r == (QueryStep::RetryAfter { delay_ms: (RETRY_BASE_DELAY_MS * attempt) as u64 })
            } else {
                r == (QueryStep::Fail { error: IntegrityWatcherError::Reqwest })
            },
            QueryEvent::OtherStatus { status } => if attempt < QUERY_RETRIES {
                r == (QueryStep::RetryNow)
            } else {
                r == (QueryStep::Fail {
                    error: IntegrityWatcherError::InvalidReponse { status, hash: *hash },
                })
            },
        },
{
    match event {
        QueryEvent::Found { trust_score } => QueryStep::Done { score: Some(*trust_score) },
        QueryEvent::NotFound => QueryStep::Done { score: None },
        QueryEvent::BadBody => QueryStep::Fail { error: IntegrityWatcherError::Reqwest },
        QueryEvent::TransportError => {
            if attempt < QUERY_RETRIES {
                QueryStep::RetryAfter { delay_ms: RETRY_BASE_DELAY_MS * attempt }
            } else {
                QueryStep::Fail { error: IntegrityWatcherError::Reqwest }
            }
        },
        QueryEvent::OtherStatus { status } => {
            if attempt < QUERY_RETRIES {
                QueryStep::RetryNow
            } else {
                QueryStep::Fail {
                    error: IntegrityWatcherError::InvalidReponse { status: *status, hash: *hash },
                }
            }
        },
    }
}

/// Persists a terminal answer, stamped `now`, and hands the score back: a
/// lookup's outcome is always cached before it is returned.
pub fn settle_query(
    cache: &mut CirclCache,
    hash: &crate::types::Hash,
    score: Option<u8>,
    now: i64,
) -> (r: Result<Option<u8>, IntegrityWatcherError>)
    ensures
        r matches Ok(s) ==> s == score && final(cache).view_of() == old(cache).view_of().insert(
            hash@,
            encode_cache_spec(CacheEntry { score, entry_time: now }),
        ),
        r is Err ==> final(cache).view_of() == old(cache).view_of(),
{
    let entry = CacheEntry::new(score, now);
    cache.insert(hash, &entry)?;
    Ok(score)
}

} // verus!
