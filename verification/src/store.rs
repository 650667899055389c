//! The snapshot store: a durable mapping from absolute path to the encoded
//! snapshot record, held in one table of an embedded transactional database.
//! Every mutation is one atomic transaction: a batch is applied whole or not
//! at all.
use vstd::prelude::*;
use redb::{ReadableDatabase, ReadableTable};
use crate::codec::{encode_record, decode_record, encode_record_spec, decode_record_spec};
use crate::error::IntegrityWatcherError;
use crate::types::FileMetadataExt;

verus! {

/// The snapshot store handle; its table maps path strings, compared byte-wise,
/// to encoded records.
#[verifier::external_body]
pub struct FilesDb {
    db: redb::Database,
}

/// What the snapshot store's table holds: encoded record bytes by path.
pub uninterp spec fn files_view(db: FilesDb) -> Map<Seq<char>, Seq<u8>>;

/// The mapping a batch writes: later pairs win over earlier ones.
pub open spec fn batch_view(batch: Seq<(String, Vec<u8>)>) -> Map<Seq<char>, Seq<u8>>
    decreases batch.len(),
{
    if batch.len() == 0 {
        Map::empty()
    } else {
        batch_view(batch.drop_last()).insert(batch.last().0@, batch.last().1@)
    }
}

/// The mapping a batch of records writes, with each record encoded.
pub open spec fn record_batch_view(batch: Seq<(String, FileMetadataExt)>) -> Map<
    Seq<char>,
    Seq<u8>,
>
    decreases batch.len(),
{
    if batch.len() == 0 {
        Map::empty()
    } else {
        record_batch_view(batch.drop_last()).insert(
            batch.last().0@,
            encode_record_spec(batch.last().1@),
        )
    }
}

/// The views of a list of paths, as a set.
pub open spec fn path_set(paths: Seq<String>) -> Set<Seq<char>> {
    Set::new(|k: Seq<char>| exists|i: int| 0 <= i < paths.len() && paths[i]@ == k)
}

impl FilesDb {
    /// Relies on redb's Database::create, WriteTransaction::open_table and
    /// commit: opens the database file or creates it, and makes sure the
    /// table exists. What the file already held stays as it is.
    #[verifier::external_body]
    pub fn create(path: &str) -> (r: Result<FilesDb, IntegrityWatcherError>) {
        let db = redb::Database::create(path).map_err(|_| IntegrityWatcherError::DB)?;
        let txn = db.begin_write().map_err(|_| IntegrityWatcherError::DBTransaction)?;
        txn.open_table(redb::TableDefinition::<String, &'static [u8]>::new("files_database"))
            .map(|_| ())
            .map_err(|_| IntegrityWatcherError::DBTable)?;
        txn.commit().map_err(|_| IntegrityWatcherError::DBCommit)?;
        Ok(FilesDb { db })
    }

    /// Relies on redb's Database::open: opens an existing database file and
    /// fails if there is none.
    #[verifier::external_body]
    pub fn open(path: &str) -> (r: Result<FilesDb, IntegrityWatcherError>) {
        let db = redb::Database::open(path).map_err(|_| IntegrityWatcherError::DB)?;
        Ok(FilesDb { db })
    }

    /// Relies on redb's single write transaction: each pair is inserted, later
    /// pairs overwriting earlier ones, and the commit applies them all
    /// atomically; an uncommitted transaction is rolled back when dropped.
    #[verifier::external_body]
    fn raw_bulk_upsert(&mut self, batch: &Vec<(String, Vec<u8>)>) -> (r: Result<
        (),
        IntegrityWatcherError,
    >)
        ensures
            r is Ok ==> files_view(*final(self)) == files_view(*old(self)).union_prefer_right(
                batch_view(batch@),
            ),
            r is Err ==> files_view(*final(self)) == files_view(*old(self)),
            r matches Err(e) ==> (e is DBTransaction || e is DBTable || e is DBStorage
                || e is DBCommit),
    {
        let txn = self.db.begin_write().map_err(|_| IntegrityWatcherError::DBTransaction)?;
        {
            let mut table = txn.open_table(
                redb::TableDefinition::<String, &'static [u8]>::new("files_database"),
            ).map_err(|_| IntegrityWatcherError::DBTable)?;
            for (k, v) in batch.iter() {
                table.insert(k, v.as_slice()).map_err(|_| IntegrityWatcherError::DBStorage)?;
            }
        }
        txn.commit().map_err(|_| IntegrityWatcherError::DBCommit)
    }

    /// Relies on redb's Table::get under a read transaction: returns the
    /// bytes stored for the path, if any, from a consistent snapshot.
    #[verifier::external_body]
    fn raw_get(&self, path: &String) -> (r: Result<Option<Vec<u8>>, IntegrityWatcherError>)
        ensures
            match r {
                Ok(Some(v)) => files_view(*self).contains_key(path@) && files_view(*self)[path@]
                    == v@,
                Ok(None) => !files_view(*self).contains_key(path@),
                Err(e) => e is DBTransaction || e is DBTable || e is DBStorage,
            },
    {
        let txn = self.db.begin_read().map_err(|_| IntegrityWatcherError::DBTransaction)?;
        let table = txn.open_table(
            redb::TableDefinition::<String, &'static [u8]>::new("files_database"),
        ).map_err(|_| IntegrityWatcherError::DBTable)?;
        let guard = table.get(path).map_err(|_| IntegrityWatcherError::DBStorage)?;
        Ok(guard.map(|v| v.value().to_vec()))
    }

    /// Relies on redb's Table::iter under a read transaction: yields every
    /// row exactly once, from a consistent snapshot.
    #[verifier::external_body]
    fn raw_scan(&self) -> (r: Result<Vec<(String, Vec<u8>)>, IntegrityWatcherError>)
        ensures
            match r {
                Ok(rows) => batch_view(rows@) == files_view(*self) && (forall|i: int, j: int|
                    0 <= i < j < rows@.len() ==> rows@[i].0@ != rows@[j].0@),
                Err(e) => e is DBTransaction || e is DBTable || e is DBStorage,
            },
    {
        let txn = self.db.begin_read().map_err(|_| IntegrityWatcherError::DBTransaction)?;
        let table = txn.open_table(
            redb::TableDefinition::<String, &'static [u8]>::new("files_database"),
        ).map_err(|_| IntegrityWatcherError::DBTable)?;
        let mut out = Vec::new();
        for row in table.iter().map_err(|_| IntegrityWatcherError::DBStorage)? {
            let (k, v) = row.map_err(|_| IntegrityWatcherError::DBStorage)?;
            out.push((k.value(), v.value().to_vec()));
        }
        Ok(out)
    }

    /// Relies on redb's single write transaction: each listed key is removed
    /// and the commit applies the deletions atomically; an uncommitted
    /// transaction is rolled back when dropped.
    #[verifier::external_body]
    fn raw_remove_many(&mut self, paths: &Vec<String>) -> (r: Result<(), IntegrityWatcherError>)
        ensures
            r is Ok ==> files_view(*final(self)) == files_view(*old(self)).remove_keys(path_set(paths@)),
            r is Err ==> files_view(*final(self)) == files_view(*old(self)),
            r matches Err(e) ==> (e is DBTransaction || e is DBTable || e is DBStorage
                || e is DBCommit),
    {
        let txn = self.db.begin_write().map_err(|_| IntegrityWatcherError::DBTransaction)?;
        {
            let mut table = txn.open_table(
                redb::TableDefinition::<String, &'static [u8]>::new("files_database"),
            ).map_err(|_| IntegrityWatcherError::DBTable)?;
            for k in paths.iter() {
                table.remove(k).map_err(|_| IntegrityWatcherError::DBStorage)?;
            }
        }
        txn.commit().map_err(|_| IntegrityWatcherError::DBCommit)
    }

    /// Writes one batch of records in one atomic transaction, later pairs
    /// overwriting earlier ones and the whole batch overwriting prior store
    /// rows.
    pub fn upsert_records(&mut self, batch: &Vec<(String, FileMetadataExt)>) -> (r: Result<
        (),
        IntegrityWatcherError,
    >)
        ensures
            r is Ok ==> files_view(*final(self)) == files_view(*old(self)).union_prefer_right(
                record_batch_view(batch@),
            ),
            r is Err ==> files_view(*final(self)) == files_view(*old(self)),
    {
        let mut encoded: Vec<(String, Vec<u8>)> = Vec::new();
        let mut i: usize = 0;
        while i < batch.len()
            invariant
                i <= batch.len(),
                encoded@.len() == i,
                forall|j: int|
                    0 <= j < i ==> encoded@[j].0@ == batch@[j].0@ && encoded@[j].1@
                        == encode_record_spec(batch@[j].1@),
            decreases batch.len() - i,
        {
            let (path, rec) = &batch[i];
            encoded.push((path.clone(), encode_record(rec)));
            i += 1;
        }
        proof {
            lemma_batch_view_encoded(encoded@, batch@);
        }
        self.raw_bulk_upsert(&encoded)
    }

    /// Looks one path up and decodes what the store holds for it; a row whose
    /// bytes decode to no record is reported as a corrupt store.
    pub fn get_record(&self, path: &String) -> (r: Result<
        Option<FileMetadataExt>,
        IntegrityWatcherError,
    >)
        ensures
            match r {
                Ok(Some(rec)) => files_view(*self).contains_key(path@) && decode_record_spec(
                    files_view(*self)[path@],
                ) == Some(rec@),
                Ok(None) => !files_view(*self).contains_key(path@),
                Err(e) => e is Encoding ==> files_view(*self).contains_key(path@)
                    && decode_record_spec(files_view(*self)[path@]) is None,
            },
    {
        match self.raw_get(path)? {
            None => Ok(None),
            Some(bytes) => match decode_record(bytes.as_slice()) {
                Some(rec) => Ok(Some(rec)),
                None => Err(IntegrityWatcherError::Encoding { path: path.clone() }),
            },
        }
    }

    /// Reads the whole table and decodes every row; a row whose bytes decode
    /// to no record is reported as a corrupt store.
    pub fn scan_records(&self) -> (r: Result<
        Vec<(String, FileMetadataExt)>,
        IntegrityWatcherError,
    >)
        ensures
            match r {
                Ok(rows) => record_batch_view(rows@) == files_view(*self) && (forall|
                    i: int,
                    j: int,
                |
                    0 <= i < j < rows@.len() ==> rows@[i].0@ != rows@[j].0@),
                Err(_) => true,
            },
    {
        let raw = self.raw_scan()?;
        let mut out: Vec<(String, FileMetadataExt)> = Vec::new();
        let mut i: usize = 0;
        while i < raw.len()
            invariant
                i <= raw.len(),
                out@.len() == i,
                forall|j: int|
                    #![trigger out@[j]]
                    0 <= j < i ==> out@[j].0@ == raw@[j].0@ && decode_record_spec(raw@[j].1@)
                        == Some(out@[j].1@),
            decreases raw.len() - i,
        {
            let (path, bytes) = &raw[i];
            match decode_record(bytes.as_slice()) {
                Some(rec) => {
                    out.push((path.clone(), rec));
                },
                None => {
                    return Err(IntegrityWatcherError::Encoding { path: path.clone() });
                },
            }
            i += 1;
        }
        proof {
            lemma_batch_view_decoded(raw@, out@);
        }
        Ok(out)
    }

    /// Reads every path the store holds, without decoding the records.
    pub(crate) fn scan_raw(&self) -> (r: Result<Vec<(String, Vec<u8>)>, IntegrityWatcherError>)
        ensures
            match r {
                Ok(rows) => batch_view(rows@) == files_view(*self) && (forall|i: int, j: int|
                    0 <= i < j < rows@.len() ==> rows@[i].0@ != rows@[j].0@),
                Err(_) => true,
            },
    {
        self.raw_scan()
    }

    /// Removes the listed paths in one atomic transaction.
    pub(crate) fn remove_paths(&mut self, paths: &Vec<String>) -> (r: Result<
        (),
        IntegrityWatcherError,
    >)
        ensures
            r is Ok ==> files_view(*final(self)) == files_view(*old(self)).remove_keys(path_set(paths@)),
            r is Err ==> files_view(*final(self)) == files_view(*old(self)),
    {
        self.raw_remove_many(paths)
    }
}

/// A batch and its pairwise encoding write the same mapping.
proof fn lemma_batch_view_encoded(enc: Seq<(String, Vec<u8>)>, batch: Seq<(String, FileMetadataExt)>)
    requires
        enc.len() == batch.len(),
        forall|j: int|
            0 <= j < enc.len() ==> enc[j].0@ == batch[j].0@ && enc[j].1@ == encode_record_spec(
                batch[j].1@,
            ),
    ensures
        batch_view(enc) == record_batch_view(batch),
    decreases enc.len(),
{
    if enc.len() > 0 {
        lemma_batch_view_encoded(enc.drop_last(), batch.drop_last());
    }
}

/// A raw scan and its pairwise decoding describe the same store, as long as
/// every row decoded.
proof fn lemma_batch_view_decoded(raw: Seq<(String, Vec<u8>)>, out: Seq<(String, FileMetadataExt)>)
    requires
        raw.len() == out.len(),
        forall|j: int|
            #![trigger out[j]]
            0 <= j < raw.len() ==> out[j].0@ == raw[j].0@ && decode_record_spec(raw[j].1@) == Some(
                out[j].1@,
            ),
    ensures
        record_batch_view(out) =~= batch_view(raw),
    decreases raw.len(),
{
    if raw.len() > 0 {
        assert forall|j: int|
            #![trigger out.drop_last()[j]]
            0 <= j < raw.len() - 1 implies out.drop_last()[j].0@ == raw.drop_last()[j].0@
            && decode_record_spec(raw.drop_last()[j].1@) == Some(out.drop_last()[j].1@) by {
            assert(out.drop_last()[j] == out[j]);
            assert(raw.drop_last()[j] == raw[j]);
        }
        lemma_batch_view_decoded(raw.drop_last(), out.drop_last());
        crate::codec::lemma_decode_encode(raw.last().1@, out.last().1@);
    }
}

} // verus!
