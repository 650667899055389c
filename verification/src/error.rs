//! The error taxonomy: per-path I/O failures, store failures by phase,
//! corrupt stored records, and reputation-lookup failures.
use vstd::prelude::*;

verus! {

/// Why an operation failed. Store failures are split by the phase that
/// refused: opening the database, starting a transaction, opening the table,
/// reading or writing rows, or committing.
#[derive(Debug, Clone)]
pub enum IntegrityWatcherError {
    /// A filesystem operation on `path` failed.
    IOError { path: String },
    /// The database file could not be opened or created.
    DB,
    /// A row read or write inside a transaction failed.
    DBStorage,
    /// A transaction could not be started.
    DBTransaction,
    /// The table could not be opened inside a transaction.
    DBTable,
    /// A write transaction could not be committed.
    DBCommit,
    /// A stored record's bytes decode to no record: the store is corrupt at
    /// this path (a hex key for the reputation cache).
    Encoding { path: String },
    /// An outbound reputation request failed in transport or while reading
    /// its body.
    Reqwest,
    /// The reputation service answered with neither success nor not-found,
    /// and retries are exhausted.
    InvalidReponse { status: u16, hash: crate::types::Hash },
}

} // verus!
