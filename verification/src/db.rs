//! The store and its operations.
//!
//! Every operation opens the transactions it needs and leaves none open. A
//! read sees one state of the table; a batch is written chunk by chunk.

use vstd::prelude::*;
use lmdb_rs::Environment;
use crate::engine::Table;
use crate::batch::{
    batched_del, batched_set, encode_pairs, key_slices, skipped_in_order, spec_chunk_count,
    spec_chunk_start, BatchError, BatchReport,
};
use crate::db_serialization::Storable;
use crate::engine::{engine_failure, open_environment};
use crate::error::{surfaces_as_engine, EngineFailure, Error, ErrorClass};
use crate::key::{
    in_range, key_from_u64, keys_sorted, keys_within, lemma_lex_less_total,
    lemma_lex_less_transitive, lex_less, spec_key_from_u64,
};
use crate::table::{
    decoded_keys, lemma_key_list_is_sorted, lemma_refusal_lists_keys, lemma_refusal_reads, lemma_refusal_scans,
    lemma_refusal_scans_values, lemma_refusal_searches, lemma_refusal_tries_search, listed_keys,
    lists_keys_to, reads_to, scans_to, scans_values_to, searches_to, tries_search_to,
};
use crate::transaction::{reader, worked_out, writer};

verus! {

/// The file mode with which the store's files are made: the owner reads and
/// writes, the group reads.
pub const DIRECTORY_MODE: u32 = 0o640;

/// The open store. There is one per process; it is opened at startup and
/// closed when it is dropped. The layer expects the store's table to keep
/// its keys byte by byte, as the engine does unless told otherwise, and
/// checks each scan for it: a store with another order of keys fails its
/// scans instead of handing out entries out of order.
pub struct DB {
    env: Environment,
}

/// `r` is what removing the entries of a range comes to, where `keys` are
/// the keys that were found in it: a batch of as many removals as there are
/// keys, whole or stopped early.
pub open spec fn range_deleted(keys: Seq<Seq<u8>>, r: Result<BatchReport, BatchError>) -> bool {
    &&& keys.len() <= usize::MAX
    &&& match r {
        Ok(report) => report.is_whole(keys.len() as usize) && report.skipped@.len() == 0,
        Err(failure) => {
            &&& failure.committed.is_short_of(keys.len() as usize)
            &&& failure.committed.skipped@.len() == 0
            &&& failure.cause.kind == ErrorClass::StoreEngine || failure.cause.kind
                == ErrorClass::NotFound
        },
    }
}

/// `r` is what `delete_range` comes to when looking up the keys of the range
/// came to `found`: where the keys were found, the removal of exactly those
/// keys as one batch; where the look-up failed, that failure, with nothing
/// removed.
pub open spec fn delete_range_result(
    found: Result<Vec<Vec<u8>>, Error>,
    r: Result<BatchReport, BatchError>,
) -> bool {
    match found {
        Ok(keys) => range_deleted(listed_keys(keys@), r),
        Err(e) => {
            &&& r matches Err(failure)
            &&& failure.cause == e
            &&& failure.committed.chunks == 0
            &&& failure.committed.entries == 0
            &&& failure.committed.skipped@.len() == 0
        },
    }
}

/// `r` is what `delete_range_outcome` makes of some result that `key_range`
/// can give on the range. The clause does not name the store: it does not
/// say which keys the table held, nor what it holds afterwards.
pub open spec fn deletes_range(start: Seq<u8>, end: Seq<u8>, r: Result<BatchReport, BatchError>) -> bool {
    exists|found: Result<Vec<Vec<u8>>, Error>|
        lists_keys_to(start, end, found) && delete_range_result(found, r)
}

/// Nothing is removed from a range that holds no key: where `end` is not
/// behind `start`, the batch of removals is empty.
pub proof fn lemma_empty_range_deletes_nothing(
    start: Seq<u8>,
    end: Seq<u8>,
    r: Result<BatchReport, BatchError>,
)
    requires
        !lex_less(start, end),
        deletes_range(start, end, r),
    ensures
        match r {
            Ok(report) => report.entries == 0 && report.chunks == 0,
            Err(failure) => failure.committed.entries == 0 && failure.committed.chunks == 0,
        },
{
    let found = choose|found: Result<Vec<Vec<u8>>, Error>|
        lists_keys_to(start, end, found) && delete_range_result(found, r);
    if found is Ok {
        lemma_key_list_is_sorted(start, end, found);
        let keys = listed_keys(found->Ok_0@);
        if keys.len() > 0 {
            assert(in_range(start, keys[0], end));
            lemma_lex_less_total(keys[0], start);
            if keys[0] != start {
                lemma_lex_less_transitive(start, keys[0], end);
            }
        }
    }
}

/// A removal of a range counts its chunks by its entries, skips nothing,
/// and fails only on the engine or on a key that is gone.
pub proof fn lemma_range_removal_shape(
    start: Seq<u8>,
    end: Seq<u8>,
    r: Result<BatchReport, BatchError>,
)
    requires
        deletes_range(start, end, r),
    ensures
        match r {
            Ok(report) => report.chunks == spec_chunk_count(report.entries as nat)
                && report.skipped@.len() == 0,
            Err(failure) => {
                &&& failure.committed.entries == spec_chunk_start(failure.committed.chunks as nat)
                &&& failure.committed.skipped@.len() == 0
                &&& failure.cause.kind == ErrorClass::StoreEngine || failure.cause.kind
                    == ErrorClass::NotFound
            },
        },
{
    let found = choose|found: Result<Vec<Vec<u8>>, Error>|
        lists_keys_to(start, end, found) && delete_range_result(found, r);
    if found is Err {
        lemma_key_list_is_sorted(start, end, found);
    }
}

impl DB {
    /// What opening the store comes to, given what the engine answered: the
    /// store around the environment, or the engine's failure.
    pub fn init_outcome(opened: Result<Environment, EngineFailure>) -> (r: Result<DB, Error>)
        ensures
            match opened {
                Ok(env) => r matches Ok(db) && db.spec_environment() == env,
                Err(failure) => r matches Err(e) && surfaces_as_engine(failure, e),
            },
    {
        match opened {
            Ok(env) => Ok(DB { env }),
            Err(failure) => Err(Error::store_engine(failure)),
        }
    }

    /// Opens the store in `dir`, which is created if it is missing, with
    /// room for `initial_map_size` bytes: what `init_outcome` makes of the
    /// engine's answer.
    pub fn init(dir: &str, initial_map_size: u64) -> (r: Result<DB, Error>)
        ensures
            r matches Err(e) ==> e.kind == ErrorClass::StoreEngine,
    {
        match open_environment(dir, initial_map_size, DIRECTORY_MODE) {
            Ok(env) => DB::init_outcome(Ok(env)),
            Err(e) => DB::init_outcome(Err(engine_failure(e))),
        }
    }

    /// The engine's handle, as contracts name it.
    pub closed spec fn spec_environment(&self) -> Environment {
        self.env
    }

    /// The engine's handle, for the layer's own transactions.
    pub(crate) fn env(&self) -> (env: &Environment)
        ensures
            *env == self.spec_environment(),
    {
        &self.env
    }

    /// The value stored under `key`: what `read_outcome` makes of the
    /// answer that the table gives inside a read transaction, or of the
    /// engine's failure to open one.
    pub fn read<V: Storable>(&self, key: &[u8]) -> (r: Result<V, Error>)
        ensures
            reads_to::<V>(r),
            r matches Err(e) ==> e.kind != ErrorClass::CallerMisuse,
    {
        let work = |db: &Table| -> (got: Result<V, Error>)
            ensures
                reads_to::<V>(got),
                got matches Err(e) ==> e.kind != ErrorClass::CallerMisuse,
            { crate::table::read::<V>(db, key) };
        let r = reader(self, work);
        proof {
            if !worked_out(work, r) {
                lemma_refusal_reads::<V>(r);
            }
        }
        r
    }

    /// The value stored under the key of the integer `key`: `read` at
    /// `key_from_u64(key)`.
    pub fn read_u64<V: Storable>(&self, key: u64) -> (r: Result<V, Error>)
        ensures
            reads_to::<V>(r),
            r matches Err(e) ==> e.kind != ErrorClass::CallerMisuse,
    {
        let bytes = key_from_u64(key);
        self.read(bytes.as_slice())
    }

    /// Every entry whose key is not before `start_key` and before `end_key`,
    /// decoded, in the order of the keys, as one read transaction sees them:
    /// what `read_range_outcome` makes of the table's answer to a scan of the
    /// range, or of the engine's failure to open the transaction.
    pub fn read_range<V: Storable>(&self, start_key: &[u8], end_key: &[u8]) -> (r: Result<
        Vec<(Vec<u8>, V)>,
        Error,
    >)
        ensures
            scans_to::<V>(start_key@, end_key@, r),
            match r {
                Ok(entries) => keys_sorted(decoded_keys(entries@)) && keys_within(
                    decoded_keys(entries@),
                    start_key@,
                    end_key@,
                ),
                Err(e) => e.kind == ErrorClass::StoreEngine || e.kind == ErrorClass::Serialization,
            },
    {
        let work = |db: &Table| -> (got: Result<Vec<(Vec<u8>, V)>, Error>)
            ensures
                scans_to::<V>(start_key@, end_key@, got),
                match got {
                    Ok(entries) => keys_sorted(decoded_keys(entries@)) && keys_within(
                        decoded_keys(entries@),
                        start_key@,
                        end_key@,
                    ),
                    Err(e) => e.kind == ErrorClass::StoreEngine || e.kind
                        == ErrorClass::Serialization,
                },
            { crate::table::read_range::<V>(db, start_key, end_key) };
        let r = reader(self, work);
        proof {
            if !worked_out(work, r) {
                lemma_refusal_scans::<V>(start_key@, end_key@, r);
            }
        }
        r
    }

    /// `read_range` between the keys of two integers: the entries whose
    /// integer key is at least `start_key` and less than `end_key`.
    pub fn read_range_u64<V: Storable>(&self, start_key: u64, end_key: u64) -> (r: Result<
        Vec<(Vec<u8>, V)>,
        Error,
    >)
        ensures
            scans_to::<V>(spec_key_from_u64(start_key), spec_key_from_u64(end_key), r),
            match r {
                Ok(entries) => keys_sorted(decoded_keys(entries@)) && keys_within(
                    decoded_keys(entries@),
                    spec_key_from_u64(start_key),
                    spec_key_from_u64(end_key),
                ),
                Err(e) => e.kind == ErrorClass::StoreEngine || e.kind == ErrorClass::Serialization,
            },
    {
        let start = key_from_u64(start_key);
        let end = key_from_u64(end_key);
        self.read_range(start.as_slice(), end.as_slice())
    }

    /// The values of the range, decoded, in the order of their keys; the
    /// keys themselves are dropped: what `read_range_vars_outcome` makes of
    /// the table's answer to a scan of the range, or of the engine's failure
    /// to open the transaction.
    pub fn read_range_vars<V: Storable>(&self, start_key: &[u8], end_key: &[u8]) -> (r: Result<
        Vec<V>,
        Error,
    >)
        ensures
            scans_values_to::<V>(start_key@, end_key@, r),
            r matches Err(e) ==> e.kind == ErrorClass::StoreEngine || e.kind
                == ErrorClass::Serialization,
    {
        let work = |db: &Table| -> (got: Result<Vec<V>, Error>)
            ensures
                scans_values_to::<V>(start_key@, end_key@, got),
                got matches Err(e) ==> e.kind == ErrorClass::StoreEngine || e.kind
                    == ErrorClass::Serialization,
            { crate::table::read_range_vars::<V>(db, start_key, end_key) };
        let r = reader(self, work);
        proof {
            if !worked_out(work, r) {
                lemma_refusal_scans_values::<V>(start_key@, end_key@, r);
            }
        }
        r
    }

    /// The first value of the range, in the order of the keys, that `search`
    /// takes. Nothing behind it is decoded or shown to `search`. It is what
    /// `search_range_outcome` makes of the table's answer to a scan of the
    /// range, or of the engine's failure to open the transaction.
    pub fn search_range<V: Storable, F: Fn(&V) -> bool>(
        &self,
        start_key: &[u8],
        end_key: &[u8],
        search: F,
    ) -> (r: Result<V, Error>)
        requires
            forall|x: &V| call_requires(search, (x,)),
        ensures
            searches_to(start_key@, end_key@, &search, r),
            match r {
                Ok(value) => call_ensures(search, (&value,), true),
                Err(e) => e.kind != ErrorClass::CallerMisuse,
            },
    {
        let wanted: &F = &search;
        let work = |db: &Table| -> (got: Result<V, Error>)
            ensures
                searches_to(start_key@, end_key@, wanted, got),
                match got {
                    Ok(value) => call_ensures(*wanted, (&value,), true),
                    Err(e) => e.kind != ErrorClass::CallerMisuse,
                },
            { crate::table::search_range::<V, F>(db, start_key, end_key, wanted) };
        let r = reader(self, work);
        proof {
            if !worked_out(work, r) {
                lemma_refusal_searches::<V, F>(start_key@, end_key@, wanted, r);
            }
        }
        r
    }

    /// `search_range` with a `search` that may fail: a failure of `search` on
    /// a value before any that it takes fails the search with that failure.
    /// It is what `try_search_range_outcome` makes of the table's answer to a
    /// scan of the range, or of the engine's failure to open the transaction.
    pub fn try_search_range<V: Storable, F: Fn(&V) -> Result<bool, Error>>(
        &self,
        start_key: &[u8],
        end_key: &[u8],
        search: F,
    ) -> (r: Result<V, Error>)
        requires
            forall|x: &V| call_requires(search, (x,)),
        ensures
            tries_search_to(start_key@, end_key@, &search, r),
            r matches Ok(value) ==> call_ensures(search, (&value,), Ok(true)),
    {
        let wanted: &F = &search;
        let work = |db: &Table| -> (got: Result<V, Error>)
            ensures
                tries_search_to(start_key@, end_key@, wanted, got),
                got matches Ok(value) ==> call_ensures(*wanted, (&value,), Ok(true)),
            { crate::table::try_search_range::<V, F>(db, start_key, end_key, wanted) };
        let r = reader(self, work);
        proof {
            if !worked_out(work, r) {
                lemma_refusal_tries_search::<V, F>(start_key@, end_key@, wanted, r);
            }
        }
        r
    }

    /// The keys of the range, in their order: what `key_range_outcome` makes
    /// of the table's answer to a scan of the range, or of the engine's
    /// failure to open the transaction.
    pub fn key_range(&self, start_key: &[u8], end_key: &[u8]) -> (r: Result<Vec<Vec<u8>>, Error>)
        ensures
            lists_keys_to(start_key@, end_key@, r),
            match r {
                Ok(keys) => keys_sorted(listed_keys(keys@)) && keys_within(
                    listed_keys(keys@),
                    start_key@,
                    end_key@,
                ),
                Err(e) => e.kind == ErrorClass::StoreEngine,
            },
    {
        let work = |db: &Table| -> (got: Result<Vec<Vec<u8>>, Error>)
            ensures
                lists_keys_to(start_key@, end_key@, got),
                match got {
                    Ok(keys) => keys_sorted(listed_keys(keys@)) && keys_within(
                        listed_keys(keys@),
                        start_key@,
                        end_key@,
                    ),
                    Err(e) => e.kind == ErrorClass::StoreEngine,
                },
            { crate::table::key_range(db, start_key, end_key) };
        let r = reader(self, work);
        proof {
            if !worked_out(work, r) {
                lemma_refusal_lists_keys(start_key@, end_key@, r);
            }
        }
        r
    }

    /// Stores `value` under `key`, in place of what was there.
    pub fn write<V: Storable>(&self, key: &[u8], value: V) -> (r: Result<(), Error>)
        ensures
            r matches Err(e) ==> e.kind == ErrorClass::StoreEngine,
    {
        let work = |db: &Table| -> (put: Result<(), Error>)
            ensures
                put matches Err(e) ==> e.kind == ErrorClass::StoreEngine,
            { crate::table::write::<V>(db, key, &value) };
        writer(self, work)
    }

    /// Removes the entry under `key`. Where there is none, that is said.
    pub fn delete(&self, key: &[u8]) -> (r: Result<(), Error>)
        ensures
            r matches Err(e) ==> e.kind == ErrorClass::StoreEngine || e.kind
                == ErrorClass::NotFound,
    {
        let work = |db: &Table| -> (gone: Result<(), Error>)
            ensures
                gone matches Err(e) ==> e.kind == ErrorClass::StoreEngine || e.kind
                    == ErrorClass::NotFound,
            { crate::table::delete(db, key) };
        writer(self, work)
    }

    /// Stores the pairs, in the order given and in chunks that commit one
    /// after the other. With `overwrite_on_duplicate` a pair replaces what
    /// its key held; without it, a pair whose key is taken leaves the stored
    /// value as it is and is listed in the report.
    pub fn write_bulk<V: Storable>(
        &self,
        values: Vec<(&[u8], V)>,
        overwrite_on_duplicate: bool,
    ) -> (r: Result<BatchReport, BatchError>)
        ensures
            match r {
                Ok(report) => {
                    &&& report.is_whole(values.len())
                    &&& skipped_in_order(report.skipped@, values.len() as nat)
                    &&& overwrite_on_duplicate ==> report.skipped@.len() == 0
                },
                Err(failure) => {
                    &&& failure.committed.is_short_of(values.len())
                    &&& skipped_in_order(
                        failure.committed.skipped@,
                        failure.committed.entries as nat,
                    )
                    &&& overwrite_on_duplicate ==> failure.committed.skipped@.len() == 0
                    &&& failure.cause.kind == ErrorClass::StoreEngine
                },
            },
    {
        let serialized = encode_pairs(&values);
        batched_set(self, &serialized, overwrite_on_duplicate)
    }

    /// Removes the entries under the keys, in the order given and in chunks
    /// that commit one after the other.
    pub fn delete_bulk(&self, keys: Vec<&[u8]>) -> (r: Result<BatchReport, BatchError>)
        ensures
            match r {
                Ok(report) => report.is_whole(keys.len()) && report.skipped@.len() == 0,
                Err(failure) => {
                    &&& failure.committed.is_short_of(keys.len())
                    &&& failure.committed.skipped@.len() == 0
                    &&& failure.cause.kind == ErrorClass::StoreEngine || failure.cause.kind
                        == ErrorClass::NotFound
                },
            },
    {
        batched_del(self, &keys)
    }

    /// What `delete_range` comes to, given what looking up the keys of the
    /// range came to: the keys that were found are removed as one batch, each
    /// key handed on as it was found; a failed look-up is handed on and
    /// nothing is removed.
    pub fn delete_range_outcome(&self, found: Result<Vec<Vec<u8>>, Error>) -> (r: Result<
        BatchReport,
        BatchError,
    >)
        ensures
            delete_range_result(found, r),
    {
        match found {
            Ok(keys) => {
                let key_refs = key_slices(&keys);
                self.delete_bulk(key_refs)
            },
            Err(e) => Err(
                BatchError {
                    cause: e,
                    committed: BatchReport { chunks: 0, entries: 0, skipped: Vec::new() },
                },
            ),
        }
    }

    /// Removes the entries of the range. The keys are collected in one read
    /// transaction and removed afterwards, in chunks: an entry that another
    /// writer adds to the range in between is not among them and stays. The
    /// result is what `delete_range_outcome` makes of the result of
    /// `key_range` on the range.
    pub fn delete_range(&self, start_key: &[u8], end_key: &[u8]) -> (r: Result<
        BatchReport,
        BatchError,
    >)
        ensures
            deletes_range(start_key@, end_key@, r),
            match r {
                Ok(report) => report.chunks == spec_chunk_count(report.entries as nat)
                    && report.skipped@.len() == 0,
                Err(failure) => {
                    &&& failure.committed.entries == spec_chunk_start(
                        failure.committed.chunks as nat,
                    )
                    &&& failure.committed.skipped@.len() == 0
                    &&& failure.cause.kind == ErrorClass::StoreEngine || failure.cause.kind
                        == ErrorClass::NotFound
                },
            },
    {
        let found = self.key_range(start_key, end_key);
        let ghost looked_up = found;
        let r = self.delete_range_outcome(found);
        proof {
            assert(lists_keys_to(start_key@, end_key@, looked_up) && delete_range_result(
                looked_up,
                r,
            ));
            lemma_range_removal_shape(start_key@, end_key@, r);
        }
        r
    }
}

} // verus!
