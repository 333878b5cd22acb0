//! Batches: a long run of mutations, cut into chunks that each commit alone.
//!
//! A batch is not atomic. Its chunks are applied one after the other, each
//! in a write transaction of its own, and the writer lock is free between
//! two chunks. When a chunk fails, the chunks before it stay committed and
//! the chunks from it on are not applied; the failure says how far the batch
//! got.

use vstd::prelude::*;
use vstd::pervasive::unreached;
use crate::db_serialization::{serialize, Storable};
use crate::db::DB;
use crate::engine::Table;
use crate::engine::{
    begin_write, bind_write, commit, default_table, engine_failure, table_del, table_insert,
    table_set,
};
use crate::error::{message_of_failure, EngineFailure, Error, ErrorClass};

verus! {

/// Number of entries that one write transaction of a batch carries at most.
pub const CHUNK_SIZE: usize = 100;

/// How many chunks a batch of `count` entries is cut into.
pub open spec fn spec_chunk_count(count: nat) -> nat {
    ((count + CHUNK_SIZE - 1) / (CHUNK_SIZE as int)) as nat
}

/// Index of the first entry of chunk `h`.
pub open spec fn spec_chunk_start(h: nat) -> nat {
    h * (CHUNK_SIZE as nat)
}

/// Index behind the last entry of chunk `h` in a batch of `count` entries.
pub open spec fn spec_chunk_end(count: nat, h: nat) -> nat {
    if (h + 1) * CHUNK_SIZE <= count {
        ((h + 1) * CHUNK_SIZE) as nat
    } else {
        count
    }
}

/// How many entries the first `h` chunks of a batch of `count` entries hold.
pub open spec fn spec_entries_before(count: nat, h: nat) -> nat {
    if h * CHUNK_SIZE <= count {
        (h * CHUNK_SIZE) as nat
    } else {
        count
    }
}

/// What one entry's mutation came to: `outcome` is a result that `func` can
/// give for entry `i` on some bound table.
pub open spec fn ran_to<F: Fn(&Table, usize) -> Result<bool, Error>>(
    func: F,
    i: usize,
    outcome: Result<bool, Error>,
) -> bool {
    exists|db: &Table| call_ensures(func, (db, i), outcome)
}

/// Whether entry `i` was applied, going by the list of skipped entries.
pub open spec fn was_applied(skipped: Seq<usize>, i: usize) -> bool {
    !skipped.contains(i)
}

/// `skipped` holds positions among the first `entries` entries, in rising
/// order.
pub open spec fn skipped_in_order(skipped: Seq<usize>, entries: nat) -> bool {
    &&& forall|k: int| 0 <= k < skipped.len() ==> (#[trigger] skipped[k]) < entries
    &&& forall|j: int, k: int| 0 <= j < k < skipped.len() ==> skipped[j] < skipped[k]
}

/// `skipped` lists, in rising order, those of the first `entries` entries
/// that `func` left as they were; `func` applied every other one of them.
pub open spec fn outcomes_recorded<F: Fn(&Table, usize) -> Result<bool, Error>>(
    func: F,
    skipped: Seq<usize>,
    entries: nat,
) -> bool {
    &&& skipped_in_order(skipped, entries)
    &&& forall|i: usize|
        i < entries ==> #[trigger] ran_to(func, i, Ok(was_applied(skipped, i)))
}

/// How far a batch got.
#[derive(Debug)]
pub struct BatchReport {
    /// Chunks that were committed.
    pub chunks: usize,
    /// Entries that the committed chunks hold: the first `entries` of the batch.
    pub entries: usize,
    /// Positions, in the batch, of the committed entries that were left as
    /// they were because their key was taken.
    pub skipped: Vec<usize>,
}

/// A batch that stopped early: why, and what it had committed by then.
#[derive(Debug)]
pub struct BatchError {
    pub cause: Error,
    pub committed: BatchReport,
}

impl BatchReport {
    /// The report of a batch of `count` entries that went through.
    pub open spec fn is_whole(&self, count: usize) -> bool {
        &&& self.chunks == spec_chunk_count(count as nat)
        &&& self.entries == count
    }

    /// The report of a batch of `count` entries that stopped at chunk
    /// `self.chunks`: the chunks before it are in, all of them full, and
    /// that chunk and those behind it are not.
    pub open spec fn is_short_of(&self, count: usize) -> bool {
        &&& self.entries == spec_chunk_start(self.chunks as nat)
        &&& self.entries <= count
        &&& count > 0 ==> self.chunks < spec_chunk_count(count as nat) && self.entries < count
    }
}

impl BatchError {
    fn new(cause: Error, chunks: usize, entries: usize, skipped: Vec<usize>) -> (e: BatchError)
        ensures
            e.cause == cause,
            e.committed.chunks == chunks,
            e.committed.entries == entries,
            e.committed.skipped == skipped,
    {
        BatchError { cause, committed: BatchReport { chunks, entries, skipped } }
    }

    /// The cause is the engine's, or it is what `func` returned for an entry
    /// of the chunk at which the batch stopped.
    pub open spec fn explained_by<F: Fn(&Table, usize) -> Result<bool, Error>>(
        &self,
        func: F,
        count: usize,
    ) -> bool {
        ||| self.cause.kind == ErrorClass::StoreEngine
        ||| exists|i: usize|
            self.committed.entries <= i < spec_chunk_end(
                count as nat,
                self.committed.chunks as nat,
            ) && #[trigger] ran_to(func, i, Err(self.cause))
    }
}

/// Every entry of a batch lies in one chunk and in no other: entry `i`
/// lies in chunk `h` exactly if `h` is `i / CHUNK_SIZE`, and that is one of
/// the chunks of the batch.
pub proof fn lemma_chunks_partition(count: nat, i: nat, h: nat)
    requires
        i < count,
    ensures
        i / (CHUNK_SIZE as nat) < spec_chunk_count(count),
        (spec_chunk_start(h) <= i < spec_chunk_end(count, h)) <==> h == i / (CHUNK_SIZE as nat),
{
    if spec_chunk_start(h) <= i < spec_chunk_end(count, h) {
        assert(h * 100 <= i < (h + 1) * 100);
    }
}

/// The chunks follow one another without gap or overlap, in the order of
/// the batch; none is empty, none holds more than `CHUNK_SIZE` entries, and
/// all but the last are full.
pub proof fn lemma_chunk_shape(count: nat, h: nat)
    requires
        h < spec_chunk_count(count),
    ensures
        spec_chunk_start(h) == spec_entries_before(count, h),
        spec_chunk_end(count, h) == spec_entries_before(count, h + 1),
        0 < spec_chunk_end(count, h) - spec_chunk_start(h) <= CHUNK_SIZE,
        h + 1 < spec_chunk_count(count) ==> spec_chunk_end(count, h) - spec_chunk_start(h)
            == CHUNK_SIZE,
        h + 1 == spec_chunk_count(count) ==> spec_chunk_end(count, h) == count,
{
}

/// One more entry has run: the record grows by it.
proof fn lemma_record_outcome<F: Fn(&Table, usize) -> Result<bool, Error>>(
    func: F,
    before: Seq<usize>,
    i: usize,
    applied: bool,
)
    requires
        outcomes_recorded(func, before, i as nat),
        ran_to(func, i, Ok(applied)),
    ensures
        outcomes_recorded(
            func,
            if applied {
                before
            } else {
                before.push(i)
            },
            (i + 1) as nat,
        ),
{
    let after = if applied {
        before
    } else {
        before.push(i)
    };
    assert(was_applied(after, i) == applied) by {
        if !applied {
            assert(after[before.len() as int] == i);
        }
    }
    assert forall|x: usize| x < i implies was_applied(after, x) == was_applied(before, x) by {
        if before.contains(x) {
            let k = choose|k: int| 0 <= k < before.len() && before[k] == x;
            assert(after[k] == x);
        }
    }
    assert forall|x: usize| x < i + 1 implies #[trigger] ran_to(
        func,
        x,
        Ok(was_applied(after, x)),
    ) by {
        if x < i {
            assert(ran_to(func, x, Ok(was_applied(before, x))));
        }
    }
}

/// How many chunks a batch of `count` entries is cut into: `count` over
/// `CHUNK_SIZE`, rounded up.
pub fn chunk_count(count: usize) -> (n: usize)
    ensures
        n == spec_chunk_count(count as nat),
{
    let whole: usize = count / CHUNK_SIZE;
    if count % CHUNK_SIZE == 0 {
        whole
    } else {
        whole + 1
    }
}

/// `r` is a result of running `func` over a batch of `count` entries. A
/// batch that went through ran `func` to `Ok` on every entry and lists those
/// that `func` left as they were. A batch that stopped did so at the chunk
/// behind its last committed one: it ran `func` to `Ok` on every entry of
/// the committed chunks, and its cause is the engine's or what `func`
/// returned for an entry of the chunk at which it stopped.
pub open spec fn batch_result<F: Fn(&Table, usize) -> Result<bool, Error>>(
    func: F,
    count: usize,
    r: Result<BatchReport, BatchError>,
) -> bool {
    match r {
        Ok(report) => {
            &&& report.is_whole(count)
            &&& outcomes_recorded(func, report.skipped@, count as nat)
        },
        Err(failure) => {
            &&& failure.committed.is_short_of(count)
            &&& outcomes_recorded(
                func,
                failure.committed.skipped@,
                failure.committed.entries as nat,
            )
            &&& failure.explained_by(func, count)
        },
    }
}

/// Where `func` can only fail on entry `i`, the batch fails, and no chunk
/// from the one of entry `i` on is committed: the chunks before it may be
/// in, the entry's own chunk and all behind it are not.
pub proof fn lemma_forced_failure_stops_batch<F: Fn(&Table, usize) -> Result<bool, Error>>(
    func: F,
    count: usize,
    i: usize,
    r: Result<BatchReport, BatchError>,
)
    requires
        i < count,
        forall|db: &Table, outcome: Result<bool, Error>|
            call_ensures(func, (db, i), outcome) ==> outcome is Err,
        batch_result(func, count, r),
    ensures
        r matches Err(failure) && failure.committed.entries <= i && failure.committed.chunks <= i
            / CHUNK_SIZE,
{
    let entries = if r is Ok {
        count
    } else {
        r->Err_0.committed.entries
    };
    let skipped = if r is Ok {
        r->Ok_0.skipped@
    } else {
        r->Err_0.committed.skipped@
    };
    if i < entries {
        assert(ran_to(func, i, Ok(was_applied(skipped, i))));
    }
    if r is Err {
        let chunks = r->Err_0.committed.chunks;
        assert(chunks * 100 <= i);
    }
}

/// Runs `func` on the entries `0 .. count`, in order, in chunks of at most
/// `CHUNK_SIZE` entries. Each chunk runs in one write transaction, which is
/// committed when `func` has returned `Ok` for each of its entries and
/// abandoned at the first `Err`. `func` says `Ok(false)` for an entry that it
/// left as it was.
pub fn batched_op<F: Fn(&Table, usize) -> Result<bool, Error>>(
    store: &DB,
    count: usize,
    func: F,
) -> (r: Result<BatchReport, BatchError>)
    requires
        forall|db: &Table, i: usize| i < count ==> call_requires(func, (db, i)),
    ensures
        batch_result(func, count, r),
{
    let mut skipped: Vec<usize> = Vec::new();
    let table = match default_table(store.env()) {
        Ok(table) => table,
        Err(e) => {
            return Err(BatchError::new(Error::store_engine(engine_failure(e)), 0, 0, skipped));
        },
    };
    let chunks = chunk_count(count);
    let mut h: usize = 0;
    while h < chunks
        invariant
            h <= chunks,
            chunks == spec_chunk_count(count as nat),
            forall|db: &Table, i: usize| i < count ==> call_requires(func, (db, i)),
            outcomes_recorded(func, skipped@, spec_entries_before(count as nat, h as nat)),
        decreases chunks - h,
    {
        let lo: usize = h * CHUNK_SIZE;
        let hi: usize = if count - lo > CHUNK_SIZE {
            lo + CHUNK_SIZE
        } else {
            count
        };
        let txn = match begin_write(store.env()) {
            Ok(txn) => txn,
            Err(e) => {
                return Err(BatchError::new(Error::store_engine(engine_failure(e)), h, lo, skipped));
            },
        };
        let mut pending: Vec<usize> = Vec::new();
        {
            let db = bind_write(&txn, &table);
            let mut i: usize = lo;
            while i < hi
                invariant
                    lo <= i <= hi <= count,
                    lo == spec_chunk_start(h as nat),
                    hi == spec_chunk_end(count as nat, h as nat),
                    h < chunks,
                    chunks == spec_chunk_count(count as nat),
                    forall|db: &Table, i: usize| i < count ==> call_requires(func, (db, i)),
                    outcomes_recorded(func, skipped@, lo as nat),
                    outcomes_recorded(func, skipped@ + pending@, i as nat),
                decreases hi - i,
            {
                let ghost before = skipped@ + pending@;
                match func(&db, i) {
                    Ok(applied) => {
                        if !applied {
                            pending.push(i);
                        }
                        proof {
                            assert(ran_to(func, i, Ok(applied)));
                            lemma_record_outcome(func, before, i, applied);
                            if !applied {
                                assert(skipped@ + pending@ == before.push(i));
                            }
                        }
                    },
                    Err(e) => {
                        proof {
                            assert(ran_to(func, i, Err(e)));
                        }
                        return Err(BatchError::new(e, h, lo, skipped));
                    },
                }
                i += 1;
            }
        }
        match commit(txn) {
            Ok(()) => {},
            Err(e) => {
                return Err(BatchError::new(Error::store_engine(engine_failure(e)), h, lo, skipped));
            },
        }
        skipped.append(&mut pending);
        h += 1;
    }
    Ok(BatchReport { chunks, entries: count, skipped })
}

/// The pairs as they are handed to the engine: each key with the encoding of
/// its own value, in the order given.
pub fn encode_pairs<'a, V: Storable>(values: &Vec<(&'a [u8], V)>) -> (out: Vec<(&'a [u8], Vec<u8>)>)
    ensures
        out@.len() == values@.len(),
        forall|i: int|
            0 <= i < values@.len() ==> (#[trigger] out@[i]).0@ == values@[i].0@ && out@[i].1@
                == V::encoding(values@[i].1@),
{
    let mut out: Vec<(&'a [u8], Vec<u8>)> = Vec::with_capacity(values.len());
    let mut i: usize = 0;
    while i < values.len()
        invariant
            i <= values@.len(),
            out@.len() == i,
            forall|k: int|
                0 <= k < i ==> (#[trigger] out@[k]).0@ == values@[k].0@ && out@[k].1@
                    == V::encoding(values@[k].1@),
        decreases values@.len() - i,
    {
        let bytes = match serialize(&values[i].1) {
            Ok(bytes) => bytes,
            Err(_) => unreached(),
        };
        out.push((values[i].0, bytes));
        i += 1;
    }
    out
}

/// The keys as they are handed to the engine: each key as a slice, in the
/// order given.
pub fn key_slices<'a>(keys: &'a Vec<Vec<u8>>) -> (refs: Vec<&'a [u8]>)
    ensures
        refs@.len() == keys@.len(),
        forall|i: int| 0 <= i < keys@.len() ==> (#[trigger] refs@[i])@ == keys@[i]@,
{
    let mut refs: Vec<&'a [u8]> = Vec::with_capacity(keys.len());
    let mut i: usize = 0;
    while i < keys.len()
        invariant
            i <= keys@.len(),
            refs@.len() == i,
            forall|k: int| 0 <= k < i ==> (#[trigger] refs@[k])@ == keys@[k]@,
        decreases keys@.len() - i,
    {
        refs.push(keys[i].as_slice());
        i += 1;
    }
    refs
}

/// What storing one entry comes to, given what the table answered. An entry
/// whose key was taken, in a write that must not replace, is skipped:
/// `Ok(false)`. Any other failure of the engine fails the write.
pub fn put_outcome(stored: Result<(), EngineFailure>, overwrite_on_duplicate: bool) -> (r: Result<
    bool,
    Error,
>)
    ensures
        match stored {
            Ok(_) => r == Ok::<bool, Error>(true),
            Err(EngineFailure::KeyExists) if !overwrite_on_duplicate => r == Ok::<bool, Error>(
                false,
            ),
            Err(failure) => r matches Err(e) && e.kind == ErrorClass::StoreEngine && e.message@
                == message_of_failure(failure),
        },
{
    match stored {
        Ok(_) => Ok(true),
        Err(failure) => {
            if !overwrite_on_duplicate {
                if let EngineFailure::KeyExists = failure {
                    return Ok(false);
                }
            }
            Err(Error::store_engine(failure))
        },
    }
}

/// Stores the pairs, in order and in chunks. With `overwrite_on_duplicate`
/// a pair replaces what its key held. Without it, a pair whose key is taken
/// is skipped, the stored value stays, and the report lists the pair.
pub fn batched_set(
    store: &DB,
    pairs: &Vec<(&[u8], Vec<u8>)>,
    overwrite_on_duplicate: bool,
) -> (r: Result<BatchReport, BatchError>)
    ensures
        match r {
            Ok(report) => {
                &&& report.is_whole(pairs.len())
                &&& skipped_in_order(report.skipped@, pairs.len() as nat)
                &&& overwrite_on_duplicate ==> report.skipped@.len() == 0
            },
            Err(failure) => {
                &&& failure.committed.is_short_of(pairs.len())
                &&& skipped_in_order(failure.committed.skipped@, failure.committed.entries as nat)
                &&& overwrite_on_duplicate ==> failure.committed.skipped@.len() == 0
                &&& failure.cause.kind == ErrorClass::StoreEngine
            },
        },
{
    let put = |db: &Table, i: usize| -> (res: Result<bool, Error>)
        requires
            i < pairs.len(),
        ensures
            overwrite_on_duplicate ==> res != Ok::<bool, Error>(false),
            res matches Err(e) ==> e.kind == ErrorClass::StoreEngine,
        {
            let stored = if overwrite_on_duplicate {
                table_set(db, pairs[i].0, pairs[i].1.as_slice())
            } else {
                table_insert(db, pairs[i].0, pairs[i].1.as_slice())
            };
            match stored {
                Ok(()) => put_outcome(Ok(()), overwrite_on_duplicate),
                Err(e) => put_outcome(Err(engine_failure(e)), overwrite_on_duplicate),
            }
        };
    let r = batched_op(store, pairs.len(), put);
    proof {
        let skipped = if r is Ok {
            r->Ok_0.skipped@
        } else {
            r->Err_0.committed.skipped@
        };
        if overwrite_on_duplicate && skipped.len() > 0 {
            let i = skipped[0];
            assert(skipped.contains(i));
            assert(ran_to(put, i, Ok(was_applied(skipped, i))));
        }
    }
    r
}

/// Removes the entries under the keys, in order and in chunks. A key under
/// which there is nothing fails its chunk.
pub fn batched_del(store: &DB, keys: &Vec<&[u8]>) -> (r: Result<BatchReport, BatchError>)
    ensures
        match r {
            Ok(report) => report.is_whole(keys.len()) && report.skipped@.len() == 0,
            Err(failure) => {
                &&& failure.committed.is_short_of(keys.len())
                &&& failure.committed.skipped@.len() == 0
                &&& failure.cause.kind == ErrorClass::StoreEngine || failure.cause.kind
                    == ErrorClass::NotFound
            },
        },
{
    let del = |db: &Table, i: usize| -> (res: Result<bool, Error>)
        requires
            i < keys.len(),
        ensures
            res != Ok::<bool, Error>(false),
            res matches Err(e) ==> e.kind == ErrorClass::StoreEngine || e.kind
                == ErrorClass::NotFound,
        {
            match table_del(db, keys[i]) {
                Ok(()) => Ok(true),
                Err(e) => Err(Error::from_engine(engine_failure(e))),
            }
        };
    let r = batched_op(store, keys.len(), del);
    proof {
        let skipped = if r is Ok {
            r->Ok_0.skipped@
        } else {
            r->Err_0.committed.skipped@
        };
        if skipped.len() > 0 {
            let i = skipped[0];
            assert(skipped.contains(i));
            assert(ran_to(del, i, Ok(was_applied(skipped, i))));
        }
    }
    r
}

} // verus!
