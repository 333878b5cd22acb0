//! The storage engine and the places where the layer calls it.
//!
//! Nothing in this file is proved, and nothing is claimed of what the engine
//! returns. Each function makes one call into the engine and hands back what
//! the engine returned.

use vstd::prelude::*;
use lmdb_rs::{
    Database, DbFlags, DbHandle, EnvBuilder, Environment, MdbError, ReadonlyTransaction,
    Transaction,
};
use crate::error::EngineFailure;

verus! {

/// The open environment of the engine. Opaque to the proofs.
#[verifier::external_type_specification]
#[verifier::external_body]
pub struct ExEnvironment(Environment);

/// The handle of a table inside an environment. Opaque to the proofs.
#[verifier::external_type_specification]
#[verifier::external_body]
pub struct ExDbHandle(DbHandle);

/// The engine's own error. Opaque to the proofs; `engine_failure` turns it
/// into plain data.
#[verifier::external_type_specification]
#[verifier::external_body]
pub struct ExMdbError(MdbError);

/// A write transaction. Opaque to the proofs.
#[verifier::external_type_specification]
#[verifier::external_body]
pub struct ExTransaction<'a>(Transaction<'a>);

/// A read transaction. Opaque to the proofs.
#[verifier::external_type_specification]
#[verifier::external_body]
pub struct ExReadonlyTransaction<'a>(ReadonlyTransaction<'a>);

/// A table bound to a transaction. Opaque to the proofs.
#[verifier::external_type_specification]
#[verifier::external_body]
pub struct ExDatabase<'a>(Database<'a>);

/// The store's table as one open transaction sees it. A value of this type
/// is made by `reader`, `writer` and `batched_op` alone, from the store's
/// unnamed table, and nothing outside this file reaches the engine's handle
/// inside it.
pub struct Table<'t> {
    db: Database<'t>,
}

/// `EnvBuilder::open` with the given map size and file mode, on a directory
/// that the engine creates if it is missing. Nothing is claimed of the
/// outcome.
#[verifier::external_body]
pub(crate) fn open_environment(dir: &str, map_size: u64, mode: u32) -> (r: Result<
    Environment,
    MdbError,
>)
{
    EnvBuilder::new().map_size(map_size).open(dir, mode)
}

/// `Environment::get_default_db` without flags: the handle of the one
/// unnamed table. Nothing is claimed of the outcome.
#[verifier::external_body]
pub(crate) fn default_table(env: &Environment) -> (r: Result<DbHandle, MdbError>)
{
    env.get_default_db(DbFlags::empty())
}

/// `Environment::get_reader`: a new read transaction. Nothing is claimed of
/// the outcome.
#[verifier::external_body]
pub(crate) fn begin_read<'e>(env: &'e Environment) -> (r: Result<ReadonlyTransaction<'e>, MdbError>)
{
    env.get_reader()
}

/// `Environment::new_transaction`: a new write transaction. The engine lets
/// one writer in at a time, so the call waits while another is open.
/// Nothing is claimed of the outcome.
#[verifier::external_body]
pub(crate) fn begin_write<'e>(env: &'e Environment) -> (r: Result<Transaction<'e>, MdbError>)
{
    env.new_transaction()
}

/// `ReadonlyTransaction::bind`: the table as the read transaction sees it.
#[verifier::external_body]
pub(crate) fn bind_read<'t>(txn: &'t ReadonlyTransaction, handle: &DbHandle) -> (table: Table<'t>)
{
    Table { db: txn.bind(handle) }
}

/// `Transaction::bind`: the table as the write transaction sees it.
#[verifier::external_body]
pub(crate) fn bind_write<'t>(txn: &'t Transaction, handle: &DbHandle) -> (table: Table<'t>)
{
    Table { db: txn.bind(handle) }
}

/// `Transaction::commit`. Nothing is claimed of the outcome.
#[verifier::external_body]
pub(crate) fn commit(txn: Transaction) -> (r: Result<(), MdbError>)
{
    txn.commit()
}

/// `Database::get`, with the value copied out. Nothing is claimed of the
/// outcome.
#[verifier::external_body]
pub(crate) fn table_get(table: &Table, key: &[u8]) -> (r: Result<Vec<u8>, MdbError>)
{
    table.db.get::<Vec<u8>>(&key)
}

/// `Database::set`: stores the value under the key, replacing what was
/// there. Nothing is claimed of the outcome.
#[verifier::external_body]
pub(crate) fn table_set(table: &Table, key: &[u8], value: &[u8]) -> (r: Result<(), MdbError>)
{
    table.db.set(&key, &value)
}

/// `Database::insert`: stores the value only under a key that is not in the
/// table yet. Nothing is claimed of the outcome.
#[verifier::external_body]
pub(crate) fn table_insert(table: &Table, key: &[u8], value: &[u8]) -> (r: Result<(), MdbError>)
{
    table.db.insert(&key, &value)
}

/// `Database::del`. Nothing is claimed of the outcome.
#[verifier::external_body]
pub(crate) fn table_del(table: &Table, key: &[u8]) -> (r: Result<(), MdbError>)
{
    table.db.del(&key)
}

/// `Database::keyrange_from_to`, with each entry that the iterator yields
/// copied out as key and value. The engine walks the range in the table's
/// own order of keys, which is stored with the table; nothing is claimed of
/// the outcome.
#[verifier::external_body]
pub(crate) fn table_range(table: &Table, start: &[u8], end: &[u8]) -> (r: Result<
    Vec<(Vec<u8>, Vec<u8>)>,
    MdbError,
>)
{
    let found = table.db.keyrange_from_to(&start, &end)?;
    Ok(found.map(|entry| entry.get::<Vec<u8>, Vec<u8>>()).collect())
}

/// Tells the variants of `MdbError` apart. The two that the layer reacts to
/// keep their identity; any other is carried as its `Debug` text.
#[verifier::external_body]
pub(crate) fn engine_failure(e: MdbError) -> (f: EngineFailure)
{
    match e {
        MdbError::NotFound => EngineFailure::NotFound,
        MdbError::KeyExists => EngineFailure::KeyExists,
        other => EngineFailure::Failed(format!("{:?}", other)),
    }
}

} // verus!
