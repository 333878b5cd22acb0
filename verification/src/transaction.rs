//! Transactions: a unit of work runs against the table inside one read or
//! one write transaction, and the transaction ends with it.
//!
//! A read transaction sees the table as it was when the transaction began.
//! A write transaction is committed when the work succeeds and abandoned
//! when it fails, so that nothing of a failed unit of work becomes visible.

use vstd::prelude::*;
use crate::db::DB;
use crate::engine::Table;
use crate::engine::{
    begin_read, begin_write, bind_read, bind_write, commit, default_table, engine_failure,
};
use crate::error::{Error, ErrorClass};

verus! {

/// `outcome` is a result that `func` can give on some bound table.
pub open spec fn worked_out<T, F: Fn(&Table) -> Result<T, Error>>(
    func: F,
    outcome: Result<T, Error>,
) -> bool {
    exists|db: &Table| call_ensures(func, (db,), outcome)
}

/// Runs `func` inside a read transaction on the default table. The
/// transaction is released when `func` returns, whatever it returns. Where
/// no transaction can be had, `func` does not run.
pub fn reader<T, F: Fn(&Table) -> Result<T, Error>>(store: &DB, func: F) -> (r: Result<
    T,
    Error,
>)
    requires
        forall|db: &Table| call_requires(func, (db,)),
    ensures
        worked_out(func, r) || (r matches Err(e) && e.kind == ErrorClass::StoreEngine),
{
    let table = match default_table(store.env()) {
        Ok(table) => table,
        Err(e) => {
            return Err(Error::store_engine(engine_failure(e)));
        },
    };
    let txn = match begin_read(store.env()) {
        Ok(txn) => txn,
        Err(e) => {
            return Err(Error::store_engine(engine_failure(e)));
        },
    };
    let db = bind_read(&txn, &table);
    func(&db)
}

/// Runs `func` inside a write transaction on the default table. When `func`
/// succeeds the transaction is committed, and the result is that of `func`
/// if the commit succeeds too. When `func` fails the transaction is
/// abandoned and the failure is handed on as it is. Where no transaction can
/// be had, `func` does not run.
pub fn writer<T, F: Fn(&Table) -> Result<T, Error>>(store: &DB, func: F) -> (r: Result<
    T,
    Error,
>)
    requires
        forall|db: &Table| call_requires(func, (db,)),
    ensures
        match r {
            Ok(_) => worked_out(func, r),
            Err(e) => worked_out(func, r) || e.kind == ErrorClass::StoreEngine,
        },
{
    let table = match default_table(store.env()) {
        Ok(table) => table,
        Err(e) => {
            return Err(Error::store_engine(engine_failure(e)));
        },
    };
    let txn = match begin_write(store.env()) {
        Ok(txn) => txn,
        Err(e) => {
            return Err(Error::store_engine(engine_failure(e)));
        },
    };
    let done = {
        let db = bind_write(&txn, &table);
        func(&db)
    };
    match done {
        Ok(value) => match commit(txn) {
            Ok(()) => Ok(value),
            Err(e) => Err(Error::store_engine(engine_failure(e))),
        },
        Err(e) => Err(e),
    }
}

} // verus!
