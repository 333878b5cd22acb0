//! The operations on a bound table: the table as one open transaction sees
//! it. A unit of work that runs inside a transaction is made of these.

use vstd::prelude::*;
use crate::engine::Table;
use crate::db_serialization::{deserialize, serialize, Storable};
use crate::engine::{
    engine_failure, table_del, table_get, table_range, table_set,
};
use crate::error::{surfaces_as_engine, surfaces_at_key, EngineFailure, Error, ErrorClass};
use crate::key::{
    in_range, keys_rising, keys_sorted, keys_within, lemma_lex_less_total,
    lemma_lex_less_transitive, lemma_rising_is_sorted, lex_less,
};
use crate::scan::{
    answer_in_order, entry_keys, try_find_first, try_first_found, undecodable, decode_entries, decode_values, entries_decoded, entry_key_list, find_first, first_found,
    keys_listed, values_decoded,
};

verus! {

/// The keys of decoded entries, in the order of the entries.
pub open spec fn decoded_keys<V>(entries: Seq<(Vec<u8>, V)>) -> Seq<Seq<u8>> {
    Seq::new(entries.len(), |i: int| entries[i].0@)
}

/// The keys of a list of keys, as byte strings.
pub open spec fn listed_keys(keys: Seq<Vec<u8>>) -> Seq<Seq<u8>> {
    Seq::new(keys.len(), |i: int| keys[i]@)
}

/// `r` is what a read comes to when the table answers `fetched`: stored
/// bytes are decoded, bytes of another shape are refused, and a failure of
/// the engine surfaces, absence as `NotFound`.
pub open spec fn read_result<V: Storable>(
    fetched: Result<Vec<u8>, EngineFailure>,
    r: Result<V, Error>,
) -> bool {
    match fetched {
        Ok(bytes) => match V::decoding(bytes@) {
            Some(value) => r matches Ok(x) && x@ == value,
            None => r matches Err(e) && e.kind == ErrorClass::Serialization,
        },
        Err(failure) => r matches Err(e) && surfaces_at_key(failure, e),
    }
}

/// What holds of every answer to a scan of the range from `start` to before
/// `end` that the layer takes from the table: the keys of the entries rise
/// and lie in the range. `checked_answer` sees to it.
pub open spec fn scan_answer(
    found: Result<Vec<(Vec<u8>, Vec<u8>)>, EngineFailure>,
    start: Seq<u8>,
    end: Seq<u8>,
) -> bool {
    found matches Ok(raw) ==> keys_rising(entry_keys(raw@)) && keys_within(
        entry_keys(raw@),
        start,
        end,
    )
}

/// `r` is what `read_range` comes to when the table answers `found`.
pub open spec fn read_range_result<V: Storable>(
    found: Result<Vec<(Vec<u8>, Vec<u8>)>, EngineFailure>,
    r: Result<Vec<(Vec<u8>, V)>, Error>,
) -> bool {
    match found {
        Ok(raw) => entries_decoded::<V>(raw@, r),
        Err(failure) => r matches Err(e) && surfaces_as_engine(failure, e),
    }
}

/// `r` is what `read_range_vars` comes to when the table answers `found`.
pub open spec fn read_range_vars_result<V: Storable>(
    found: Result<Vec<(Vec<u8>, Vec<u8>)>, EngineFailure>,
    r: Result<Vec<V>, Error>,
) -> bool {
    match found {
        Ok(raw) => values_decoded::<V>(raw@, r),
        Err(failure) => r matches Err(e) && surfaces_as_engine(failure, e),
    }
}

/// `r` is what `key_range` comes to when the table answers `found`.
pub open spec fn key_range_result(
    found: Result<Vec<(Vec<u8>, Vec<u8>)>, EngineFailure>,
    r: Result<Vec<Vec<u8>>, Error>,
) -> bool {
    match found {
        Ok(raw) => r matches Ok(keys) && keys_listed(raw@, keys@),
        Err(failure) => r matches Err(e) && surfaces_as_engine(failure, e),
    }
}

/// `r` is what `search_range` comes to when the table answers `found`.
pub open spec fn search_range_result<V: Storable, F: Fn(&V) -> bool>(
    found: Result<Vec<(Vec<u8>, Vec<u8>)>, EngineFailure>,
    search: &F,
    r: Result<V, Error>,
) -> bool {
    match found {
        Ok(raw) => first_found(raw@, search, r),
        Err(failure) => r matches Err(e) && surfaces_as_engine(failure, e),
    }
}

/// `r` is what `try_search_range` comes to when the table answers `found`.
pub open spec fn try_search_range_result<V: Storable, F: Fn(&V) -> Result<bool, Error>>(
    found: Result<Vec<(Vec<u8>, Vec<u8>)>, EngineFailure>,
    search: &F,
    r: Result<V, Error>,
) -> bool {
    match found {
        Ok(raw) => try_first_found(raw@, search, r),
        Err(failure) => r matches Err(e) && surfaces_as_engine(failure, e),
    }
}

/// `r` is what `read_outcome` makes of some answer that a table can give.
/// The clause names neither the key nor the store: it says how a result
/// hangs together, not which answer the table gave.
pub open spec fn reads_to<V: Storable>(r: Result<V, Error>) -> bool {
    exists|fetched: Result<Vec<u8>, EngineFailure>| read_result::<V>(fetched, r)
}

/// `r` is what `read_range_outcome` makes of some answer to a scan of the
/// range: of some entries whose keys rise inside it, or of some failure. The
/// clause does not name the store: it says how a result hangs together and
/// that it keeps to the range, not which entries the table held.
pub open spec fn scans_to<V: Storable>(
    start: Seq<u8>,
    end: Seq<u8>,
    r: Result<Vec<(Vec<u8>, V)>, Error>,
) -> bool {
    exists|found: Result<Vec<(Vec<u8>, Vec<u8>)>, EngineFailure>|
        scan_answer(found, start, end) && read_range_result::<V>(found, r)
}

/// `r` is what `read_range_vars_outcome` makes of some answer to a scan of
/// the range: of some entries whose keys rise inside it, or of some failure.
/// The clause does not name the store: it does not say which entries the
/// table held.
pub open spec fn scans_values_to<V: Storable>(
    start: Seq<u8>,
    end: Seq<u8>,
    r: Result<Vec<V>, Error>,
) -> bool {
    exists|found: Result<Vec<(Vec<u8>, Vec<u8>)>, EngineFailure>|
        scan_answer(found, start, end) && read_range_vars_result::<V>(found, r)
}

/// `r` is what `key_range_outcome` makes of some answer to a scan of the
/// range: of some entries whose keys rise inside it, or of some failure. The
/// clause does not name the store: it does not say which keys the table
/// held.
pub open spec fn lists_keys_to(start: Seq<u8>, end: Seq<u8>, r: Result<Vec<Vec<u8>>, Error>) -> bool {
    exists|found: Result<Vec<(Vec<u8>, Vec<u8>)>, EngineFailure>|
        scan_answer(found, start, end) && key_range_result(found, r)
}

/// `r` is what `search_range_outcome` makes of some answer to a scan of the
/// range: of some entries whose keys rise inside it, or of some failure. The
/// clause does not name the store: it does not say which entries the table
/// held.
pub open spec fn searches_to<V: Storable, F: Fn(&V) -> bool>(
    start: Seq<u8>,
    end: Seq<u8>,
    search: &F,
    r: Result<V, Error>,
) -> bool {
    exists|found: Result<Vec<(Vec<u8>, Vec<u8>)>, EngineFailure>|
        scan_answer(found, start, end) && search_range_result(found, search, r)
}

/// `r` is what `try_search_range_outcome` makes of some answer to a scan of
/// the range: of some entries whose keys rise inside it, or of some failure.
/// The clause does not name the store: it does not say which entries the
/// table held.
pub open spec fn tries_search_to<V: Storable, F: Fn(&V) -> Result<bool, Error>>(
    start: Seq<u8>,
    end: Seq<u8>,
    search: &F,
    r: Result<V, Error>,
) -> bool {
    exists|found: Result<Vec<(Vec<u8>, Vec<u8>)>, EngineFailure>|
        scan_answer(found, start, end) && try_search_range_result(found, search, r)
}

/// A failure of the engine before the table is reached is one of the
/// answers that `try_search_range` can get.
pub proof fn lemma_refusal_tries_search<V: Storable, F: Fn(&V) -> Result<bool, Error>>(
    start: Seq<u8>,
    end: Seq<u8>,
    search: &F,
    r: Result<V, Error>,
)
    requires
        r matches Err(e) && e.kind == ErrorClass::StoreEngine,
    ensures
        tries_search_to(start, end, search, r),
{
    let found: Result<Vec<(Vec<u8>, Vec<u8>)>, EngineFailure> = Err(
        EngineFailure::Failed(r->Err_0.message),
    );
    assert(scan_answer(found, start, end) && try_search_range_result(found, search, r));
}

/// A failure of the engine before the table is reached is one of the
/// answers that `search_range` can get.
pub proof fn lemma_refusal_searches<V: Storable, F: Fn(&V) -> bool>(
    start: Seq<u8>,
    end: Seq<u8>,
    search: &F,
    r: Result<V, Error>,
)
    requires
        r matches Err(e) && e.kind == ErrorClass::StoreEngine,
    ensures
        searches_to(start, end, search, r),
{
    let found: Result<Vec<(Vec<u8>, Vec<u8>)>, EngineFailure> = Err(
        EngineFailure::Failed(r->Err_0.message),
    );
    assert(scan_answer(found, start, end) && search_range_result(found, search, r));
}

/// What a search finds is a value that `search` takes, and a search does
/// not fail as a caller's mistake.
pub proof fn lemma_search_finds_a_match<V: Storable, F: Fn(&V) -> bool>(
    start: Seq<u8>,
    end: Seq<u8>,
    search: &F,
    r: Result<V, Error>,
)
    requires
        searches_to(start, end, search, r),
    ensures
        match r {
            Ok(value) => call_ensures(*search, (&value,), true),
            Err(e) => e.kind != ErrorClass::CallerMisuse,
        },
{
}

/// A failure of the engine before the table is reached is one of the
/// answers that a read can get.
pub proof fn lemma_refusal_reads<V: Storable>(r: Result<V, Error>)
    requires
        r matches Err(e) && e.kind == ErrorClass::StoreEngine,
    ensures
        reads_to::<V>(r),
{
    let fetched: Result<Vec<u8>, EngineFailure> = Err(EngineFailure::Failed(r->Err_0.message));
    assert(read_result::<V>(fetched, r));
}

/// A failure of the engine before the table is reached is one of the
/// answers that `read_range` can get.
pub proof fn lemma_refusal_scans<V: Storable>(
    start: Seq<u8>,
    end: Seq<u8>,
    r: Result<Vec<(Vec<u8>, V)>, Error>,
)
    requires
        r matches Err(e) && e.kind == ErrorClass::StoreEngine,
    ensures
        scans_to::<V>(start, end, r),
{
    let found: Result<Vec<(Vec<u8>, Vec<u8>)>, EngineFailure> = Err(
        EngineFailure::Failed(r->Err_0.message),
    );
    assert(scan_answer(found, start, end) && read_range_result::<V>(found, r));
}

/// A failure of the engine before the table is reached is one of the
/// answers that `read_range_vars` can get.
pub proof fn lemma_refusal_scans_values<V: Storable>(
    start: Seq<u8>,
    end: Seq<u8>,
    r: Result<Vec<V>, Error>,
)
    requires
        r matches Err(e) && e.kind == ErrorClass::StoreEngine,
    ensures
        scans_values_to::<V>(start, end, r),
{
    let found: Result<Vec<(Vec<u8>, Vec<u8>)>, EngineFailure> = Err(
        EngineFailure::Failed(r->Err_0.message),
    );
    assert(scan_answer(found, start, end) && read_range_vars_result::<V>(found, r));
}

/// A failure of the engine before the table is reached is one of the
/// answers that `key_range` can get.
pub proof fn lemma_refusal_lists_keys(start: Seq<u8>, end: Seq<u8>, r: Result<Vec<Vec<u8>>, Error>)
    requires
        r matches Err(e) && e.kind == ErrorClass::StoreEngine,
    ensures
        lists_keys_to(start, end, r),
{
    let found: Result<Vec<(Vec<u8>, Vec<u8>)>, EngineFailure> = Err(
        EngineFailure::Failed(r->Err_0.message),
    );
    assert(scan_answer(found, start, end) && key_range_result(found, r));
}

/// The entries of a scan come in the order of their keys, none twice, and
/// from inside the range; a scan fails only on the engine or on a value that
/// does not decode.
pub proof fn lemma_scan_is_sorted<V: Storable>(
    start: Seq<u8>,
    end: Seq<u8>,
    r: Result<Vec<(Vec<u8>, V)>, Error>,
)
    requires
        scans_to::<V>(start, end, r),
    ensures
        match r {
            Ok(entries) => keys_sorted(decoded_keys(entries@)) && keys_within(
                decoded_keys(entries@),
                start,
                end,
            ),
            Err(e) => e.kind == ErrorClass::StoreEngine || e.kind == ErrorClass::Serialization,
        },
{
    let found = choose|found: Result<Vec<(Vec<u8>, Vec<u8>)>, EngineFailure>|
        scan_answer(found, start, end) && read_range_result::<V>(found, r);
    if found is Ok && r is Ok {
        let raw = found->Ok_0@;
        assert(decoded_keys(r->Ok_0@) =~= entry_keys(raw));
        lemma_rising_is_sorted(entry_keys(raw));
    }
}

/// The keys of a scan come in their order, none twice, and from inside the
/// range; listing them fails only on the engine.
pub proof fn lemma_key_list_is_sorted(start: Seq<u8>, end: Seq<u8>, r: Result<Vec<Vec<u8>>, Error>)
    requires
        lists_keys_to(start, end, r),
    ensures
        match r {
            Ok(keys) => keys_sorted(listed_keys(keys@)) && keys_within(
                listed_keys(keys@),
                start,
                end,
            ),
            Err(e) => e.kind == ErrorClass::StoreEngine,
        },
{
    let found = choose|found: Result<Vec<(Vec<u8>, Vec<u8>)>, EngineFailure>|
        scan_answer(found, start, end) && key_range_result(found, r);
    if found is Ok && r is Ok {
        let raw = found->Ok_0@;
        assert(listed_keys(r->Ok_0@) =~= entry_keys(raw));
        lemma_rising_is_sorted(entry_keys(raw));
    }
}

/// The table hands out nothing for a range that holds no key: where `end`
/// is not behind `start`, an answer with entries has none.
pub proof fn lemma_empty_range_answer(
    found: Result<Vec<(Vec<u8>, Vec<u8>)>, EngineFailure>,
    start: Seq<u8>,
    end: Seq<u8>,
)
    requires
        !lex_less(start, end),
        scan_answer(found, start, end),
    ensures
        found matches Ok(raw) ==> raw@.len() == 0,
{
    if found is Ok && found->Ok_0@.len() > 0 {
        let key = entry_keys(found->Ok_0@)[0];
        assert(in_range(start, key, end));
        lemma_lex_less_total(key, start);
        if key != start {
            lemma_lex_less_transitive(start, key, end);
        }
    }
}

/// No entry comes out of a range that holds no key: where `end` is not
/// behind `start`, a `read_range` that succeeds is empty.
pub proof fn lemma_empty_range_scans_empty<V: Storable>(
    start: Seq<u8>,
    end: Seq<u8>,
    r: Result<Vec<(Vec<u8>, V)>, Error>,
)
    requires
        !lex_less(start, end),
        scans_to::<V>(start, end, r),
    ensures
        r matches Ok(entries) ==> entries@.len() == 0,
{
    let found = choose|found: Result<Vec<(Vec<u8>, Vec<u8>)>, EngineFailure>|
        scan_answer(found, start, end) && read_range_result::<V>(found, r);
    lemma_empty_range_answer(found, start, end);
}

/// No value comes out of a range that holds no key: where `end` is not
/// behind `start`, a `read_range_vars` that succeeds is empty.
pub proof fn lemma_empty_range_has_no_values<V: Storable>(
    start: Seq<u8>,
    end: Seq<u8>,
    r: Result<Vec<V>, Error>,
)
    requires
        !lex_less(start, end),
        scans_values_to::<V>(start, end, r),
    ensures
        r matches Ok(values) ==> values@.len() == 0,
{
    let found = choose|found: Result<Vec<(Vec<u8>, Vec<u8>)>, EngineFailure>|
        scan_answer(found, start, end) && read_range_vars_result::<V>(found, r);
    lemma_empty_range_answer(found, start, end);
}

/// What was written is what a scan of it gives back: where a table answers
/// a scan with the pairs that `encode_pairs` made of `values`, each key with
/// the encoding of its own value, `read_range_outcome` gives every one of
/// these keys with its value, in that order, and nothing else.
pub proof fn lemma_written_pairs_scan_back<V: Storable>(
    values: Seq<(&[u8], V)>,
    raw: Vec<(Vec<u8>, Vec<u8>)>,
    r: Result<Vec<(Vec<u8>, V)>, Error>,
)
    requires
        raw@.len() == values.len(),
        forall|i: int|
            0 <= i < values.len() ==> (#[trigger] raw@[i]).0@ == values[i].0@ && raw@[i].1@
                == V::encoding(values[i].1@),
        read_range_result::<V>(Ok(raw), r),
    ensures
        r matches Ok(entries) && entries@.len() == values.len() && forall|i: int|
            0 <= i < values.len() ==> (#[trigger] entries@[i]).0@ == values[i].0@ && entries@[i].1@
                == values[i].1@,
{
    assert forall|i: int| 0 <= i < raw@.len() implies V::decoding((#[trigger] raw@[i]).1@) == Some(
        values[i].1@,
    ) by {
        V::lemma_round_trip(values[i].1);
    }
    if r is Err {
        let i = choose|i: int| 0 <= i < raw@.len() && undecodable::<V>(#[trigger] raw@[i].1@);
        assert(V::decoding(raw@[i].1@) == Some(values[i].1@));
    }
}

/// What a read comes to, given what the table answered. Stored bytes are
/// decoded, and bytes of another shape are refused. Absence is reported as
/// `NotFound` and is never made into a value; any other failure of the
/// engine is handed on as such.
pub fn read_outcome<V: Storable>(fetched: Result<Vec<u8>, EngineFailure>) -> (r: Result<V, Error>)
    ensures
        read_result::<V>(fetched, r),
        fetched matches Err(EngineFailure::NotFound) ==> r matches Err(e) && e.kind
            == ErrorClass::NotFound,
{
    match fetched {
        Ok(bytes) => deserialize::<V>(bytes.as_slice()),
        Err(failure) => Err(Error::from_engine(failure)),
    }
}

/// What `read_range` comes to, given what the table answered to the scan:
/// the entries decoded, or the engine's failure.
pub fn read_range_outcome<V: Storable>(
    found: Result<Vec<(Vec<u8>, Vec<u8>)>, EngineFailure>,
) -> (r: Result<Vec<(Vec<u8>, V)>, Error>)
    ensures
        read_range_result::<V>(found, r),
{
    match found {
        Ok(raw) => decode_entries::<V>(&raw),
        Err(failure) => Err(Error::store_engine(failure)),
    }
}

/// What `read_range_vars` comes to, given what the table answered to the
/// scan: the values decoded, or the engine's failure.
pub fn read_range_vars_outcome<V: Storable>(
    found: Result<Vec<(Vec<u8>, Vec<u8>)>, EngineFailure>,
) -> (r: Result<Vec<V>, Error>)
    ensures
        read_range_vars_result::<V>(found, r),
{
    match found {
        Ok(raw) => decode_values::<V>(&raw),
        Err(failure) => Err(Error::store_engine(failure)),
    }
}

/// What `key_range` comes to, given what the table answered to the scan:
/// the keys, or the engine's failure.
pub fn key_range_outcome(found: Result<Vec<(Vec<u8>, Vec<u8>)>, EngineFailure>) -> (r: Result<
    Vec<Vec<u8>>,
    Error,
>)
    ensures
        key_range_result(found, r),
{
    match found {
        Ok(raw) => Ok(entry_key_list(&raw)),
        Err(failure) => Err(Error::store_engine(failure)),
    }
}

/// What `search_range` comes to, given what the table answered to the scan:
/// the first value that `search` takes, or the engine's failure.
pub fn search_range_outcome<V: Storable, F: Fn(&V) -> bool>(
    found: Result<Vec<(Vec<u8>, Vec<u8>)>, EngineFailure>,
    search: &F,
) -> (r: Result<V, Error>)
    requires
        forall|x: &V| call_requires(*search, (x,)),
    ensures
        search_range_result(found, search, r),
{
    match found {
        Ok(raw) => find_first::<V, F>(&raw, search),
        Err(failure) => Err(Error::store_engine(failure)),
    }
}

/// What `try_search_range` comes to, given what the table answered to the
/// scan: what `try_find_first` finds among the entries, or the engine's
/// failure.
pub fn try_search_range_outcome<V: Storable, F: Fn(&V) -> Result<bool, Error>>(
    found: Result<Vec<(Vec<u8>, Vec<u8>)>, EngineFailure>,
    search: &F,
) -> (r: Result<V, Error>)
    requires
        forall|x: &V| call_requires(*search, (x,)),
    ensures
        try_search_range_result(found, search, r),
{
    match found {
        Ok(raw) => try_find_first::<V, F>(&raw, search),
        Err(failure) => Err(Error::store_engine(failure)),
    }
}

/// What storing an entry comes to, given what the table answered.
pub fn write_outcome(stored: Result<(), EngineFailure>) -> (r: Result<(), Error>)
    ensures
        match stored {
            Ok(_) => r is Ok,
            Err(failure) => r matches Err(e) && surfaces_as_engine(failure, e),
        },
{
    match stored {
        Ok(_) => Ok(()),
        Err(failure) => Err(Error::store_engine(failure)),
    }
}

/// What removing an entry comes to, given what the table answered. That
/// there was no entry is said as `NotFound`.
pub fn delete_outcome(removed: Result<(), EngineFailure>) -> (r: Result<(), Error>)
    ensures
        match removed {
            Ok(_) => r is Ok,
            Err(failure) => r matches Err(e) && surfaces_at_key(failure, e),
        },
{
    match removed {
        Ok(_) => Ok(()),
        Err(failure) => Err(Error::from_engine(failure)),
    }
}

/// The answer of the table to a scan of the range, held against the range:
/// entries whose keys rise inside the range are handed on, and so is a
/// failure of the engine. Entries that come in another order, or from
/// outside the range, are a failure of the engine too: the table does not
/// keep its keys byte by byte.
pub fn checked_answer(
    found: Result<Vec<(Vec<u8>, Vec<u8>)>, EngineFailure>,
    start_key: &[u8],
    end_key: &[u8],
) -> (checked: Result<Vec<(Vec<u8>, Vec<u8>)>, EngineFailure>)
    ensures
        scan_answer(checked, start_key@, end_key@),
        match found {
            Ok(raw) => if scan_answer(found, start_key@, end_key@) {
                checked == found
            } else {
                checked matches Err(EngineFailure::Failed(text)) && text@
                    == "the table does not keep its keys in byte order"@
            },
            Err(_) => checked == found,
        },
{
    match found {
        Ok(raw) => {
            if answer_in_order(&raw, start_key, end_key) {
                Ok(raw)
            } else {
                Err(
                    EngineFailure::Failed(
                        "the table does not keep its keys in byte order".to_owned(),
                    ),
                )
            }
        },
        Err(failure) => Err(failure),
    }
}

/// The table's answer to a scan of the range, with its failure as plain
/// data, checked by `checked_answer`. The engine does not start a scan at
/// the empty key. No stored key is empty and every other key is at or behind
/// the key of one zero byte, so a scan from the empty key starts there.
fn scan(db: &Table, start_key: &[u8], end_key: &[u8]) -> (found: Result<
    Vec<(Vec<u8>, Vec<u8>)>,
    EngineFailure,
>)
    ensures
        scan_answer(found, start_key@, end_key@),
{
    let least: [u8; 1] = [0u8];
    let found = if start_key.len() == 0 {
        table_range(db, least.as_slice(), end_key)
    } else {
        table_range(db, start_key, end_key)
    };
    match found {
        Ok(raw) => checked_answer(Ok(raw), start_key, end_key),
        Err(e) => checked_answer(Err(engine_failure(e)), start_key, end_key),
    }
}

/// The value stored under `key`: what `read_outcome` makes of the table's
/// answer for `key`.
pub fn read<V: Storable>(db: &Table, key: &[u8]) -> (r: Result<V, Error>)
    ensures
        reads_to::<V>(r),
        r matches Err(e) ==> e.kind != ErrorClass::CallerMisuse,
{
    let fetched = match table_get(db, key) {
        Ok(bytes) => Ok(bytes),
        Err(e) => Err(engine_failure(e)),
    };
    let ghost answer = fetched;
    let r = read_outcome::<V>(fetched);
    assert(read_result::<V>(answer, r));
    r
}

/// Every entry whose key is not before `start_key` and before `end_key`,
/// decoded, in the order of the keys: what `read_range_outcome` makes of the
/// table's answer to a scan of the range.
pub fn read_range<V: Storable>(db: &Table, start_key: &[u8], end_key: &[u8]) -> (r: Result<
    Vec<(Vec<u8>, V)>,
    Error,
>)
    ensures
        scans_to::<V>(start_key@, end_key@, r),
        match r {
            Ok(entries) => keys_sorted(decoded_keys(entries@)) && keys_within(
                decoded_keys(entries@),
                start_key@,
                end_key@,
            ),
            Err(e) => e.kind == ErrorClass::StoreEngine || e.kind == ErrorClass::Serialization,
        },
{
    let found = scan(db, start_key, end_key);
    let ghost answer = found;
    let r = read_range_outcome::<V>(found);
    proof {
        assert(scan_answer(answer, start_key@, end_key@) && read_range_result::<V>(answer, r));
        lemma_scan_is_sorted::<V>(start_key@, end_key@, r);
    }
    r
}

/// The values of the range, decoded, in the order of their keys; the keys
/// themselves are dropped: what `read_range_vars_outcome` makes of the
/// table's answer to a scan of the range.
pub fn read_range_vars<V: Storable>(db: &Table, start_key: &[u8], end_key: &[u8]) -> (r: Result<
    Vec<V>,
    Error,
>)
    ensures
        scans_values_to::<V>(start_key@, end_key@, r),
        r matches Err(e) ==> e.kind == ErrorClass::StoreEngine || e.kind
            == ErrorClass::Serialization,
{
    let found = scan(db, start_key, end_key);
    let ghost answer = found;
    let r = read_range_vars_outcome::<V>(found);
    proof {
        assert(scan_answer(answer, start_key@, end_key@) && read_range_vars_result::<V>(
            answer,
            r,
        ));
    }
    r
}

/// The first value of the range, in the order of the keys, that `search`
/// takes. Nothing behind it is decoded or shown to `search`. It is what
/// `search_range_outcome` makes of the table's answer to a scan of the
/// range.
pub fn search_range<V: Storable, F: Fn(&V) -> bool>(
    db: &Table,
    start_key: &[u8],
    end_key: &[u8],
    search: &F,
) -> (r: Result<V, Error>)
    requires
        forall|x: &V| call_requires(*search, (x,)),
    ensures
        searches_to(start_key@, end_key@, search, r),
        match r {
            Ok(value) => call_ensures(*search, (&value,), true),
            Err(e) => e.kind != ErrorClass::CallerMisuse,
        },
{
    let found = scan(db, start_key, end_key);
    let ghost answer = found;
    let r = search_range_outcome::<V, F>(found, search);
    proof {
        assert(scan_answer(answer, start_key@, end_key@) && search_range_result(
            answer,
            search,
            r,
        ));
    }
    r
}

/// `search_range` with a `search` that may fail: a failure of `search` on a
/// value before any that it takes fails the search with that failure. It is
/// what `try_search_range_outcome` makes of the table's answer to a scan of
/// the range.
pub fn try_search_range<V: Storable, F: Fn(&V) -> Result<bool, Error>>(
    db: &Table,
    start_key: &[u8],
    end_key: &[u8],
    search: &F,
) -> (r: Result<V, Error>)
    requires
        forall|x: &V| call_requires(*search, (x,)),
    ensures
        tries_search_to(start_key@, end_key@, search, r),
        r matches Ok(value) ==> call_ensures(*search, (&value,), Ok(true)),
{
    let found = scan(db, start_key, end_key);
    let ghost answer = found;
    let r = try_search_range_outcome::<V, F>(found, search);
    proof {
        assert(scan_answer(answer, start_key@, end_key@) && try_search_range_result(
            answer,
            search,
            r,
        ));
    }
    r
}

/// The keys of the range, in their order: what `key_range_outcome` makes of
/// the table's answer to a scan of the range.
pub fn key_range(db: &Table, start_key: &[u8], end_key: &[u8]) -> (r: Result<
    Vec<Vec<u8>>,
    Error,
>)
    ensures
        lists_keys_to(start_key@, end_key@, r),
        match r {
            Ok(keys) => keys_sorted(listed_keys(keys@)) && keys_within(
                listed_keys(keys@),
                start_key@,
                end_key@,
            ),
            Err(e) => e.kind == ErrorClass::StoreEngine,
        },
{
    let found = scan(db, start_key, end_key);
    let ghost answer = found;
    let r = key_range_outcome(found);
    proof {
        assert(scan_answer(answer, start_key@, end_key@) && key_range_result(answer, r));
        lemma_key_list_is_sorted(start_key@, end_key@, r);
    }
    r
}

/// Stores `value` under `key`, in place of what was there: what
/// `write_outcome` makes of the table's answer to storing the bytes of
/// `value`.
pub fn write<V: Storable>(db: &Table, key: &[u8], value: &V) -> (r: Result<(), Error>)
    ensures
        r matches Err(e) ==> e.kind == ErrorClass::StoreEngine,
{
    let bytes = serialize(value)?;
    match table_set(db, key, bytes.as_slice()) {
        Ok(()) => write_outcome(Ok(())),
        Err(e) => write_outcome(Err(engine_failure(e))),
    }
}

/// Removes the entry under `key`: what `delete_outcome` makes of the table's
/// answer. Where there is no entry, that is said.
pub fn delete(db: &Table, key: &[u8]) -> (r: Result<(), Error>)
    ensures
        r matches Err(e) ==> e.kind == ErrorClass::StoreEngine || e.kind == ErrorClass::NotFound,
{
    match table_del(db, key) {
        Ok(()) => delete_outcome(Ok(())),
        Err(e) => delete_outcome(Err(engine_failure(e))),
    }
}

} // verus!
