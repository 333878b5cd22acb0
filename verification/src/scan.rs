//! Range scans: what is made of the entries that the table hands out for a
//! range of keys.
//!
//! The entries of one scan come from one read transaction, in the order of
//! their keys. The functions here take them as they came and decode, pick
//! or search them; none of them looks at the table.

use vstd::prelude::*;
use crate::db_serialization::{deserialize, Storable};
use crate::error::{Error, ErrorClass};
use crate::key::{in_range, key_before, keys_rising, keys_within, lex_less};

verus! {

/// The keys of entries, in the order of the entries.
pub open spec fn entry_keys(entries: Seq<(Vec<u8>, Vec<u8>)>) -> Seq<Seq<u8>> {
    Seq::new(entries.len(), |i: int| entries[i].0@)
}

/// Whether the entries that a scan handed out are what a scan of the range
/// from `start` to before `end` hands out: their keys rise, each before the
/// next in the order of the table, and lie in the range.
pub fn answer_in_order(raw: &Vec<(Vec<u8>, Vec<u8>)>, start: &[u8], end: &[u8]) -> (ok: bool)
    ensures
        ok == (keys_rising(entry_keys(raw@)) && keys_within(entry_keys(raw@), start@, end@)),
{
    let ghost keys = entry_keys(raw@);
    let mut i: usize = 0;
    while i < raw.len()
        invariant
            i <= raw@.len(),
            keys == entry_keys(raw@),
            forall|k: int| 0 <= k < i ==> in_range(start@, #[trigger] keys[k], end@),
            forall|k: int| 0 <= k < i - 1 ==> lex_less(#[trigger] keys[k], keys[k + 1]),
        decreases raw@.len() - i,
    {
        let key = raw[i].0.as_slice();
        assert(key@ == keys[i as int]);
        if key_before(key, start) || !key_before(key, end) {
            assert(!in_range(start@, keys[i as int], end@));
            return false;
        }
        if i > 0 {
            let last = raw[i - 1].0.as_slice();
            assert(last@ == keys[i - 1]);
            if !key_before(last, key) {
                assert(!lex_less(keys[i - 1], keys[i - 1 + 1]));
                return false;
            }
        }
        i += 1;
    }
    true
}

/// The bytes of a raw entry's value do not decode to a `V`.
pub open spec fn undecodable<V: Storable>(bytes: Seq<u8>) -> bool {
    V::decoding(bytes) is None
}

/// The value that `bytes` decode to is one that `search` turns down.
pub open spec fn turned_down<V: Storable, F: Fn(&V) -> bool>(search: &F, bytes: Seq<u8>) -> bool {
    exists|x: V| V::decoding(bytes) == Some(x@) && call_ensures(*search, (&x,), false)
}

/// `value` is what `bytes` decode to, and `search` takes it.
pub open spec fn taken<V: Storable, F: Fn(&V) -> bool>(
    search: &F,
    bytes: Seq<u8>,
    value: V,
) -> bool {
    V::decoding(bytes) == Some(value@) && call_ensures(*search, (&value,), true)
}

/// `r` is what decoding the entries `raw` comes to: every entry with its
/// value decoded, in the order given, or a `Serialization` failure where one
/// of the values does not decode.
pub open spec fn entries_decoded<V: Storable>(
    raw: Seq<(Vec<u8>, Vec<u8>)>,
    r: Result<Vec<(Vec<u8>, V)>, Error>,
) -> bool {
    match r {
        Ok(entries) => {
            &&& entries@.len() == raw.len()
            &&& forall|i: int|
                0 <= i < raw.len() ==> {
                    &&& (#[trigger] entries@[i]).0@ == raw[i].0@
                    &&& V::decoding(raw[i].1@) == Some(entries@[i].1@)
                }
        },
        Err(e) => {
            &&& e.kind == ErrorClass::Serialization
            &&& exists|i: int| 0 <= i < raw.len() && undecodable::<V>(#[trigger] raw[i].1@)
        },
    }
}

/// `r` is what decoding the values of the entries `raw` comes to: every
/// value decoded, in the order given, or a `Serialization` failure where one
/// of the values does not decode.
pub open spec fn values_decoded<V: Storable>(
    raw: Seq<(Vec<u8>, Vec<u8>)>,
    r: Result<Vec<V>, Error>,
) -> bool {
    match r {
        Ok(values) => {
            &&& values@.len() == raw.len()
            &&& forall|i: int|
                0 <= i < raw.len() ==> V::decoding(raw[i].1@) == Some((#[trigger] values@[i])@)
        },
        Err(e) => {
            &&& e.kind == ErrorClass::Serialization
            &&& exists|i: int| 0 <= i < raw.len() && undecodable::<V>(#[trigger] raw[i].1@)
        },
    }
}

/// `keys` are the keys of the entries `raw`, in the order given.
pub open spec fn keys_listed(raw: Seq<(Vec<u8>, Vec<u8>)>, keys: Seq<Vec<u8>>) -> bool {
    &&& keys.len() == raw.len()
    &&& forall|i: int| 0 <= i < raw.len() ==> (#[trigger] keys[i])@ == raw[i].0@
}

/// Values that were encoded for storing are the values that a scan of them
/// decodes: where the value of each entry is the encoding of the value at
/// its place in `values`, each decodes to that value.
pub proof fn lemma_stored_values_decode<V: Storable>(raw: Seq<(Vec<u8>, Vec<u8>)>, values: Seq<V>)
    requires
        raw.len() == values.len(),
        forall|i: int| 0 <= i < raw.len() ==> (#[trigger] raw[i]).1@ == V::encoding(values[i]@),
    ensures
        forall|i: int|
            0 <= i < raw.len() ==> V::decoding((#[trigger] raw[i]).1@) == Some(values[i]@),
{
    assert forall|i: int| 0 <= i < raw.len() implies V::decoding((#[trigger] raw[i]).1@) == Some(
        values[i]@,
    ) by {
        V::lemma_round_trip(values[i]);
    }
}

/// A copy of a key.
fn copy_key(key: &Vec<u8>) -> (copy: Vec<u8>)
    ensures
        copy@ == key@,
{
    let copy = key.clone();
    assert(copy@ =~= key@);
    copy
}

/// Every entry with its value decoded, in the order given. One value that
/// does not decode fails the whole scan.
pub fn decode_entries<V: Storable>(raw: &Vec<(Vec<u8>, Vec<u8>)>) -> (r: Result<
    Vec<(Vec<u8>, V)>,
    Error,
>)
    ensures
        entries_decoded::<V>(raw@, r),
{
    let mut entries: Vec<(Vec<u8>, V)> = Vec::new();
    let mut i: usize = 0;
    while i < raw.len()
        invariant
            i <= raw@.len(),
            entries@.len() == i,
            forall|k: int|
                0 <= k < i ==> {
                    &&& (#[trigger] entries@[k]).0@ == raw@[k].0@
                    &&& V::decoding(raw@[k].1@) == Some(entries@[k].1@)
                },
        decreases raw@.len() - i,
    {
        match deserialize::<V>(raw[i].1.as_slice()) {
            Ok(value) => {
                entries.push((copy_key(&raw[i].0), value));
            },
            Err(e) => {
                assert(undecodable::<V>(raw@[i as int].1@));
                return Err(e);
            },
        }
        i += 1;
    }
    Ok(entries)
}

/// The value of every entry, decoded, in the order given. One value that
/// does not decode fails the whole scan.
pub fn decode_values<V: Storable>(raw: &Vec<(Vec<u8>, Vec<u8>)>) -> (r: Result<Vec<V>, Error>)
    ensures
        values_decoded::<V>(raw@, r),
{
    let mut values: Vec<V> = Vec::new();
    let mut i: usize = 0;
    while i < raw.len()
        invariant
            i <= raw@.len(),
            values@.len() == i,
            forall|k: int|
                0 <= k < i ==> V::decoding(raw@[k].1@) == Some((#[trigger] values@[k])@),
        decreases raw@.len() - i,
    {
        match deserialize::<V>(raw[i].1.as_slice()) {
            Ok(value) => {
                values.push(value);
            },
            Err(e) => {
                assert(undecodable::<V>(raw@[i as int].1@));
                return Err(e);
            },
        }
        i += 1;
    }
    Ok(values)
}

/// The key of every entry, in the order given.
pub fn entry_key_list(raw: &Vec<(Vec<u8>, Vec<u8>)>) -> (keys: Vec<Vec<u8>>)
    ensures
        keys_listed(raw@, keys@),
{
    let mut keys: Vec<Vec<u8>> = Vec::new();
    let mut i: usize = 0;
    while i < raw.len()
        invariant
            i <= raw@.len(),
            keys@.len() == i,
            forall|k: int| 0 <= k < i ==> (#[trigger] keys@[k])@ == raw@[k].0@,
        decreases raw@.len() - i,
    {
        keys.push(copy_key(&raw[i].0));
        i += 1;
    }
    keys
}

/// `r` is what searching the entries `raw` comes to: the first value, in
/// the order given, that `search` takes, every value before it decoded and
/// turned down; `NotFound` where every value is turned down; a
/// `Serialization` failure where a value that does not decode comes before
/// any that is taken.
pub open spec fn first_found<V: Storable, F: Fn(&V) -> bool>(
    raw: Seq<(Vec<u8>, Vec<u8>)>,
    search: &F,
    r: Result<V, Error>,
) -> bool {
    match r {
        Ok(value) => exists|i: int|
            {
                &&& 0 <= i < raw.len()
                &&& taken(search, #[trigger] raw[i].1@, value)
                &&& forall|j: int| 0 <= j < i ==> turned_down(search, #[trigger] raw[j].1@)
            },
        Err(e) => {
            ||| {
                &&& e.kind == ErrorClass::NotFound
                &&& forall|j: int| 0 <= j < raw.len() ==> turned_down(search, #[trigger] raw[j].1@)
            }
            ||| {
                &&& e.kind == ErrorClass::Serialization
                &&& exists|i: int|
                    {
                        &&& 0 <= i < raw.len()
                        &&& undecodable::<V>(#[trigger] raw[i].1@)
                        &&& forall|j: int|
                            0 <= j < i ==> turned_down(search, #[trigger] raw[j].1@)
                    }
            }
        },
    }
}

/// The first value, in the order given, that `search` takes. Entries behind
/// it are neither decoded nor shown to `search`. A value before it that does
/// not decode fails the search; where `search` takes none, nothing is found.
pub fn find_first<V: Storable, F: Fn(&V) -> bool>(
    raw: &Vec<(Vec<u8>, Vec<u8>)>,
    search: &F,
) -> (r: Result<V, Error>)
    requires
        forall|x: &V| call_requires(*search, (x,)),
    ensures
        first_found(raw@, search, r),
{
    let mut i: usize = 0;
    while i < raw.len()
        invariant
            i <= raw@.len(),
            forall|x: &V| call_requires(*search, (x,)),
            forall|j: int| 0 <= j < i ==> turned_down(search, #[trigger] raw@[j].1@),
        decreases raw@.len() - i,
    {
        let value = match deserialize::<V>(raw[i].1.as_slice()) {
            Ok(value) => value,
            Err(e) => {
                assert(undecodable::<V>(raw@[i as int].1@));
                return Err(e);
            },
        };
        if search(&value) {
            assert(taken(search, raw@[i as int].1@, value));
            return Ok(value);
        }
        assert(turned_down(search, raw@[i as int].1@));
        i += 1;
    }
    Err(Error::not_found("Term not found."))
}

/// `search` can judge the value that `bytes` decode to as `verdict`.
pub open spec fn judged<V: Storable, F: Fn(&V) -> Result<bool, Error>>(
    search: &F,
    bytes: Seq<u8>,
    verdict: Result<bool, Error>,
) -> bool {
    exists|x: V| V::decoding(bytes) == Some(x@) && call_ensures(*search, (&x,), verdict)
}

/// `r` is what searching the entries `raw` comes to where `search` may
/// fail: the first value, in the order given, that `search` takes, every
/// value before it decoded and turned down; `NotFound` where every value is
/// turned down; and where, before any value is taken, a value does not
/// decode or `search` fails on one, that failure.
pub open spec fn try_first_found<V: Storable, F: Fn(&V) -> Result<bool, Error>>(
    raw: Seq<(Vec<u8>, Vec<u8>)>,
    search: &F,
    r: Result<V, Error>,
) -> bool {
    match r {
        Ok(value) => exists|i: int|
            {
                &&& 0 <= i < raw.len()
                &&& V::decoding(#[trigger] raw[i].1@) == Some(value@)
                &&& call_ensures(*search, (&value,), Ok(true))
                &&& forall|j: int| 0 <= j < i ==> judged(search, #[trigger] raw[j].1@, Ok(false))
            },
        Err(e) => {
            ||| {
                &&& e.kind == ErrorClass::NotFound
                &&& forall|j: int|
                    0 <= j < raw.len() ==> judged(search, #[trigger] raw[j].1@, Ok(false))
            }
            ||| exists|i: int|
                {
                    &&& 0 <= i < raw.len()
                    &&& {
                        ||| e.kind == ErrorClass::Serialization && undecodable::<V>(
                            #[trigger] raw[i].1@,
                        )
                        ||| judged(search, raw[i].1@, Err(e))
                    }
                    &&& forall|j: int|
                        0 <= j < i ==> judged(search, #[trigger] raw[j].1@, Ok(false))
                }
        },
    }
}

/// The first value, in the order given, that `search` takes, where `search`
/// may fail on a value. Entries behind the first that is taken are neither
/// decoded nor shown to `search`. A value before it that does not decode, or
/// on which `search` fails, fails the search with that failure; where
/// `search` takes none, nothing is found.
pub fn try_find_first<V: Storable, F: Fn(&V) -> Result<bool, Error>>(
    raw: &Vec<(Vec<u8>, Vec<u8>)>,
    search: &F,
) -> (r: Result<V, Error>)
    requires
        forall|x: &V| call_requires(*search, (x,)),
    ensures
        try_first_found(raw@, search, r),
{
    let mut i: usize = 0;
    while i < raw.len()
        invariant
            i <= raw@.len(),
            forall|x: &V| call_requires(*search, (x,)),
            forall|j: int| 0 <= j < i ==> judged(search, #[trigger] raw@[j].1@, Ok(false)),
        decreases raw@.len() - i,
    {
        let value = match deserialize::<V>(raw[i].1.as_slice()) {
            Ok(value) => value,
            Err(e) => {
                assert(undecodable::<V>(raw@[i as int].1@));
                return Err(e);
            },
        };
        match search(&value) {
            Ok(true) => {
                return Ok(value);
            },
            Ok(false) => {
                assert(judged(search, raw@[i as int].1@, Ok(false)));
            },
            Err(e) => {
                assert(judged(search, raw@[i as int].1@, Err(e)));
                return Err(e);
            },
        }
        i += 1;
    }
    Err(Error::not_found("Term not found."))
}

} // verus!
