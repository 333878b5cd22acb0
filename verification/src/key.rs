//! Keys: byte strings in the order in which the table keeps them, and the
//! fixed-width keys that stand for 64-bit integers.
//!
//! The table orders its keys byte by byte, a proper prefix before any of its
//! extensions. An integer key is the eight digits of the integer to the base
//! 256, most significant first, so that integers and their keys are ordered
//! alike on every machine.

use vstd::prelude::*;
use crate::encoding::{lemma_radix_monotonic, lemma_radix_values, radix};
use crate::error::{Error, ErrorClass};

verus! {

/// Width of an integer key in bytes.
pub const KEY_WIDTH: usize = 8;

/// `a` comes before `b` in the order of the table.
pub open spec fn lex_less(a: Seq<u8>, b: Seq<u8>) -> bool
    decreases a.len(),
{
    if b.len() == 0 {
        false
    } else if a.len() == 0 {
        true
    } else if a[0] != b[0] {
        a[0] < b[0]
    } else {
        lex_less(a.drop_first(), b.drop_first())
    }
}

/// `key` lies in the range that starts at `start` and ends before `end`.
pub open spec fn in_range(start: Seq<u8>, key: Seq<u8>, end: Seq<u8>) -> bool {
    !lex_less(key, start) && lex_less(key, end)
}

/// Each key comes before the one behind it.
pub open spec fn keys_rising(keys: Seq<Seq<u8>>) -> bool {
    forall|i: int| 0 <= i < keys.len() - 1 ==> lex_less(#[trigger] keys[i], keys[i + 1])
}

/// Each key comes before every later one: the keys are in the order of the
/// table, and none occurs twice.
pub open spec fn keys_sorted(keys: Seq<Seq<u8>>) -> bool {
    forall|i: int, j: int| 0 <= i < j < keys.len() ==> lex_less(keys[i], keys[j])
}

/// Each key lies in the range that starts at `start` and ends before `end`.
pub open spec fn keys_within(keys: Seq<Seq<u8>>, start: Seq<u8>, end: Seq<u8>) -> bool {
    forall|i: int| 0 <= i < keys.len() ==> in_range(start, #[trigger] keys[i], end)
}

/// The `width` lowest digits of `value`, most significant first.
pub open spec fn be_bytes(value: nat, width: nat) -> Seq<u8>
    decreases width,
{
    if width == 0 {
        Seq::empty()
    } else {
        be_bytes(value / 256, (width - 1) as nat).push((value % 256) as u8)
    }
}

/// The number whose digits, most significant first, are `bytes`.
pub open spec fn be_value(bytes: Seq<u8>) -> nat
    decreases bytes.len(),
{
    if bytes.len() == 0 {
        0
    } else {
        256 * be_value(bytes.drop_last()) + bytes.last() as nat
    }
}

/// The key of an integer.
pub open spec fn spec_key_from_u64(key: u64) -> Seq<u8> {
    be_bytes(key as nat, KEY_WIDTH as nat)
}

pub proof fn lemma_lex_less_irreflexive(a: Seq<u8>)
    ensures
        !lex_less(a, a),
    decreases a.len(),
{
    if a.len() > 0 {
        lemma_lex_less_irreflexive(a.drop_first());
    }
}

pub proof fn lemma_lex_less_transitive(a: Seq<u8>, b: Seq<u8>, c: Seq<u8>)
    requires
        lex_less(a, b),
        lex_less(b, c),
    ensures
        lex_less(a, c),
    decreases a.len(),
{
    if a.len() > 0 && a[0] == b[0] && b[0] == c[0] {
        lemma_lex_less_transitive(a.drop_first(), b.drop_first(), c.drop_first());
    }
}

/// Keys that rise step by step are sorted, and so without repetition.
pub proof fn lemma_rising_is_sorted(keys: Seq<Seq<u8>>)
    requires
        keys_rising(keys),
    ensures
        keys_sorted(keys),
        forall|i: int, j: int| 0 <= i < j < keys.len() ==> keys[i] != keys[j],
{
    assert forall|i: int, j: int| 0 <= i < j < keys.len() implies lex_less(keys[i], keys[j]) by {
        lemma_rising_reaches(keys, i, j);
    }
    assert forall|i: int, j: int| 0 <= i < j < keys.len() implies keys[i] != keys[j] by {
        lemma_lex_less_irreflexive(keys[i]);
    }
}

proof fn lemma_rising_reaches(keys: Seq<Seq<u8>>, i: int, j: int)
    requires
        keys_rising(keys),
        0 <= i < j < keys.len(),
    ensures
        lex_less(keys[i], keys[j]),
    decreases j - i,
{
    if i + 1 < j {
        lemma_rising_reaches(keys, i, j - 1);
        assert(lex_less(keys[j - 1], keys[j - 1 + 1]));
        lemma_lex_less_transitive(keys[i], keys[j - 1], keys[j]);
    }
}

/// Of two different keys one comes before the other.
pub proof fn lemma_lex_less_total(a: Seq<u8>, b: Seq<u8>)
    ensures
        a == b || lex_less(a, b) || lex_less(b, a),
    decreases a.len(),
{
    if a.len() > 0 && b.len() > 0 && a[0] == b[0] {
        lemma_lex_less_total(a.drop_first(), b.drop_first());
        if a.drop_first() == b.drop_first() {
            assert(a =~= seq![a[0]] + a.drop_first());
            assert(b =~= seq![b[0]] + b.drop_first());
        }
    } else if a.len() == 0 && b.len() == 0 {
        assert(a =~= b);
    }
}

/// Behind equally long beginnings, the last byte decides only where the
/// beginnings agree.
proof fn lemma_lex_less_push(a: Seq<u8>, p: u8, b: Seq<u8>, q: u8)
    requires
        a.len() == b.len(),
    ensures
        lex_less(a.push(p), b.push(q)) <==> lex_less(a, b) || (a == b && p < q),
    decreases a.len(),
{
    let ap = a.push(p);
    let bq = b.push(q);
    if a.len() == 0 {
        assert(a =~= b);
        assert(ap[0] == p && bq[0] == q);
        assert(!lex_less(ap.drop_first(), bq.drop_first()));
        assert(!lex_less(a, b));
    } else {
        assert(ap[0] == a[0] && bq[0] == b[0]);
        assert(ap.drop_first() =~= a.drop_first().push(p));
        assert(bq.drop_first() =~= b.drop_first().push(q));
        lemma_lex_less_push(a.drop_first(), p, b.drop_first(), q);
        if a[0] == b[0] {
            if a.drop_first() == b.drop_first() {
                assert(a =~= seq![a[0]] + a.drop_first());
                assert(b =~= seq![b[0]] + b.drop_first());
            }
        }
    }
}

pub proof fn lemma_be_bytes_len(value: nat, width: nat)
    ensures
        be_bytes(value, width).len() == width,
    decreases width,
{
    if width > 0 {
        lemma_be_bytes_len(value / 256, (width - 1) as nat);
    }
}

/// Digits stand for a number that fits their count.
pub proof fn lemma_be_value_bound(bytes: Seq<u8>)
    ensures
        be_value(bytes) < radix(bytes.len()),
    decreases bytes.len(),
{
    if bytes.len() > 0 {
        lemma_be_value_bound(bytes.drop_last());
    }
}

/// Digits are the digits of the number they stand for.
pub proof fn lemma_be_bytes_of_value(bytes: Seq<u8>)
    ensures
        be_bytes(be_value(bytes), bytes.len()) == bytes,
    decreases bytes.len(),
{
    if bytes.len() > 0 {
        let front = bytes.drop_last();
        lemma_be_bytes_of_value(front);
        let value = be_value(bytes);
        assert(value % 256 == bytes.last() as nat);
        assert(value / 256 == be_value(front));
        assert(be_bytes(value, bytes.len()) == front.push(bytes.last()));
        assert(front.push(bytes.last()) == bytes);
    }
}

/// Numbers of at most `width` digits are ordered as their digit strings are.
pub proof fn lemma_be_bytes_ordered(x: nat, y: nat, width: nat)
    requires
        x < radix(width),
        y < radix(width),
    ensures
        x < y <==> lex_less(be_bytes(x, width), be_bytes(y, width)),
        x == y <==> be_bytes(x, width) == be_bytes(y, width),
    decreases width,
{
    if width > 0 {
        let w = (width - 1) as nat;
        let a = be_bytes(x / 256, w);
        let b = be_bytes(y / 256, w);
        lemma_be_bytes_len(x / 256, w);
        lemma_be_bytes_len(y / 256, w);
        lemma_be_bytes_ordered(x / 256, y / 256, w);
        lemma_lex_less_push(a, (x % 256) as u8, b, (y % 256) as u8);
        if be_bytes(x, width) == be_bytes(y, width) {
            assert(a == be_bytes(x, width).drop_last());
            assert(b == be_bytes(y, width).drop_last());
            assert((x % 256) as u8 == be_bytes(x, width).last());
            assert((y % 256) as u8 == be_bytes(y, width).last());
        }
    }
}

/// Integer keys keep the order of the integers: a range of integers is a
/// range of keys.
pub proof fn lemma_integer_keys_ordered(x: u64, y: u64)
    ensures
        x < y <==> lex_less(spec_key_from_u64(x), spec_key_from_u64(y)),
        x == y <==> spec_key_from_u64(x) == spec_key_from_u64(y),
{
    lemma_radix_values();
    lemma_be_bytes_ordered(x as nat, y as nat, KEY_WIDTH as nat);
}

/// A range of integers is the range of their keys: the key of `x` lies
/// between the keys of `start` and `end` exactly if `x` is at least `start`
/// and less than `end`.
pub proof fn lemma_integer_range(start: u64, x: u64, end: u64)
    ensures
        in_range(spec_key_from_u64(start), spec_key_from_u64(x), spec_key_from_u64(end)) <==> start
            <= x < end,
{
    lemma_integer_keys_ordered(x, start);
    lemma_integer_keys_ordered(x, end);
}

/// An integer is read back from its key.
pub proof fn lemma_integer_key_round_trip(x: u64, y: u64)
    requires
        spec_key_from_u64(y) == spec_key_from_u64(x),
    ensures
        y == x,
{
    lemma_integer_keys_ordered(x, y);
}

/// Whether `a` comes before `b` in the order of the table: at the first
/// byte in which they differ `a` has the smaller one, or `a` ends first.
pub fn key_before(a: &[u8], b: &[u8]) -> (r: bool)
    ensures
        r == lex_less(a@, b@),
{
    let mut i: usize = 0;
    proof {
        assert(a@.skip(0) =~= a@);
        assert(b@.skip(0) =~= b@);
    }
    while i < a.len() && i < b.len()
        invariant
            i <= a@.len(),
            i <= b@.len(),
            lex_less(a@, b@) == lex_less(a@.skip(i as int), b@.skip(i as int)),
        decreases a@.len() - i,
    {
        proof {
            let x = a@.skip(i as int);
            let y = b@.skip(i as int);
            assert(x[0] == a@[i as int] && y[0] == b@[i as int]);
            assert(x.drop_first() =~= a@.skip(i + 1));
            assert(y.drop_first() =~= b@.skip(i + 1));
        }
        if a[i] != b[i] {
            return a[i] < b[i];
        }
        i += 1;
    }
    i < b.len()
}

/// The key of an integer: its eight bytes, most significant first.
pub fn key_from_u64(key: u64) -> (bytes: [u8; 8])
    ensures
        bytes@ == spec_key_from_u64(key),
{
    let mut bytes: [u8; 8] = [0u8; 8];
    let mut rest: u64 = key;
    let mut done: usize = 0;
    while done < KEY_WIDTH
        invariant
            done <= KEY_WIDTH,
            bytes@.len() == KEY_WIDTH,
            spec_key_from_u64(key) == be_bytes(rest as nat, (KEY_WIDTH - done) as nat)
                + bytes@.skip(KEY_WIDTH - done),
        decreases KEY_WIDTH - done,
    {
        let ghost before = bytes@;
        let at: usize = KEY_WIDTH - 1 - done;
        bytes[at] = (rest % 256) as u8;
        proof {
            assert(bytes@.skip(at as int) == seq![(rest % 256) as u8] + before.skip(at + 1));
            assert(be_bytes(rest as nat, (at + 1) as nat) == be_bytes(
                rest as nat / 256,
                at as nat,
            ).push((rest % 256) as u8));
        }
        rest = rest / 256;
        done += 1;
    }
    bytes
}

/// The integer of a key. A key of any other width than eight bytes is not
/// the key of an integer, and passing one is the caller's mistake.
pub fn key_to_u64(bytes: &[u8]) -> (r: Result<u64, Error>)
    ensures
        match r {
            Ok(key) => bytes@.len() == KEY_WIDTH && spec_key_from_u64(key) == bytes@,
            Err(e) => bytes@.len() != KEY_WIDTH && e.kind == ErrorClass::CallerMisuse,
        },
{
    if bytes.len() != KEY_WIDTH {
        return Err(Error::caller_misuse("an integer key has exactly 8 bytes"));
    }
    let mut key: u64 = 0;
    let mut i: usize = 0;
    while i < KEY_WIDTH
        invariant
            i <= KEY_WIDTH,
            bytes@.len() == KEY_WIDTH,
            key == be_value(bytes@.take(i as int)),
        decreases KEY_WIDTH - i,
    {
        proof {
            let front = bytes@.take(i as int);
            let next = bytes@.take(i + 1);
            lemma_be_value_bound(front);
            lemma_radix_monotonic(i as nat, 7);
            lemma_radix_values();
            reveal_with_fuel(radix, 9);
            assert(next.drop_last() == front);
            assert(next.last() == bytes@[i as int]);
        }
        key = key * 256 + bytes[i] as u64;
        i += 1;
    }
    proof {
        assert(bytes@.take(KEY_WIDTH as int) == bytes@);
        lemma_be_bytes_of_value(bytes@);
    }
    Ok(key)
}

} // verus!
