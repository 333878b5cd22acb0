//! Values as bytes: the one encoding under which the layer stores a value
//! of each supported type.
//!
//! An unsigned integer is stored as its digits to the base 256, least
//! significant first, in the full width of its type. A truth value is
//! stored as one byte, 1 or 0. A byte string is stored as its length, as a
//! 64-bit integer, followed by its bytes. Decoding
//! accepts exactly the bytes that encoding produces: a value cut short and a
//! value followed by further bytes are both refused.

use vstd::prelude::*;
use vstd::slice::slice_to_vec;
use crate::encoding::{
    le_bytes, le_value, lemma_le_bytes_len, lemma_le_bytes_of_value, lemma_le_value_bound,
    lemma_le_value_of_bytes, lemma_radix_values,
};
use crate::error::{Error, ErrorClass};

verus! {

/// The encoder's own error. Opaque to the proofs; only its text is used.
#[verifier::external_type_specification]
#[verifier::external_body]
pub struct ExBincodeErrorKind(bincode::ErrorKind);

/// `bincode::serialize` on a `u8`: one byte, the value itself. Writing into
/// a growing buffer without a size limit has no failing path.
#[verifier::external_body]
pub(crate) fn bincode_serialize_u8(value: u8) -> (r: Result<Vec<u8>, Box<bincode::ErrorKind>>)
    ensures
        match r {
            Ok(bytes) => bytes@ == le_bytes(value as nat, 1),
            Err(_) => false,
        },
{
    bincode::serialize(&value)
}

/// `bincode::serialize` on a `u16`: two bytes, least significant first.
/// Writing into a growing buffer without a size limit has no failing path.
#[verifier::external_body]
pub(crate) fn bincode_serialize_u16(value: u16) -> (r: Result<Vec<u8>, Box<bincode::ErrorKind>>)
    ensures
        match r {
            Ok(bytes) => bytes@ == le_bytes(value as nat, 2),
            Err(_) => false,
        },
{
    bincode::serialize(&value)
}

/// `bincode::serialize` on a `u64`: eight bytes, least significant first.
/// Writing into a growing buffer without a size limit has no failing path.
#[verifier::external_body]
pub(crate) fn bincode_serialize_u64(value: u64) -> (r: Result<Vec<u8>, Box<bincode::ErrorKind>>)
    ensures
        match r {
            Ok(bytes) => bytes@ == le_bytes(value as nat, 8),
            Err(_) => false,
        },
{
    bincode::serialize(&value)
}

/// `bincode::serialize` on a `Vec<u8>`: the length as a `u64`, then the
/// bytes. Writing into a growing buffer without a size limit has no failing
/// path.
#[verifier::external_body]
pub(crate) fn bincode_serialize_bytes(value: &Vec<u8>) -> (r: Result<
    Vec<u8>,
    Box<bincode::ErrorKind>,
>)
    ensures
        match r {
            Ok(bytes) => bytes@ == le_bytes(value@.len(), 8) + value@,
            Err(_) => false,
        },
{
    bincode::serialize(value)
}

/// `bincode::serialize` on a `bool`: one byte, 1 for `true` and 0 for
/// `false`. Writing into a growing buffer without a size limit has no
/// failing path.
#[verifier::external_body]
pub(crate) fn bincode_serialize_bool(value: bool) -> (r: Result<Vec<u8>, Box<bincode::ErrorKind>>)
    ensures
        match r {
            Ok(bytes) => bytes@ == bool_bytes(value),
            Err(_) => false,
        },
{
    bincode::serialize(&value)
}

/// `bincode::deserialize` to a `bool`: reads the first byte and lets any
/// further bytes be; 1 is `true`, 0 is `false`; fails on empty input and on
/// any other first byte.
#[verifier::external_body]
pub(crate) fn bincode_deserialize_bool(bytes: &[u8]) -> (r: Result<bool, Box<bincode::ErrorKind>>)
    ensures
        match r {
            Ok(value) => bytes@.len() >= 1 && bytes@[0] <= 1 && value == (bytes@[0] == 1),
            Err(_) => bytes@.len() < 1 || bytes@[0] > 1,
        },
{
    bincode::deserialize(bytes)
}

/// `bincode::deserialize` to a `u8`: reads the first byte and lets any
/// further bytes be; fails on empty input.
#[verifier::external_body]
pub(crate) fn bincode_deserialize_u8(bytes: &[u8]) -> (r: Result<u8, Box<bincode::ErrorKind>>)
    ensures
        match r {
            Ok(value) => bytes@.len() >= 1 && value == le_value(bytes@.take(1)),
            Err(_) => bytes@.len() < 1,
        },
{
    bincode::deserialize(bytes)
}

/// `bincode::deserialize` to a `u16`: reads the first two bytes, least
/// significant first, and lets any further bytes be; fails on shorter input.
#[verifier::external_body]
pub(crate) fn bincode_deserialize_u16(bytes: &[u8]) -> (r: Result<u16, Box<bincode::ErrorKind>>)
    ensures
        match r {
            Ok(value) => bytes@.len() >= 2 && value == le_value(bytes@.take(2)),
            Err(_) => bytes@.len() < 2,
        },
{
    bincode::deserialize(bytes)
}

/// `bincode::deserialize` to a `u64`: reads the first eight bytes, least
/// significant first, and lets any further bytes be; fails on shorter input.
#[verifier::external_body]
pub(crate) fn bincode_deserialize_u64(bytes: &[u8]) -> (r: Result<u64, Box<bincode::ErrorKind>>)
    ensures
        match r {
            Ok(value) => bytes@.len() >= 8 && value == le_value(bytes@.take(8)),
            Err(_) => bytes@.len() < 8,
        },
{
    bincode::deserialize(bytes)
}

/// `bincode::deserialize` to a `Vec<u8>`: reads a length from the first
/// eight bytes, then that many bytes, and lets any further bytes be; fails
/// where the input ends before that.
#[verifier::external_body]
pub(crate) fn bincode_deserialize_bytes(bytes: &[u8]) -> (r: Result<
    Vec<u8>,
    Box<bincode::ErrorKind>,
>)
    ensures
        match r {
            Ok(value) => {
                &&& bytes@.len() >= 8
                &&& value@.len() == le_value(bytes@.take(8))
                &&& 8 + value@.len() <= bytes@.len()
                &&& value@ == bytes@.subrange(8, 8 + value@.len() as int)
            },
            Err(_) => bytes@.len() < 8 || le_value(bytes@.take(8)) > bytes@.len() - 8,
        },
{
    bincode::deserialize(bytes)
}

/// The byte that stands for a truth value.
pub open spec fn bool_bytes(value: bool) -> Seq<u8> {
    if value {
        seq![1u8]
    } else {
        seq![0u8]
    }
}

/// The `Debug` text of a `bincode::ErrorKind`. Nothing is claimed of it.
#[verifier::external_body]
pub(crate) fn codec_failure_text(e: Box<bincode::ErrorKind>) -> (text: String)
{
    format!("{:?}", e)
}

/// A type whose values the layer can store.
pub trait Storable: View + Sized {
    /// The bytes that stand for a value.
    spec fn encoding(value: Self::V) -> Seq<u8>;

    /// The value that bytes stand for, if they stand for one.
    spec fn decoding(bytes: Seq<u8>) -> Option<Self::V>;

    /// What was encoded is decoded again.
    proof fn lemma_round_trip(value: Self)
        ensures
            Self::decoding(Self::encoding(value@)) == Some(value@),
    ;

    /// Only the encoding of a value decodes to it: no other bytes do.
    proof fn lemma_canonical(bytes: Seq<u8>)
        ensures
            Self::decoding(bytes) matches Some(value) ==> Self::encoding(value) == bytes,
    ;

    fn encode(&self) -> (r: Result<Vec<u8>, Error>)
        ensures
            r matches Ok(bytes) && bytes@ == Self::encoding(self@),
    ;

    fn decode(bytes: &[u8]) -> (r: Result<Self, Error>)
        ensures
            match Self::decoding(bytes@) {
                Some(value) => r matches Ok(x) && x@ == value,
                None => r matches Err(e) && e.kind == ErrorClass::Serialization,
            },
    ;
}

/// The failure for bytes that go on behind a value.
fn trailing_bytes() -> (e: Error)
    ensures
        e.kind == ErrorClass::Serialization,
{
    Error::serialization("bytes remain behind the value".to_owned())
}

impl Storable for bool {
    open spec fn encoding(value: bool) -> Seq<u8> {
        bool_bytes(value)
    }

    open spec fn decoding(bytes: Seq<u8>) -> Option<bool> {
        if bytes.len() == 1 && bytes[0] <= 1 {
            Some(bytes[0] == 1)
        } else {
            None
        }
    }

    proof fn lemma_round_trip(value: bool) {
    }

    proof fn lemma_canonical(bytes: Seq<u8>) {
        if bytes.len() == 1 && bytes[0] <= 1 {
            assert(bool_bytes(bytes[0] == 1) =~= bytes);
        }
    }

    fn encode(&self) -> (r: Result<Vec<u8>, Error>) {
        match bincode_serialize_bool(*self) {
            Ok(bytes) => Ok(bytes),
            Err(e) => Err(Error::serialization(codec_failure_text(e))),
        }
    }

    fn decode(bytes: &[u8]) -> (r: Result<bool, Error>) {
        match bincode_deserialize_bool(bytes) {
            Ok(value) => {
                if bytes.len() == 1 {
                    Ok(value)
                } else {
                    Err(trailing_bytes())
                }
            },
            Err(e) => Err(Error::serialization(codec_failure_text(e))),
        }
    }
}

/// Bytes that are stored as they are, for a caller that encodes its values
/// itself. Every byte string is the encoding of one such value.
#[derive(Debug, PartialEq, Eq)]
pub struct RawBytes(pub Vec<u8>);

impl View for RawBytes {
    type V = Seq<u8>;

    open spec fn view(&self) -> Seq<u8> {
        self.0@
    }
}

impl Storable for RawBytes {
    open spec fn encoding(value: Seq<u8>) -> Seq<u8> {
        value
    }

    open spec fn decoding(bytes: Seq<u8>) -> Option<Seq<u8>> {
        Some(bytes)
    }

    proof fn lemma_round_trip(value: RawBytes) {
    }

    proof fn lemma_canonical(bytes: Seq<u8>) {
    }

    fn encode(&self) -> (r: Result<Vec<u8>, Error>) {
        Ok(slice_to_vec(self.0.as_slice()))
    }

    fn decode(bytes: &[u8]) -> (r: Result<RawBytes, Error>) {
        Ok(RawBytes(slice_to_vec(bytes)))
    }
}

impl Storable for u8 {
    open spec fn encoding(value: u8) -> Seq<u8> {
        le_bytes(value as nat, 1)
    }

    open spec fn decoding(bytes: Seq<u8>) -> Option<u8> {
        if bytes.len() == 1 {
            Some(le_value(bytes) as u8)
        } else {
            None
        }
    }

    proof fn lemma_round_trip(value: u8) {
        lemma_radix_values();
        lemma_le_bytes_len(value as nat, 1);
        lemma_le_value_of_bytes(value as nat, 1);
    }

    proof fn lemma_canonical(bytes: Seq<u8>) {
        lemma_radix_values();
        lemma_le_value_bound(bytes);
        lemma_le_bytes_of_value(bytes);
    }

    fn encode(&self) -> (r: Result<Vec<u8>, Error>) {
        match bincode_serialize_u8(*self) {
            Ok(bytes) => Ok(bytes),
            Err(e) => Err(Error::serialization(codec_failure_text(e))),
        }
    }

    fn decode(bytes: &[u8]) -> (r: Result<u8, Error>) {
        match bincode_deserialize_u8(bytes) {
            Ok(value) => {
                if bytes.len() == 1 {
                    proof {
                        lemma_radix_values();
                        lemma_le_value_bound(bytes@);
                        assert(bytes@.take(1) == bytes@);
                    }
                    Ok(value)
                } else {
                    Err(trailing_bytes())
                }
            },
            Err(e) => Err(Error::serialization(codec_failure_text(e))),
        }
    }
}

impl Storable for u16 {
    open spec fn encoding(value: u16) -> Seq<u8> {
        le_bytes(value as nat, 2)
    }

    open spec fn decoding(bytes: Seq<u8>) -> Option<u16> {
        if bytes.len() == 2 {
            Some(le_value(bytes) as u16)
        } else {
            None
        }
    }

    proof fn lemma_round_trip(value: u16) {
        lemma_radix_values();
        lemma_le_bytes_len(value as nat, 2);
        lemma_le_value_of_bytes(value as nat, 2);
    }

    proof fn lemma_canonical(bytes: Seq<u8>) {
        lemma_radix_values();
        lemma_le_value_bound(bytes);
        lemma_le_bytes_of_value(bytes);
    }

    fn encode(&self) -> (r: Result<Vec<u8>, Error>) {
        match bincode_serialize_u16(*self) {
            Ok(bytes) => Ok(bytes),
            Err(e) => Err(Error::serialization(codec_failure_text(e))),
        }
    }

    fn decode(bytes: &[u8]) -> (r: Result<u16, Error>) {
        match bincode_deserialize_u16(bytes) {
            Ok(value) => {
                if bytes.len() == 2 {
                    proof {
                        lemma_radix_values();
                        lemma_le_value_bound(bytes@);
                        assert(bytes@.take(2) == bytes@);
                    }
                    Ok(value)
                } else {
                    Err(trailing_bytes())
                }
            },
            Err(e) => Err(Error::serialization(codec_failure_text(e))),
        }
    }
}

impl Storable for u64 {
    open spec fn encoding(value: u64) -> Seq<u8> {
        le_bytes(value as nat, 8)
    }

    open spec fn decoding(bytes: Seq<u8>) -> Option<u64> {
        if bytes.len() == 8 {
            Some(le_value(bytes) as u64)
        } else {
            None
        }
    }

    proof fn lemma_round_trip(value: u64) {
        lemma_radix_values();
        lemma_le_bytes_len(value as nat, 8);
        lemma_le_value_of_bytes(value as nat, 8);
    }

    proof fn lemma_canonical(bytes: Seq<u8>) {
        lemma_radix_values();
        lemma_le_value_bound(bytes);
        lemma_le_bytes_of_value(bytes);
    }

    fn encode(&self) -> (r: Result<Vec<u8>, Error>) {
        match bincode_serialize_u64(*self) {
            Ok(bytes) => Ok(bytes),
            Err(e) => Err(Error::serialization(codec_failure_text(e))),
        }
    }

    fn decode(bytes: &[u8]) -> (r: Result<u64, Error>) {
        match bincode_deserialize_u64(bytes) {
            Ok(value) => {
                if bytes.len() == 8 {
                    proof {
                        lemma_radix_values();
                        lemma_le_value_bound(bytes@);
                        assert(bytes@.take(8) == bytes@);
                    }
                    Ok(value)
                } else {
                    Err(trailing_bytes())
                }
            },
            Err(e) => Err(Error::serialization(codec_failure_text(e))),
        }
    }
}

impl Storable for Vec<u8> {
    open spec fn encoding(value: Seq<u8>) -> Seq<u8> {
        le_bytes(value.len(), 8) + value
    }

    open spec fn decoding(bytes: Seq<u8>) -> Option<Seq<u8>> {
        if bytes.len() >= 8 && le_value(bytes.take(8)) == bytes.len() - 8 {
            Some(bytes.skip(8))
        } else {
            None
        }
    }

    proof fn lemma_round_trip(value: Vec<u8>) {
        let head = le_bytes(value@.len(), 8);
        let all = head + value@;
        assert(value@.len() == value.len());
        lemma_radix_values();
        lemma_le_bytes_len(value@.len(), 8);
        lemma_le_value_of_bytes(value@.len(), 8);
        assert(all.take(8) == head);
        assert(all.skip(8) == value@);
    }

    proof fn lemma_canonical(bytes: Seq<u8>) {
        if bytes.len() >= 8 && le_value(bytes.take(8)) == bytes.len() - 8 {
            lemma_le_bytes_of_value(bytes.take(8));
            assert(bytes.take(8) + bytes.skip(8) == bytes);
        }
    }

    fn encode(&self) -> (r: Result<Vec<u8>, Error>) {
        match bincode_serialize_bytes(self) {
            Ok(bytes) => Ok(bytes),
            Err(e) => Err(Error::serialization(codec_failure_text(e))),
        }
    }

    fn decode(bytes: &[u8]) -> (r: Result<Vec<u8>, Error>) {
        match bincode_deserialize_bytes(bytes) {
            Ok(value) => {
                if bytes.len() - 8 == value.len() {
                    proof {
                        assert(bytes@.subrange(8, 8 + value@.len() as int) == bytes@.skip(8));
                    }
                    Ok(value)
                } else {
                    Err(trailing_bytes())
                }
            },
            Err(e) => Err(Error::serialization(codec_failure_text(e))),
        }
    }
}

/// The bytes under which `obj` is stored.
pub fn serialize<S: Storable>(obj: &S) -> (r: Result<Vec<u8>, Error>)
    ensures
        r matches Ok(bytes) && bytes@ == S::encoding(obj@),
{
    obj.encode()
}

/// The value that `bytes` store, where they are the encoding of one; a
/// `Serialization` failure for any other bytes.
pub fn deserialize<R: Storable>(bytes: &[u8]) -> (r: Result<R, Error>)
    ensures
        match R::decoding(bytes@) {
            Some(value) => r matches Ok(x) && x@ == value,
            None => r matches Err(e) && e.kind == ErrorClass::Serialization,
        },
{
    R::decode(bytes)
}

/// Encoding and then decoding gives the value back, for every storable type.
pub proof fn lemma_decode_encode<S: Storable>(value: S)
    ensures
        S::decoding(S::encoding(value@)) == Some(value@),
{
    S::lemma_round_trip(value);
}

} // verus!
