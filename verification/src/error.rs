//! The one error type that every operation of the layer returns.

use vstd::prelude::*;
use lmdb_rs::MdbError;
use crate::engine::engine_failure;

verus! {

/// What went wrong, as far as a caller has to tell failures apart.
#[derive(Clone, Copy, Debug, PartialEq, Eq, Structural)]
pub enum ErrorClass {
    /// The storage engine refused or failed an operation.
    StoreEngine,
    /// Bytes and the requested value type do not fit together.
    Serialization,
    /// No entry under the key, or none that a search accepts.
    NotFound,
    /// An argument that no caller should pass.
    CallerMisuse,
}

/// A failure of the storage engine, as plain data.
///
/// Absence of a key and presence of a key that was to be inserted are kept
/// apart, because the layer reacts to them; every other failure carries the
/// engine's own description.
#[derive(Debug)]
pub enum EngineFailure {
    NotFound,
    KeyExists,
    Failed(String),
}

/// A failure with its kind and a message for people.
#[derive(Debug)]
pub struct Error {
    pub kind: ErrorClass,
    pub message: String,
}

/// The kind under which an engine failure surfaces.
pub open spec fn kind_of_failure(failure: EngineFailure) -> ErrorClass {
    match failure {
        EngineFailure::NotFound => ErrorClass::NotFound,
        EngineFailure::KeyExists => ErrorClass::StoreEngine,
        EngineFailure::Failed(_) => ErrorClass::StoreEngine,
    }
}

/// The message under which an engine failure surfaces.
pub open spec fn message_of_failure(failure: EngineFailure) -> Seq<char> {
    match failure {
        EngineFailure::NotFound => "no entry found"@,
        EngineFailure::KeyExists => "key exists"@,
        EngineFailure::Failed(text) => text@,
    }
}

/// `e` is the failure under which `failure` surfaces where a key is looked
/// up: absence stays `NotFound`, anything else is the engine's.
pub open spec fn surfaces_at_key(failure: EngineFailure, e: Error) -> bool {
    e.kind == kind_of_failure(failure) && e.message@ == message_of_failure(failure)
}

/// `e` is the failure under which `failure` surfaces where no key is looked
/// up: whatever the engine said, it is the engine's.
pub open spec fn surfaces_as_engine(failure: EngineFailure, e: Error) -> bool {
    e.kind == ErrorClass::StoreEngine && e.message@ == message_of_failure(failure)
}

impl Error {
    pub fn new(kind: ErrorClass, message: String) -> (e: Error)
        ensures
            e.kind == kind,
            e.message == message,
    {
        Error { kind, message }
    }

    /// A key is absent, or a search found nothing.
    pub fn not_found(text: &str) -> (e: Error)
        ensures
            e.kind == ErrorClass::NotFound,
            e.message@ == text@,
    {
        Error { kind: ErrorClass::NotFound, message: text.to_owned() }
    }

    /// The caller passed an argument that the operation cannot take.
    pub fn caller_misuse(text: &str) -> (e: Error)
        ensures
            e.kind == ErrorClass::CallerMisuse,
            e.message@ == text@,
    {
        Error { kind: ErrorClass::CallerMisuse, message: text.to_owned() }
    }

    /// Bytes did not have the shape of the requested type.
    pub fn serialization(text: String) -> (e: Error)
        ensures
            e.kind == ErrorClass::Serialization,
            e.message == text,
    {
        Error { kind: ErrorClass::Serialization, message: text }
    }

    /// Wraps a failure of the storage engine at a place where no key is
    /// looked up: whatever the engine said, the kind is `StoreEngine`.
    pub fn store_engine(failure: EngineFailure) -> (e: Error)
        ensures
            e.kind == ErrorClass::StoreEngine,
            e.message@ == message_of_failure(failure),
    {
        match failure {
            EngineFailure::NotFound => Error {
                kind: ErrorClass::StoreEngine,
                message: "no entry found".to_owned(),
            },
            EngineFailure::KeyExists => Error {
                kind: ErrorClass::StoreEngine,
                message: "key exists".to_owned(),
            },
            EngineFailure::Failed(text) => Error { kind: ErrorClass::StoreEngine, message: text },
        }
    }

    /// Wraps a failure of the storage engine at a place where a key is
    /// looked up. Absence stays recognisable: it alone becomes `NotFound`.
    pub fn from_engine(failure: EngineFailure) -> (e: Error)
        ensures
            e.kind == kind_of_failure(failure),
            e.message@ == message_of_failure(failure),
    {
        match failure {
            EngineFailure::NotFound => Error::not_found("no entry found"),
            EngineFailure::KeyExists => Error {
                kind: ErrorClass::StoreEngine,
                message: "key exists".to_owned(),
            },
            EngineFailure::Failed(text) => Error { kind: ErrorClass::StoreEngine, message: text },
        }
    }

    /// Wraps the engine's own error at a place where a key is looked up:
    /// `from_engine` on what the error is as plain data.
    pub fn from_mdb(e: MdbError) -> (r: Error)
        ensures
            exists|failure: EngineFailure| surfaces_at_key(failure, r),
    {
        let failure = engine_failure(e);
        let r = Error::from_engine(failure);
        assert(surfaces_at_key(failure, r));
        r
    }

    /// True for the failures that mean "nothing there" rather than "something broke".
    pub fn is_not_found(&self) -> (b: bool)
        ensures
            b == (self.kind == ErrorClass::NotFound),
    {
        self.kind == ErrorClass::NotFound
    }

    /// The message, for callers that print it.
    pub fn description(&self) -> (text: String)
        ensures
            text@ == self.message@,
    {
        self.message.clone()
    }
}

} // verus!
