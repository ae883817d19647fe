use vstd::prelude::*;
use vstd::std_specs::convert::FromSpecImpl;

verus! {

/// The marker that `async_rusqlite` hands out when a connection was closed
/// before a call could run on it.
#[verifier::external_type_specification]
#[verifier::external_body]
pub struct ExAlreadyClosed(async_rusqlite::AlreadyClosed);

/// Why a database could not be opened and brought up to date.
#[derive(Debug)]
#[non_exhaustive]
pub enum ConnectionBuilderError<E = rusqlite::Error> {
    /// The connection was closed before or while it was being set up.
    UnexpectedlyClosed,
    /// The file carries another application's ID; the ID found is given.
    WrongApplicationId(i32),
    /// The file is at a schema version that is higher than any registered
    /// migration reaches.
    OutOfDate { db_version: i32, latest_migration: i32 },
    /// The database engine reported a failure.
    Db(rusqlite::Error),
    /// A migration procedure reported a failure.
    Migration(E),
}

impl<E> From<rusqlite::Error> for ConnectionBuilderError<E> {
    fn from(value: rusqlite::Error) -> (r: Self) {
        ConnectionBuilderError::Db(value)
    }
}

impl<E> FromSpecImpl<rusqlite::Error> for ConnectionBuilderError<E> {
    open spec fn obeys_from_spec() -> bool {
        true
    }

    open spec fn from_spec(value: rusqlite::Error) -> Self {
        ConnectionBuilderError::Db(value)
    }
}

impl<E> From<async_rusqlite::AlreadyClosed> for ConnectionBuilderError<E> {
    fn from(_value: async_rusqlite::AlreadyClosed) -> (r: Self) {
        ConnectionBuilderError::UnexpectedlyClosed
    }
}

impl<E> FromSpecImpl<async_rusqlite::AlreadyClosed> for ConnectionBuilderError<E> {
    open spec fn obeys_from_spec() -> bool {
        true
    }

    open spec fn from_spec(_value: async_rusqlite::AlreadyClosed) -> Self {
        ConnectionBuilderError::UnexpectedlyClosed
    }
}

} // verus!
