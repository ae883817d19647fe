use async_rusqlite::ConnectionBuilder as AsyncBuilder;
use vstd::prelude::*;

verus! {

/// An open SQLite connection. Nothing of its state is visible to proofs.
#[verifier::external_type_specification]
#[verifier::external_body]
pub struct ExConnection(rusqlite::Connection);

/// A failure reported by the SQLite engine or by `rusqlite` itself.
#[verifier::external_type_specification]
#[verifier::external_body]
pub struct ExError(rusqlite::Error);

/// A transaction that is open on a connection.
#[verifier::external_type_specification]
#[verifier::external_body]
pub struct ExTransaction<'conn>(rusqlite::Transaction<'conn>);

/// The set of flags with which SQLite opens a file.
#[verifier::external_type_specification]
#[verifier::external_body]
pub struct ExOpenFlags(rusqlite::OpenFlags);

/// The builder from which `async_rusqlite` makes a connection that lives on
/// a thread of its own.
#[verifier::external_type_specification]
#[verifier::external_body]
pub struct ExAsyncBuilder(AsyncBuilder);

/// `Connection::pragma_update` without a schema name: runs
/// `PRAGMA <name>=<value>`. Nothing is claimed of its effect or result.
#[verifier::external_body]
pub(crate) fn pragma_update(conn: &rusqlite::Connection, name: &str, value: i32) -> (r: Result<
    (),
    rusqlite::Error,
>) {
    conn.pragma_update(None, name, value)
}

/// `Connection::query_row` without parameters, reading the first column of
/// the first row as an integer. Nothing is claimed of its result.
#[verifier::external_body]
pub(crate) fn query_integer(conn: &rusqlite::Connection, sql: &str) -> (r: Result<
    i32,
    rusqlite::Error,
>) {
    conn.query_row(sql, [], |row| row.get(0))
}

/// `Connection::unchecked_transaction`: begins a transaction, which rolls
/// back when it is dropped without a commit. Nothing is claimed of its
/// result.
#[verifier::external_body]
pub(crate) fn transaction<'conn>(conn: &'conn rusqlite::Connection) -> (r: Result<
    rusqlite::Transaction<'conn>,
    rusqlite::Error,
>) {
    conn.unchecked_transaction()
}

/// `Transaction::commit`. Nothing is claimed of its result.
#[verifier::external_body]
pub(crate) fn commit(tx: rusqlite::Transaction<'_>) -> (r: Result<(), rusqlite::Error>) {
    tx.commit()
}

/// `Transaction::rollback`. Nothing is claimed of its result.
#[verifier::external_body]
pub(crate) fn rollback(tx: rusqlite::Transaction<'_>) -> (r: Result<(), rusqlite::Error>) {
    tx.rollback()
}

/// `Connection::open_in_memory`. Nothing is claimed of its result.
#[verifier::external_body]
pub(crate) fn open_in_memory() -> (r: Result<rusqlite::Connection, rusqlite::Error>) {
    rusqlite::Connection::open_in_memory()
}

/// `Connection::open_with_flags`. Nothing is claimed of its result.
#[verifier::external_body]
pub(crate) fn open_with_flags(path: &str, flags: rusqlite::OpenFlags) -> (r: Result<
    rusqlite::Connection,
    rusqlite::Error,
>) {
    rusqlite::Connection::open_with_flags(path, flags)
}

/// `OpenFlags::from_bits_truncate`: the flags whose bits are set in `bits`.
#[verifier::external_body]
pub(crate) fn flags_from_bits(bits: i32) -> (flags: rusqlite::OpenFlags) {
    rusqlite::OpenFlags::from_bits_truncate(bits)
}

/// Whether `error` is an `Error::SqliteFailure` whose code is
/// `ErrorCode::CannotOpen`.
#[verifier::external_body]
pub(crate) fn is_cannot_open(error: &rusqlite::Error) -> (b: bool) {
    match error {
        rusqlite::Error::SqliteFailure(
            rusqlite::ffi::Error { code: rusqlite::ffi::ErrorCode::CannotOpen, .. },
            _,
        ) => true,
        _ => false,
    }
}

/// `async_rusqlite::Connection::builder`: a builder with nothing configured.
#[verifier::external_body]
pub(crate) fn async_builder() -> (builder: AsyncBuilder) {
    async_rusqlite::Connection::builder()
}

/// `async_rusqlite::ConnectionBuilder::on_close`: the builder with `f` set as
/// the function that is called once when the connection is closed.
#[verifier::external_body]
pub(crate) fn with_on_close<F>(builder: AsyncBuilder, f: F) -> (hooked: AsyncBuilder) where
    F: FnOnce(Option<rusqlite::Connection>) + Send + 'static,
 {
    builder.on_close(f)
}

} // verus!
