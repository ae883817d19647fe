use crate::engine::{
    async_builder, commit, flags_from_bits, is_cannot_open, open_in_memory, open_with_flags,
    pragma_update, query_integer, rollback, transaction, with_on_close,
};
use crate::error::ConnectionBuilderError;
use crate::migrations::{first_pending, latest, Entry, Migrations};
use crate::opener::{next_step, open_flags, Attempt, OpenStep};
use crate::protocol::{Command, Phase, Progress, Reply, Setup};
use vstd::pervasive::unreached;
use vstd::prelude::*;

verus! {

/// How an attempt that failed ended, given whether the engine reported that
/// it could not open the file.
fn attempt_of(cannot_open: bool) -> (attempt: Attempt)
    ensures
        attempt == if cannot_open {
            Attempt::CannotOpen
        } else {
            Attempt::Failed
        },
{
    if cannot_open {
        Attempt::CannotOpen
    } else {
        Attempt::Failed
    }
}

/// The result of a call into the engine, with a failure of the engine as the
/// error of a setup pass.
fn engine<T, E>(result: Result<T, rusqlite::Error>) -> (r: Result<T, ConnectionBuilderError<E>>)
    ensures
        match result {
            Ok(value) => r == Ok::<T, ConnectionBuilderError<E>>(value),
            Err(error) => r == Err::<T, _>(ConnectionBuilderError::<E>::Db(error)),
        },
{
    match result {
        Ok(value) => Ok(value),
        Err(error) => Err(ConnectionBuilderError::Db(error)),
    }
}

/// An opinionated connection builder which hands back a connection after
/// checking the application ID and performing any necessary migrations.
#[verifier::reject_recursive_types(E)]
pub struct ConnectionBuilder<E = rusqlite::Error> {
    // PRAGMA application_id = INTEGER; default 0
    app_id: i32,
    // PRAGMA foreign_keys = BOOLEAN; default on
    foreign_keys: bool,
    // Migrations to apply
    migrations: Migrations<E>,
    // The builder that carries the function to call when the connection's
    // thread shuts down, until a connection is made from it
    on_close: Option<async_rusqlite::ConnectionBuilder>,
}

impl<E> ConnectionBuilder<E> {
    /// The application ID that the builder stamps into new files and expects
    /// in existing ones.
    pub closed spec fn application_id(self) -> i32 {
        self.app_id
    }

    /// Whether connections are set up to enforce foreign keys.
    pub closed spec fn enforces_foreign_keys(self) -> bool {
        self.foreign_keys
    }

    /// The migrations that the builder applies.
    pub closed spec fn registry(self) -> Migrations<E> {
        self.migrations
    }

    /// The builder with the close function, where one is configured and has
    /// not been handed out yet.
    pub closed spec fn close_hook(self) -> Option<async_rusqlite::ConnectionBuilder> {
        self.on_close
    }

    /// That `error` is something that the procedure of one of the registered
    /// migrations may return.
    pub open spec fn raised_by_migration(self, error: E) -> bool {
        exists|i: int, conn: &rusqlite::Connection|
            0 <= i < self.registry()@.len() && #[trigger] self.registry().procedure(i).may_return(
                conn,
                Err(error),
            )
    }

    /// What a setup pass may return, whatever the engine answers: it reports a
    /// wrong application ID only for an existing file and with an ID that
    /// differs from the configured one, reports the file as out of date only
    /// with the highest registered version and a file version above it, hands
    /// on as a migration's failure only what a registered procedure returned,
    /// and never reports a closed connection.
    pub open spec fn may_end_in(self, is_new: bool, r: Result<(), ConnectionBuilderError<E>>) -> bool {
        match r {
            Ok(()) => true,
            Err(ConnectionBuilderError::UnexpectedlyClosed) => false,
            Err(ConnectionBuilderError::WrongApplicationId(found)) => !is_new && found
                != self.application_id(),
            Err(ConnectionBuilderError::OutOfDate { db_version, latest_migration }) => {
                &&& latest_migration == latest(self.registry()@)
                &&& db_version > latest_migration
            },
            Err(ConnectionBuilderError::Db(_)) => true,
            Err(ConnectionBuilderError::Migration(error)) => self.raised_by_migration(error),
        }
    }

    /// Construct a new connection builder.
    pub fn new() -> (r: Self)
        ensures
            r.application_id() == 0,
            r.enforces_foreign_keys(),
            r.registry()@ == Seq::<Entry>::empty(),
            r.close_hook() is None,
    {
        ConnectionBuilder { app_id: 0, foreign_keys: true, migrations: Migrations::new(), on_close: None }
    }

    /// Configure a function to be called exactly once when a connection that
    /// lives on a thread of its own is closed. If the database has already been
    /// closed then it will be given `None`, else it will be handed the database
    /// connection.
    pub fn on_close<F>(self, f: F) -> (r: Self) where
        F: FnOnce(Option<rusqlite::Connection>) + Send + 'static,

        ensures
            r.close_hook() is Some,
            r.application_id() == self.application_id(),
            r.enforces_foreign_keys() == self.enforces_foreign_keys(),
            r.registry() == self.registry(),
    {
        let hooked = with_on_close(async_builder(), f);
        ConnectionBuilder {
            app_id: self.app_id,
            foreign_keys: self.foreign_keys,
            migrations: self.migrations,
            on_close: Some(hooked),
        }
    }

    /// Set the "app ID" for this database. If opening an existing file,
    /// this ID must match else an error will be generated. This helps to
    /// ensure that the database we're trying to open is meant for the app
    /// we're running. Default to 0 if not set ("SQLite Database").
    pub fn app_id(self, app_id: i32) -> (r: Self)
        ensures
            r.application_id() == app_id,
            r.enforces_foreign_keys() == self.enforces_foreign_keys(),
            r.registry() == self.registry(),
            r.close_hook() == self.close_hook(),
    {
        ConnectionBuilder {
            app_id,
            foreign_keys: self.foreign_keys,
            migrations: self.migrations,
            on_close: self.on_close,
        }
    }

    /// Set whether connections enforce foreign keys. They do unless this is
    /// switched off.
    pub fn enforce_foreign_keys(self, enforce: bool) -> (r: Self)
        ensures
            r.enforces_foreign_keys() == enforce,
            r.application_id() == self.application_id(),
            r.registry() == self.registry(),
            r.close_hook() == self.close_hook(),
    {
        ConnectionBuilder {
            app_id: self.app_id,
            foreign_keys: enforce,
            migrations: self.migrations,
            on_close: self.on_close,
        }
    }

    /// Add a single migration to the list, which will be responsible for
    /// upgrading the database to the version given.
    ///
    /// The version must be greater than 0.
    pub fn add_migration<F>(self, version: i32, migration: F) -> (r: Self) where
        F: Send + 'static + Fn(&rusqlite::Connection) -> Result<(), E>,

        requires
            version > 0,
            forall|conn: &rusqlite::Connection| call_requires(migration, (conn,)),
        ensures
            r.registry().extends(self.registry(), version, true),
            forall|conn: &rusqlite::Connection, result: Result<(), E>|
                r.registry().procedure(
                    first_pending(self.registry()@, version as int),
                ).may_return(conn, result) <==> call_ensures(migration, (conn,), result),
            r.application_id() == self.application_id(),
            r.enforces_foreign_keys() == self.enforces_foreign_keys(),
            r.close_hook() == self.close_hook(),
    {
        ConnectionBuilder {
            app_id: self.app_id,
            foreign_keys: self.foreign_keys,
            migrations: self.migrations.add(version, migration),
            on_close: self.on_close,
        }
    }

    /// Like [`ConnectionBuilder::add_migration()`], except the migration
    /// will _not_ be performed inside a transaction.
    pub fn add_migration_non_transactionally<F>(self, version: i32, migration: F) -> (r: Self) where
        F: Send + 'static + Fn(&rusqlite::Connection) -> Result<(), E>,

        requires
            version > 0,
            forall|conn: &rusqlite::Connection| call_requires(migration, (conn,)),
        ensures
            r.registry().extends(self.registry(), version, false),
            forall|conn: &rusqlite::Connection, result: Result<(), E>|
                r.registry().procedure(
                    first_pending(self.registry()@, version as int),
                ).may_return(conn, result) <==> call_ensures(migration, (conn,), result),
            r.application_id() == self.application_id(),
            r.enforces_foreign_keys() == self.enforces_foreign_keys(),
            r.close_hook() == self.close_hook(),
    {
        ConnectionBuilder {
            app_id: self.app_id,
            foreign_keys: self.foreign_keys,
            migrations: self.migrations.add_non_transactionally(version, migration),
            on_close: self.on_close,
        }
    }

    /// Use the provided set of migrations to ensure that the database we
    /// connect to is up to date. The schema version recorded in the file tells
    /// which of them to apply.
    pub fn set_migrations(self, migrations: Migrations<E>) -> (r: Self)
        ensures
            r.registry() == migrations,
            r.application_id() == self.application_id(),
            r.enforces_foreign_keys() == self.enforces_foreign_keys(),
            r.close_hook() == self.close_hook(),
    {
        ConnectionBuilder {
            app_id: self.app_id,
            foreign_keys: self.foreign_keys,
            migrations,
            on_close: self.on_close,
        }
    }

    /// Hands out the builder for a connection that lives on a thread of its
    /// own. The close function goes with the first builder that is handed
    /// out; later ones carry none.
    pub fn connection_builder(&mut self) -> (builder: async_rusqlite::ConnectionBuilder)
        ensures
            old(self).close_hook() matches Some(hooked) ==> builder == hooked,
            final(self).close_hook() is None,
            final(self).application_id() == old(self).application_id(),
            final(self).enforces_foreign_keys() == old(self).enforces_foreign_keys(),
            final(self).registry() == old(self).registry(),
    {
        match self.on_close.take() {
            Some(hooked) => hooked,
            None => async_builder(),
        }
    }

    /// Open a connection to an in-memory database, which is always new.
    pub fn open_in_memory(self) -> (r: Result<rusqlite::Connection, ConnectionBuilderError<E>>)
        ensures
            r matches Err(e) ==> self.may_end_in(true, Err(e)),
    {
        let mut conn = engine(open_in_memory())?;
        self.setup(&mut conn, true)?;
        Ok(conn)
    }

    /// Open a connection to a database at some file.
    ///
    /// The file is first opened without leave to create it. Only where the
    /// engine cannot open it is it created, and then set up as a new file.
    pub fn open(self, path: &str) -> (r: Result<rusqlite::Connection, ConnectionBuilderError<E>>)
        ensures
            r matches Err(e) ==> self.may_end_in(false, Err(e)),
    {
        let mut creating = false;
        let first = open_with_flags(path, flags_from_bits(open_flags(creating)));
        let mut conn = match first {
            Ok(conn) => conn,
            Err(e) => {
                match next_step(creating, attempt_of(is_cannot_open(&e))) {
                    OpenStep::Create => {},
                    _ => {
                        // Something else went wrong; just return the error.
                        return Err(ConnectionBuilderError::Db(e));
                    },
                }
                // Can't open the file; try again but allow creating it.
                creating = true;
                engine(open_with_flags(path, flags_from_bits(open_flags(creating))))?
            },
        };
        self.setup(&mut conn, creating)?;
        Ok(conn)
    }

    /// Perform the setup on an opened connection: check or stamp the
    /// application ID, set foreign key enforcement, and apply the migrations
    /// that the file still lacks. `is_new` says that the file was just created.
    ///
    /// The pass itself decides what is asked of the engine and how it ends;
    /// here each of its commands is carried out on the connection and the
    /// reply handed back.
    pub fn setup(self, conn: &mut rusqlite::Connection, is_new: bool) -> (r: Result<
        (),
        ConnectionBuilderError<E>,
    >)
        ensures
            self.may_end_in(is_new, r),
    {
        let conn: &rusqlite::Connection = conn;
        let mut state = Setup::start(&self.migrations, self.app_id, self.foreign_keys, is_new);
        let mut open: Option<rusqlite::Transaction<'_>> = None;
        loop
            invariant
                state.wf(),
                state.migrations == &self.migrations,
                state.app_id == self.app_id,
                state.is_new == is_new,
                open is Some <==> state.in_transaction(),
                state.phase matches Phase::Undoing(error) ==> self.may_end_in(is_new, Err(error)),
            decreases state.stage(), state.migrations_left(), state.commands_left(),
        {
            let reply = match state.command() {
                Command::SetApplicationId(id) => Reply::done(pragma_update(conn, "application_id", id)),
                Command::GetApplicationId => Reply::integer(
                    query_integer(conn, "SELECT * FROM pragma_application_id"),
                ),
                Command::SetForeignKeys(on) => {
                    let value: i32 = if on {
                        1
                    } else {
                        0
                    };
                    Reply::done(pragma_update(conn, "foreign_keys", value))
                },
                Command::GetUserVersion => Reply::integer(
                    query_integer(conn, "SELECT * FROM pragma_user_version"),
                ),
                Command::Begin => match transaction(conn) {
                    Ok(tx) => {
                        open = Some(tx);
                        Reply::Done
                    },
                    Err(e) => Reply::Failed(e),
                },
                Command::Run(index) => {
                    let result = self.migrations.run(index, conn);
                    assert(result matches Err(error) ==> self.registry().procedure(
                        index as int,
                    ).may_return(conn, Err(error)));
                    Reply::ran(result)
                },
                Command::SetUserVersion(version) => Reply::done(
                    pragma_update(conn, "user_version", version),
                ),
                Command::Commit => match open.take() {
                    // Where the commit fails the transaction is rolled back
                    // as it is dropped.
                    Some(tx) => Reply::done(commit(tx)),
                    None => unreached(),
                },
                Command::Rollback => match open.take() {
                    Some(tx) => Reply::done(rollback(tx)),
                    None => unreached(),
                },
            };
            assert(reply matches Reply::Refused(error) ==> self.raised_by_migration(error));
            match state.step(reply) {
                Progress::Next(next) => {
                    state = next;
                },
                Progress::Done(result) => {
                    // However the pass ends, no transaction is left open.
                    assert(open is None);
                    return result;
                },
            }
        }
    }
}

} // verus!
