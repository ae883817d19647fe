use crate::error::ConnectionBuilderError;
use crate::migrations::{latest, Entry, Migrations};
use crate::plan::{plan_spec, BatchView};
use crate::protocol::{Command, Progress, Reply, Setup};
use vstd::prelude::*;

verus! {

/// What the procedure of a migration left in a database, named by the
/// migration's version.
pub enum Change {
    /// All that the procedure does.
    Whole(i32),
    /// What the procedure had done when it failed.
    Part(i32),
}

/// A database file as the setup protocol sees it: the two integers that
/// SQLite keeps in the file's header, and what migration procedures have
/// left in it, oldest first.
pub struct Database {
    pub application_id: i32,
    pub user_version: i32,
    pub changes: Seq<Change>,
}

/// A database file as SQLite creates it.
pub open spec fn fresh() -> Database {
    Database { application_id: 0, user_version: 0, changes: Seq::empty() }
}

/// A connection on an engine that does not fail: the database file, and,
/// while a transaction is open, the file as the transaction would leave it.
pub struct Engine {
    pub database: Database,
    pub staged: Option<Database>,
}

impl Engine {
    /// A connection to `database` with no transaction open.
    pub open spec fn idle(database: Database) -> Engine {
        Engine { database, staged: None }
    }

    /// The database as statements on the connection see it.
    pub open spec fn current(self) -> Database {
        match self.staged {
            Some(staged) => staged,
            None => self.database,
        }
    }

    /// The connection after a statement has changed the database to `changed`:
    /// inside a transaction only what is staged changes.
    pub open spec fn write(self, changed: Database) -> Engine {
        match self.staged {
            Some(_) => Engine { staged: Some(changed), ..self },
            None => Engine { database: changed, ..self },
        }
    }
}

/// What an engine that does not fail makes of a command: the connection
/// afterwards, and the reply. The procedure of a migration leaves all its
/// changes or, where it fails, a part of them.
pub open spec fn respond<E>(
    engine: Engine,
    command: Command,
    s: Seq<Entry>,
    failing: Map<int, E>,
) -> (Engine, Reply<E>) {
    let current = engine.current();
    match command {
        Command::SetApplicationId(id) => (
            engine.write(Database { application_id: id, ..current }),
            Reply::Done,
        ),
        Command::GetApplicationId => (engine, Reply::Integer(current.application_id)),
        Command::SetForeignKeys(_) => (engine, Reply::Done),
        Command::GetUserVersion => (engine, Reply::Integer(current.user_version)),
        Command::Begin => (Engine { staged: Some(engine.database), ..engine }, Reply::Done),
        Command::Run(index) => if failing.dom().contains(index as int) {
            (
                engine.write(
                    Database {
                        changes: current.changes.push(Change::Part(s[index as int].version)),
                        ..current
                    },
                ),
                Reply::Refused(failing[index as int]),
            )
        } else {
            (
                engine.write(
                    Database {
                        changes: current.changes.push(Change::Whole(s[index as int].version)),
                        ..current
                    },
                ),
                Reply::Done,
            )
        },
        Command::SetUserVersion(version) => (
            engine.write(Database { user_version: version, ..current }),
            Reply::Done,
        ),
        Command::Commit => (Engine { database: current, staged: None }, Reply::Done),
        Command::Rollback => (Engine { staged: None, ..engine }, Reply::Done),
    }
}

/// A setup pass driven to its end on an engine that does not fail: each
/// command is carried out and its reply handed back, until the pass ends.
pub open spec fn run_spec<'a, E>(state: Setup<'a, E>, engine: Engine, failing: Map<int, E>) -> (
    Engine,
    Result<(), ConnectionBuilderError<E>>,
)
    decreases state.stage(), state.migrations_left(), state.commands_left(),
    when state.wf()
    via run_spec_ends::<E>
{
    let (after, reply) = respond(engine, state.awaited(), state.migrations@, failing);
    match state.step_spec(reply) {
        Progress::Next(next) => run_spec(next, after, failing),
        Progress::Done(result) => (after, result),
    }
}

/// Setting up a connection to `database` on an engine that does not fail:
/// the connection at the end of the pass, and the result of the pass.
pub open spec fn setup_run<'a, E>(
    database: Database,
    is_new: bool,
    app_id: i32,
    foreign_keys: bool,
    migrations: &'a Migrations<E>,
    failing: Map<int, E>,
) -> (Engine, Result<(), ConnectionBuilderError<E>>) {
    run_spec(
        Setup::initial(migrations, app_id, foreign_keys, is_new),
        Engine::idle(database),
        failing,
    )
}

/// Opening a file on an engine that does not fail: a file that is not there
/// is created and set up as new, one that is there is set up as it is.
pub open spec fn open_run<'a, E>(
    file: Option<Database>,
    app_id: i32,
    foreign_keys: bool,
    migrations: &'a Migrations<E>,
    failing: Map<int, E>,
) -> (Engine, Result<(), ConnectionBuilderError<E>>) {
    match file {
        None => setup_run(fresh(), true, app_id, foreign_keys, migrations, failing),
        Some(database) => setup_run(database, false, app_id, foreign_keys, migrations, failing),
    }
}

#[via_fn]
proof fn run_spec_ends<'a, E>(state: Setup<'a, E>, engine: Engine, failing: Map<int, E>) {
    let (after, reply) = respond(engine, state.awaited(), state.migrations@, failing);
    state.lemma_step(reply);
}

/// How a setup pass ends: the database as it is left, and what the caller is
/// told. What follows describes that in one piece, batch by batch, rather
/// than command by command; driving a pass on the engine above comes to the
/// same.
#[verifier::reject_recursive_types(E)]
pub struct Outcome<E> {
    pub database: Database,
    pub result: Result<(), ConnectionBuilderError<E>>,
}

/// The first index in `from..end` at which a procedure fails, and `end` if
/// none does. `failing` maps the index of each migration whose procedure
/// fails to the error that it returns.
pub open spec fn first_failure<E>(failing: Map<int, E>, from: int, end: int) -> int
    decreases end - from,
{
    if from < end && !failing.dom().contains(from) {
        first_failure(failing, from + 1, end)
    } else {
        from
    }
}

/// What the migrations `from..end` leave behind when each of them succeeds.
pub open spec fn whole_changes(s: Seq<Entry>, from: int, end: int) -> Seq<Change> {
    Seq::new((end - from) as nat, |i: int| Change::Whole(s[from + i].version))
}

/// Applies one batch to a database, on an engine that does not fail. Gives
/// the database as the batch leaves it and, where a procedure failed, the
/// index of its migration.
///
/// A transactional batch leaves no trace if one of its procedures fails.
/// A migration outside a transaction leaves what it had done.
pub open spec fn apply_batch<E>(
    database: Database,
    s: Seq<Entry>,
    batch: BatchView,
    failing: Map<int, E>,
) -> (Database, Option<int>) {
    if batch.transactional {
        let failed = first_failure(failing, batch.first, batch.end);
        if failed < batch.end {
            (database, Some(failed))
        } else {
            (
                Database {
                    user_version: batch.version,
                    changes: database.changes + whole_changes(s, batch.first, batch.end),
                    ..database
                },
                None,
            )
        }
    } else if failing.dom().contains(batch.first) {
        (
            Database {
                changes: database.changes.push(Change::Part(s[batch.first].version)),
                ..database
            },
            Some(batch.first),
        )
    } else {
        (
            Database {
                user_version: batch.version,
                changes: database.changes.push(Change::Whole(s[batch.first].version)),
                ..database
            },
            None,
        )
    }
}

/// Applies batches in order and stops at the first failure.
pub open spec fn apply_batches<E>(
    database: Database,
    s: Seq<Entry>,
    batches: Seq<BatchView>,
    failing: Map<int, E>,
) -> (Database, Option<int>)
    decreases batches.len(),
{
    if batches.len() == 0 {
        (database, None)
    } else {
        let (after, failed) = apply_batch(database, s, batches[0], failing);
        if failed is Some {
            (after, failed)
        } else {
            apply_batches(after, s, batches.drop_first(), failing)
        }
    }
}

/// What the caller is told when applying the batches ended with the failure
/// of the procedure at index `failed`, or with none.
pub open spec fn reported<E>(failed: Option<int>, failing: Map<int, E>) -> Result<
    (),
    ConnectionBuilderError<E>,
> {
    match failed {
        None => Ok(()),
        Some(index) => Err(ConnectionBuilderError::Migration(failing[index])),
    }
}

/// A setup pass on a database, on an engine that does not fail: the
/// application ID is stamped into a new file and checked in an existing one,
/// a file that is ahead of the registered migrations is refused, and the
/// pending migrations are applied batch by batch.
pub open spec fn setup_spec<E>(
    database: Database,
    is_new: bool,
    app_id: i32,
    s: Seq<Entry>,
    failing: Map<int, E>,
) -> Outcome<E> {
    if !is_new && database.application_id != app_id {
        Outcome {
            database,
            result: Err(ConnectionBuilderError::WrongApplicationId(database.application_id)),
        }
    } else {
        let stamped = if is_new {
            Database { application_id: app_id, ..database }
        } else {
            database
        };
        if latest(s) < stamped.user_version {
            Outcome {
                database: stamped,
                result: Err(
                    ConnectionBuilderError::OutOfDate {
                        db_version: stamped.user_version,
                        latest_migration: latest(s) as i32,
                    },
                ),
            }
        } else {
            let (after, failed) = apply_batches(
                stamped,
                s,
                plan_spec(s, stamped.user_version as int),
                failing,
            );
            Outcome { database: after, result: reported(failed, failing) }
        }
    }
}

/// Opening a file and setting it up: a file that is not there is created and
/// set up as new, one that is there is set up as it is.
pub open spec fn open_spec<E>(
    file: Option<Database>,
    app_id: i32,
    s: Seq<Entry>,
    failing: Map<int, E>,
) -> Outcome<E> {
    match file {
        None => setup_spec(fresh(), true, app_id, s, failing),
        Some(database) => setup_spec(database, false, app_id, s, failing),
    }
}

} // verus!
