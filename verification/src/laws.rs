use crate::error::ConnectionBuilderError;
use crate::migrations::{ascending, first_pending, latest, positive, Migrations};
use crate::model::{open_run, open_spec, setup_run, setup_spec, whole_changes, Change, Database, Engine};
use crate::outcomes::{
    lemma_failed_transaction_leaves_no_trace, lemma_failure_keeps_last_commit,
    lemma_fresh_open_is_idempotent, lemma_newer_file_is_refused,
    lemma_older_migrations_are_refused, lemma_other_application_is_refused,
    lemma_reopening_changes_nothing, lemma_success_applies_all_pending, run_start,
};
use crate::protocol::Setup;
use crate::refinement::lemma_pass_follows_model;
use vstd::prelude::*;

verus! {

/// That the migrations are such as a `Migrations` holds: in ascending order
/// of versions that are greater than zero, and no more than can be counted.
pub open spec fn valid<E>(migrations: &Migrations<E>) -> bool {
    &&& ascending(migrations@)
    &&& positive(migrations@)
    &&& migrations@.len() <= usize::MAX
}

/// Setting a connection up leaves no transaction open, leaves the file as
/// `setup_spec` says, and ends as `setup_spec` says.
pub proof fn law_setup_follows_model<E>(
    database: Database,
    is_new: bool,
    app_id: i32,
    foreign_keys: bool,
    migrations: &Migrations<E>,
    failing: Map<int, E>,
)
    requires
        valid(migrations),
    ensures
        ({
            let outcome = setup_spec(database, is_new, app_id, migrations@, failing);
            setup_run(database, is_new, app_id, foreign_keys, migrations, failing) == (
                Engine::idle(outcome.database),
                outcome.result,
            )
        }),
{
    lemma_pass_follows_model(
        Setup::initial(migrations, app_id, foreign_keys, is_new),
        database,
        failing,
    );
}

/// Opening a file leaves no transaction open, leaves the file as `open_spec`
/// says, and ends as `open_spec` says.
pub proof fn law_open_follows_model<E>(
    file: Option<Database>,
    app_id: i32,
    foreign_keys: bool,
    migrations: &Migrations<E>,
    failing: Map<int, E>,
)
    requires
        valid(migrations),
    ensures
        ({
            let outcome = open_spec(file, app_id, migrations@, failing);
            open_run(file, app_id, foreign_keys, migrations, failing) == (
                Engine::idle(outcome.database),
                outcome.result,
            )
        }),
{
    match file {
        None => law_setup_follows_model(
            crate::model::fresh(),
            true,
            app_id,
            foreign_keys,
            migrations,
            failing,
        ),
        Some(database) => law_setup_follows_model(
            database,
            false,
            app_id,
            foreign_keys,
            migrations,
            failing,
        ),
    }
}

/// Reopening changes nothing. Where opening a file with some migrations
/// succeeded, opening what it left with the same application ID and the
/// same migrations succeeds again, whatever the procedures would do now:
/// none of them is run, and the file stays as it is, schema version included.
pub proof fn law_reopening_changes_nothing<E>(
    file: Option<Database>,
    app_id: i32,
    foreign_keys: bool,
    migrations: &Migrations<E>,
    failing: Map<int, E>,
    foreign_keys_later: bool,
    failing_later: Map<int, E>,
)
    requires
        valid(migrations),
        open_run(file, app_id, foreign_keys, migrations, failing).1 is Ok,
    ensures
        ({
            let first = open_run(file, app_id, foreign_keys, migrations, failing);
            let second = open_run(
                Some(first.0.database),
                app_id,
                foreign_keys_later,
                migrations,
                failing_later,
            );
            &&& second.0 == first.0
            &&& second.1 is Ok
        }),
{
    law_open_follows_model(file, app_id, foreign_keys, migrations, failing);
    let first = open_spec(file, app_id, migrations@, failing);
    law_open_follows_model(
        Some(first.database),
        app_id,
        foreign_keys_later,
        migrations,
        failing_later,
    );
    lemma_reopening_changes_nothing(file, app_id, migrations@, failing, failing_later);
}

/// The same for a file that did not exist and migrations with distinct,
/// strictly increasing versions whose procedures all succeed: the first open
/// succeeds and leaves the file at the highest version, and the second open
/// succeeds, applies nothing and leaves it at that version.
pub proof fn law_fresh_open_is_idempotent<E>(
    app_id: i32,
    foreign_keys: bool,
    migrations: &Migrations<E>,
    failing: Map<int, E>,
    failing_later: Map<int, E>,
)
    requires
        valid(migrations),
        forall|i: int, j: int|
            0 <= i < j < migrations@.len() ==> migrations@[i].version < migrations@[j].version,
        forall|i: int| 0 <= i < migrations@.len() ==> !failing.dom().contains(i),
    ensures
        ({
            let first = open_run(None, app_id, foreign_keys, migrations, failing);
            let second = open_run(
                Some(first.0.database),
                app_id,
                foreign_keys,
                migrations,
                failing_later,
            );
            &&& first.1 is Ok
            &&& first.0.database.user_version == latest(migrations@)
            &&& second.1 is Ok
            &&& second.0 == first.0
        }),
{
    law_open_follows_model(None, app_id, foreign_keys, migrations, failing);
    let first = open_spec(None, app_id, migrations@, failing);
    law_open_follows_model(Some(first.database), app_id, foreign_keys, migrations, failing_later);
    lemma_fresh_open_is_idempotent(app_id, migrations@, failing, failing_later);
}

/// No partial credit inside a transaction. Where the first procedure to fail
/// is that of a transactional migration, and every pending migration before
/// it is transactional too, the pass reports that failure and leaves the file
/// as it found it, schema version included (but for the application ID
/// stamped into a new file).
pub proof fn law_failed_transaction_leaves_no_trace<E>(
    database: Database,
    is_new: bool,
    app_id: i32,
    foreign_keys: bool,
    migrations: &Migrations<E>,
    failing: Map<int, E>,
    failed: int,
)
    requires
        valid(migrations),
        is_new || database.application_id == app_id,
        latest(migrations@) >= database.user_version,
        first_pending(migrations@, database.user_version as int) <= failed < migrations@.len(),
        failing.dom().contains(failed),
        forall|i: int|
            first_pending(migrations@, database.user_version as int) <= i < failed
                ==> !failing.dom().contains(i),
        forall|i: int|
            first_pending(migrations@, database.user_version as int) <= i <= failed
                ==> migrations@[i].transactional,
    ensures
        ({
            let after = setup_run(database, is_new, app_id, foreign_keys, migrations, failing);
            &&& after.1 matches Err(ConnectionBuilderError::Migration(error))
            &&& error == failing[failed]
            &&& after.0.staged is None
            &&& after.0.database.user_version == database.user_version
            &&& after.0.database.changes == database.changes
        }),
{
    law_setup_follows_model(database, is_new, app_id, foreign_keys, migrations, failing);
    lemma_failed_transaction_leaves_no_trace(
        database,
        is_new,
        app_id,
        migrations@,
        failing,
        failed,
    );
}

/// What a pass leaves when a procedure fails. Let `failed` be the first
/// pending migration whose procedure fails. The pass reports that failure.
/// Every batch that was complete before is applied and recorded. If `failed`
/// is transactional, its whole batch leaves no trace: the file is at the
/// version of the migration before that batch, or at the version at which it
/// was found. If it is not, what its procedure did before it failed stays,
/// and the file is at the version of the migration before it.
pub proof fn law_failure_keeps_last_commit<E>(
    database: Database,
    is_new: bool,
    app_id: i32,
    foreign_keys: bool,
    migrations: &Migrations<E>,
    failing: Map<int, E>,
    failed: int,
)
    requires
        valid(migrations),
        is_new || database.application_id == app_id,
        latest(migrations@) >= database.user_version,
        first_pending(migrations@, database.user_version as int) <= failed < migrations@.len(),
        failing.dom().contains(failed),
        forall|i: int|
            first_pending(migrations@, database.user_version as int) <= i < failed
                ==> !failing.dom().contains(i),
    ensures
        ({
            let s = migrations@;
            let after = setup_run(database, is_new, app_id, foreign_keys, migrations, failing);
            let from = first_pending(s, database.user_version as int);
            let kept = if s[failed].transactional {
                run_start(s, from, failed)
            } else {
                failed
            };
            &&& after.1 matches Err(ConnectionBuilderError::Migration(error))
            &&& error == failing[failed]
            &&& after.0.staged is None
            &&& from <= kept <= failed
            &&& after.0.database.user_version == if kept > from {
                s[kept - 1].version
            } else {
                database.user_version
            }
            &&& after.0.database.changes == database.changes + whole_changes(s, from, kept)
                + if s[failed].transactional {
                Seq::<Change>::empty()
            } else {
                seq![Change::Part(s[failed].version)]
            }
        }),
{
    law_setup_follows_model(database, is_new, app_id, foreign_keys, migrations, failing);
    lemma_failure_keeps_last_commit(database, is_new, app_id, migrations@, failing, failed);
}

/// What a pass leaves when no procedure fails: it succeeds, every pending
/// migration is applied in order, and the file is at the highest registered
/// version if anything was pending.
pub proof fn law_success_applies_all_pending<E>(
    database: Database,
    is_new: bool,
    app_id: i32,
    foreign_keys: bool,
    migrations: &Migrations<E>,
    failing: Map<int, E>,
)
    requires
        valid(migrations),
        is_new || database.application_id == app_id,
        latest(migrations@) >= database.user_version,
        forall|i: int|
            first_pending(migrations@, database.user_version as int) <= i < migrations@.len()
                ==> !failing.dom().contains(i),
    ensures
        ({
            let s = migrations@;
            let after = setup_run(database, is_new, app_id, foreign_keys, migrations, failing);
            let from = first_pending(s, database.user_version as int);
            &&& after.1 is Ok
            &&& after.0.staged is None
            &&& after.0.database.application_id == app_id
            &&& after.0.database.user_version == if from < s.len() {
                latest(s) as i32
            } else {
                database.user_version
            }
            &&& after.0.database.changes == database.changes + whole_changes(
                s,
                from,
                s.len() as int,
            )
        }),
{
    law_setup_follows_model(database, is_new, app_id, foreign_keys, migrations, failing);
    lemma_success_applies_all_pending(database, is_new, app_id, migrations@, failing);
}

/// A file from a newer build is refused. Where an existing file with the
/// right application ID is at a schema version above every registered
/// migration, opening fails as out of date, with the file's version and the
/// highest registered version, and the file stays as it is.
pub proof fn law_newer_file_is_refused<E>(
    database: Database,
    app_id: i32,
    foreign_keys: bool,
    migrations: &Migrations<E>,
    failing: Map<int, E>,
)
    requires
        valid(migrations),
        database.application_id == app_id,
        latest(migrations@) < database.user_version,
    ensures
        ({
            let after = open_run(Some(database), app_id, foreign_keys, migrations, failing);
            &&& after.0 == Engine::idle(database)
            &&& after.1 matches Err(
                ConnectionBuilderError::OutOfDate { db_version, latest_migration },
            )
            &&& db_version == database.user_version
            &&& latest_migration == latest(migrations@)
        }),
{
    law_open_follows_model(Some(database), app_id, foreign_keys, migrations, failing);
    lemma_newer_file_is_refused(database, app_id, migrations@, failing);
}

/// The same across two opens. Where a file was opened with migrations that
/// reach a higher version than those at hand now, opening it now fails as
/// out of date, with the version that the file is at and the highest version
/// at hand, and leaves the file as it is.
pub proof fn law_older_migrations_are_refused<E>(
    file: Option<Database>,
    app_id: i32,
    foreign_keys: bool,
    migrations: &Migrations<E>,
    failing: Map<int, E>,
    fewer: &Migrations<E>,
    failing_later: Map<int, E>,
)
    requires
        valid(migrations),
        valid(fewer),
        open_run(file, app_id, foreign_keys, migrations, failing).1 is Ok,
        latest(fewer@) < latest(migrations@),
    ensures
        ({
            let first = open_run(file, app_id, foreign_keys, migrations, failing);
            let second = open_run(
                Some(first.0.database),
                app_id,
                foreign_keys,
                fewer,
                failing_later,
            );
            &&& latest(migrations@) <= first.0.database.user_version
            &&& second.0 == first.0
            &&& second.1 matches Err(
                ConnectionBuilderError::OutOfDate { db_version, latest_migration },
            )
            &&& db_version == first.0.database.user_version
            &&& latest_migration == latest(fewer@)
        }),
{
    law_open_follows_model(file, app_id, foreign_keys, migrations, failing);
    let first = open_spec(file, app_id, migrations@, failing);
    law_open_follows_model(Some(first.database), app_id, foreign_keys, fewer, failing_later);
    lemma_older_migrations_are_refused(
        file,
        app_id,
        migrations@,
        failing,
        fewer@,
        failing_later,
    );
}

/// A file of another application is not touched. Where opening a file with
/// one application ID succeeded, opening what it left with another ID fails
/// with the ID that the file carries, whatever the migrations, and leaves
/// the file as it is: no migration is run.
pub proof fn law_other_application_is_refused<E>(
    file: Option<Database>,
    app_id: i32,
    foreign_keys: bool,
    migrations: &Migrations<E>,
    failing: Map<int, E>,
    other_id: i32,
    later: &Migrations<E>,
    failing_later: Map<int, E>,
)
    requires
        valid(migrations),
        valid(later),
        open_run(file, app_id, foreign_keys, migrations, failing).1 is Ok,
        other_id != app_id,
    ensures
        ({
            let first = open_run(file, app_id, foreign_keys, migrations, failing);
            let second = open_run(
                Some(first.0.database),
                other_id,
                foreign_keys,
                later,
                failing_later,
            );
            &&& second.0 == first.0
            &&& second.1 matches Err(ConnectionBuilderError::WrongApplicationId(found))
            &&& found == app_id
        }),
{
    law_open_follows_model(file, app_id, foreign_keys, migrations, failing);
    let first = open_spec(file, app_id, migrations@, failing);
    law_open_follows_model(Some(first.database), other_id, foreign_keys, later, failing_later);
    lemma_other_application_is_refused(
        file,
        app_id,
        migrations@,
        failing,
        other_id,
        later@,
        failing_later,
    );
}

} // verus!
