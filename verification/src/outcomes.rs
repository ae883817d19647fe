use crate::error::ConnectionBuilderError;
use crate::migrations::{
    ascending, first_pending, latest, lemma_first_pending, lemma_first_pending_unique, positive,
    Entry,
};
use crate::model::{
    apply_batch, apply_batches, first_failure, fresh, open_spec, setup_spec, whole_changes, Change,
    Database,
};
use crate::plan::{
    batch_at, batch_end, batches_from, lemma_run_end, lemma_run_reaches, run_end,
};
use vstd::prelude::*;

verus! {

/// Where no procedure in `from..end` fails, there is no first failure.
pub proof fn lemma_none_fails<E>(failing: Map<int, E>, from: int, end: int)
    requires
        from <= end,
        forall|i: int| from <= i < end ==> !failing.dom().contains(i),
    ensures
        first_failure(failing, from, end) == end,
    decreases end - from,
{
    if from < end {
        lemma_none_fails(failing, from + 1, end);
    }
}

/// The first failure in `from..end` is the first index whose procedure fails.
pub proof fn lemma_first_failure<E>(failing: Map<int, E>, from: int, end: int, failed: int)
    requires
        from <= failed < end,
        failing.dom().contains(failed),
        forall|i: int| from <= i < failed ==> !failing.dom().contains(i),
    ensures
        first_failure(failing, from, end) == failed,
    decreases failed - from,
{
    if from < failed {
        lemma_first_failure(failing, from + 1, end, failed);
    }
}

/// The first failure lies in `from..=end`, and where it lies before `end` a
/// procedure fails there.
pub proof fn lemma_first_failure_fails<E>(failing: Map<int, E>, from: int, end: int)
    requires
        from <= end,
    ensures
        from <= first_failure(failing, from, end) <= end,
        first_failure(failing, from, end) < end ==> failing.dom().contains(
            first_failure(failing, from, end),
        ),
    decreases end - from,
{
    if from < end && !failing.dom().contains(from) {
        lemma_first_failure_fails(failing, from + 1, end);
    }
}

/// A run of transactional migrations ends at or before any index that holds
/// a migration of the other kind, or none.
pub proof fn lemma_run_stops(s: Seq<Entry>, from: int, stop: int)
    requires
        0 <= from <= stop <= s.len(),
        stop == s.len() || !s[stop].transactional,
    ensures
        run_end(s, from) <= stop,
    decreases stop - from,
{
    if from < stop && s[from].transactional {
        lemma_run_stops(s, from + 1, stop);
    }
}

/// Where the transactional run that holds the migration before `at` begins,
/// looking back no further than `from` (`at` itself, if that migration is not
/// transactional or `at` is `from`).
pub open spec fn run_start(s: Seq<Entry>, from: int, at: int) -> int
    decreases at - from,
{
    if from < at && s[at - 1].transactional {
        run_start(s, from, at - 1)
    } else {
        at
    }
}

/// `run_start` lies in `from..=at`, only transactional migrations stand
/// between it and `at`, and none stands right before it unless it is `from`.
pub proof fn lemma_run_start(s: Seq<Entry>, from: int, at: int)
    requires
        0 <= from <= at <= s.len(),
    ensures
        from <= run_start(s, from, at) <= at,
        forall|i: int| run_start(s, from, at) <= i < at ==> s[i].transactional,
        run_start(s, from, at) == from || !s[run_start(s, from, at) - 1].transactional,
    decreases at - from,
{
    if from < at && s[at - 1].transactional {
        lemma_run_start(s, from, at - 1);
    }
}

/// That a batch begins at `at` when the migrations are batched from `from` on.
pub open spec fn batch_begins(s: Seq<Entry>, from: int, at: int) -> bool {
    ||| at == from
    ||| at == s.len()
    ||| !s[at].transactional
    ||| !s[at - 1].transactional
}

/// The database after the migrations `from..until` have all succeeded and
/// their batches are complete.
pub open spec fn applied(database: Database, s: Seq<Entry>, from: int, until: int) -> Database {
    Database {
        user_version: if until > from {
            s[until - 1].version
        } else {
            database.user_version
        },
        changes: database.changes + whole_changes(s, from, until),
        ..database
    }
}

/// Where no procedure in `from..until` fails and a batch begins at `until`,
/// applying the batches from `from` on comes to applying those from `until`
/// on to the database that the migrations before `until` leave.
pub proof fn lemma_apply_until<E>(
    database: Database,
    s: Seq<Entry>,
    from: int,
    until: int,
    failing: Map<int, E>,
)
    requires
        0 <= from <= until <= s.len(),
        batch_begins(s, from, until),
        forall|i: int| from <= i < until ==> !failing.dom().contains(i),
    ensures
        apply_batches(database, s, batches_from(s, from), failing) == apply_batches(
            applied(database, s, from, until),
            s,
            batches_from(s, until),
            failing,
        ),
    decreases until - from,
{
    if from == until {
        assert(database.changes + whole_changes(s, from, until) =~= database.changes);
    } else {
        lemma_run_end(s, from);
        let batch = batch_at(s, from);
        let next = batch_end(s, from);
        assert(next <= until) by {
            if s[from].transactional {
                if until == s.len() || !s[until].transactional {
                    lemma_run_stops(s, from, until);
                } else {
                    lemma_run_stops(s, from, until - 1);
                }
            }
        }
        let batches = batches_from(s, from);
        assert(batches == seq![batch] + batches_from(s, next));
        assert(batches[0] == batch);
        assert(batches.drop_first() =~= batches_from(s, next));
        lemma_none_fails(failing, from, next);
        let (after, failed) = apply_batch(database, s, batch, failing);
        assert(failed is None);
        assert(after.changes =~= database.changes + whole_changes(s, from, next));
        lemma_apply_until(after, s, next, until, failing);
        assert(after.changes + whole_changes(s, next, until) =~= database.changes + whole_changes(
            s,
            from,
            until,
        ));
        assert(applied(after, s, next, until) == applied(database, s, from, until));
    }
}

/// What applying the batches from index `from` on comes to: the application
/// ID stays; a failure is that of a migration at or after `from` whose
/// procedure fails; and without a failure the database is at the last
/// version, if there was anything to apply.
pub proof fn lemma_apply_from<E>(
    database: Database,
    s: Seq<Entry>,
    from: int,
    failing: Map<int, E>,
)
    requires
        0 <= from <= s.len(),
    ensures
        ({
            let (after, failed) = apply_batches(database, s, batches_from(s, from), failing);
            &&& after.application_id == database.application_id
            &&& failed matches Some(index) ==> from <= index < s.len() && failing.dom().contains(
                index,
            )
            &&& failed is None ==> after.user_version == if from < s.len() {
                s.last().version
            } else {
                database.user_version
            }
            &&& from == s.len() ==> after == database
        }),
    decreases s.len() - from,
{
    if from < s.len() {
        lemma_run_end(s, from);
        let batch = batch_at(s, from);
        let next = batch_end(s, from);
        let batches = batches_from(s, from);
        assert(batches == seq![batch] + batches_from(s, next));
        assert(batches[0] == batch);
        assert(batches.drop_first() =~= batches_from(s, next));
        let (after, failed) = apply_batch(database, s, batch, failing);
        lemma_first_failure_fails(failing, from, next);
        if failed is None {
            lemma_apply_from(after, s, next, failing);
        }
    }
}

/// A setup pass that succeeds leaves the configured application ID in the
/// file and a schema version that no registered migration exceeds, so that
/// another pass finds nothing pending. Where anything was pending, that is the
/// highest registered version.
pub proof fn lemma_success_is_up_to_date<E>(
    database: Database,
    is_new: bool,
    app_id: i32,
    s: Seq<Entry>,
    failing: Map<int, E>,
)
    requires
        ascending(s),
        setup_spec(database, is_new, app_id, s, failing).result is Ok,
    ensures
        ({
            let after = setup_spec(database, is_new, app_id, s, failing).database;
            &&& after.application_id == app_id
            &&& s.len() > 0 ==> latest(s) <= after.user_version
            &&& !is_new ==> database.user_version <= after.user_version
            &&& first_pending(s, after.user_version as int) == s.len()
            &&& first_pending(s, database.user_version as int) < s.len() ==> after.user_version
                == latest(s)
        }),
{
    let before = database.user_version as int;
    lemma_first_pending(s, before);
    let from = first_pending(s, before);
    let stamped = if is_new {
        Database { application_id: app_id, ..database }
    } else {
        database
    };
    lemma_apply_from(stamped, s, from, failing);
    let after = setup_spec(database, is_new, app_id, s, failing).database;
    if from < s.len() {
        lemma_first_pending_unique(s, after.user_version as int, s.len() as int);
    }
}

/// By `open_spec`, opening what a successful open left, with the same
/// application ID and the same migrations, succeeds and changes nothing.
pub proof fn lemma_reopening_changes_nothing<E>(
    file: Option<Database>,
    app_id: i32,
    s: Seq<Entry>,
    failing: Map<int, E>,
    failing_later: Map<int, E>,
)
    requires
        ascending(s),
        positive(s),
        open_spec(file, app_id, s, failing).result is Ok,
    ensures
        ({
            let first = open_spec(file, app_id, s, failing);
            let second = open_spec(Some(first.database), app_id, s, failing_later);
            &&& second.database == first.database
            &&& second.result is Ok
        }),
{
    let (database, is_new) = match file {
        None => (fresh(), true),
        Some(database) => (database, false),
    };
    lemma_success_is_up_to_date(database, is_new, app_id, s, failing);
    let first = open_spec(file, app_id, s, failing);
    lemma_first_pending(s, database.user_version as int);
    lemma_apply_from(first.database, s, s.len() as int, failing_later);
}

/// By `open_spec`, opening a file that did not exist with migrations of
/// strictly increasing versions whose procedures all succeed leaves it at
/// the highest version, and opening it again changes nothing.
pub proof fn lemma_fresh_open_is_idempotent<E>(
    app_id: i32,
    s: Seq<Entry>,
    failing: Map<int, E>,
    failing_later: Map<int, E>,
)
    requires
        positive(s),
        forall|i: int, j: int| 0 <= i < j < s.len() ==> s[i].version < s[j].version,
        forall|i: int| 0 <= i < s.len() ==> !failing.dom().contains(i),
    ensures
        ({
            let first = open_spec(None, app_id, s, failing);
            let second = open_spec(Some(first.database), app_id, s, failing_later);
            &&& first.result is Ok
            &&& first.database.user_version == latest(s)
            &&& second.result is Ok
            &&& second.database == first.database
        }),
{
    assert(ascending(s));
    lemma_first_pending(s, 0);
    let from = first_pending(s, 0);
    let stamped = Database { application_id: app_id, ..fresh() };
    lemma_apply_from(stamped, s, from, failing);
    assert(latest(s) >= 0);
    assert(from == 0) by {
        if s.len() > 0 {
            assert(s[0].version > 0);
        }
    }
    lemma_reopening_changes_nothing(None, app_id, s, failing, failing_later);
}

/// By `setup_spec`, the failure of a transactional migration before which
/// only transactional migrations were pending leaves the version and the
/// changes in the file as they were.
pub proof fn lemma_failed_transaction_leaves_no_trace<E>(
    database: Database,
    is_new: bool,
    app_id: i32,
    s: Seq<Entry>,
    failing: Map<int, E>,
    failed: int,
)
    requires
        ascending(s),
        positive(s),
        is_new || database.application_id == app_id,
        latest(s) >= database.user_version,
        first_pending(s, database.user_version as int) <= failed < s.len(),
        failing.dom().contains(failed),
        forall|i: int|
            first_pending(s, database.user_version as int) <= i < failed
                ==> !failing.dom().contains(i),
        forall|i: int|
            first_pending(s, database.user_version as int) <= i <= failed ==> s[i].transactional,
    ensures
        ({
            let after = setup_spec(database, is_new, app_id, s, failing);
            &&& after.result matches Err(ConnectionBuilderError::Migration(error))
            &&& error == failing[failed]
            &&& after.database.user_version == database.user_version
            &&& after.database.changes == database.changes
        }),
{
    let from = first_pending(s, database.user_version as int);
    lemma_first_pending(s, database.user_version as int);
    lemma_run_reaches(s, from, failed + 1);
    lemma_run_end(s, from);
    let end = run_end(s, from);
    lemma_first_failure(failing, from, end, failed);
    let batches = batches_from(s, from);
    assert(batches == seq![batch_at(s, from)] + batches_from(s, batch_end(s, from)));
    assert(batches[0] == batch_at(s, from));
}

/// By `setup_spec`, the first failure of a procedure is reported, and the
/// file is left as the batches before the failing one left it, with what a
/// failing procedure outside a transaction had done.
pub proof fn lemma_failure_keeps_last_commit<E>(
    database: Database,
    is_new: bool,
    app_id: i32,
    s: Seq<Entry>,
    failing: Map<int, E>,
    failed: int,
)
    requires
        ascending(s),
        positive(s),
        is_new || database.application_id == app_id,
        latest(s) >= database.user_version,
        first_pending(s, database.user_version as int) <= failed < s.len(),
        failing.dom().contains(failed),
        forall|i: int|
            first_pending(s, database.user_version as int) <= i < failed
                ==> !failing.dom().contains(i),
    ensures
        ({
            let after = setup_spec(database, is_new, app_id, s, failing);
            let from = first_pending(s, database.user_version as int);
            let kept = if s[failed].transactional {
                run_start(s, from, failed)
            } else {
                failed
            };
            &&& after.result matches Err(ConnectionBuilderError::Migration(error))
            &&& error == failing[failed]
            &&& from <= kept <= failed
            &&& after.database.user_version == if kept > from {
                s[kept - 1].version
            } else {
                database.user_version
            }
            &&& after.database.changes == database.changes + whole_changes(s, from, kept) + if s[failed].transactional {
                Seq::<Change>::empty()
            } else {
                seq![Change::Part(s[failed].version)]
            }
        }),
{
    let from = first_pending(s, database.user_version as int);
    lemma_first_pending(s, database.user_version as int);
    lemma_run_start(s, from, failed);
    let kept = if s[failed].transactional {
        run_start(s, from, failed)
    } else {
        failed
    };
    let stamped = if is_new {
        Database { application_id: app_id, ..database }
    } else {
        database
    };
    lemma_apply_until(stamped, s, from, kept, failing);
    let reached = applied(stamped, s, from, kept);
    let batches = batches_from(s, kept);
    lemma_run_end(s, kept);
    assert(batches == seq![batch_at(s, kept)] + batches_from(s, batch_end(s, kept)));
    assert(batches[0] == batch_at(s, kept));
    if s[failed].transactional {
        lemma_run_reaches(s, kept, failed + 1);
        lemma_first_failure(failing, kept, run_end(s, kept), failed);
        assert(reached.changes =~= database.changes + whole_changes(s, from, kept)
            + Seq::<Change>::empty());
    } else {
        assert(reached.changes.push(Change::Part(s[failed].version)) =~= database.changes
            + whole_changes(s, from, kept) + seq![Change::Part(s[failed].version)]);
    }
}

/// By `setup_spec`, a pass without a failing procedure succeeds and applies
/// every pending migration in order.
pub proof fn lemma_success_applies_all_pending<E>(
    database: Database,
    is_new: bool,
    app_id: i32,
    s: Seq<Entry>,
    failing: Map<int, E>,
)
    requires
        ascending(s),
        positive(s),
        is_new || database.application_id == app_id,
        latest(s) >= database.user_version,
        forall|i: int|
            first_pending(s, database.user_version as int) <= i < s.len()
                ==> !failing.dom().contains(i),
    ensures
        ({
            let after = setup_spec(database, is_new, app_id, s, failing);
            let from = first_pending(s, database.user_version as int);
            &&& after.result is Ok
            &&& after.database.application_id == app_id
            &&& after.database.user_version == if from < s.len() {
                latest(s) as i32
            } else {
                database.user_version
            }
            &&& after.database.changes == database.changes + whole_changes(s, from, s.len() as int)
        }),
{
    let from = first_pending(s, database.user_version as int);
    lemma_first_pending(s, database.user_version as int);
    let stamped = if is_new {
        Database { application_id: app_id, ..database }
    } else {
        database
    };
    lemma_apply_until(stamped, s, from, s.len() as int, failing);
}

/// By `open_spec`, a file at a version above every migration is refused as
/// out of date and stays as it is.
pub proof fn lemma_newer_file_is_refused<E>(
    database: Database,
    app_id: i32,
    s: Seq<Entry>,
    failing: Map<int, E>,
)
    requires
        database.application_id == app_id,
        latest(s) < database.user_version,
    ensures
        ({
            let after = open_spec(Some(database), app_id, s, failing);
            &&& after.database == database
            &&& after.result matches Err(
                ConnectionBuilderError::OutOfDate { db_version, latest_migration },
            )
            &&& db_version == database.user_version
            &&& latest_migration == latest(s)
        }),
{
}

/// By `open_spec`, what was opened with migrations that reach further than
/// `fewer` is refused as out of date when it is opened with `fewer`.
pub proof fn lemma_older_migrations_are_refused<E>(
    file: Option<Database>,
    app_id: i32,
    s: Seq<Entry>,
    failing: Map<int, E>,
    fewer: Seq<Entry>,
    failing_later: Map<int, E>,
)
    requires
        ascending(s),
        positive(s),
        open_spec(file, app_id, s, failing).result is Ok,
        positive(fewer),
        latest(fewer) < latest(s),
    ensures
        ({
            let first = open_spec(file, app_id, s, failing);
            let second = open_spec(Some(first.database), app_id, fewer, failing_later);
            &&& latest(s) <= first.database.user_version
            &&& second.database == first.database
            &&& second.result matches Err(
                ConnectionBuilderError::OutOfDate { db_version, latest_migration },
            )
            &&& db_version == first.database.user_version
            &&& latest_migration == latest(fewer)
        }),
{
    let (database, is_new) = match file {
        None => (fresh(), true),
        Some(database) => (database, false),
    };
    lemma_success_is_up_to_date(database, is_new, app_id, s, failing);
}

/// By `open_spec`, what was opened with one application ID is refused with
/// that ID when it is opened with another, and stays as it is.
pub proof fn lemma_other_application_is_refused<E>(
    file: Option<Database>,
    app_id: i32,
    s: Seq<Entry>,
    failing: Map<int, E>,
    other_id: i32,
    later: Seq<Entry>,
    failing_later: Map<int, E>,
)
    requires
        ascending(s),
        positive(s),
        open_spec(file, app_id, s, failing).result is Ok,
        other_id != app_id,
    ensures
        ({
            let first = open_spec(file, app_id, s, failing);
            let second = open_spec(Some(first.database), other_id, later, failing_later);
            &&& second.database == first.database
            &&& second.result matches Err(ConnectionBuilderError::WrongApplicationId(found))
            &&& found == app_id
        }),
{
    let (database, is_new) = match file {
        None => (fresh(), true),
        Some(database) => (database, false),
    };
    lemma_success_is_up_to_date(database, is_new, app_id, s, failing);
}

} // verus!
