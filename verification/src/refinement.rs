use crate::error::ConnectionBuilderError;
use crate::migrations::{ascending, first_pending, latest, lemma_first_pending};
use crate::model::{
    apply_batch, apply_batches, first_failure, reported, respond, run_spec, setup_spec,
    whole_changes, Change, Database, Engine,
};
use crate::plan::{batch_at, batch_end, batches_from, lemma_run_end, Batch};
use crate::protocol::{Command, Phase, Progress, Setup};
use vstd::prelude::*;

verus! {

/// Driving a pass on from where it turns to the migrations at `from`.
pub open spec fn run_from<'a, E>(
    state: Setup<'a, E>,
    from: int,
    engine: Engine,
    failing: Map<int, E>,
) -> (Engine, Result<(), ConnectionBuilderError<E>>) {
    match state.enter(from) {
        Progress::Next(next) => run_spec(next, engine, failing),
        Progress::Done(result) => (engine, result),
    }
}

/// The rest of a transactional batch, from the procedure at `index` on.
/// Where one of the procedures fails the transaction is rolled back, and the
/// file stays as it was when the transaction began. Where none fails the
/// version of the batch is recorded and all is committed, and the pass turns
/// to the next batch.
pub proof fn lemma_run_transaction<'a, E>(
    state: Setup<'a, E>,
    index: usize,
    database: Database,
    staged: Database,
    failing: Map<int, E>,
)
    requires
        state.wf(),
        state.phase == Phase::<E>::Running(index),
        state.batch.transactional,
    ensures
        ({
            let end = state.batch.end as int;
            let failed = first_failure(failing, index as int, end);
            run_spec(state, Engine { database, staged: Some(staged) }, failing) == if failed
                < end {
                (
                    Engine::idle(database),
                    Err::<(), _>(ConnectionBuilderError::Migration(failing[failed])),
                )
            } else {
                run_from(
                    state,
                    end,
                    Engine::idle(
                        Database {
                            user_version: state.batch.version,
                            changes: staged.changes + whole_changes(
                                state.migrations@,
                                index as int,
                                end,
                            ),
                            ..staged
                        },
                    ),
                    failing,
                )
            }
        }),
    decreases state.batch.end - index,
{
    let s = state.migrations@;
    let end = state.batch.end as int;
    let engine = Engine { database, staged: Some(staged) };
    let (after, reply) = respond(engine, Command::Run(index), s, failing);
    state.lemma_step(reply);
    if failing.dom().contains(index as int) {
        let error = ConnectionBuilderError::Migration(failing[index as int]);
        let undoing = state.at(Phase::Undoing(error));
        assert(state.step_spec(reply) == Progress::Next(undoing));
        assert(run_spec(state, engine, failing) == run_spec(undoing, after, failing));
        let (undone, done) = respond(after, Command::Rollback, s, failing);
        undoing.lemma_step(done);
        assert(undoing.step_spec(done) == Progress::<E>::Done(Err(error)));
        assert(run_spec(undoing, after, failing) == (Engine::idle(database), Err::<(), _>(error)));
    } else {
        let ran = Database {
            changes: staged.changes.push(Change::Whole(s[index as int].version)),
            ..staged
        };
        assert(after == Engine { database, staged: Some(ran) });
        if index + 1 < end {
            let next = state.at(Phase::Running((index + 1) as usize));
            assert(state.step_spec(reply) == Progress::Next(next));
            assert(run_spec(state, engine, failing) == run_spec(next, after, failing));
            lemma_run_transaction(next, (index + 1) as usize, database, ran, failing);
            assert(ran.changes + whole_changes(s, index + 1, end) =~= staged.changes
                + whole_changes(s, index as int, end));
            assert(next.enter(end) == state.enter(end));
        } else {
            let recording = state.at(Phase::Recording);
            assert(state.step_spec(reply) == Progress::Next(recording));
            assert(run_spec(state, engine, failing) == run_spec(recording, after, failing));
            let (recorded, reply1) = respond(
                after,
                Command::SetUserVersion(state.batch.version),
                s,
                failing,
            );
            recording.lemma_step(reply1);
            let committing = state.at(Phase::Committing);
            assert(recording.step_spec(reply1) == Progress::Next(committing));
            assert(run_spec(recording, after, failing) == run_spec(committing, recorded, failing));
            let (committed, reply2) = respond(recorded, Command::Commit, s, failing);
            committing.lemma_step(reply2);
            assert(committing.step_spec(reply2) == committing.enter(end));
            assert(committing.enter(end) == state.enter(end));
            assert(run_spec(committing, recorded, failing) == run_from(
                state,
                end,
                committed,
                failing,
            ));
            assert(ran.changes =~= staged.changes + whole_changes(s, index as int, end));
        }
    }
}

/// Driving a pass on from the migrations at `from` comes to applying the
/// batches from there on: the file is left as they leave it, with no
/// transaction open, and the pass reports the failure at which they stop.
pub proof fn lemma_run_batches<'a, E>(
    state: Setup<'a, E>,
    from: int,
    database: Database,
    failing: Map<int, E>,
)
    requires
        state.wf(),
        0 <= from <= state.migrations@.len(),
    ensures
        ({
            let (after, failed) = apply_batches(
                database,
                state.migrations@,
                batches_from(state.migrations@, from),
                failing,
            );
            run_from(state, from, Engine::idle(database), failing) == (
                Engine::idle(after),
                reported(failed, failing),
            )
        }),
    decreases state.migrations@.len() - from,
{
    let s = state.migrations@;
    if from < s.len() {
        lemma_run_end(s, from);
        let batch = batch_at(s, from);
        let end = batch_end(s, from);
        let batches = batches_from(s, from);
        assert(batches == seq![batch] + batches_from(s, end));
        assert(batches[0] == batch);
        assert(batches.drop_first() =~= batches_from(s, end));
        let entered = state.enter(from)->Next_0;
        assert(state.enter(from) == Progress::Next(entered));
        assert(entered.batch == Batch::of(batch));
        assert(entered.wf());
        let idle = Engine::idle(database);
        if batch.transactional {
            let (begun, reply) = respond(idle, Command::Begin, s, failing);
            entered.lemma_step(reply);
            let running = entered.at(Phase::Running(entered.batch.first));
            assert(entered.step_spec(reply) == Progress::Next(running));
            assert(run_spec(entered, idle, failing) == run_spec(running, begun, failing));
            lemma_run_transaction(running, entered.batch.first, database, database, failing);
            let failed = first_failure(failing, from, end);
            if failed >= end {
                let (after, none) = apply_batch(database, s, batch, failing);
                lemma_run_batches(running, end, after, failing);
                assert(running.enter(end) == state.enter(end));
            }
        } else {
            let (after, reply) = respond(idle, Command::Run(entered.batch.first), s, failing);
            entered.lemma_step(reply);
            if !failing.dom().contains(from) {
                let recording = entered.at(Phase::Recording);
                assert(entered.step_spec(reply) == Progress::Next(recording));
                assert(run_spec(entered, idle, failing) == run_spec(recording, after, failing));
                let (recorded, reply1) = respond(
                    after,
                    Command::SetUserVersion(entered.batch.version),
                    s,
                    failing,
                );
                recording.lemma_step(reply1);
                assert(recording.step_spec(reply1) == recording.enter(end));
                assert(recording.enter(end) == state.enter(end));
                let (applied, none) = apply_batch(database, s, batch, failing);
                assert(recorded == Engine::idle(applied));
                lemma_run_batches(recording, end, applied, failing);
            }
        }
    }
}

/// A pass that is driven on an engine that does not fail does what the
/// model of a setup pass says: it leaves the file as `setup_spec` leaves it,
/// with no transaction open, and ends with the result that `setup_spec`
/// gives.
pub proof fn lemma_pass_follows_model<'a, E>(
    state: Setup<'a, E>,
    database: Database,
    failing: Map<int, E>,
)
    requires
        state.wf(),
        state.phase is Identity,
        ascending(state.migrations@),
    ensures
        ({
            let outcome = setup_spec(
                database,
                state.is_new,
                state.app_id,
                state.migrations@,
                failing,
            );
            run_spec(state, Engine::idle(database), failing) == (
                Engine::idle(outcome.database),
                outcome.result,
            )
        }),
{
    let s = state.migrations@;
    let idle = Engine::idle(database);
    let (stamped, reply) = respond(idle, state.awaited(), s, failing);
    state.lemma_step(reply);
    if state.is_new || database.application_id == state.app_id {
        let keys = state.at(Phase::ForeignKeys);
        assert(state.step_spec(reply) == Progress::Next(keys));
        assert(run_spec(state, idle, failing) == run_spec(keys, stamped, failing));
        let (same, reply1) = respond(stamped, keys.awaited(), s, failing);
        keys.lemma_step(reply1);
        let version = state.at(Phase::Version);
        assert(keys.step_spec(reply1) == Progress::Next(version));
        assert(run_spec(keys, stamped, failing) == run_spec(version, stamped, failing));
        let (still, reply2) = respond(stamped, version.awaited(), s, failing);
        version.lemma_step(reply2);
        let found = stamped.database.user_version;
        if latest(s) >= found {
            lemma_first_pending(s, found as int);
            let from = first_pending(s, found as int);
            assert(version.step_spec(reply2) == version.enter(from));
            assert(run_spec(version, stamped, failing) == run_from(
                version,
                from,
                stamped,
                failing,
            ));
            lemma_run_batches(version, from, stamped.database, failing);
        }
    }
}

} // verus!
