use sqliter::protocol::{Command, Phase, Progress, Reply, Setup};
use sqliter::{ConnectionBuilderError, Migrations};

fn ok(_conn: &rusqlite::Connection) -> Result<(), &'static str> {
    Ok(())
}

fn migrations(entries: &[(i32, bool)]) -> Migrations<&'static str> {
    let mut migrations = Migrations::new();
    for (version, transactional) in entries {
        migrations = if *transactional {
            migrations.add(*version, ok)
        } else {
            migrations.add_non_transactionally(*version, ok)
        };
    }
    migrations
}

// Hands the replies to the pass one by one. Gives the commands that the pass
// issued, and its result if it ended with the last reply.
fn converse<'a>(
    mut state: Setup<'a, &'static str>,
    replies: Vec<Reply<&'static str>>,
) -> (
    Vec<Command>,
    Option<Result<(), ConnectionBuilderError<&'static str>>>,
) {
    let mut commands = vec![state.command()];
    let count = replies.len();
    for (at, reply) in replies.into_iter().enumerate() {
        match state.step(reply) {
            Progress::Next(next) => {
                state = next;
                commands.push(state.command());
            }
            Progress::Done(result) => {
                assert_eq!(at + 1, count);
                return (commands, Some(result));
            }
        }
    }
    (commands, None)
}

fn failure() -> rusqlite::Error {
    rusqlite::Error::InvalidQuery
}

#[test]
fn new_file_with_nothing_to_apply() {
    let registry = migrations(&[]);
    let state = Setup::start(&registry, 7, true, true);
    let (commands, result) = converse(
        state,
        vec![Reply::Done, Reply::Done, Reply::Integer(0)],
    );
    assert_eq!(
        commands,
        vec![
            Command::SetApplicationId(7),
            Command::SetForeignKeys(true),
            Command::GetUserVersion,
        ]
    );
    assert!(matches!(result, Some(Ok(()))));
}

#[test]
fn existing_file_with_the_right_id_and_all_applied() {
    let registry = migrations(&[(1, true), (2, true)]);
    let state = Setup::start(&registry, 7, false, false);
    let (commands, result) = converse(
        state,
        vec![Reply::Integer(7), Reply::Done, Reply::Integer(2)],
    );
    assert_eq!(
        commands,
        vec![
            Command::GetApplicationId,
            Command::SetForeignKeys(false),
            Command::GetUserVersion,
        ]
    );
    assert!(matches!(result, Some(Ok(()))));
}

#[test]
fn wrong_application_id_ends_the_pass_at_once() {
    let registry = migrations(&[(1, true)]);
    let state = Setup::start(&registry, 7, true, false);
    let (commands, result) = converse(state, vec![Reply::Integer(5)]);
    assert_eq!(commands, vec![Command::GetApplicationId]);
    assert!(matches!(
        result,
        Some(Err(ConnectionBuilderError::WrongApplicationId(5)))
    ));
}

#[test]
fn newer_file_ends_the_pass_before_any_migration() {
    let registry = migrations(&[(1, true), (2, false)]);
    let state = Setup::start(&registry, 0, true, false);
    let (commands, result) = converse(
        state,
        vec![Reply::Integer(0), Reply::Done, Reply::Integer(3)],
    );
    assert_eq!(
        commands,
        vec![
            Command::GetApplicationId,
            Command::SetForeignKeys(true),
            Command::GetUserVersion,
        ]
    );
    assert!(matches!(
        result,
        Some(Err(ConnectionBuilderError::OutOfDate {
            db_version: 3,
            latest_migration: 2
        }))
    ));
}

#[test]
fn transactional_migrations_run_in_one_transaction() {
    let registry = migrations(&[(1, true), (2, true), (5, true)]);
    let state = Setup::start(&registry, 0, true, false);
    let (commands, result) = converse(
        state,
        vec![
            Reply::Integer(0),
            Reply::Done,
            Reply::Integer(1),
            Reply::Done,
            Reply::Done,
            Reply::Done,
            Reply::Done,
            Reply::Done,
        ],
    );
    assert_eq!(
        commands,
        vec![
            Command::GetApplicationId,
            Command::SetForeignKeys(true),
            Command::GetUserVersion,
            Command::Begin,
            Command::Run(1),
            Command::Run(2),
            Command::SetUserVersion(5),
            Command::Commit,
        ]
    );
    assert!(matches!(result, Some(Ok(()))));
}

#[test]
fn failed_procedure_rolls_the_transaction_back() {
    let registry = migrations(&[(1, true), (2, true), (3, true)]);
    let state = Setup::start(&registry, 0, true, true);
    let (commands, result) = converse(
        state,
        vec![
            Reply::Done,
            Reply::Done,
            Reply::Integer(0),
            Reply::Done,
            Reply::Done,
            Reply::Refused("broken"),
            Reply::Done,
        ],
    );
    assert_eq!(
        commands,
        vec![
            Command::SetApplicationId(0),
            Command::SetForeignKeys(true),
            Command::GetUserVersion,
            Command::Begin,
            Command::Run(0),
            Command::Run(1),
            Command::Rollback,
        ]
    );
    assert!(matches!(
        result,
        Some(Err(ConnectionBuilderError::Migration("broken")))
    ));
}

#[test]
fn failed_rollback_does_not_hide_the_failure() {
    let registry = migrations(&[(1, true)]);
    let state = Setup::start(&registry, 0, true, true);
    let (_, result) = converse(
        state,
        vec![
            Reply::Done,
            Reply::Done,
            Reply::Integer(0),
            Reply::Done,
            Reply::Refused("broken"),
            Reply::Failed(failure()),
        ],
    );
    assert!(matches!(
        result,
        Some(Err(ConnectionBuilderError::Migration("broken")))
    ));
}

#[test]
fn standalone_migration_runs_outside_any_transaction() {
    let registry = migrations(&[(1, true), (2, false), (3, true), (4, true)]);
    let state = Setup::start(&registry, 0, true, true);
    let (commands, result) = converse(
        state,
        vec![
            Reply::Done,
            Reply::Done,
            Reply::Integer(0),
            Reply::Done,
            Reply::Done,
            Reply::Done,
            Reply::Done,
            Reply::Done,
            Reply::Done,
            Reply::Done,
            Reply::Done,
            Reply::Done,
            Reply::Done,
            Reply::Done,
        ],
    );
    assert_eq!(
        commands,
        vec![
            Command::SetApplicationId(0),
            Command::SetForeignKeys(true),
            Command::GetUserVersion,
            Command::Begin,
            Command::Run(0),
            Command::SetUserVersion(1),
            Command::Commit,
            Command::Run(1),
            Command::SetUserVersion(2),
            Command::Begin,
            Command::Run(2),
            Command::Run(3),
            Command::SetUserVersion(4),
            Command::Commit,
        ]
    );
    assert!(matches!(result, Some(Ok(()))));
}

#[test]
fn failed_standalone_migration_ends_the_pass_without_rollback() {
    let registry = migrations(&[(1, false), (2, true)]);
    let state = Setup::start(&registry, 0, true, true);
    let (commands, result) = converse(
        state,
        vec![
            Reply::Done,
            Reply::Done,
            Reply::Integer(0),
            Reply::Refused("half done"),
        ],
    );
    assert_eq!(
        commands,
        vec![
            Command::SetApplicationId(0),
            Command::SetForeignKeys(true),
            Command::GetUserVersion,
            Command::Run(0),
        ]
    );
    assert!(matches!(
        result,
        Some(Err(ConnectionBuilderError::Migration("half done")))
    ));
}

#[test]
fn engine_failure_ends_the_pass() {
    let registry = migrations(&[(1, true)]);

    // While the application ID is read.
    let state = Setup::start(&registry, 0, true, false);
    let (_, result) = converse(state, vec![Reply::Failed(failure())]);
    assert!(matches!(result, Some(Err(ConnectionBuilderError::Db(_)))));

    // While foreign keys are set.
    let state = Setup::start(&registry, 0, true, true);
    let (_, result) = converse(state, vec![Reply::Done, Reply::Failed(failure())]);
    assert!(matches!(result, Some(Err(ConnectionBuilderError::Db(_)))));

    // While the version is read.
    let state = Setup::start(&registry, 0, true, true);
    let (_, result) = converse(
        state,
        vec![Reply::Done, Reply::Done, Reply::Failed(failure())],
    );
    assert!(matches!(result, Some(Err(ConnectionBuilderError::Db(_)))));

    // While the transaction is begun: there is none to roll back.
    let state = Setup::start(&registry, 0, true, true);
    let (commands, result) = converse(
        state,
        vec![
            Reply::Done,
            Reply::Done,
            Reply::Integer(0),
            Reply::Failed(failure()),
        ],
    );
    assert_eq!(commands.last(), Some(&Command::Begin));
    assert!(matches!(result, Some(Err(ConnectionBuilderError::Db(_)))));

    // While the version is written inside the transaction.
    let state = Setup::start(&registry, 0, true, true);
    let (commands, result) = converse(
        state,
        vec![
            Reply::Done,
            Reply::Done,
            Reply::Integer(0),
            Reply::Done,
            Reply::Done,
            Reply::Failed(failure()),
            Reply::Done,
        ],
    );
    assert_eq!(commands.last(), Some(&Command::Rollback));
    assert!(matches!(result, Some(Err(ConnectionBuilderError::Db(_)))));

    // While the transaction is committed.
    let state = Setup::start(&registry, 0, true, true);
    let (commands, result) = converse(
        state,
        vec![
            Reply::Done,
            Reply::Done,
            Reply::Integer(0),
            Reply::Done,
            Reply::Done,
            Reply::Done,
            Reply::Failed(failure()),
        ],
    );
    assert_eq!(commands.last(), Some(&Command::Commit));
    assert!(matches!(result, Some(Err(ConnectionBuilderError::Db(_)))));
}

#[test]
fn pass_begins_with_the_application_id() {
    let registry = migrations(&[(1, true)]);
    let state = Setup::start(&registry, 12, false, true);
    assert!(matches!(state.phase, Phase::Identity));
    assert_eq!(state.command(), Command::SetApplicationId(12));
    let state = Setup::start(&registry, 12, false, false);
    assert_eq!(state.command(), Command::GetApplicationId);
}

#[test]
fn negative_version_on_disk_lacks_every_migration() {
    let registry = migrations(&[(1, false)]);
    let state = Setup::start(&registry, 0, true, false);
    let (commands, result) = converse(
        state,
        vec![
            Reply::Integer(0),
            Reply::Done,
            Reply::Integer(-4),
            Reply::Done,
            Reply::Done,
        ],
    );
    assert_eq!(
        commands[3..],
        [Command::Run(0), Command::SetUserVersion(1)]
    );
    assert!(matches!(result, Some(Ok(()))));
}
