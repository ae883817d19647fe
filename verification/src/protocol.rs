use crate::error::ConnectionBuilderError;
use crate::migrations::{first_pending, latest, lemma_skip_applied, Migrations};
use crate::plan::{batch_at, lemma_run_end, next_batch, Batch};
use vstd::pervasive::unreached;
use vstd::prelude::*;

verus! {

/// Checks the application ID found in an existing file against the configured
/// one.
pub fn check_application_id<E>(found: i32, expected: i32) -> (r: Result<
    (),
    ConnectionBuilderError<E>,
>)
    ensures
        found == expected ==> r is Ok,
        found != expected ==> r == Err::<(), _>(
            ConnectionBuilderError::<E>::WrongApplicationId(found),
        ),
{
    if found == expected {
        Ok(())
    } else {
        Err(ConnectionBuilderError::WrongApplicationId(found))
    }
}

/// What a setup pass asks of the database engine.
#[derive(Clone, Copy, Debug, PartialEq, Eq, Structural)]
pub enum Command {
    /// Write the application ID into the file.
    SetApplicationId(i32),
    /// Read the application ID from the file.
    GetApplicationId,
    /// Switch the enforcement of foreign keys on or off for the connection.
    SetForeignKeys(bool),
    /// Read the schema version from the file.
    GetUserVersion,
    /// Begin a transaction.
    Begin,
    /// Run the procedure of the migration at this index.
    Run(usize),
    /// Write the schema version into the file.
    SetUserVersion(i32),
    /// Commit the open transaction.
    Commit,
    /// Roll the open transaction back.
    Rollback,
}

/// What came of a command.
#[derive(Debug)]
pub enum Reply<E> {
    /// The command was carried out.
    Done,
    /// The integer that was read.
    Integer(i32),
    /// The engine failed.
    Failed(rusqlite::Error),
    /// The procedure of the migration returned a failure.
    Refused(E),
}

impl<E> Reply<E> {
    /// The reply to a command that reports nothing but whether the engine
    /// carried it out.
    pub fn done(result: Result<(), rusqlite::Error>) -> (reply: Self)
        ensures
            match result {
                Ok(()) => reply == Reply::<E>::Done,
                Err(error) => reply == Reply::<E>::Failed(error),
            },
    {
        match result {
            Ok(()) => Reply::Done,
            Err(error) => Reply::Failed(error),
        }
    }

    /// The reply to a command that reads an integer.
    pub fn integer(result: Result<i32, rusqlite::Error>) -> (reply: Self)
        ensures
            match result {
                Ok(value) => reply == Reply::<E>::Integer(value),
                Err(error) => reply == Reply::<E>::Failed(error),
            },
    {
        match result {
            Ok(value) => Reply::Integer(value),
            Err(error) => Reply::Failed(error),
        }
    }

    /// The reply to the run of a procedure that returned `result`.
    pub fn ran(result: Result<(), E>) -> (reply: Self)
        ensures
            match result {
                Ok(()) => reply == Reply::<E>::Done,
                Err(error) => reply == Reply::<E>::Refused(error),
            },
    {
        match result {
            Ok(()) => Reply::Done,
            Err(error) => Reply::Refused(error),
        }
    }
}

/// Whether `reply` is an answer to `command`: a read gives an integer, a
/// procedure succeeds or returns its own failure, and any other command is
/// done or fails in the engine.
pub open spec fn answers<E>(command: Command, reply: Reply<E>) -> bool {
    match command {
        Command::GetApplicationId | Command::GetUserVersion => reply is Integer || reply is Failed,
        Command::Run(_) => reply is Done || reply is Refused,
        _ => reply is Done || reply is Failed,
    }
}

/// Where a setup pass stands: the command whose reply it waits for.
pub enum Phase<E> {
    /// The application ID is being written (new file) or read.
    Identity,
    /// The enforcement of foreign keys is being set.
    ForeignKeys,
    /// The schema version is being read.
    Version,
    /// The transaction of the current batch is being begun.
    Begun,
    /// The procedure of the migration at this index is running.
    Running(usize),
    /// The version of the current batch is being written.
    Recording,
    /// The transaction of the current batch is being committed.
    Committing,
    /// The transaction of the current batch is being rolled back, after
    /// this failure.
    Undoing(ConnectionBuilderError<E>),
}

/// A setup pass in progress: what is configured, and how far the pass has
/// come. It decides which command comes next and how the pass ends; carrying
/// the commands out is left to whoever drives it.
#[verifier::reject_recursive_types(E)]
pub struct Setup<'a, E> {
    /// The migrations to apply.
    pub migrations: &'a Migrations<E>,
    /// The application ID to stamp into a new file and to expect in others.
    pub app_id: i32,
    /// Whether the connection is to enforce foreign keys.
    pub foreign_keys: bool,
    /// Whether the file was just created.
    pub is_new: bool,
    /// The command whose reply is awaited.
    pub phase: Phase<E>,
    /// The batch that is being applied, once the schema version is known.
    pub batch: Batch,
}

/// How a setup pass goes on after a reply.
#[verifier::reject_recursive_types(E)]
pub enum Progress<'a, E> {
    /// The pass waits for the reply to its next command.
    Next(Setup<'a, E>),
    /// The pass has ended, with this result.
    Done(Result<(), ConnectionBuilderError<E>>),
}

impl<'a, E> Setup<'a, E> {
    /// A pass that has not had a reply yet.
    pub open spec fn initial(
        migrations: &'a Migrations<E>,
        app_id: i32,
        foreign_keys: bool,
        is_new: bool,
    ) -> Self {
        Setup {
            migrations,
            app_id,
            foreign_keys,
            is_new,
            phase: Phase::Identity,
            batch: Batch { first: 0, end: 0, transactional: false, version: 0 },
        }
    }

    /// Whether the pass is applying a batch.
    pub open spec fn in_batch(self) -> bool {
        !(self.phase is Identity || self.phase is ForeignKeys || self.phase is Version)
    }

    /// That the state is one that a pass can be in: while a batch is applied
    /// it is a batch of the migrations, of the kind that the phase calls for,
    /// and the migration that runs belongs to it.
    pub open spec fn wf(self) -> bool {
        &&& self.migrations@.len() <= usize::MAX
        &&& self.in_batch() ==> {
            &&& 0 <= self.batch.first < self.migrations@.len()
            &&& self.batch@ == batch_at(self.migrations@, self.batch.first as int)
            &&& self.batch.first < self.batch.end <= self.migrations@.len()
            &&& match self.phase {
                Phase::Running(index) => self.batch.first <= index < self.batch.end,
                Phase::Recording => true,
                _ => self.batch.transactional,
            }
        }
    }

    /// Whether the pass has a transaction open.
    pub open spec fn in_transaction(self) -> bool {
        match self.phase {
            Phase::Running(_) | Phase::Recording => self.batch.transactional,
            Phase::Committing | Phase::Undoing(_) => true,
            _ => false,
        }
    }

    /// The command whose reply the pass waits for.
    pub open spec fn awaited(self) -> Command {
        match self.phase {
            Phase::Identity => if self.is_new {
                Command::SetApplicationId(self.app_id)
            } else {
                Command::GetApplicationId
            },
            Phase::ForeignKeys => Command::SetForeignKeys(self.foreign_keys),
            Phase::Version => Command::GetUserVersion,
            Phase::Begun => Command::Begin,
            Phase::Running(index) => Command::Run(index),
            Phase::Recording => Command::SetUserVersion(self.batch.version),
            Phase::Committing => Command::Commit,
            Phase::Undoing(_) => Command::Rollback,
        }
    }

    /// The pass in another phase.
    pub open spec fn at(self, phase: Phase<E>) -> Self {
        Setup { phase, ..self }
    }

    /// How the pass goes on with the migrations from index `from` on: it
    /// ends well if there are none, and else turns to the batch that begins
    /// there, which it begins with a transaction or with its one procedure.
    pub open spec fn enter(self, from: int) -> Progress<'a, E> {
        if 0 <= from < self.migrations@.len() {
            let batch = Batch::of(batch_at(self.migrations@, from));
            Progress::Next(
                Setup {
                    phase: if batch.transactional {
                        Phase::Begun
                    } else {
                        Phase::Running(batch.first)
                    },
                    batch,
                    ..self
                },
            )
        } else {
            Progress::Done(Ok(()))
        }
    }

    /// How the pass goes on after a failure while a batch is applied: what a
    /// transaction holds is rolled back first.
    pub open spec fn fail(self, error: ConnectionBuilderError<E>) -> Progress<'a, E> {
        if self.batch.transactional {
            Progress::Next(self.at(Phase::Undoing(error)))
        } else {
            Progress::Done(Err(error))
        }
    }

    /// How the pass goes on after `reply`, where `reply` answers the command
    /// that the pass waits for.
    pub open spec fn step_spec(self, reply: Reply<E>) -> Progress<'a, E> {
        match self.phase {
            Phase::Identity => match reply {
                Reply::Done => Progress::Next(self.at(Phase::ForeignKeys)),
                Reply::Integer(found) => if found != self.app_id {
                    Progress::Done(Err(ConnectionBuilderError::WrongApplicationId(found)))
                } else {
                    Progress::Next(self.at(Phase::ForeignKeys))
                },
                Reply::Failed(e) => Progress::Done(Err(ConnectionBuilderError::Db(e))),
                _ => arbitrary(),
            },
            Phase::ForeignKeys => match reply {
                Reply::Done => Progress::Next(self.at(Phase::Version)),
                Reply::Failed(e) => Progress::Done(Err(ConnectionBuilderError::Db(e))),
                _ => arbitrary(),
            },
            Phase::Version => match reply {
                Reply::Integer(user_version) => if latest(self.migrations@) < user_version {
                    Progress::Done(
                        Err(
                            ConnectionBuilderError::OutOfDate {
                                db_version: user_version,
                                latest_migration: latest(self.migrations@) as i32,
                            },
                        ),
                    )
                } else {
                    self.enter(first_pending(self.migrations@, user_version as int))
                },
                Reply::Failed(e) => Progress::Done(Err(ConnectionBuilderError::Db(e))),
                _ => arbitrary(),
            },
            Phase::Begun => match reply {
                Reply::Done => Progress::Next(self.at(Phase::Running(self.batch.first))),
                Reply::Failed(e) => Progress::Done(Err(ConnectionBuilderError::Db(e))),
                _ => arbitrary(),
            },
            Phase::Running(index) => match reply {
                Reply::Done => if index + 1 < self.batch.end {
                    Progress::Next(self.at(Phase::Running((index + 1) as usize)))
                } else {
                    Progress::Next(self.at(Phase::Recording))
                },
                Reply::Refused(error) => self.fail(ConnectionBuilderError::Migration(error)),
                _ => arbitrary(),
            },
            Phase::Recording => match reply {
                Reply::Done => if self.batch.transactional {
                    Progress::Next(self.at(Phase::Committing))
                } else {
                    self.enter(self.batch.end as int)
                },
                Reply::Failed(e) => self.fail(ConnectionBuilderError::Db(e)),
                _ => arbitrary(),
            },
            Phase::Committing => match reply {
                Reply::Done => self.enter(self.batch.end as int),
                Reply::Failed(e) => Progress::Done(Err(ConnectionBuilderError::Db(e))),
                _ => arbitrary(),
            },
            Phase::Undoing(error) => Progress::Done(Err(error)),
        }
    }
}

impl<'a, E> Setup<'a, E> {
    /// The stage of the pass: it falls from the identity check to the
    /// batches.
    pub open spec fn stage(self) -> nat {
        match self.phase {
            Phase::Identity => 3,
            Phase::ForeignKeys => 2,
            Phase::Version => 1,
            _ => 0,
        }
    }

    /// How many migrations the current batch and those after it hold.
    pub open spec fn migrations_left(self) -> nat {
        if self.in_batch() {
            (self.migrations@.len() - self.batch.first) as nat
        } else {
            0
        }
    }

    /// How many commands the current batch may still take, and one more.
    pub open spec fn commands_left(self) -> nat {
        match self.phase {
            Phase::Begun => (self.batch.end - self.batch.first + 3) as nat,
            Phase::Running(index) => (self.batch.end - index + 2) as nat,
            Phase::Recording => 2,
            Phase::Committing => 1,
            _ => 0,
        }
    }

    /// That the pass has come closer to its end than `before`.
    pub open spec fn closer_than(self, before: Self) -> bool {
        ||| self.stage() < before.stage()
        ||| self.stage() == before.stage() && self.migrations_left() < before.migrations_left()
        ||| self.stage() == before.stage() && self.migrations_left() == before.migrations_left()
            && self.commands_left() < before.commands_left()
    }

    /// Every step keeps the state well formed and the configuration as it
    /// is, and brings the pass closer to its end.
    pub proof fn lemma_step(self, reply: Reply<E>)
        requires
            self.wf(),
            answers(self.awaited(), reply),
        ensures
            self.step_spec(reply) matches Progress::Next(next) ==> {
                &&& next.wf()
                &&& next.closer_than(self)
                &&& next.migrations == self.migrations
                &&& next.app_id == self.app_id
                &&& next.foreign_keys == self.foreign_keys
                &&& next.is_new == self.is_new
            },
    {
        let s = self.migrations@;
        if self.phase is Version {
            if let Reply::Integer(user_version) = reply {
                lemma_skip_applied(s, user_version as int, 0);
                let from = first_pending(s, user_version as int);
                if from < s.len() {
                    lemma_run_end(s, from);
                }
            }
        }
        if self.in_batch() {
            let end = self.batch.end as int;
            if end < s.len() {
                lemma_run_end(s, end);
            }
        }
    }

    /// Begins a setup pass.
    pub fn start(
        migrations: &'a Migrations<E>,
        app_id: i32,
        foreign_keys: bool,
        is_new: bool,
    ) -> (state: Self)
        ensures
            state == Setup::initial(migrations, app_id, foreign_keys, is_new),
            state.wf(),
    {
        proof {
            migrations.lemma_len_fits();
        }
        Setup {
            migrations,
            app_id,
            foreign_keys,
            is_new,
            phase: Phase::Identity,
            batch: Batch { first: 0, end: 0, transactional: false, version: 0 },
        }
    }

    /// The command whose reply the pass waits for.
    pub fn command(&self) -> (command: Command)
        ensures
            command == self.awaited(),
    {
        match &self.phase {
            Phase::Identity => {
                if self.is_new {
                    Command::SetApplicationId(self.app_id)
                } else {
                    Command::GetApplicationId
                }
            },
            Phase::ForeignKeys => Command::SetForeignKeys(self.foreign_keys),
            Phase::Version => Command::GetUserVersion,
            Phase::Begun => Command::Begin,
            Phase::Running(index) => Command::Run(*index),
            Phase::Recording => Command::SetUserVersion(self.batch.version),
            Phase::Committing => Command::Commit,
            Phase::Undoing(_) => Command::Rollback,
        }
    }

    /// Turns to the migrations from index `from` on.
    fn enter_batch(self, from: usize) -> (r: Progress<'a, E>)
        requires
            from <= self.migrations@.len(),
        ensures
            r == self.enter(from as int),
    {
        if from < self.migrations.len() {
            let batch = next_batch(self.migrations, from);
            let phase = if batch.transactional {
                Phase::Begun
            } else {
                Phase::Running(batch.first)
            };
            Progress::Next(
                Setup {
                    migrations: self.migrations,
                    app_id: self.app_id,
                    foreign_keys: self.foreign_keys,
                    is_new: self.is_new,
                    phase,
                    batch,
                },
            )
        } else {
            Progress::Done(Ok(()))
        }
    }

    /// Goes to another phase.
    fn go(self, phase: Phase<E>) -> (r: Progress<'a, E>)
        ensures
            r == Progress::Next(self.at(phase)),
    {
        Progress::Next(
            Setup {
                migrations: self.migrations,
                app_id: self.app_id,
                foreign_keys: self.foreign_keys,
                is_new: self.is_new,
                phase,
                batch: self.batch,
            },
        )
    }

    /// Ends the pass with a failure, after the rollback of an open
    /// transaction.
    fn fail_with(self, error: ConnectionBuilderError<E>) -> (r: Progress<'a, E>)
        ensures
            r == self.fail(error),
    {
        if self.batch.transactional {
            self.go(Phase::Undoing(error))
        } else {
            Progress::Done(Err(error))
        }
    }

    /// Takes the reply to the command that the pass waited for, and decides
    /// how the pass goes on.
    pub fn step(self, reply: Reply<E>) -> (r: Progress<'a, E>)
        requires
            self.wf(),
            answers(self.awaited(), reply),
        ensures
            r == self.step_spec(reply),
            r matches Progress::Next(next) ==> next.wf() && next.closer_than(self),
    {
        proof {
            self.lemma_step(reply);
        }
        match self.phase {
            Phase::Identity => match reply {
                Reply::Done => self.go(Phase::ForeignKeys),
                Reply::Integer(found) => match check_application_id(found, self.app_id) {
                    Ok(()) => self.go(Phase::ForeignKeys),
                    Err(error) => Progress::Done(Err(error)),
                },
                Reply::Failed(e) => Progress::Done(Err(ConnectionBuilderError::Db(e))),
                _ => unreached(),
            },
            Phase::ForeignKeys => match reply {
                Reply::Done => self.go(Phase::Version),
                Reply::Failed(e) => Progress::Done(Err(ConnectionBuilderError::Db(e))),
                _ => unreached(),
            },
            Phase::Version => match reply {
                Reply::Integer(user_version) => {
                    // Which migrations does the DB lack? None can help a DB
                    // that is ahead of all of them.
                    let latest_migration = self.migrations.latest_version();
                    if latest_migration < user_version {
                        Progress::Done(
                            Err(
                                ConnectionBuilderError::OutOfDate {
                                    db_version: user_version,
                                    latest_migration,
                                },
                            ),
                        )
                    } else {
                        let from = self.migrations.first_pending(user_version);
                        self.enter_batch(from)
                    }
                },
                Reply::Failed(e) => Progress::Done(Err(ConnectionBuilderError::Db(e))),
                _ => unreached(),
            },
            Phase::Begun => match reply {
                Reply::Done => {
                    let first = self.batch.first;
                    self.go(Phase::Running(first))
                },
                Reply::Failed(e) => Progress::Done(Err(ConnectionBuilderError::Db(e))),
                _ => unreached(),
            },
            Phase::Running(index) => match reply {
                Reply::Done => {
                    if index + 1 < self.batch.end {
                        self.go(Phase::Running(index + 1))
                    } else {
                        self.go(Phase::Recording)
                    }
                },
                Reply::Refused(error) => self.fail_with(ConnectionBuilderError::Migration(error)),
                _ => unreached(),
            },
            Phase::Recording => match reply {
                Reply::Done => {
                    if self.batch.transactional {
                        self.go(Phase::Committing)
                    } else {
                        let end = self.batch.end;
                        self.enter_batch(end)
                    }
                },
                Reply::Failed(e) => self.fail_with(ConnectionBuilderError::Db(e)),
                _ => unreached(),
            },
            Phase::Committing => match reply {
                Reply::Done => {
                    let end = self.batch.end;
                    self.enter_batch(end)
                },
                // The transaction is gone with the commit that failed.
                Reply::Failed(e) => Progress::Done(Err(ConnectionBuilderError::Db(e))),
                _ => unreached(),
            },
            // Whether or not the rollback worked, the pass ends with the
            // failure that called for it.
            Phase::Undoing(error) => Progress::Done(Err(error)),
        }
    }
}

} // verus!
