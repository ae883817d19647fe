use vstd::prelude::*;

verus! {

/// SQLite's flag for opening a file for reading and writing.
pub const SQLITE_OPEN_READWRITE: i32 = 0x2;

/// SQLite's flag for creating the file if it does not exist.
pub const SQLITE_OPEN_CREATE: i32 = 0x4;

/// SQLite's flag for reading the file name as a URI.
pub const SQLITE_OPEN_URI: i32 = 0x40;

/// SQLite's flag for a connection that is used by one thread at a time.
pub const SQLITE_OPEN_NOMUTEX: i32 = 0x8000;

/// The flags with which a database file is opened: for reading and writing, by
/// URI, without a mutex, and with leave to create the file only if `create`.
pub fn open_flags(create: bool) -> (bits: i32)
    ensures
        bits == if create {
            0x8046i32
        } else {
            0x8042i32
        },
{
    let existing = SQLITE_OPEN_READWRITE | SQLITE_OPEN_URI | SQLITE_OPEN_NOMUTEX;
    assert(0x2i32 | 0x40i32 | 0x8000i32 == 0x8042i32) by (bit_vector);
    if create {
        assert(0x8042i32 | 0x4i32 == 0x8046i32) by (bit_vector);
        existing | SQLITE_OPEN_CREATE
    } else {
        existing
    }
}

/// How an attempt to open a database file ended.
#[derive(Clone, Copy, Debug, PartialEq, Eq, Structural)]
pub enum Attempt {
    /// The file was opened.
    Opened,
    /// The engine could not open the file, as it does when there is none.
    CannotOpen,
    /// The attempt failed for another reason.
    Failed,
}

/// What follows an attempt to open a database file.
#[derive(Clone, Copy, Debug, PartialEq, Eq, Structural)]
pub enum OpenStep {
    /// Set the connection up; `is_new` says whether the file was just created.
    Setup { is_new: bool },
    /// Try once more, this time with leave to create the file.
    Create,
    /// Hand the failure to the caller.
    GiveUp,
}

/// What follows an attempt that was made with leave to create the file
/// (`creating`) or without.
pub open spec fn next_step_spec(creating: bool, attempt: Attempt) -> OpenStep {
    match attempt {
        Attempt::Opened => OpenStep::Setup { is_new: creating },
        Attempt::CannotOpen => if creating {
            OpenStep::GiveUp
        } else {
            OpenStep::Create
        },
        Attempt::Failed => OpenStep::GiveUp,
    }
}

/// Decides what follows an attempt to open a database file. A file counts as
/// new only if it was opened by the attempt that was allowed to create it, and
/// that attempt is made only after the engine could not open the file as it was.
pub fn next_step(creating: bool, attempt: Attempt) -> (step: OpenStep)
    ensures
        step == next_step_spec(creating, attempt),
{
    match attempt {
        Attempt::Opened => OpenStep::Setup { is_new: creating },
        Attempt::CannotOpen => {
            if creating {
                OpenStep::GiveUp
            } else {
                OpenStep::Create
            }
        },
        Attempt::Failed => OpenStep::GiveUp,
    }
}

} // verus!
