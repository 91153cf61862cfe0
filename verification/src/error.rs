//! The errors of the library.
use vstd::prelude::*;

verus! {

/// What a repository operation reports about the repository itself.
#[derive(Debug, Clone, PartialEq, Eq)]
pub enum RepoErr<S = String> {
    UnbornHead,
    NotFound(S),
    UnresolvedConflicts,
    PathNotTracked(S),
    PathNotConflicted(S),
    PathNotFoundInRevision { path: S, rev: S },
    PathOutsideWorktree { path: S, worktree: S },
    NonUtf8Path(S),
    Other(S),
}

impl View for RepoErr<String> {
    type V = RepoErr<Seq<char>>;

    open spec fn view(&self) -> RepoErr<Seq<char>> {
        match self {
            RepoErr::UnbornHead => RepoErr::UnbornHead,
            RepoErr::NotFound(p) => RepoErr::NotFound(p@),
            RepoErr::UnresolvedConflicts => RepoErr::UnresolvedConflicts,
            RepoErr::PathNotTracked(p) => RepoErr::PathNotTracked(p@),
            RepoErr::PathNotConflicted(p) => RepoErr::PathNotConflicted(p@),
            RepoErr::PathNotFoundInRevision { path, rev } => RepoErr::PathNotFoundInRevision {
                path: path@,
                rev: rev@,
            },
            RepoErr::PathOutsideWorktree { path, worktree } => RepoErr::PathOutsideWorktree {
                path: path@,
                worktree: worktree@,
            },
            RepoErr::NonUtf8Path(p) => RepoErr::NonUtf8Path(p@),
            RepoErr::Other(m) => RepoErr::Other(m@),
        }
    }
}

/// Error returned by SQLite-aware repository commands.
///
/// The errors of the storage engine, of SQLite and of the operating system are held by their text.
#[derive(Debug, Clone, PartialEq, Eq)]
pub enum CommandError<S = String> {
    Graft(S),
    UnknownCommand,
    InvalidCommand(S),
    InvalidVolumeState,
    Repo(RepoErr<S>),
    Setup(S),
    SqliteDatabase(S),
    IoErr(S),
    FmtErr(S),
}

impl View for CommandError<String> {
    type V = CommandError<Seq<char>>;

    open spec fn view(&self) -> CommandError<Seq<char>> {
        match self {
            CommandError::Graft(m) => CommandError::Graft(m@),
            CommandError::UnknownCommand => CommandError::UnknownCommand,
            CommandError::InvalidCommand(m) => CommandError::InvalidCommand(m@),
            CommandError::InvalidVolumeState => CommandError::InvalidVolumeState,
            CommandError::Repo(e) => CommandError::Repo(e@),
            CommandError::Setup(m) => CommandError::Setup(m@),
            CommandError::SqliteDatabase(m) => CommandError::SqliteDatabase(m@),
            CommandError::IoErr(m) => CommandError::IoErr(m@),
            CommandError::FmtErr(m) => CommandError::FmtErr(m@),
        }
    }
}

/// Why a command line was not taken.
#[derive(Debug, Clone, PartialEq, Eq)]
pub enum PragmaErr<S = String> {
    NotFound,
    Fail(Option<S>),
}

impl View for PragmaErr<String> {
    type V = PragmaErr<Seq<char>>;

    open spec fn view(&self) -> PragmaErr<Seq<char>> {
        match self {
            PragmaErr::NotFound => PragmaErr::NotFound,
            PragmaErr::Fail(m) => PragmaErr::Fail(text_option(*m)),
        }
    }
}

/// The characters of an optional text.
pub open spec fn text_option(s: Option<String>) -> Option<Seq<char>> {
    match s {
        Some(t) => Some(t@),
        None => None,
    }
}

/// The characters of an optional borrowed text.
pub open spec fn str_option(s: Option<&str>) -> Option<Seq<char>> {
    match s {
        Some(t) => Some(t@),
        None => None,
    }
}

/// A result with its value and its error replaced by their views.
pub open spec fn seen<T: View, E: View>(r: Result<T, E>) -> Result<T::V, E::V> {
    match r {
        Ok(v) => Ok(v@),
        Err(e) => Err(e@),
    }
}

/// The refusal of a command line with a message.
pub open spec fn refused<T>(message: Seq<char>) -> Result<T, PragmaErr<Seq<char>>> {
    Err(PragmaErr::Fail(Some(message)))
}

/// The failure of a command with a message.
pub open spec fn invalid<T>(message: Seq<char>) -> Result<T, CommandError<Seq<char>>> {
    Err(CommandError::InvalidCommand(message))
}

pub fn pragma_fail(message: &str) -> (r: PragmaErr)
    ensures
        r@ == PragmaErr::Fail(Some(message@)),
{
    PragmaErr::Fail(Some(message.to_owned()))
}

pub fn invalid_command(message: &str) -> (r: CommandError)
    ensures
        r@ == CommandError::InvalidCommand(message@),
{
    CommandError::InvalidCommand(message.to_owned())
}

pub fn copy_option(s: &Option<String>) -> (r: Option<String>)
    ensures
        text_option(r) == text_option(*s),
{
    match s {
        Some(t) => Some(t.clone()),
        None => None,
    }
}

} // verus!
