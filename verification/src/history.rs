//! Where the request history is kept, and which stored histories can be read.
//!
//! Reading and writing the history file is left to the program around the
//! library; the library holds the store's location and decides whether a
//! stored history is of a version it understands.
use std::path::PathBuf;
use vstd::prelude::*;

verus! {

/// A path of the platform; Verus sees no further into it.
#[verifier::external_type_specification]
#[verifier::external_body]
pub struct ExPathBuf(PathBuf);

/// The version of the history format that this library writes and reads.
pub const HISTORY_VERSION: u8 = 1;

/// Why a history could not be located or used.
#[derive(Debug)]
pub enum HistoryError {
    /// Neither `XDG_STATE_HOME` nor `HOME` names a directory.
    MissingHome,
    /// The history file's path has no parent directory.
    InvalidPath(PathBuf),
    /// The stored history is of another format version.
    UnsupportedVersion(u8),
}

/// Where the history lives: a file, or nowhere (kept in memory only).
#[derive(Debug)]
pub struct HistoryStore {
    path: Option<PathBuf>,
}

impl HistoryStore {
    /// The file that holds the history, if any.
    pub closed spec fn location(&self) -> Option<PathBuf> {
        self.path
    }

    /// A store kept in the file at `path`.
    pub fn new(path: PathBuf) -> (store: Self)
        ensures
            store.location() == Some(path),
    {
        HistoryStore { path: Some(path) }
    }

    /// A store with no file: loading finds nothing, saving keeps nothing.
    pub fn in_memory() -> (store: Self)
        ensures
            store.location() == None::<PathBuf>,
    {
        HistoryStore { path: None }
    }

    /// The file that holds the history, if any.
    pub fn path(&self) -> (path: Option<&PathBuf>)
        ensures
            match path {
                Some(p) => self.location() == Some(*p),
                None => self.location() is None,
            },
    {
        self.path.as_ref()
    }
}

/// Whether a history stored in format `version` can be read: only the
/// current format can; any other is refused with its version.
pub fn check_version(version: u8) -> (checked: Result<(), HistoryError>)
    ensures
        checked is Ok <==> version == HISTORY_VERSION,
        checked matches Err(e) ==> e == HistoryError::UnsupportedVersion(version),
{
    if version != HISTORY_VERSION {
        Err(HistoryError::UnsupportedVersion(version))
    } else {
        Ok(())
    }
}

} // verus!
