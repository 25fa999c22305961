//! Error kinds of the archiver and of its companion tools.
use vstd::prelude::*;

verus! {

/// Errors of an archive run.
#[derive(Debug, Clone, PartialEq, Eq)]
pub enum ZipError {
    Io(String),
    ArchiveNotFound(String),
    EntryNotFound(String),
    PasswordRequired,
    InvalidPassword,
    InvalidArguments(String),
    NothingToDo(String),
    PatternError(String),
    OperationNotPermitted(String),
    UnsupportedFeature(String),
    InvalidDateTime(String),
    DuplicateFileName(String),
    UnzipError(String),
    Interrupted(String),
    InvalidArchive(String),
}

/// Errors of the comment editor.
#[derive(Debug, Clone, PartialEq, Eq)]
pub enum ZipNoteError {
    InvalidArguments(String),
    InvalidCommentFormat(String),
    ArchiveNotFound(String),
    NothingToDo(String),
    PatternError(String),
}

/// Errors of the encryption toggle tool.
#[derive(Debug, Clone, PartialEq, Eq)]
pub enum ZipCloakError {
    InvalidArguments(String),
    ArchiveNotFound(String),
    NothingToDo(String),
    PatternError(String),
}

/// Errors of the archive splitter.
#[derive(Debug, Clone, PartialEq, Eq)]
pub enum ZipSplitError {
    InvalidArguments(String),
    ArchiveNotFound(String),
    NothingToDo(String),
    EntryTooLarge(String),
}

} // verus!
