//! What a path turned out to be on disk, and the failures of the filesystem
//! operations.

use vstd::prelude::*;
use vstd::string::StringExecFns;

verus! {

/// What was found at a path.
#[derive(Clone, Copy, Debug, PartialEq, Eq, Structural)]
pub enum PathKind {
    /// Nothing exists there.
    Missing,
    Directory,
    File,
    /// Something that is neither a directory nor a regular file.
    Other,
}

/// What an operation needed to find at its path.
#[derive(Clone, Copy, Debug, PartialEq, Eq, Structural)]
pub enum Wanted {
    Directory,
    File,
}

/// A failed filesystem operation.
#[derive(Clone, Debug, PartialEq, Eq)]
pub enum FsError {
    /// Nothing exists at the path.
    NotFound(Wanted),
    /// The path exists but is no directory.
    NotADirectory,
    /// The path exists but is no regular file.
    NotAFile,
    /// Reading, writing or creating failed; the text is the system's own.
    IOError(String),
    /// The file's content is not valid text.
    DecodeError,
}

/// An `FsError` with its text as a sequence of characters.
pub enum FsErrorModel {
    NotFound(Wanted),
    NotADirectory,
    NotAFile,
    IOError(Seq<char>),
    DecodeError,
}

impl View for FsError {
    type V = FsErrorModel;

    open spec fn view(&self) -> FsErrorModel {
        match self {
            FsError::NotFound(w) => FsErrorModel::NotFound(*w),
            FsError::NotADirectory => FsErrorModel::NotADirectory,
            FsError::NotAFile => FsErrorModel::NotAFile,
            FsError::IOError(m) => FsErrorModel::IOError(m@),
            FsError::DecodeError => FsErrorModel::DecodeError,
        }
    }
}

impl FsErrorModel {
    /// The message shown to the caller.
    pub open spec fn message(self) -> Seq<char> {
        match self {
            FsErrorModel::NotFound(Wanted::Directory) => "Path does not exist"@,
            FsErrorModel::NotFound(Wanted::File) => "File does not exist"@,
            FsErrorModel::NotADirectory => "Path is not a directory"@,
            FsErrorModel::NotAFile => "Path is not a file"@,
            FsErrorModel::IOError(m) => m,
            FsErrorModel::DecodeError => "stream did not contain valid UTF-8"@,
        }
    }
}

/// Why a path of the given kind cannot serve where `wanted` is needed, if it
/// cannot.
pub open spec fn kind_failure(kind: PathKind, wanted: Wanted) -> Option<FsErrorModel> {
    match (kind, wanted) {
        (PathKind::Missing, _) => Some(FsErrorModel::NotFound(wanted)),
        (PathKind::Directory, Wanted::Directory) => None,
        (PathKind::File, Wanted::File) => None,
        (_, Wanted::Directory) => Some(FsErrorModel::NotADirectory),
        (_, Wanted::File) => Some(FsErrorModel::NotAFile),
    }
}

impl FsError {
    /// The human-readable message of this failure.
    pub fn message(&self) -> (r: String)
        ensures
            r@ == self@.message(),
    {
        match self {
            FsError::NotFound(Wanted::Directory) => String::from_str("Path does not exist"),
            FsError::NotFound(Wanted::File) => String::from_str("File does not exist"),
            FsError::NotADirectory => String::from_str("Path is not a directory"),
            FsError::NotAFile => String::from_str("Path is not a file"),
            FsError::IOError(m) => m.clone(),
            FsError::DecodeError => String::from_str("stream did not contain valid UTF-8"),
        }
    }
}

/// Accepts a path that is a directory.
pub fn require_directory(kind: PathKind) -> (r: Result<(), FsError>)
    ensures
        match r {
            Ok(_) => kind_failure(kind, Wanted::Directory) is None,
            Err(e) => kind_failure(kind, Wanted::Directory) == Some(e@),
        },
{
    match kind {
        PathKind::Missing => Err(FsError::NotFound(Wanted::Directory)),
        PathKind::Directory => Ok(()),
        _ => Err(FsError::NotADirectory),
    }
}

/// Accepts a path that is a regular file.
pub fn require_file(kind: PathKind) -> (r: Result<(), FsError>)
    ensures
        match r {
            Ok(_) => kind_failure(kind, Wanted::File) is None,
            Err(e) => kind_failure(kind, Wanted::File) == Some(e@),
        },
{
    match kind {
        PathKind::Missing => Err(FsError::NotFound(Wanted::File)),
        PathKind::File => Ok(()),
        _ => Err(FsError::NotAFile),
    }
}

} // verus!
