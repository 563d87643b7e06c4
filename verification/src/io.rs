//! Errors of file-system and process operations.
use vstd::prelude::*;

verus! {

/// I/O error; paths are held as strings.
#[derive(Debug)]
pub enum Error {
    /// The user configuration directory is unavailable.
    UnavailableUserDirError,
    /// A file could not be opened.
    OpenFileError(String, String),
    /// A file could not be read.
    ReadFileError(String, String),
    /// A file could not be written.
    WriteFileError(String, String),
    /// A file could not be created.
    CreateFileError(String, String),
    /// A folder could not be created.
    CreateFolderError(String, String),
    /// A folder could not be removed.
    RemoveFolderError(String, String),
    /// A file could not be removed.
    RemoveFileError(String, String),
    /// A folder could not be copied.
    CopyFolderError(String, String, String),
    /// A file could not be copied.
    CopyFileError(String, String, String),
    /// A folder could not be read.
    ReadDirError(String, String),
    /// A folder entry could not be read.
    ReadDirEntryError(String, String),
    /// A command failed to run.
    CommandExecutionError(String),
    /// A path has no parent.
    NoParentFolder(String),
    /// A zip file could not be opened.
    OpenZipError(String, String),
    /// A zip file could not be extracted.
    ExtractZipError(String, String, String),
    /// Output could not be written.
    WriteError(String),
}

} // verus!
