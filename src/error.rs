use vstd::prelude::*;

verus! {

/// What went wrong, with the path or name it concerns.
#[derive(Debug)]
pub enum BackupError {
    /// Creating, reading, writing, removing or copying a file failed.
    Io { path: String },
    /// A storage root could not be created or enumerated.
    Directory { path: String },
    /// The named archive or source file does not exist.
    NotFound { path: String },
    /// The bytes are not a readable zip archive.
    ArchiveFormat { path: String },
    /// A readable archive holds none of the recognized documents, or a key
    /// or entry name would leave its root directory.
    Validation { path: String },
}

impl BackupError {
    /// The path or name that the failure concerns.
    pub open spec fn subject(self) -> Seq<char> {
        match self {
            BackupError::Io { path } => path@,
            BackupError::Directory { path } => path@,
            BackupError::NotFound { path } => path@,
            BackupError::ArchiveFormat { path } => path@,
            BackupError::Validation { path } => path@,
        }
    }

    /// A short label for the kind of failure.
    pub fn kind(&self) -> (r: &'static str)
        ensures
            self is Io ==> r@ == "io"@,
            self is Directory ==> r@ == "directory"@,
            self is NotFound ==> r@ == "not found"@,
            self is ArchiveFormat ==> r@ == "archive format"@,
            self is Validation ==> r@ == "validation"@,
    {
        match self {
            BackupError::Io { .. } => "io",
            BackupError::Directory { .. } => "directory",
            BackupError::NotFound { .. } => "not found",
            BackupError::ArchiveFormat { .. } => "archive format",
            BackupError::Validation { .. } => "validation",
        }
    }

    /// The path or name that the failure concerns.
    pub fn path(&self) -> (r: &String)
        ensures
            r@ == self.subject(),
    {
        match self {
            BackupError::Io { path } => path,
            BackupError::Directory { path } => path,
            BackupError::NotFound { path } => path,
            BackupError::ArchiveFormat { path } => path,
            BackupError::Validation { path } => path,
        }
    }
}

} // verus!
