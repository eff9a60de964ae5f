//! Plain value types of the file system interface, and what the file
//! system's error numbers mean for each operation.

use crate::clock::DateTime;
use vstd::prelude::*;

verus! {

/// Error number of an operation that succeeded.
pub const ESUCCESS: i32 = 0;

/// Error number for a lack of permission.
pub const EACCESS: i32 = 2;

/// Error number for a file that exists already.
pub const EEXIST: i32 = 20;

/// Error number for a file that would grow too large.
pub const EFBIG: i32 = 22;

/// Error number for too many open files.
pub const ENFILE: i32 = 41;

/// Error number for a device that is not there.
pub const ENODEV: i32 = 43;

/// Error number for a file or directory that is not there.
pub const ENOENT: i32 = 44;

/// Error number for a device that is full.
pub const ENOSPC: i32 = 51;

/// Error number for a file system that cannot be written.
pub const EROFS: i32 = 69;

/// Error number for a seek that the stream does not allow.
pub const ESPIPE: i32 = 70;

/// How a file is opened.
#[derive(Clone, Copy, Debug)]
pub enum FileMode {
    Read,
    Write,
}

impl FileMode {
    /// The code of each mode: 0 for reading, 1 for writing.
    pub open spec fn spec_code(self) -> int {
        match self {
            FileMode::Read => 0,
            FileMode::Write => 1,
        }
    }

    /// The numeric code handed to the file system.
    pub fn code(self) -> (code: i32)
        ensures
            code == self.spec_code(),
    {
        match self {
            FileMode::Read => 0,
            FileMode::Write => 1,
        }
    }
}

/// What a seek offset is relative to.
#[derive(Clone, Copy, Debug)]
pub enum SeekOrigin {
    Begin,
    Current,
    End,
}

impl SeekOrigin {
    /// The code of each origin: 0 for the beginning, 1 for the current
    /// position, 2 for the end.
    pub open spec fn spec_code(self) -> int {
        match self {
            SeekOrigin::Begin => 0,
            SeekOrigin::Current => 1,
            SeekOrigin::End => 2,
        }
    }

    /// The numeric code handed to the file system.
    pub fn code(self) -> (code: i32)
        ensures
            code == self.spec_code(),
    {
        match self {
            SeekOrigin::Begin => 0,
            SeekOrigin::Current => 1,
            SeekOrigin::End => 2,
        }
    }
}

/// One entry of a directory.
pub struct DirectoryEntry {
    pub name: String,
    pub is_directory: bool,
    pub size: i32,
    pub created: DateTime,
    pub modified: DateTime,
}

/// The failures the file system reports.
#[derive(Debug)]
pub enum IOError {
    TooManyFilesOpen,
    ReadOnlyFileSystem,
    FileNotFound,
    DirectoryNotFound,
    NoSuchDevice,
    NotSupported,
    InvalidSeek,
    FileTooBig,
    FileAlreadyExists,
    NoSpaceOnDevice,
    ReachedEndOfFile,
}

impl IOError {
    /// The failure an error number stands for after a file could not be
    /// opened; `None` for a number that opening a file does not give.
    pub open spec fn spec_opening_file(errno: i32) -> Option<IOError> {
        if errno == ENFILE {
            Some(IOError::TooManyFilesOpen)
        } else if errno == ENOENT {
            Some(IOError::FileNotFound)
        } else if errno == EROFS {
            Some(IOError::ReadOnlyFileSystem)
        } else if errno == ENODEV {
            Some(IOError::NoSuchDevice)
        } else {
            None
        }
    }

    /// Why a file could not be opened, from the error number.
    pub fn opening_file(errno: i32) -> (r: Option<IOError>)
        ensures
            r == Self::spec_opening_file(errno),
    {
        if errno == ENFILE {
            Some(IOError::TooManyFilesOpen)
        } else if errno == ENOENT {
            Some(IOError::FileNotFound)
        } else if errno == EROFS {
            Some(IOError::ReadOnlyFileSystem)
        } else if errno == ENODEV {
            Some(IOError::NoSuchDevice)
        } else {
            None
        }
    }

    /// The failure an error number stands for after a file could not be
    /// allocated on a memory card; `None` for a number that allocating does
    /// not give.
    pub open spec fn spec_allocating_file(errno: i32) -> Option<IOError> {
        if errno == EEXIST {
            Some(IOError::FileAlreadyExists)
        } else if errno == ENOSPC {
            Some(IOError::NoSpaceOnDevice)
        } else if errno == ENODEV {
            Some(IOError::NoSuchDevice)
        } else {
            None
        }
    }

    /// Why a file could not be allocated on a memory card, from the error
    /// number.
    pub fn allocating_file(errno: i32) -> (r: Option<IOError>)
        ensures
            r == Self::spec_allocating_file(errno),
    {
        if errno == EEXIST {
            Some(IOError::FileAlreadyExists)
        } else if errno == ENOSPC {
            Some(IOError::NoSpaceOnDevice)
        } else if errno == ENODEV {
            Some(IOError::NoSuchDevice)
        } else {
            None
        }
    }

    /// The failure an error number stands for after a directory could not
    /// be opened; `None` for a number that opening a directory does not give.
    pub open spec fn spec_opening_directory(errno: i32) -> Option<IOError> {
        if errno == ENOENT {
            Some(IOError::DirectoryNotFound)
        } else if errno == ENODEV {
            Some(IOError::NoSuchDevice)
        } else {
            None
        }
    }

    /// Why a directory could not be opened, from the error number.
    pub fn opening_directory(errno: i32) -> (r: Option<IOError>)
        ensures
            r == Self::spec_opening_directory(errno),
    {
        if errno == ENOENT {
            Some(IOError::DirectoryNotFound)
        } else if errno == ENODEV {
            Some(IOError::NoSuchDevice)
        } else {
            None
        }
    }
}

} // verus!
