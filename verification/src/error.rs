//! The error kinds shared by the naming and storage services, and their
//! mapping to an HTTP status code and a structured exception body.

use vstd::prelude::*;

verus! {

/// Every failure a service operation can report.
#[derive(Clone, Copy, Debug, PartialEq, Eq, Structural)]
pub enum TinyDfsError {
    /// A storage node with the same address is already registered.
    StorageServerExists,
    /// A create targeted an occupied path.
    FileExists,
    /// The target path is absent where a target was required.
    FileNotFound,
    /// An intermediate path segment is absent and auto-creation is disallowed.
    DirNotFound,
    /// Local directory enumeration failed on the storage-node side.
    DirReadErr,
    /// A registration request could not be delivered or was rejected.
    RegisterFailed,
    /// A malformed or unresolvable path was supplied.
    PathInvalid,
    /// A byte-range operation exceeded the file bounds.
    IndexOutOfBound,
    /// A local I/O operation was interrupted.
    IOInterrupted,
}

impl TinyDfsError {
    /// The HTTP status code, exception type and exception info reported for
    /// this error kind.
    pub fn exception(&self) -> (r: (u16, &'static str, &'static str))
        ensures
            r.0 == self.spec_status(),
            r.1@ == self.spec_exception_type(),
            r.2@ == self.spec_exception_info(),
    {
        match self {
            TinyDfsError::StorageServerExists => (
                409,
                "IllegalStateException",
                "storage server exists",
            ),
            TinyDfsError::FileExists => (409, "IllegalStateException", "file exists"),
            TinyDfsError::FileNotFound => (404, "FileNotFoundException", "file not found"),
            TinyDfsError::DirNotFound => (404, "FileNotFoundException", "(parent) dir not found"),
            TinyDfsError::DirReadErr => (409, "IllegalStateException", "dir read err"),
            TinyDfsError::RegisterFailed => (
                409,
                "IllegalStateException",
                "server registerred failed",
            ),
            TinyDfsError::PathInvalid => (404, "IllegalArgumentException", "path invalid"),
            TinyDfsError::IndexOutOfBound => (
                404,
                "IndexOutOfBoundsException",
                "index out of bound of the file ",
            ),
            TinyDfsError::IOInterrupted => (404, "IOException", "IO interrupted"),
        }
    }

    /// The HTTP status code for this error kind.
    pub open spec fn spec_status(self) -> u16 {
        match self {
            TinyDfsError::StorageServerExists => 409,
            TinyDfsError::FileExists => 409,
            TinyDfsError::FileNotFound => 404,
            TinyDfsError::DirNotFound => 404,
            TinyDfsError::DirReadErr => 409,
            TinyDfsError::RegisterFailed => 409,
            TinyDfsError::PathInvalid => 404,
            TinyDfsError::IndexOutOfBound => 404,
            TinyDfsError::IOInterrupted => 404,
        }
    }

    /// The exception type reported for this error kind.
    pub open spec fn spec_exception_type(self) -> Seq<char> {
        match self {
            TinyDfsError::StorageServerExists => "IllegalStateException"@,
            TinyDfsError::FileExists => "IllegalStateException"@,
            TinyDfsError::FileNotFound => "FileNotFoundException"@,
            TinyDfsError::DirNotFound => "FileNotFoundException"@,
            TinyDfsError::DirReadErr => "IllegalStateException"@,
            TinyDfsError::RegisterFailed => "IllegalStateException"@,
            TinyDfsError::PathInvalid => "IllegalArgumentException"@,
            TinyDfsError::IndexOutOfBound => "IndexOutOfBoundsException"@,
            TinyDfsError::IOInterrupted => "IOException"@,
        }
    }

    /// The exception info reported for this error kind.
    pub open spec fn spec_exception_info(self) -> Seq<char> {
        match self {
            TinyDfsError::StorageServerExists => "storage server exists"@,
            TinyDfsError::FileExists => "file exists"@,
            TinyDfsError::FileNotFound => "file not found"@,
            TinyDfsError::DirNotFound => "(parent) dir not found"@,
            TinyDfsError::DirReadErr => "dir read err"@,
            TinyDfsError::RegisterFailed => "server registerred failed"@,
            TinyDfsError::PathInvalid => "path invalid"@,
            TinyDfsError::IndexOutOfBound => "index out of bound of the file "@,
            TinyDfsError::IOInterrupted => "IO interrupted"@,
        }
    }
}

} // verus!
