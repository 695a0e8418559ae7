//! Plain data types shared by the store, the codec and the client.
use vstd::prelude::*;

verus! {

/// Inode of the root directory.
pub const ROOT_INODE: u64 = 1;

/// Longest accepted directory-entry name, in bytes.
pub const MAX_NAME_LENGTH: u32 = 255;

/// Largest accepted file size: 1 TiB.
pub const MAX_FILE_SIZE: u64 = 1099511627776;

/// Block size reported for directories and to the kernel.
pub const BLOCK_SIZE: u64 = 512;

/// Set-user-id mode bit.
pub const S_ISUID: u16 = 0o4000;

/// Set-group-id mode bit.
pub const S_ISGID: u16 = 0o2000;

/// Sticky mode bit.
pub const S_ISVTX: u16 = 0o1000;

/// Access mask bit: read.
pub const R_OK: u32 = 4;

/// Access mask bit: write.
pub const W_OK: u32 = 2;

/// Access mask bit: execute / search.
pub const X_OK: u32 = 1;

/// Sentinel nanoseconds value of a `utimens` timestamp meaning "now".
pub const UTIME_NOW: i32 = 1073741823;

/// Kind of a filesystem object.
#[derive(Clone, Copy, Debug, PartialEq, Eq, Structural)]
pub enum FileKind {
    File,
    Directory,
    Symlink,
}

/// A point in time: seconds and nanoseconds since the Unix epoch.
#[derive(Clone, Copy, Debug, PartialEq, Eq, Structural)]
pub struct Timestamp {
    pub seconds: i64,
    pub nanos: i32,
}

impl Timestamp {
    pub fn new(seconds: i64, nanos: i32) -> (r: Timestamp)
        ensures
            r.seconds == seconds,
            r.nanos == nanos,
    {
        Timestamp { seconds, nanos }
    }

    pub fn seconds(&self) -> (r: i64)
        ensures
            r == self.seconds,
    {
        self.seconds
    }

    pub fn nanos(&self) -> (r: i32)
        ensures
            r == self.nanos,
    {
        self.nanos
    }
}

/// The user on whose behalf an operation runs.
#[derive(Clone, Copy, Debug, PartialEq, Eq, Structural)]
pub struct UserContext {
    pub uid: u32,
    pub gid: u32,
}

impl UserContext {
    pub fn new(uid: u32, gid: u32) -> (r: UserContext)
        ensures
            r.uid == uid,
            r.gid == gid,
    {
        UserContext { uid, gid }
    }

    pub fn uid(&self) -> (r: u32)
        ensures
            r == self.uid,
    {
        self.uid
    }

    pub fn gid(&self) -> (r: u32)
        ensures
            r == self.gid,
    {
        self.gid
    }
}

/// Every way an operation can fail.
#[derive(Clone, Copy, Debug, PartialEq, Eq, Structural)]
pub enum ErrorCode {
    DoesNotExist,
    InodeDoesNotExist,
    AlreadyExists,
    NotEmpty,
    AccessDenied,
    OperationNotPermitted,
    NameTooLong,
    FileTooLarge,
    MissingXattrKey,
    BadRequest,
    BadResponse,
    Corrupted,
    RaftFailure,
    Uncategorized,
}

/// Wire value of an error code.
pub open spec fn error_code_value(e: ErrorCode) -> u8 {
    match e {
        ErrorCode::DoesNotExist => 1,
        ErrorCode::InodeDoesNotExist => 2,
        ErrorCode::AlreadyExists => 3,
        ErrorCode::NotEmpty => 4,
        ErrorCode::AccessDenied => 5,
        ErrorCode::OperationNotPermitted => 6,
        ErrorCode::NameTooLong => 7,
        ErrorCode::FileTooLarge => 8,
        ErrorCode::MissingXattrKey => 9,
        ErrorCode::BadRequest => 10,
        ErrorCode::BadResponse => 11,
        ErrorCode::Corrupted => 12,
        ErrorCode::RaftFailure => 13,
        ErrorCode::Uncategorized => 14,
    }
}

impl ErrorCode {
    /// The small integer that stands for this error on the wire.
    pub fn to_wire(&self) -> (r: u8)
        ensures
            r == error_code_value(*self),
    {
        match self {
            ErrorCode::DoesNotExist => 1,
            ErrorCode::InodeDoesNotExist => 2,
            ErrorCode::AlreadyExists => 3,
            ErrorCode::NotEmpty => 4,
            ErrorCode::AccessDenied => 5,
            ErrorCode::OperationNotPermitted => 6,
            ErrorCode::NameTooLong => 7,
            ErrorCode::FileTooLarge => 8,
            ErrorCode::MissingXattrKey => 9,
            ErrorCode::BadRequest => 10,
            ErrorCode::BadResponse => 11,
            ErrorCode::Corrupted => 12,
            ErrorCode::RaftFailure => 13,
            ErrorCode::Uncategorized => 14,
        }
    }

    /// The error whose wire value is `v`, if any.
    pub fn from_wire(v: u8) -> (r: Option<ErrorCode>)
        ensures
            r matches Some(e) ==> error_code_value(e) == v,
            r is None <==> (v == 0 || v > 14),
    {
        match v {
            1 => Some(ErrorCode::DoesNotExist),
            2 => Some(ErrorCode::InodeDoesNotExist),
            3 => Some(ErrorCode::AlreadyExists),
            4 => Some(ErrorCode::NotEmpty),
            5 => Some(ErrorCode::AccessDenied),
            6 => Some(ErrorCode::OperationNotPermitted),
            7 => Some(ErrorCode::NameTooLong),
            8 => Some(ErrorCode::FileTooLarge),
            9 => Some(ErrorCode::MissingXattrKey),
            10 => Some(ErrorCode::BadRequest),
            11 => Some(ErrorCode::BadResponse),
            12 => Some(ErrorCode::Corrupted),
            13 => Some(ErrorCode::RaftFailure),
            14 => Some(ErrorCode::Uncategorized),
            _ => None,
        }
    }
}

} // verus!
