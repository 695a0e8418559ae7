//! Decisions of the kernel adapter: which store calls an attribute change
//! turns into, and how errors and modes map to and from the kernel's
//! numbers (Linux values).
use vstd::prelude::*;
use crate::client_cache::FileHandleTable;
use crate::types::{ErrorCode, FileKind, Timestamp, UserContext, UTIME_NOW};

verus! {

pub const EPERM: i32 = 1;
pub const ENOENT: i32 = 2;
pub const EIO: i32 = 5;
pub const EACCES: i32 = 13;
pub const EEXIST: i32 = 17;
pub const EFBIG: i32 = 27;
pub const ENAMETOOLONG: i32 = 36;
pub const ENOTEMPTY: i32 = 39;
pub const ENODATA: i32 = 61;
pub const EBADFD: i32 = 77;

/// Mask of the file-type bits of a mode.
pub const S_IFMT: u32 = 0o170000;
/// File-type bits of a mode: regular file.
pub const S_IFREG: u32 = 0o100000;
/// File-type bits of a mode: symbolic link.
pub const S_IFLNK: u32 = 0o120000;
/// File-type bits of a mode: directory.
pub const S_IFDIR: u32 = 0o040000;

pub open spec fn errno_spec(e: ErrorCode) -> i32 {
    match e {
        ErrorCode::DoesNotExist => ENOENT,
        ErrorCode::InodeDoesNotExist => EBADFD,
        ErrorCode::AlreadyExists => EEXIST,
        ErrorCode::NotEmpty => ENOTEMPTY,
        ErrorCode::AccessDenied => EACCES,
        ErrorCode::OperationNotPermitted => EPERM,
        ErrorCode::NameTooLong => ENAMETOOLONG,
        ErrorCode::FileTooLarge => EFBIG,
        ErrorCode::MissingXattrKey => ENODATA,
        _ => EIO,
    }
}

/// The errno that the kernel gets for `e`.
pub fn errno_of(e: ErrorCode) -> (r: i32)
    ensures
        r == errno_spec(e),
{
    match e {
        ErrorCode::DoesNotExist => ENOENT,
        ErrorCode::InodeDoesNotExist => EBADFD,
        ErrorCode::AlreadyExists => EEXIST,
        ErrorCode::NotEmpty => ENOTEMPTY,
        ErrorCode::AccessDenied => EACCES,
        ErrorCode::OperationNotPermitted => EPERM,
        ErrorCode::NameTooLong => ENAMETOOLONG,
        ErrorCode::FileTooLarge => EFBIG,
        ErrorCode::MissingXattrKey => ENODATA,
        ErrorCode::BadRequest | ErrorCode::BadResponse | ErrorCode::Corrupted | ErrorCode::RaftFailure
        | ErrorCode::Uncategorized => EIO,
    }
}

/// The kind of object that a `mknod` mode asks for, by its file-type bits;
/// `None` for the types the store does not hold.
pub fn as_file_kind(mode: u32) -> (r: Option<FileKind>)
    ensures
        r == if mode & S_IFMT == S_IFREG {
            Some(FileKind::File)
        } else if mode & S_IFMT == S_IFLNK {
            Some(FileKind::Symlink)
        } else if mode & S_IFMT == S_IFDIR {
            Some(FileKind::Directory)
        } else {
            None::<FileKind>
        },
{
    let t = mode & S_IFMT;
    if t == S_IFREG {
        Some(FileKind::File)
    } else if t == S_IFLNK {
        Some(FileKind::Symlink)
    } else if t == S_IFDIR {
        Some(FileKind::Directory)
    } else {
        None
    }
}

/// One store call of an attribute change, or the error that ends it.
#[derive(Clone, Copy, Debug, PartialEq, Eq, Structural)]
pub enum SetattrStep {
    Chmod { mode: u32, ctx: UserContext },
    Chown { uid: Option<u32>, gid: Option<u32>, ctx: UserContext },
    Truncate { size: u64, ctx: UserContext },
    Utimens { atime: Option<Timestamp>, mtime: Option<Timestamp>, ctx: UserContext },
    Fail(ErrorCode),
}

/// An attribute change as the kernel asks for it.
#[derive(Clone, Copy, Debug, PartialEq, Eq, Structural)]
pub struct SetattrArgs {
    pub mode: Option<u32>,
    pub uid: Option<u32>,
    pub gid: Option<u32>,
    pub size: Option<u64>,
    pub atime: Option<Timestamp>,
    pub atime_now: bool,
    pub mtime: Option<Timestamp>,
    pub mtime_now: bool,
    /// The handle through which the change is made, if any.
    pub fh: Option<u64>,
}

pub open spec fn now_or(t: Option<Timestamp>, now: bool) -> Option<Timestamp> {
    if now { Some(Timestamp { seconds: 0, nanos: UTIME_NOW }) } else { t }
}

/// The steps of an attribute change by `ctx`, a member of `groups`, in
/// order: mode, then owner and group, then size, then times. Only root may
/// give a file to a group it is not in. A size change through a handle
/// opened for writing is made as root, so that the handle keeps the right
/// it was opened with; through another handle it is refused.
pub open spec fn setattr_plan(handles: Map<u64, crate::client_cache::FileHandleAttributes>, ctx: UserContext, groups: Seq<u32>, a: SetattrArgs) -> Seq<SetattrStep> {
    let chmod = if a.mode is Some { seq![SetattrStep::Chmod { mode: a.mode->0, ctx }] } else { seq![] };
    let times = if a.atime is Some || a.mtime is Some {
        seq![SetattrStep::Utimens { atime: now_or(a.atime, a.atime_now), mtime: now_or(a.mtime, a.mtime_now), ctx }]
    } else {
        seq![]
    };
    if (a.uid is Some || a.gid is Some) && a.gid is Some && ctx.uid != 0 && !groups.contains(a.gid->0) {
        chmod.push(SetattrStep::Fail(ErrorCode::OperationNotPermitted))
    } else {
        let chown = if a.uid is Some || a.gid is Some { seq![SetattrStep::Chown { uid: a.uid, gid: a.gid, ctx }] } else { seq![] };
        if a.size is Some && a.fh is Some && !(handles.contains_key(a.fh->0) && handles[a.fh->0].write) {
            chmod + chown.push(SetattrStep::Fail(ErrorCode::AccessDenied))
        } else {
            let truncate = if a.size is Some {
                let c = if a.fh is Some { UserContext { uid: 0, gid: 0 } } else { ctx };
                seq![SetattrStep::Truncate { size: a.size->0, ctx: c }]
            } else {
                seq![]
            };
            chmod + chown + truncate + times
        }
    }
}

fn contains_u32(v: &Vec<u32>, x: u32) -> (r: bool)
    ensures
        r == v@.contains(x),
{
    let mut i: usize = 0;
    while i < v.len()
        invariant
            i <= v@.len(),
            forall|k: int| 0 <= k < i ==> v@[k] != x,
        decreases v@.len() - i,
    {
        if v[i] == x {
            return true;
        }
        i = i + 1;
    }
    false
}

/// Plans an attribute change; the caller makes the store calls in order
/// and stops at the first that fails or at a `Fail` step.
pub fn plan_setattr(handles: &FileHandleTable, ctx: UserContext, groups: &Vec<u32>, a: SetattrArgs) -> (r: Vec<SetattrStep>)
    ensures
        r@ == setattr_plan(handles@, ctx, groups@, a),
{
    let mut steps: Vec<SetattrStep> = Vec::new();
    match a.mode {
        Some(mode) => steps.push(SetattrStep::Chmod { mode, ctx }),
        None => {},
    }
    let ghost chmod = steps@;
    if a.uid.is_some() || a.gid.is_some() {
        match a.gid {
            Some(g) => {
                if ctx.uid != 0 && !contains_u32(groups, g) {
                    steps.push(SetattrStep::Fail(ErrorCode::OperationNotPermitted));
                    return steps;
                }
            },
            None => {},
        }
        steps.push(SetattrStep::Chown { uid: a.uid, gid: a.gid, ctx });
    }
    match a.size {
        Some(size) => match a.fh {
            Some(h) => {
                if handles.check_write(h) {
                    steps.push(SetattrStep::Truncate { size, ctx: UserContext { uid: 0, gid: 0 } });
                } else {
                    steps.push(SetattrStep::Fail(ErrorCode::AccessDenied));
                    return steps;
                }
            },
            None => steps.push(SetattrStep::Truncate { size, ctx }),
        },
        None => {},
    }
    if a.atime.is_some() || a.mtime.is_some() {
        let atime = if a.atime_now { Some(Timestamp { seconds: 0, nanos: UTIME_NOW }) } else { a.atime };
        let mtime = if a.mtime_now { Some(Timestamp { seconds: 0, nanos: UTIME_NOW }) } else { a.mtime };
        steps.push(SetattrStep::Utimens { atime, mtime, ctx });
    }
    proof {
        let p = setattr_plan(handles@, ctx, groups@, a);
        assert(steps@ =~= p);
    }
    steps
}

} // verus!
