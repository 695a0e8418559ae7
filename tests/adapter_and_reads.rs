use fleetfs::adapter::{as_file_kind, errno_of, plan_setattr, SetattrArgs, SetattrStep, EACCES, EBADFD, EIO, ENOENT};
use fleetfs::client_cache::FileHandleTable;
use fleetfs::metadata::MetadataStorage;
use fleetfs::pipeline::{ReadRequest, ReadResponse};
use fleetfs::types::{ErrorCode, FileKind, Timestamp, UserContext, UTIME_NOW};

fn no_change() -> SetattrArgs {
    SetattrArgs { mode: None, uid: None, gid: None, size: None, atime: None, atime_now: false, mtime: None, mtime_now: false, fh: None }
}

#[test]
fn errors_map_to_errno() {
    assert_eq!(errno_of(ErrorCode::DoesNotExist), ENOENT);
    assert_eq!(errno_of(ErrorCode::DoesNotExist), 2);
    assert_eq!(errno_of(ErrorCode::AccessDenied), EACCES);
    assert_eq!(errno_of(ErrorCode::NotEmpty), 39);
    assert_eq!(errno_of(ErrorCode::OperationNotPermitted), 1);
    assert_eq!(errno_of(ErrorCode::NameTooLong), 36);
    assert_eq!(errno_of(ErrorCode::FileTooLarge), 27);
    assert_eq!(errno_of(ErrorCode::MissingXattrKey), 61);
    assert_eq!(errno_of(ErrorCode::AlreadyExists), 17);
    assert_eq!(errno_of(ErrorCode::InodeDoesNotExist), EBADFD);
    assert_eq!(errno_of(ErrorCode::RaftFailure), EIO);
    assert_eq!(errno_of(ErrorCode::Corrupted), 5);
}

#[test]
fn mknod_modes_give_kinds() {
    assert_eq!(as_file_kind(0o100644), Some(FileKind::File));
    assert_eq!(as_file_kind(0o040755), Some(FileKind::Directory));
    assert_eq!(as_file_kind(0o000644), None);
    assert_eq!(as_file_kind(0o120777), Some(FileKind::Symlink));
    assert_eq!(as_file_kind(0o140755), None);
    assert_eq!(as_file_kind(0o020644), None);
}

#[test]
fn setattr_plans_steps_in_order() {
    let handles = FileHandleTable::new();
    let ctx = UserContext::new(1000, 1000);
    let args = SetattrArgs { mode: Some(0o600), gid: Some(1000), size: Some(10), mtime: Some(Timestamp::new(5, 0)), atime_now: true, ..no_change() };
    let steps = plan_setattr(&handles, ctx, &vec![1000], args);
    assert_eq!(steps, vec![
        SetattrStep::Chmod { mode: 0o600, ctx },
        SetattrStep::Chown { uid: None, gid: Some(1000), ctx },
        SetattrStep::Truncate { size: 10, ctx },
        SetattrStep::Utimens { atime: Some(Timestamp::new(0, UTIME_NOW)), mtime: Some(Timestamp::new(5, 0)), ctx },
    ]);
    assert_eq!(plan_setattr(&handles, ctx, &vec![], no_change()), vec![]);
}

#[test]
fn setattr_refuses_foreign_group_and_handle() {
    let mut handles = FileHandleTable::new();
    let ro = handles.allocate(true, false).unwrap();
    let rw = handles.allocate(true, true).unwrap();
    let ctx = UserContext::new(1000, 1000);
    let steps = plan_setattr(&handles, ctx, &vec![1000], SetattrArgs { mode: Some(0o600), gid: Some(7), ..no_change() });
    assert_eq!(steps, vec![SetattrStep::Chmod { mode: 0o600, ctx }, SetattrStep::Fail(ErrorCode::OperationNotPermitted)]);
    let root_steps = plan_setattr(&handles, UserContext::new(0, 0), &vec![], SetattrArgs { gid: Some(7), ..no_change() });
    assert_eq!(root_steps, vec![SetattrStep::Chown { uid: None, gid: Some(7), ctx: UserContext::new(0, 0) }]);
    let denied = plan_setattr(&handles, ctx, &vec![], SetattrArgs { size: Some(0), fh: Some(ro), ..no_change() });
    assert_eq!(denied, vec![SetattrStep::Fail(ErrorCode::AccessDenied)]);
    let through = plan_setattr(&handles, ctx, &vec![], SetattrArgs { size: Some(0), fh: Some(rw), ..no_change() });
    assert_eq!(through, vec![SetattrStep::Truncate { size: 0, ctx: UserContext::new(0, 0) }]);
}

#[test]
fn reads_are_served_from_the_store() {
    let ctx = UserContext::new(0, 0);
    let mut s = MetadataStorage::new(Timestamp::new(1, 0));
    let (f, attrs) = s.create(1, "f", 0, 0, 0o600, FileKind::File, Timestamp::new(2, 0)).unwrap();
    s.set_xattr(f, "k", &[4, 5], Timestamp::new(3, 0)).unwrap();
    assert!(matches!(s.serve_read(&ReadRequest::Lookup { parent: 1, name: "f", ctx }), ReadResponse::Inode(i) if i == f));
    assert!(matches!(s.serve_read(&ReadRequest::Lookup { parent: 1, name: "g", ctx }), ReadResponse::Error(ErrorCode::DoesNotExist)));
    match s.serve_read(&ReadRequest::Getattr { inode: f }) {
        ReadResponse::FileMetadata(a) => assert_eq!(a.inode, attrs.inode),
        other => panic!("{:?}", other),
    }
    match s.serve_read(&ReadRequest::Readdir { inode: 1 }) {
        ReadResponse::DirectoryListing(v) => assert_eq!(v.len(), 3),
        other => panic!("{:?}", other),
    }
    assert!(matches!(s.serve_read(&ReadRequest::Readdir { inode: f }), ReadResponse::Error(ErrorCode::DoesNotExist)));
    match s.serve_read(&ReadRequest::GetXattr { inode: f, key: "k" }) {
        ReadResponse::Data(d) => assert_eq!(d, vec![4, 5]),
        other => panic!("{:?}", other),
    }
    match s.serve_read(&ReadRequest::ListXattrs { inode: f }) {
        ReadResponse::Xattrs(k) => assert_eq!(k, vec!["k".to_string()]),
        other => panic!("{:?}", other),
    }
    assert!(matches!(s.serve_read(&ReadRequest::Read { inode: f, ctx: UserContext::new(9, 9) }), ReadResponse::Error(ErrorCode::AccessDenied)));
    assert!(matches!(s.serve_read(&ReadRequest::Read { inode: f, ctx }), ReadResponse::Empty));
}
