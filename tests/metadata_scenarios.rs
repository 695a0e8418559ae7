use fleetfs::metadata::MetadataStorage;
use fleetfs::types::{ErrorCode, FileKind, Timestamp, UserContext, MAX_FILE_SIZE};

fn root() -> UserContext {
    UserContext::new(0, 0)
}

fn t(s: i64) -> Timestamp {
    Timestamp::new(s, 0)
}

#[test]
fn mkdir_lookup_readdir() {
    let mut s = MetadataStorage::new(t(1));
    let a = s.mkdir(1, "a", 0, 0, 0o755, t(2)).unwrap();
    assert_eq!(a.kind, FileKind::Directory);
    assert_eq!(a.mode, 0o755);
    assert_eq!(a.hardlinks, 2);
    assert_eq!(s.lookup(1, "a", root()), Ok(Some(a.inode)));
    let list = s.readdir(1).unwrap();
    assert_eq!(list.len(), 3);
    assert_eq!(list[0], (1, ".".to_string(), FileKind::Directory));
    assert_eq!(list[1], (1, "..".to_string(), FileKind::Directory));
    assert_eq!(list[2], (a.inode, "a".to_string(), FileKind::Directory));
}

#[test]
fn create_write_getattr() {
    let mut s = MetadataStorage::new(t(1));
    let (f, _) = s.create(1, "f", 1000, 1000, 0o600, FileKind::File, t(2)).unwrap();
    assert_eq!(s.write(f, 0, 5, root(), t(3)), Ok(()));
    assert_eq!(s.get_attributes(f).unwrap().size, 5);
    assert_eq!(s.read(f, UserContext::new(1000, 1000)), Ok(()));
    assert_eq!(s.read(f, UserContext::new(1001, 1001)), Err(ErrorCode::AccessDenied));
}

#[test]
fn hardlink_and_unlink_counts() {
    let mut s = MetadataStorage::new(t(1));
    let (f, _) = s.create(1, "f", 0, 0, 0o644, FileKind::File, t(2)).unwrap();
    assert_eq!(s.hardlink(f, 1, "g", root(), t(3)), Ok(()));
    assert_eq!(s.get_attributes(f).unwrap().hardlinks, 2);
    assert_eq!(s.unlink(1, "f", root(), t(4)), Ok(None));
    assert_eq!(s.get_attributes(f).unwrap().hardlinks, 1);
    assert_eq!(s.unlink(1, "g", root(), t(5)), Ok(Some(f)));
    assert_eq!(s.get_attributes(f), Err(ErrorCode::InodeDoesNotExist));
}

#[test]
fn sticky_directory_unlink() {
    let mut s = MetadataStorage::new(t(1));
    let d = s.mkdir(1, "d", 0, 0, 0o1777, t(2)).unwrap().inode;
    s.create(d, "x", 1000, 1000, 0o644, FileKind::File, t(3)).unwrap();
    assert_eq!(s.unlink(d, "x", UserContext::new(1001, 1001), t(4)), Err(ErrorCode::AccessDenied));
    assert!(s.unlink(d, "x", UserContext::new(1000, 1000), t(5)).is_ok());
    assert_eq!(s.lookup(d, "x", root()), Ok(None));
}

#[test]
fn rename_within_root() {
    let mut s = MetadataStorage::new(t(1));
    let a = s.mkdir(1, "a", 0, 0, 0o755, t(2)).unwrap().inode;
    assert_eq!(s.rename(1, "a", 1, "b", root(), t(3)), Ok(None));
    let list = s.readdir(1).unwrap();
    assert!(list.iter().all(|e| e.1 != "a"));
    assert!(list.iter().any(|e| e.1 == "b" && e.0 == a));
    let inner = s.readdir(a).unwrap();
    assert_eq!(inner[1], (1, "..".to_string(), FileKind::Directory));
}

#[test]
fn rename_moves_parent_of_directory() {
    let mut s = MetadataStorage::new(t(1));
    let a = s.mkdir(1, "a", 0, 0, 0o755, t(2)).unwrap().inode;
    let b = s.mkdir(1, "b", 0, 0, 0o755, t(2)).unwrap().inode;
    assert_eq!(s.rename(1, "a", b, "a", root(), t(3)), Ok(None));
    assert_eq!(s.readdir(a).unwrap()[1].0, b);
    assert_eq!(s.lookup(b, "a", root()), Ok(Some(a)));
    assert_eq!(s.lookup(1, "a", root()), Ok(None));
}

#[test]
fn long_names_are_refused() {
    let mut s = MetadataStorage::new(t(1));
    let long = "n".repeat(256);
    let ok = "n".repeat(255);
    let (f, _) = s.create(1, "f", 0, 0, 0o644, FileKind::File, t(2)).unwrap();
    assert_eq!(s.lookup(1, &long, root()), Err(ErrorCode::NameTooLong));
    assert_eq!(s.create(1, &long, 0, 0, 0o644, FileKind::File, t(3)).unwrap_err(), ErrorCode::NameTooLong);
    assert_eq!(s.mkdir(1, &long, 0, 0, 0o755, t(3)).unwrap_err(), ErrorCode::NameTooLong);
    assert_eq!(s.unlink(1, &long, root(), t(3)), Err(ErrorCode::NameTooLong));
    assert_eq!(s.rmdir(1, &long, root(), t(3)), Err(ErrorCode::NameTooLong));
    assert_eq!(s.hardlink(f, 1, &long, root(), t(3)), Err(ErrorCode::NameTooLong));
    assert_eq!(s.rename(1, "f", 1, &long, root(), t(3)), Err(ErrorCode::NameTooLong));
    assert_eq!(s.rename(1, &long, 1, "g", root(), t(3)), Err(ErrorCode::NameTooLong));
    assert!(s.create(1, &ok, 0, 0, 0o644, FileKind::File, t(3)).is_ok());
}

#[test]
fn truncate_past_limit() {
    let mut s = MetadataStorage::new(t(1));
    let (f, _) = s.create(1, "f", 0, 0, 0o644, FileKind::File, t(2)).unwrap();
    assert_eq!(s.truncate(f, MAX_FILE_SIZE + 1, root(), t(3)), Err(ErrorCode::FileTooLarge));
    assert_eq!(s.truncate(f, MAX_FILE_SIZE, root(), t(3)), Ok(()));
    assert_eq!(s.get_attributes(f).unwrap().size, 1099511627776);
}

#[test]
fn rmdir_non_empty_directory() {
    let mut s = MetadataStorage::new(t(1));
    let d = s.mkdir(1, "d", 0, 0, 0o755, t(2)).unwrap().inode;
    s.create(d, "x", 0, 0, 0o644, FileKind::File, t(3)).unwrap();
    assert_eq!(s.rmdir(1, "d", root(), t(4)), Err(ErrorCode::NotEmpty));
    s.unlink(d, "x", root(), t(5)).unwrap();
    assert_eq!(s.rmdir(1, "d", root(), t(6)), Ok(()));
    assert_eq!(s.get_attributes(d), Err(ErrorCode::InodeDoesNotExist));
    assert_eq!(s.readdir(d), Err(ErrorCode::DoesNotExist));
}

#[test]
fn rename_over_non_empty_directory() {
    let mut s = MetadataStorage::new(t(1));
    s.mkdir(1, "a", 0, 0, 0o755, t(2)).unwrap();
    let b = s.mkdir(1, "b", 0, 0, 0o755, t(2)).unwrap().inode;
    s.create(b, "x", 0, 0, 0o644, FileKind::File, t(3)).unwrap();
    assert_eq!(s.rename(1, "a", 1, "b", root(), t(4)), Err(ErrorCode::NotEmpty));
}

#[test]
fn sticky_unlink_third_party_refused() {
    let mut s = MetadataStorage::new(t(1));
    let d = s.mkdir(1, "d", 0, 0, 0o1777, t(2)).unwrap().inode;
    s.create(d, "x", 1000, 1000, 0o666, FileKind::File, t(3)).unwrap();
    assert_eq!(s.unlink(d, "x", UserContext::new(1002, 1002), t(4)), Err(ErrorCode::AccessDenied));
    assert_eq!(s.unlink(d, "x", UserContext::new(0, 0), t(4)), Ok(Some(3)));
}

#[test]
fn create_then_getattr_matches() {
    let mut s = MetadataStorage::new(t(1));
    let (f, attrs) = s.create(1, "f", 7, 8, 0o6755, FileKind::File, t(9)).unwrap();
    assert_eq!(s.get_attributes(f), Ok(attrs));
    assert_eq!(attrs.mode, 0o755);
    assert_eq!(attrs.hardlinks, 1);
    assert_eq!(attrs.size, 0);
    assert_eq!(attrs.last_modified, t(9));
    let root_attrs = s.get_attributes(1).unwrap();
    assert_eq!(root_attrs.last_modified, t(9));
    assert_eq!(root_attrs.last_metadata_changed, t(9));
}

#[test]
fn xattr_round_trip() {
    let mut s = MetadataStorage::new(t(1));
    let (f, _) = s.create(1, "f", 0, 0, 0o644, FileKind::File, t(2)).unwrap();
    assert_eq!(s.set_xattr(f, "user.k", &[1, 2, 3], t(3)), Ok(()));
    assert_eq!(s.get_xattr(f, "user.k"), Ok(vec![1, 2, 3]));
    assert_eq!(s.list_xattrs(f), Ok(vec!["user.k".to_string()]));
    assert_eq!(s.get_attributes(f).unwrap().last_metadata_changed, t(3));
    assert_eq!(s.set_xattr(f, "user.k", &[9], t(4)), Ok(()));
    assert_eq!(s.get_xattr(f, "user.k"), Ok(vec![9]));
    assert_eq!(s.list_xattrs(f).unwrap().len(), 1);
    assert_eq!(s.remove_xattr(f, "user.k", t(5)), Ok(()));
    assert_eq!(s.get_xattr(f, "user.k"), Err(ErrorCode::MissingXattrKey));
    assert_eq!(s.get_xattr(99, "user.k"), Err(ErrorCode::InodeDoesNotExist));
    assert_eq!(s.list_xattrs(99), Ok(vec![]));
}

#[test]
fn size_follows_writes_and_truncate() {
    let mut s = MetadataStorage::new(t(1));
    let (f, _) = s.create(1, "f", 0, 0, 0o644, FileKind::File, t(2)).unwrap();
    s.write(f, 10, 5, root(), t(3)).unwrap();
    assert_eq!(s.get_attributes(f).unwrap().size, 15);
    s.write(f, 0, 4, root(), t(3)).unwrap();
    assert_eq!(s.get_attributes(f).unwrap().size, 15);
    s.truncate(f, 3, root(), t(4)).unwrap();
    assert_eq!(s.get_attributes(f).unwrap().size, 3);
    s.write(f, 100, 1, root(), t(5)).unwrap();
    assert_eq!(s.get_attributes(f).unwrap().size, 101);
    assert_eq!(s.write(f, MAX_FILE_SIZE, 1, root(), t(5)), Err(ErrorCode::FileTooLarge));
}

#[test]
fn lookup_follows_history() {
    let mut s = MetadataStorage::new(t(1));
    assert_eq!(s.lookup(1, "f", root()), Ok(None));
    let (f, _) = s.create(1, "f", 0, 0, 0o644, FileKind::File, t(2)).unwrap();
    assert_eq!(s.lookup(1, "f", root()), Ok(Some(f)));
    s.rename(1, "f", 1, "g", root(), t(3)).unwrap();
    assert_eq!(s.lookup(1, "f", root()), Ok(None));
    assert_eq!(s.lookup(1, "g", root()), Ok(Some(f)));
    s.hardlink(f, 1, "h", root(), t(4)).unwrap();
    assert_eq!(s.lookup(1, "h", root()), Ok(Some(f)));
    s.unlink(1, "g", root(), t(5)).unwrap();
    assert_eq!(s.lookup(1, "g", root()), Ok(None));
    assert_eq!(s.lookup(1, "h", root()), Ok(Some(f)));
}

#[test]
fn entries_point_to_live_inodes() {
    let mut s = MetadataStorage::new(t(1));
    let d = s.mkdir(1, "d", 0, 0, 0o755, t(2)).unwrap().inode;
    let (f, _) = s.create(d, "f", 0, 0, 0o644, FileKind::File, t(3)).unwrap();
    s.hardlink(f, 1, "l", root(), t(4)).unwrap();
    s.unlink(d, "f", root(), t(5)).unwrap();
    s.create(1, "g", 0, 0, 0o644, FileKind::File, t(6)).unwrap();
    s.unlink(1, "g", root(), t(7)).unwrap();
    for dir in [1u64, d] {
        for (ino, name, _) in s.readdir(dir).unwrap() {
            let attrs = s.get_attributes(ino).unwrap();
            assert!(attrs.hardlinks > 0, "{}", name);
        }
    }
    assert_eq!(s.get_attributes(f).unwrap().hardlinks, 1);
}

#[test]
fn error_variants_of_store() {
    let mut s = MetadataStorage::new(t(1));
    let user = UserContext::new(1000, 1000);
    assert_eq!(s.get_attributes(42), Err(ErrorCode::InodeDoesNotExist));
    assert_eq!(s.unlink(1, "missing", root(), t(2)), Err(ErrorCode::DoesNotExist));
    s.create(1, "f", 0, 0, 0o600, FileKind::File, t(2)).unwrap();
    assert_eq!(s.create(1, "f", 0, 0, 0o600, FileKind::File, t(3)).unwrap_err(), ErrorCode::AlreadyExists);
    assert_eq!(s.mkdir(1, "f", 0, 0, 0o755, t(3)).unwrap_err(), ErrorCode::AlreadyExists);
    assert_eq!(s.chmod(2, 0o777, user, t(3)), Err(ErrorCode::OperationNotPermitted));
    assert_eq!(s.truncate(2, 1, user, t(3)), Err(ErrorCode::AccessDenied));
    assert_eq!(s.rmdir(1, "f", root(), t(3)), Err(ErrorCode::OperationNotPermitted));
    let d = s.mkdir(1, "d", 0, 0, 0o755, t(3)).unwrap().inode;
    assert_eq!(s.hardlink(d, 1, "d2", root(), t(4)), Err(ErrorCode::OperationNotPermitted));
    assert_eq!(s.create(d, "x", 1000, 1000, 0o644, FileKind::File, t(4)).unwrap_err(), ErrorCode::AccessDenied);
}

#[test]
fn chmod_chown_utimens() {
    let mut s = MetadataStorage::new(t(1));
    let (f, _) = s.create(1, "f", 1000, 1000, 0o644, FileKind::File, t(2)).unwrap();
    let owner = UserContext::new(1000, 1000);
    assert_eq!(s.chmod(f, 0o4755, owner, t(3)), Ok(()));
    assert_eq!(s.get_attributes(f).unwrap().mode, 0o755);
    assert_eq!(s.chown(f, Some(1000), None, owner, t(4)), Ok(()));
    assert_eq!(s.chown(f, Some(5), None, owner, t(4)), Err(ErrorCode::OperationNotPermitted));
    assert_eq!(s.chown(f, None, Some(7), owner, t(5)), Ok(()));
    assert_eq!(s.get_attributes(f).unwrap().gid, 7);
    assert_eq!(s.chown(f, Some(5), Some(6), root(), t(6)), Ok(()));
    let a = s.get_attributes(f).unwrap();
    assert_eq!((a.uid, a.gid, a.last_metadata_changed), (5, 6, t(6)));
    let other = UserContext::new(1234, 1234);
    assert_eq!(s.utimens(f, Some(t(50)), None, other, t(7)), Err(ErrorCode::AccessDenied));
    s.chmod(f, 0o666, root(), t(8)).unwrap();
    assert_eq!(s.utimens(f, Some(t(50)), None, other, t(9)), Err(ErrorCode::OperationNotPermitted));
    let now_marker = Timestamp::new(0, fleetfs::types::UTIME_NOW);
    assert_eq!(s.utimens(f, Some(now_marker), Some(now_marker), other, t(10)), Ok(()));
    let a = s.get_attributes(f).unwrap();
    assert_eq!((a.last_accessed, a.last_modified), (t(10), t(10)));
    assert_eq!(s.utimens(f, Some(t(50)), Some(t(60)), root(), t(11)), Ok(()));
    let a = s.get_attributes(f).unwrap();
    assert_eq!((a.last_accessed, a.last_modified), (t(50), t(60)));
}

#[test]
fn directories_come_only_from_mkdir() {
    let mut s = MetadataStorage::new(t(1));
    assert_eq!(s.create(1, "x", 0, 0, 0o755, FileKind::Directory, t(2)).unwrap_err(), ErrorCode::OperationNotPermitted);
    let d = s.mkdir(1, "d", 0, 0, 0o755, t(2)).unwrap().inode;
    assert_eq!(s.unlink(1, "d", root(), t(3)), Err(ErrorCode::OperationNotPermitted));
    assert_eq!(s.lookup(1, "d", root()), Ok(Some(d)));
    assert_eq!(s.readdir(d).unwrap()[1].0, 1);
}

#[test]
fn hardlink_onto_taken_name() {
    let mut s = MetadataStorage::new(t(1));
    let (f, _) = s.create(1, "f", 0, 0, 0o644, FileKind::File, t(2)).unwrap();
    let d = s.mkdir(1, "d", 0, 0, 0o755, t(2)).unwrap().inode;
    assert_eq!(s.hardlink(f, 1, "d", root(), t(3)), Err(ErrorCode::AlreadyExists));
    assert_eq!(s.lookup(1, "d", root()), Ok(Some(d)));
    assert_eq!(s.get_attributes(f).unwrap().hardlinks, 1);
}

#[test]
fn rename_replaces_destination() {
    let mut s = MetadataStorage::new(t(1));
    let (f, _) = s.create(1, "f", 0, 0, 0o644, FileKind::File, t(2)).unwrap();
    let (g, _) = s.create(1, "g", 0, 0, 0o644, FileKind::File, t(2)).unwrap();
    assert_eq!(s.rename(1, "f", 1, "g", root(), t(3)), Ok(Some(g)));
    assert_eq!(s.get_attributes(g), Err(ErrorCode::InodeDoesNotExist));
    assert_eq!(s.lookup(1, "g", root()), Ok(Some(f)));
    let (h, _) = s.create(1, "h", 0, 0, 0o644, FileKind::File, t(4)).unwrap();
    s.hardlink(h, 1, "h2", root(), t(4)).unwrap();
    assert_eq!(s.rename(1, "g", 1, "h", root(), t(5)), Ok(None));
    assert_eq!(s.get_attributes(h).unwrap().hardlinks, 1);
    let a = s.mkdir(1, "a", 0, 0, 0o755, t(6)).unwrap().inode;
    let b = s.mkdir(1, "b", 0, 0, 0o755, t(6)).unwrap().inode;
    assert_eq!(s.rename(1, "a", 1, "b", root(), t(7)), Ok(None));
    assert_eq!(s.get_attributes(b), Err(ErrorCode::InodeDoesNotExist));
    assert_eq!(s.readdir(b), Err(ErrorCode::DoesNotExist));
    assert_eq!(s.lookup(1, "b", root()), Ok(Some(a)));
}

#[test]
fn rename_onto_own_link_drops_source() {
    let mut s = MetadataStorage::new(t(1));
    let (f, _) = s.create(1, "f", 0, 0, 0o644, FileKind::File, t(2)).unwrap();
    s.hardlink(f, 1, "g", root(), t(3)).unwrap();
    assert_eq!(s.rename(1, "f", 1, "g", root(), t(4)), Ok(None));
    assert_eq!(s.lookup(1, "f", root()), Ok(None));
    assert_eq!(s.lookup(1, "g", root()), Ok(Some(f)));
    let a = s.get_attributes(f).unwrap();
    assert_eq!((a.hardlinks, a.last_metadata_changed), (1, t(4)));
    assert_eq!(s.get_attributes(1).unwrap().last_modified, t(4));
}

#[test]
fn rename_onto_itself_touches_times() {
    let mut s = MetadataStorage::new(t(1));
    let (f, _) = s.create(1, "f", 0, 0, 0o644, FileKind::File, t(2)).unwrap();
    assert_eq!(s.rename(1, "f", 1, "f", root(), t(5)), Ok(None));
    assert_eq!(s.lookup(1, "f", root()), Ok(Some(f)));
    let a = s.get_attributes(f).unwrap();
    assert_eq!((a.hardlinks, a.last_metadata_changed), (1, t(5)));
}

#[test]
fn rename_into_own_subtree_refused() {
    let mut s = MetadataStorage::new(t(1));
    let a = s.mkdir(1, "a", 0, 0, 0o755, t(2)).unwrap().inode;
    let b = s.mkdir(a, "b", 0, 0, 0o755, t(2)).unwrap().inode;
    assert_eq!(s.rename(1, "a", a, "x", root(), t(3)), Err(ErrorCode::BadRequest));
    assert_eq!(s.rename(1, "a", b, "x", root(), t(3)), Err(ErrorCode::BadRequest));
    assert_eq!(s.rename(a, "b", 1, "b", root(), t(4)), Ok(None));
    assert_eq!(s.readdir(b).unwrap()[1].0, 1);
}

#[test]
fn unlink_directory_checks_permission_first() {
    let mut s = MetadataStorage::new(t(1));
    let d = s.mkdir(1, "d", 0, 0, 0o1777, t(2)).unwrap().inode;
    s.mkdir(d, "sub", 1000, 1000, 0o755, t(3)).unwrap();
    assert_eq!(s.unlink(d, "sub", UserContext::new(1001, 1001), t(4)), Err(ErrorCode::AccessDenied));
    assert_eq!(s.unlink(d, "sub", UserContext::new(1000, 1000), t(4)), Err(ErrorCode::OperationNotPermitted));
}

#[test]
fn create_taken_name_before_kind() {
    let mut s = MetadataStorage::new(t(1));
    s.create(1, "f", 0, 0, 0o644, FileKind::File, t(2)).unwrap();
    assert_eq!(s.create(1, "f", 0, 0, 0o755, FileKind::Directory, t(3)).unwrap_err(), ErrorCode::AlreadyExists);
    assert_eq!(s.create(1, "g", 0, 0, 0o755, FileKind::Directory, t(3)).unwrap_err(), ErrorCode::OperationNotPermitted);
}
