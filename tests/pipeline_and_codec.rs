use fleetfs::access::check_access;
use fleetfs::frame::{decode_frame, decode_read_payload, encode_frame, encode_read_error, encode_read_response, read_length};
use fleetfs::metadata::MetadataStorage;
use fleetfs::pipeline::{classify, read_ready, Applied, FsRequest, LogEntry, PendingRequests, RequestClass, RequestType, Resolution, Response};
use fleetfs::types::{ErrorCode, FileKind, Timestamp, UserContext};

fn t(s: i64) -> Timestamp {
    Timestamp::new(s, 0)
}

#[test]
fn requests_are_classified() {
    assert_eq!(classify(RequestType::Raft), RequestClass::Control);
    assert_eq!(classify(RequestType::GetLeader), RequestClass::Control);
    assert_eq!(classify(RequestType::LatestCommit), RequestClass::Control);
    assert_eq!(classify(RequestType::Mkdir), RequestClass::Write);
    assert_eq!(classify(RequestType::SetXattr), RequestClass::Write);
    assert_eq!(classify(RequestType::Fsync), RequestClass::Write);
    assert_eq!(classify(RequestType::Lookup), RequestClass::Read);
    assert_eq!(classify(RequestType::Readdir), RequestClass::Read);
    assert_eq!(classify(RequestType::FilesystemChecksum), RequestClass::Read);
    assert!(read_ready(7, 7));
    assert!(!read_ready(6, 7));
}

#[test]
fn apply_builds_responses() {
    let ctx = UserContext::new(0, 0);
    let mut s = MetadataStorage::new(t(1));
    let created = s.apply(&FsRequest::Create { parent: 1, name: "f", uid: 1000, gid: 1000, mode: 0o600, kind: FileKind::File }, t(2));
    let f = match created.response {
        Response::FileMetadata(a) => a.inode,
        other => panic!("{:?}", other),
    };
    let written = s.apply(&FsRequest::Write { inode: f, offset: 0, length: 5, ctx }, t(3));
    assert_eq!(written, Applied { response: Response::Written(5), deleted: None });
    let gone = s.apply(&FsRequest::Unlink { parent: 1, name: "f", ctx }, t(4));
    assert_eq!(gone, Applied { response: Response::Empty, deleted: Some(f) });
    let again = s.apply(&FsRequest::Unlink { parent: 1, name: "f", ctx }, t(5));
    assert_eq!(again.response, Response::Error(ErrorCode::DoesNotExist));
}

#[test]
fn replicas_replaying_one_log_agree() {
    let ctx = UserContext::new(0, 0);
    let log = vec![
        LogEntry { request: FsRequest::Mkdir { parent: 1, name: "a", uid: 0, gid: 0, mode: 0o755 }, timestamp: t(2) },
        LogEntry { request: FsRequest::Create { parent: 2, name: "f", uid: 0, gid: 0, mode: 0o644, kind: FileKind::File }, timestamp: t(3) },
        LogEntry { request: FsRequest::Write { inode: 3, offset: 0, length: 9, ctx }, timestamp: t(4) },
        LogEntry { request: FsRequest::SetXattr { inode: 3, key: "k", value: &[1, 2] }, timestamp: t(5) },
        LogEntry { request: FsRequest::Rename { parent: 2, name: "f", new_parent: 1, new_name: "g", ctx }, timestamp: t(6) },
        LogEntry { request: FsRequest::Utimens { inode: 3, atime: Some(Timestamp::new(0, fleetfs::types::UTIME_NOW)), mtime: None, ctx }, timestamp: t(7) },
    ];
    let mut a = MetadataStorage::new(t(1));
    let mut b = MetadataStorage::new(t(1));
    a.replay(&log);
    b.replay(&log);
    for ino in 1..5u64 {
        assert_eq!(a.get_attributes(ino), b.get_attributes(ino));
        assert_eq!(a.readdir(ino), b.readdir(ino));
        assert_eq!(a.list_xattrs(ino), b.list_xattrs(ino));
    }
    assert_eq!(a.get_attributes(3).unwrap().last_accessed, t(7));
    assert_eq!(a.get_attributes(3).unwrap().size, 9);
    assert_eq!(a.lookup(1, "g", ctx), Ok(Some(3)));
}

#[test]
fn frames_carry_length_prefix() {
    let f = encode_frame(&[1, 2, 3]).unwrap();
    assert_eq!(f, vec![3, 0, 0, 0, 1, 2, 3]);
    assert_eq!(read_length(&[0x10, 0x01, 0, 0]), Some(272));
    assert_eq!(read_length(&[1, 2, 3]), None);
    assert_eq!(decode_frame(&f), Some((4, 7)));
    assert_eq!(decode_frame(&f[..6]), None);
    let big = vec![7u8; 300];
    let fb = encode_frame(&big).unwrap();
    assert_eq!(&fb[..4], &[44, 1, 0, 0]);
    let (s, e) = decode_frame(&fb).unwrap();
    assert_eq!(&fb[s..e], big.as_slice());
}

#[test]
fn fast_read_responses() {
    let ok = encode_read_response(b"hello").unwrap();
    assert_eq!(ok, vec![6, 0, 0, 0, 0, b'h', b'e', b'l', b'l', b'o']);
    let (s, e) = decode_frame(&ok).unwrap();
    let (ds, de) = decode_read_payload(&ok[s..e]).unwrap();
    assert_eq!(&ok[s..e][ds..de], b"hello");
    let err = encode_read_error(ErrorCode::AccessDenied);
    assert_eq!(err, vec![2, 0, 0, 0, 1, 5]);
    assert_eq!(decode_read_payload(&err[4..]), Err(ErrorCode::AccessDenied));
    assert_eq!(decode_read_payload(&[]), Err(ErrorCode::BadResponse));
    assert_eq!(decode_read_payload(&[1, 99]), Err(ErrorCode::BadResponse));
}

#[test]
fn error_codes_on_the_wire() {
    assert_eq!(ErrorCode::DoesNotExist.to_wire(), 1);
    assert_eq!(ErrorCode::Corrupted.to_wire(), 12);
    assert_eq!(ErrorCode::RaftFailure.to_wire(), 13);
    assert_eq!(ErrorCode::Uncategorized.to_wire(), 14);
    assert_eq!(ErrorCode::from_wire(13), Some(ErrorCode::RaftFailure));
    assert_eq!(ErrorCode::from_wire(0), None);
    assert_eq!(ErrorCode::from_wire(15), None);
    assert_eq!(ErrorCode::from_wire(ErrorCode::BadRequest.to_wire()), Some(ErrorCode::BadRequest));
}

#[test]
fn access_check_selects_bits() {
    assert!(check_access(5, 5, 0o000, 0, 0, 7));
    assert!(check_access(5, 6, 0o700, 5, 9, 7));
    assert!(!check_access(5, 6, 0o070, 5, 6, 4));
    assert!(check_access(5, 6, 0o040, 7, 6, 4));
    assert!(!check_access(5, 6, 0o040, 7, 6, 6));
    assert!(check_access(5, 6, 0o002, 7, 8, 2));
}

#[test]
fn pending_requests_settle_once() {
    let mut p = PendingRequests::new();
    assert!(p.register(10, 77));
    assert!(!p.register(10, 78));
    assert!(p.register(11, 79));
    assert_eq!(p.resolve(10, 77), Resolution::Completed);
    assert_eq!(p.resolve(10, 77), Resolution::NotProposedHere);
    assert_eq!(p.resolve(11, 5), Resolution::Superseded(79));
    assert_eq!(p.resolve(12, 1), Resolution::NotProposedHere);
}
