//! Request classification and the apply step of the replicated log.
use std::collections::HashMap;
use vstd::prelude::*;
use crate::laws::law_lookup_follows_entries;
use crate::metadata::{bytes_result, lists_dir, lists_keys, Inode, MetadataStorage};
use crate::model::{FsModel, InodeAttributes};
use crate::invariants::{
    lemma_attr_ops_wf, lemma_create_wf, lemma_hardlink_wf, lemma_mkdir_wf, lemma_rename_wf,
    lemma_rmdir_wf, lemma_unlink_wf,
};
use crate::types::{ErrorCode, FileKind, Timestamp, UserContext};

verus! {

broadcast use vstd::std_specs::hash::group_hash_axioms;

/// The kinds of request that travel on the wire.
#[derive(Clone, Copy, Debug, PartialEq, Eq, Structural)]
pub enum RequestType {
    GetLeader,
    LatestCommit,
    Raft,
    FilesystemCheck,
    FilesystemChecksum,
    Lookup,
    Getattr,
    Mkdir,
    Create,
    Unlink,
    Rmdir,
    Rename,
    Hardlink,
    Read,
    Write,
    Truncate,
    Chmod,
    Chown,
    Utimens,
    Readdir,
    GetXattr,
    SetXattr,
    ListXattrs,
    RemoveXattr,
    Fsync,
}

/// How a node handles a request.
#[derive(Clone, Copy, Debug, PartialEq, Eq, Structural)]
pub enum RequestClass {
    /// Log-control traffic: handled at once, never proposed.
    Control,
    /// Changes state: proposed through the log and answered once applied.
    Write,
    /// Reads state: served locally once the node has applied everything the
    /// leader had committed when the request arrived.
    Read,
}

pub open spec fn class_of(t: RequestType) -> RequestClass {
    match t {
        RequestType::GetLeader | RequestType::LatestCommit | RequestType::Raft => RequestClass::Control,
        RequestType::Mkdir | RequestType::Create | RequestType::Unlink | RequestType::Rmdir
        | RequestType::Rename | RequestType::Hardlink | RequestType::Write | RequestType::Truncate
        | RequestType::Chmod | RequestType::Chown | RequestType::Utimens | RequestType::SetXattr
        | RequestType::RemoveXattr | RequestType::Fsync => RequestClass::Write,
        _ => RequestClass::Read,
    }
}

/// Decides whether a request is log control, a write or a read.
pub fn classify(t: RequestType) -> (r: RequestClass)
    ensures
        r == class_of(t),
{
    match t {
        RequestType::GetLeader | RequestType::LatestCommit | RequestType::Raft => RequestClass::Control,
        RequestType::Mkdir | RequestType::Create | RequestType::Unlink | RequestType::Rmdir
        | RequestType::Rename | RequestType::Hardlink | RequestType::Write | RequestType::Truncate
        | RequestType::Chmod | RequestType::Chown | RequestType::Utimens | RequestType::SetXattr
        | RequestType::RemoveXattr | RequestType::Fsync => RequestClass::Write,
        _ => RequestClass::Read,
    }
}

/// Whether a read may be served: the local state machine has applied every
/// entry up to the index that the leader reported as committed.
pub fn read_ready(applied_index: u64, leader_commit: u64) -> (r: bool)
    ensures
        r == (applied_index >= leader_commit),
{
    applied_index >= leader_commit
}

/// A state-changing request, as the log carries it. Names borrow from the
/// buffer that holds the entry.
#[derive(Clone, Copy, Debug)]
#[allow(inconsistent_fields)]
pub enum FsRequest<'a> {
    Mkdir { parent: u64, name: &'a str, uid: u32, gid: u32, mode: u16 },
    Create { parent: u64, name: &'a str, uid: u32, gid: u32, mode: u16, kind: FileKind },
    Unlink { parent: u64, name: &'a str, ctx: UserContext },
    Rmdir { parent: u64, name: &'a str, ctx: UserContext },
    Rename { parent: u64, name: &'a str, new_parent: u64, new_name: &'a str, ctx: UserContext },
    Hardlink { inode: u64, new_parent: u64, new_name: &'a str, ctx: UserContext },
    Write { inode: u64, offset: u64, length: u32, ctx: UserContext },
    Truncate { inode: u64, new_length: u64, ctx: UserContext },
    Chmod { inode: u64, mode: u32, ctx: UserContext },
    Chown { inode: u64, uid: Option<u32>, gid: Option<u32>, ctx: UserContext },
    Utimens { inode: u64, atime: Option<Timestamp>, mtime: Option<Timestamp>, ctx: UserContext },
    SetXattr { inode: u64, key: &'a str, value: &'a [u8] },
    RemoveXattr { inode: u64, key: &'a str },
    Fsync { inode: u64 },
}

/// A committed log entry: the request and the time stamped on it when it
/// was proposed, so that every replica applies the same time.
#[derive(Clone, Copy, Debug)]
pub struct LogEntry<'a> {
    pub request: FsRequest<'a>,
    pub timestamp: Timestamp,
}

/// The answer to a state-changing request.
#[derive(Clone, Copy, Debug, PartialEq, Eq, Structural)]
pub enum Response {
    Empty,
    FileMetadata(InodeAttributes),
    Written(u32),
    Error(ErrorCode),
}

/// What applying one entry produced: the answer, and the inode whose data
/// is to be deleted, if the entry removed one.
#[derive(Clone, Copy, Debug, PartialEq, Eq, Structural)]
pub struct Applied {
    pub response: Response,
    pub deleted: Option<Inode>,
}

pub open spec fn unit_response(r: Result<(), ErrorCode>) -> Response {
    match r {
        Ok(_) => Response::Empty,
        Err(e) => Response::Error(e),
    }
}

impl<'a> FsRequest<'a> {
    pub open spec fn request_type(self) -> RequestType {
        match self {
            FsRequest::Mkdir { .. } => RequestType::Mkdir,
            FsRequest::Create { .. } => RequestType::Create,
            FsRequest::Unlink { .. } => RequestType::Unlink,
            FsRequest::Rmdir { .. } => RequestType::Rmdir,
            FsRequest::Rename { .. } => RequestType::Rename,
            FsRequest::Hardlink { .. } => RequestType::Hardlink,
            FsRequest::Write { .. } => RequestType::Write,
            FsRequest::Truncate { .. } => RequestType::Truncate,
            FsRequest::Chmod { .. } => RequestType::Chmod,
            FsRequest::Chown { .. } => RequestType::Chown,
            FsRequest::Utimens { .. } => RequestType::Utimens,
            FsRequest::SetXattr { .. } => RequestType::SetXattr,
            FsRequest::RemoveXattr { .. } => RequestType::RemoveXattr,
            FsRequest::Fsync { .. } => RequestType::Fsync,
        }
    }

    /// The new state, the answer and the inode to delete after applying
    /// this request at time `now` to `m`.
    pub open spec fn apply_to(self, m: FsModel, now: Timestamp) -> (FsModel, Applied) {
        match self {
            FsRequest::Mkdir { parent, name, uid, gid, mode } => {
                let (m2, r) = m.mkdir(parent, name, uid, gid, mode, now);
                (m2, Applied {
                    response: match r { Ok(a) => Response::FileMetadata(a), Err(e) => Response::Error(e) },
                    deleted: None,
                })
            },
            FsRequest::Create { parent, name, uid, gid, mode, kind } => {
                let (m2, r) = m.create(parent, name, uid, gid, mode, kind, now);
                (m2, Applied {
                    response: match r { Ok((_, a)) => Response::FileMetadata(a), Err(e) => Response::Error(e) },
                    deleted: None,
                })
            },
            FsRequest::Unlink { parent, name, ctx } => {
                let (m2, r) = m.unlink(parent, name, ctx, now);
                (m2, match r {
                    Ok(d) => Applied { response: Response::Empty, deleted: d },
                    Err(e) => Applied { response: Response::Error(e), deleted: None },
                })
            },
            FsRequest::Rmdir { parent, name, ctx } => {
                let (m2, r) = m.rmdir(parent, name, ctx, now);
                (m2, Applied { response: unit_response(r), deleted: None })
            },
            FsRequest::Rename { parent, name, new_parent, new_name, ctx } => {
                let (m2, r) = m.rename(parent, name, new_parent, new_name, ctx, now);
                (m2, match r {
                    Ok(d) => Applied { response: Response::Empty, deleted: d },
                    Err(e) => Applied { response: Response::Error(e), deleted: None },
                })
            },
            FsRequest::Hardlink { inode, new_parent, new_name, ctx } => {
                let (m2, r) = m.hardlink(inode, new_parent, new_name, ctx, now);
                (m2, Applied { response: unit_response(r), deleted: None })
            },
            FsRequest::Write { inode, offset, length, ctx } => {
                let (m2, r) = m.write(inode, offset, length, ctx, now);
                (m2, Applied {
                    response: match r { Ok(_) => Response::Written(length), Err(e) => Response::Error(e) },
                    deleted: None,
                })
            },
            FsRequest::Truncate { inode, new_length, ctx } => {
                let (m2, r) = m.truncate(inode, new_length, ctx, now);
                (m2, Applied { response: unit_response(r), deleted: None })
            },
            FsRequest::Chmod { inode, mode, ctx } => {
                let (m2, r) = m.chmod(inode, mode, ctx, now);
                (m2, Applied { response: unit_response(r), deleted: None })
            },
            FsRequest::Chown { inode, uid, gid, ctx } => {
                let (m2, r) = m.chown(inode, uid, gid, ctx, now);
                (m2, Applied { response: unit_response(r), deleted: None })
            },
            FsRequest::Utimens { inode, atime, mtime, ctx } => {
                let (m2, r) = m.utimens(inode, atime, mtime, ctx, now);
                (m2, Applied { response: unit_response(r), deleted: None })
            },
            FsRequest::SetXattr { inode, key, value } => {
                let (m2, r) = m.set_xattr(inode, key@, value@, now);
                (m2, Applied { response: unit_response(r), deleted: None })
            },
            FsRequest::RemoveXattr { inode, key } => {
                let (m2, r) = m.remove_xattr(inode, key@, now);
                (m2, Applied { response: unit_response(r), deleted: None })
            },
            FsRequest::Fsync { .. } => (m, Applied { response: Response::Empty, deleted: None }),
        }
    }
}

/// The state after applying `log`, in order, to `m`.
pub open spec fn replay_log<'a>(m: FsModel, log: Seq<LogEntry<'a>>) -> FsModel
    decreases log.len(),
{
    if log.len() == 0 {
        m
    } else {
        let e = log.last();
        e.request.apply_to(replay_log(m, log.drop_last()), e.timestamp).0
    }
}

/// Applying any request keeps the namespace well formed.
pub proof fn lemma_apply_wf<'a>(m: FsModel, req: FsRequest<'a>, now: Timestamp)
    requires
        m.wf(),
    ensures
        req.apply_to(m, now).0.wf(),
{
    match req {
        FsRequest::Mkdir { parent, name, uid, gid, mode } => lemma_mkdir_wf(m, parent, name, uid, gid, mode, now),
        FsRequest::Create { parent, name, uid, gid, mode, kind } => lemma_create_wf(m, parent, name, uid, gid, mode, kind, now),
        FsRequest::Unlink { parent, name, ctx } => lemma_unlink_wf(m, parent, name, ctx, now),
        FsRequest::Rmdir { parent, name, ctx } => lemma_rmdir_wf(m, parent, name, ctx, now),
        FsRequest::Rename { parent, name, new_parent, new_name, ctx } => lemma_rename_wf(m, parent, name, new_parent, new_name, ctx, now),
        FsRequest::Hardlink { inode, new_parent, new_name, ctx } => lemma_hardlink_wf(m, inode, new_parent, new_name, ctx, now),
        FsRequest::Write { inode, offset, length, ctx } => {
            lemma_attr_ops_wf(m, inode, ctx, now);
            assert(m.write(inode, offset, length, ctx, now).0.wf());
        },
        FsRequest::Truncate { inode, new_length, ctx } => {
            lemma_attr_ops_wf(m, inode, ctx, now);
            assert(m.truncate(inode, new_length, ctx, now).0.wf());
        },
        FsRequest::Chmod { inode, mode, ctx } => {
            lemma_attr_ops_wf(m, inode, ctx, now);
            assert(m.chmod(inode, mode, ctx, now).0.wf());
        },
        FsRequest::Chown { inode, uid, gid, ctx } => {
            lemma_attr_ops_wf(m, inode, ctx, now);
            assert(m.chown(inode, uid, gid, ctx, now).0.wf());
        },
        FsRequest::Utimens { inode, atime, mtime, ctx } => {
            lemma_attr_ops_wf(m, inode, ctx, now);
            assert(m.utimens(inode, atime, mtime, ctx, now).0.wf());
        },
        FsRequest::SetXattr { inode, key, value } => {
            lemma_attr_ops_wf(m, inode, UserContext { uid: 0, gid: 0 }, now);
            assert(m.set_xattr(inode, key@, value@, now).0.wf());
        },
        FsRequest::RemoveXattr { inode, key } => {
            lemma_attr_ops_wf(m, inode, UserContext { uid: 0, gid: 0 }, now);
            assert(m.remove_xattr(inode, key@, now).0.wf());
        },
        FsRequest::Fsync { .. } => {},
    }
}

/// After any sequence of entries, the namespace is well formed: every entry
/// names a live inode and no live inode has zero links.
pub proof fn law_replay_keeps_invariant<'a>(m: FsModel, log: Seq<LogEntry<'a>>)
    requires
        m.wf(),
    ensures
        replay_log(m, log).wf(),
    decreases log.len(),
{
    if log.len() > 0 {
        law_replay_keeps_invariant(m, log.drop_last());
        lemma_apply_wf(replay_log(m, log.drop_last()), log.last().request, log.last().timestamp);
    }
}

/// Two replicas that start from the same state and apply the same log end
/// in the same state.
pub proof fn law_replicas_agree<'a>(a: FsModel, b: FsModel, log: Seq<LogEntry<'a>>)
    requires
        a == b,
    ensures
        replay_log(a, log) == replay_log(b, log),
{
}

impl MetadataStorage {
    /// Applies one committed request at time `now`.
    pub fn apply(&mut self, req: &FsRequest, now: Timestamp) -> (r: Applied)
        requires
            old(self).wf(),
        ensures
            final(self).wf(),
            (final(self).model(), r) == req.apply_to(old(self).model(), now),
    {
        match *req {
            FsRequest::Mkdir { parent, name, uid, gid, mode } => {
                let response = match self.mkdir(parent, name, uid, gid, mode, now) {
                    Ok(a) => Response::FileMetadata(a),
                    Err(e) => Response::Error(e),
                };
                Applied { response, deleted: None }
            },
            FsRequest::Create { parent, name, uid, gid, mode, kind } => {
                let response = match self.create(parent, name, uid, gid, mode, kind, now) {
                    Ok((_, a)) => Response::FileMetadata(a),
                    Err(e) => Response::Error(e),
                };
                Applied { response, deleted: None }
            },
            FsRequest::Unlink { parent, name, ctx } => match self.unlink(parent, name, ctx, now) {
                Ok(d) => Applied { response: Response::Empty, deleted: d },
                Err(e) => Applied { response: Response::Error(e), deleted: None },
            },
            FsRequest::Rmdir { parent, name, ctx } => {
                let r = self.rmdir(parent, name, ctx, now);
                Applied { response: unit_response_of(r), deleted: None }
            },
            FsRequest::Rename { parent, name, new_parent, new_name, ctx } => match self.rename(parent, name, new_parent, new_name, ctx, now) {
                Ok(d) => Applied { response: Response::Empty, deleted: d },
                Err(e) => Applied { response: Response::Error(e), deleted: None },
            },
            FsRequest::Hardlink { inode, new_parent, new_name, ctx } => {
                let r = self.hardlink(inode, new_parent, new_name, ctx, now);
                Applied { response: unit_response_of(r), deleted: None }
            },
            FsRequest::Write { inode, offset, length, ctx } => {
                let response = match self.write(inode, offset, length, ctx, now) {
                    Ok(_) => Response::Written(length),
                    Err(e) => Response::Error(e),
                };
                Applied { response, deleted: None }
            },
            FsRequest::Truncate { inode, new_length, ctx } => {
                let r = self.truncate(inode, new_length, ctx, now);
                Applied { response: unit_response_of(r), deleted: None }
            },
            FsRequest::Chmod { inode, mode, ctx } => {
                let r = self.chmod(inode, mode, ctx, now);
                Applied { response: unit_response_of(r), deleted: None }
            },
            FsRequest::Chown { inode, uid, gid, ctx } => {
                let r = self.chown(inode, uid, gid, ctx, now);
                Applied { response: unit_response_of(r), deleted: None }
            },
            FsRequest::Utimens { inode, atime, mtime, ctx } => {
                let r = self.utimens(inode, atime, mtime, ctx, now);
                Applied { response: unit_response_of(r), deleted: None }
            },
            FsRequest::SetXattr { inode, key, value } => {
                let r = self.set_xattr(inode, key, value, now);
                Applied { response: unit_response_of(r), deleted: None }
            },
            FsRequest::RemoveXattr { inode, key } => {
                let r = self.remove_xattr(inode, key, now);
                Applied { response: unit_response_of(r), deleted: None }
            },
            FsRequest::Fsync { .. } => Applied { response: Response::Empty, deleted: None },
        }
    }

    /// Applies a log, entry by entry, each at the time stamped on it.
    pub fn replay(&mut self, log: &Vec<LogEntry>)
        requires
            old(self).wf(),
        ensures
            final(self).wf(),
            final(self).model() == replay_log(old(self).model(), log@),
    {
        let ghost m0 = self.model();
        let mut i: usize = 0;
        while i < log.len()
            invariant
                i <= log@.len(),
                self.wf(),
                self.model() == replay_log(m0, log@.subrange(0, i as int)),
            decreases log@.len() - i,
        {
            let e = log[i];
            self.apply(&e.request, e.timestamp);
            proof {
                let s = log@.subrange(0, i + 1);
                assert(s.drop_last() =~= log@.subrange(0, i as int));
                assert(s.last() == e);
            }
            i = i + 1;
        }
        assert(log@.subrange(0, log@.len() as int) =~= log@);
    }
}

fn unit_response_of(r: Result<(), ErrorCode>) -> (out: Response)
    ensures
        out == unit_response(r),
{
    match r {
        Ok(_) => Response::Empty,
        Err(e) => Response::Error(e),
    }
}

/// A request that only reads state, served once the node has caught up
/// with the leader's commit index.
#[derive(Clone, Copy, Debug)]
pub enum ReadRequest<'a> {
    Lookup { parent: u64, name: &'a str, ctx: UserContext },
    Getattr { inode: u64 },
    Readdir { inode: u64 },
    GetXattr { inode: u64, key: &'a str },
    ListXattrs { inode: u64 },
    /// Permission to read the bytes of `inode`, which the data store holds.
    Read { inode: u64, ctx: UserContext },
}

/// The answer to a read request.
#[derive(Debug)]
pub enum ReadResponse {
    Empty,
    Inode(u64),
    FileMetadata(InodeAttributes),
    DirectoryListing(Vec<(Inode, String, FileKind)>),
    Data(Vec<u8>),
    Xattrs(Vec<String>),
    Error(ErrorCode),
}

impl MetadataStorage {
    /// Serves a read request against the local state. A lookup that finds
    /// nothing answers `DoesNotExist`.
    pub fn serve_read(&self, req: &ReadRequest) -> (r: ReadResponse)
        requires
            self.wf(),
        ensures
            ({
                let m = self.model();
                match *req {
                    ReadRequest::Lookup { parent, name, ctx } => match m.lookup(parent, name, ctx) {
                        Ok(Some(i)) => r == ReadResponse::Inode(i),
                        Ok(None) => r == ReadResponse::Error(ErrorCode::DoesNotExist),
                        Err(e) => r == ReadResponse::Error(e),
                    },
                    ReadRequest::Getattr { inode } => match m.getattr(inode) {
                        Ok(a) => r == ReadResponse::FileMetadata(a),
                        Err(e) => r == ReadResponse::Error(e),
                    },
                    ReadRequest::Readdir { inode } => if m.dirs.contains_key(inode) {
                        r matches ReadResponse::DirectoryListing(v) && lists_dir(v@, inode, m.parents[inode], m.dirs[inode])
                    } else {
                        r == ReadResponse::Error(ErrorCode::DoesNotExist)
                    },
                    ReadRequest::GetXattr { inode, key } => match m.get_xattr(inode, key@) {
                        Ok(v) => r matches ReadResponse::Data(d) && d@ == v,
                        Err(e) => r == ReadResponse::Error(e),
                    },
                    ReadRequest::ListXattrs { inode } => r matches ReadResponse::Xattrs(keys) && if m.attrs.contains_key(inode) {
                        lists_keys(keys@, m.xattrs[inode])
                    } else {
                        keys@.len() == 0
                    },
                    ReadRequest::Read { inode, ctx } => match m.read(inode, ctx) {
                        Ok(_) => r == ReadResponse::Empty,
                        Err(e) => r == ReadResponse::Error(e),
                    },
                }
            }),
    {
        match *req {
            ReadRequest::Lookup { parent, name, ctx } => match self.lookup(parent, name, ctx) {
                Ok(Some(i)) => ReadResponse::Inode(i),
                Ok(None) => ReadResponse::Error(ErrorCode::DoesNotExist),
                Err(e) => ReadResponse::Error(e),
            },
            ReadRequest::Getattr { inode } => match self.get_attributes(inode) {
                Ok(a) => ReadResponse::FileMetadata(a),
                Err(e) => ReadResponse::Error(e),
            },
            ReadRequest::Readdir { inode } => match self.readdir(inode) {
                Ok(v) => ReadResponse::DirectoryListing(v),
                Err(e) => ReadResponse::Error(e),
            },
            ReadRequest::GetXattr { inode, key } => {
                let r = self.get_xattr(inode, key);
                assert(bytes_result(r) == self.model().get_xattr(inode, key@));
                match r {
                    Ok(v) => ReadResponse::Data(v),
                    Err(e) => ReadResponse::Error(e),
                }
            },
            ReadRequest::ListXattrs { inode } => match self.list_xattrs(inode) {
                Ok(keys) => ReadResponse::Xattrs(keys),
                Err(e) => ReadResponse::Error(e),
            },
            ReadRequest::Read { inode, ctx } => match self.read(inode, ctx) {
                Ok(_) => ReadResponse::Empty,
                Err(e) => ReadResponse::Error(e),
            },
        }
    }
}

/// What became of a proposal when the entry at its index was applied.
#[derive(Clone, Copy, Debug, PartialEq, Eq, Structural)]
pub enum Resolution {
    /// The entry is the proposal: its answer goes to the waiting client.
    Completed,
    /// Another entry took the index: the proposal with this request id was
    /// lost and its client gets a log failure.
    Superseded(u64),
    /// This node proposed nothing at that index.
    NotProposedHere,
}

/// Proposals of this node that wait for their entry to be applied, by log
/// index; each holds the client request id.
pub struct PendingRequests {
    pending: HashMap<u64, u64>,
}

impl View for PendingRequests {
    type V = Map<u64, u64>;

    closed spec fn view(&self) -> Map<u64, u64> {
        self.pending@
    }
}

impl PendingRequests {
    pub fn new() -> (r: PendingRequests)
        ensures
            r@ == Map::<u64, u64>::empty(),
    {
        PendingRequests { pending: HashMap::new() }
    }

    /// Records that request `request_id` was proposed at `index`; refused
    /// when a proposal already waits there.
    pub fn register(&mut self, index: u64, request_id: u64) -> (r: bool)
        ensures
            r == !old(self)@.contains_key(index),
            r ==> final(self)@ == old(self)@.insert(index, request_id),
            !r ==> final(self)@ == old(self)@,
    {
        if self.pending.contains_key(&index) {
            return false;
        }
        self.pending.insert(index, request_id);
        true
    }

    /// Settles the proposal at `index` once the entry there, which carries
    /// `request_id`, has been applied. A proposal is settled once: the
    /// index no longer waits afterwards.
    pub fn resolve(&mut self, index: u64, request_id: u64) -> (r: Resolution)
        ensures
            final(self)@ == old(self)@.remove(index),
            r == if !old(self)@.contains_key(index) {
                Resolution::NotProposedHere
            } else if old(self)@[index] == request_id {
                Resolution::Completed
            } else {
                Resolution::Superseded(old(self)@[index])
            },
    {
        match self.pending.remove(&index) {
            None => Resolution::NotProposedHere,
            Some(id) => if id == request_id {
                Resolution::Completed
            } else {
                Resolution::Superseded(id)
            },
        }
    }
}

/// Only `write` and `truncate` change the size of an inode that was
/// already there; every other request leaves it as it was.
pub proof fn law_size_changes_only_by_writes<'a>(m: FsModel, req: FsRequest<'a>, now: Timestamp, i: u64)
    requires
        m.wf(),
        !(req is Write),
        !(req is Truncate),
        m.attrs.contains_key(i),
        req.apply_to(m, now).0.attrs.contains_key(i),
    ensures
        req.apply_to(m, now).0.attrs[i].size == m.attrs[i].size,
{
    match req {
        FsRequest::Create { .. } | FsRequest::Mkdir { .. } => {
            assert(m.inode_ok(i));
        },
        _ => {},
    }
}

/// A request that fails leaves the state exactly as it was.
pub proof fn law_failed_request_changes_nothing<'a>(m: FsModel, req: FsRequest<'a>, now: Timestamp)
    ensures
        req.apply_to(m, now).1.response is Error ==> req.apply_to(m, now).0 == m,
{
}

/// Only `create`, `mkdir`, `hardlink`, `unlink`, `rmdir` and `rename`
/// change directory entries; every other request leaves them, and so every
/// lookup, as they were.
pub proof fn law_entries_change_only_by_namespace_requests<'a>(m: FsModel, req: FsRequest<'a>, now: Timestamp)
    requires
        !(req is Create),
        !(req is Mkdir),
        !(req is Hardlink),
        !(req is Unlink),
        !(req is Rmdir),
        !(req is Rename),
    ensures
        req.apply_to(m, now).0.dirs == m.dirs,
{
}

/// Whether `req` names the entry `n` of directory `p`, as the place it
/// creates, links, removes or moves.
pub open spec fn names_entry<'a>(req: FsRequest<'a>, p: u64, n: Seq<char>) -> bool {
    match req {
        FsRequest::Create { parent, name, .. } => parent == p && name@ == n,
        FsRequest::Mkdir { parent, name, .. } => parent == p && name@ == n,
        FsRequest::Unlink { parent, name, .. } => parent == p && name@ == n,
        FsRequest::Rmdir { parent, name, .. } => parent == p && name@ == n,
        FsRequest::Hardlink { new_parent, new_name, .. } => new_parent == p && new_name@ == n,
        FsRequest::Rename { parent, name, new_parent, new_name, .. } => (parent == p && name@ == n)
            || (new_parent == p && new_name@ == n),
        _ => false,
    }
}

/// A request that does not name an entry leaves it as it was.
pub proof fn lemma_entry_untouched<'a>(m: FsModel, req: FsRequest<'a>, now: Timestamp, p: u64, n: Seq<char>)
    requires
        m.wf(),
        !names_entry(req, p, n),
    ensures
        req.apply_to(m, now).0.entry(p, n) == m.entry(p, n),
{
    let root = UserContext { uid: 0, gid: 0 };
    law_failed_request_changes_nothing(m, req, now);
    match req {
        FsRequest::Create { parent, name, uid, gid, mode, kind } => {
            law_lookup_follows_entries(m, parent, name, parent, name, uid, gid, mode, kind, 0, root, now, p, n);
        },
        FsRequest::Mkdir { parent, name, uid, gid, mode } => {
            law_lookup_follows_entries(m, parent, name, parent, name, uid, gid, mode, FileKind::File, 0, root, now, p, n);
        },
        FsRequest::Unlink { parent, name, ctx } => {
            law_lookup_follows_entries(m, parent, name, parent, name, 0, 0, 0, FileKind::File, 0, ctx, now, p, n);
        },
        FsRequest::Rmdir { parent, name, ctx } => {
            law_lookup_follows_entries(m, parent, name, parent, name, 0, 0, 0, FileKind::File, 0, ctx, now, p, n);
        },
        FsRequest::Hardlink { inode, new_parent, new_name, ctx } => {
            law_lookup_follows_entries(m, new_parent, new_name, new_parent, new_name, 0, 0, 0, FileKind::File, inode, ctx, now, p, n);
        },
        FsRequest::Rename { parent, name, new_parent, new_name, ctx } => {
            law_lookup_follows_entries(m, parent, name, new_parent, new_name, 0, 0, 0, FileKind::File, 0, ctx, now, p, n);
        },
        _ => {
            law_entries_change_only_by_namespace_requests(m, req, now);
        },
    }
}

/// The number of a directory entry's inode, after a log, is what it was
/// right after the `k`-th entry when every later entry that names it
/// failed: a lookup finds what the most recent successful `create`,
/// `mkdir`, `hardlink` or `rename` onto the name put there, until a
/// successful `unlink`, `rmdir` or `rename` takes it away.
pub proof fn law_entry_persists<'a>(m: FsModel, log: Seq<LogEntry<'a>>, k: int, p: u64, n: Seq<char>)
    requires
        m.wf(),
        0 <= k <= log.len(),
        forall|j: int| k <= j < log.len() ==> !names_entry(#[trigger] log[j].request, p, n)
            || log[j].request.apply_to(replay_log(m, log.subrange(0, j)), log[j].timestamp).1.response is Error,
    ensures
        replay_log(m, log).entry(p, n) == replay_log(m, log.subrange(0, k)).entry(p, n),
    decreases log.len(),
{
    if log.len() == k {
        assert(log.subrange(0, k) =~= log);
    } else {
        let prefix = log.drop_last();
        let last = log.len() - 1;
        assert forall|j: int| k <= j < prefix.len() implies !names_entry(#[trigger] prefix[j].request, p, n)
            || prefix[j].request.apply_to(replay_log(m, prefix.subrange(0, j)), prefix[j].timestamp).1.response is Error by {
            assert(prefix[j] == log[j]);
            assert(prefix.subrange(0, j) =~= log.subrange(0, j));
        }
        law_entry_persists(m, prefix, k, p, n);
        assert(prefix.subrange(0, k) =~= log.subrange(0, k));
        law_replay_keeps_invariant(m, prefix);
        assert(log.subrange(0, last) =~= prefix);
        let e = log[last];
        assert(e == log.last());
        if names_entry(e.request, p, n) {
            law_failed_request_changes_nothing(replay_log(m, prefix), e.request, e.timestamp);
        } else {
            lemma_entry_untouched(replay_log(m, prefix), e.request, e.timestamp, p, n);
        }
    }
}

/// Inode numbers only grow.
pub proof fn lemma_next_inode_grows<'a>(m: FsModel, log: Seq<LogEntry<'a>>)
    requires
        m.wf(),
    ensures
        replay_log(m, log).next_inode >= m.next_inode,
    decreases log.len(),
{
    if log.len() > 0 {
        lemma_next_inode_grows(m, log.drop_last());
    }
}

/// An inode that a step leaves in the store was there before, unless the
/// step created it.
pub proof fn lemma_no_return<'a>(m: FsModel, req: FsRequest<'a>, now: Timestamp, i: u64)
    requires
        m.wf(),
        i < m.next_inode,
        !m.attrs.contains_key(i),
    ensures
        !req.apply_to(m, now).0.attrs.contains_key(i),
        req.apply_to(m, now).0.next_inode >= m.next_inode,
{
}

/// An inode held after a log was held after every prefix of it.
pub proof fn lemma_held_throughout<'a>(m: FsModel, log: Seq<LogEntry<'a>>, i: u64)
    requires
        m.wf(),
        m.attrs.contains_key(i),
        replay_log(m, log).attrs.contains_key(i),
    ensures
        forall|k: int| 0 <= k <= log.len() ==> (#[trigger] replay_log(m, log.subrange(0, k))).attrs.contains_key(i),
    decreases log.len(),
{
    assert(m.inode_ok(i));
    if log.len() > 0 {
        let prefix = log.drop_last();
        law_replay_keeps_invariant(m, prefix);
        lemma_next_inode_grows(m, prefix);
        if !replay_log(m, prefix).attrs.contains_key(i) {
            lemma_no_return(replay_log(m, prefix), log.last().request, log.last().timestamp, i);
        }
        lemma_held_throughout(m, prefix, i);
        assert forall|k: int| 0 <= k <= log.len() implies (#[trigger] replay_log(m, log.subrange(0, k))).attrs.contains_key(i) by {
            if k == log.len() {
                assert(log.subrange(0, k) =~= log);
            } else {
                assert(prefix.subrange(0, k) =~= log.subrange(0, k));
                assert(replay_log(m, prefix.subrange(0, k)).attrs.contains_key(i));
            }
        }
    } else {
        assert forall|k: int| 0 <= k <= log.len() implies (#[trigger] replay_log(m, log.subrange(0, k))).attrs.contains_key(i) by {
            assert(log.subrange(0, k) =~= log);
        }
    }
}

/// The largest end, `offset + length`, of the writes to inode `i` in `log`
/// that succeeded (0 when there is none).
pub open spec fn max_write_end<'a>(m: FsModel, log: Seq<LogEntry<'a>>, i: u64) -> int
    decreases log.len(),
{
    if log.len() == 0 {
        0
    } else {
        let prefix = log.drop_last();
        let before = max_write_end(m, prefix, i);
        let e = log.last();
        match e.request {
            FsRequest::Write { inode, offset, length, .. } => {
                if inode == i && e.request.apply_to(replay_log(m, prefix), e.timestamp).1.response is Written
                    && before < offset + length {
                    offset + length
                } else {
                    before
                }
            },
            _ => before,
        }
    }
}

/// One step's effect on the size of an inode held before and after it,
/// when the step is no truncate of that inode.
pub proof fn lemma_size_step<'a>(m: FsModel, req: FsRequest<'a>, now: Timestamp, i: u64)
    requires
        m.wf(),
        m.attrs.contains_key(i),
        req.apply_to(m, now).0.attrs.contains_key(i),
        !(req matches FsRequest::Truncate { inode, .. } && inode == i),
    ensures
        req.apply_to(m, now).0.attrs[i].size == match req {
            FsRequest::Write { inode, offset, length, .. } => if inode == i && req.apply_to(m, now).1.response is Written
                && m.attrs[i].size < offset + length {
                offset + length
            } else {
                m.attrs[i].size as int
            },
            _ => m.attrs[i].size as int,
        },
{
    match req {
        FsRequest::Create { .. } | FsRequest::Mkdir { .. } => {
            assert(m.inode_ok(i));
        },
        _ => {},
    }
}

/// With no truncate of a file in a log, the file's size after the log is
/// the larger of its size before and the end of every write to it that
/// succeeded.
pub proof fn law_size_after_writes<'a>(m: FsModel, log: Seq<LogEntry<'a>>, i: u64)
    requires
        m.wf(),
        m.attrs.contains_key(i),
        replay_log(m, log).attrs.contains_key(i),
        forall|j: int| 0 <= j < log.len() ==> !((#[trigger] log[j].request) matches FsRequest::Truncate { inode, .. } && inode == i),
    ensures
        replay_log(m, log).attrs[i].size == if m.attrs[i].size >= max_write_end(m, log, i) {
            m.attrs[i].size as int
        } else {
            max_write_end(m, log, i)
        },
    decreases log.len(),
{
    if log.len() > 0 {
        let prefix = log.drop_last();
        lemma_held_throughout(m, log, i);
        assert(replay_log(m, log.subrange(0, prefix.len() as int)).attrs.contains_key(i));
        assert(log.subrange(0, prefix.len() as int) =~= prefix);
        law_size_after_writes(m, prefix, i);
        law_replay_keeps_invariant(m, prefix);
        assert(!(log[log.len() - 1].request matches FsRequest::Truncate { inode, .. } && inode == i));
        lemma_size_step(replay_log(m, prefix), log.last().request, log.last().timestamp, i);
    }
}

} // verus!
