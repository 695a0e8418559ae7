//! The abstract state of the metadata store and, for each operation, the
//! state and result it leads to.
use vstd::prelude::*;
use vstd::utf8::encode_utf8;
use crate::access::access_allowed;
use crate::types::{
    ErrorCode, FileKind, Timestamp, UserContext, BLOCK_SIZE, MAX_FILE_SIZE, MAX_NAME_LENGTH, R_OK,
    ROOT_INODE, S_ISGID, S_ISUID, S_ISVTX, UTIME_NOW, W_OK, X_OK,
};

verus! {

/// Attributes of one inode.
#[derive(Clone, Copy, Debug, PartialEq, Eq, Structural)]
pub struct InodeAttributes {
    pub inode: u64,
    pub size: u64,
    pub last_accessed: Timestamp,
    pub last_modified: Timestamp,
    pub last_metadata_changed: Timestamp,
    pub kind: FileKind,
    /// Permission bits and the sticky bit; set-user-id and set-group-id are
    /// always clear.
    pub mode: u16,
    pub hardlinks: u32,
    pub uid: u32,
    pub gid: u32,
}

pub type DirModel = Map<Seq<char>, (u64, FileKind)>;

/// The whole namespace, as mathematical maps.
pub struct FsModel {
    /// Directory inode to its descriptor: name to `(child, kind)`.
    pub dirs: Map<u64, DirModel>,
    /// Directory inode to its parent directory.
    pub parents: Map<u64, u64>,
    pub attrs: Map<u64, InodeAttributes>,
    /// Extended attributes of each inode.
    pub xattrs: Map<u64, Map<Seq<char>, Seq<u8>>>,
    /// The next inode number to hand out.
    pub next_inode: u64,
}

/// `mode` with set-user-id and set-group-id cleared.
pub open spec fn clear_suid(mode: u16) -> u16 {
    mode & !(S_ISUID | S_ISGID)
}

pub open spec fn can(a: InodeAttributes, uid: u32, gid: u32, wanted: u32) -> bool {
    access_allowed(a.uid, a.gid, a.mode, uid, gid, wanted)
}

/// Whether the sticky bit of directory `dir` lets `uid` remove or replace
/// an entry for an inode with attributes `target`.
pub open spec fn sticky_allows(dir: InodeAttributes, target: InodeAttributes, uid: u32) -> bool {
    dir.mode & S_ISVTX == 0 || uid == 0 || uid == dir.uid || uid == target.uid
}

/// Whether `name` takes more bytes than a name may.
pub open spec fn name_too_long(name: &str) -> bool {
    encode_utf8(name@).len() > MAX_NAME_LENGTH
}

pub open spec fn with_ctime(a: InodeAttributes, now: Timestamp) -> InodeAttributes {
    InodeAttributes { last_metadata_changed: now, ..a }
}

pub open spec fn with_mtime_ctime(a: InodeAttributes, now: Timestamp) -> InodeAttributes {
    InodeAttributes { last_modified: now, last_metadata_changed: now, ..a }
}

pub open spec fn add_entry(dirs: Map<u64, DirModel>, d: u64, name: Seq<char>, e: (u64, FileKind)) -> Map<u64, DirModel> {
    dirs.insert(d, dirs[d].insert(name, e))
}

pub open spec fn del_entry(dirs: Map<u64, DirModel>, d: u64, name: Seq<char>) -> Map<u64, DirModel> {
    dirs.insert(d, dirs[d].remove(name))
}

/// The directory entries that name inode `i`.
pub open spec fn links(dirs: Map<u64, DirModel>, i: u64) -> Set<(u64, Seq<char>)> {
    Set::new(|p: (u64, Seq<char>)| dirs.contains_key(p.0) && dirs[p.0].contains_key(p.1) && dirs[p.0][p.1].0 == i)
}

/// The parent of directory `d` names it: the parent's descriptor maps some
/// name to `(d, Directory)`.
pub open spec fn has_parent_entry(dirs: Map<u64, DirModel>, parents: Map<u64, u64>, d: u64) -> bool {
    &&& dirs.contains_key(parents[d])
    &&& exists|n: Seq<char>| #[trigger] dirs[parents[d]].contains_key(n) && dirs[parents[d]][n] == (d, FileKind::Directory)
}

/// Whether `i` is `d` or one of its ancestors, following the parent map at
/// most `fuel` times up from `d`, and no further than the root.
pub open spec fn reaches(parents: Map<u64, u64>, d: u64, i: u64, fuel: nat) -> bool
    decreases fuel,
{
    if d == i {
        true
    } else if fuel == 0 || d == ROOT_INODE {
        false
    } else {
        reaches(parents, parents[d], i, (fuel - 1) as nat)
    }
}

/// A directory's descriptor counts as one more link (its `.` entry).
pub open spec fn own_link(dirs: Map<u64, DirModel>, i: u64) -> nat {
    if dirs.contains_key(i) { 1 } else { 0 }
}

impl FsModel {
    /// The namespace right after start-up: an empty root directory.
    pub open spec fn initial(now: Timestamp) -> FsModel {
        FsModel {
            dirs: map![ROOT_INODE => Map::empty()],
            parents: map![ROOT_INODE => ROOT_INODE],
            attrs: map![ROOT_INODE => InodeAttributes {
                inode: ROOT_INODE,
                size: 0,
                last_accessed: now,
                last_modified: now,
                last_metadata_changed: now,
                kind: FileKind::Directory,
                mode: 0o777,
                hardlinks: 2,
                uid: 0,
                gid: 0,
            }],
            xattrs: map![ROOT_INODE => Map::empty()],
            next_inode: (ROOT_INODE + 1) as u64,
        }
    }

    /// The invariant that every operation keeps.
    pub open spec fn wf(self) -> bool {
        self.wf_except(None)
    }

    /// The invariant, except that directory `x`, if given, may lack the
    /// entry in its parent that names it.
    pub open spec fn wf_except(self, x: Option<u64>) -> bool {
        &&& forall|d: u64, n: Seq<char>|
            #[trigger] self.dirs.contains_key(d) && #[trigger] self.dirs[d].contains_key(n) ==> {
                let e = self.dirs[d][n];
                &&& self.attrs.contains_key(e.0)
                &&& self.attrs[e.0].kind == e.1
                &&& e.0 != ROOT_INODE
                &&& encode_utf8(n).len() <= MAX_NAME_LENGTH
            }
        &&& forall|d: u64| #[trigger] self.dirs.contains_key(d) ==> self.parents.contains_key(d)
            && self.attrs.contains_key(d) && self.attrs[d].kind == FileKind::Directory
        &&& forall|d: u64| #[trigger] self.parents.contains_key(d) ==> self.dirs.contains_key(d)
        &&& self.dirs.contains_key(ROOT_INODE)
        &&& forall|d: u64| #[trigger] self.dirs.contains_key(d) && d != ROOT_INODE && x != Some(d)
            ==> has_parent_entry(self.dirs, self.parents, d)
        &&& forall|i: u64| #[trigger] self.attrs.contains_key(i) <==> self.xattrs.contains_key(i)
        &&& forall|i: u64| #[trigger] self.attrs.contains_key(i) ==> self.inode_ok(i)
    }

    pub open spec fn inode_ok(self, i: u64) -> bool {
        let a = self.attrs[i];
        &&& i < self.next_inode
        &&& a.inode == i
        &&& a.hardlinks >= 1
        &&& a.size <= MAX_FILE_SIZE
        &&& (a.kind == FileKind::Directory <==> self.dirs.contains_key(i))
        &&& links(self.dirs, i).finite()
        &&& links(self.dirs, i).len() + own_link(self.dirs, i) <= a.hardlinks
        &&& a.kind == FileKind::Directory ==> links(self.dirs, i).len() <= 1
    }

    pub open spec fn set_attrs(self, i: u64, a: InodeAttributes) -> FsModel {
        FsModel { attrs: self.attrs.insert(i, a), ..self }
    }

    pub open spec fn touch_dir(self, i: u64, now: Timestamp) -> FsModel {
        self.set_attrs(i, with_mtime_ctime(self.attrs[i], now))
    }

    pub open spec fn touch_ctime(self, i: u64, now: Timestamp) -> FsModel {
        self.set_attrs(i, with_ctime(self.attrs[i], now))
    }

    /// The inode that `name` names in directory `parent`, if any.
    pub open spec fn entry(self, parent: u64, name: Seq<char>) -> Option<u64> {
        if self.dirs.contains_key(parent) && self.dirs[parent].contains_key(name) {
            Some(self.dirs[parent][name].0)
        } else {
            None
        }
    }

    pub open spec fn lookup(self, parent: u64, name: &str, ctx: UserContext) -> Result<Option<u64>, ErrorCode> {
        if name_too_long(name) {
            Err(ErrorCode::NameTooLong)
        } else if !self.attrs.contains_key(parent) {
            Err(ErrorCode::InodeDoesNotExist)
        } else if !can(self.attrs[parent], ctx.uid, ctx.gid, X_OK) {
            Err(ErrorCode::AccessDenied)
        } else {
            Ok(self.entry(parent, name@))
        }
    }

    pub open spec fn getattr(self, inode: u64) -> Result<InodeAttributes, ErrorCode> {
        if self.attrs.contains_key(inode) {
            Ok(self.attrs[inode])
        } else {
            Err(ErrorCode::InodeDoesNotExist)
        }
    }

    pub open spec fn read(self, inode: u64, ctx: UserContext) -> Result<(), ErrorCode> {
        if !self.attrs.contains_key(inode) {
            Err(ErrorCode::InodeDoesNotExist)
        } else if !can(self.attrs[inode], ctx.uid, ctx.gid, R_OK) {
            Err(ErrorCode::AccessDenied)
        } else {
            Ok(())
        }
    }

    pub open spec fn get_xattr(self, inode: u64, key: Seq<char>) -> Result<Seq<u8>, ErrorCode> {
        if !self.attrs.contains_key(inode) {
            Err(ErrorCode::InodeDoesNotExist)
        } else if !self.xattrs[inode].contains_key(key) {
            Err(ErrorCode::MissingXattrKey)
        } else {
            Ok(self.xattrs[inode][key])
        }
    }

    pub open spec fn set_xattr(self, inode: u64, key: Seq<char>, value: Seq<u8>, now: Timestamp) -> (FsModel, Result<(), ErrorCode>) {
        if !self.attrs.contains_key(inode) {
            (self, Err(ErrorCode::InodeDoesNotExist))
        } else {
            let m = FsModel { xattrs: self.xattrs.insert(inode, self.xattrs[inode].insert(key, value)), ..self };
            (m.touch_ctime(inode, now), Ok(()))
        }
    }

    pub open spec fn remove_xattr(self, inode: u64, key: Seq<char>, now: Timestamp) -> (FsModel, Result<(), ErrorCode>) {
        if !self.attrs.contains_key(inode) {
            (self, Err(ErrorCode::InodeDoesNotExist))
        } else {
            let m = FsModel { xattrs: self.xattrs.insert(inode, self.xattrs[inode].remove(key)), ..self };
            (m.touch_ctime(inode, now), Ok(()))
        }
    }

    pub open spec fn utimens(
        self,
        inode: u64,
        atime: Option<Timestamp>,
        mtime: Option<Timestamp>,
        ctx: UserContext,
        now: Timestamp,
    ) -> (FsModel, Result<(), ErrorCode>) {
        if !self.attrs.contains_key(inode) {
            (self, Err(ErrorCode::InodeDoesNotExist))
        } else {
            let a = self.attrs[inode];
            let not_owner = a.uid != ctx.uid;
            if not_owner && !can(a, ctx.uid, ctx.gid, W_OK) {
                (self, Err(ErrorCode::AccessDenied))
            } else if not_owner && ctx.uid != 0 && (!is_now(atime) || !is_now(mtime)) {
                (self, Err(ErrorCode::OperationNotPermitted))
            } else {
                let a1 = InodeAttributes {
                    last_accessed: resolve_time(atime, a.last_accessed, now),
                    last_modified: resolve_time(mtime, a.last_modified, now),
                    ..a
                };
                (self.set_attrs(inode, a1), Ok(()))
            }
        }
    }

    pub open spec fn chmod(self, inode: u64, mode: u32, ctx: UserContext, now: Timestamp) -> (FsModel, Result<(), ErrorCode>) {
        if !self.attrs.contains_key(inode) {
            (self, Err(ErrorCode::InodeDoesNotExist))
        } else if ctx.uid != 0 && self.attrs[inode].uid != ctx.uid {
            (self, Err(ErrorCode::OperationNotPermitted))
        } else {
            let a = InodeAttributes {
                mode: clear_suid(mode as u16),
                last_metadata_changed: now,
                ..self.attrs[inode]
            };
            (self.set_attrs(inode, a), Ok(()))
        }
    }

    pub open spec fn chown(
        self,
        inode: u64,
        uid: Option<u32>,
        gid: Option<u32>,
        ctx: UserContext,
        now: Timestamp,
    ) -> (FsModel, Result<(), ErrorCode>) {
        if !self.attrs.contains_key(inode) {
            (self, Err(ErrorCode::InodeDoesNotExist))
        } else {
            let a = self.attrs[inode];
            if uid is Some && ctx.uid != 0 && !(uid->0 == a.uid && ctx.uid == a.uid) {
                (self, Err(ErrorCode::OperationNotPermitted))
            } else if gid is Some && ctx.uid != 0 && ctx.uid != a.uid {
                (self, Err(ErrorCode::OperationNotPermitted))
            } else {
                let a1 = InodeAttributes {
                    uid: if uid is Some { uid->0 } else { a.uid },
                    gid: if gid is Some { gid->0 } else { a.gid },
                    last_metadata_changed: if uid is Some || gid is Some { now } else { a.last_metadata_changed },
                    ..a
                };
                (self.set_attrs(inode, a1), Ok(()))
            }
        }
    }

    pub open spec fn truncate(self, inode: u64, new_length: u64, ctx: UserContext, now: Timestamp) -> (FsModel, Result<(), ErrorCode>) {
        if new_length > MAX_FILE_SIZE {
            (self, Err(ErrorCode::FileTooLarge))
        } else if !self.attrs.contains_key(inode) {
            (self, Err(ErrorCode::InodeDoesNotExist))
        } else if !can(self.attrs[inode], ctx.uid, ctx.gid, W_OK) {
            (self, Err(ErrorCode::AccessDenied))
        } else {
            let a = InodeAttributes { size: new_length, ..with_mtime_ctime(self.attrs[inode], now) };
            (self.set_attrs(inode, a), Ok(()))
        }
    }

    pub open spec fn write(self, inode: u64, offset: u64, length: u32, ctx: UserContext, now: Timestamp) -> (FsModel, Result<(), ErrorCode>) {
        if offset + length > MAX_FILE_SIZE {
            (self, Err(ErrorCode::FileTooLarge))
        } else if !self.attrs.contains_key(inode) {
            (self, Err(ErrorCode::InodeDoesNotExist))
        } else if !can(self.attrs[inode], ctx.uid, ctx.gid, W_OK) {
            (self, Err(ErrorCode::AccessDenied))
        } else {
            let a0 = self.attrs[inode];
            let end = (offset + length) as u64;
            let a = InodeAttributes { size: if a0.size >= end { a0.size } else { end }, ..with_mtime_ctime(a0, now) };
            (self.set_attrs(inode, a), Ok(()))
        }
    }

    pub open spec fn new_attrs(self, uid: u32, gid: u32, mode: u16, kind: FileKind, now: Timestamp) -> InodeAttributes {
        InodeAttributes {
            inode: self.next_inode,
            size: if kind == FileKind::Directory { BLOCK_SIZE } else { 0 },
            last_accessed: now,
            last_modified: now,
            last_metadata_changed: now,
            kind,
            mode: clear_suid(mode),
            hardlinks: if kind == FileKind::Directory { 2 } else { 1 },
            uid,
            gid,
        }
    }

    pub open spec fn create(
        self,
        parent: u64,
        name: &str,
        uid: u32,
        gid: u32,
        mode: u16,
        kind: FileKind,
        now: Timestamp,
    ) -> (FsModel, Result<(u64, InodeAttributes), ErrorCode>) {
        if name_too_long(name) {
            (self, Err(ErrorCode::NameTooLong))
        } else if !self.attrs.contains_key(parent) {
            (self, Err(ErrorCode::InodeDoesNotExist))
        } else if !can(self.attrs[parent], uid, gid, X_OK) {
            (self, Err(ErrorCode::AccessDenied))
        } else if self.entry(parent, name@) is Some {
            (self, Err(ErrorCode::AlreadyExists))
        } else if kind == FileKind::Directory {
            (self, Err(ErrorCode::OperationNotPermitted))
        } else if !can(self.attrs[parent], uid, gid, W_OK) {
            (self, Err(ErrorCode::AccessDenied))
        } else if !self.dirs.contains_key(parent) {
            (self, Err(ErrorCode::InodeDoesNotExist))
        } else if self.next_inode == u64::MAX {
            (self, Err(ErrorCode::Uncategorized))
        } else {
            let i = self.next_inode;
            let a = InodeAttributes { size: 0, hardlinks: 1, ..self.new_attrs(uid, gid, mode, kind, now) };
            let m = FsModel {
                dirs: add_entry(self.dirs, parent, name@, (i, kind)),
                attrs: self.attrs.insert(i, a),
                xattrs: self.xattrs.insert(i, Map::empty()),
                next_inode: (i + 1) as u64,
                ..self
            };
            (m.touch_dir(parent, now), Ok((i, a)))
        }
    }

    pub open spec fn mkdir(self, parent: u64, name: &str, uid: u32, gid: u32, mode: u16, now: Timestamp) -> (FsModel, Result<InodeAttributes, ErrorCode>) {
        if name_too_long(name) {
            (self, Err(ErrorCode::NameTooLong))
        } else if !self.attrs.contains_key(parent) {
            (self, Err(ErrorCode::InodeDoesNotExist))
        } else if !can(self.attrs[parent], uid, gid, W_OK) {
            (self, Err(ErrorCode::AccessDenied))
        } else if !self.dirs.contains_key(parent) {
            (self, Err(ErrorCode::InodeDoesNotExist))
        } else if self.dirs[parent].contains_key(name@) {
            (self, Err(ErrorCode::AlreadyExists))
        } else if self.next_inode == u64::MAX {
            (self, Err(ErrorCode::Uncategorized))
        } else {
            let i = self.next_inode;
            let a = self.new_attrs(uid, gid, mode, FileKind::Directory, now);
            let m = FsModel {
                dirs: add_entry(self.dirs, parent, name@, (i, FileKind::Directory)).insert(i, Map::empty()),
                parents: self.parents.insert(i, parent),
                attrs: self.attrs.insert(i, a),
                xattrs: self.xattrs.insert(i, Map::empty()),
                next_inode: (i + 1) as u64,
            };
            (m.touch_dir(parent, now), Ok(a))
        }
    }

    pub open spec fn hardlink(self, inode: u64, new_parent: u64, new_name: &str, ctx: UserContext, now: Timestamp) -> (FsModel, Result<(), ErrorCode>) {
        if name_too_long(new_name) {
            (self, Err(ErrorCode::NameTooLong))
        } else if !self.attrs.contains_key(new_parent) {
            (self, Err(ErrorCode::InodeDoesNotExist))
        } else if !can(self.attrs[new_parent], ctx.uid, ctx.gid, W_OK) {
            (self, Err(ErrorCode::AccessDenied))
        } else if !self.attrs.contains_key(inode) || !self.dirs.contains_key(new_parent) {
            (self, Err(ErrorCode::InodeDoesNotExist))
        } else if self.attrs[inode].kind == FileKind::Directory {
            (self, Err(ErrorCode::OperationNotPermitted))
        } else if self.dirs[new_parent].contains_key(new_name@) {
            (self, Err(ErrorCode::AlreadyExists))
        } else if self.attrs[inode].hardlinks == u32::MAX {
            (self, Err(ErrorCode::Uncategorized))
        } else {
            let a = self.attrs[inode];
            let m = self.touch_dir(new_parent, now);
            let m = m.set_attrs(inode, InodeAttributes { hardlinks: (a.hardlinks + 1) as u32, last_metadata_changed: now, ..a });
            (FsModel { dirs: add_entry(m.dirs, new_parent, new_name@, (inode, a.kind)), ..m }, Ok(()))
        }
    }

    pub open spec fn unlink(self, parent: u64, name: &str, ctx: UserContext, now: Timestamp) -> (FsModel, Result<Option<u64>, ErrorCode>) {
        if name_too_long(name) {
            (self, Err(ErrorCode::NameTooLong))
        } else if !self.dirs.contains_key(parent) || !self.attrs.contains_key(parent) {
            (self, Err(ErrorCode::InodeDoesNotExist))
        } else if !self.dirs[parent].contains_key(name@) {
            (self, Err(ErrorCode::DoesNotExist))
        } else {
            let i = self.dirs[parent][name@].0;
            let pa = self.attrs[parent];
            if !can(pa, ctx.uid, ctx.gid, W_OK) || !sticky_allows(pa, self.attrs[i], ctx.uid) {
                (self, Err(ErrorCode::AccessDenied))
            } else if self.attrs[i].kind == FileKind::Directory {
                (self, Err(ErrorCode::OperationNotPermitted))
            } else {
                let m = self.touch_dir(parent, now);
                let m = FsModel { dirs: del_entry(m.dirs, parent, name@), ..m };
                let a = m.attrs[i];
                let a = InodeAttributes { hardlinks: (a.hardlinks - 1) as u32, last_metadata_changed: now, ..a };
                if a.hardlinks == 0 {
                    (FsModel { attrs: m.attrs.remove(i), xattrs: m.xattrs.remove(i), ..m }, Ok(Some(i)))
                } else {
                    (m.set_attrs(i, a), Ok(None))
                }
            }
        }
    }

    pub open spec fn rmdir(self, parent: u64, name: &str, ctx: UserContext, now: Timestamp) -> (FsModel, Result<(), ErrorCode>) {
        if name_too_long(name) {
            (self, Err(ErrorCode::NameTooLong))
        } else if !self.dirs.contains_key(parent) || !self.attrs.contains_key(parent) {
            (self, Err(ErrorCode::InodeDoesNotExist))
        } else if !self.dirs[parent].contains_key(name@) {
            (self, Err(ErrorCode::DoesNotExist))
        } else {
            let i = self.dirs[parent][name@].0;
            let pa = self.attrs[parent];
            if self.attrs[i].kind != FileKind::Directory {
                (self, Err(ErrorCode::OperationNotPermitted))
            } else if self.dirs.contains_key(i) && self.dirs[i] != Map::<Seq<char>, (u64, FileKind)>::empty() {
                (self, Err(ErrorCode::NotEmpty))
            } else if !can(pa, ctx.uid, ctx.gid, W_OK) || !sticky_allows(pa, self.attrs[i], ctx.uid) {
                (self, Err(ErrorCode::AccessDenied))
            } else {
                let m = FsModel {
                    dirs: del_entry(self.dirs, parent, name@).remove(i),
                    parents: self.parents.remove(i),
                    attrs: self.attrs.remove(i),
                    xattrs: self.xattrs.remove(i),
                    ..self
                };
                (m.touch_dir(parent, now), Ok(()))
            }
        }
    }

    /// Drops the entry's link to `j`, which `rename` replaced: an (empty)
    /// directory goes away; a file loses one link and goes away with its
    /// last, in which case its number is returned.
    pub open spec fn drop_replaced(self, j: u64, now: Timestamp) -> (FsModel, Option<u64>) {
        if self.dirs.contains_key(j) {
            (FsModel {
                dirs: self.dirs.remove(j),
                parents: self.parents.remove(j),
                attrs: self.attrs.remove(j),
                xattrs: self.xattrs.remove(j),
                ..self
            }, None)
        } else {
            let a = self.attrs[j];
            let a1 = InodeAttributes { hardlinks: (a.hardlinks - 1) as u32, last_metadata_changed: now, ..a };
            if a1.hardlinks == 0 {
                (FsModel { attrs: self.attrs.remove(j), xattrs: self.xattrs.remove(j), ..self }, Some(j))
            } else {
                (self.set_attrs(j, a1), None)
            }
        }
    }

    pub open spec fn rename(
        self,
        parent: u64,
        name: &str,
        new_parent: u64,
        new_name: &str,
        ctx: UserContext,
        now: Timestamp,
    ) -> (FsModel, Result<Option<u64>, ErrorCode>) {
        if name_too_long(name) || name_too_long(new_name) {
            (self, Err(ErrorCode::NameTooLong))
        } else if !self.dirs.contains_key(parent) || !self.attrs.contains_key(parent) {
            (self, Err(ErrorCode::InodeDoesNotExist))
        } else if !self.dirs[parent].contains_key(name@) {
            (self, Err(ErrorCode::DoesNotExist))
        } else {
            let e = self.dirs[parent][name@];
            let i = e.0;
            let pa = self.attrs[parent];
            if !can(pa, ctx.uid, ctx.gid, W_OK) || !sticky_allows(pa, self.attrs[i], ctx.uid) {
                (self, Err(ErrorCode::AccessDenied))
            } else if !self.attrs.contains_key(new_parent) || !self.dirs.contains_key(new_parent) {
                (self, Err(ErrorCode::InodeDoesNotExist))
            } else {
                let npa = self.attrs[new_parent];
                let dest = self.entry(new_parent, new_name@);
                if !can(npa, ctx.uid, ctx.gid, W_OK) {
                    (self, Err(ErrorCode::AccessDenied))
                } else if dest is Some && !sticky_allows(npa, self.attrs[dest->0], ctx.uid) {
                    (self, Err(ErrorCode::AccessDenied))
                } else if dest is Some && self.dirs.contains_key(dest->0)
                    && self.dirs[dest->0] != Map::<Seq<char>, (u64, FileKind)>::empty() {
                    (self, Err(ErrorCode::NotEmpty))
                } else if self.attrs[i].kind == FileKind::Directory && parent != new_parent
                    && !can(self.attrs[i], ctx.uid, ctx.gid, W_OK) {
                    (self, Err(ErrorCode::AccessDenied))
                } else if self.attrs[i].kind == FileKind::Directory
                    && reaches(self.parents, new_parent, i, self.parents.len()) {
                    (self, Err(ErrorCode::BadRequest))
                } else if parent == new_parent && name@ == new_name@ {
                    (self.touch_dir(parent, now).touch_dir(new_parent, now).touch_ctime(i, now), Ok(None))
                } else {
                    let dirs = add_entry(del_entry(self.dirs, parent, name@), new_parent, new_name@, e);
                    let parents = if self.dirs.contains_key(i) { self.parents.insert(i, new_parent) } else { self.parents };
                    let m = FsModel { dirs, parents, ..self };
                    let m = m.touch_dir(parent, now).touch_dir(new_parent, now).touch_ctime(i, now);
                    match dest {
                        None => (m, Ok(None)),
                        Some(j) => {
                            let (m2, gone) = m.drop_replaced(j, now);
                            (m2, Ok(gone))
                        },
                    }
                }
            }
        }
    }
}

/// Whether a `utimens` argument asks for the current time (or leaves the
/// time alone).
pub open spec fn is_now(t: Option<Timestamp>) -> bool {
    t is None || t->0.nanos == UTIME_NOW
}

pub open spec fn resolve_time(t: Option<Timestamp>, current: Timestamp, now: Timestamp) -> Timestamp {
    match t {
        None => current,
        Some(t) => if t.nanos == UTIME_NOW { now } else { t },
    }
}

} // verus!
