//! The authoritative in-memory store of inodes, directories and extended
//! attributes. Every operation either succeeds with the effect that
//! `FsModel` gives it or fails with one error and leaves the store as it was.
use std::collections::HashMap;
use vstd::prelude::*;
use vstd::string::StringSliceAdditionalSpecFns;
use vstd::utf8::encode_utf8;
use crate::access::check_access;
use crate::invariants::{
    lemma_attr_ops_wf, lemma_create_wf, lemma_hardlink_wf, lemma_initial_wf, lemma_mkdir_wf,
    lemma_rename_wf, lemma_rmdir_wf, lemma_unlink_wf,
};
pub use crate::model::InodeAttributes;
use crate::model::{add_entry, del_entry, reaches, FsModel};
use crate::name_map::{lemma_pair_in_map, NameMap};
use crate::types::{
    ErrorCode, FileKind, Timestamp, UserContext, BLOCK_SIZE, MAX_FILE_SIZE, MAX_NAME_LENGTH, R_OK,
    ROOT_INODE, S_ISGID, S_ISUID, S_ISVTX, UTIME_NOW, W_OK, X_OK,
};

verus! {

broadcast use vstd::std_specs::hash::group_hash_axioms;

pub type Inode = u64;

pub type DirectoryDescriptor = NameMap<(Inode, FileKind)>;

/// The bytes of each value of an extended-attribute map.
pub open spec fn xattr_view(x: NameMap<Vec<u8>>) -> Map<Seq<char>, Seq<u8>> {
    Map::new(|k: Seq<char>| x@.contains_key(k), |k: Seq<char>| x@[k]@)
}

pub struct MetadataStorage {
    /// Directory inode to its descriptor.
    directories: HashMap<Inode, DirectoryDescriptor>,
    /// Directory inode to its parent directory.
    directory_parents: HashMap<Inode, Inode>,
    metadata: HashMap<Inode, InodeAttributes>,
    xattrs: HashMap<Inode, NameMap<Vec<u8>>>,
    /// Inode numbers are handed out in increasing order and never reused.
    next_inode: u64,
}

impl MetadataStorage {
    /// The namespace that the store holds.
    pub closed spec fn model(&self) -> FsModel {
        FsModel {
            dirs: Map::new(
                |k: u64| self.directories@.contains_key(k),
                |k: u64| self.directories@[k]@,
            ),
            parents: self.directory_parents@,
            attrs: self.metadata@,
            xattrs: Map::new(|k: u64| self.xattrs@.contains_key(k), |k: u64| xattr_view(self.xattrs@[k])),
            next_inode: self.next_inode,
        }
    }

    closed spec fn maps_wf(&self) -> bool {
        &&& forall|d: u64| #[trigger] self.directories@.contains_key(d) ==> self.directories@[d].wf()
        &&& forall|i: u64| #[trigger] self.xattrs@.contains_key(i) ==> self.xattrs@[i].wf()
    }

    pub closed spec fn wf(&self) -> bool {
        self.maps_wf() && self.model().wf()
    }

    /// An empty namespace: the root directory alone, stamped with `now`.
    pub fn new(now: Timestamp) -> (r: MetadataStorage)
        ensures
            r.wf(),
            r.model() == FsModel::initial(now),
    {
        let mut directories: HashMap<Inode, DirectoryDescriptor> = HashMap::new();
        directories.insert(ROOT_INODE, NameMap::new());
        let mut parents: HashMap<Inode, Inode> = HashMap::new();
        parents.insert(ROOT_INODE, ROOT_INODE);
        let mut metadata: HashMap<Inode, InodeAttributes> = HashMap::new();
        metadata.insert(
            ROOT_INODE,
            InodeAttributes {
                inode: ROOT_INODE,
                size: 0,
                last_accessed: now,
                last_modified: now,
                last_metadata_changed: now,
                kind: FileKind::Directory,
                mode: 0o777,
                hardlinks: 2,
                uid: 0,
                gid: 0,
            },
        );
        let mut xattrs: HashMap<Inode, NameMap<Vec<u8>>> = HashMap::new();
        xattrs.insert(ROOT_INODE, NameMap::new());
        let r = MetadataStorage {
            directories,
            directory_parents: parents,
            metadata,
            xattrs,
            next_inode: ROOT_INODE + 1,
        };
        proof {
            let m = r.model();
            let i = FsModel::initial(now);
            assert(m.dirs =~= i.dirs);
            assert(m.parents =~= i.parents);
            assert(m.attrs =~= i.attrs);
            assert(xattr_view(r.xattrs@[ROOT_INODE]) =~= Map::empty());
            assert(m.xattrs =~= i.xattrs);
            lemma_initial_wf(now);
        }
        r
    }

    fn allocate_inode(&mut self) -> (r: u64)
        requires
            old(self).next_inode < u64::MAX,
        ensures
            r == old(self).next_inode,
            final(self).next_inode == r + 1,
            final(self).directories == old(self).directories,
            final(self).directory_parents == old(self).directory_parents,
            final(self).metadata == old(self).metadata,
            final(self).xattrs == old(self).xattrs,
    {
        let r = self.next_inode;
        self.next_inode = r + 1;
        r
    }

    fn attrs_of(&self, inode: Inode) -> (r: Option<InodeAttributes>)
        ensures
            r is None <==> !self.model().attrs.contains_key(inode),
            r matches Some(a) ==> a == self.model().attrs[inode],
    {
        match self.metadata.get(&inode) {
            Some(a) => Some(*a),
            None => None,
        }
    }

    /// The entry `name` of directory `d`, if both exist.
    fn entry_of(&self, d: Inode, name: &str) -> (r: Option<(Inode, FileKind)>)
        requires
            self.maps_wf(),
        ensures
            r is None <==> self.model().entry(d, name@) is None,
            r matches Some(e) ==> self.model().dirs[d][name@] == e && e.0 == self.model().entry(d, name@)->0,
    {
        match self.directories.get(&d) {
            Some(dm) => match dm.get(name) {
                Some(e) => Some(*e),
                None => None,
            },
            None => None,
        }
    }

    /// Whether directory `d` has a descriptor with at least one entry.
    fn dir_non_empty(&self, d: Inode) -> (r: bool)
        requires
            self.maps_wf(),
        ensures
            r == (self.model().dirs.contains_key(d) && self.model().dirs[d] != Map::<
                Seq<char>,
                (u64, FileKind),
            >::empty()),
    {
        match self.directories.get(&d) {
            Some(dm) => !dm.is_empty(),
            None => false,
        }
    }

    fn set_attrs(&mut self, i: Inode, a: InodeAttributes)
        ensures
            final(self).model() == old(self).model().set_attrs(i, a),
            final(self).directories == old(self).directories,
            final(self).xattrs == old(self).xattrs,
    {
        self.metadata.insert(i, a);
        proof {
            assert(self.model().attrs =~= old(self).model().attrs.insert(i, a));
        }
    }

    fn touch_dir(&mut self, i: Inode, now: Timestamp)
        requires
            old(self).model().attrs.contains_key(i),
        ensures
            final(self).model() == old(self).model().touch_dir(i, now),
            final(self).directories == old(self).directories,
            final(self).xattrs == old(self).xattrs,
    {
        let a = *self.metadata.get(&i).unwrap();
        self.set_attrs(i, InodeAttributes { last_modified: now, last_metadata_changed: now, ..a });
    }

    fn touch_ctime(&mut self, i: Inode, now: Timestamp)
        requires
            old(self).model().attrs.contains_key(i),
        ensures
            final(self).model() == old(self).model().touch_ctime(i, now),
            final(self).directories == old(self).directories,
            final(self).xattrs == old(self).xattrs,
    {
        let a = *self.metadata.get(&i).unwrap();
        self.set_attrs(i, InodeAttributes { last_metadata_changed: now, ..a });
    }

    fn dir_insert(&mut self, d: Inode, name: &str, e: (Inode, FileKind))
        requires
            old(self).maps_wf(),
            old(self).model().dirs.contains_key(d),
        ensures
            final(self).maps_wf(),
            final(self).model() == (FsModel { dirs: add_entry(old(self).model().dirs, d, name@, e), ..old(self).model() }),
    {
        let ghost m0 = self.model();
        let mut dm = self.directories.remove(&d).unwrap();
        dm.insert(name, e);
        self.directories.insert(d, dm);
        proof {
            assert(self.model().dirs =~= add_entry(m0.dirs, d, name@, e));
        }
    }

    fn dir_remove(&mut self, d: Inode, name: &str)
        requires
            old(self).maps_wf(),
            old(self).model().dirs.contains_key(d),
        ensures
            final(self).maps_wf(),
            final(self).model() == (FsModel { dirs: del_entry(old(self).model().dirs, d, name@), ..old(self).model() }),
    {
        let ghost m0 = self.model();
        let mut dm = self.directories.remove(&d).unwrap();
        dm.remove(name);
        self.directories.insert(d, dm);
        proof {
            assert(self.model().dirs =~= del_entry(m0.dirs, d, name@));
        }
    }
}

impl MetadataStorage {
    /// Creates a file or symbolic link named `name` in directory `parent`,
    /// owned by `uid`/`gid`, and returns its inode and attributes. The
    /// requester is the new owner; it needs search and write permission on
    /// `parent`. Directories are made by `mkdir`.
    pub fn create(
        &mut self,
        parent: Inode,
        name: &str,
        uid: u32,
        gid: u32,
        mode: u16,
        kind: FileKind,
        now: Timestamp,
    ) -> (r: Result<(Inode, InodeAttributes), ErrorCode>)
        requires
            old(self).wf(),
        ensures
            final(self).wf(),
            (final(self).model(), r) == old(self).model().create(parent, name, uid, gid, mode, kind, now),
    {
        proof {
            lemma_create_wf(self.model(), parent, name, uid, gid, mode, kind, now);
        }
        if name_bytes(name) > MAX_NAME_LENGTH as usize {
            return Err(ErrorCode::NameTooLong);
        }
        let pa = match self.attrs_of(parent) {
            Some(a) => a,
            None => return Err(ErrorCode::InodeDoesNotExist),
        };
        if !check_access(pa.uid, pa.gid, pa.mode, uid, gid, X_OK) {
            return Err(ErrorCode::AccessDenied);
        }
        if self.entry_of(parent, name).is_some() {
            return Err(ErrorCode::AlreadyExists);
        }
        if kind == FileKind::Directory {
            return Err(ErrorCode::OperationNotPermitted);
        }
        if !check_access(pa.uid, pa.gid, pa.mode, uid, gid, W_OK) {
            return Err(ErrorCode::AccessDenied);
        }
        if !self.directories.contains_key(&parent) {
            return Err(ErrorCode::InodeDoesNotExist);
        }
        if self.next_inode == u64::MAX {
            return Err(ErrorCode::Uncategorized);
        }
        let inode = self.allocate_inode();
        let attrs = InodeAttributes {
            inode,
            size: 0,
            last_accessed: now,
            last_modified: now,
            last_metadata_changed: now,
            kind,
            mode: mode & !(S_ISUID | S_ISGID),
            hardlinks: 1,
            uid,
            gid,
        };
        self.dir_insert(parent, name, (inode, kind));
        self.metadata.insert(inode, attrs);
        self.xattrs.insert(inode, NameMap::new());
        proof {
            assert(xattr_view(self.xattrs@[inode]) =~= Map::empty());
            assert(self.model().xattrs =~= old(self).model().xattrs.insert(inode, Map::empty()));
        }
        self.touch_dir(parent, now);
        Ok((inode, attrs))
    }

    /// Creates an empty directory `name` in `parent`, owned by `uid`/`gid`,
    /// and returns its attributes.
    pub fn mkdir(
        &mut self,
        parent: Inode,
        name: &str,
        uid: u32,
        gid: u32,
        mode: u16,
        now: Timestamp,
    ) -> (r: Result<InodeAttributes, ErrorCode>)
        requires
            old(self).wf(),
        ensures
            final(self).wf(),
            (final(self).model(), r) == old(self).model().mkdir(parent, name, uid, gid, mode, now),
    {
        proof {
            lemma_mkdir_wf(self.model(), parent, name, uid, gid, mode, now);
        }
        if name_bytes(name) > MAX_NAME_LENGTH as usize {
            return Err(ErrorCode::NameTooLong);
        }
        let pa = match self.attrs_of(parent) {
            Some(a) => a,
            None => return Err(ErrorCode::InodeDoesNotExist),
        };
        if !check_access(pa.uid, pa.gid, pa.mode, uid, gid, W_OK) {
            return Err(ErrorCode::AccessDenied);
        }
        if !self.directories.contains_key(&parent) {
            return Err(ErrorCode::InodeDoesNotExist);
        }
        if self.entry_of(parent, name).is_some() {
            return Err(ErrorCode::AlreadyExists);
        }
        if self.next_inode == u64::MAX {
            return Err(ErrorCode::Uncategorized);
        }
        let inode = self.allocate_inode();
        let attrs = InodeAttributes {
            inode,
            size: BLOCK_SIZE,
            last_accessed: now,
            last_modified: now,
            last_metadata_changed: now,
            kind: FileKind::Directory,
            mode: mode & !(S_ISUID | S_ISGID),
            hardlinks: 2,
            uid,
            gid,
        };
        self.dir_insert(parent, name, (inode, FileKind::Directory));
        self.directories.insert(inode, NameMap::new());
        self.directory_parents.insert(inode, parent);
        self.metadata.insert(inode, attrs);
        self.xattrs.insert(inode, NameMap::new());
        proof {
            let m0 = old(self).model();
            assert(self.model().dirs =~= add_entry(m0.dirs, parent, name@, (inode, FileKind::Directory)).insert(inode, Map::empty()));
            assert(xattr_view(self.xattrs@[inode]) =~= Map::empty());
            assert(self.model().xattrs =~= m0.xattrs.insert(inode, Map::empty()));
        }
        self.touch_dir(parent, now);
        Ok(attrs)
    }
}

impl MetadataStorage {
    /// Removes the entry `name` from directory `parent` and drops one link
    /// of its inode, which must not be a directory (see `rmdir`). When that
    /// was the last link the inode is removed and its number is returned, so
    /// that its data can be deleted.
    pub fn unlink(&mut self, parent: Inode, name: &str, ctx: UserContext, now: Timestamp) -> (r: Result<Option<Inode>, ErrorCode>)
        requires
            old(self).wf(),
        ensures
            final(self).wf(),
            (final(self).model(), r) == old(self).model().unlink(parent, name, ctx, now),
    {
        proof {
            lemma_unlink_wf(self.model(), parent, name, ctx, now);
        }
        if name_bytes(name) > MAX_NAME_LENGTH as usize {
            return Err(ErrorCode::NameTooLong);
        }
        if !self.directories.contains_key(&parent) {
            return Err(ErrorCode::InodeDoesNotExist);
        }
        let pa = match self.attrs_of(parent) {
            Some(a) => a,
            None => return Err(ErrorCode::InodeDoesNotExist),
        };
        let e = match self.entry_of(parent, name) {
            Some(e) => e,
            None => return Err(ErrorCode::DoesNotExist),
        };
        let inode = e.0;
        proof {
            assert(self.model().dirs[parent].contains_key(name@));
        }
        let ia = self.attrs_of(inode).unwrap();
        if !check_access(pa.uid, pa.gid, pa.mode, ctx.uid, ctx.gid, W_OK) {
            return Err(ErrorCode::AccessDenied);
        }
        if pa.mode & S_ISVTX != 0 && ctx.uid != 0 && ctx.uid != pa.uid && ctx.uid != ia.uid {
            return Err(ErrorCode::AccessDenied);
        }
        if ia.kind == FileKind::Directory {
            return Err(ErrorCode::OperationNotPermitted);
        }
        self.touch_dir(parent, now);
        self.dir_remove(parent, name);
        let a = self.attrs_of(inode).unwrap();
        proof {
            assert(old(self).model().inode_ok(inode));
        }
        let hardlinks = a.hardlinks - 1;
        if hardlinks == 0 {
            let ghost m1 = self.model();
            self.metadata.remove(&inode);
            self.xattrs.remove(&inode);
            proof {
                assert(self.model().attrs =~= m1.attrs.remove(inode));
                assert(self.model().xattrs =~= m1.xattrs.remove(inode));
            }
            Ok(Some(inode))
        } else {
            self.set_attrs(inode, InodeAttributes { hardlinks, last_metadata_changed: now, ..a });
            Ok(None)
        }
    }

    /// Removes the empty directory `name` from directory `parent`.
    pub fn rmdir(&mut self, parent: Inode, name: &str, ctx: UserContext, now: Timestamp) -> (r: Result<(), ErrorCode>)
        requires
            old(self).wf(),
        ensures
            final(self).wf(),
            (final(self).model(), r) == old(self).model().rmdir(parent, name, ctx, now),
    {
        proof {
            lemma_rmdir_wf(self.model(), parent, name, ctx, now);
        }
        if name_bytes(name) > MAX_NAME_LENGTH as usize {
            return Err(ErrorCode::NameTooLong);
        }
        if !self.directories.contains_key(&parent) {
            return Err(ErrorCode::InodeDoesNotExist);
        }
        let pa = match self.attrs_of(parent) {
            Some(a) => a,
            None => return Err(ErrorCode::InodeDoesNotExist),
        };
        let e = match self.entry_of(parent, name) {
            Some(e) => e,
            None => return Err(ErrorCode::DoesNotExist),
        };
        let inode = e.0;
        proof {
            assert(self.model().dirs[parent].contains_key(name@));
        }
        let ia = self.attrs_of(inode).unwrap();
        if ia.kind != FileKind::Directory {
            return Err(ErrorCode::OperationNotPermitted);
        }
        if self.dir_non_empty(inode) {
            return Err(ErrorCode::NotEmpty);
        }
        if !check_access(pa.uid, pa.gid, pa.mode, ctx.uid, ctx.gid, W_OK) {
            return Err(ErrorCode::AccessDenied);
        }
        if pa.mode & S_ISVTX != 0 && ctx.uid != 0 && ctx.uid != pa.uid && ctx.uid != ia.uid {
            return Err(ErrorCode::AccessDenied);
        }
        proof {
            if inode == parent {
                assert(self.model().dirs[inode].contains_key(name@));
            }
        }
        let ghost m0 = self.model();
        self.dir_remove(parent, name);
        let ghost m1 = self.model();
        self.directories.remove(&inode);
        self.directory_parents.remove(&inode);
        self.metadata.remove(&inode);
        self.xattrs.remove(&inode);
        proof {
            assert(self.model().dirs =~= m1.dirs.remove(inode));
            assert(self.model().parents =~= m0.parents.remove(inode));
            assert(self.model().attrs =~= m0.attrs.remove(inode));
            assert(self.model().xattrs =~= m0.xattrs.remove(inode));
        }
        self.touch_dir(parent, now);
        Ok(())
    }

    /// Moves the entry `name` of `parent` to `new_name` in `new_parent`. An
    /// entry already there is replaced: an empty directory goes away, a file
    /// loses that link, and when it was the file's last link its number is
    /// returned so that its data can be deleted; this holds too when the
    /// entry replaced is another name of the same file. Renaming an entry
    /// onto itself only touches the times. A directory cannot move into
    /// itself or below itself.
    pub fn rename(
        &mut self,
        parent: Inode,
        name: &str,
        new_parent: Inode,
        new_name: &str,
        ctx: UserContext,
        now: Timestamp,
    ) -> (r: Result<Option<Inode>, ErrorCode>)
        requires
            old(self).wf(),
        ensures
            final(self).wf(),
            (final(self).model(), r) == old(self).model().rename(parent, name, new_parent, new_name, ctx, now),
    {
        proof {
            lemma_rename_wf(self.model(), parent, name, new_parent, new_name, ctx, now);
        }
        if name_bytes(name) > MAX_NAME_LENGTH as usize || name_bytes(new_name) > MAX_NAME_LENGTH as usize {
            return Err(ErrorCode::NameTooLong);
        }
        if !self.directories.contains_key(&parent) {
            return Err(ErrorCode::InodeDoesNotExist);
        }
        let pa = match self.attrs_of(parent) {
            Some(a) => a,
            None => return Err(ErrorCode::InodeDoesNotExist),
        };
        let e = match self.entry_of(parent, name) {
            Some(e) => e,
            None => return Err(ErrorCode::DoesNotExist),
        };
        let inode = e.0;
        proof {
            assert(self.model().dirs[parent].contains_key(name@));
        }
        let ia = self.attrs_of(inode).unwrap();
        if !check_access(pa.uid, pa.gid, pa.mode, ctx.uid, ctx.gid, W_OK) {
            return Err(ErrorCode::AccessDenied);
        }
        if pa.mode & S_ISVTX != 0 && ctx.uid != 0 && ctx.uid != pa.uid && ctx.uid != ia.uid {
            return Err(ErrorCode::AccessDenied);
        }
        let npa = match self.attrs_of(new_parent) {
            Some(a) => a,
            None => return Err(ErrorCode::InodeDoesNotExist),
        };
        if !self.directories.contains_key(&new_parent) {
            return Err(ErrorCode::InodeDoesNotExist);
        }
        if !check_access(npa.uid, npa.gid, npa.mode, ctx.uid, ctx.gid, W_OK) {
            return Err(ErrorCode::AccessDenied);
        }
        let dest = self.entry_of(new_parent, new_name);
        match dest {
            Some(d) => {
                proof {
                    assert(self.model().dirs[new_parent].contains_key(new_name@));
                }
                let da = self.attrs_of(d.0).unwrap();
                if npa.mode & S_ISVTX != 0 && ctx.uid != 0 && ctx.uid != npa.uid && ctx.uid != da.uid {
                    return Err(ErrorCode::AccessDenied);
                }
                if self.dir_non_empty(d.0) {
                    return Err(ErrorCode::NotEmpty);
                }
            },
            None => {},
        }
        if ia.kind == FileKind::Directory && parent != new_parent
            && !check_access(ia.uid, ia.gid, ia.mode, ctx.uid, ctx.gid, W_OK) {
            return Err(ErrorCode::AccessDenied);
        }
        if ia.kind == FileKind::Directory && self.reaches_up(new_parent, inode) {
            return Err(ErrorCode::BadRequest);
        }
        if parent == new_parent && same_name(name, new_name) {
            self.touch_dir(parent, now);
            self.touch_dir(new_parent, now);
            self.touch_ctime(inode, now);
            return Ok(None);
        }
        let is_dir = self.directories.contains_key(&inode);
        self.dir_remove(parent, name);
        self.dir_insert(new_parent, new_name, e);
        if is_dir {
            self.directory_parents.insert(inode, new_parent);
        }
        self.touch_dir(parent, now);
        self.touch_dir(new_parent, now);
        self.touch_ctime(inode, now);
        match dest {
            None => Ok(None),
            Some(d) => Ok(self.drop_replaced(d.0, now)),
        }
    }

    /// Whether `i` is directory `d` or one of its ancestors.
    fn reaches_up(&self, d: Inode, i: Inode) -> (r: bool)
        requires
            self.wf(),
            self.model().dirs.contains_key(d),
        ensures
            r == reaches(self.model().parents, d, i, self.model().parents.len()),
    {
        let ghost m = self.model();
        let mut cur = d;
        let mut fuel: usize = self.directory_parents.len();
        while cur != i && fuel > 0 && cur != ROOT_INODE
            invariant
                self.wf(),
                m == self.model(),
                m.dirs.contains_key(cur),
                fuel <= m.parents.len(),
                reaches(m.parents, d, i, m.parents.len()) == reaches(m.parents, cur, i, fuel as nat),
            decreases fuel,
        {
            proof {
                assert(crate::model::has_parent_entry(m.dirs, m.parents, cur));
            }
            cur = *self.directory_parents.get(&cur).unwrap();
            fuel = fuel - 1;
        }
        cur == i
    }

    /// Drops the link to `j` that a rename replaced.
    fn drop_replaced(&mut self, j: Inode, now: Timestamp) -> (r: Option<Inode>)
        requires
            old(self).maps_wf(),
            old(self).model().attrs.contains_key(j),
            old(self).model().attrs[j].hardlinks >= 1,
        ensures
            final(self).maps_wf(),
            (final(self).model(), r) == old(self).model().drop_replaced(j, now),
    {
        let ghost m0 = self.model();
        if self.directories.contains_key(&j) {
            self.directories.remove(&j);
            self.directory_parents.remove(&j);
            self.metadata.remove(&j);
            self.xattrs.remove(&j);
            proof {
                assert(self.model().dirs =~= m0.dirs.remove(j));
                assert(self.model().parents =~= m0.parents.remove(j));
                assert(self.model().attrs =~= m0.attrs.remove(j));
                assert(self.model().xattrs =~= m0.xattrs.remove(j));
            }
            None
        } else {
            let a = self.attrs_of(j).unwrap();
            let hardlinks = a.hardlinks - 1;
            if hardlinks == 0 {
                self.metadata.remove(&j);
                self.xattrs.remove(&j);
                proof {
                    assert(self.model().attrs =~= m0.attrs.remove(j));
                    assert(self.model().xattrs =~= m0.xattrs.remove(j));
                }
                Some(j)
            } else {
                self.set_attrs(j, InodeAttributes { hardlinks, last_metadata_changed: now, ..a });
                None
            }
        }
    }

    /// Adds the entry `new_name`, which must be free, in `new_parent` for
    /// the existing file `inode`, which gains one link. Directories cannot be
    /// linked.
    pub fn hardlink(&mut self, inode: Inode, new_parent: Inode, new_name: &str, ctx: UserContext, now: Timestamp) -> (r: Result<(), ErrorCode>)
        requires
            old(self).wf(),
        ensures
            final(self).wf(),
            (final(self).model(), r) == old(self).model().hardlink(inode, new_parent, new_name, ctx, now),
    {
        proof {
            lemma_hardlink_wf(self.model(), inode, new_parent, new_name, ctx, now);
        }
        if name_bytes(new_name) > MAX_NAME_LENGTH as usize {
            return Err(ErrorCode::NameTooLong);
        }
        let npa = match self.attrs_of(new_parent) {
            Some(a) => a,
            None => return Err(ErrorCode::InodeDoesNotExist),
        };
        if !check_access(npa.uid, npa.gid, npa.mode, ctx.uid, ctx.gid, W_OK) {
            return Err(ErrorCode::AccessDenied);
        }
        let a = match self.attrs_of(inode) {
            Some(a) => a,
            None => return Err(ErrorCode::InodeDoesNotExist),
        };
        if !self.directories.contains_key(&new_parent) {
            return Err(ErrorCode::InodeDoesNotExist);
        }
        if a.kind == FileKind::Directory {
            return Err(ErrorCode::OperationNotPermitted);
        }
        if self.entry_of(new_parent, new_name).is_some() {
            return Err(ErrorCode::AlreadyExists);
        }
        if a.hardlinks == u32::MAX {
            return Err(ErrorCode::Uncategorized);
        }
        self.touch_dir(new_parent, now);
        self.set_attrs(inode, InodeAttributes { hardlinks: a.hardlinks + 1, last_metadata_changed: now, ..a });
        self.dir_insert(new_parent, new_name, (inode, a.kind));
        Ok(())
    }
}

/// Whether two names are the same.
fn same_name(a: &str, b: &str) -> (r: bool)
    ensures
        r == (a@ == b@),
{
    let x: String = a.to_owned();
    let y: String = b.to_owned();
    x == y
}

/// The length of `name` in bytes.
fn name_bytes(name: &str) -> (r: usize)
    ensures
        r == encode_utf8(name@).len(),
{
    let b = name.as_bytes();
    assert(name.spec_bytes() == encode_utf8(name@));
    b.len()
}

fn copy_bytes(b: &[u8]) -> (r: Vec<u8>)
    ensures
        r@ == b@,
{
    let mut r: Vec<u8> = Vec::new();
    let mut i: usize = 0;
    while i < b.len()
        invariant
            i <= b@.len(),
            r@ == b@.subrange(0, i as int),
        decreases b@.len() - i,
    {
        r.push(b[i]);
        i = i + 1;
    }
    assert(b@.subrange(0, b@.len() as int) =~= b@);
    r
}

/// `keys` names each key of `m` exactly once.
pub open spec fn lists_keys(keys: Seq<String>, m: Map<Seq<char>, Seq<u8>>) -> bool {
    &&& forall|k: Seq<char>| #[trigger] m.contains_key(k) <==> exists|i: int| 0 <= i < keys.len() && (#[trigger] keys[i])@ == k
    &&& forall|i: int, j: int|
        0 <= i < keys.len() && 0 <= j < keys.len() && i != j ==> (#[trigger] keys[i])@ != (#[trigger] keys[j])@
}

/// `v` lists directory `inode`, whose parent is `parent` and whose
/// descriptor is `d`: `.` and `..` first, then each entry of `d` once.
pub open spec fn lists_dir(v: Seq<(u64, String, FileKind)>, inode: u64, parent: u64, d: Map<Seq<char>, (u64, FileKind)>) -> bool {
    &&& v.len() >= 2
    &&& v[0].0 == inode && v[0].1@ == seq!['.'] && v[0].2 == FileKind::Directory
    &&& v[1].0 == parent && v[1].1@ == seq!['.', '.'] && v[1].2 == FileKind::Directory
    &&& forall|k: int| 2 <= k < v.len() ==> d.contains_key((#[trigger] v[k]).1@) && d[v[k].1@] == (v[k].0, v[k].2)
    &&& forall|n: Seq<char>| #[trigger] d.contains_key(n) ==> exists|k: int| 2 <= k < v.len() && (#[trigger] v[k]).1@ == n
    &&& forall|i: int, j: int| 2 <= i < v.len() && 2 <= j < v.len() && i != j ==> (#[trigger] v[i]).1@ != (#[trigger] v[j]).1@
}

/// The bytes of a successful result.
pub open spec fn bytes_result(r: Result<Vec<u8>, ErrorCode>) -> Result<Seq<u8>, ErrorCode> {
    match r {
        Ok(v) => Ok(v@),
        Err(e) => Err(e),
    }
}

impl MetadataStorage {
    /// The inode that `name` names in directory `parent`; the requester
    /// needs search permission on `parent`.
    pub fn lookup(&self, parent: Inode, name: &str, ctx: UserContext) -> (r: Result<Option<Inode>, ErrorCode>)
        requires
            self.wf(),
        ensures
            r == self.model().lookup(parent, name, ctx),
    {
        if name_bytes(name) > MAX_NAME_LENGTH as usize {
            return Err(ErrorCode::NameTooLong);
        }
        let pa = match self.attrs_of(parent) {
            Some(a) => a,
            None => return Err(ErrorCode::InodeDoesNotExist),
        };
        if !check_access(pa.uid, pa.gid, pa.mode, ctx.uid, ctx.gid, X_OK) {
            return Err(ErrorCode::AccessDenied);
        }
        match self.entry_of(parent, name) {
            Some(e) => Ok(Some(e.0)),
            None => Ok(None),
        }
    }

    /// The attributes of `inode`.
    pub fn get_attributes(&self, inode: Inode) -> (r: Result<InodeAttributes, ErrorCode>)
        ensures
            r == self.model().getattr(inode),
    {
        match self.attrs_of(inode) {
            Some(a) => Ok(a),
            None => Err(ErrorCode::InodeDoesNotExist),
        }
    }

    /// Checks that the requester may read `inode`; the bytes themselves come
    /// from the data store.
    pub fn read(&self, inode: Inode, ctx: UserContext) -> (r: Result<(), ErrorCode>)
        ensures
            r == self.model().read(inode, ctx),
    {
        let a = match self.attrs_of(inode) {
            Some(a) => a,
            None => return Err(ErrorCode::InodeDoesNotExist),
        };
        if !check_access(a.uid, a.gid, a.mode, ctx.uid, ctx.gid, R_OK) {
            return Err(ErrorCode::AccessDenied);
        }
        Ok(())
    }

    /// The value of extended attribute `key` of `inode`.
    pub fn get_xattr(&self, inode: Inode, key: &str) -> (r: Result<Vec<u8>, ErrorCode>)
        requires
            self.wf(),
        ensures
            bytes_result(r) == self.model().get_xattr(inode, key@),
    {
        if !self.metadata.contains_key(&inode) {
            return Err(ErrorCode::InodeDoesNotExist);
        }
        let x = self.xattrs.get(&inode).unwrap();
        match x.get(key) {
            Some(v) => {
                let r = v.clone();
                assert(r@ =~= v@);
                Ok(r)
            },
            None => Err(ErrorCode::MissingXattrKey),
        }
    }

    /// The keys of the extended attributes of `inode`, each once; none for
    /// an inode that does not exist.
    pub fn list_xattrs(&self, inode: Inode) -> (r: Result<Vec<String>, ErrorCode>)
        requires
            self.wf(),
        ensures
            r is Ok,
            !self.model().attrs.contains_key(inode) ==> r->Ok_0@.len() == 0,
            self.model().attrs.contains_key(inode) ==> lists_keys(r->Ok_0@, self.model().xattrs[inode]),
    {
        match self.xattrs.get(&inode) {
            Some(x) => {
                let keys = x.keys();
                proof {
                    assert(self.model().xattrs[inode] == xattr_view(*x));
                    assert forall|k: Seq<char>| #[trigger] self.model().xattrs[inode].contains_key(k) <==> exists|i: int|
                        0 <= i < keys@.len() && (#[trigger] keys@[i])@ == k by {
                        assert(xattr_view(*x).contains_key(k) == x@.contains_key(k));
                    }
                    assert forall|i: int, j: int|
                        0 <= i < keys@.len() && 0 <= j < keys@.len() && i != j implies (#[trigger] keys@[i])@
                            != (#[trigger] keys@[j])@ by {
                        assert(x.entries@[i].0@ == keys@[i]@);
                        assert(x.entries@[j].0@ == keys@[j]@);
                    }
                }
                Ok(keys)
            },
            None => {
                assert(!self.model().xattrs.contains_key(inode));
                assert(!self.model().attrs.contains_key(inode));
                Ok(Vec::new())
            },
        }
    }

    /// Sets extended attribute `key` of `inode` to `value`.
    pub fn set_xattr(&mut self, inode: Inode, key: &str, value: &[u8], now: Timestamp) -> (r: Result<(), ErrorCode>)
        requires
            old(self).wf(),
        ensures
            final(self).wf(),
            (final(self).model(), r) == old(self).model().set_xattr(inode, key@, value@, now),
    {
        proof {
            lemma_attr_ops_wf(self.model(), inode, UserContext { uid: 0, gid: 0 }, now);
            assert(self.model().set_xattr(inode, key@, value@, now).0.wf());
        }
        if !self.metadata.contains_key(&inode) {
            return Err(ErrorCode::InodeDoesNotExist);
        }
        let ghost m0 = self.model();
        let mut x = self.xattrs.remove(&inode).unwrap();
        let v = copy_bytes(value);
        x.insert(key, v);
        self.xattrs.insert(inode, x);
        proof {
            assert(xattr_view(self.xattrs@[inode]) =~= m0.xattrs[inode].insert(key@, value@));
            assert(self.model().xattrs =~= m0.xattrs.insert(inode, m0.xattrs[inode].insert(key@, value@)));
        }
        self.touch_ctime(inode, now);
        Ok(())
    }

    /// Removes extended attribute `key` of `inode`, if it is there.
    pub fn remove_xattr(&mut self, inode: Inode, key: &str, now: Timestamp) -> (r: Result<(), ErrorCode>)
        requires
            old(self).wf(),
        ensures
            final(self).wf(),
            (final(self).model(), r) == old(self).model().remove_xattr(inode, key@, now),
    {
        proof {
            lemma_attr_ops_wf(self.model(), inode, UserContext { uid: 0, gid: 0 }, now);
            assert(self.model().remove_xattr(inode, key@, now).0.wf());
        }
        if !self.metadata.contains_key(&inode) {
            return Err(ErrorCode::InodeDoesNotExist);
        }
        let ghost m0 = self.model();
        let mut x = self.xattrs.remove(&inode).unwrap();
        x.remove(key);
        self.xattrs.insert(inode, x);
        proof {
            assert(xattr_view(self.xattrs@[inode]) =~= m0.xattrs[inode].remove(key@));
            assert(self.model().xattrs =~= m0.xattrs.insert(inode, m0.xattrs[inode].remove(key@)));
        }
        self.touch_ctime(inode, now);
        Ok(())
    }

    /// Sets the access and modification times of `inode`. A time whose
    /// nanoseconds are `UTIME_NOW` stands for `now`. The owner may set any
    /// time; anyone else with write permission may only set them to now.
    pub fn utimens(
        &mut self,
        inode: Inode,
        atime: Option<Timestamp>,
        mtime: Option<Timestamp>,
        ctx: UserContext,
        now: Timestamp,
    ) -> (r: Result<(), ErrorCode>)
        requires
            old(self).wf(),
        ensures
            final(self).wf(),
            (final(self).model(), r) == old(self).model().utimens(inode, atime, mtime, ctx, now),
    {
        proof {
            lemma_attr_ops_wf(self.model(), inode, ctx, now);
            assert(self.model().utimens(inode, atime, mtime, ctx, now).0.wf());
        }
        let a = match self.attrs_of(inode) {
            Some(a) => a,
            None => return Err(ErrorCode::InodeDoesNotExist),
        };
        let not_owner = a.uid != ctx.uid;
        if not_owner && !check_access(a.uid, a.gid, a.mode, ctx.uid, ctx.gid, W_OK) {
            return Err(ErrorCode::AccessDenied);
        }
        let atime_now = match atime {
            Some(t) => t.nanos == UTIME_NOW,
            None => true,
        };
        let mtime_now = match mtime {
            Some(t) => t.nanos == UTIME_NOW,
            None => true,
        };
        if not_owner && ctx.uid != 0 && (!atime_now || !mtime_now) {
            return Err(ErrorCode::OperationNotPermitted);
        }
        let last_accessed = match atime {
            Some(t) => if t.nanos == UTIME_NOW { now } else { t },
            None => a.last_accessed,
        };
        let last_modified = match mtime {
            Some(t) => if t.nanos == UTIME_NOW { now } else { t },
            None => a.last_modified,
        };
        self.set_attrs(inode, InodeAttributes { last_accessed, last_modified, ..a });
        Ok(())
    }

    /// Sets the permission bits of `inode`; only root and the owner may.
    pub fn chmod(&mut self, inode: Inode, mode: u32, ctx: UserContext, now: Timestamp) -> (r: Result<(), ErrorCode>)
        requires
            old(self).wf(),
        ensures
            final(self).wf(),
            (final(self).model(), r) == old(self).model().chmod(inode, mode, ctx, now),
    {
        proof {
            lemma_attr_ops_wf(self.model(), inode, ctx, now);
            assert(self.model().chmod(inode, mode, ctx, now).0.wf());
        }
        let a = match self.attrs_of(inode) {
            Some(a) => a,
            None => return Err(ErrorCode::InodeDoesNotExist),
        };
        if ctx.uid != 0 && a.uid != ctx.uid {
            return Err(ErrorCode::OperationNotPermitted);
        }
        let m = mode as u16;
        self.set_attrs(inode, InodeAttributes { mode: m & !(S_ISUID | S_ISGID), last_metadata_changed: now, ..a });
        Ok(())
    }

    /// Changes the owner and/or group of `inode`. Only root may change the
    /// owner (the owner may restate itself); root and the owner may change
    /// the group.
    pub fn chown(
        &mut self,
        inode: Inode,
        uid: Option<u32>,
        gid: Option<u32>,
        ctx: UserContext,
        now: Timestamp,
    ) -> (r: Result<(), ErrorCode>)
        requires
            old(self).wf(),
        ensures
            final(self).wf(),
            (final(self).model(), r) == old(self).model().chown(inode, uid, gid, ctx, now),
    {
        proof {
            lemma_attr_ops_wf(self.model(), inode, ctx, now);
            assert(self.model().chown(inode, uid, gid, ctx, now).0.wf());
        }
        let a = match self.attrs_of(inode) {
            Some(a) => a,
            None => return Err(ErrorCode::InodeDoesNotExist),
        };
        match uid {
            Some(u) => {
                if ctx.uid != 0 && !(u == a.uid && ctx.uid == a.uid) {
                    return Err(ErrorCode::OperationNotPermitted);
                }
            },
            None => {},
        }
        if gid.is_some() && ctx.uid != 0 && ctx.uid != a.uid {
            return Err(ErrorCode::OperationNotPermitted);
        }
        let new_uid = match uid {
            Some(u) => u,
            None => a.uid,
        };
        let new_gid = match gid {
            Some(g) => g,
            None => a.gid,
        };
        let ctime = if uid.is_some() || gid.is_some() { now } else { a.last_metadata_changed };
        self.set_attrs(inode, InodeAttributes { uid: new_uid, gid: new_gid, last_metadata_changed: ctime, ..a });
        Ok(())
    }

    /// Sets the size of `inode` to `new_length`.
    pub fn truncate(&mut self, inode: Inode, new_length: u64, ctx: UserContext, now: Timestamp) -> (r: Result<(), ErrorCode>)
        requires
            old(self).wf(),
        ensures
            final(self).wf(),
            (final(self).model(), r) == old(self).model().truncate(inode, new_length, ctx, now),
    {
        proof {
            lemma_attr_ops_wf(self.model(), inode, ctx, now);
            assert(self.model().truncate(inode, new_length, ctx, now).0.wf());
        }
        if new_length > MAX_FILE_SIZE {
            return Err(ErrorCode::FileTooLarge);
        }
        let a = match self.attrs_of(inode) {
            Some(a) => a,
            None => return Err(ErrorCode::InodeDoesNotExist),
        };
        if !check_access(a.uid, a.gid, a.mode, ctx.uid, ctx.gid, W_OK) {
            return Err(ErrorCode::AccessDenied);
        }
        self.set_attrs(inode, InodeAttributes { size: new_length, last_modified: now, last_metadata_changed: now, ..a });
        Ok(())
    }

    /// Records a write of `length` bytes at `offset` into `inode`: the size
    /// grows to cover it. The bytes themselves go to the data store.
    pub fn write(&mut self, inode: Inode, offset: u64, length: u32, ctx: UserContext, now: Timestamp) -> (r: Result<(), ErrorCode>)
        requires
            old(self).wf(),
        ensures
            final(self).wf(),
            (final(self).model(), r) == old(self).model().write(inode, offset, length, ctx, now),
    {
        proof {
            lemma_attr_ops_wf(self.model(), inode, ctx, now);
            assert(self.model().write(inode, offset, length, ctx, now).0.wf());
        }
        if offset > MAX_FILE_SIZE || length as u64 > MAX_FILE_SIZE - offset {
            return Err(ErrorCode::FileTooLarge);
        }
        let a = match self.attrs_of(inode) {
            Some(a) => a,
            None => return Err(ErrorCode::InodeDoesNotExist),
        };
        if !check_access(a.uid, a.gid, a.mode, ctx.uid, ctx.gid, W_OK) {
            return Err(ErrorCode::AccessDenied);
        }
        let end = offset + length as u64;
        let size = if a.size >= end { a.size } else { end };
        self.set_attrs(inode, InodeAttributes { size, last_modified: now, last_metadata_changed: now, ..a });
        Ok(())
    }
}

impl MetadataStorage {
    /// The entries of directory `inode`: itself as `.`, its parent as `..`,
    /// then each entry of its descriptor once, in no particular order.
    pub fn readdir(&self, inode: Inode) -> (r: Result<Vec<(Inode, String, FileKind)>, ErrorCode>)
        requires
            self.wf(),
        ensures
            r is Err <==> !self.model().dirs.contains_key(inode),
            r is Err ==> r == Err::<Vec<(Inode, String, FileKind)>, ErrorCode>(ErrorCode::DoesNotExist),
            r is Ok ==> lists_dir(r->Ok_0@, inode, self.model().parents[inode], self.model().dirs[inode]),
    {
        let dm = match self.directories.get(&inode) {
            Some(d) => d,
            None => return Err(ErrorCode::DoesNotExist),
        };
        proof {
            assert(self.model().dirs.contains_key(inode));
        }
        let parent = *self.directory_parents.get(&inode).unwrap();
        let mut result: Vec<(Inode, String, FileKind)> = Vec::new();
        result.push((inode, ".".to_owned(), FileKind::Directory));
        result.push((parent, "..".to_owned(), FileKind::Directory));
        proof {
            reveal_strlit(".");
            reveal_strlit("..");
        }
        let ghost s = dm.entries@;
        let mut i: usize = 0;
        while i < dm.entries.len()
            invariant
                dm.entries@ == s,
                i <= s.len(),
                result@.len() == i + 2,
                result@[0].0 == inode && result@[0].1@ == seq!['.'] && result@[0].2 == FileKind::Directory,
                result@[1].0 == parent && result@[1].1@ == seq!['.', '.'] && result@[1].2 == FileKind::Directory,
                forall|k: int| 0 <= k < i ==> (#[trigger] result@[k + 2]).0 == s[k].1.0 && result@[k + 2].1@ == s[k].0@
                    && result@[k + 2].2 == s[k].1.1,
            decreases s.len() - i,
        {
            let e = &dm.entries[i];
            result.push((e.1.0, e.0.clone(), e.1.1));
            i = i + 1;
        }
        proof {
            let v = result@;
            let d = self.model().dirs[inode];
            assert(d == dm@);
            assert forall|k: int| 2 <= k < v.len() implies d.contains_key((#[trigger] v[k]).1@) && d[v[k].1@] == (v[k].0, v[k].2) by {
                assert(v[(k - 2) + 2] == v[k]);
                lemma_pair_in_map(s, k - 2);
            }
            assert forall|n: Seq<char>| #[trigger] d.contains_key(n) implies exists|k: int| 2 <= k < v.len() && (#[trigger] v[k]).1@ == n by {
                let c = choose|c: int| 0 <= c < s.len() && (#[trigger] s[c]).0@ == n;
                assert(v[c + 2].1@ == n);
            }
            assert forall|a: int, b: int| 2 <= a < v.len() && 2 <= b < v.len() && a != b implies (#[trigger] v[a]).1@ != (#[trigger] v[b]).1@ by {
                assert(v[(a - 2) + 2] == v[a]);
                assert(v[(b - 2) + 2] == v[b]);
            }
        }
        Ok(result)
    }
}

/// A well-formed store holds a well-formed namespace.
pub proof fn lemma_store_model_wf(s: &MetadataStorage)
    requires
        s.wf(),
    ensures
        s.model().wf(),
{
}

} // verus!
