//! Properties of the namespace that hold across operations.
use vstd::prelude::*;
use vstd::utf8::encode_utf8;
use crate::invariants::lemma_no_links_to_absent;
use crate::model::{links, FsModel, InodeAttributes};
use crate::types::{ErrorCode, FileKind, Timestamp, UserContext, MAX_FILE_SIZE, MAX_NAME_LENGTH, S_ISVTX};

verus! {

/// Every entry of every directory names an inode that the store holds.
pub proof fn law_entries_name_live_inodes(m: FsModel)
    requires
        m.wf(),
    ensures
        forall|d: u64, n: Seq<char>|
            #[trigger] m.dirs.contains_key(d) && #[trigger] m.dirs[d].contains_key(n)
                ==> m.attrs.contains_key(m.dirs[d][n].0),
{
}

/// No inode that the store holds has a link count of zero.
pub proof fn law_no_inode_without_links(m: FsModel)
    requires
        m.wf(),
    ensures
        forall|i: u64| #[trigger] m.attrs.contains_key(i) ==> m.attrs[i].hardlinks != 0,
{
    assert forall|i: u64| #[trigger] m.attrs.contains_key(i) implies m.attrs[i].hardlinks != 0 by {
        assert(m.inode_ok(i));
    }
}

/// When `unlink` removes the last link of an inode, the inode leaves the
/// store and no entry names it any more.
pub proof fn law_unlink_last_link_removes_inode(m: FsModel, parent: u64, name: &str, ctx: UserContext, now: Timestamp)
    requires
        m.wf(),
    ensures
        ({
            let (m2, r) = m.unlink(parent, name, ctx, now);
            r matches Ok(Some(i)) ==> !m2.attrs.contains_key(i) && links(m2.dirs, i) == Set::<(u64, Seq<char>)>::empty()
        }),
{
    crate::invariants::lemma_unlink_wf(m, parent, name, ctx, now);
    let (m2, r) = m.unlink(parent, name, ctx, now);
    match r {
        Ok(Some(i)) => lemma_no_links_to_absent(m2, i),
        _ => {},
    }
}

/// The attributes that `create` reports are those that `getattr` then
/// gives for the new inode.
pub proof fn law_create_then_getattr(
    m: FsModel,
    parent: u64,
    name: &str,
    uid: u32,
    gid: u32,
    mode: u16,
    kind: FileKind,
    now: Timestamp,
)
    requires
        m.wf(),
    ensures
        ({
            let (m2, r) = m.create(parent, name, uid, gid, mode, kind, now);
            r matches Ok((i, a)) ==> m2.getattr(i) == Ok::<InodeAttributes, ErrorCode>(a)
        }),
{
    let r = m.create(parent, name, uid, gid, mode, kind, now).1;
    if r is Ok {
        assert(parent != m.next_inode) by {
            if parent == m.next_inode {
                assert(m.inode_ok(parent));
            }
        }
    }
}

/// After `set_xattr(k, v)`, `get_xattr(k)` gives `v` and `k` is among the
/// keys of the inode.
pub proof fn law_set_xattr_then_get(m: FsModel, inode: u64, key: Seq<char>, value: Seq<u8>, now: Timestamp)
    requires
        m.wf(),
    ensures
        ({
            let (m2, r) = m.set_xattr(inode, key, value, now);
            r is Ok ==> m2.get_xattr(inode, key) == Ok::<Seq<u8>, ErrorCode>(value) && m2.xattrs[inode].contains_key(key)
        }),
{
}

/// A successful `write` leaves the size at the larger of the old size and
/// the end of the write; a successful `truncate` sets it to the new length.
pub proof fn law_size_follows_writes(
    m: FsModel,
    inode: u64,
    offset: u64,
    length: u32,
    new_length: u64,
    ctx: UserContext,
    now: Timestamp,
)
    requires
        m.wf(),
    ensures
        ({
            let (m2, r) = m.write(inode, offset, length, ctx, now);
            r is Ok ==> m2.attrs[inode].size == if m.attrs[inode].size >= offset + length {
                m.attrs[inode].size as int
            } else {
                offset + length
            }
        }),
        ({
            let (m3, r) = m.truncate(inode, new_length, ctx, now);
            r is Ok ==> m3.attrs[inode].size == new_length
        }),
{
}

/// What `lookup(parent, name)` finds after an operation that succeeded:
/// the new inode under the name that `create`, `mkdir` or `hardlink` added
/// or that `rename` moved to, nothing under a name that `unlink`, `rmdir` or
/// `rename` took away, and the same as before under every other name.
pub proof fn law_lookup_follows_entries(
    m: FsModel,
    parent: u64,
    name: &str,
    other_parent: u64,
    other_name: &str,
    uid: u32,
    gid: u32,
    mode: u16,
    kind: FileKind,
    inode: u64,
    ctx: UserContext,
    now: Timestamp,
    p: u64,
    n: Seq<char>,
)
    requires
        m.wf(),
    ensures
        ({
            let (m2, r) = m.create(parent, name, uid, gid, mode, kind, now);
            r matches Ok((i, _)) ==> m2.entry(p, n) == if p == parent && n == name@ { Some(i) } else { m.entry(p, n) }
        }),
        ({
            let (m2, r) = m.mkdir(parent, name, uid, gid, mode, now);
            r matches Ok(a) ==> m2.entry(p, n) == if p == parent && n == name@ { Some(a.inode) } else { m.entry(p, n) }
        }),
        ({
            let (m2, r) = m.hardlink(inode, parent, name, ctx, now);
            r is Ok ==> m2.entry(p, n) == if p == parent && n == name@ { Some(inode) } else { m.entry(p, n) }
        }),
        ({
            let (m2, r) = m.unlink(parent, name, ctx, now);
            r is Ok ==> m2.entry(p, n) == if p == parent && n == name@ { None } else { m.entry(p, n) }
        }),
        ({
            let (m2, r) = m.rmdir(parent, name, ctx, now);
            r is Ok ==> m2.entry(p, n) == if p == parent && n == name@ { None } else { m.entry(p, n) }
        }),
        ({
            let (m2, r) = m.rename(parent, name, other_parent, other_name, ctx, now);
            r is Ok ==> m2.entry(p, n) == if p == other_parent && n == other_name@ {
                m.entry(parent, name@)
            } else if p == parent && n == name@ {
                None
            } else {
                m.entry(p, n)
            }
        }),
{
    let r = m.rmdir(parent, name, ctx, now).1;
    if r is Ok {
        let i = m.dirs[parent][name@].0;
        assert(i != parent) by {
            if i == parent {
                assert(m.dirs[i].contains_key(name@));
            }
        }
        if p == i && m.dirs.contains_key(i) {
            assert(!m.dirs[i].contains_key(n));
        }
    }
}

/// Every operation that takes a name refuses one longer than the limit.
pub proof fn law_long_names_refused(
    m: FsModel,
    parent: u64,
    name: &str,
    other_parent: u64,
    short_name: &str,
    uid: u32,
    gid: u32,
    mode: u16,
    kind: FileKind,
    inode: u64,
    ctx: UserContext,
    now: Timestamp,
)
    requires
        encode_utf8(name@).len() > MAX_NAME_LENGTH,
    ensures
        m.lookup(parent, name, ctx) == Err::<Option<u64>, ErrorCode>(ErrorCode::NameTooLong),
        m.create(parent, name, uid, gid, mode, kind, now) == (m, Err::<(u64, InodeAttributes), ErrorCode>(ErrorCode::NameTooLong)),
        m.mkdir(parent, name, uid, gid, mode, now) == (m, Err::<InodeAttributes, ErrorCode>(ErrorCode::NameTooLong)),
        m.unlink(parent, name, ctx, now) == (m, Err::<Option<u64>, ErrorCode>(ErrorCode::NameTooLong)),
        m.rmdir(parent, name, ctx, now) == (m, Err::<(), ErrorCode>(ErrorCode::NameTooLong)),
        m.hardlink(inode, parent, name, ctx, now) == (m, Err::<(), ErrorCode>(ErrorCode::NameTooLong)),
        m.rename(parent, name, other_parent, short_name, ctx, now) == (m, Err::<Option<u64>, ErrorCode>(ErrorCode::NameTooLong)),
        m.rename(other_parent, short_name, parent, name, ctx, now) == (m, Err::<Option<u64>, ErrorCode>(ErrorCode::NameTooLong)),
{
}

/// `truncate` past the largest file size fails with `FileTooLarge`.
pub proof fn law_truncate_too_large(m: FsModel, inode: u64, new_length: u64, ctx: UserContext, now: Timestamp)
    requires
        new_length > MAX_FILE_SIZE,
    ensures
        m.truncate(inode, new_length, ctx, now) == (m, Err::<(), ErrorCode>(ErrorCode::FileTooLarge)),
{
}

/// `rmdir` of a directory that still has entries fails with `NotEmpty`.
pub proof fn law_rmdir_non_empty(m: FsModel, parent: u64, name: &str, ctx: UserContext, now: Timestamp)
    requires
        m.wf(),
        m.entry(parent, name@) matches Some(d) && m.dirs.contains_key(d) && m.dirs[d].dom().len() > 0,
    ensures
        m.rmdir(parent, name, ctx, now) == (m, Err::<(), ErrorCode>(ErrorCode::NotEmpty)),
{
    let d = m.entry(parent, name@)->0;
    assert(m.dirs[parent].contains_key(name@));
    assert(m.dirs[d] != Map::<Seq<char>, (u64, FileKind)>::empty());
}

/// `rename` onto a directory that still has entries fails with `NotEmpty`
/// when the requester holds every permission the move needs.
pub proof fn law_rename_over_non_empty(
    m: FsModel,
    parent: u64,
    name: &str,
    new_parent: u64,
    new_name: &str,
    now: Timestamp,
)
    requires
        m.wf(),
        encode_utf8(name@).len() <= MAX_NAME_LENGTH,
        encode_utf8(new_name@).len() <= MAX_NAME_LENGTH,
        m.entry(parent, name@) is Some,
        m.attrs.contains_key(new_parent) && m.dirs.contains_key(new_parent),
        m.entry(new_parent, new_name@) matches Some(d) && m.dirs.contains_key(d) && m.dirs[d].dom().len() > 0,
    ensures
        m.rename(parent, name, new_parent, new_name, UserContext { uid: 0, gid: 0 }, now) == (m, Err::<Option<u64>, ErrorCode>(ErrorCode::NotEmpty)),
{
    let d = m.entry(new_parent, new_name@)->0;
    assert(m.dirs[d] != Map::<Seq<char>, (u64, FileKind)>::empty());
}

/// In a sticky directory, a requester who is neither root, nor the
/// directory's owner, nor the target's owner cannot `unlink` the target.
pub proof fn law_sticky_unlink_refused(m: FsModel, parent: u64, name: &str, ctx: UserContext, now: Timestamp)
    requires
        m.wf(),
        m.entry(parent, name@) is Some,
        m.attrs[parent].mode & S_ISVTX != 0,
        ctx.uid != 0,
        ctx.uid != m.attrs[parent].uid,
        ctx.uid != m.attrs[m.entry(parent, name@)->0].uid,
    ensures
        m.unlink(parent, name, ctx, now) == (m, Err::<Option<u64>, ErrorCode>(ErrorCode::AccessDenied)),
{
    assert(m.dirs[parent].contains_key(name@));
}

} // verus!
