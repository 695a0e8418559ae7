//! Every operation of the model keeps `FsModel::wf`.
use vstd::prelude::*;
use crate::model::{add_entry, del_entry, has_parent_entry, links, own_link, DirModel, FsModel, InodeAttributes};
use vstd::utf8::encode_utf8;
use crate::types::{FileKind, Timestamp, UserContext, ROOT_INODE};

verus! {

pub proof fn lemma_links_add(dirs: Map<u64, DirModel>, d: u64, name: Seq<char>, e: (u64, FileKind), j: u64)
    requires
        dirs.contains_key(d),
    ensures
        links(add_entry(dirs, d, name, e), j) == if e.0 == j {
            links(dirs, j).insert((d, name))
        } else {
            links(dirs, j).remove((d, name))
        },
{
    let d1 = add_entry(dirs, d, name, e);
    if e.0 == j {
        assert(links(d1, j) =~= links(dirs, j).insert((d, name)));
    } else {
        assert(links(d1, j) =~= links(dirs, j).remove((d, name)));
    }
}

pub proof fn lemma_links_del(dirs: Map<u64, DirModel>, d: u64, name: Seq<char>, j: u64)
    requires
        dirs.contains_key(d),
    ensures
        links(del_entry(dirs, d, name), j) == links(dirs, j).remove((d, name)),
{
    assert(links(del_entry(dirs, d, name), j) =~= links(dirs, j).remove((d, name)));
}

pub proof fn lemma_links_new_dir(dirs: Map<u64, DirModel>, d: u64, j: u64)
    requires
        !dirs.contains_key(d),
    ensures
        links(dirs.insert(d, Map::empty()), j) == links(dirs, j),
{
    assert(links(dirs.insert(d, Map::empty()), j) =~= links(dirs, j));
}

pub proof fn lemma_links_drop_dir(dirs: Map<u64, DirModel>, d: u64, j: u64)
    requires
        dirs.contains_key(d) ==> dirs[d] == Map::<Seq<char>, (u64, FileKind)>::empty(),
    ensures
        links(dirs.remove(d), j) == links(dirs, j),
{
    assert(links(dirs.remove(d), j) =~= links(dirs, j));
}

/// Adding an entry at a free name keeps every directory's parent entry.
pub proof fn lemma_parents_add(dirs: Map<u64, DirModel>, parents: Map<u64, u64>, p: u64, nm: Seq<char>, e: (u64, FileKind))
    requires
        dirs.contains_key(p),
        !dirs[p].contains_key(nm),
    ensures
        forall|d: u64| has_parent_entry(dirs, parents, d) ==> has_parent_entry(add_entry(dirs, p, nm, e), parents, d),
{
    let d1 = add_entry(dirs, p, nm, e);
    assert forall|d: u64| has_parent_entry(dirs, parents, d) implies has_parent_entry(d1, parents, d) by {
        let q = parents[d];
        let w = choose|w: Seq<char>| #[trigger] dirs[q].contains_key(w) && dirs[q][w] == (d, FileKind::Directory);
        assert(d1[q].contains_key(w) && d1[q][w] == (d, FileKind::Directory));
    }
}

/// Removing an entry keeps the parent entry of every directory it did not
/// name.
pub proof fn lemma_parents_del(dirs: Map<u64, DirModel>, parents: Map<u64, u64>, p: u64, nm: Seq<char>)
    requires
        dirs.contains_key(p),
        dirs[p].contains_key(nm),
    ensures
        forall|d: u64| has_parent_entry(dirs, parents, d) && dirs[p][nm] != (d, FileKind::Directory)
            ==> has_parent_entry(del_entry(dirs, p, nm), parents, d),
{
    let d1 = del_entry(dirs, p, nm);
    assert forall|d: u64| has_parent_entry(dirs, parents, d) && dirs[p][nm] != (d, FileKind::Directory)
        implies has_parent_entry(d1, parents, d) by {
        let q = parents[d];
        let w = choose|w: Seq<char>| #[trigger] dirs[q].contains_key(w) && dirs[q][w] == (d, FileKind::Directory);
        assert(d1[q].contains_key(w) && d1[q][w] == (d, FileKind::Directory));
    }
}

/// An inode that the store does not hold is named by no entry.
pub proof fn lemma_no_links_to_absent(m: FsModel, i: u64)
    requires
        m.wf(),
        !m.attrs.contains_key(i),
    ensures
        links(m.dirs, i) == Set::<(u64, Seq<char>)>::empty(),
{
    assert forall|p: (u64, Seq<char>)| !links(m.dirs, i).contains(p) by {
        if m.dirs.contains_key(p.0) && m.dirs[p.0].contains_key(p.1) {
        }
    }
    assert(links(m.dirs, i) =~= Set::<(u64, Seq<char>)>::empty());
}

pub proof fn lemma_initial_wf(now: Timestamp)
    ensures
        FsModel::initial(now).wf(),
{
    let m = FsModel::initial(now);
    assert(links(m.dirs, ROOT_INODE) =~= Set::<(u64, Seq<char>)>::empty());
}

/// Changing the attributes of a held inode, but not its number, link count,
/// kind or size bound, keeps the invariant.
pub proof fn lemma_set_attrs_wf_except(m: FsModel, x: Option<u64>, i: u64, a: InodeAttributes)
    requires
        m.wf_except(x),
        m.attrs.contains_key(i),
        a.inode == m.attrs[i].inode,
        a.hardlinks == m.attrs[i].hardlinks,
        a.kind == m.attrs[i].kind,
        a.size <= crate::types::MAX_FILE_SIZE,
    ensures
        m.set_attrs(i, a).wf_except(x),
{
    let m1 = m.set_attrs(i, a);
    assert forall|j: u64| #[trigger] m1.attrs.contains_key(j) implies m1.inode_ok(j) by {
        assert(m.inode_ok(j));
    }
}

pub proof fn lemma_set_attrs_wf(m: FsModel, i: u64, a: InodeAttributes)
    requires
        m.wf(),
        m.attrs.contains_key(i),
        a.inode == m.attrs[i].inode,
        a.hardlinks == m.attrs[i].hardlinks,
        a.kind == m.attrs[i].kind,
        a.size <= crate::types::MAX_FILE_SIZE,
    ensures
        m.set_attrs(i, a).wf(),
{
    lemma_set_attrs_wf_except(m, None, i, a);
}

pub proof fn lemma_touch_wf_except(m: FsModel, x: Option<u64>, i: u64, now: Timestamp)
    requires
        m.wf_except(x),
        m.attrs.contains_key(i),
    ensures
        m.touch_dir(i, now).wf_except(x),
        m.touch_ctime(i, now).wf_except(x),
{
    assert(m.inode_ok(i));
    lemma_set_attrs_wf_except(m, x, i, crate::model::with_mtime_ctime(m.attrs[i], now));
    lemma_set_attrs_wf_except(m, x, i, crate::model::with_ctime(m.attrs[i], now));
}

pub proof fn lemma_touch_wf(m: FsModel, i: u64, now: Timestamp)
    requires
        m.wf(),
        m.attrs.contains_key(i),
    ensures
        m.touch_dir(i, now).wf(),
        m.touch_ctime(i, now).wf(),
{
    lemma_touch_wf_except(m, None, i, now);
}

/// A fresh inode number is held by no inode, no descriptor and no entry.
pub proof fn lemma_fresh(m: FsModel)
    requires
        m.wf(),
    ensures
        !m.attrs.contains_key(m.next_inode),
        !m.dirs.contains_key(m.next_inode),
        !m.parents.contains_key(m.next_inode),
        links(m.dirs, m.next_inode) == Set::<(u64, Seq<char>)>::empty(),
{
    if m.attrs.contains_key(m.next_inode) {
        assert(m.inode_ok(m.next_inode));
    }
    lemma_no_links_to_absent(m, m.next_inode);
}

pub proof fn lemma_create_wf(
    m: FsModel,
    parent: u64,
    name: &str,
    uid: u32,
    gid: u32,
    mode: u16,
    kind: FileKind,
    now: Timestamp,
)
    requires
        m.wf(),
    ensures
        m.create(parent, name, uid, gid, mode, kind, now).0.wf(),
{
    let r = m.create(parent, name, uid, gid, mode, kind, now).1;
    if r is Ok {
        let i = m.next_inode;
        let a = InodeAttributes { size: 0, hardlinks: 1, ..m.new_attrs(uid, gid, mode, kind, now) };
        let m1 = FsModel {
            dirs: add_entry(m.dirs, parent, name@, (i, kind)),
            attrs: m.attrs.insert(i, a),
            xattrs: m.xattrs.insert(i, Map::empty()),
            next_inode: (i + 1) as u64,
            ..m
        };
        lemma_fresh(m);
        lemma_parents_add(m.dirs, m.parents, parent, name@, (i, kind));
        assert forall|j: u64| #[trigger] m1.attrs.contains_key(j) implies m1.inode_ok(j) by {
            lemma_links_add(m.dirs, parent, name@, (i, kind), j);
            if j != i {
                assert(m.inode_ok(j));
            }
        }
        assert forall|d: u64, n: Seq<char>| #[trigger] m1.dirs.contains_key(d) && #[trigger] m1.dirs[d].contains_key(n)
            implies m1.attrs.contains_key(m1.dirs[d][n].0) && m1.attrs[m1.dirs[d][n].0].kind == m1.dirs[d][n].1
                && encode_utf8(n).len() <= crate::types::MAX_NAME_LENGTH && m1.dirs[d][n].0 != ROOT_INODE by {
            if !(d == parent && n == name@) {
                assert(m.dirs[d].contains_key(n));
            }
        }
        assert forall|d: u64| #[trigger] m1.dirs.contains_key(d) && d != ROOT_INODE implies has_parent_entry(m1.dirs, m1.parents, d) by {
            assert(has_parent_entry(m.dirs, m.parents, d));
        }
        lemma_touch_wf(m1, parent, now);
    }
}

pub proof fn lemma_mkdir_wf(m: FsModel, parent: u64, name: &str, uid: u32, gid: u32, mode: u16, now: Timestamp)
    requires
        m.wf(),
    ensures
        m.mkdir(parent, name, uid, gid, mode, now).0.wf(),
{
    let r = m.mkdir(parent, name, uid, gid, mode, now).1;
    if r is Ok {
        let i = m.next_inode;
        let a = m.new_attrs(uid, gid, mode, FileKind::Directory, now);
        let d0 = add_entry(m.dirs, parent, name@, (i, FileKind::Directory));
        let m1 = FsModel {
            dirs: d0.insert(i, Map::empty()),
            parents: m.parents.insert(i, parent),
            attrs: m.attrs.insert(i, a),
            xattrs: m.xattrs.insert(i, Map::empty()),
            next_inode: (i + 1) as u64,
        };
        lemma_fresh(m);
        lemma_parents_add(m.dirs, m.parents, parent, name@, (i, FileKind::Directory));
        assert forall|j: u64| #[trigger] m1.attrs.contains_key(j) implies m1.inode_ok(j) by {
            lemma_links_add(m.dirs, parent, name@, (i, FileKind::Directory), j);
            lemma_links_new_dir(d0, i, j);
            if j != i {
                assert(m.inode_ok(j));
            }
        }
        assert forall|d: u64, n: Seq<char>| #[trigger] m1.dirs.contains_key(d) && #[trigger] m1.dirs[d].contains_key(n)
            implies m1.attrs.contains_key(m1.dirs[d][n].0) && m1.attrs[m1.dirs[d][n].0].kind == m1.dirs[d][n].1
                && encode_utf8(n).len() <= crate::types::MAX_NAME_LENGTH && m1.dirs[d][n].0 != ROOT_INODE by {
            if d != i && !(d == parent && n == name@) {
                assert(m.dirs[d].contains_key(n));
            }
        }
        assert forall|d: u64| #[trigger] m1.dirs.contains_key(d) && d != ROOT_INODE implies has_parent_entry(m1.dirs, m1.parents, d) by {
            if d == i {
                assert(m1.dirs[parent].contains_key(name@));
            } else {
                assert(has_parent_entry(m.dirs, m.parents, d));
                assert(has_parent_entry(d0, m.parents, d));
                let q = m.parents[d];
                let w = choose|w: Seq<char>| #[trigger] d0[q].contains_key(w) && d0[q][w] == (d, FileKind::Directory);
                assert(m1.dirs[q].contains_key(w));
            }
        }
        lemma_touch_wf(m1, parent, now);
    }
}

pub proof fn lemma_hardlink_wf(m: FsModel, inode: u64, new_parent: u64, new_name: &str, ctx: UserContext, now: Timestamp)
    requires
        m.wf(),
    ensures
        m.hardlink(inode, new_parent, new_name, ctx, now).0.wf(),
{
    let r = m.hardlink(inode, new_parent, new_name, ctx, now).1;
    if r is Ok {
        let a = m.attrs[inode];
        lemma_touch_wf(m, new_parent, now);
        let m1 = m.touch_dir(new_parent, now);
        let a1 = InodeAttributes { hardlinks: (a.hardlinks + 1) as u32, last_metadata_changed: now, ..a };
        let m2 = m1.set_attrs(inode, a1);
        let m3 = FsModel { dirs: add_entry(m2.dirs, new_parent, new_name@, (inode, a.kind)), ..m2 };
        assert(inode != new_parent);
        lemma_parents_add(m.dirs, m.parents, new_parent, new_name@, (inode, a.kind));
        assert forall|j: u64| #[trigger] m3.attrs.contains_key(j) implies m3.inode_ok(j) by {
            lemma_links_add(m.dirs, new_parent, new_name@, (inode, a.kind), j);
            assert(m.inode_ok(j));
        }
        assert forall|d: u64, n: Seq<char>| #[trigger] m3.dirs.contains_key(d) && #[trigger] m3.dirs[d].contains_key(n)
            implies m3.attrs.contains_key(m3.dirs[d][n].0) && m3.attrs[m3.dirs[d][n].0].kind == m3.dirs[d][n].1
                && encode_utf8(n).len() <= crate::types::MAX_NAME_LENGTH && m3.dirs[d][n].0 != ROOT_INODE by {
            if !(d == new_parent && n == new_name@) {
                assert(m.dirs[d].contains_key(n));
            }
        }
        assert forall|d: u64| #[trigger] m3.dirs.contains_key(d) && d != ROOT_INODE implies has_parent_entry(m3.dirs, m3.parents, d) by {
            assert(has_parent_entry(m.dirs, m.parents, d));
        }
    }
}

pub proof fn lemma_unlink_wf(m: FsModel, parent: u64, name: &str, ctx: UserContext, now: Timestamp)
    requires
        m.wf(),
    ensures
        m.unlink(parent, name, ctx, now).0.wf(),
{
    let r = m.unlink(parent, name, ctx, now).1;
    if r is Ok {
        let i = m.dirs[parent][name@].0;
        let m1 = m.touch_dir(parent, now);
        let m2 = FsModel { dirs: del_entry(m1.dirs, parent, name@), ..m1 };
        let a = m2.attrs[i];
        let a1 = InodeAttributes { hardlinks: (a.hardlinks - 1) as u32, last_metadata_changed: now, ..a };
        assert(m.attrs.contains_key(i));
        assert(m.inode_ok(i));
        assert(!m.dirs.contains_key(i));
        assert(links(m.dirs, i).contains((parent, name@)));
        lemma_links_del(m.dirs, parent, name@, i);
        lemma_parents_del(m.dirs, m.parents, parent, name@);
        if a1.hardlinks == 0 {
            let m3 = FsModel { attrs: m2.attrs.remove(i), xattrs: m2.xattrs.remove(i), ..m2 };
            assert(links(m2.dirs, i).len() == 0);
            assert(links(m2.dirs, i) =~= Set::<(u64, Seq<char>)>::empty());
            assert forall|j: u64| #[trigger] m3.attrs.contains_key(j) implies m3.inode_ok(j) by {
                lemma_links_del(m.dirs, parent, name@, j);
                assert(m.inode_ok(j));
            }
            assert forall|d: u64, n: Seq<char>| #[trigger] m3.dirs.contains_key(d) && #[trigger] m3.dirs[d].contains_key(n)
                implies m3.attrs.contains_key(m3.dirs[d][n].0) && m3.attrs[m3.dirs[d][n].0].kind == m3.dirs[d][n].1
                    && encode_utf8(n).len() <= crate::types::MAX_NAME_LENGTH && m3.dirs[d][n].0 != ROOT_INODE by {
                assert(m.dirs[d].contains_key(n));
                if m3.dirs[d][n].0 == i {
                    assert(links(m2.dirs, i).contains((d, n)));
                }
            }
            assert forall|d: u64| #[trigger] m3.dirs.contains_key(d) && d != ROOT_INODE implies has_parent_entry(m3.dirs, m3.parents, d) by {
                assert(has_parent_entry(m.dirs, m.parents, d));
            }
        } else {
            let m3 = m2.set_attrs(i, a1);
            assert forall|j: u64| #[trigger] m3.attrs.contains_key(j) implies m3.inode_ok(j) by {
                lemma_links_del(m.dirs, parent, name@, j);
                assert(m.inode_ok(j));
            }
            assert forall|d: u64, n: Seq<char>| #[trigger] m3.dirs.contains_key(d) && #[trigger] m3.dirs[d].contains_key(n)
                implies m3.attrs.contains_key(m3.dirs[d][n].0) && m3.attrs[m3.dirs[d][n].0].kind == m3.dirs[d][n].1
                    && encode_utf8(n).len() <= crate::types::MAX_NAME_LENGTH && m3.dirs[d][n].0 != ROOT_INODE by {
                assert(m.dirs[d].contains_key(n));
            }
            assert forall|d: u64| #[trigger] m3.dirs.contains_key(d) && d != ROOT_INODE implies has_parent_entry(m3.dirs, m3.parents, d) by {
                assert(has_parent_entry(m.dirs, m.parents, d));
            }
        }
    }
}

pub proof fn lemma_rmdir_wf(m: FsModel, parent: u64, name: &str, ctx: UserContext, now: Timestamp)
    requires
        m.wf(),
    ensures
        m.rmdir(parent, name, ctx, now).0.wf(),
{
    let r = m.rmdir(parent, name, ctx, now).1;
    if r is Ok {
        let i = m.dirs[parent][name@].0;
        let d0 = del_entry(m.dirs, parent, name@);
        let m1 = FsModel {
            dirs: d0.remove(i),
            parents: m.parents.remove(i),
            attrs: m.attrs.remove(i),
            xattrs: m.xattrs.remove(i),
            ..m
        };
        assert(m.attrs.contains_key(i));
        assert(m.inode_ok(i));
        assert(m.dirs.contains_key(i));
        assert(m.dirs[i] == Map::<Seq<char>, (u64, FileKind)>::empty());
        assert(links(m.dirs, i).contains((parent, name@)));
        assert(i != parent) by {
            if i == parent {
                assert(m.dirs[i].contains_key(name@));
            }
        }
        lemma_links_del(m.dirs, parent, name@, i);
        lemma_parents_del(m.dirs, m.parents, parent, name@);
        assert(links(d0, i).len() == 0);
        assert(links(d0, i) =~= Set::<(u64, Seq<char>)>::empty());
        assert forall|j: u64| #[trigger] m1.attrs.contains_key(j) implies m1.inode_ok(j) by {
            lemma_links_del(m.dirs, parent, name@, j);
            lemma_links_drop_dir(d0, i, j);
            assert(m.inode_ok(j));
        }
        assert forall|d: u64, n: Seq<char>| #[trigger] m1.dirs.contains_key(d) && #[trigger] m1.dirs[d].contains_key(n)
            implies m1.attrs.contains_key(m1.dirs[d][n].0) && m1.attrs[m1.dirs[d][n].0].kind == m1.dirs[d][n].1
                && encode_utf8(n).len() <= crate::types::MAX_NAME_LENGTH && m1.dirs[d][n].0 != ROOT_INODE by {
            assert(m.dirs[d].contains_key(n));
            if m1.dirs[d][n].0 == i {
                assert(links(d0, i).contains((d, n)));
            }
        }
        assert forall|d: u64| #[trigger] m1.dirs.contains_key(d) && d != ROOT_INODE implies has_parent_entry(m1.dirs, m1.parents, d) by {
            assert(has_parent_entry(m.dirs, m.parents, d));
            assert(has_parent_entry(d0, m.parents, d));
            let q = m.parents[d];
            let w = choose|w: Seq<char>| #[trigger] d0[q].contains_key(w) && d0[q][w] == (d, FileKind::Directory);
            assert(q != i) by {
                if q == i {
                    assert(m.dirs[i].contains_key(w));
                }
            }
            assert(m1.dirs[q].contains_key(w));
        }
        lemma_touch_wf(m1, parent, now);
    }
}

pub proof fn lemma_drop_replaced_wf(m: FsModel, j: u64, now: Timestamp)
    requires
        m.wf_except(Some(j)),
        m.attrs.contains_key(j),
        j != ROOT_INODE,
        m.dirs.contains_key(j) ==> m.dirs[j] == Map::<Seq<char>, (u64, FileKind)>::empty()
            && links(m.dirs, j) == Set::<(u64, Seq<char>)>::empty(),
        !m.dirs.contains_key(j) ==> links(m.dirs, j).len() < m.attrs[j].hardlinks,
    ensures
        m.drop_replaced(j, now).0.wf(),
{
    assert(m.inode_ok(j));
    if m.dirs.contains_key(j) {
        let m1 = m.drop_replaced(j, now).0;
        assert forall|k: u64| #[trigger] m1.attrs.contains_key(k) implies m1.inode_ok(k) by {
            lemma_links_drop_dir(m.dirs, j, k);
            assert(m.inode_ok(k));
        }
        assert forall|d: u64, n: Seq<char>| #[trigger] m1.dirs.contains_key(d) && #[trigger] m1.dirs[d].contains_key(n)
            implies m1.attrs.contains_key(m1.dirs[d][n].0) && m1.attrs[m1.dirs[d][n].0].kind == m1.dirs[d][n].1
                && encode_utf8(n).len() <= crate::types::MAX_NAME_LENGTH && m1.dirs[d][n].0 != ROOT_INODE by {
            assert(m.dirs[d].contains_key(n));
            if m1.dirs[d][n].0 == j {
                assert(links(m.dirs, j).contains((d, n)));
            }
        }
        assert forall|d: u64| #[trigger] m1.dirs.contains_key(d) && d != ROOT_INODE implies has_parent_entry(m1.dirs, m1.parents, d) by {
            assert(has_parent_entry(m.dirs, m.parents, d));
            let q = m.parents[d];
            let w = choose|w: Seq<char>| #[trigger] m.dirs[q].contains_key(w) && m.dirs[q][w] == (d, FileKind::Directory);
            assert(q != j) by {
                if q == j {
                    assert(m.dirs[j].contains_key(w));
                }
            }
            assert(m1.dirs[q].contains_key(w));
        }
    } else {
        let a = m.attrs[j];
        let a1 = InodeAttributes { hardlinks: (a.hardlinks - 1) as u32, last_metadata_changed: now, ..a };
        if a1.hardlinks == 0 {
            let m1 = FsModel { attrs: m.attrs.remove(j), xattrs: m.xattrs.remove(j), ..m };
            assert(links(m.dirs, j) =~= Set::<(u64, Seq<char>)>::empty());
            assert forall|k: u64| #[trigger] m1.attrs.contains_key(k) implies m1.inode_ok(k) by {
                assert(m.inode_ok(k));
            }
            assert forall|d: u64, n: Seq<char>| #[trigger] m1.dirs.contains_key(d) && #[trigger] m1.dirs[d].contains_key(n)
                implies m1.attrs.contains_key(m1.dirs[d][n].0) && m1.attrs[m1.dirs[d][n].0].kind == m1.dirs[d][n].1
                    && encode_utf8(n).len() <= crate::types::MAX_NAME_LENGTH && m1.dirs[d][n].0 != ROOT_INODE by {
                assert(m.dirs[d].contains_key(n));
                if m1.dirs[d][n].0 == j {
                    assert(links(m.dirs, j).contains((d, n)));
                }
            }
        } else {
            let m1 = m.set_attrs(j, a1);
            assert forall|k: u64| #[trigger] m1.attrs.contains_key(k) implies m1.inode_ok(k) by {
                assert(m.inode_ok(k));
            }
        }
    }
}

pub proof fn lemma_rename_wf(
    m: FsModel,
    parent: u64,
    name: &str,
    new_parent: u64,
    new_name: &str,
    ctx: UserContext,
    now: Timestamp,
)
    requires
        m.wf(),
    ensures
        m.rename(parent, name, new_parent, new_name, ctx, now).0.wf(),
{
    let r = m.rename(parent, name, new_parent, new_name, ctx, now).1;
    if r is Ok && m.dirs.contains_key(parent) && m.dirs[parent].contains_key(name@)
        && parent == new_parent && name@ == new_name@ {
        let i = m.dirs[parent][name@].0;
        lemma_touch_wf(m, parent, now);
        lemma_touch_wf(m.touch_dir(parent, now), new_parent, now);
        lemma_touch_wf(m.touch_dir(parent, now).touch_dir(new_parent, now), i, now);
    } else if r is Ok && m.dirs.contains_key(parent) && m.dirs[parent].contains_key(name@) {
        let e = m.dirs[parent][name@];
        let i = e.0;
        let dest = m.entry(new_parent, new_name@);
        let d0 = del_entry(m.dirs, parent, name@);
        let dirs = add_entry(d0, new_parent, new_name@, e);
        let parents = if m.dirs.contains_key(i) { m.parents.insert(i, new_parent) } else { m.parents };
        let m1 = FsModel { dirs, parents, ..m };
        assert(m.attrs.contains_key(i));
        assert(links(m.dirs, i).contains((parent, name@)));
        lemma_parents_del(m.dirs, m.parents, parent, name@);
        assert forall|j: u64| #[trigger] m1.attrs.contains_key(j) implies m1.inode_ok(j) && (dest == Some(j) ==>
            links(m1.dirs, j).len() + own_link(m1.dirs, j) < m1.attrs[j].hardlinks) && (dest == Some(j)
                && m1.dirs.contains_key(j) ==> links(m1.dirs, j) == Set::<(u64, Seq<char>)>::empty()) by {
            lemma_links_del(m.dirs, parent, name@, j);
            lemma_links_add(d0, new_parent, new_name@, e, j);
            assert(m.inode_ok(j));
            if dest == Some(j) {
                assert(links(m.dirs, j).contains((new_parent, new_name@)));
                if j == i {
                    let s0 = links(m.dirs, i);
                    assert(s0.remove((parent, name@)).contains((new_parent, new_name@)));
                    assert(s0.remove((parent, name@)).remove((new_parent, new_name@)).len() + 2 == s0.len());
                    assert(!m.dirs.contains_key(i));
                }
                if m1.dirs.contains_key(j) {
                    assert(links(m.dirs, j).len() <= 1);
                    assert(links(m1.dirs, j).len() == 0);
                    assert(links(m1.dirs, j) =~= Set::<(u64, Seq<char>)>::empty());
                }
            }
        }
        assert forall|d: u64, n: Seq<char>| #[trigger] m1.dirs.contains_key(d) && #[trigger] m1.dirs[d].contains_key(n)
            implies m1.attrs.contains_key(m1.dirs[d][n].0) && m1.attrs[m1.dirs[d][n].0].kind == m1.dirs[d][n].1
                && encode_utf8(n).len() <= crate::types::MAX_NAME_LENGTH && m1.dirs[d][n].0 != ROOT_INODE by {
            assert(m.dirs[parent].contains_key(name@));
            if !(d == new_parent && n == new_name@) {
                assert(m.dirs[d].contains_key(n));
            }
        }
        assert forall|d: u64| #[trigger] m1.dirs.contains_key(d) && d != ROOT_INODE && dest != Some(d)
            implies has_parent_entry(m1.dirs, m1.parents, d) by {
            if d == i {
                assert(m.inode_ok(i));
                assert(m.dirs[parent].contains_key(name@));
                assert(e.1 == FileKind::Directory);
                assert(m1.parents[i] == new_parent);
                assert(m1.dirs[new_parent].contains_key(new_name@));
            } else {
                assert(has_parent_entry(m.dirs, m.parents, d));
                assert(has_parent_entry(d0, m.parents, d));
                let q = m.parents[d];
                let w = choose|w: Seq<char>| #[trigger] d0[q].contains_key(w) && d0[q][w] == (d, FileKind::Directory);
                assert(!(q == new_parent && w == new_name@));
                assert(m1.parents[d] == q);
                assert(m1.dirs[q].contains_key(w) && m1.dirs[q][w] == (d, FileKind::Directory));
            }
        }
        assert(m1.wf_except(dest));
        lemma_touch_wf_except(m1, dest, parent, now);
        let m2 = m1.touch_dir(parent, now);
        lemma_touch_wf_except(m2, dest, new_parent, now);
        let m3 = m2.touch_dir(new_parent, now);
        lemma_touch_wf_except(m3, dest, i, now);
        let m4 = m3.touch_ctime(i, now);
        if dest is Some {
            let j = dest->0;
            assert(m.inode_ok(j));
            if m.dirs.contains_key(j) {
                assert(j != new_parent) by {
                    if j == new_parent {
                        assert(m.dirs[j].contains_key(new_name@));
                    }
                }
                assert(j != parent) by {
                    if j == parent {
                        assert(m.dirs[j].contains_key(name@));
                    }
                }
            }
            assert(m1.attrs.contains_key(j));
            assert(m1.inode_ok(j));
            assert(m4.dirs == m1.dirs);
            assert(m4.attrs.contains_key(j));
            assert(m4.attrs[j].hardlinks == m1.attrs[j].hardlinks);
            assert(m.dirs[new_parent].contains_key(new_name@));
            assert(j != ROOT_INODE);
            if m4.dirs.contains_key(j) {
                assert(links(m1.dirs, j) == Set::<(u64, Seq<char>)>::empty());
                assert(m.dirs.contains_key(j));
                assert(m4.dirs[j] == m.dirs[j]);
                assert(m4.dirs[j] == Map::<Seq<char>, (u64, FileKind)>::empty());
            }
            lemma_drop_replaced_wf(m4, j, now);
        }
    }
}

pub proof fn lemma_attr_ops_wf(m: FsModel, inode: u64, ctx: UserContext, now: Timestamp)
    requires
        m.wf(),
    ensures
        forall|key: Seq<char>, value: Seq<u8>| #[trigger] m.set_xattr(inode, key, value, now).0.wf(),
        forall|key: Seq<char>| #[trigger] m.remove_xattr(inode, key, now).0.wf(),
        forall|atime: Option<Timestamp>, mtime: Option<Timestamp>| #[trigger] m.utimens(inode, atime, mtime, ctx, now).0.wf(),
        forall|mode: u32| #[trigger] m.chmod(inode, mode, ctx, now).0.wf(),
        forall|uid: Option<u32>, gid: Option<u32>| #[trigger] m.chown(inode, uid, gid, ctx, now).0.wf(),
        forall|len: u64| #[trigger] m.truncate(inode, len, ctx, now).0.wf(),
        forall|offset: u64, length: u32| #[trigger] m.write(inode, offset, length, ctx, now).0.wf(),
{
    if m.attrs.contains_key(inode) {
        assert(m.inode_ok(inode));
        assert forall|key: Seq<char>, value: Seq<u8>| #[trigger] m.set_xattr(inode, key, value, now).0.wf() by {
            let m1 = FsModel { xattrs: m.xattrs.insert(inode, m.xattrs[inode].insert(key, value)), ..m };
            assert forall|j: u64| #[trigger] m1.attrs.contains_key(j) implies m1.inode_ok(j) by {
                assert(m.inode_ok(j));
            }
            lemma_touch_wf(m1, inode, now);
        }
        assert forall|key: Seq<char>| #[trigger] m.remove_xattr(inode, key, now).0.wf() by {
            let m1 = FsModel { xattrs: m.xattrs.insert(inode, m.xattrs[inode].remove(key)), ..m };
            assert forall|j: u64| #[trigger] m1.attrs.contains_key(j) implies m1.inode_ok(j) by {
                assert(m.inode_ok(j));
            }
            lemma_touch_wf(m1, inode, now);
        }
        assert forall|atime: Option<Timestamp>, mtime: Option<Timestamp>| #[trigger] m.utimens(inode, atime, mtime, ctx, now).0.wf() by {
            let a = m.attrs[inode];
            lemma_set_attrs_wf(m, inode, InodeAttributes {
                last_accessed: crate::model::resolve_time(atime, a.last_accessed, now),
                last_modified: crate::model::resolve_time(mtime, a.last_modified, now),
                ..a
            });
        }
        assert forall|mode: u32| #[trigger] m.chmod(inode, mode, ctx, now).0.wf() by {
            lemma_set_attrs_wf(m, inode, InodeAttributes {
                mode: crate::model::clear_suid(mode as u16),
                last_metadata_changed: now,
                ..m.attrs[inode]
            });
        }
        assert forall|uid: Option<u32>, gid: Option<u32>| #[trigger] m.chown(inode, uid, gid, ctx, now).0.wf() by {
            let a = m.attrs[inode];
            lemma_set_attrs_wf(m, inode, InodeAttributes {
                uid: if uid is Some { uid->0 } else { a.uid },
                gid: if gid is Some { gid->0 } else { a.gid },
                last_metadata_changed: if uid is Some || gid is Some { now } else { a.last_metadata_changed },
                ..a
            });
        }
        assert forall|len: u64| #[trigger] m.truncate(inode, len, ctx, now).0.wf() by {
            if len <= crate::types::MAX_FILE_SIZE {
                lemma_set_attrs_wf(m, inode, InodeAttributes { size: len, ..crate::model::with_mtime_ctime(m.attrs[inode], now) });
            }
        }
        assert forall|offset: u64, length: u32| #[trigger] m.write(inode, offset, length, ctx, now).0.wf() by {
            if offset + length <= crate::types::MAX_FILE_SIZE {
                let a0 = m.attrs[inode];
                let end = (offset + length) as u64;
                lemma_set_attrs_wf(m, inode, InodeAttributes {
                    size: if a0.size >= end { a0.size } else { end },
                    ..crate::model::with_mtime_ctime(a0, now)
                });
            }
        }
    }
}

} // verus!
