//! Client-side state: the table of open file handles and the read-ahead
//! cache that serves the kernel's split reads from one larger fetch.
use bytes::Buf;
use std::collections::HashMap;
use vstd::prelude::*;
use crate::access::{access_allowed, check_access};
use crate::model::InodeAttributes;
use crate::types::{ErrorCode, R_OK, W_OK};

verus! {

broadcast use vstd::std_specs::hash::group_hash_axioms;

/// The kernel splits large reads into pieces of at most this many bytes.
pub const FUSE_MAX_READ_SIZE: u32 = 131072;

/// How much a read-ahead fetches: eight kernel reads.
pub const SPECULATIVE_READ_SIZE: u32 = 1048576;

/// How long cached read-ahead data stays usable, in nanoseconds (1 ms).
pub const READ_AHEAD_TTL_NANOS: u64 = 1000000;

/// Mask of the access-mode bits of `open` flags.
pub const O_ACCMODE: u32 = 3;

/// Access mode: read only.
pub const O_RDONLY: u32 = 0;

/// Access mode: write only.
pub const O_WRONLY: u32 = 1;

/// Access mode: read and write.
pub const O_RDWR: u32 = 2;

/// `open` flag: truncate the file.
pub const O_TRUNC: u32 = 0o1000;

/// What an open handle allows.
#[derive(Clone, Copy, Debug, PartialEq, Eq, Structural)]
pub struct FileHandleAttributes {
    pub read: bool,
    pub write: bool,
}

/// Open file handles, numbered from 1 upwards and never reused.
pub struct FileHandleTable {
    next_handle: u64,
    handles: HashMap<u64, FileHandleAttributes>,
}

impl View for FileHandleTable {
    type V = Map<u64, FileHandleAttributes>;

    closed spec fn view(&self) -> Map<u64, FileHandleAttributes> {
        self.handles@
    }
}

impl FileHandleTable {
    /// The handle that the next `allocate` hands out.
    pub closed spec fn next(&self) -> u64 {
        self.next_handle
    }

    pub closed spec fn wf(&self) -> bool {
        &&& self.next_handle >= 1
        &&& forall|h: u64| #[trigger] self.handles@.contains_key(h) ==> 1 <= h < self.next_handle
    }

    pub fn new() -> (r: FileHandleTable)
        ensures
            r.wf(),
            r@ == Map::<u64, FileHandleAttributes>::empty(),
            r.next() == 1,
    {
        FileHandleTable { next_handle: 1, handles: HashMap::new() }
    }

    /// Opens a new handle with the given rights; `None` once every handle
    /// number has been used.
    pub fn allocate(&mut self, read: bool, write: bool) -> (r: Option<u64>)
        requires
            old(self).wf(),
        ensures
            final(self).wf(),
            r == if old(self).next() == u64::MAX { None } else { Some(old(self).next()) },
            r is Some ==> final(self).next() == old(self).next() + 1,
            match r {
                Some(h) => !old(self)@.contains_key(h) && final(self)@ == old(self)@.insert(
                    h,
                    FileHandleAttributes { read, write },
                ),
                None => final(self)@ == old(self)@,
            },
    {
        if self.next_handle == u64::MAX {
            return None;
        }
        let h = self.next_handle;
        self.next_handle = h + 1;
        self.handles.insert(h, FileHandleAttributes { read, write });
        Some(h)
    }

    /// Whether `handle` is open for reading.
    pub fn check_read(&self, handle: u64) -> (r: bool)
        ensures
            r == (self@.contains_key(handle) && self@[handle].read),
    {
        match self.handles.get(&handle) {
            Some(a) => a.read,
            None => false,
        }
    }

    /// Whether `handle` is open for writing. A handle opened for writing
    /// stays writable whatever later happens to the file's mode.
    pub fn check_write(&self, handle: u64) -> (r: bool)
        ensures
            r == (self@.contains_key(handle) && self@[handle].write),
    {
        match self.handles.get(&handle) {
            Some(a) => a.write,
            None => false,
        }
    }

    /// Closes `handle`.
    pub fn release(&mut self, handle: u64)
        requires
            old(self).wf(),
        ensures
            final(self).wf(),
            final(self)@ == old(self)@.remove(handle),
            final(self).next() == old(self).next(),
    {
        self.handles.remove(&handle);
    }
}

#[verifier::external_type_specification]
#[verifier::external_body]
pub struct ExBytes(bytes::Bytes);

/// The bytes that a `bytes::Bytes` buffer holds.
pub uninterp spec fn bytes_contents(b: bytes::Bytes) -> Seq<u8>;

/// Relies on `From<Vec<u8>> for bytes::Bytes`: the buffer takes over the
/// vector's bytes.
#[verifier::external_body]
fn bytes_from_vec(v: Vec<u8>) -> (r: bytes::Bytes)
    ensures
        bytes_contents(r) == v@,
{
    bytes::Bytes::from(v)
}

/// Relies on `bytes::Bytes::len`: the number of bytes held.
#[verifier::external_body]
fn bytes_len(b: &bytes::Bytes) -> (r: usize)
    ensures
        r == bytes_contents(*b).len(),
{
    b.len()
}

/// Relies on `<bytes::Bytes as bytes::Buf>::advance`: drops the first `n`
/// bytes (it panics when `n` passes the end).
#[verifier::external_body]
fn bytes_advance(b: &mut bytes::Bytes, n: usize)
    requires
        n <= bytes_contents(*old(b)).len(),
    ensures
        bytes_contents(*final(b)) == bytes_contents(*old(b)).subrange(n as int, bytes_contents(*old(b)).len() as int),
{
    b.advance(n)
}

/// Relies on `bytes::Bytes` dereferencing to its bytes: a copy of the first
/// `n` of them (slicing panics when `n` passes the end).
#[verifier::external_body]
fn bytes_prefix(b: &bytes::Bytes, n: usize) -> (r: Vec<u8>)
    requires
        n <= bytes_contents(*b).len(),
    ensures
        r@ == bytes_contents(*b).subrange(0, n as int),
{
    b[..n].to_vec()
}

/// Read-ahead data kept for one handle.
pub struct CachedRead {
    /// The fetched bytes not yet handed out.
    data: bytes::Bytes,
    file_offset: u64,
    process_id: u32,
    read_at: u64,
}

/// What a cache entry stands for.
pub struct CachedView {
    /// The bytes not yet handed out.
    pub data: Seq<u8>,
    /// The file offset of the first of them.
    pub file_offset: u64,
    /// The process that caused the fetch.
    pub process_id: u32,
    /// When the fetch completed, in nanoseconds of a monotonic clock.
    pub read_at: u64,
}

impl CachedRead {
    pub closed spec fn view_of(&self) -> CachedView {
        CachedView {
            data: bytes_contents(self.data),
            file_offset: self.file_offset,
            process_id: self.process_id,
            read_at: self.read_at,
        }
    }
}

/// Whether a cache entry can serve a read of `size` bytes at `offset` from
/// process `pid` at time `now`.
pub open spec fn cache_hit(c: CachedView, offset: u64, size: u32, pid: u32, now: u64) -> bool {
    &&& c.file_offset == offset
    &&& c.process_id == pid
    &&& size <= c.data.len()
    &&& now < c.read_at + READ_AHEAD_TTL_NANOS
    &&& offset + size <= u64::MAX
}

/// Read-ahead data, per file handle.
pub struct ReadAheadCache {
    entries: HashMap<u64, CachedRead>,
}

impl ReadAheadCache {
    /// The cached data of each handle.
    pub closed spec fn view_map(&self) -> Map<u64, CachedView> {
        Map::new(|h: u64| self.entries@.contains_key(h), |h: u64| self.entries@[h].view_of())
    }

    pub fn new() -> (r: ReadAheadCache)
        ensures
            r.view_map() == Map::<u64, CachedView>::empty(),
    {
        let r = ReadAheadCache { entries: HashMap::new() };
        assert(r.view_map() =~= Map::<u64, CachedView>::empty());
        r
    }

    /// Serves a read of `size` bytes at `offset` of `handle`, from process
    /// `pid` at time `now`, out of the cache when the entry of the handle
    /// starts at `offset`, was fetched for `pid`, holds enough bytes and is
    /// less than the time-to-live old. The entry then moves past the bytes
    /// handed out. Otherwise the entry, if any, is dropped and `None` says
    /// that the read has to go to the server.
    pub fn try_read(&mut self, handle: u64, offset: u64, size: u32, pid: u32, now: u64) -> (r: Option<Vec<u8>>)
        ensures
            ({
                let old_map = old(self).view_map();
                if old_map.contains_key(handle) && cache_hit(old_map[handle], offset, size, pid, now) {
                    let c = old_map[handle];
                    &&& r matches Some(v) && v@ == c.data.subrange(0, size as int)
                    &&& final(self).view_map() == old_map.insert(handle, CachedView {
                        data: c.data.subrange(size as int, c.data.len() as int),
                        file_offset: (offset + size) as u64,
                        ..c
                    })
                } else {
                    &&& r is None
                    &&& final(self).view_map() == old_map.remove(handle)
                }
            }),
    {
        let ghost old_map = self.view_map();
        let mut c = match self.entries.remove(&handle) {
            Some(c) => c,
            None => {
                assert(self.view_map() =~= old_map.remove(handle));
                return None;
            },
        };
        let remaining = bytes_len(&c.data);
        let fresh = (now as u128) < (c.read_at as u128) + (READ_AHEAD_TTL_NANOS as u128);
        let fits = offset <= u64::MAX - size as u64;
        if !(c.file_offset == offset && c.process_id == pid && size as usize <= remaining && fresh && fits) {
            assert(self.view_map() =~= old_map.remove(handle));
            return None;
        }
        let ghost c0 = c.view_of();
        let out = bytes_prefix(&c.data, size as usize);
        bytes_advance(&mut c.data, size as usize);
        c.file_offset = offset + size as u64;
        self.entries.insert(handle, c);
        proof {
            assert(self.view_map() =~= old_map.insert(handle, CachedView {
                data: c0.data.subrange(size as int, c0.data.len() as int),
                file_offset: (offset + size) as u64,
                ..c0
            }));
        }
        Some(out)
    }

    /// Takes the result `data` of a read-ahead fetch made for a read of
    /// `size` bytes at `offset` by process `pid`, completed at time `now`.
    /// Returns the bytes that the read asked for and keeps the rest, if any,
    /// for the handle's next read.
    pub fn fill(&mut self, handle: u64, offset: u64, size: u32, pid: u32, data: Vec<u8>, now: u64) -> (r: Vec<u8>)
        requires
            offset + size <= u64::MAX,
        ensures
            data@.len() <= size ==> r@ == data@ && final(self).view_map() == old(self).view_map(),
            data@.len() > size ==> r@ == data@.subrange(0, size as int) && final(self).view_map()
                == old(self).view_map().insert(handle, CachedView {
                    data: data@.subrange(size as int, data@.len() as int),
                    file_offset: (offset + size) as u64,
                    process_id: pid,
                    read_at: now,
                }),
    {
        if data.len() <= size as usize {
            return data;
        }
        let mut out: Vec<u8> = Vec::new();
        let mut i: usize = 0;
        while i < size as usize
            invariant
                i <= size <= data@.len(),
                out@ == data@.subrange(0, i as int),
            decreases size - i,
        {
            out.push(data[i]);
            i = i + 1;
        }
        let ghost old_map = self.view_map();
        let ghost all = data@;
        let mut rest = bytes_from_vec(data);
        bytes_advance(&mut rest, size as usize);
        let c = CachedRead { data: rest, file_offset: offset + size as u64, process_id: pid, read_at: now };
        self.entries.insert(handle, c);
        proof {
            assert(self.view_map() =~= old_map.insert(handle, CachedView {
                data: all.subrange(size as int, all.len() as int),
                file_offset: (offset + size) as u64,
                process_id: pid,
                read_at: now,
            }));
        }
        out
    }

    /// Drops the cached data of `handle`, when the handle is released.
    pub fn purge(&mut self, handle: u64)
        ensures
            final(self).view_map() == old(self).view_map().remove(handle),
    {
        let ghost old_map = self.view_map();
        self.entries.remove(&handle);
        assert(self.view_map() =~= old_map.remove(handle));
    }
}

/// The rights that `open` with `flags` asks for, as (read, write), or the
/// error it gets: truncating a file opened read-only is refused, and the
/// flags must name exactly one access mode.
pub open spec fn requested_rights(flags: u32) -> Result<(bool, bool), ErrorCode> {
    let acc = flags & O_ACCMODE;
    if acc == O_RDONLY {
        if flags & O_TRUNC != 0 { Err(ErrorCode::AccessDenied) } else { Ok((true, false)) }
    } else if acc == O_WRONLY {
        Ok((false, true))
    } else if acc == O_RDWR {
        Ok((true, true))
    } else {
        Err(ErrorCode::BadRequest)
    }
}

pub open spec fn rights_mask(read: bool, write: bool) -> u32 {
    (if read { R_OK } else { 0u32 }) | (if write { W_OK } else { 0u32 })
}

/// Decides whether a file with attributes `attrs` may be opened with
/// `flags` by `uid`/`gid`, and with which rights.
pub fn open_rights(flags: u32, attrs: &InodeAttributes, uid: u32, gid: u32) -> (r: Result<FileHandleAttributes, ErrorCode>)
    ensures
        match requested_rights(flags) {
            Err(e) => r == Err::<FileHandleAttributes, ErrorCode>(e),
            Ok((read, write)) => if access_allowed(attrs.uid, attrs.gid, attrs.mode, uid, gid, rights_mask(read, write)) {
                r == Ok::<FileHandleAttributes, ErrorCode>(FileHandleAttributes { read, write })
            } else {
                r == Err::<FileHandleAttributes, ErrorCode>(ErrorCode::AccessDenied)
            },
        },
{
    let acc = flags & O_ACCMODE;
    let (read, write) = if acc == O_RDONLY {
        if flags & O_TRUNC != 0 {
            return Err(ErrorCode::AccessDenied);
        }
        (true, false)
    } else if acc == O_WRONLY {
        (false, true)
    } else if acc == O_RDWR {
        (true, true)
    } else {
        return Err(ErrorCode::BadRequest);
    };
    let mask: u32 = (if read { R_OK } else { 0u32 }) | (if write { W_OK } else { 0u32 });
    if check_access(attrs.uid, attrs.gid, attrs.mode, uid, gid, mask) {
        Ok(FileHandleAttributes { read, write })
    } else {
        Err(ErrorCode::AccessDenied)
    }
}

/// How to answer a read.
#[derive(Debug)]
pub enum ReadPlan {
    /// The handle is not open for reading.
    Denied,
    /// The bytes, served from the read-ahead cache.
    Cached(Vec<u8>),
    /// Fetch `length` bytes at `offset` from the server; with `read_ahead`,
    /// hand the result to `ReadAheadCache::fill`.
    Fetch { offset: u64, length: u32, read_ahead: bool },
}

/// How much to fetch for a read of `size` bytes that missed the cache.
pub open spec fn fetch_length(size: u32) -> u32 {
    if size >= FUSE_MAX_READ_SIZE {
        if size > SPECULATIVE_READ_SIZE { size } else { SPECULATIVE_READ_SIZE }
    } else {
        size
    }
}

/// Decides how to answer a read of `size` bytes at `offset` through
/// `handle`, by process `pid` at time `now`: refuse it, serve it from the
/// cache, or fetch it, with read-ahead for reads of the kernel's largest
/// size.
pub fn plan_read(
    handles: &FileHandleTable,
    cache: &mut ReadAheadCache,
    handle: u64,
    offset: u64,
    size: u32,
    pid: u32,
    now: u64,
) -> (r: ReadPlan)
    ensures
        !(handles@.contains_key(handle) && handles@[handle].read) ==> r is Denied && final(cache).view_map() == old(cache).view_map(),
        handles@.contains_key(handle) && handles@[handle].read ==> {
            let old_map = old(cache).view_map();
            if old_map.contains_key(handle) && cache_hit(old_map[handle], offset, size, pid, now) {
                let c = old_map[handle];
                &&& r matches ReadPlan::Cached(v) && v@ == c.data.subrange(0, size as int)
                &&& final(cache).view_map() == old_map.insert(handle, CachedView {
                    data: c.data.subrange(size as int, c.data.len() as int),
                    file_offset: (offset + size) as u64,
                    ..c
                })
            } else {
                &&& r == (ReadPlan::Fetch { offset, length: fetch_length(size), read_ahead: size >= FUSE_MAX_READ_SIZE })
                &&& final(cache).view_map() == old_map.remove(handle)
            }
        },
{
    if !handles.check_read(handle) {
        return ReadPlan::Denied;
    }
    match cache.try_read(handle, offset, size, pid, now) {
        Some(v) => ReadPlan::Cached(v),
        None => {
            if size >= FUSE_MAX_READ_SIZE {
                let length = if size > SPECULATIVE_READ_SIZE { size } else { SPECULATIVE_READ_SIZE };
                ReadPlan::Fetch { offset, length, read_ahead: true }
            } else {
                ReadPlan::Fetch { offset, length: size, read_ahead: false }
            }
        },
    }
}

} // verus!
