//! POSIX permission check.
use vstd::prelude::*;

verus! {

/// The three permission bits that apply to a requester: the owner's if the
/// uids match, else the group's if the gids match, else everyone else's.
pub open spec fn selected_bits(file_uid: u32, file_gid: u32, file_mode: u16, uid: u32, gid: u32) -> u32 {
    if uid == file_uid {
        ((file_mode as u32) >> 6u32) & 7u32
    } else if gid == file_gid {
        ((file_mode as u32) >> 3u32) & 7u32
    } else {
        (file_mode as u32) & 7u32
    }
}

/// Whether a requester may access a file in the way `wanted` asks.
pub open spec fn access_allowed(
    file_uid: u32,
    file_gid: u32,
    file_mode: u16,
    uid: u32,
    gid: u32,
    wanted: u32,
) -> bool {
    uid == 0 || selected_bits(file_uid, file_gid, file_mode, uid, gid) & wanted == wanted
}

/// Decides whether the requester `(uid, gid)` holds every permission of the
/// mask `wanted` (a bitwise OR of read, write and execute) on a file owned by
/// `(file_uid, file_gid)` with mode `file_mode`. Root holds every permission.
pub fn check_access(file_uid: u32, file_gid: u32, file_mode: u16, uid: u32, gid: u32, wanted: u32) -> (r: bool)
    ensures
        r == access_allowed(file_uid, file_gid, file_mode, uid, gid, wanted),
{
    if uid == 0 {
        return true;
    }
    let mode = file_mode as u32;
    let bits: u32 = if uid == file_uid {
        (mode >> 6u32) & 7u32
    } else if gid == file_gid {
        (mode >> 3u32) & 7u32
    } else {
        mode & 7u32
    };
    bits & wanted == wanted
}

} // verus!
