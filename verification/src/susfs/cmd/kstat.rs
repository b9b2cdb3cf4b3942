//! Spoofed stat results (`sus_kstat`).  Resolving the path and stating it
//! are left to the caller, which hands over the resolved path and what
//! `stat(2)` reported.
use vstd::prelude::*;

use crate::susfs::abi::consts::{
    CMD_SUSFS_ADD_SUS_KSTAT, CMD_SUSFS_ADD_SUS_KSTAT_STATICALLY, CMD_SUSFS_UPDATE_SUS_KSTAT,
    ERR_CMD_NOT_SUPPORTED, KSTAT_AUTO_SPOOF, KSTAT_AUTO_SPOOF_FULL_CLONE,
};
use crate::susfs::abi::syscall::{Request, SusfsError};
use crate::susfs::abi::types::SusfsKstat;
use crate::susfs::cmd::paths::path_buffer;
use crate::susfs::util::{copy_metadata_into_kstat, kstat_copied_from, path_fits, path_too_long, pathname_buffer, StatInfo};

verus! {

/// `k` tracks the file at `resolved` with the stat result `md` and `flags`.
pub open spec fn kstat_filled(k: SusfsKstat, resolved: Seq<char>, md: StatInfo, flags: u32) -> bool {
    &&& k.is_statically == 0
    &&& k.target_pathname@ == path_buffer(resolved)
    &&& kstat_copied_from(k, md)
    &&& k.flags == flags
    &&& k.err == ERR_CMD_NOT_SUPPORTED
}

/// The kstat payload for the file at `resolved`, which `stat(2)` described
/// as `md`.
pub fn fill_kstat_from_path(resolved: &str, md: &StatInfo, flags: u32) -> (r: Result<SusfsKstat, SusfsError>)
    ensures
        r is Ok <==> path_fits(resolved@),
        r matches Ok(k) ==> kstat_filled(k, resolved@, *md, flags),
        r matches Err(e) ==> path_too_long(e, resolved@),
{
    let buf = pathname_buffer(resolved)?;
    let mut kstat = SusfsKstat {
        is_statically: 0,
        target_ino: 0,
        target_pathname: buf,
        spoofed_ino: 0,
        spoofed_dev: 0,
        spoofed_nlink: 0,
        spoofed_size: 0,
        spoofed_atime_tv_sec: 0,
        spoofed_atime_tv_nsec: 0,
        spoofed_mtime_tv_sec: 0,
        spoofed_mtime_tv_nsec: 0,
        spoofed_ctime_tv_sec: 0,
        spoofed_ctime_tv_nsec: 0,
        spoofed_blocks: 0,
        spoofed_blksize: 0,
        flags,
        err: ERR_CMD_NOT_SUPPORTED,
    };
    copy_metadata_into_kstat(&mut kstat, md);
    Ok(kstat)
}

/// The request `cmd` named `op` for the file at `resolved`, or the refusal
/// of a path too long.
pub open spec fn kstat_request(
    r: Result<Request<SusfsKstat>, SusfsError>,
    resolved: Seq<char>,
    md: StatInfo,
    cmd: u32,
    flags: u32,
    op: Seq<char>,
) -> bool {
    &&& r is Ok <==> path_fits(resolved)
    &&& r matches Ok(req) ==> req.cmd == cmd && req.op_name@ == op && kstat_filled(req.payload, resolved, md, flags)
    &&& r matches Err(e) ==> path_too_long(e, resolved)
}

/// The kstat request `cmd` named `op_name`, with `flags`.
pub fn fill_and_send_kstat(resolved: &str, md: &StatInfo, cmd: u32, flags: u32, op_name: &'static str) -> (r: Result<Request<SusfsKstat>, SusfsError>)
    ensures
        kstat_request(r, resolved@, *md, cmd, flags, op_name@),
{
    let kstat = fill_kstat_from_path(resolved, md, flags)?;
    Ok(Request { cmd, op_name, payload: kstat })
}

/// Start tracking a file before it is bind-mounted or overlaid, so that
/// the kernel keeps its original stat.
pub fn add_sus_kstat(resolved: &str, md: &StatInfo) -> (r: Result<Request<SusfsKstat>, SusfsError>)
    ensures
        kstat_request(r, resolved@, *md, CMD_SUSFS_ADD_SUS_KSTAT, KSTAT_AUTO_SPOOF, "add_sus_kstat"@),
{
    fill_and_send_kstat(resolved, md, CMD_SUSFS_ADD_SUS_KSTAT, KSTAT_AUTO_SPOOF, "add_sus_kstat")
}

/// Finish what `add_sus_kstat` started: the inode is updated, the size and
/// blocks keep the current stat.
pub fn update_sus_kstat(resolved: &str, md: &StatInfo) -> (r: Result<Request<SusfsKstat>, SusfsError>)
    ensures
        kstat_request(r, resolved@, *md, CMD_SUSFS_UPDATE_SUS_KSTAT, KSTAT_AUTO_SPOOF, "update_sus_kstat"@),
{
    fill_and_send_kstat(resolved, md, CMD_SUSFS_UPDATE_SUS_KSTAT, KSTAT_AUTO_SPOOF, "update_sus_kstat")
}

/// Like `update_sus_kstat`, and spoof nlink and size too: the stat looks
/// just like the original.
pub fn update_sus_kstat_full_clone(resolved: &str, md: &StatInfo) -> (r: Result<Request<SusfsKstat>, SusfsError>)
    ensures
        kstat_request(
            r,
            resolved@,
            *md,
            CMD_SUSFS_UPDATE_SUS_KSTAT,
            KSTAT_AUTO_SPOOF_FULL_CLONE,
            "update_sus_kstat_full_clone"@,
        ),
{
    fill_and_send_kstat(
        resolved,
        md,
        CMD_SUSFS_UPDATE_SUS_KSTAT,
        KSTAT_AUTO_SPOOF_FULL_CLONE,
        "update_sus_kstat_full_clone",
    )
}

/// Spoof the stat of the file at `resolved` (whose inode `stat(2)`
/// reported in `md`) with the given values.
pub fn add_sus_kstat_statically(
    resolved: &str,
    md: &StatInfo,
    ino: u64,
    dev: u64,
    nlink: u32,
    size: u64,
    atime_sec: i64,
    atime_nsec: u64,
    mtime_sec: i64,
    mtime_nsec: u64,
    ctime_sec: i64,
    ctime_nsec: u64,
    blocks: u64,
    blksize: i64,
) -> (r: Result<Request<SusfsKstat>, SusfsError>)
    ensures
        r is Ok <==> path_fits(resolved@),
        r matches Ok(req) ==> {
            let k = req.payload;
            &&& req.cmd == CMD_SUSFS_ADD_SUS_KSTAT_STATICALLY
            &&& req.op_name@ == "add_sus_kstat_statically"@
            &&& k.is_statically == 1
            &&& k.target_ino == md.ino
            &&& k.target_pathname@ == path_buffer(resolved@)
            &&& k.spoofed_ino == ino
            &&& k.spoofed_dev == dev
            &&& k.spoofed_nlink == nlink
            &&& k.spoofed_size == size
            &&& k.spoofed_atime_tv_sec == atime_sec
            &&& k.spoofed_atime_tv_nsec == atime_nsec
            &&& k.spoofed_mtime_tv_sec == mtime_sec
            &&& k.spoofed_mtime_tv_nsec == mtime_nsec
            &&& k.spoofed_ctime_tv_sec == ctime_sec
            &&& k.spoofed_ctime_tv_nsec == ctime_nsec
            &&& k.spoofed_blocks == blocks
            &&& k.spoofed_blksize == blksize
            &&& k.flags == 0
            &&& k.err == ERR_CMD_NOT_SUPPORTED
        },
        r matches Err(e) ==> path_too_long(e, resolved@),
{
    let buf = pathname_buffer(resolved)?;
    Ok(Request {
        cmd: CMD_SUSFS_ADD_SUS_KSTAT_STATICALLY,
        op_name: "add_sus_kstat_statically",
        payload: SusfsKstat {
            is_statically: 1,
            target_ino: md.ino,
            target_pathname: buf,
            spoofed_ino: ino,
            spoofed_dev: dev,
            spoofed_nlink: nlink,
            spoofed_size: size,
            spoofed_atime_tv_sec: atime_sec,
            spoofed_atime_tv_nsec: atime_nsec,
            spoofed_mtime_tv_sec: mtime_sec,
            spoofed_mtime_tv_nsec: mtime_nsec,
            spoofed_ctime_tv_sec: ctime_sec,
            spoofed_ctime_tv_nsec: ctime_nsec,
            spoofed_blocks: blocks,
            spoofed_blksize: blksize,
            flags: 0,
            err: ERR_CMD_NOT_SUPPORTED,
        },
    })
}

} // verus!
