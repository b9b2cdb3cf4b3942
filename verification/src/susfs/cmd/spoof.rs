//! Spoofing switches: uname, the SuSFS logs, mount hiding and the kernel
//! command line or boot configuration.
use vstd::prelude::*;

use crate::susfs::abi::consts::{
    CMD_SUSFS_ENABLE_AVC_LOG_SPOOFING, CMD_SUSFS_ENABLE_LOG, CMD_SUSFS_HIDE_SUS_MOUNTS_FOR_NON_SU_PROCS,
    CMD_SUSFS_SET_CMDLINE_OR_BOOTCONFIG, CMD_SUSFS_SET_UNAME, ERR_CMD_NOT_SUPPORTED, NEW_UTS_BUFSIZE,
    SUSFS_FAKE_CMDLINE_OR_BOOTCONFIG_SIZE,
};
use crate::susfs::abi::syscall::{Request, SusfsError};
use crate::susfs::abi::types::{
    zeroed, SusfsAvcLogSpoofing, SusfsCmdlineOrBootconfig, SusfsHideSusMnts, SusfsLog, SusfsUname,
};
use crate::susfs::util::{copy_bytes_into, zero_padded};

verus! {

/// Both uname strings leave room for their NUL.
pub open spec fn uname_fits(release: Seq<char>, version: Seq<char>) -> bool {
    vstd::utf8::encode_utf8(release).len() < NEW_UTS_BUFSIZE && vstd::utf8::encode_utf8(version).len()
        < NEW_UTS_BUFSIZE
}

fn uname_field(s: &str) -> (r: Vec<u8>)
    requires
        vstd::utf8::encode_utf8(s@).len() < NEW_UTS_BUFSIZE,
    ensures
        r@ == zero_padded(vstd::utf8::encode_utf8(s@), NEW_UTS_BUFSIZE as nat),
{
    let mut buf = zeroed(NEW_UTS_BUFSIZE);
    let bytes = s.as_bytes();
    let _ = copy_bytes_into(&mut buf, bytes);
    assert(buf@ =~= zero_padded(vstd::utf8::encode_utf8(s@), NEW_UTS_BUFSIZE as nat));
    buf
}

/// Make `uname(2)` report `release` and `version`; `UnameTooLong` when
/// either does not fit.
pub fn set_uname(release: &str, version: &str) -> (r: Result<Request<SusfsUname>, SusfsError>)
    ensures
        r is Ok <==> uname_fits(release@, version@),
        r matches Ok(req) ==> {
            &&& req.cmd == CMD_SUSFS_SET_UNAME
            &&& req.op_name@ == "set_uname"@
            &&& req.payload.release@ == zero_padded(vstd::utf8::encode_utf8(release@), NEW_UTS_BUFSIZE as nat)
            &&& req.payload.version@ == zero_padded(vstd::utf8::encode_utf8(version@), NEW_UTS_BUFSIZE as nat)
            &&& req.payload.err == ERR_CMD_NOT_SUPPORTED
        },
        r matches Err(e) ==> e is UnameTooLong,
{
    let rb = release.as_bytes();
    let vb = version.as_bytes();
    if rb.len() >= NEW_UTS_BUFSIZE || vb.len() >= NEW_UTS_BUFSIZE {
        return Err(SusfsError::UnameTooLong);
    }
    Ok(Request {
        cmd: CMD_SUSFS_SET_UNAME,
        op_name: "set_uname",
        payload: SusfsUname { release: uname_field(release), version: uname_field(version), err: ERR_CMD_NOT_SUPPORTED },
    })
}

/// `1` for on, `0` for off.
pub open spec fn switch_value(enabled: bool) -> u32 {
    if enabled {
        1
    } else {
        0
    }
}

fn switch_value_exec(enabled: bool) -> (r: u32)
    ensures
        r == switch_value(enabled),
{
    if enabled {
        1
    } else {
        0
    }
}

/// Switch the SuSFS kernel log on or off.
pub fn enable_log(enabled: bool) -> (r: Request<SusfsLog>)
    ensures
        r.cmd == CMD_SUSFS_ENABLE_LOG,
        r.op_name@ == "enable_log"@,
        r.payload.enabled == switch_value(enabled),
        r.payload.err == ERR_CMD_NOT_SUPPORTED,
{
    Request {
        cmd: CMD_SUSFS_ENABLE_LOG,
        op_name: "enable_log",
        payload: SusfsLog { enabled: switch_value_exec(enabled), err: ERR_CMD_NOT_SUPPORTED },
    }
}

/// Switch the spoofing of AVC log lines on or off.
pub fn enable_avc_log_spoofing(enabled: bool) -> (r: Request<SusfsAvcLogSpoofing>)
    ensures
        r.cmd == CMD_SUSFS_ENABLE_AVC_LOG_SPOOFING,
        r.op_name@ == "enable_avc_log_spoofing"@,
        r.payload.enabled == switch_value(enabled),
        r.payload.err == ERR_CMD_NOT_SUPPORTED,
{
    Request {
        cmd: CMD_SUSFS_ENABLE_AVC_LOG_SPOOFING,
        op_name: "enable_avc_log_spoofing",
        payload: SusfsAvcLogSpoofing { enabled: switch_value_exec(enabled), err: ERR_CMD_NOT_SUPPORTED },
    }
}

/// Switch the hiding of SuSFS mounts from processes without root on or
/// off.
pub fn hide_sus_mnts_for_non_su_procs(enabled: bool) -> (r: Request<SusfsHideSusMnts>)
    ensures
        r.cmd == CMD_SUSFS_HIDE_SUS_MOUNTS_FOR_NON_SU_PROCS,
        r.op_name@ == "hide_sus_mnts_for_non_su_procs"@,
        r.payload.enabled == switch_value(enabled),
        r.payload.err == ERR_CMD_NOT_SUPPORTED,
{
    Request {
        cmd: CMD_SUSFS_HIDE_SUS_MOUNTS_FOR_NON_SU_PROCS,
        op_name: "hide_sus_mnts_for_non_su_procs",
        payload: SusfsHideSusMnts { enabled: switch_value_exec(enabled), err: ERR_CMD_NOT_SUPPORTED },
    }
}

/// Spoof `/proc/cmdline` or `/proc/bootconfig` with `contents` (the file
/// the user chose, read whole); `FileTooLarge` when it leaves no room for
/// the NUL.
pub fn set_cmdline_or_bootconfig(contents: &[u8]) -> (r: Result<Request<SusfsCmdlineOrBootconfig>, SusfsError>)
    ensures
        r is Ok <==> contents@.len() < SUSFS_FAKE_CMDLINE_OR_BOOTCONFIG_SIZE,
        r matches Ok(req) ==> {
            &&& req.cmd == CMD_SUSFS_SET_CMDLINE_OR_BOOTCONFIG
            &&& req.op_name@ == "set_cmdline_or_bootconfig"@
            &&& req.payload.fake_cmdline_or_bootconfig@ == zero_padded(
                contents@,
                SUSFS_FAKE_CMDLINE_OR_BOOTCONFIG_SIZE as nat,
            )
            &&& req.payload.err == ERR_CMD_NOT_SUPPORTED
        },
        r matches Err(e) ==> e matches SusfsError::FileTooLarge { len, max } && len == contents@.len() && max
            == SUSFS_FAKE_CMDLINE_OR_BOOTCONFIG_SIZE - 1,
{
    if contents.len() >= SUSFS_FAKE_CMDLINE_OR_BOOTCONFIG_SIZE {
        return Err(
            SusfsError::FileTooLarge { len: contents.len(), max: SUSFS_FAKE_CMDLINE_OR_BOOTCONFIG_SIZE - 1 },
        );
    }
    let mut buf = zeroed(SUSFS_FAKE_CMDLINE_OR_BOOTCONFIG_SIZE);
    let _ = copy_bytes_into(&mut buf, contents);
    assert(buf@ =~= zero_padded(contents@, SUSFS_FAKE_CMDLINE_OR_BOOTCONFIG_SIZE as nat));
    Ok(Request {
        cmd: CMD_SUSFS_SET_CMDLINE_OR_BOOTCONFIG,
        op_name: "set_cmdline_or_bootconfig",
        payload: SusfsCmdlineOrBootconfig { fake_cmdline_or_bootconfig: buf, err: ERR_CMD_NOT_SUPPORTED },
    })
}

} // verus!
