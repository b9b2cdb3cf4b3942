//! Hidden paths, hidden maps and open redirects.
use vstd::prelude::*;

use crate::susfs::abi::consts::{
    CMD_SUSFS_ADD_OPEN_REDIRECT, CMD_SUSFS_ADD_SUS_MAP, CMD_SUSFS_ADD_SUS_PATH, CMD_SUSFS_ADD_SUS_PATH_LOOP,
    ERR_CMD_NOT_SUPPORTED, SUSFS_MAX_PATHNAME,
};
use crate::susfs::abi::syscall::{Request, SusfsError};
use crate::susfs::abi::types::{SusfsMap, SusfsOpenRedirect, SusfsSusPath};
use crate::susfs::util::{path_fits, path_too_long, pathname_buffer, zero_padded};

verus! {

/// The pathname buffer of a request for `path`.
pub open spec fn path_buffer(path: Seq<char>) -> Seq<u8> {
    zero_padded(vstd::utf8::encode_utf8(path), SUSFS_MAX_PATHNAME as nat)
}

/// `r` is the request `cmd` named `op` with `path` in its buffer, or the
/// refusal of a path too long.
pub open spec fn sus_path_request(
    r: Result<Request<SusfsSusPath>, SusfsError>,
    path: Seq<char>,
    cmd: u32,
    op: Seq<char>,
) -> bool {
    &&& r is Ok <==> path_fits(path)
    &&& r matches Ok(req) ==> {
        &&& req.cmd == cmd
        &&& req.op_name@ == op
        &&& req.payload.target_pathname@ == path_buffer(path)
        &&& req.payload.err == ERR_CMD_NOT_SUPPORTED
    }
    &&& r matches Err(e) ==> path_too_long(e, path)
}

fn sus_path(path: &str, cmd: u32, op_name: &'static str) -> (r: Result<Request<SusfsSusPath>, SusfsError>)
    ensures
        sus_path_request(r, path@, cmd, op_name@),
{
    let buf = pathname_buffer(path)?;
    Ok(Request { cmd, op_name, payload: SusfsSusPath { target_pathname: buf, err: ERR_CMD_NOT_SUPPORTED } })
}

/// Hide `path` from processes without root.
pub fn add_sus_path(path: &str) -> (r: Result<Request<SusfsSusPath>, SusfsError>)
    ensures
        sus_path_request(r, path@, CMD_SUSFS_ADD_SUS_PATH, "add_sus_path"@),
{
    sus_path(path, CMD_SUSFS_ADD_SUS_PATH, "add_sus_path")
}

/// Like `add_sus_path`, and follow the path across bind mounts.
pub fn add_sus_path_loop(path: &str) -> (r: Result<Request<SusfsSusPath>, SusfsError>)
    ensures
        sus_path_request(r, path@, CMD_SUSFS_ADD_SUS_PATH_LOOP, "add_sus_path_loop"@),
{
    sus_path(path, CMD_SUSFS_ADD_SUS_PATH_LOOP, "add_sus_path_loop")
}

/// Open `redirected` in place of `target` for the processes that
/// `uid_scheme` selects; the target is checked first.
pub fn add_open_redirect(target: &str, redirected: &str, uid_scheme: u32) -> (r: Result<Request<SusfsOpenRedirect>, SusfsError>)
    ensures
        r is Ok <==> path_fits(target@) && path_fits(redirected@),
        r matches Ok(req) ==> {
            &&& req.cmd == CMD_SUSFS_ADD_OPEN_REDIRECT
            &&& req.op_name@ == "add_open_redirect"@
            &&& req.payload.target_pathname@ == path_buffer(target@)
            &&& req.payload.redirected_pathname@ == path_buffer(redirected@)
            &&& req.payload.uid_scheme == uid_scheme
            &&& req.payload.err == ERR_CMD_NOT_SUPPORTED
        },
        r matches Err(e) ==> if path_fits(target@) {
            path_too_long(e, redirected@)
        } else {
            path_too_long(e, target@)
        },
{
    let t = pathname_buffer(target)?;
    let d = pathname_buffer(redirected)?;
    Ok(Request {
        cmd: CMD_SUSFS_ADD_OPEN_REDIRECT,
        op_name: "add_open_redirect",
        payload: SusfsOpenRedirect {
            target_pathname: t,
            redirected_pathname: d,
            uid_scheme,
            err: ERR_CMD_NOT_SUPPORTED,
        },
    })
}

/// Hide `path` from the memory maps of processes without root.
pub fn add_sus_map(path: &str) -> (r: Result<Request<SusfsMap>, SusfsError>)
    ensures
        r is Ok <==> path_fits(path@),
        r matches Ok(req) ==> {
            &&& req.cmd == CMD_SUSFS_ADD_SUS_MAP
            &&& req.op_name@ == "add_sus_map"@
            &&& req.payload.target_pathname@ == path_buffer(path@)
            &&& req.payload.err == ERR_CMD_NOT_SUPPORTED
        },
        r matches Err(e) ==> path_too_long(e, path@),
{
    let buf = pathname_buffer(path)?;
    Ok(Request {
        cmd: CMD_SUSFS_ADD_SUS_MAP,
        op_name: "add_sus_map",
        payload: SusfsMap { target_pathname: buf, err: ERR_CMD_NOT_SUPPORTED },
    })
}

} // verus!
