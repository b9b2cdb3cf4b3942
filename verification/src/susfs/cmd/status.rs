//! Read-only queries: the SuSFS version, its enabled features and its
//! variant.  Each has a request, sent whatever the kernel then answers,
//! and a reader of the answer left in the payload.
use vstd::prelude::*;

use crate::susfs::abi::consts::{
    CMD_SUSFS_SHOW_ENABLED_FEATURES, CMD_SUSFS_SHOW_VARIANT, CMD_SUSFS_SHOW_VERSION, ERR_CMD_NOT_SUPPORTED,
    SUSFS_ENABLED_FEATURES_SIZE, SUSFS_MAX_VARIANT_BUFSIZE, SUSFS_MAX_VERSION_BUFSIZE,
};
use crate::susfs::abi::syscall::Request;
use crate::susfs::abi::types::{zeroed, SusfsFeatures, SusfsVariant, SusfsVersion};
use crate::susfs::util::{cstr_buf_to_string, spec_cstr};

verus! {

/// The version query, with a zeroed answer buffer.
pub fn version_request() -> (r: Request<SusfsVersion>)
    ensures
        r.cmd == CMD_SUSFS_SHOW_VERSION,
        r.op_name@ == "show_version"@,
        r.payload.susfs_version@ == Seq::new(SUSFS_MAX_VERSION_BUFSIZE as nat, |i: int| 0u8),
        r.payload.err == ERR_CMD_NOT_SUPPORTED,
{
    Request {
        cmd: CMD_SUSFS_SHOW_VERSION,
        op_name: "show_version",
        payload: SusfsVersion { susfs_version: zeroed(SUSFS_MAX_VERSION_BUFSIZE), err: ERR_CMD_NOT_SUPPORTED },
    }
}

/// The enabled-features query, with a zeroed answer buffer.
pub fn features_request() -> (r: Request<SusfsFeatures>)
    ensures
        r.cmd == CMD_SUSFS_SHOW_ENABLED_FEATURES,
        r.op_name@ == "show_enabled_features"@,
        r.payload.enabled_features@ == Seq::new(SUSFS_ENABLED_FEATURES_SIZE as nat, |i: int| 0u8),
        r.payload.err == ERR_CMD_NOT_SUPPORTED,
{
    Request {
        cmd: CMD_SUSFS_SHOW_ENABLED_FEATURES,
        op_name: "show_enabled_features",
        payload: SusfsFeatures {
            enabled_features: zeroed(SUSFS_ENABLED_FEATURES_SIZE),
            err: ERR_CMD_NOT_SUPPORTED,
        },
    }
}

/// The variant query, with a zeroed answer buffer.
pub fn variant_request() -> (r: Request<SusfsVariant>)
    ensures
        r.cmd == CMD_SUSFS_SHOW_VARIANT,
        r.op_name@ == "show_variant"@,
        r.payload.susfs_variant@ == Seq::new(SUSFS_MAX_VARIANT_BUFSIZE as nat, |i: int| 0u8),
        r.payload.err == ERR_CMD_NOT_SUPPORTED,
{
    Request {
        cmd: CMD_SUSFS_SHOW_VARIANT,
        op_name: "show_variant",
        payload: SusfsVariant { susfs_variant: zeroed(SUSFS_MAX_VARIANT_BUFSIZE), err: ERR_CMD_NOT_SUPPORTED },
    }
}

/// The version in an answer when it starts with `v`, `unsupport`
/// otherwise (no SuSFS, or a malformed answer).
pub open spec fn spec_susfs_version(answer: Seq<u8>) -> Seq<char> {
    let v = spec_cstr(answer);
    if v.len() > 0 && v[0] == 'v' {
        v
    } else {
        "unsupport"@
    }
}

/// The SuSFS version the kernel answered.
pub fn get_susfs_version(reply: &SusfsVersion) -> (r: String)
    ensures
        r@ == spec_susfs_version(reply.susfs_version@),
{
    let v = cstr_buf_to_string(reply.susfs_version.as_slice());
    if v.as_str().unicode_len() > 0 && v.as_str().get_char(0) == 'v' {
        v
    } else {
        "unsupport".to_owned()
    }
}

/// SuSFS is present: the kernel answered a version.
pub fn get_susfs_status(reply: &SusfsVersion) -> (r: bool)
    ensures
        r == (spec_susfs_version(reply.susfs_version@) != "unsupport"@),
{
    let v = get_susfs_version(reply);
    let u = "unsupport".to_owned();
    !(v == u)
}

/// The comma-separated SuSFS features the kernel answered.
pub fn get_susfs_features(reply: &SusfsFeatures) -> (r: String)
    ensures
        r@ == spec_cstr(reply.enabled_features@),
{
    cstr_buf_to_string(reply.enabled_features.as_slice())
}

/// The SuSFS variant the kernel answered (such as `gki`).
pub fn get_susfs_variant(reply: &SusfsVariant) -> (r: String)
    ensures
        r@ == spec_cstr(reply.susfs_variant@),
{
    cstr_buf_to_string(reply.susfs_variant.as_slice())
}

} // verus!
