//! The payloads of the SuSFS commands.  Each ends with the error code the
//! kernel writes back; byte buffers hold exactly as many bytes as the
//! kernel's fixed-size fields (see each type's `wf`).
use vstd::prelude::*;

use super::consts::{
    NEW_UTS_BUFSIZE, SUSFS_ENABLED_FEATURES_SIZE, SUSFS_FAKE_CMDLINE_OR_BOOTCONFIG_SIZE,
    SUSFS_MAX_PATHNAME, SUSFS_MAX_VARIANT_BUFSIZE, SUSFS_MAX_VERSION_BUFSIZE,
};

verus! {

pub struct SusfsVersion {
    pub susfs_version: Vec<u8>,
    pub err: i32,
}

pub struct SusfsFeatures {
    pub enabled_features: Vec<u8>,
    pub err: i32,
}

pub struct SusfsVariant {
    pub susfs_variant: Vec<u8>,
    pub err: i32,
}

pub struct SusfsUname {
    pub release: Vec<u8>,
    pub version: Vec<u8>,
    pub err: i32,
}

pub struct SusfsLog {
    pub enabled: u32,
    pub err: i32,
}

pub struct SusfsAvcLogSpoofing {
    pub enabled: u32,
    pub err: i32,
}

pub struct SusfsHideSusMnts {
    pub enabled: u32,
    pub err: i32,
}

pub struct SusfsOpenRedirect {
    pub target_pathname: Vec<u8>,
    pub redirected_pathname: Vec<u8>,
    pub uid_scheme: u32,
    pub err: i32,
}

pub struct SusfsKstat {
    pub is_statically: u32,
    pub target_ino: u64,
    pub target_pathname: Vec<u8>,
    pub spoofed_ino: u64,
    pub spoofed_dev: u64,
    pub spoofed_nlink: u32,
    pub spoofed_size: u64,
    pub spoofed_atime_tv_sec: i64,
    pub spoofed_atime_tv_nsec: u64,
    pub spoofed_mtime_tv_sec: i64,
    pub spoofed_mtime_tv_nsec: u64,
    pub spoofed_ctime_tv_sec: i64,
    pub spoofed_ctime_tv_nsec: u64,
    pub spoofed_blocks: u64,
    pub spoofed_blksize: i64,
    pub flags: u32,
    pub err: i32,
}

pub struct SusfsMap {
    pub target_pathname: Vec<u8>,
    pub err: i32,
}

pub struct SusfsSusPath {
    pub target_pathname: Vec<u8>,
    pub err: i32,
}

pub struct SusfsCmdlineOrBootconfig {
    pub fake_cmdline_or_bootconfig: Vec<u8>,
    pub err: i32,
}

impl SusfsVersion {
    pub open spec fn wf(self) -> bool {
        self.susfs_version@.len() == SUSFS_MAX_VERSION_BUFSIZE
    }
}

impl SusfsFeatures {
    pub open spec fn wf(self) -> bool {
        self.enabled_features@.len() == SUSFS_ENABLED_FEATURES_SIZE
    }
}

impl SusfsVariant {
    pub open spec fn wf(self) -> bool {
        self.susfs_variant@.len() == SUSFS_MAX_VARIANT_BUFSIZE
    }
}

impl SusfsUname {
    pub open spec fn wf(self) -> bool {
        self.release@.len() == NEW_UTS_BUFSIZE && self.version@.len() == NEW_UTS_BUFSIZE
    }
}

impl SusfsOpenRedirect {
    pub open spec fn wf(self) -> bool {
        self.target_pathname@.len() == SUSFS_MAX_PATHNAME && self.redirected_pathname@.len() == SUSFS_MAX_PATHNAME
    }
}

impl SusfsKstat {
    pub open spec fn wf(self) -> bool {
        self.target_pathname@.len() == SUSFS_MAX_PATHNAME
    }
}

impl SusfsMap {
    pub open spec fn wf(self) -> bool {
        self.target_pathname@.len() == SUSFS_MAX_PATHNAME
    }
}

impl SusfsSusPath {
    pub open spec fn wf(self) -> bool {
        self.target_pathname@.len() == SUSFS_MAX_PATHNAME
    }
}

impl SusfsCmdlineOrBootconfig {
    pub open spec fn wf(self) -> bool {
        self.fake_cmdline_or_bootconfig@.len() == SUSFS_FAKE_CMDLINE_OR_BOOTCONFIG_SIZE
    }
}

/// `n` zero bytes.
pub fn zeroed(n: usize) -> (r: Vec<u8>)
    ensures
        r@ == Seq::new(n as nat, |i: int| 0u8),
{
    let mut r: Vec<u8> = Vec::new();
    let mut i: usize = 0;
    while i < n
        invariant
            i <= n,
            r@ == Seq::new(i as nat, |k: int| 0u8),
        decreases n - i,
    {
        r.push(0u8);
        i = i + 1;
        assert(r@ =~= Seq::new(i as nat, |k: int| 0u8));
    }
    r
}

} // verus!
