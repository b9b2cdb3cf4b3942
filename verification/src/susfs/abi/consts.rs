//! Magic numbers, command numbers and buffer sizes of the SuSFS protocol.
use vstd::prelude::*;

verus! {

/// First `reboot(2)` magic number expected by SuSFS.
pub const KSU_INSTALL_MAGIC1: u32 = 0xDEAD_BEEF;

/// Second `reboot(2)` magic number expected by SuSFS.
pub const SUSFS_MAGIC: u32 = 0xFAFA_FAFA;

/// The error code left in a payload when the running kernel does not
/// support the command.
pub const ERR_CMD_NOT_SUPPORTED: i32 = 126;

pub const SUSFS_MAX_VERSION_BUFSIZE: usize = 16;
pub const SUSFS_ENABLED_FEATURES_SIZE: usize = 8192;
pub const SUSFS_MAX_VARIANT_BUFSIZE: usize = 16;
pub const NEW_UTS_LEN: usize = 64;
/// A uname field: `NEW_UTS_LEN` bytes and the terminating NUL.
pub const NEW_UTS_BUFSIZE: usize = NEW_UTS_LEN + 1;
pub const SUSFS_MAX_PATHNAME: usize = 256;
pub const SUSFS_FAKE_CMDLINE_OR_BOOTCONFIG_SIZE: usize = 8192;

pub const CMD_SUSFS_ADD_SUS_PATH: u32 = 0x0005_5550;
pub const CMD_SUSFS_ADD_SUS_PATH_LOOP: u32 = 0x0005_5553;
pub const CMD_SUSFS_HIDE_SUS_MOUNTS_FOR_NON_SU_PROCS: u32 = 0x0005_5561;
pub const CMD_SUSFS_ADD_SUS_KSTAT: u32 = 0x0005_5570;
pub const CMD_SUSFS_UPDATE_SUS_KSTAT: u32 = 0x0005_5571;
pub const CMD_SUSFS_ADD_SUS_KSTAT_STATICALLY: u32 = 0x0005_5572;
pub const CMD_SUSFS_SET_UNAME: u32 = 0x0005_5590;
pub const CMD_SUSFS_ENABLE_LOG: u32 = 0x0005_55A0;
pub const CMD_SUSFS_SET_CMDLINE_OR_BOOTCONFIG: u32 = 0x0005_55B0;
pub const CMD_SUSFS_ADD_OPEN_REDIRECT: u32 = 0x0005_55C0;
pub const CMD_SUSFS_SHOW_VERSION: u32 = 0x0005_55E1;
pub const CMD_SUSFS_SHOW_ENABLED_FEATURES: u32 = 0x0005_55E2;
pub const CMD_SUSFS_SHOW_VARIANT: u32 = 0x0005_55E3;
pub const CMD_SUSFS_ENABLE_AVC_LOG_SPOOFING: u32 = 0x0006_0010;
pub const CMD_SUSFS_ADD_SUS_MAP: u32 = 0x0006_0020;

/// The stat members spoofed automatically when the kernel stats the target
/// again: ino (bit 0), dev (1), the three times in seconds and nanoseconds
/// (4 to 9), blocks (10) and blksize (11).
pub const KSTAT_AUTO_SPOOF: u32 = 0x0ff3;

/// `KSTAT_AUTO_SPOOF` together with nlink (bit 2) and size (bit 3).
pub const KSTAT_AUTO_SPOOF_FULL_CLONE: u32 = KSTAT_AUTO_SPOOF | 0x000c;

} // verus!
