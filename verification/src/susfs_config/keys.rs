//! Config-key names shared with the on-device WebUI.
use vstd::prelude::*;

verus! {

pub const KEY_UNAME_VALUE: &'static str = "uname_value";
pub const KEY_BUILD_TIME_VALUE: &'static str = "build_time_value";
pub const KEY_AUTO_START_ENABLED: &'static str = "auto_start_enabled";
pub const KEY_SUS_PATHS: &'static str = "sus_paths";
pub const KEY_SUS_LOOP_PATHS: &'static str = "sus_loop_paths";
pub const KEY_SUS_MAPS: &'static str = "sus_maps";
pub const KEY_ENABLE_LOG: &'static str = "enable_log";
pub const KEY_EXECUTE_IN_POST_FS_DATA: &'static str = "execute_in_post_fs_data";
pub const KEY_KSTAT_CONFIGS: &'static str = "kstat_configs";
pub const KEY_ADD_KSTAT_PATHS: &'static str = "add_kstat_paths";
pub const KEY_HIDE_SUS_MOUNTS_FOR_ALL_PROCS: &'static str = "hide_sus_mounts_for_all_procs";
pub const KEY_ENABLE_CLEANUP_RESIDUE: &'static str = "enable_cleanup_residue";
pub const KEY_ENABLE_HIDE_BL: &'static str = "enable_hide_bl";
pub const KEY_ENABLE_AVC_LOG_SPOOFING: &'static str = "enable_avc_log_spoofing";
pub const KEY_CMDLINE_OR_BOOTCONFIG_PATH: &'static str = "cmdline_or_bootconfig_path";

} // verus!
