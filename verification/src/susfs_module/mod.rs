//! The SuSFS Manager module: a Magisk-style module under
//! `/data/adb/modules/susfs_manager` whose four boot-stage scripts apply
//! the saved SuSFS configuration.
pub mod consts;
pub mod scripts;
pub mod install;
