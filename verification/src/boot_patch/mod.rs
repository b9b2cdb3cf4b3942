//! Boot-image patching: module-index cleanup, partition and output-name
//! choices, KMI detection and the ramdisk edits that install or remove
//! KernelSU.
pub mod args;
pub mod backup;
pub mod image;
pub mod index_laws;
pub mod kmi;
pub mod ksu_config;
pub mod modules;
pub mod ramdisk;
