//! SuSFS userspace helpers and boot-image patch planning for KernelSU.
pub mod boot_patch;
pub mod susfs;
pub mod susfs_config;
pub mod susfs_module;
pub mod text;
