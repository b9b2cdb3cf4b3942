//! The requests of the SuSFS commands, one file per group.
pub mod kstat;
pub mod paths;
pub mod spoof;
pub mod status;
