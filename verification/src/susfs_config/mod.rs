//! Persistent SuSFS Manager configuration: the key/value map, its on-disk
//! binary format, the typed module snapshot and the store operations.
pub mod binary;
pub mod config_map;
pub mod json;
pub mod keys;
pub mod module;
pub mod store;
