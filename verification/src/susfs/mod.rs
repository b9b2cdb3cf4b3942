//! SuSFS userspace bindings: the kernel protocol's constants and payloads,
//! and the requests of every SuSFS command.
//!
//! Every command travels to the kernel through one `reboot(2)` system call
//! carrying two magic numbers, the command's number and its payload; the
//! kernel writes an error code (and, for queries, its answer) back into the
//! payload.  Making that call is left to the caller: this library builds the
//! requests, judges the error code and reads the answers.
pub mod abi;
pub mod cmd;
pub mod util;
