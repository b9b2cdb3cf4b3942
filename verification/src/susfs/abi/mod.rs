//! The SuSFS kernel protocol: magic numbers, command numbers, payload
//! layouts and the verdict on the kernel's error code.
pub mod consts;
pub mod syscall;
pub mod types;
