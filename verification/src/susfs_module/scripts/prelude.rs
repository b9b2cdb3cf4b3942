//! The prelude shared by every generated script.
use vstd::prelude::*;

use crate::susfs_module::consts::LOG_DIR;

verus! {

/// What follows the log file's name in the log setup: the log directory
/// is created and a shell `get_current_time` helper is defined.
pub const LOG_SETUP_TAIL: &'static str = "\"\n\nmkdir -p \"$LOG_DIR\"\n\nget_current_time() {\n    date '+%Y-%m-%d %H:%M:%S'\n}\n";

/// The guard that ends the script when `/data/adb/ksud` is missing.
pub const BINARY_CHECK: &'static str = "# 检查ksud是否存在\nif [ ! -f \"/data/adb/ksud\" ]; then\n    echo \"$(get_current_time): ksud未找到: /data/adb/ksud\" >> \"$LOG_FILE\"\n    exit 1\nfi\n";

/// `LOG_DIR="…"`, `LOG_FILE="$LOG_DIR/<name>"`, then the tail.
pub open spec fn spec_log_setup(log_file_name: Seq<char>) -> Seq<char> {
    "LOG_DIR=\""@ + LOG_DIR@ + "\"\nLOG_FILE=\"$LOG_DIR/"@ + log_file_name + LOG_SETUP_TAIL@
}

/// The log setup for a script that logs to `log_file_name`.
pub fn log_setup(log_file_name: &str) -> (r: String)
    ensures
        r@ == spec_log_setup(log_file_name@),
{
    let mut s = String::new();
    s.append("LOG_DIR=\"");
    s.append(LOG_DIR);
    s.append("\"\nLOG_FILE=\"$LOG_DIR/");
    s.append(log_file_name);
    s.append(LOG_SETUP_TAIL);
    s
}

/// The guard for the `ksud` binary that every script depends on.
pub fn binary_check() -> (r: String)
    ensures
        r@ == BINARY_CHECK@,
{
    BINARY_CHECK.to_string()
}

} // verus!
