//! The four boot-stage scripts (`service.sh`, `post-fs-data.sh`,
//! `post-mount.sh`, `boot-completed.sh`), assembled from the fragments of
//! the sibling modules and the saved configuration.
use vstd::prelude::*;

use crate::susfs_module::consts::{
    escape_single_quotes, escape_single_quotes_exec, shell_quote, spec_shell_quote, DEFAULT_BUILD_TIME,
    DEFAULT_UNAME,
};
use crate::susfs_module::scripts::cleanup::{cleanup_residue_section, spec_cleanup_residue_section};
use crate::susfs_module::scripts::hide_bl::{hide_bl_props, hide_bl_section, HIDE_BL_PROPS, HIDE_BL_SECTION};
use crate::susfs_module::scripts::prelude::{binary_check, log_setup, spec_log_setup, BINARY_CHECK};
use crate::text::{chars_of, join_strings, join_with, split_chars, split_pat, strings_view};

verus! {

/// `echo "$(get_current_time): MSG" >> "$LOG_FILE"` and a newline.
pub open spec fn log_line(msg: Seq<char>) -> Seq<char> {
    "echo \"$(get_current_time): "@ + msg + "\" >> \"$LOG_FILE\"\n"@
}

/// `/data/adb/ksud susfs CMD 'ARG'` and a newline.
pub open spec fn ksud_line(cmd: Seq<char>, arg: Seq<char>) -> Seq<char> {
    "/data/adb/ksud susfs "@ + cmd + " "@ + spec_shell_quote(arg) + "\n"@
}

/// For each item, the `ksud` call with it and a log line `LABEL item`.
pub open spec fn item_lines(cmd: Seq<char>, label: Seq<char>, items: Seq<Seq<char>>) -> Seq<char>
    decreases items.len(),
{
    if items.len() == 0 {
        Seq::empty()
    } else {
        item_lines(cmd, label, items.drop_last()) + ksud_line(cmd, items.last()) + log_line(
            label + escape_single_quotes(items.last()),
        )
    }
}

fn log_line_exec(msg: &str) -> (r: String)
    ensures
        r@ == log_line(msg@),
{
    let mut s = String::new();
    s.append("echo \"$(get_current_time): ");
    s.append(msg);
    s.append("\" >> \"$LOG_FILE\"\n");
    assert(s@ =~= log_line(msg@));
    s
}

fn ksud_line_exec(cmd: &str, arg: &str) -> (r: String)
    ensures
        r@ == ksud_line(cmd@, arg@),
{
    let mut s = String::new();
    s.append("/data/adb/ksud susfs ");
    s.append(cmd);
    s.append(" ");
    let q = shell_quote(arg);
    s.append(q.as_str());
    s.append("\n");
    assert(s@ =~= ksud_line(cmd@, arg@));
    s
}

/// `label` followed by `value` escaped for single quotes.
fn labelled(label: &str, value: &str) -> (r: String)
    ensures
        r@ == label@ + escape_single_quotes(value@),
{
    let mut s = label.to_owned();
    let e = escape_single_quotes_exec(value);
    s.append(e.as_str());
    s
}

fn item_lines_exec(cmd: &str, label: &str, items: &[String]) -> (r: String)
    ensures
        r@ == item_lines(cmd@, label@, strings_view(items@)),
{
    let ghost v = strings_view(items@);
    let mut s = String::new();
    let mut i: usize = 0;
    while i < items.len()
        invariant
            i <= items@.len(),
            v == strings_view(items@),
            s@ == item_lines(cmd@, label@, v.take(i as int)),
        decreases items@.len() - i,
    {
        let k = ksud_line_exec(cmd, items[i].as_str());
        s.append(k.as_str());
        let m = labelled(label, items[i].as_str());
        let l = log_line_exec(m.as_str());
        s.append(l.as_str());
        proof {
            let t = v.take(i + 1);
            assert(t.drop_last() =~= v.take(i as int));
            assert(t.last() == items@[i as int]@);
        }
        i = i + 1;
    }
    assert(v.take(items@.len() as int) =~= v);
    s
}

/// The uname or build time differs from its default.
pub open spec fn uname_customised(uname_value: Seq<char>, build_time_value: Seq<char>) -> bool {
    uname_value != DEFAULT_UNAME@ || build_time_value != DEFAULT_BUILD_TIME@
}

fn uname_customised_exec(uname_value: &str, build_time_value: &str) -> (r: bool)
    ensures
        r == uname_customised(uname_value@, build_time_value@),
{
    let u = uname_value.to_owned();
    let b = build_time_value.to_owned();
    let du = DEFAULT_UNAME.to_owned();
    let db = DEFAULT_BUILD_TIME.to_owned();
    !(u == du) || !(b == db)
}

/// Whether `service.sh` has any SuSFS setting to apply: a path, a kstat
/// entry, a cmdline file, or a custom uname that is not applied in
/// `post-fs-data.sh`.
pub open spec fn spec_should_configure_in_service(
    sus_paths: Seq<Seq<char>>,
    sus_loop_paths: Seq<Seq<char>>,
    kstat_configs: Seq<Seq<char>>,
    add_kstat_paths: Seq<Seq<char>>,
    cmdline_or_bootconfig_path: Seq<char>,
    execute_in_post_fs_data: bool,
    uname_value: Seq<char>,
    build_time_value: Seq<char>,
) -> bool {
    ||| sus_paths.len() > 0
    ||| sus_loop_paths.len() > 0
    ||| kstat_configs.len() > 0
    ||| add_kstat_paths.len() > 0
    ||| cmdline_or_bootconfig_path.len() > 0
    ||| (!execute_in_post_fs_data && uname_customised(uname_value, build_time_value))
}

pub fn should_configure_in_service(
    sus_paths: &[String],
    sus_loop_paths: &[String],
    kstat_configs: &[String],
    add_kstat_paths: &[String],
    cmdline_or_bootconfig_path: &str,
    execute_in_post_fs_data: bool,
    uname_value: &str,
    build_time_value: &str,
) -> (r: bool)
    ensures
        r == spec_should_configure_in_service(
            strings_view(sus_paths@),
            strings_view(sus_loop_paths@),
            strings_view(kstat_configs@),
            strings_view(add_kstat_paths@),
            cmdline_or_bootconfig_path@,
            execute_in_post_fs_data,
            uname_value@,
            build_time_value@,
        ),
{
    sus_paths.len() > 0 || sus_loop_paths.len() > 0 || kstat_configs.len() > 0 || add_kstat_paths.len()
        > 0 || cmdline_or_bootconfig_path.unicode_len() > 0 || (!execute_in_post_fs_data && uname_customised_exec(
        uname_value,
        build_time_value,
    ))
}

/// The block that sets the uname and build time.
pub open spec fn uname_block(uname_value: Seq<char>, build_time_value: Seq<char>) -> Seq<char> {
    "# 设置uname和构建时间\n"@ + "/data/adb/ksud susfs set-uname "@ + spec_shell_quote(uname_value) + " "@
        + spec_shell_quote(build_time_value) + "\n"@ + log_line(
        "设置uname为: "@ + escape_single_quotes(uname_value) + ", 构建时间为: "@ + escape_single_quotes(
            build_time_value,
        ),
    ) + "\n"@
}

fn uname_block_exec(uname_value: &str, build_time_value: &str) -> (r: String)
    ensures
        r@ == uname_block(uname_value@, build_time_value@),
{
    let mut s = String::new();
    s.append("# 设置uname和构建时间\n");
    s.append("/data/adb/ksud susfs set-uname ");
    let qu = shell_quote(uname_value);
    s.append(qu.as_str());
    s.append(" ");
    let qb = shell_quote(build_time_value);
    s.append(qb.as_str());
    s.append("\n");
    let mut m = labelled("设置uname为: ", uname_value);
    let tail = labelled(", 构建时间为: ", build_time_value);
    m.append(tail.as_str());
    let l = log_line_exec(m.as_str());
    s.append(l.as_str());
    s.append("\n");
    assert(s@ =~= uname_block(uname_value@, build_time_value@));
    s
}

/// The `add-sus-kstat-statically` and `update-sus-kstat` calls for one
/// `path|field|...` entry with at least 13 fields; nothing for a shorter
/// entry.
pub open spec fn kstat_static_lines(config: Seq<char>) -> Seq<char> {
    let parts = split_pat(config, seq!['|']);
    if parts.len() >= 13 {
        "/data/adb/ksud susfs add-sus-kstat-statically "@ + spec_shell_quote(parts[0]) + " '"@ + join_with(
            parts.drop_first(),
            seq!['\'', ' ', '\''],
        ) + "'\n"@ + log_line("添加Kstat静态配置: "@ + escape_single_quotes(parts[0])) + ksud_line(
            "update-sus-kstat"@,
            parts[0],
        ) + log_line("更新Kstat配置: "@ + escape_single_quotes(parts[0]))
    } else {
        Seq::empty()
    }
}

pub open spec fn kstat_static_all(configs: Seq<Seq<char>>) -> Seq<char>
    decreases configs.len(),
{
    if configs.len() == 0 {
        Seq::empty()
    } else {
        kstat_static_all(configs.drop_last()) + kstat_static_lines(configs.last())
    }
}

fn kstat_static_lines_exec(config: &str) -> (r: String)
    ensures
        r@ == kstat_static_lines(config@),
{
    let cs = chars_of(config);
    let bar = chars_of("|");
    proof {
        reveal_strlit("|");
    }
    assert(bar@ =~= seq!['|']);
    let parts = split_chars(&cs, &bar, false);
    let ghost pv = strings_view(parts@);
    if parts.len() < 13 {
        return String::new();
    }
    let path = parts[0].as_str();
    let mut s = String::new();
    s.append("/data/adb/ksud susfs add-sus-kstat-statically ");
    let q = shell_quote(path);
    s.append(q.as_str());
    s.append(" '");
    let rest = vstd::slice::slice_subrange(parts.as_slice(), 1, parts.len());
    assert(strings_view(rest@) =~= pv.drop_first());
    let sep = chars_of("' '");
    proof {
        reveal_strlit("' '");
    }
    assert(sep@ =~= seq!['\'', ' ', '\'']);
    let joined = join_strings(rest, &sep);
    s.append(joined.as_str());
    s.append("'\n");
    let m1 = labelled("添加Kstat静态配置: ", path);
    let l1 = log_line_exec(m1.as_str());
    s.append(l1.as_str());
    let k = ksud_line_exec("update-sus-kstat", path);
    s.append(k.as_str());
    let m2 = labelled("更新Kstat配置: ", path);
    let l2 = log_line_exec(m2.as_str());
    s.append(l2.as_str());
    assert(pv[0] == parts@[0]@);
    assert(s@ =~= kstat_static_lines(config@));
    s
}

fn kstat_static_all_exec(configs: &[String]) -> (r: String)
    ensures
        r@ == kstat_static_all(strings_view(configs@)),
{
    let ghost v = strings_view(configs@);
    let mut s = String::new();
    let mut i: usize = 0;
    while i < configs.len()
        invariant
            i <= configs@.len(),
            v == strings_view(configs@),
            s@ == kstat_static_all(v.take(i as int)),
        decreases configs@.len() - i,
    {
        let l = kstat_static_lines_exec(configs[i].as_str());
        s.append(l.as_str());
        proof {
            let t = v.take(i + 1);
            assert(t.drop_last() =~= v.take(i as int));
            assert(t.last() == configs@[i as int]@);
        }
        i = i + 1;
    }
    assert(v.take(configs@.len() as int) =~= v);
    s
}

/// The block that applies a replacement cmdline / bootconfig file when it
/// exists, and logs when it does not.
pub open spec fn cmdline_block(path: Seq<char>) -> Seq<char> {
    "\n# 替换 cmdline / bootconfig\n"@ + "if [ -f "@ + spec_shell_quote(path)
        + " ]; then\n  /data/adb/ksud susfs set-cmdline-or-bootconfig "@ + spec_shell_quote(path)
        + "\nelse\n  echo \"$(get_current_time): 指定的cmdline/bootconfig文件不存在: "@ + escape_single_quotes(path)
        + "\" >> \"$LOG_FILE\"\nfi"@ + "\n"@ + log_line(
        "应用 cmdline/bootconfig 文件: "@ + escape_single_quotes(path),
    ) + "\n"@
}

fn cmdline_block_exec(path: &str) -> (r: String)
    ensures
        r@ == cmdline_block(path@),
{
    let q = shell_quote(path);
    let e = escape_single_quotes_exec(path);
    let mut s = String::new();
    s.append("\n# 替换 cmdline / bootconfig\n");
    s.append("if [ -f ");
    s.append(q.as_str());
    s.append(" ]; then\n  /data/adb/ksud susfs set-cmdline-or-bootconfig ");
    s.append(q.as_str());
    s.append("\nelse\n  echo \"$(get_current_time): 指定的cmdline/bootconfig文件不存在: ");
    s.append(e.as_str());
    s.append("\" >> \"$LOG_FILE\"\nfi");
    s.append("\n");
    let m = labelled("应用 cmdline/bootconfig 文件: ", path);
    let l = log_line_exec(m.as_str());
    s.append(l.as_str());
    s.append("\n");
    assert(s@ =~= cmdline_block(path@));
    s
}

/// The part of `service.sh` that applies the configured SuSFS settings,
/// each block only where it has something to do.
pub open spec fn service_settings(
    sus_paths: Seq<Seq<char>>,
    kstat_configs: Seq<Seq<char>>,
    add_kstat_paths: Seq<Seq<char>>,
    cmdline_or_bootconfig_path: Seq<char>,
    uname_value: Seq<char>,
    build_time_value: Seq<char>,
    execute_in_post_fs_data: bool,
) -> Seq<char> {
    (if sus_paths.len() > 0 {
        "\n# 添加SUS路径\n"@ + "until [ -d \"/sdcard/Android\" ]; do sleep 1; done\n"@ + "sleep 45\n"@ + item_lines(
            "add-sus-path"@,
            "添加SUS路径: "@,
            sus_paths,
        ) + "\n"@
    } else {
        Seq::empty()
    }) + (if !execute_in_post_fs_data && uname_customised(uname_value, build_time_value) {
        uname_block(uname_value, build_time_value)
    } else {
        Seq::empty()
    }) + (if add_kstat_paths.len() > 0 {
        "# 添加Kstat路径\n"@ + item_lines("add-sus-kstat"@, "添加Kstat路径: "@, add_kstat_paths) + "\n"@
    } else {
        Seq::empty()
    }) + (if kstat_configs.len() > 0 {
        "# 添加Kstat静态配置\n"@ + kstat_static_all(kstat_configs) + "\n"@
    } else {
        Seq::empty()
    }) + (if cmdline_or_bootconfig_path.len() > 0 {
        cmdline_block(cmdline_or_bootconfig_path)
    } else {
        Seq::empty()
    })
}

fn service_settings_exec(
    sus_paths: &[String],
    kstat_configs: &[String],
    add_kstat_paths: &[String],
    cmdline_or_bootconfig_path: &str,
    uname_value: &str,
    build_time_value: &str,
    execute_in_post_fs_data: bool,
) -> (r: String)
    ensures
        r@ == service_settings(
            strings_view(sus_paths@),
            strings_view(kstat_configs@),
            strings_view(add_kstat_paths@),
            cmdline_or_bootconfig_path@,
            uname_value@,
            build_time_value@,
            execute_in_post_fs_data,
        ),
{
    let mut a = String::new();
    if sus_paths.len() > 0 {
        a.append("\n# 添加SUS路径\n");
        a.append("until [ -d \"/sdcard/Android\" ]; do sleep 1; done\n");
        a.append("sleep 45\n");
        let l = item_lines_exec("add-sus-path", "添加SUS路径: ", sus_paths);
        a.append(l.as_str());
        a.append("\n");
    }
    let b = if !execute_in_post_fs_data && uname_customised_exec(uname_value, build_time_value) {
        uname_block_exec(uname_value, build_time_value)
    } else {
        String::new()
    };
    let mut c = String::new();
    if add_kstat_paths.len() > 0 {
        c.append("# 添加Kstat路径\n");
        let l = item_lines_exec("add-sus-kstat", "添加Kstat路径: ", add_kstat_paths);
        c.append(l.as_str());
        c.append("\n");
    }
    let mut d = String::new();
    if kstat_configs.len() > 0 {
        d.append("# 添加Kstat静态配置\n");
        let l = kstat_static_all_exec(kstat_configs);
        d.append(l.as_str());
        d.append("\n");
    }
    let e = if cmdline_or_bootconfig_path.unicode_len() > 0 {
        cmdline_block_exec(cmdline_or_bootconfig_path)
    } else {
        String::new()
    };
    let mut s = String::new();
    s.append(a.as_str());
    s.append(b.as_str());
    s.append(c.as_str());
    s.append(d.as_str());
    s.append(e.as_str());
    assert(s@ =~= service_settings(
        strings_view(sus_paths@),
        strings_view(kstat_configs@),
        strings_view(add_kstat_paths@),
        cmdline_or_bootconfig_path@,
        uname_value@,
        build_time_value@,
        execute_in_post_fs_data,
    ));
    s
}

/// The first lines of a script: the shebang and the comment `title`,
/// then the log setup for `log_file`.
pub open spec fn script_head(title: Seq<char>, log_file: Seq<char>) -> Seq<char> {
    "#!/system/bin/sh\n"@ + title + spec_log_setup(log_file) + "\n"@
}

fn script_head_exec(title: &str, log_file: &str) -> (r: String)
    ensures
        r@ == script_head(title@, log_file@),
{
    let mut s = String::new();
    s.append("#!/system/bin/sh\n");
    s.append(title);
    let l = log_setup(log_file);
    s.append(l.as_str());
    s.append("\n");
    assert(s@ =~= script_head(title@, log_file@));
    s
}

/// `# COMMENT`, the `ksud susfs CMD 0|1` call, and its log line saying
/// which of `on` / `off` was chosen.
pub open spec fn switch_block(comment: Seq<char>, cmd: Seq<char>, enabled: bool, label: Seq<char>, on: Seq<char>, off: Seq<char>) -> Seq<char> {
    comment + "/data/adb/ksud susfs "@ + cmd + " "@ + (if enabled {
        "1"@
    } else {
        "0"@
    }) + "\n\n"@ + log_line(label + if enabled {
        on
    } else {
        off
    }) + "\n"@
}

fn switch_block_exec(comment: &str, cmd: &str, enabled: bool, label: &str, on: &str, off: &str) -> (r: String)
    ensures
        r@ == switch_block(comment@, cmd@, enabled, label@, on@, off@),
{
    let mut s = String::new();
    s.append(comment);
    s.append("/data/adb/ksud susfs ");
    s.append(cmd);
    s.append(" ");
    if enabled {
        s.append("1");
    } else {
        s.append("0");
    }
    s.append("\n\n");
    let mut m = label.to_owned();
    if enabled {
        m.append(on);
    } else {
        m.append(off);
    }
    let l = log_line_exec(m.as_str());
    s.append(l.as_str());
    s.append("\n");
    assert(s@ =~= switch_block(comment@, cmd@, enabled, label@, on@, off@));
    s
}

pub const SERVICE_TITLE: &'static str = "# SuSFS Service Script\n# 在系统服务启动后执行\n\n";
pub const POST_FS_DATA_TITLE: &'static str = "# SuSFS Post-FS-Data Script\n# 在文件系统挂载后但在系统完全启动前执行\n\n";
pub const POST_MOUNT_TITLE: &'static str = "# SuSFS Post-Mount Script\n# 在所有分区挂载完成后执行\n\n";
pub const BOOT_COMPLETED_TITLE: &'static str = "# SuSFS Boot-Completed Script\n# 在系统完全启动后执行\n\n";

/// `service.sh`: the prelude, the SuSFS settings (when there is any to
/// apply), the log switch, and the optional bootloader hiding and residue
/// cleanup.
pub open spec fn spec_service(
    sus_paths: Seq<Seq<char>>,
    sus_loop_paths: Seq<Seq<char>>,
    kstat_configs: Seq<Seq<char>>,
    add_kstat_paths: Seq<Seq<char>>,
    cmdline_or_bootconfig_path: Seq<char>,
    uname_value: Seq<char>,
    build_time_value: Seq<char>,
    execute_in_post_fs_data: bool,
    enable_log: bool,
    enable_hide_bl: bool,
    enable_cleanup_residue: bool,
) -> Seq<char> {
    script_head(SERVICE_TITLE@, "susfs_service.log"@) + BINARY_CHECK@ + "\n# ksud存在，继续执行\n\n"@ + (
    if spec_should_configure_in_service(
        sus_paths,
        sus_loop_paths,
        kstat_configs,
        add_kstat_paths,
        cmdline_or_bootconfig_path,
        execute_in_post_fs_data,
        uname_value,
        build_time_value,
    ) {
        service_settings(
            sus_paths,
            kstat_configs,
            add_kstat_paths,
            cmdline_or_bootconfig_path,
            uname_value,
            build_time_value,
            execute_in_post_fs_data,
        )
    } else {
        Seq::empty()
    }) + switch_block(
        "# 设置日志启用状态\n"@,
        "enable-log"@,
        enable_log,
        "日志功能设置为: "@,
        "启用"@,
        "禁用"@,
    ) + (if enable_hide_bl {
        "\n# 隐藏BL\n"@ + HIDE_BL_SECTION@ + "\n"@ + HIDE_BL_PROPS@ + "\n"@
    } else {
        Seq::empty()
    }) + (if enable_cleanup_residue {
        spec_cleanup_residue_section()
    } else {
        Seq::empty()
    }) + log_line("Service脚本执行完成"@)
}

/// `service.sh`, run once the system services are up; most SuSFS
/// settings are applied here. The SUS maps are applied in
/// `boot-completed.sh` instead.
pub fn service(
    sus_paths: &[String],
    sus_loop_paths: &[String],
    sus_maps: &[String],
    kstat_configs: &[String],
    add_kstat_paths: &[String],
    cmdline_or_bootconfig_path: &str,
    uname_value: &str,
    build_time_value: &str,
    execute_in_post_fs_data: bool,
    enable_log: bool,
    enable_hide_bl: bool,
    enable_cleanup_residue: bool,
) -> (r: String)
    ensures
        r@ == spec_service(
            strings_view(sus_paths@),
            strings_view(sus_loop_paths@),
            strings_view(kstat_configs@),
            strings_view(add_kstat_paths@),
            cmdline_or_bootconfig_path@,
            uname_value@,
            build_time_value@,
            execute_in_post_fs_data,
            enable_log,
            enable_hide_bl,
            enable_cleanup_residue,
        ),
{
    let mut s = script_head_exec(SERVICE_TITLE, "susfs_service.log");
    let check = binary_check();
    s.append(check.as_str());
    s.append("\n# ksud存在，继续执行\n\n");
    let settings = if should_configure_in_service(
        sus_paths,
        sus_loop_paths,
        kstat_configs,
        add_kstat_paths,
        cmdline_or_bootconfig_path,
        execute_in_post_fs_data,
        uname_value,
        build_time_value,
    ) {
        service_settings_exec(
            sus_paths,
            kstat_configs,
            add_kstat_paths,
            cmdline_or_bootconfig_path,
            uname_value,
            build_time_value,
            execute_in_post_fs_data,
        )
    } else {
        String::new()
    };
    s.append(settings.as_str());
    let log = switch_block_exec(
        "# 设置日志启用状态\n",
        "enable-log",
        enable_log,
        "日志功能设置为: ",
        "启用",
        "禁用",
    );
    s.append(log.as_str());
    let mut bl = String::new();
    if enable_hide_bl {
        bl.append("\n# 隐藏BL\n");
        let sec = hide_bl_section();
        bl.append(sec.as_str());
        bl.append("\n");
        let props = hide_bl_props();
        bl.append(props.as_str());
        bl.append("\n");
    }
    s.append(bl.as_str());
    let cleanup = if enable_cleanup_residue {
        cleanup_residue_section()
    } else {
        String::new()
    };
    s.append(cleanup.as_str());
    let done = log_line_exec("Service脚本执行完成");
    s.append(done.as_str());
    s
}

/// `post-fs-data.sh`: the prelude, the uname when it is to be set this
/// early, and the AVC log spoofing switch.
pub open spec fn spec_post_fs_data(
    uname_value: Seq<char>,
    build_time_value: Seq<char>,
    execute_in_post_fs_data: bool,
    enable_avc_log_spoofing: bool,
) -> Seq<char> {
    script_head(POST_FS_DATA_TITLE@, "susfs_post_fs_data.log"@) + BINARY_CHECK@ + "\n"@ + log_line(
        "Post-FS-Data脚本开始执行"@,
    ) + "\n"@ + (if execute_in_post_fs_data && uname_customised(uname_value, build_time_value) {
        uname_block(uname_value, build_time_value)
    } else {
        Seq::empty()
    }) + switch_block(
        "# 设置AVC日志欺骗状态\n"@,
        "enable-avc-log-spoofing"@,
        enable_avc_log_spoofing,
        "AVC日志欺骗功能设置为: "@,
        "启用"@,
        "禁用"@,
    ) + log_line("Post-FS-Data脚本执行完成"@)
}

/// `post-fs-data.sh`, run after `/data` is mounted and before the
/// services start.
pub fn post_fs_data(
    uname_value: &str,
    build_time_value: &str,
    execute_in_post_fs_data: bool,
    enable_avc_log_spoofing: bool,
) -> (r: String)
    ensures
        r@ == spec_post_fs_data(uname_value@, build_time_value@, execute_in_post_fs_data, enable_avc_log_spoofing),
{
    let mut s = script_head_exec(POST_FS_DATA_TITLE, "susfs_post_fs_data.log");
    let check = binary_check();
    s.append(check.as_str());
    s.append("\n");
    let start = log_line_exec("Post-FS-Data脚本开始执行");
    s.append(start.as_str());
    s.append("\n");
    let uname = if execute_in_post_fs_data && uname_customised_exec(uname_value, build_time_value) {
        uname_block_exec(uname_value, build_time_value)
    } else {
        String::new()
    };
    s.append(uname.as_str());
    let avc = switch_block_exec(
        "# 设置AVC日志欺骗状态\n",
        "enable-avc-log-spoofing",
        enable_avc_log_spoofing,
        "AVC日志欺骗功能设置为: ",
        "启用",
        "禁用",
    );
    s.append(avc.as_str());
    let done = log_line_exec("Post-FS-Data脚本执行完成");
    s.append(done.as_str());
    s
}

/// `post-mount.sh`: only records that it ran.
pub open spec fn spec_post_mount() -> Seq<char> {
    script_head(POST_MOUNT_TITLE@, "susfs_post_mount.log"@) + log_line("Post-Mount脚本开始执行"@) + "\n"@
        + BINARY_CHECK@ + "\n"@ + log_line("Post-Mount脚本执行完成"@)
}

/// `post-mount.sh`, run once every partition is mounted.
pub fn post_mount() -> (r: String)
    ensures
        r@ == spec_post_mount(),
{
    let mut s = script_head_exec(POST_MOUNT_TITLE, "susfs_post_mount.log");
    let start = log_line_exec("Post-Mount脚本开始执行");
    s.append(start.as_str());
    s.append("\n");
    let check = binary_check();
    s.append(check.as_str());
    s.append("\n");
    let done = log_line_exec("Post-Mount脚本执行完成");
    s.append(done.as_str());
    s
}

/// A commented block of `ksud` calls, one per item; nothing when there
/// are no items.
pub open spec fn items_block(comment: Seq<char>, cmd: Seq<char>, label: Seq<char>, items: Seq<Seq<char>>) -> Seq<char> {
    if items.len() > 0 {
        comment + item_lines(cmd, label, items) + "\n"@
    } else {
        Seq::empty()
    }
}

fn items_block_exec(comment: &str, cmd: &str, label: &str, items: &[String]) -> (r: String)
    ensures
        r@ == items_block(comment@, cmd@, label@, strings_view(items@)),
{
    let mut s = String::new();
    if items.len() > 0 {
        s.append(comment);
        let l = item_lines_exec(cmd, label, items);
        s.append(l.as_str());
        s.append("\n");
        assert(s@ =~= items_block(comment@, cmd@, label@, strings_view(items@)));
    }
    s
}

/// `boot-completed.sh`: the prelude, the mount-hiding switch, then the
/// SUS paths, loop paths and maps.
pub open spec fn spec_boot_completed(
    hide_sus_mounts_for_all_procs: bool,
    sus_paths: Seq<Seq<char>>,
    sus_loop_paths: Seq<Seq<char>>,
    sus_maps: Seq<Seq<char>>,
) -> Seq<char> {
    script_head(BOOT_COMPLETED_TITLE@, "susfs_boot_completed.log"@) + log_line("Boot-Completed脚本开始执行"@)
        + "\n"@ + BINARY_CHECK@ + "\n"@ + switch_block(
        "# 设置SUS挂载隐藏控制\n"@,
        "hide-sus-mnts-for-non-su-procs"@,
        hide_sus_mounts_for_all_procs,
        "SUS挂载隐藏控制设置为: "@,
        "对所有进程隐藏"@,
        "仅对非KSU进程隐藏"@,
    ) + items_block("# 添加SUS路径\n"@, "add-sus-path"@, "添加SUS路径: "@, sus_paths) + items_block(
        "# 添加SUS循环路径\n"@,
        "add-sus-path-loop"@,
        "添加SUS循环路径: "@,
        sus_loop_paths,
    ) + items_block("# 添加SUS映射\n"@, "add-sus-map"@, "添加SUS映射: "@, sus_maps) + log_line(
        "Boot-Completed脚本执行完成"@,
    )
}

/// `boot-completed.sh`, run once the system has booted; the per-path
/// SuSFS calls land here because the filesystems are ready only then.
pub fn boot_completed(
    hide_sus_mounts_for_all_procs: bool,
    sus_paths: &[String],
    sus_loop_paths: &[String],
    sus_maps: &[String],
) -> (r: String)
    ensures
        r@ == spec_boot_completed(
            hide_sus_mounts_for_all_procs,
            strings_view(sus_paths@),
            strings_view(sus_loop_paths@),
            strings_view(sus_maps@),
        ),
{
    let mut s = script_head_exec(BOOT_COMPLETED_TITLE, "susfs_boot_completed.log");
    let start = log_line_exec("Boot-Completed脚本开始执行");
    s.append(start.as_str());
    s.append("\n");
    let check = binary_check();
    s.append(check.as_str());
    s.append("\n");
    let hide = switch_block_exec(
        "# 设置SUS挂载隐藏控制\n",
        "hide-sus-mnts-for-non-su-procs",
        hide_sus_mounts_for_all_procs,
        "SUS挂载隐藏控制设置为: ",
        "对所有进程隐藏",
        "仅对非KSU进程隐藏",
    );
    s.append(hide.as_str());
    let p = items_block_exec("# 添加SUS路径\n", "add-sus-path", "添加SUS路径: ", sus_paths);
    s.append(p.as_str());
    let l = items_block_exec("# 添加SUS循环路径\n", "add-sus-path-loop", "添加SUS循环路径: ", sus_loop_paths);
    s.append(l.as_str());
    let m = items_block_exec("# 添加SUS映射\n", "add-sus-map", "添加SUS映射: ", sus_maps);
    s.append(m.as_str());
    let done = log_line_exec("Boot-Completed脚本执行完成");
    s.append(done.as_str());
    s
}

/// Law: the uname is set in exactly one boot stage.  Turning
/// `execute_in_post_fs_data` on moves the uname block out of `service.sh`
/// and into `post-fs-data.sh`, at a fixed place, and changes nothing else;
/// with the default uname and build time neither script has the block and
/// the flag changes neither script.
pub proof fn law_uname_set_in_one_stage(
    sus_paths: Seq<Seq<char>>,
    sus_loop_paths: Seq<Seq<char>>,
    kstat_configs: Seq<Seq<char>>,
    add_kstat_paths: Seq<Seq<char>>,
    cmdline_or_bootconfig_path: Seq<char>,
    uname_value: Seq<char>,
    build_time_value: Seq<char>,
    enable_log: bool,
    enable_hide_bl: bool,
    enable_cleanup_residue: bool,
    enable_avc_log_spoofing: bool,
)
    ensures
        uname_customised(uname_value, build_time_value) ==> exists|p: Seq<char>, q: Seq<char>|
            #![trigger p + uname_block(uname_value, build_time_value) + q]
            spec_post_fs_data(uname_value, build_time_value, true, enable_avc_log_spoofing) == p
                + uname_block(uname_value, build_time_value) + q
                && spec_post_fs_data(uname_value, build_time_value, false, enable_avc_log_spoofing) == p + q,
        uname_customised(uname_value, build_time_value) ==> exists|p: Seq<char>, q: Seq<char>|
            #![trigger p + uname_block(uname_value, build_time_value) + q]
            spec_service(sus_paths, sus_loop_paths, kstat_configs, add_kstat_paths, cmdline_or_bootconfig_path,
                uname_value, build_time_value, false, enable_log, enable_hide_bl, enable_cleanup_residue) == p
                + uname_block(uname_value, build_time_value) + q
                && spec_service(sus_paths, sus_loop_paths, kstat_configs, add_kstat_paths,
                cmdline_or_bootconfig_path, uname_value, build_time_value, true, enable_log, enable_hide_bl,
                enable_cleanup_residue) == p + q,
        !uname_customised(uname_value, build_time_value) ==> spec_post_fs_data(
            uname_value,
            build_time_value,
            true,
            enable_avc_log_spoofing,
        ) == spec_post_fs_data(uname_value, build_time_value, false, enable_avc_log_spoofing),
        !uname_customised(uname_value, build_time_value) ==> spec_service(sus_paths, sus_loop_paths,
            kstat_configs, add_kstat_paths, cmdline_or_bootconfig_path, uname_value, build_time_value, true,
            enable_log, enable_hide_bl, enable_cleanup_residue) == spec_service(sus_paths, sus_loop_paths,
            kstat_configs, add_kstat_paths, cmdline_or_bootconfig_path, uname_value, build_time_value, false,
            enable_log, enable_hide_bl, enable_cleanup_residue),
{
    lemma_post_fs_data_uname(uname_value, build_time_value, enable_avc_log_spoofing);
    lemma_service_uname(
        sus_paths,
        sus_loop_paths,
        kstat_configs,
        add_kstat_paths,
        cmdline_or_bootconfig_path,
        uname_value,
        build_time_value,
        enable_log,
        enable_hide_bl,
        enable_cleanup_residue,
    );
}

proof fn lemma_regroup_tail(a: Seq<char>, x: Seq<char>, f: Seq<char>, g: Seq<char>)
    ensures
        ((a + x) + f) + g == (a + x) + (f + g),
        ((a + Seq::<char>::empty()) + f) + g == a + (f + g),
{
    assert(((a + x) + f) + g =~= (a + x) + (f + g));
    assert(((a + Seq::<char>::empty()) + f) + g =~= a + (f + g));
}

proof fn lemma_regroup_service(
    h: Seq<char>,
    p: Seq<char>,
    x: Seq<char>,
    k1: Seq<char>,
    k2: Seq<char>,
    c: Seq<char>,
    l: Seq<char>,
    bl: Seq<char>,
    cl: Seq<char>,
    d: Seq<char>,
)
    ensures
        ((((h + ((((p + x) + k1) + k2) + c)) + l) + bl) + cl) + d == ((h + p) + x) + (((k1 + k2) + c) + (((l
            + bl) + cl) + d)),
        ((((h + ((((p + Seq::<char>::empty()) + k1) + k2) + c)) + l) + bl) + cl) + d == (h + p) + (((k1 + k2)
            + c) + (((l + bl) + cl) + d)),
        p.len() == 0 && k1.len() == 0 && k2.len() == 0 && c.len() == 0 ==> ((((h + Seq::<char>::empty()) + l)
            + bl) + cl) + d == (h + p) + (((k1 + k2) + c) + (((l + bl) + cl) + d)),
{
    assert(((((h + ((((p + x) + k1) + k2) + c)) + l) + bl) + cl) + d =~= ((h + p) + x) + (((k1 + k2) + c) + (((
    l + bl) + cl) + d)));
    assert(((((h + ((((p + Seq::<char>::empty()) + k1) + k2) + c)) + l) + bl) + cl) + d =~= (h + p) + (((k1
        + k2) + c) + (((l + bl) + cl) + d)));
    if p.len() == 0 && k1.len() == 0 && k2.len() == 0 && c.len() == 0 {
        assert(((((h + Seq::<char>::empty()) + l) + bl) + cl) + d =~= (h + p) + (((k1 + k2) + c) + (((l + bl)
            + cl) + d)));
    }
}

proof fn lemma_post_fs_data_uname(u: Seq<char>, b: Seq<char>, avc: bool)
    ensures
        uname_customised(u, b) ==> exists|p: Seq<char>, q: Seq<char>|
            #![trigger p + uname_block(u, b) + q]
            spec_post_fs_data(u, b, true, avc) == p + uname_block(u, b) + q && spec_post_fs_data(u, b, false, avc)
                == p + q,
        !uname_customised(u, b) ==> spec_post_fs_data(u, b, true, avc) == spec_post_fs_data(u, b, false, avc),
{
    let ub = uname_block(u, b);
    let p = script_head(POST_FS_DATA_TITLE@, "susfs_post_fs_data.log"@) + BINARY_CHECK@ + "\n"@ + log_line(
        "Post-FS-Data脚本开始执行"@,
    ) + "\n"@;
    let f = switch_block(
        "# 设置AVC日志欺骗状态\n"@,
        "enable-avc-log-spoofing"@,
        avc,
        "AVC日志欺骗功能设置为: "@,
        "启用"@,
        "禁用"@,
    );
    let g = log_line("Post-FS-Data脚本执行完成"@);
    lemma_regroup_tail(p, ub, f, g);
    if uname_customised(u, b) {
        assert(spec_post_fs_data(u, b, true, avc) == p + ub + (f + g));
        assert(spec_post_fs_data(u, b, false, avc) == p + (f + g));
    }
}

proof fn lemma_service_uname(
    sus_paths: Seq<Seq<char>>,
    sus_loop_paths: Seq<Seq<char>>,
    kstat_configs: Seq<Seq<char>>,
    add_kstat_paths: Seq<Seq<char>>,
    cmdline_or_bootconfig_path: Seq<char>,
    u: Seq<char>,
    b: Seq<char>,
    enable_log: bool,
    enable_hide_bl: bool,
    enable_cleanup_residue: bool,
)
    ensures
        uname_customised(u, b) ==> exists|p: Seq<char>, q: Seq<char>|
            #![trigger p + uname_block(u, b) + q]
            spec_service(sus_paths, sus_loop_paths, kstat_configs, add_kstat_paths, cmdline_or_bootconfig_path, u,
                b, false, enable_log, enable_hide_bl, enable_cleanup_residue) == p + uname_block(u, b) + q
                && spec_service(sus_paths, sus_loop_paths, kstat_configs, add_kstat_paths,
                cmdline_or_bootconfig_path, u, b, true, enable_log, enable_hide_bl, enable_cleanup_residue) == p
                + q,
        !uname_customised(u, b) ==> spec_service(sus_paths, sus_loop_paths, kstat_configs, add_kstat_paths,
            cmdline_or_bootconfig_path, u, b, true, enable_log, enable_hide_bl, enable_cleanup_residue)
            == spec_service(sus_paths, sus_loop_paths, kstat_configs, add_kstat_paths, cmdline_or_bootconfig_path,
            u, b, false, enable_log, enable_hide_bl, enable_cleanup_residue),
{
    let ub = uname_block(u, b);
    let h = script_head(SERVICE_TITLE@, "susfs_service.log"@) + BINARY_CHECK@ + "\n# ksud存在，继续执行\n\n"@;
    let p = if sus_paths.len() > 0 {
        "\n# 添加SUS路径\n"@ + "until [ -d \"/sdcard/Android\" ]; do sleep 1; done\n"@ + "sleep 45\n"@ + item_lines(
            "add-sus-path"@,
            "添加SUS路径: "@,
            sus_paths,
        ) + "\n"@
    } else {
        Seq::empty()
    };
    let k1 = if add_kstat_paths.len() > 0 {
        "# 添加Kstat路径\n"@ + item_lines("add-sus-kstat"@, "添加Kstat路径: "@, add_kstat_paths) + "\n"@
    } else {
        Seq::empty()
    };
    let k2 = if kstat_configs.len() > 0 {
        "# 添加Kstat静态配置\n"@ + kstat_static_all(kstat_configs) + "\n"@
    } else {
        Seq::empty()
    };
    let c = if cmdline_or_bootconfig_path.len() > 0 {
        cmdline_block(cmdline_or_bootconfig_path)
    } else {
        Seq::empty()
    };
    let l = switch_block(
        "# 设置日志启用状态\n"@,
        "enable-log"@,
        enable_log,
        "日志功能设置为: "@,
        "启用"@,
        "禁用"@,
    );
    let bl = if enable_hide_bl {
        "\n# 隐藏BL\n"@ + HIDE_BL_SECTION@ + "\n"@ + HIDE_BL_PROPS@ + "\n"@
    } else {
        Seq::empty()
    };
    let cl = if enable_cleanup_residue {
        spec_cleanup_residue_section()
    } else {
        Seq::empty()
    };
    let d = log_line("Service脚本执行完成"@);
    lemma_regroup_service(h, p, ub, k1, k2, c, l, bl, cl, d);
    assert(service_settings(sus_paths, kstat_configs, add_kstat_paths, cmdline_or_bootconfig_path, u, b, true)
        == (((p + Seq::<char>::empty()) + k1) + k2) + c);
    if uname_customised(u, b) {
        assert(service_settings(sus_paths, kstat_configs, add_kstat_paths, cmdline_or_bootconfig_path, u, b, false)
            == (((p + ub) + k1) + k2) + c);
        let q = ((k1 + k2) + c) + (((l + bl) + cl) + d);
        assert(spec_service(sus_paths, sus_loop_paths, kstat_configs, add_kstat_paths, cmdline_or_bootconfig_path,
            u, b, false, enable_log, enable_hide_bl, enable_cleanup_residue) == (h + p) + ub + q);
        assert(spec_service(sus_paths, sus_loop_paths, kstat_configs, add_kstat_paths, cmdline_or_bootconfig_path,
            u, b, true, enable_log, enable_hide_bl, enable_cleanup_residue) == (h + p) + q);
    } else {
        assert(service_settings(sus_paths, kstat_configs, add_kstat_paths, cmdline_or_bootconfig_path, u, b, false)
            == (((p + Seq::<char>::empty()) + k1) + k2) + c);
    }
}


/// Law: the static-kstat block of `service.sh` is the commands of each
/// config in list order: nothing for no configs, one config's commands for
/// one, and the blocks of two lists one after the other for their
/// concatenation.
pub proof fn law_kstat_static_all_concat(a: Seq<Seq<char>>, b: Seq<Seq<char>>, c: Seq<char>)
    ensures
        kstat_static_all(Seq::<Seq<char>>::empty()) == Seq::<char>::empty(),
        kstat_static_all(seq![c]) == kstat_static_lines(c),
        kstat_static_all(a + b) == kstat_static_all(a) + kstat_static_all(b),
    decreases b.len(),
{
    assert(seq![c].drop_last() =~= Seq::<Seq<char>>::empty());
    assert(kstat_static_all(seq![c].drop_last()) == Seq::<char>::empty());
    assert(seq![c].last() == c);
    assert(Seq::<char>::empty() + kstat_static_lines(c) =~= kstat_static_lines(c));
    assert(kstat_static_all(seq![c]) == kstat_static_all(seq![c].drop_last()) + kstat_static_lines(seq![c].last()));
    if b.len() == 0 {
        assert(a + b =~= a);
        assert(kstat_static_all(a) + Seq::<char>::empty() =~= kstat_static_all(a));
    } else {
        law_kstat_static_all_concat(a, b.drop_last(), c);
        assert((a + b).drop_last() =~= a + b.drop_last());
        assert((a + b).last() == b.last());
        assert(kstat_static_all(a + b) =~= kstat_static_all(a) + kstat_static_all(b));
    }
}

} // verus!
