use ksud::susfs_config::config_map::ConfigMap;
use ksud::susfs_config::module::ModuleConfig;
use ksud::susfs_config::store::reset_to_defaults;
use ksud::susfs_module::consts::{
    escape_single_quotes_exec, get_current_time, shell_quote, DEFAULT_BUILD_TIME, DEFAULT_UNAME, LOG_DIR,
    MODULE_ID, MODULE_PATH,
};
use ksud::susfs_module::install::{
    install_failure_message, install_module, install_with_config, is_module_installed, module_installed_check,
    module_scripts, remove_module, InstallStep,
};
use ksud::susfs_module::scripts::cleanup::{cleanup_residue_section, residue_paths};
use ksud::susfs_module::scripts::generate::{
    boot_completed, post_fs_data, post_mount, service, should_configure_in_service,
};
use ksud::susfs_module::scripts::hide_bl::{hide_bl_props, hide_bl_section};
use ksud::susfs_module::scripts::prelude::{binary_check, log_setup};
use ksud::susfs_module::scripts::prop::module_prop;

fn strings(v: &[&str]) -> Vec<String> {
    v.iter().map(|s| s.to_string()).collect()
}

#[test]
fn shell_quote_examples() {
    assert_eq!(shell_quote("foo"), "'foo'");
    assert_eq!(shell_quote("foo'bar"), "'foo'\\''bar'");
    assert_eq!(shell_quote(""), "''");
    assert_eq!(escape_single_quotes_exec("a'b'c"), "a'\\''b'\\''c");
}

#[test]
fn shell_quote_reads_back_as_one_word() {
    // A POSIX reading of the quoted word: quoted parts verbatim, `\x` is x.
    fn read(w: &str) -> String {
        let mut out = String::new();
        let mut quoted = false;
        let mut chars = w.chars();
        while let Some(c) = chars.next() {
            if quoted {
                if c == '\'' { quoted = false } else { out.push(c) }
            } else if c == '\'' {
                quoted = true;
            } else if c == '\\' {
                out.push(chars.next().unwrap());
            } else {
                panic!("unquoted {c:?}");
            }
        }
        assert!(!quoted);
        out
    }
    for s in ["plain", "it's", "''", "a b\tc", "$(rm -rf /)", "back\\slash"] {
        assert_eq!(read(&shell_quote(s)), s);
    }
}

#[test]
fn constants() {
    assert_eq!(MODULE_ID, "susfs_manager");
    assert_eq!(MODULE_PATH, "/data/adb/modules/susfs_manager");
    assert_eq!(LOG_DIR, "/data/adb/ksu/log");
    assert_eq!(DEFAULT_UNAME, "default");
    assert_eq!(DEFAULT_BUILD_TIME, "default");
}

#[test]
fn current_time_from_date_output() {
    assert_eq!(get_current_time(Some(&b"2024-01-02 03:04:05\n"[..])), "2024-01-02 03:04:05");
    assert_eq!(get_current_time(Some(&b"\xff"[..])), "unknown");
    assert_eq!(get_current_time(None), "unknown");
}

#[test]
fn prelude_text() {
    assert_eq!(
        log_setup("x.log"),
        "LOG_DIR=\"/data/adb/ksu/log\"\nLOG_FILE=\"$LOG_DIR/x.log\"\n\nmkdir -p \"$LOG_DIR\"\n\nget_current_time() {\n    date '+%Y-%m-%d %H:%M:%S'\n}\n"
    );
    assert!(binary_check().starts_with("# 检查ksud是否存在\nif [ ! -f \"/data/adb/ksud\" ]; then\n"));
    assert!(binary_check().ends_with("    exit 1\nfi\n"));
}

#[test]
fn module_prop_text() {
    let p = module_prop();
    assert!(p.starts_with("id=susfs_manager\nname=SuSFS Manager\nversion=v4.0.0\nversionCode=40000\n"));
    assert!(p.ends_with("updateJson=\n"));
}

#[test]
fn hide_bl_text() {
    assert!(hide_bl_section().starts_with("# 隐藏BL 来自 Shamiko 脚本\nRESETPROP_BIN=\"/data/adb/ksu/bin/resetprop\"\n"));
    assert!(hide_bl_props().starts_with("sleep 30\n"));
    assert!(hide_bl_props().contains("check_reset_prop \"ro.boot.flash.locked\" \"1\"\n"));
    assert!(hide_bl_props().ends_with("[ -n \"$(resetprop ro.kernel.qemu)\" ] && resetprop ro.kernel.qemu \"\"\n"));
}

#[test]
fn cleanup_section_numbers_every_path() {
    let list = residue_paths();
    assert_eq!(list.len(), 33);
    let s = cleanup_residue_section();
    assert!(s.contains("\nTOTAL=33\n\n"));
    assert!(s.contains("cleanup_path '/data/local/stryker/' 'Stryker残留' 1 $TOTAL\n"));
    assert!(s.contains("cleanup_path '/data/local/tmp/mount_namespace' '挂载命名空间残留' 33 $TOTAL\n"));
    assert!(s.contains("cleanup_path '/data/local/tmp/byyang' '' 10 $TOTAL\n"));
    assert!(s.ends_with("\necho \"$(get_current_time): 工具残留清理完成\" >> \"$LOG_FILE\"\n\n"));
}

#[test]
fn service_configuration_condition() {
    let none: Vec<String> = Vec::new();
    let one = strings(&["/a"]);
    assert!(!should_configure_in_service(&none, &none, &none, &none, "", false, "default", "default"));
    assert!(should_configure_in_service(&one, &none, &none, &none, "", false, "default", "default"));
    assert!(should_configure_in_service(&none, &one, &none, &none, "", true, "default", "default"));
    assert!(should_configure_in_service(&none, &none, &none, &none, "/c", true, "default", "default"));
    assert!(should_configure_in_service(&none, &none, &none, &none, "", false, "5.10", "default"));
    assert!(!should_configure_in_service(&none, &none, &none, &none, "", true, "5.10", "default"));
}

#[test]
fn service_script_with_paths_and_uname() {
    let paths = strings(&["/data/a'b"]);
    let none: Vec<String> = Vec::new();
    let s = service(&paths, &none, &none, &none, &none, "", "5.10.1", "default", false, true, false, false);
    assert!(s.starts_with("#!/system/bin/sh\n# SuSFS Service Script\n# 在系统服务启动后执行\n\nLOG_DIR=\"/data/adb/ksu/log\"\nLOG_FILE=\"$LOG_DIR/susfs_service.log\"\n"));
    assert!(s.contains("\n# ksud存在，继续执行\n\n\n# 添加SUS路径\nuntil [ -d \"/sdcard/Android\" ]; do sleep 1; done\nsleep 45\n/data/adb/ksud susfs add-sus-path '/data/a'\\''b'\necho \"$(get_current_time): 添加SUS路径: /data/a'\\''b\" >> \"$LOG_FILE\"\n\n"));
    assert!(s.contains("# 设置uname和构建时间\n/data/adb/ksud susfs set-uname '5.10.1' 'default'\necho \"$(get_current_time): 设置uname为: 5.10.1, 构建时间为: default\" >> \"$LOG_FILE\"\n\n"));
    assert!(s.contains("# 设置日志启用状态\n/data/adb/ksud susfs enable-log 1\n\necho \"$(get_current_time): 日志功能设置为: 启用\" >> \"$LOG_FILE\"\n\n"));
    assert!(!s.contains("隐藏BL"));
    assert!(s.ends_with("echo \"$(get_current_time): Service脚本执行完成\" >> \"$LOG_FILE\"\n"));
}

#[test]
fn service_script_kstat_and_cmdline() {
    let none: Vec<String> = Vec::new();
    let kstat = strings(&["/system/x|1|2|3|4|5|6|7|8|9|10|11|12", "/short|1"]);
    let add = strings(&["/vendor/y"]);
    let s = service(&none, &none, &none, &kstat, &add, "/sdcard/cmd'line", "default", "default", false, false, true, true);
    assert!(s.contains("# 添加Kstat路径\n/data/adb/ksud susfs add-sus-kstat '/vendor/y'\necho \"$(get_current_time): 添加Kstat路径: /vendor/y\" >> \"$LOG_FILE\"\n\n"));
    assert!(s.contains("# 添加Kstat静态配置\n/data/adb/ksud susfs add-sus-kstat-statically '/system/x' '1' '2' '3' '4' '5' '6' '7' '8' '9' '10' '11' '12'\necho \"$(get_current_time): 添加Kstat静态配置: /system/x\" >> \"$LOG_FILE\"\n/data/adb/ksud susfs update-sus-kstat '/system/x'\necho \"$(get_current_time): 更新Kstat配置: /system/x\" >> \"$LOG_FILE\"\n\n"));
    assert!(!s.contains("/short"));
    assert!(s.contains("\n# 替换 cmdline / bootconfig\nif [ -f '/sdcard/cmd'\\''line' ]; then\n  /data/adb/ksud susfs set-cmdline-or-bootconfig '/sdcard/cmd'\\''line'\nelse\n  echo \"$(get_current_time): 指定的cmdline/bootconfig文件不存在: /sdcard/cmd'\\''line\" >> \"$LOG_FILE\"\nfi\n"));
    assert!(s.contains("/data/adb/ksud susfs enable-log 0\n\necho \"$(get_current_time): 日志功能设置为: 禁用\""));
    assert!(s.contains("\n# 隐藏BL\n# 隐藏BL 来自 Shamiko 脚本\n"));
    assert!(s.contains("TOTAL=33"));
}

#[test]
fn post_fs_data_script() {
    let s = post_fs_data("5.4.0", "Mon Jan 1", true, true);
    assert!(s.starts_with("#!/system/bin/sh\n# SuSFS Post-FS-Data Script\n"));
    assert!(s.contains("/data/adb/ksud susfs set-uname '5.4.0' 'Mon Jan 1'\n"));
    assert!(s.contains("# 设置AVC日志欺骗状态\n/data/adb/ksud susfs enable-avc-log-spoofing 1\n\n"));
    assert!(s.ends_with("echo \"$(get_current_time): Post-FS-Data脚本执行完成\" >> \"$LOG_FILE\"\n"));
    let t = post_fs_data("5.4.0", "default", false, false);
    assert!(!t.contains("set-uname"));
    assert!(t.contains("enable-avc-log-spoofing 0\n"));
}

#[test]
fn post_mount_script() {
    let s = post_mount();
    assert!(s.starts_with("#!/system/bin/sh\n# SuSFS Post-Mount Script\n# 在所有分区挂载完成后执行\n\n"));
    assert!(s.contains("echo \"$(get_current_time): Post-Mount脚本开始执行\" >> \"$LOG_FILE\"\n\n# 检查ksud是否存在"));
    assert!(s.ends_with("echo \"$(get_current_time): Post-Mount脚本执行完成\" >> \"$LOG_FILE\"\n"));
}

#[test]
fn boot_completed_script() {
    let paths = strings(&["/a", "/b"]);
    let loops = strings(&["/c"]);
    let maps: Vec<String> = Vec::new();
    let s = boot_completed(false, &paths, &loops, &maps);
    assert!(s.contains("/data/adb/ksud susfs hide-sus-mnts-for-non-su-procs 0\n\necho \"$(get_current_time): SUS挂载隐藏控制设置为: 仅对非KSU进程隐藏\" >> \"$LOG_FILE\"\n\n"));
    assert!(s.contains("# 添加SUS路径\n/data/adb/ksud susfs add-sus-path '/a'\necho \"$(get_current_time): 添加SUS路径: /a\" >> \"$LOG_FILE\"\n/data/adb/ksud susfs add-sus-path '/b'\n"));
    assert!(s.contains("# 添加SUS循环路径\n/data/adb/ksud susfs add-sus-path-loop '/c'\n"));
    assert!(!s.contains("# 添加SUS映射"));
    assert!(boot_completed(true, &maps, &maps, &paths).contains("对所有进程隐藏"));
}

fn sample_config() -> ModuleConfig {
    ModuleConfig {
        uname_value: "default".into(),
        build_time_value: "default".into(),
        execute_in_post_fs_data: false,
        sus_paths: strings(&["/p"]),
        sus_loop_paths: Vec::new(),
        sus_maps: strings(&["/m"]),
        enable_log: false,
        kstat_configs: Vec::new(),
        add_kstat_paths: Vec::new(),
        hide_sus_mounts_for_all_procs: true,
        enable_hide_bl: false,
        enable_cleanup_residue: false,
        enable_avc_log_spoofing: false,
        cmdline_or_bootconfig_path: String::new(),
    }
}

#[test]
fn install_commands_in_order() {
    let cmds = install_with_config(&sample_config());
    assert_eq!(cmds.len(), 6);
    assert_eq!(cmds[0].step, InstallStep::CreateDirectory);
    assert_eq!(cmds[0].command, "mkdir -p /data/adb/modules/susfs_manager");
    assert_eq!(cmds[1].step, InstallStep::WriteModuleProp);
    assert!(cmds[1].command.starts_with("cat > /data/adb/modules/susfs_manager/module.prop << 'KSUEOF'\nid=susfs_manager\n"));
    assert!(cmds[1].command.ends_with("updateJson=\n\nKSUEOF"));
    let names: Vec<&str> = cmds[2..].iter().map(|c| c.target.as_str()).collect();
    assert_eq!(names, ["service.sh", "post-fs-data.sh", "post-mount.sh", "boot-completed.sh"]);
    let scripts = module_scripts(&sample_config());
    assert_eq!(
        cmds[5].command,
        format!(
            "cat > '/data/adb/modules/susfs_manager/boot-completed.sh' << 'KSUEOF'\n{}\nKSUEOF\nchmod 755 '/data/adb/modules/susfs_manager/boot-completed.sh'",
            scripts[3].1
        )
    );
    assert!(scripts[3].1.contains("add-sus-map '/m'"));
}

#[test]
fn install_from_default_config() {
    let cmds = install_module(&reset_to_defaults());
    assert_eq!(cmds.len(), 6);
    assert!(cmds[2].command.contains("/data/adb/ksud susfs enable-log 0"));
    assert!(cmds[5].command.contains("hide-sus-mnts-for-non-su-procs 1"));
    let empty = install_module(&ConfigMap::new());
    assert!(empty[5].command.contains("hide-sus-mnts-for-non-su-procs 0"));
}

#[test]
fn install_failure_messages() {
    let cmds = install_with_config(&sample_config());
    assert_eq!(install_failure_message(&cmds[0], "x"), "Failed to create module directory");
    assert_eq!(install_failure_message(&cmds[1], "x"), "Failed to write module.prop");
    assert_eq!(install_failure_message(&cmds[2], "disk full"), "Failed to write service.sh: disk full");
}

#[test]
fn remove_and_detect_commands() {
    assert_eq!(remove_module(), "rm -rf /data/adb/modules/susfs_manager");
    assert_eq!(
        module_installed_check(),
        "test -f /data/adb/modules/susfs_manager/module.prop && echo yes || echo no"
    );
    assert!(is_module_installed(Some(&b"yes\n"[..])));
    assert!(!is_module_installed(Some(&b"no\n"[..])));
    assert!(!is_module_installed(Some(&b"ye"[..])));
    assert!(!is_module_installed(None));
}

#[test]
fn uname_set_in_one_stage() {
    let none: Vec<String> = vec![];
    let line = "/data/adb/ksud susfs set-uname '5.10.1' 'Mon Jan 1'";
    for early in [false, true] {
        let pf = post_fs_data("5.10.1", "Mon Jan 1", early, false);
        let sv = service(&none, &none, &none, &none, &none, "", "5.10.1", "Mon Jan 1", early, false, false, false);
        assert_eq!(pf.contains(line), early);
        assert_eq!(sv.contains(line), !early);
    }
    let pf_d = post_fs_data("default", "default", true, false);
    let sv_d = service(&none, &none, &none, &none, &none, "", "default", "default", false, false, false, false);
    assert!(!pf_d.contains("set-uname") && !sv_d.contains("set-uname"));
    assert_eq!(pf_d, post_fs_data("default", "default", false, false));
}
