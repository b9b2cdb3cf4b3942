use ksud::boot_patch::args::{
    check_patch_args, patch_kmi_from_args, patch_ramdisk_options, patch_writes_output, restore_writes_output,
    rmvr_writes_output, BootPatchArgs, BootRestoreArgs, VendorBootRmvrArgs,
};
use ksud::boot_patch::backup::{
    backup_file_name, calculate_sha1, fallback_backup_dir, is_stale_backup, post_ota_script, post_ota_slot,
    set_active_slot_arg, should_backup, stock_backup_sha, vendor_boot_backup_name,
};
use ksud::boot_patch::image::{
    check_boot_image_source, rmvr_image_source,
    auto_boot_partition_path, build_patched_output_name, build_patched_output_name_at, build_restore_output_name,
    build_restore_output_name_at, build_rmvr_output_name, build_rmvr_output_name_at, by_name_path,
    check_patch_image, check_patch_inputs, check_rmvr_image, check_rmvr_partition, choose_boot_partition,
    classify_image, detect_boot_image_kind_by_name, enforce_bootimage_version, ensure_gki_kernel, get_slot_suffix,
    is_vendor_boot_version, list_available_partitions, resolve_boot_image_kind_for_output, select_vendor_ramdisk,
    should_write_output, BootImageError, BootImageVersion, BOOT_PARTITION_BOOT, BOOT_PARTITION_INIT_BOOT,
    BOOT_PARTITION_VENDOR_BOOT,
};
use ksud::boot_patch::ksu_config::{apply_config, apply_spoof_config, ksu_config_data, read_ksu_config};
use ksud::boot_patch::modules::{
    is_supported_module_index, is_target_module_path, is_target_module_reference, normalize_module_stem,
    normalized_cpio_path, rewrite_module_index, rewrite_module_index_line, strip_module_compression_suffix,
    ModuleIndexError, VendorModuleCleanupReport, DEFAULT_VENDOR_RMVR_MODULES,
};
use ksud::boot_patch::ramdisk::{
    plan_patch_ramdisk, plan_remove_ksu, remove_vendor_modules, CpioData, CpioOp, RamdiskError, RamdiskFile,
    RamdiskPatchOptions, RamdiskState,
};

fn s(v: &[&str]) -> Vec<String> {
    v.iter().map(|x| x.to_string()).collect()
}

fn targets() -> Vec<String> {
    s(&DEFAULT_VENDOR_RMVR_MODULES)
}

#[test]
fn partition_constants() {
    assert_eq!((BOOT_PARTITION_BOOT, BOOT_PARTITION_INIT_BOOT, BOOT_PARTITION_VENDOR_BOOT), ("boot", "init_boot", "vendor_boot"));
}

#[test]
fn image_versions() {
    assert!(is_vendor_boot_version(BootImageVersion::Vendor(4)));
    assert!(!is_vendor_boot_version(BootImageVersion::Android(4)));
    assert_eq!(enforce_bootimage_version(BootImageVersion::Android(2)), Err(BootImageError::UnsupportedVersion(2)));
    assert_eq!(enforce_bootimage_version(BootImageVersion::Android(3)), Ok(()));
    assert_eq!(enforce_bootimage_version(BootImageVersion::Vendor(0)), Ok(()));
    assert_eq!(classify_image(BootImageVersion::Android(4), true).unwrap(), "boot");
    assert_eq!(classify_image(BootImageVersion::Android(4), false).unwrap(), "init_boot");
    assert_eq!(classify_image(BootImageVersion::Vendor(4), false).unwrap(), "vendor_boot");
    assert_eq!(classify_image(BootImageVersion::Android(1), true), Err(BootImageError::UnsupportedVersion(1)));
    assert_eq!(check_patch_image(BootImageVersion::Vendor(4)), Err(BootImageError::VendorBootNotAllowed));
    assert_eq!(check_patch_image(BootImageVersion::Android(2)), Err(BootImageError::UnsupportedVersion(2)));
    assert_eq!(check_rmvr_image(BootImageVersion::Android(4)), Err(BootImageError::NotVendorBoot));
    assert_eq!(check_rmvr_image(BootImageVersion::Vendor(3)), Ok(()));
    assert_eq!(check_rmvr_partition(Some("boot")), Err(BootImageError::RmvrNotVendorPartition));
    assert_eq!(check_rmvr_partition(Some("vendor_boot")), Ok(()));
    assert_eq!(check_rmvr_partition(None), Ok(()));
}

#[test]
fn kinds_from_names() {
    assert_eq!(detect_boot_image_kind_by_name("Boot.IMG").as_deref(), Some("boot"));
    assert_eq!(detect_boot_image_kind_by_name("my_init_boot.img").as_deref(), Some("init_boot"));
    assert_eq!(detect_boot_image_kind_by_name("vendor_boot.img").as_deref(), Some("vendor_boot"));
    assert_eq!(detect_boot_image_kind_by_name("foo.bin"), None);
    assert_eq!(resolve_boot_image_kind_for_output(Some("x.bin"), Some("vendor_boot"), None).as_deref(), Some("vendor_boot"));
    assert_eq!(resolve_boot_image_kind_for_output(Some("a_boot.img"), Some("init_boot"), None).as_deref(), Some("boot"));
    assert_eq!(resolve_boot_image_kind_for_output(Some("x.bin"), Some("system"), Some("init_boot")).as_deref(), Some("init_boot"));
    assert_eq!(resolve_boot_image_kind_for_output(None, None, Some("weird")), None);
}

#[test]
fn output_names() {
    assert_eq!(build_patched_output_name_at(Some("boot"), "20240101_000000"), "kernelsu_patched_boot_20240101_000000.img");
    assert_eq!(build_patched_output_name_at(None, "T"), "kernelsu_patched_T.img");
    assert_eq!(build_restore_output_name_at(Some("init_boot"), "T"), "kernelsu_restore_init_boot_T.img");
    assert_eq!(build_restore_output_name_at(None, "T"), "kernelsu_restore_T.img");
    assert_eq!(build_rmvr_output_name_at("T"), "kernelsu_rmvr_T.img");
    let p = build_patched_output_name(Some("boot"));
    assert!(p.starts_with("kernelsu_patched_boot_") && p.ends_with(".img"));
    assert_eq!(p.len(), "kernelsu_patched_boot_".len() + 15 + 4);
    assert_eq!(p.as_bytes()[22 + 8], b'_');
    assert!(build_restore_output_name(None).starts_with("kernelsu_restore_"));
    assert!(build_rmvr_output_name().starts_with("kernelsu_rmvr_2"));
}

#[test]
fn partition_choice() {
    assert_eq!(choose_boot_partition("android13-5.15", false, None, true), "init_boot");
    assert_eq!(choose_boot_partition("android12-5.10", false, None, true), "boot");
    assert_eq!(choose_boot_partition("android13-5.15", true, None, true), "boot");
    assert_eq!(choose_boot_partition("android13-5.15", false, None, false), "boot");
    assert_eq!(choose_boot_partition("", false, Some("vendor_boot"), false), "vendor_boot");
    assert_eq!(choose_boot_partition("", false, Some("system"), true), "boot");
}

#[test]
fn slots_and_devices() {
    assert_eq!(get_slot_suffix("_a", true), "_b");
    assert_eq!(get_slot_suffix("_b", true), "_a");
    assert_eq!(get_slot_suffix("", true), "");
    assert_eq!(get_slot_suffix("_a", false), "_a");
    assert_eq!(list_available_partitions(true, false, true), s(&["boot", "vendor_boot"]));
    assert_eq!(by_name_path("boot", "_a"), "/dev/block/by-name/boot_a");
    assert_eq!(auto_boot_partition_path("android14-6.1", true, false, None, "_a", true), "/dev/block/by-name/init_boot_b");
}

#[test]
fn gki_check() {
    assert_eq!(ensure_gki_kernel((5, 10, 0)), Ok(()));
    assert_eq!(ensure_gki_kernel((5, 4, 200)), Ok(()));
    assert_eq!(ensure_gki_kernel((4, 14, 5)), Err(BootImageError::NotGki));
    assert_eq!(ensure_gki_kernel((6, 1, 0)), Err(BootImageError::NotGki));
}

#[test]
fn patch_input_rules() {
    assert_eq!(check_patch_inputs(true, true, false), Err(BootImageError::KernelWithInitOrModule));
    assert_eq!(check_patch_inputs(true, false, false), Ok(()));
    assert!(should_write_output(false, true, false, true));
    assert!(!should_write_output(false, true, false, false));
}

#[test]
fn vendor_ramdisk_choice() {
    assert_eq!(select_vendor_ramdisk(&[b"".to_vec(), b"init_boot".to_vec()]), Some(1));
    assert_eq!(select_vendor_ramdisk(&[b"x".to_vec(), b"".to_vec(), b"".to_vec()]), Some(1));
    assert_eq!(select_vendor_ramdisk(&[b"x".to_vec()]), None);
}

fn patch_args() -> BootPatchArgs {
    BootPatchArgs {
        boot: None,
        kernel: None,
        module: None,
        init: None,
        ota: false,
        flash: true,
        backup: false,
        out: None,
        kmi: None,
        partition: None,
        out_name: None,
        cmdline: None,
        allow_shell: true,
        spoof_release: Some("5.10".into()),
        spoof_version: None,
        enable_adbd: false,
        adb_debug_prop: None,
        no_install: false,
        no_custom_rc: false,
    }
}

#[test]
fn patch_arguments() {
    let mut a = patch_args();
    assert!(!patch_writes_output(&a));
    assert_eq!(patch_kmi_from_args(&a), None);
    a.module = Some("/k.ko".into());
    assert_eq!(patch_kmi_from_args(&a).as_deref(), Some(""));
    a.kmi = Some("android13-5.15".into());
    assert_eq!(patch_kmi_from_args(&a).as_deref(), Some("android13-5.15"));
    a.kernel = Some("/Image".into());
    assert_eq!(check_patch_args(&a), Err(BootImageError::KernelWithInitOrModule));
    let o = patch_ramdisk_options(&patch_args(), true);
    assert!(o.allow_shell && o.has_vivo_module && !o.no_install);
    assert_eq!(o.spoof_release.as_deref(), Some("5.10"));
    let r = BootRestoreArgs { boot: Some("x".into()), flash: true, out: None, out_name: None };
    assert!(restore_writes_output(&r));
    let v = VendorBootRmvrArgs { boot: None, ota: false, flash: true, out: None, out_name: Some("n".into()), partition: None };
    assert!(rmvr_writes_output(&v));
}

#[test]
fn backups() {
    assert_eq!(calculate_sha1(b"abc"), "a9993e364706816aba3e25717850c26c9cd0d89d");
    assert_eq!(calculate_sha1(b""), "da39a3ee5e6b4b0d3255bfef95601890afd80709");
    assert_eq!(backup_file_name("ksu_backup_", "ab"), "ksu_backup_ab");
    assert_eq!(fallback_backup_dir(10123456, "me.pkg", "boot_backup"), "/data/user_de/101/me.pkg/boot_backup");
    assert_eq!(fallback_backup_dir(0, "p", "d"), "/data/user_de/0/p/d");
    assert!(is_stale_backup("ksu_backup_abc", "ksu_backup_def", "ksu_backup_"));
    assert!(!is_stale_backup("ksu_backup_def", "ksu_backup_def", "ksu_backup_"));
    assert!(!is_stale_backup("other", "ksu_backup_def", "ksu_backup_"));
    assert_eq!(stock_backup_sha(b" abc\n").as_deref(), Some("abc"));
    assert_eq!(stock_backup_sha(b"\xff"), None);
    assert_eq!(vendor_boot_backup_name("ff"), "sukisu_vendor_boot_backup_ff.img");
    assert!(should_backup(true, true, false));
    assert!(should_backup(false, false, true));
    assert!(!should_backup(false, true, true));
}

#[test]
fn post_ota_helpers() {
    assert_eq!(post_ota_slot(b"0\n"), Some(1));
    assert_eq!(post_ota_slot(b" 1 "), Some(0));
    assert_eq!(post_ota_slot(b"\xff"), None);
    assert_eq!(set_active_slot_arg(1), "set-active-boot-slot 1");
    assert_eq!(
        post_ota_script("/data/adb/ksu/bin/bootctl"),
        "\n/data/adb/ksu/bin/bootctl mark-boot-successful\nrm -f /data/adb/ksu/bin/bootctl\nrm -f /data/adb/post-fs-data.d/post_ota.sh\n"
    );
}

#[test]
fn ksu_config_settings() {
    assert_eq!(read_ksu_config(Some(&b" norc=1  allow_shell=1 "[..])), s(&["norc=1", "allow_shell=1"]));
    assert_eq!(read_ksu_config(Some(&b"\xff"[..])), Vec::<String>::new());
    assert_eq!(read_ksu_config(None), Vec::<String>::new());
    let mut c = s(&["a"]);
    apply_config(&mut c, "b", true);
    apply_config(&mut c, "b", true);
    assert_eq!(c, s(&["a", "b"]));
    apply_config(&mut c, "a", false);
    assert_eq!(c, s(&["b"]));
    let mut d = s(&["spoof_release=\"x\"", "norc=1"]);
    apply_spoof_config(&mut d, "spoof_release", Some("  5.10 \"q\" \\ "));
    assert_eq!(d, s(&["norc=1", "spoof_release=\"5.10 \\\"q\\\" \\\\\""]));
    apply_spoof_config(&mut d, "spoof_release", Some("   "));
    assert_eq!(d, s(&["norc=1"]));
    apply_spoof_config(&mut d, "spoof_version", None);
    assert_eq!(d, s(&["norc=1"]));
    apply_spoof_config(&mut d, "norc", None);
    assert_eq!(d, Vec::<String>::new());
    assert_eq!(ksu_config_data(&Vec::new()), None);
    assert_eq!(ksu_config_data(&s(&["a", "b"])), Some(b"a b".to_vec()));
}

#[test]
fn module_names() {
    assert_eq!(strip_module_compression_suffix(&"a.ko.gz".chars().collect()), "a.ko".chars().collect::<Vec<_>>());
    assert_eq!(strip_module_compression_suffix(&"a.ko".chars().collect()), "a.ko".chars().collect::<Vec<_>>());
    assert_eq!(normalize_module_stem(" /lib/modules/Foo-Bar.ko.gz: ", false).as_deref(), Some("foo_bar"));
    assert_eq!(normalize_module_stem("vr", true), None);
    assert_eq!(normalize_module_stem("vr", false).as_deref(), Some("vr"));
    assert_eq!(normalize_module_stem(".ko", false), None);
    assert!(is_target_module_reference("kernel/VR.ko.xz", &targets()));
    assert!(!is_target_module_reference("vrx.ko", &targets()));
    assert_eq!(normalized_cpio_path("/./lib/modules/x"), "lib/modules/x");
    assert_eq!(normalized_cpio_path("//././a"), "a");
    assert!(is_target_module_path("lib/modules/vr.ko", &targets()));
    assert!(!is_target_module_path("lib/modules/vr", &targets()));
    assert!(!is_target_module_path("vendor/vr.ko", &targets()));
    assert!(is_supported_module_index("lib/modules/modules.load.recovery"));
    assert!(is_supported_module_index("lib/modules/5.10/modules.dep"));
    assert!(!is_supported_module_index("modules.dep"));
    assert!(!is_supported_module_index("lib/modules/modules.builtin"));
}

#[test]
fn index_line_rewrites() {
    let t = targets();
    assert_eq!(rewrite_module_index_line("modules.dep", "kernel/a.ko: kernel/vr.ko kernel/b.ko", &t).as_deref(), Some("kernel/a.ko: kernel/b.ko"));
    assert_eq!(rewrite_module_index_line("modules.dep", "kernel/vr.ko: x.ko", &t), None);
    assert_eq!(rewrite_module_index_line("modules.dep", "a.ko: vr.ko # note", &t).as_deref(), Some("a.ko: # note"));
    assert_eq!(rewrite_module_index_line("modules.dep", "no colon here", &t).as_deref(), Some("no colon here"));
    assert_eq!(rewrite_module_index_line("modules.softdep", "softdep a pre: vr post: b", &t).as_deref(), Some("softdep a pre: post: b"));
    assert_eq!(rewrite_module_index_line("modules.softdep", "softdep vr pre: x", &t), None);
    assert_eq!(rewrite_module_index_line("modules.alias", "alias pci:v* vr", &t), None);
    assert_eq!(rewrite_module_index_line("modules.alias", "alias x y", &t).as_deref(), Some("alias x y"));
    assert_eq!(rewrite_module_index_line("modules.load", "vr.ko", &t), None);
    assert_eq!(rewrite_module_index_line("modules.load.recovery", "b.ko", &t).as_deref(), Some("b.ko"));
    assert_eq!(rewrite_module_index_line("modules.options", "options vklp x=1", &t), None);
    assert_eq!(rewrite_module_index_line("modules.blocklist", "blocklist b", &t).as_deref(), Some("blocklist b"));
    assert_eq!(rewrite_module_index_line("modules.order", "# vr.ko", &t).as_deref(), Some("# vr.ko"));
    assert_eq!(rewrite_module_index_line("modules.dep", "   ", &t).as_deref(), Some("   "));
    assert_eq!(rewrite_module_index_line("other", "vr.ko", &t).as_deref(), Some("vr.ko"));
}

#[test]
fn index_rewrites() {
    let t = targets();
    assert_eq!(rewrite_module_index("lib/modules/modules.load", b"a.ko\nvr.ko\nb.ko\n", &t), Ok(Some(b"a.ko\nb.ko\n".to_vec())));
    assert_eq!(rewrite_module_index("lib/modules/modules.load", b"a.ko\r\nvr.ko", &t), Ok(Some(b"a.ko".to_vec())));
    assert_eq!(rewrite_module_index("lib/modules/modules.load", b"a.ko\nb.ko\n", &t), Ok(None));
    assert_eq!(rewrite_module_index("lib/modules/modules.load", b"\xff", &t), Err(ModuleIndexError::NotUtf8));
}

fn state() -> RamdiskState {
    RamdiskState {
        has_kernelsu_ko: false,
        has_init: true,
        has_init_real: false,
        magisk_patched: false,
        ksu_config: None,
        has_force_debuggable: true,
        has_adb_debug_prop: false,
    }
}

fn options() -> RamdiskPatchOptions {
    RamdiskPatchOptions {
        no_install: false,
        has_vivo_module: false,
        no_custom_rc: true,
        allow_shell: false,
        spoof_release: None,
        spoof_version: None,
        enable_adbd: false,
        adb_debug_prop: None,
    }
}

fn describe(ops: &[CpioOp]) -> Vec<String> {
    ops.iter()
        .map(|op| match op {
            CpioOp::Move(a, b) => format!("mv {a} {b}"),
            CpioOp::Add(p, m, d) => format!(
                "add {p} {m:o} {}",
                match d {
                    CpioData::KsuInit => "<init>".to_string(),
                    CpioData::KernelsuKo => "<ko>".to_string(),
                    CpioData::KernelsuVivoKo => "<vivo>".to_string(),
                    CpioData::Bytes(b) => String::from_utf8_lossy(b).to_string(),
                }
            ),
            CpioOp::Remove(p) => format!("rm {p}"),
        })
        .collect()
}

#[test]
fn patch_plan_fresh_image() {
    let ops = plan_patch_ramdisk(&state(), &options()).unwrap();
    assert_eq!(
        describe(&ops),
        s(&[
            "mv init init.real",
            "add init 755 <init>",
            "add kernelsu.ko 755 <ko>",
            "rm kernelsu_vivo.ko",
            "add ksu_config 644 norc=1",
            "rm allow_shell",
            "rm ksu_spoof_release",
            "rm ksu_spoof_version",
            "rm force_debuggable",
        ])
    );
}

#[test]
fn patch_plan_settings_only() {
    let mut st = state();
    st.has_kernelsu_ko = true;
    st.ksu_config = Some(b"norc=1 spoof_release=\"4\"".to_vec());
    let mut o = options();
    o.no_install = true;
    o.no_custom_rc = false;
    o.enable_adbd = true;
    o.adb_debug_prop = Some("x=1\n".into());
    let ops = plan_patch_ramdisk(&st, &o).unwrap();
    assert_eq!(
        describe(&ops),
        s(&[
            "rm ksu_config",
            "rm allow_shell",
            "rm ksu_spoof_release",
            "rm ksu_spoof_version",
            "add force_debuggable 644 ",
            "add adb_debug.prop 644 ro.debuggable=1\nro.force.debuggable=1\nro.adb.secure=0\nx=1\n",
        ])
    );
}

#[test]
fn patch_plan_refuses_magisk() {
    let mut st = state();
    st.magisk_patched = true;
    assert_eq!(plan_patch_ramdisk(&st, &options()).err(), Some(RamdiskError::MagiskPatched));
    let mut o = options();
    o.no_install = true;
    assert!(plan_patch_ramdisk(&st, &o).is_ok());
}

#[test]
fn restore_plan() {
    assert_eq!(plan_remove_ksu(&state()).err(), Some(RamdiskError::NotPatchedByKernelSu));
    let mut st = state();
    st.has_kernelsu_ko = true;
    st.has_init_real = true;
    assert_eq!(describe(&plan_remove_ksu(&st).unwrap()), s(&["rm kernelsu.ko", "rm kernelsu_vivo.ko", "mv init.real init"]));
}

fn file(path: &str, data: &[u8]) -> RamdiskFile {
    RamdiskFile { path: path.to_string(), data: Some(data.to_vec()) }
}

#[test]
fn vendor_module_removal() {
    let files = [
        file("lib/modules/a.ko", b""),
        file("lib/modules/modules.load", b"a.ko\nvr.ko\n"),
        file("lib/modules/vr.ko", b"ELF"),
    ];
    let (ops, report) = remove_vendor_modules(&files).unwrap();
    assert_eq!(describe(&ops), s(&["rm lib/modules/vr.ko", "rm lib/modules/modules.load", "add lib/modules/modules.load 644 a.ko\n"]));
    assert_eq!(report, VendorModuleCleanupReport { removed_modules: 1, updated_indexes: 1 });
    assert!(report.changed());
    let (none, r0) = remove_vendor_modules(&[file("lib/modules/a.ko", b"")]).unwrap();
    assert!(none.is_empty() && !r0.changed());
    assert_eq!(
        remove_vendor_modules(&[file("/lib/modules/vr.ko", b"")]).err(),
        Some(RamdiskError::NonCanonicalPath("/lib/modules/vr.ko".into()))
    );
    assert_eq!(
        remove_vendor_modules(&[file("lib/modules/modules.dep", b"\xff")]).err(),
        Some(RamdiskError::IndexNotUtf8("lib/modules/modules.dep".into()))
    );
}

#[test]
fn report_merge() {
    let mut a = VendorModuleCleanupReport { removed_modules: 1, updated_indexes: 0 };
    a.merge(VendorModuleCleanupReport { removed_modules: 2, updated_indexes: 3 });
    assert_eq!(a, VendorModuleCleanupReport { removed_modules: 3, updated_indexes: 3 });
    assert!(!VendorModuleCleanupReport::default().changed());
}

type Archive = std::collections::BTreeMap<String, (u32, Vec<u8>)>;

fn apply(archive: &mut Archive, ops: Vec<CpioOp>) {
    for op in ops {
        match op {
            CpioOp::Move(a, b) => {
                if let Some(e) = archive.remove(&a) {
                    archive.insert(b, e);
                }
            },
            CpioOp::Add(p, m, d) => {
                let bytes = match d {
                    CpioData::KsuInit => b"<ksuinit>".to_vec(),
                    CpioData::KernelsuKo => b"<ko>".to_vec(),
                    CpioData::KernelsuVivoKo => b"<vivo>".to_vec(),
                    CpioData::Bytes(b) => b,
                };
                archive.insert(p, (m, bytes));
            },
            CpioOp::Remove(p) => {
                archive.remove(&p);
            },
        }
    }
}

fn state_of(archive: &Archive) -> RamdiskState {
    RamdiskState {
        has_kernelsu_ko: archive.contains_key("kernelsu.ko"),
        has_init: archive.contains_key("init"),
        has_init_real: archive.contains_key("init.real"),
        magisk_patched: false,
        ksu_config: archive.get("ksu_config").map(|e| e.1.clone()),
        has_force_debuggable: archive.contains_key("force_debuggable"),
        has_adb_debug_prop: archive.contains_key("adb_debug.prop"),
    }
}

#[test]
fn restore_undoes_patch_on_an_archive() {
    let mut archive = Archive::new();
    archive.insert("init".into(), (0o750, b"stock init".to_vec()));
    archive.insert("system/etc/fstab".into(), (0o644, b"fstab".to_vec()));
    archive.insert("force_debuggable".into(), (0o644, Vec::new()));
    let before = archive.clone();
    let mut o = options();
    o.has_vivo_module = true;
    o.enable_adbd = true;
    let patch_ops = plan_patch_ramdisk(&state_of(&archive), &o).unwrap();
    apply(&mut archive, patch_ops);
    assert_eq!(archive.get("init.real").map(|e| e.1.as_slice()), Some(&b"stock init"[..]));
    assert!(archive.contains_key("kernelsu.ko") && archive.contains_key("kernelsu_vivo.ko"));
    let restore_ops = plan_remove_ksu(&state_of(&archive)).unwrap();
    apply(&mut archive, restore_ops);
    let settings = ["ksu_config", "allow_shell", "ksu_spoof_release", "ksu_spoof_version", "force_debuggable", "adb_debug.prop"];
    let strip = |a: &Archive| -> Archive { a.iter().filter(|(k, _)| !settings.contains(&k.as_str())).map(|(k, v)| (k.clone(), v.clone())).collect() };
    assert_eq!(strip(&archive), strip(&before));
}

#[test]
fn ksu_config_written_reads_back() {
    for config in [s(&[]), s(&["norc=1"]), s(&["allow_shell=1", "spoof_release=\"5.10\""])] {
        let entry = ksu_config_data(&config);
        assert_eq!(read_ksu_config(entry.as_deref()), config);
    }
}

#[test]
fn settings_laws_on_values() {
    let mut c = s(&["x=1", "y=2"]);
    apply_config(&mut c, "y=2", false);
    let once = c.clone();
    apply_config(&mut c, "y=2", false);
    assert_eq!(c, once);
    let mut d = s(&["spoof_version=\"a\"", "k=1", "spoof_version=\"b\""]);
    apply_spoof_config(&mut d, "spoof_version", Some("c"));
    let once = d.clone();
    apply_spoof_config(&mut d, "spoof_version", Some("c"));
    assert_eq!(d, once);
    assert_eq!(d.iter().filter(|x| x.starts_with("spoof_version=")).count(), 1);
}

#[test]
fn rmvr_leaves_no_target_module() {
    let files = [
        file("lib/modules/vr.ko", b"x"),
        file("lib/modules/5.10/VKLP.ko.xz", b"y"),
        file("lib/modules/modules.dep", b"vr.ko:\nfoo.ko: vklp.ko\n"),
        file("lib/modules/foo.ko", b"z"),
    ];
    let mut archive: Archive = files.iter().map(|f| (f.path.clone(), (0o644, f.data.clone().unwrap()))).collect();
    let (ops, report) = remove_vendor_modules(&files).unwrap();
    apply(&mut archive, ops);
    assert_eq!(report, VendorModuleCleanupReport { removed_modules: 2, updated_indexes: 1 });
    assert!(archive.keys().all(|k| !is_target_module_path(k, &targets())));
    assert_eq!(archive.get("lib/modules/modules.dep").map(|e| e.1.as_slice()), Some(&b"foo.ko:\n"[..]));
    assert!(archive.contains_key("lib/modules/foo.ko"));
}

#[test]
fn restore_removes_ksu_from_any_patched_archive() {
    let mut archive = Archive::new();
    archive.insert("init".into(), (0o750, b"stock init".to_vec()));
    archive.insert("init.real".into(), (0o750, b"stale".to_vec()));
    archive.insert("kernelsu_vivo.ko".into(), (0o644, b"old vivo".to_vec()));
    archive.insert("lib/x".into(), (0o644, b"x".to_vec()));
    let o = options();
    let ops = plan_patch_ramdisk(&state_of(&archive), &o).unwrap();
    apply(&mut archive, ops);
    let ops = plan_remove_ksu(&state_of(&archive)).unwrap();
    apply(&mut archive, ops);
    assert_eq!(archive.get("init").map(|e| e.1.as_slice()), Some(&b"stock init"[..]));
    assert!(!archive.contains_key("init.real"));
    assert!(!archive.contains_key("kernelsu.ko") && !archive.contains_key("kernelsu_vivo.ko"));
    assert_eq!(archive.get("lib/x").map(|e| e.1.as_slice()), Some(&b"x"[..]));

    let mut again = Archive::new();
    again.insert("init".into(), (0o755, b"<ksuinit>".to_vec()));
    again.insert("init.real".into(), (0o750, b"stock init".to_vec()));
    again.insert("kernelsu.ko".into(), (0o755, b"<ko>".to_vec()));
    let ops = plan_patch_ramdisk(&state_of(&again), &o).unwrap();
    apply(&mut again, ops);
    let ops = plan_remove_ksu(&state_of(&again)).unwrap();
    apply(&mut again, ops);
    assert_eq!(again.get("init").map(|e| e.1.as_slice()), Some(&b"stock init"[..]));
    assert!(!again.contains_key("init.real") && !again.contains_key("kernelsu.ko"));
}

#[test]
fn rewriting_an_index_twice_changes_nothing() {
    let dep = b"vr.ko:\nfoo.ko:  vklp.ko   bar.ko # note\r\nbaz.ko :x.ko\n";
    let once = rewrite_module_index("lib/modules/modules.dep", dep, &targets()).unwrap().unwrap();
    assert_eq!(once, b"foo.ko: bar.ko # note\nbaz.ko: x.ko\n".to_vec());
    assert_eq!(rewrite_module_index("lib/modules/modules.dep", &once, &targets()), Ok(None));
    let soft = b"softdep vr pre: a post: vklp\nsoftdep x pre: vr\n";
    let once = rewrite_module_index("lib/modules/modules.softdep", soft, &targets()).unwrap().unwrap();
    assert_eq!(once, b"softdep x pre:\n".to_vec());
    assert_eq!(rewrite_module_index("lib/modules/modules.softdep", &once, &targets()), Ok(None));
}

#[test]
fn rmvr_twice_changes_nothing() {
    let files = [
        file("lib/modules/vr.ko", b"x"),
        file("lib/modules/modules.load", b"vr.ko\nfoo.ko\n"),
        file("lib/modules/modules.dep", b"foo.ko:  vklp.ko bar.ko\n"),
        file("lib/modules/foo.ko", b"z"),
    ];
    let mut archive: Archive = files.iter().map(|f| (f.path.clone(), (0o644, f.data.clone().unwrap()))).collect();
    let (ops, report) = remove_vendor_modules(&files).unwrap();
    assert!(report.changed());
    apply(&mut archive, ops);
    let again: Vec<RamdiskFile> = archive.iter().map(|(k, v)| file(k, &v.1)).collect();
    let (ops2, report2) = remove_vendor_modules(&again).unwrap();
    assert!(ops2.is_empty());
    assert!(!report2.changed());
}

#[test]
fn image_sources() {
    assert_eq!(check_boot_image_source(true, false), Ok(()));
    assert_eq!(check_boot_image_source(false, true), Ok(()));
    assert_eq!(check_boot_image_source(false, false), Err(BootImageError::NoBootImage));
    assert_eq!(rmvr_image_source(true, false, Some("boot"), "_a"), Ok(None));
    assert_eq!(rmvr_image_source(false, false, None, "_a"), Err(BootImageError::NoVendorBootImage));
    assert_eq!(rmvr_image_source(false, true, Some("boot"), "_a"), Err(BootImageError::RmvrNotVendorPartition));
    assert_eq!(rmvr_image_source(false, true, None, "_b"), Ok(Some("/dev/block/by-name/vendor_boot_b".to_string())));
    assert_eq!(
        rmvr_image_source(false, true, Some("vendor_boot"), ""),
        Ok(Some("/dev/block/by-name/vendor_boot".to_string()))
    );
}

#[test]
fn unstable_softdep_line_is_the_exception() {
    let t = vec!["a".to_string(), "pre".to_string()];
    assert_eq!(rewrite_module_index_line("modules.softdep", "a b pre: c", &t).as_deref(), Some("b pre: c"));
    assert_eq!(rewrite_module_index_line("modules.softdep", "b pre: c", &t), None);
}

#[test]
fn timestamp_fields_in_range() {
    let p = build_rmvr_output_name();
    let ts = &p["kernelsu_rmvr_".len()..p.len() - 4];
    let n = ts.len();
    let two = |i: usize| ts[i..i + 2].parse::<u32>().unwrap();
    assert!((1..=12).contains(&two(n - 11)) && (1..=31).contains(&two(n - 9)));
    assert!(two(n - 6) <= 23 && two(n - 4) <= 59 && two(n - 2) <= 60);
}
