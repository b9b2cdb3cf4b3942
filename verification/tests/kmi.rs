use ksud::boot_patch::kmi::{
    get_current_kmi, get_kernel_version, kernel_version_from_captures, kernelsu_module_names,
    kmi_from_buffer_captures, kmi_from_modinfo, kmi_from_version_captures, parse_i32, parse_kmi,
    parse_kmi_from_version, KmiError,
};

#[test]
fn kmi_from_release_string() {
    assert_eq!(parse_kmi_from_version("5.10.101-android12-9-g1234abcd").unwrap(), "android12-5.10");
    assert_eq!(
        parse_kmi_from_version("6.1.25-android14-11-gabcdef").unwrap(),
        "android14-6.1"
    );
}

#[test]
fn kmi_from_vermagic_line() {
    let line = "vermagic:       5.15.94-android13-4-00001-g0 SMP preempt mod_unload modversions aarch64";
    assert_eq!(parse_kmi_from_version(line).unwrap(), "android13-5.15");
}

#[test]
fn kmi_absent_from_non_gki_release() {
    assert_eq!(parse_kmi_from_version("4.14.190-perf+"), Err(KmiError::NoKmi));
}

#[test]
fn current_kmi_is_read_from_release() {
    assert_eq!(get_current_kmi("5.10.168-android12-9-00001").unwrap(), "android12-5.10");
}

#[test]
fn kmi_from_version_captures_uses_groups_four_and_two() {
    let caps = Some(vec![
        Some("whole".to_string()),
        None,
        Some("5.4".to_string()),
        None,
        Some("android11".to_string()),
        Some(String::new()),
    ]);
    assert_eq!(kmi_from_version_captures(caps).unwrap(), "android11-5.4");
    assert_eq!(kmi_from_version_captures(None), Err(KmiError::NoKmi));
    let partial = Some(vec![Some("x".to_string()), None, None, None, None]);
    assert_eq!(kmi_from_version_captures(partial).unwrap(), "-");
}

#[test]
fn kmi_from_buffer_captures_needs_both_groups() {
    let caps = Some(vec![
        Some("5.10.1-android12".to_string()),
        Some("5.10".to_string()),
        Some("android12".to_string()),
    ]);
    assert_eq!(kmi_from_buffer_captures(caps).as_deref(), Some("android12-5.10"));
    let missing = Some(vec![Some("x".to_string()), Some("5.10".to_string()), None]);
    assert_eq!(kmi_from_buffer_captures(missing), None);
    assert_eq!(kmi_from_buffer_captures(None), None);
}

#[test]
fn kmi_from_kernel_image_bytes() {
    let mut image = vec![0u8, 1, 2, 3, 0x35, 0x2e];
    image.extend_from_slice(b"\0Linux version 5.10.43-android12-9-00001-g123 (build@host) #1 SMP\0trailing");
    assert_eq!(parse_kmi(&image).unwrap(), "android12-5.10");
}

#[test]
fn kmi_from_kernel_image_skips_unterminated_candidates() {
    let mut image = Vec::new();
    image.extend_from_slice(b"6.1.0-android14-x");
    image.extend(std::iter::repeat(b'a').take(120));
    image.extend_from_slice(b"\0");
    assert_eq!(parse_kmi(&image), Err(KmiError::NoKmi));
}

#[test]
fn kmi_from_short_or_plain_buffers() {
    assert_eq!(parse_kmi(b"5.1"), Err(KmiError::NoKmi));
    assert_eq!(parse_kmi(b"no version here\0"), Err(KmiError::NoKmi));
    assert_eq!(parse_kmi(b"4.19.1-android10\0").unwrap(), "android10-9.1");
}

#[test]
fn kmi_from_modinfo_output() {
    let out = b"filename: /vendor/lib/modules/a.ko\r\nlicense: GPL\r\nvermagic: 5.10.101-android12-9 SMP\r\n";
    assert_eq!(kmi_from_modinfo(out).unwrap(), "android12-5.10");
    assert_eq!(kmi_from_modinfo(b"license: GPL\n"), Err(KmiError::NoVermagic));
    assert_eq!(kmi_from_modinfo(b"license: \xff\nvermagic: 5.10.1-android12\n"), Err(KmiError::NoVermagic));
    assert_eq!(kmi_from_modinfo(b"vermagic: 4.9.1 SMP\n"), Err(KmiError::NoKmi));
}

#[test]
fn kernel_version_of_release() {
    assert_eq!(get_kernel_version("5.10.101-android12-9").unwrap(), (5, 10, 101));
    assert_eq!(get_kernel_version("Linux 6.1.57"), Ok((6, 1, 57)));
    assert_eq!(get_kernel_version("unknown"), Err(KmiError::InvalidKernelVersion));
    assert_eq!(get_kernel_version("99999999999.1.1"), Err(KmiError::MajorVersion));
    assert_eq!(get_kernel_version("5.99999999999.1"), Err(KmiError::MinorVersion));
    assert_eq!(get_kernel_version("5.10.99999999999"), Err(KmiError::PatchVersion));
}

#[test]
fn kernel_version_from_missing_groups() {
    let caps = Some(vec![Some("1.2.3".to_string()), Some("1".to_string()), None, Some("3".to_string())]);
    assert_eq!(kernel_version_from_captures(caps), Err(KmiError::MinorVersion));
    assert_eq!(kernel_version_from_captures(None), Err(KmiError::InvalidKernelVersion));
}

#[test]
fn parse_i32_like_std() {
    for s in ["0", "42", "+7", "-13", "2147483647", "-2147483648", "", "+", "-", "2147483648", "-2147483649", "1a", " 1", "007"] {
        assert_eq!(parse_i32(s), s.parse::<i32>().ok(), "input {s:?}");
    }
}

#[test]
fn module_names_for_kmi() {
    let (name, vivo) = kernelsu_module_names("android13-5.15");
    assert_eq!(name, "android13-5.15_kernelsu.ko");
    assert_eq!(vivo, "android13-5.15_vivo_kernelsu.ko");
}
