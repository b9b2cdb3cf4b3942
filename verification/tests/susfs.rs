use ksud::susfs::abi::consts::{
    CMD_SUSFS_ADD_OPEN_REDIRECT, CMD_SUSFS_ADD_SUS_KSTAT, CMD_SUSFS_ADD_SUS_KSTAT_STATICALLY, CMD_SUSFS_ADD_SUS_MAP,
    CMD_SUSFS_ADD_SUS_PATH, CMD_SUSFS_ADD_SUS_PATH_LOOP, CMD_SUSFS_ENABLE_AVC_LOG_SPOOFING, CMD_SUSFS_ENABLE_LOG,
    CMD_SUSFS_HIDE_SUS_MOUNTS_FOR_NON_SU_PROCS, CMD_SUSFS_SET_CMDLINE_OR_BOOTCONFIG, CMD_SUSFS_SET_UNAME,
    CMD_SUSFS_SHOW_ENABLED_FEATURES, CMD_SUSFS_SHOW_VARIANT, CMD_SUSFS_SHOW_VERSION, CMD_SUSFS_UPDATE_SUS_KSTAT,
    ERR_CMD_NOT_SUPPORTED, KSTAT_AUTO_SPOOF, KSTAT_AUTO_SPOOF_FULL_CLONE, NEW_UTS_BUFSIZE, SUSFS_MAX_PATHNAME,
};
use ksud::susfs::abi::syscall::{check_reply, HasErr, SusfsError};
use ksud::susfs::abi::types::{zeroed, SusfsKstat, SusfsLog, SusfsVersion};
use ksud::susfs::cmd::kstat::{
    add_sus_kstat, add_sus_kstat_statically, fill_and_send_kstat, fill_kstat_from_path, update_sus_kstat,
    update_sus_kstat_full_clone,
};
use ksud::susfs::cmd::paths::{add_open_redirect, add_sus_map, add_sus_path, add_sus_path_loop};
use ksud::susfs::cmd::spoof::{
    enable_avc_log_spoofing, enable_log, hide_sus_mnts_for_non_su_procs, set_cmdline_or_bootconfig, set_uname,
};
use ksud::susfs::cmd::status::{
    features_request, get_susfs_features, get_susfs_status, get_susfs_variant, get_susfs_version,
    variant_request, version_request,
};
use ksud::susfs::util::{copy_bytes_into, copy_metadata_into_kstat, copy_path_into, cstr_buf_to_string, StatInfo};

fn stat() -> StatInfo {
    StatInfo {
        ino: 11,
        dev: 22,
        nlink: (1u64 << 32) + 3,
        size: 44,
        atime: -5,
        atime_nsec: -1,
        mtime: 66,
        mtime_nsec: 77,
        ctime: 88,
        ctime_nsec: 99,
        blocks: 8,
        blksize: 4096,
    }
}

#[test]
fn kstat_masks() {
    assert_eq!(KSTAT_AUTO_SPOOF, (1 << 0) | (1 << 1) | (1 << 4) | (1 << 5) | (1 << 6) | (1 << 7) | (1 << 8) | (1 << 9) | (1 << 10) | (1 << 11));
    assert_eq!(KSTAT_AUTO_SPOOF_FULL_CLONE, KSTAT_AUTO_SPOOF | (1 << 2) | (1 << 3));
    assert_eq!(NEW_UTS_BUFSIZE, 65);
}

#[test]
fn reply_verdicts() {
    assert!(check_reply(0, "op").is_ok());
    assert!(check_reply(ERR_CMD_NOT_SUPPORTED, "op").is_ok());
    let e = check_reply(-22, "add_sus_path").unwrap_err();
    assert_eq!(e.message(), "add_sus_path: kernel returned err=-22");
    assert_eq!(check_reply(i32::MIN, "x").unwrap_err().message(), "x: kernel returned err=-2147483648");
    assert_eq!(check_reply(5, "y").unwrap_err().message(), "y: kernel returned err=5");
}

#[test]
fn error_messages() {
    assert_eq!(SusfsError::PathTooLong { len: 300, max: 255 }.message(), "path too long (300 bytes, max 255)");
    assert_eq!(SusfsError::UnameTooLong.message(), "uname string too long");
    assert_eq!(SusfsError::FileTooLarge { len: 9000, max: 8191 }.message(), "file too large (9000 bytes, max 8191)");
}

#[test]
fn sus_path_request() {
    let r = add_sus_path("/data/adb/x").unwrap();
    assert_eq!(r.cmd, CMD_SUSFS_ADD_SUS_PATH);
    assert_eq!(r.op_name, "add_sus_path");
    assert_eq!(r.payload.target_pathname.len(), SUSFS_MAX_PATHNAME);
    assert_eq!(&r.payload.target_pathname[..11], b"/data/adb/x");
    assert!(r.payload.target_pathname[11..].iter().all(|b| *b == 0));
    assert_eq!(r.payload.err, ERR_CMD_NOT_SUPPORTED);
    assert_eq!(r.payload.err(), ERR_CMD_NOT_SUPPORTED);
    assert_eq!(cstr_buf_to_string(&r.payload.target_pathname), "/data/adb/x");
    assert_eq!(add_sus_path_loop("/a").unwrap().cmd, CMD_SUSFS_ADD_SUS_PATH_LOOP);
    assert_eq!(add_sus_map("/m").unwrap().cmd, CMD_SUSFS_ADD_SUS_MAP);
}

#[test]
fn long_paths_are_refused() {
    let long = "a".repeat(256);
    match add_sus_path(&long) {
        Err(SusfsError::PathTooLong { len, max }) => assert_eq!((len, max), (256, 255)),
        _ => panic!("expected PathTooLong"),
    }
    assert!(add_sus_path(&"b".repeat(255)).is_ok());
    let wide = "é".repeat(128);
    assert!(matches!(add_sus_map(&wide), Err(SusfsError::PathTooLong { len: 256, max: 255 })));
}

#[test]
fn open_redirect_request() {
    let r = add_open_redirect("/t", "/r", 7).unwrap();
    assert_eq!(r.cmd, CMD_SUSFS_ADD_OPEN_REDIRECT);
    assert_eq!(r.payload.uid_scheme, 7);
    assert_eq!(cstr_buf_to_string(&r.payload.target_pathname), "/t");
    assert_eq!(cstr_buf_to_string(&r.payload.redirected_pathname), "/r");
    let long = "x".repeat(300);
    assert!(matches!(add_open_redirect(&long, "/r", 0), Err(SusfsError::PathTooLong { len: 300, .. })));
    assert!(matches!(add_open_redirect("/t", &long, 0), Err(SusfsError::PathTooLong { len: 300, .. })));
}

#[test]
fn copy_helpers() {
    let mut buf = vec![9u8; 4];
    assert!(copy_path_into(&mut buf, "abc").is_ok());
    assert_eq!(buf, vec![b'a', b'b', b'c', 9]);
    let mut small = vec![1u8; 3];
    assert!(matches!(copy_path_into(&mut small, "abc"), Err(SusfsError::PathTooLong { len: 3, max: 2 })));
    assert_eq!(small, vec![1, 1, 1]);
    let mut b2 = vec![0u8; 2];
    assert_eq!(copy_bytes_into(&mut b2, &[1, 2]), Err(1));
    assert_eq!(zeroed(3), vec![0, 0, 0]);
}

#[test]
fn cstr_reading() {
    assert_eq!(cstr_buf_to_string(b"v1.5.5\0\0garbage"), "v1.5.5");
    assert_eq!(cstr_buf_to_string(b"full"), "full");
    assert_eq!(cstr_buf_to_string(b"\xff\xfe\0"), "<invalid>");
    assert_eq!(cstr_buf_to_string(b""), "");
}

#[test]
fn metadata_copy_converts_like_as() {
    let mut k = fill_kstat_from_path("/x", &stat(), 5).unwrap();
    assert_eq!(k.is_statically, 0);
    assert_eq!(k.flags, 5);
    assert_eq!(k.target_ino, 11);
    assert_eq!(k.spoofed_nlink, 3);
    assert_eq!(k.spoofed_atime_tv_sec, -5);
    assert_eq!(k.spoofed_atime_tv_nsec, u64::MAX);
    assert_eq!(k.spoofed_blksize, 4096);
    let mut other = stat();
    other.ino = 1234;
    copy_metadata_into_kstat(&mut k, &other);
    assert_eq!((k.target_ino, k.spoofed_ino, k.flags), (1234, 1234, 5));
}

#[test]
fn kstat_requests() {
    let a = add_sus_kstat("/system/bin/sh", &stat()).unwrap();
    assert_eq!((a.cmd, a.payload.flags, a.op_name), (CMD_SUSFS_ADD_SUS_KSTAT, KSTAT_AUTO_SPOOF, "add_sus_kstat"));
    let u = update_sus_kstat("/x", &stat()).unwrap();
    assert_eq!((u.cmd, u.payload.flags), (CMD_SUSFS_UPDATE_SUS_KSTAT, KSTAT_AUTO_SPOOF));
    let f = update_sus_kstat_full_clone("/x", &stat()).unwrap();
    assert_eq!((f.cmd, f.payload.flags, f.op_name), (CMD_SUSFS_UPDATE_SUS_KSTAT, KSTAT_AUTO_SPOOF_FULL_CLONE, "update_sus_kstat_full_clone"));
    let g = fill_and_send_kstat("/y", &stat(), 1, 2, "op").unwrap();
    assert_eq!((g.cmd, g.payload.flags, g.op_name), (1, 2, "op"));
    assert!(add_sus_kstat(&"z".repeat(400), &stat()).is_err());
}

#[test]
fn static_kstat_request() {
    let r = add_sus_kstat_statically("/x", &stat(), 1, 2, 3, 4, 5, 6, 7, 8, 9, 10, 11, 12).unwrap();
    let k: &SusfsKstat = &r.payload;
    assert_eq!(r.cmd, CMD_SUSFS_ADD_SUS_KSTAT_STATICALLY);
    assert_eq!((k.is_statically, k.target_ino, k.spoofed_ino, k.spoofed_blksize, k.flags), (1, 11, 1, 12, 0));
}

#[test]
fn uname_request() {
    let r = set_uname("5.10.0", "#1 SMP").unwrap();
    assert_eq!(r.cmd, CMD_SUSFS_SET_UNAME);
    assert_eq!(r.payload.release.len(), 65);
    assert_eq!(cstr_buf_to_string(&r.payload.release), "5.10.0");
    assert_eq!(cstr_buf_to_string(&r.payload.version), "#1 SMP");
    assert!(matches!(set_uname(&"r".repeat(65), "v"), Err(SusfsError::UnameTooLong)));
    assert!(matches!(set_uname("r", &"v".repeat(70)), Err(SusfsError::UnameTooLong)));
    assert!(set_uname(&"r".repeat(64), "v").is_ok());
}

#[test]
fn switch_requests() {
    let l: ksud::susfs::abi::syscall::Request<SusfsLog> = enable_log(true);
    assert_eq!((l.cmd, l.payload.enabled), (CMD_SUSFS_ENABLE_LOG, 1));
    assert_eq!(enable_log(false).payload.enabled, 0);
    assert_eq!(enable_avc_log_spoofing(true).cmd, CMD_SUSFS_ENABLE_AVC_LOG_SPOOFING);
    let h = hide_sus_mnts_for_non_su_procs(false);
    assert_eq!((h.cmd, h.payload.enabled, h.op_name), (CMD_SUSFS_HIDE_SUS_MOUNTS_FOR_NON_SU_PROCS, 0, "hide_sus_mnts_for_non_su_procs"));
}

#[test]
fn cmdline_request() {
    let r = set_cmdline_or_bootconfig(b"androidboot.x=1").unwrap();
    assert_eq!(r.cmd, CMD_SUSFS_SET_CMDLINE_OR_BOOTCONFIG);
    assert_eq!(r.payload.fake_cmdline_or_bootconfig.len(), 8192);
    assert_eq!(&r.payload.fake_cmdline_or_bootconfig[..15], b"androidboot.x=1");
    let big = vec![b'a'; 8192];
    assert!(matches!(set_cmdline_or_bootconfig(&big), Err(SusfsError::FileTooLarge { len: 8192, max: 8191 })));
    assert!(set_cmdline_or_bootconfig(&big[..8191]).is_ok());
}

#[test]
fn status_queries() {
    let v = version_request();
    assert_eq!((v.cmd, v.op_name, v.payload.susfs_version.len()), (CMD_SUSFS_SHOW_VERSION, "show_version", 16));
    assert_eq!(get_susfs_version(&v.payload), "unsupport");
    assert!(!get_susfs_status(&v.payload));
    let mut answer = vec![0u8; 16];
    answer[..6].copy_from_slice(b"v1.5.9");
    let reply = SusfsVersion { susfs_version: answer, err: 0 };
    assert_eq!(get_susfs_version(&reply), "v1.5.9");
    assert!(get_susfs_status(&reply));
    let bad = SusfsVersion { susfs_version: b"1.5.9\0".to_vec(), err: 0 };
    assert_eq!(get_susfs_version(&bad), "unsupport");
    let mut f = features_request();
    assert_eq!(f.cmd, CMD_SUSFS_SHOW_ENABLED_FEATURES);
    f.payload.enabled_features[..7].copy_from_slice(b"a,b,cde");
    assert_eq!(get_susfs_features(&f.payload), "a,b,cde");
    let mut g = variant_request();
    assert_eq!(g.cmd, CMD_SUSFS_SHOW_VARIANT);
    g.payload.susfs_variant[..3].copy_from_slice(b"gki");
    assert_eq!(get_susfs_variant(&g.payload), "gki");
}
