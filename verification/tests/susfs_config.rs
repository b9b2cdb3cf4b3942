use ksud::susfs_config::binary::{
    config_path, read_binary, write_binary, ConfigFormatError, SUSFS_CONFIG_MAGIC, SUSFS_CONFIG_VERSION,
};
use ksud::susfs_config::config_map::ConfigMap;
use ksud::susfs_config::keys::{KEY_ENABLE_HIDE_BL, KEY_SUS_PATHS, KEY_UNAME_VALUE};
use ksud::susfs_config::module::{
    join_kstat_configs, join_paths, load_module_config, split_kstat_configs, split_paths,
};
use ksud::susfs_config::store;
use ksud::susfs_config::store::{clear, export_json, get, load_config, remove, reset_to_defaults};

fn map(pairs: &[(&str, &str)]) -> ConfigMap {
    let mut m = ConfigMap::new();
    for (k, v) in pairs {
        m.insert(k.to_string(), v.to_string());
    }
    m
}

fn header(count: u32) -> Vec<u8> {
    let mut b = Vec::new();
    b.extend_from_slice(&SUSFS_CONFIG_MAGIC.to_le_bytes());
    b.extend_from_slice(&SUSFS_CONFIG_VERSION.to_le_bytes());
    b.extend_from_slice(&count.to_le_bytes());
    b
}

#[test]
fn config_file_path() {
    assert_eq!(config_path(), "/data/adb/ksu/susfs_config");
}

#[test]
fn binary_layout_of_one_entry() {
    let bytes = write_binary(&map(&[("k", "vé")]));
    let mut expected = header(1);
    expected.extend_from_slice(&1u32.to_le_bytes());
    expected.extend_from_slice(b"k");
    expected.extend_from_slice(&3u32.to_le_bytes());
    expected.extend_from_slice("vé".as_bytes());
    assert_eq!(bytes, expected);
    assert_eq!(&bytes[..4], b"FSUS");
}

#[test]
fn binary_round_trip() {
    let m = map(&[("a", "1"), ("sus_paths", "/x;/y"), ("empty", "")]);
    let back = read_binary(&write_binary(&m)).unwrap();
    assert_eq!(back.len(), 3);
    assert_eq!(back.get("sus_paths").map(|s| s.as_str()), Some("/x;/y"));
    assert_eq!(back.get("empty").map(|s| s.as_str()), Some(""));
    assert!(read_binary(&write_binary(&ConfigMap::new())).unwrap().len() == 0);
}

#[test]
fn binary_errors() {
    assert_eq!(read_binary(&[1, 2]).err(), Some(ConfigFormatError::TruncatedHeader));
    assert_eq!(read_binary(&[0, 0, 0, 0]).err(), Some(ConfigFormatError::InvalidMagic(0)));
    assert_eq!(read_binary(&SUSFS_CONFIG_MAGIC.to_le_bytes()).err(), Some(ConfigFormatError::TruncatedVersion));
    let mut v2 = SUSFS_CONFIG_MAGIC.to_le_bytes().to_vec();
    v2.extend_from_slice(&2u32.to_le_bytes());
    assert_eq!(read_binary(&v2).err(), Some(ConfigFormatError::UnsupportedVersion(2)));
    let h = header(1);
    assert_eq!(read_binary(&h[..8]).err(), Some(ConfigFormatError::TruncatedCount));
    assert_eq!(read_binary(&h).err(), Some(ConfigFormatError::TruncatedKeyLength));
    let mut k = h.clone();
    k.extend_from_slice(&5u32.to_le_bytes());
    k.extend_from_slice(b"ab");
    assert_eq!(read_binary(&k).err(), Some(ConfigFormatError::TruncatedKeyData));
    let mut bad_key = h.clone();
    bad_key.extend_from_slice(&1u32.to_le_bytes());
    bad_key.push(0xff);
    assert_eq!(read_binary(&bad_key).err(), Some(ConfigFormatError::InvalidKeyUtf8));
    let mut v = h.clone();
    v.extend_from_slice(&1u32.to_le_bytes());
    v.push(b'k');
    assert_eq!(read_binary(&v).err(), Some(ConfigFormatError::TruncatedValueLength));
    let mut vd = v.clone();
    vd.extend_from_slice(&4u32.to_le_bytes());
    vd.push(b'x');
    assert_eq!(read_binary(&vd).err(), Some(ConfigFormatError::TruncatedValueData));
    let mut bad_value = v.clone();
    bad_value.extend_from_slice(&1u32.to_le_bytes());
    bad_value.push(0xc3);
    assert_eq!(read_binary(&bad_value).err(), Some(ConfigFormatError::InvalidValueUtf8));
}

#[test]
fn later_records_replace_earlier_ones() {
    let mut b = header(2);
    for (k, v) in [("k", "1"), ("k", "2")] {
        b.extend_from_slice(&1u32.to_le_bytes());
        b.extend_from_slice(k.as_bytes());
        b.extend_from_slice(&1u32.to_le_bytes());
        b.extend_from_slice(v.as_bytes());
    }
    let m = read_binary(&b).unwrap();
    assert_eq!(m.len(), 1);
    assert_eq!(m.get("k").map(|s| s.as_str()), Some("2"));
}

#[test]
fn load_missing_file_is_empty() {
    assert_eq!(load_config(None).unwrap().len(), 0);
    assert_eq!(load_config(Some(&[9, 9, 9, 9][..])).err(), Some(ConfigFormatError::InvalidMagic(0x0909_0909)));
}

#[test]
fn store_get_set_remove_clear() {
    let mut m = ConfigMap::new();
    assert_eq!(get(&m, "a"), "");
    store::set(&mut m, "a", "1");
    assert_eq!(get(&m, "a"), "1");
    store::set(&mut m, "b", "2");
    store::set(&mut m, "a", "3");
    assert_eq!(get(&m, "a"), "3");
    assert_eq!(get(&m, "b"), "2");
    remove(&mut m, "a");
    assert_eq!(get(&m, "a"), "");
    assert_eq!(get(&m, "b"), "2");
    clear(&mut m);
    assert_eq!(m.len(), 0);
    assert_eq!(get(&m, "b"), "");
}

#[test]
fn defaults() {
    let d = reset_to_defaults();
    assert_eq!(d.len(), 14);
    assert_eq!(get(&d, KEY_UNAME_VALUE), "default");
    assert_eq!(get(&d, KEY_ENABLE_HIDE_BL), "true");
    assert_eq!(get(&d, "hide_sus_mounts_for_all_procs"), "true");
    assert_eq!(get(&d, KEY_SUS_PATHS), "");
    let mc = load_module_config(&d);
    assert_eq!(mc.uname_value, "default");
    assert_eq!(mc.build_time_value, "default");
    assert!(mc.hide_sus_mounts_for_all_procs && mc.enable_hide_bl);
    assert!(!mc.enable_log && !mc.execute_in_post_fs_data && !mc.enable_cleanup_residue && !mc.enable_avc_log_spoofing);
    assert!(mc.sus_paths.is_empty() && mc.kstat_configs.is_empty());
    assert_eq!(mc.cmdline_or_bootconfig_path, "");
}

#[test]
fn export_json_object() {
    let m = map(&[("b", "2"), ("a", "1"), ("B", "x"), ("é", "e")]);
    assert_eq!(export_json(&m), "{\"B\":\"x\",\"a\":\"1\",\"b\":\"2\",\"é\":\"e\"}");
    assert_eq!(export_json(&ConfigMap::new()), "{}");
}

#[test]
fn export_json_escapes() {
    let m = map(&[("q\"\\", "a\nb\u{1}\t\r\u{8}\u{c}\u{1f}")]);
    assert_eq!(export_json(&m), "{\"q\\\"\\\\\":\"a\\nb\\u0001\\t\\r\\b\\f\\u001f\"}");
}

#[test]
fn path_lists() {
    assert_eq!(split_paths(""), Vec::<String>::new());
    assert_eq!(split_paths("/a;;/b;"), vec!["/a".to_string(), "/b".to_string()]);
    assert_eq!(join_paths(&["/a".to_string(), "/b".to_string()]), "/a;/b");
    let xs = vec!["/x".to_string(), "/y z".to_string()];
    assert_eq!(split_paths(&join_paths(&xs)), xs);
}

#[test]
fn kstat_lists() {
    assert_eq!(split_kstat_configs("a|1;;b|2;;"), vec!["a|1".to_string(), "b|2".to_string()]);
    assert_eq!(split_kstat_configs("a;b"), vec!["a;b".to_string()]);
    assert_eq!(join_kstat_configs(&["a".to_string(), "b".to_string()]), "a;;b");
    let xs = vec!["p|1|2".to_string(), "q".to_string()];
    assert_eq!(split_kstat_configs(&join_kstat_configs(&xs)), xs);
}

#[test]
fn module_config_from_map() {
    let m = map(&[
        ("sus_paths", "/a;/b"),
        ("kstat_configs", "x|1;;y|2"),
        ("enable_log", "true"),
        ("enable_hide_bl", "TRUE"),
        ("cmdline_or_bootconfig_path", "/sdcard/c"),
    ]);
    let c = load_module_config(&m);
    assert_eq!(c.sus_paths, vec!["/a".to_string(), "/b".to_string()]);
    assert_eq!(c.kstat_configs, vec!["x|1".to_string(), "y|2".to_string()]);
    assert!(c.enable_log);
    assert!(!c.enable_hide_bl);
    assert_eq!(c.cmdline_or_bootconfig_path, "/sdcard/c");
    assert_eq!(c.uname_value, "");
}

#[test]
fn format_error_messages() {
    assert_eq!(ConfigFormatError::TruncatedHeader.message(), "Truncated header");
    assert_eq!(
        ConfigFormatError::InvalidMagic(0x1a2b).message(),
        "Invalid magic: expected 0x53555346, got 0x00001a2b"
    );
    assert_eq!(ConfigFormatError::UnsupportedVersion(7).message(), "Unsupported version: expected 1, got 7");
    assert_eq!(ConfigFormatError::InvalidKeyUtf8.message(), "Invalid UTF-8 in key");
    assert_eq!(ConfigFormatError::TruncatedValueData.message(), "Truncated value data");
    let bad = read_binary(&[0, 0, 0, 0]).err().unwrap();
    assert_eq!(bad.message(), "Invalid magic: expected 0x53555346, got 0x00000000");
}

#[test]
fn join_of_split_paths() {
    for s in ["", "/a", "/a;/b", "/x y;/z"] {
        assert_eq!(join_paths(&split_paths(s)), s);
    }
    for s in [";", ";/a", "/a;", "/a;;/b"] {
        assert_ne!(join_paths(&split_paths(s)), s);
    }
}
