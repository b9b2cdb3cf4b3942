//! Backups of the stock image: its SHA-1, the names of backup files, which
//! old backups to clean up, and when a patch takes a backup.
use vstd::prelude::*;

use sha1::Digest;

use crate::text::{
    chars_of, decimal, decimal_string, starts_with, starts_with_str, string_from_chars, trim, trim_exec,
    utf8_to_string, CharClass,
};

verus! {

/// The SHA-1 digest of `data`.
pub uninterp spec fn sha1_digest(data: Seq<u8>) -> Seq<u8>;

/// The SHA-1 digest of `data` (wraps `sha1::Sha1::digest`): 20 bytes,
/// named by `sha1_digest`.
#[verifier::external_body]
fn sha1_of(data: &[u8]) -> (r: Vec<u8>)
    ensures
        r@ == sha1_digest(data@),
        r@.len() == 20,
{
    sha1::Sha1::digest(data).to_vec()
}

/// The lower-case hexadecimal digit `d` (below 16).
pub open spec fn hex_digit(d: int) -> char {
    seq!['0', '1', '2', '3', '4', '5', '6', '7', '8', '9', 'a', 'b', 'c', 'd', 'e', 'f'][d]
}

/// Lower-case hexadecimal: two digits per byte, the high nibble first.
pub open spec fn spec_lower_hex(bytes: Seq<u8>) -> Seq<char>
    decreases bytes.len(),
{
    if bytes.len() == 0 {
        Seq::empty()
    } else {
        spec_lower_hex(bytes.drop_last()) + seq![
            hex_digit(bytes.last() as int / 16),
            hex_digit(bytes.last() as int % 16),
        ]
    }
}

/// Lower-case hexadecimal of `bytes` (wraps
/// `base16ct::lower::encode_string`, which panics on inputs longer than
/// half of `usize::MAX`).
#[verifier::external_body]
fn lower_hex(bytes: &[u8]) -> (r: String)
    requires
        bytes@.len() <= usize::MAX / 2,
    ensures
        r@ == spec_lower_hex(bytes@),
{
    base16ct::lower::encode_string(bytes)
}

/// The SHA-1 of an image, in lower-case hexadecimal.
pub fn calculate_sha1(data: &[u8]) -> (r: String)
    ensures
        r@ == spec_lower_hex(sha1_digest(data@)),
{
    let digest = sha1_of(data);
    lower_hex(digest.as_slice())
}

/// `prefix` followed by the SHA-1 of the image it holds.
pub fn backup_file_name(prefix: &str, sha1: &str) -> (r: String)
    ensures
        r@ == prefix@ + sha1@,
{
    let mut s = prefix.to_owned();
    s.append(sha1);
    s
}

/// The directory a backup falls back to when the backup directory cannot
/// be written: `/data/user_de/USER/PACKAGE/DIR`, the user being the uid
/// divided by 100000.
pub open spec fn spec_fallback_backup_dir(uid: u32, package: Seq<char>, dir_name: Seq<char>) -> Seq<char> {
    "/data/user_de/"@ + decimal((uid / 100000) as nat) + "/"@ + package + "/"@ + dir_name
}

pub fn fallback_backup_dir(uid: u32, package: &str, dir_name: &str) -> (r: String)
    ensures
        r@ == spec_fallback_backup_dir(uid, package@, dir_name@),
{
    let mut s = "/data/user_de/".to_owned();
    let user = decimal_string((uid / 100000) as usize);
    s.append(user.as_str());
    s.append("/");
    s.append(package);
    s.append("/");
    s.append(dir_name);
    s
}

/// A file of the backup directory that a new backup makes stale: it has
/// the backup prefix and is not the backup just made.
pub open spec fn spec_is_stale_backup(name: Seq<char>, backup_name: Seq<char>, prefix: Seq<char>) -> bool {
    name != backup_name && starts_with(name, prefix)
}

pub fn is_stale_backup(name: &str, backup_name: &str, prefix: &str) -> (r: bool)
    ensures
        r == spec_is_stale_backup(name@, backup_name@, prefix@),
{
    let n = name.to_owned();
    let b = backup_name.to_owned();
    let cs = chars_of(name);
    !(n == b) && starts_with_str(&cs, prefix)
}

/// The SHA-1 recorded in the ramdisk's backup entry, without surrounding
/// whitespace; `None` when the entry is not UTF-8.
pub open spec fn spec_stock_backup_sha(data: Seq<u8>) -> Option<Seq<char>> {
    if vstd::utf8::valid_utf8(data) {
        Some(trim(vstd::utf8::decode_utf8(data), CharClass::Whitespace))
    } else {
        None
    }
}

pub fn stock_backup_sha(data: &[u8]) -> (r: Option<String>)
    ensures
        match r {
            Some(s) => spec_stock_backup_sha(data@) == Some(s@),
            None => spec_stock_backup_sha(data@) is None,
        },
{
    match utf8_to_string(data) {
        None => None,
        Some(text) => {
            let cs = chars_of(text.as_str());
            let t = trim_exec(&cs, CharClass::Whitespace);
            Some(string_from_chars(t.as_slice()))
        },
    }
}

/// The name of the vendor_boot backup taken before `rmvr`.
pub fn vendor_boot_backup_name(sha1: &str) -> (r: String)
    ensures
        r@ == "sukisu_vendor_boot_backup_"@ + sha1@ + ".img"@,
{
    let mut s = "sukisu_vendor_boot_backup_".to_owned();
    s.append(sha1);
    s.append(".img");
    s
}

/// A patch backs the stock image up when asked to, or when it flashes an
/// image that KernelSU has not patched before.
pub fn should_backup(backup: bool, is_kernelsu_patched: bool, flash: bool) -> (r: bool)
    ensures
        r == (backup || (!is_kernelsu_patched && flash)),
{
    backup || (!is_kernelsu_patched && flash)
}

} // verus!

verus! {

/// The slot to make active after an OTA, from what `bootctl
/// get-current-slot` printed: `1` when the current slot is `0`, `0`
/// otherwise; `None` when the output is not UTF-8.
pub open spec fn spec_post_ota_slot(current_slot_output: Seq<u8>) -> Option<u32> {
    if vstd::utf8::valid_utf8(current_slot_output) {
        Some(
            if trim(vstd::utf8::decode_utf8(current_slot_output), CharClass::Whitespace) == seq!['0'] {
                1u32
            } else {
                0u32
            },
        )
    } else {
        None
    }
}

pub fn post_ota_slot(current_slot_output: &[u8]) -> (r: Option<u32>)
    ensures
        r == spec_post_ota_slot(current_slot_output@),
{
    match utf8_to_string(current_slot_output) {
        None => None,
        Some(text) => {
            let cs = chars_of(text.as_str());
            let t = trim_exec(&cs, CharClass::Whitespace);
            if t.len() == 1 && t[0] == '0' {
                assert(t@ =~= seq!['0']);
                Some(1)
            } else {
                Some(0)
            }
        },
    }
}

/// The `bootctl` argument that activates `slot`.
pub fn set_active_slot_arg(slot: u32) -> (r: String)
    ensures
        r@ == "set-active-boot-slot "@ + decimal(slot as nat),
{
    let mut s = "set-active-boot-slot ".to_owned();
    let d = decimal_string(slot as usize);
    s.append(d.as_str());
    s
}

/// The post-fs-data script that, on the next boot after an OTA, marks the
/// boot successful and removes `bootctl` and itself.
pub fn post_ota_script(bootctl: &str) -> (r: String)
    ensures
        r@ == "\n"@ + bootctl@ + " mark-boot-successful\nrm -f "@ + bootctl@
            + "\nrm -f /data/adb/post-fs-data.d/post_ota.sh\n"@,
{
    let mut s = "\n".to_owned();
    s.append(bootctl);
    s.append(" mark-boot-successful\nrm -f ");
    s.append(bootctl);
    s.append("\nrm -f /data/adb/post-fs-data.d/post_ota.sh\n");
    s
}

} // verus!
