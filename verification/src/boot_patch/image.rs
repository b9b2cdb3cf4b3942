//! Boot-image kinds, target partitions and output names.
use vstd::prelude::*;

use crate::text::{chars_of, chars_eq_str, ends_with, ends_with_str, lower_ascii, lower_ascii_exec, starts_with, starts_with_str};

verus! {

pub const BOOT_PARTITION_BOOT: &'static str = "boot";
pub const BOOT_PARTITION_INIT_BOOT: &'static str = "init_boot";
pub const BOOT_PARTITION_VENDOR_BOOT: &'static str = "vendor_boot";

/// The header version of a boot image.
#[derive(Debug, Clone, Copy, PartialEq, Eq, Structural)]
pub enum BootImageVersion {
    Android(u32),
    Vendor(u32),
}

/// Why a boot image or request is refused.
#[derive(Debug, Clone, Copy, PartialEq, Eq, Structural)]
pub enum BootImageError {
    /// an Android boot image with a header version below 3
    UnsupportedVersion(u32),
    /// a vendor_boot image given to `boot-patch`
    VendorBootNotAllowed,
    /// a non-vendor_boot image given to `rmvr`
    NotVendorBoot,
    /// `--kernel` together with `--init` or `--module`
    KernelWithInitOrModule,
    /// the running kernel is not a GKI kernel
    NotGki,
    /// `rmvr` asked to target another partition than vendor_boot
    RmvrNotVendorPartition,
    /// no boot image given where there is no device to read one from
    NoBootImage,
    /// no vendor_boot image given where there is no device to read one from
    NoVendorBootImage,
}

pub fn is_vendor_boot_version(version: BootImageVersion) -> (r: bool)
    ensures
        r == (version is Vendor),
{
    match version {
        BootImageVersion::Vendor(_) => true,
        BootImageVersion::Android(_) => false,
    }
}

/// Android boot images need header version 3 or later.
pub fn enforce_bootimage_version(version: BootImageVersion) -> (r: Result<(), BootImageError>)
    ensures
        match version {
            BootImageVersion::Android(v) => if v < 3 {
                r == Err::<(), BootImageError>(BootImageError::UnsupportedVersion(v))
            } else {
                r is Ok
            },
            BootImageVersion::Vendor(_) => r is Ok,
        },
{
    match version {
        BootImageVersion::Android(v) => {
            if v < 3 {
                Err(BootImageError::UnsupportedVersion(v))
            } else {
                Ok(())
            }
        },
        BootImageVersion::Vendor(_) => Ok(()),
    }
}

/// The partition kind of a parsed image: vendor_boot for vendor images,
/// boot when it carries a kernel, init_boot otherwise.
pub fn classify_image(version: BootImageVersion, has_kernel: bool) -> (r: Result<String, BootImageError>)
    ensures
        match version {
            BootImageVersion::Android(v) if v < 3 => r == Err::<String, BootImageError>(BootImageError::UnsupportedVersion(v)),
            BootImageVersion::Vendor(_) => r matches Ok(s) && s@ == BOOT_PARTITION_VENDOR_BOOT@,
            BootImageVersion::Android(_) => r matches Ok(s) && s@ == (if has_kernel { BOOT_PARTITION_BOOT@ } else { BOOT_PARTITION_INIT_BOOT@ }),
        },
{
    enforce_bootimage_version(version)?;
    match version {
        BootImageVersion::Vendor(_) => Ok(BOOT_PARTITION_VENDOR_BOOT.to_owned()),
        BootImageVersion::Android(_) => {
            if has_kernel {
                Ok(BOOT_PARTITION_BOOT.to_owned())
            } else {
                Ok(BOOT_PARTITION_INIT_BOOT.to_owned())
            }
        },
    }
}

/// The kind named by an image file name (compared in ASCII lower case).
pub open spec fn spec_kind_by_name(file_name: Seq<char>) -> Option<Seq<char>> {
    let n = lower_ascii(file_name);
    if ends_with(n, "vendor_boot.img"@) {
        Some(BOOT_PARTITION_VENDOR_BOOT@)
    } else if ends_with(n, "init_boot.img"@) {
        Some(BOOT_PARTITION_INIT_BOOT@)
    } else if ends_with(n, "boot.img"@) {
        Some(BOOT_PARTITION_BOOT@)
    } else {
        None
    }
}

/// The image kind that the file name ends in, if any.
pub fn detect_boot_image_kind_by_name(file_name: &str) -> (r: Option<String>)
    ensures
        match spec_kind_by_name(file_name@) {
            Some(k) => r matches Some(s) && s@ == k,
            None => r is None,
        },
{
    let n = lower_ascii_exec(&chars_of(file_name));
    if ends_with_str(&n, "vendor_boot.img") {
        Some(BOOT_PARTITION_VENDOR_BOOT.to_owned())
    } else if ends_with_str(&n, "init_boot.img") {
        Some(BOOT_PARTITION_INIT_BOOT.to_owned())
    } else if ends_with_str(&n, "boot.img") {
        Some(BOOT_PARTITION_BOOT.to_owned())
    } else {
        None
    }
}

pub open spec fn is_boot_family(s: Seq<char>) -> bool {
    s == BOOT_PARTITION_BOOT@ || s == BOOT_PARTITION_INIT_BOOT@ || s == BOOT_PARTITION_VENDOR_BOOT@
}

fn is_boot_family_exec(s: &str) -> (r: bool)
    ensures
        r == is_boot_family(s@),
{
    let c = chars_of(s);
    chars_eq_str(&c, BOOT_PARTITION_BOOT) || chars_eq_str(&c, BOOT_PARTITION_INIT_BOOT)
        || chars_eq_str(&c, BOOT_PARTITION_VENDOR_BOOT)
}

/// The kind used in a default output name: from the file name, else the
/// requested partition when it is one of the boot family, else the kind
/// read from the image when it is one.
pub fn resolve_boot_image_kind_for_output(
    file_name: Option<&str>,
    partition: Option<&str>,
    classified: Option<&str>,
) -> (r: Option<String>)
    ensures
        ({
            let by_name = match file_name {
                Some(f) => spec_kind_by_name(f@),
                None => None,
            };
            if by_name is Some {
                r matches Some(s) && by_name == Some(s@)
            } else if partition matches Some(p) && is_boot_family(p@) {
                r matches Some(s) && s@ == partition->0@
            } else if classified matches Some(c) && is_boot_family(c@) {
                r matches Some(s) && s@ == classified->0@
            } else {
                r is None
            }
        }),
{
    if let Some(f) = file_name {
        if let Some(k) = detect_boot_image_kind_by_name(f) {
            return Some(k);
        }
    }
    if let Some(p) = partition {
        if is_boot_family_exec(p) {
            return Some(p.to_owned());
        }
    }
    if let Some(c) = classified {
        if is_boot_family_exec(c) {
            return Some(c.to_owned());
        }
    }
    None
}

/// The default output name of `boot-patch` at `timestamp`.
pub open spec fn spec_patched_name(kind: Option<Seq<char>>, timestamp: Seq<char>) -> Seq<char> {
    match kind {
        Some(k) => "kernelsu_patched_"@ + k + "_"@ + timestamp + ".img"@,
        None => "kernelsu_patched_"@ + timestamp + ".img"@,
    }
}

/// The default output name of `boot-restore` at `timestamp`.
pub open spec fn spec_restore_name(kind: Option<Seq<char>>, timestamp: Seq<char>) -> Seq<char> {
    match kind {
        Some(k) => "kernelsu_restore_"@ + k + "_"@ + timestamp + ".img"@,
        None => "kernelsu_restore_"@ + timestamp + ".img"@,
    }
}

pub open spec fn opt_str_view(kind: Option<&str>) -> Option<Seq<char>> {
    match kind {
        Some(k) => Some(k@),
        None => None,
    }
}

fn output_name(prefix: &str, kind: Option<&str>, timestamp: &str) -> (r: String)
    ensures
        r@ == match kind {
            Some(k) => prefix@ + k@ + "_"@ + timestamp@ + ".img"@,
            None => prefix@ + timestamp@ + ".img"@,
        },
{
    let mut s = prefix.to_owned();
    if let Some(k) = kind {
        s.append(k);
        s.append("_");
    }
    s.append(timestamp);
    s.append(".img");
    s
}

/// `kernelsu_patched_[kind_]timestamp.img`
pub fn build_patched_output_name_at(kind: Option<&str>, timestamp: &str) -> (r: String)
    ensures
        r@ == spec_patched_name(opt_str_view(kind), timestamp@),
{
    output_name("kernelsu_patched_", kind, timestamp)
}

/// `kernelsu_restore_[kind_]timestamp.img`
pub fn build_restore_output_name_at(kind: Option<&str>, timestamp: &str) -> (r: String)
    ensures
        r@ == spec_restore_name(opt_str_view(kind), timestamp@),
{
    output_name("kernelsu_restore_", kind, timestamp)
}

/// `kernelsu_rmvr_timestamp.img`
pub fn build_rmvr_output_name_at(timestamp: &str) -> (r: String)
    ensures
        r@ == "kernelsu_rmvr_"@ + timestamp@ + ".img"@,
{
    output_name("kernelsu_rmvr_", None, timestamp)
}

pub open spec fn is_ascii_digit(c: char) -> bool {
    '0' <= c && c <= '9'
}

pub open spec fn all_ascii_digits(s: Seq<char>) -> bool {
    forall|i: int| 0 <= i < s.len() ==> is_ascii_digit(#[trigger] s[i])
}

/// The number written by the two digits of `s` at `i`.
pub open spec fn two_digit_value(s: Seq<char>, i: int) -> int {
    ((s[i] as int) - 48) * 10 + ((s[i + 1] as int) - 48)
}

/// The shape of chrono's `%Y%m%d_%H%M%S` for a date after 1970: a year of
/// four digits (or `+` and five or more digits past year 9999), two digits
/// each of month (1 to 12) and day (1 to 31), `_`, and two digits each of
/// hour (0 to 23), minute (0 to 59) and second (0 to 60, for a leap
/// second).
pub open spec fn timestamp_shape(ts: Seq<char>) -> bool {
    let n = ts.len() as int;
    let year = ts.take(n - 11);
    &&& n >= 15
    &&& all_ascii_digits(ts.subrange(n - 11, n - 7))
    &&& ts[n - 7] == '_'
    &&& all_ascii_digits(ts.subrange(n - 6, n))
    &&& 1 <= two_digit_value(ts, n - 11) <= 12
    &&& 1 <= two_digit_value(ts, n - 9) <= 31
    &&& two_digit_value(ts, n - 6) <= 23
    &&& two_digit_value(ts, n - 4) <= 59
    &&& two_digit_value(ts, n - 2) <= 60
    &&& (year.len() == 4 && all_ascii_digits(year) || year.len() >= 6 && year[0] == '+' && all_ascii_digits(
        year.drop_first(),
    ))
}

/// The current UTC time as `%Y%m%d_%H%M%S` (wraps `chrono::Utc::now` and
/// `DateTime::format`).  The value depends on the clock; what is claimed is
/// the shape of the text and the ranges of its fields, as chrono's writers
/// produce them for any time after the Unix epoch (`Utc::now` panics on a
/// clock set before it, which no argument can rule out).
#[verifier::external_body]
fn utc_timestamp() -> (ts: String)
    ensures
        timestamp_shape(ts@),
{
    chrono::Utc::now().format("%Y%m%d_%H%M%S").to_string()
}

/// The default output name of `boot-patch`, stamped with the current time.
pub fn build_patched_output_name(kind: Option<&str>) -> (r: String)
    ensures
        exists|ts: Seq<char>| timestamp_shape(ts) && r@ == #[trigger] spec_patched_name(opt_str_view(kind), ts),
{
    let ts = utc_timestamp();
    build_patched_output_name_at(kind, ts.as_str())
}

/// The default output name of `boot-restore`, stamped with the current time.
pub fn build_restore_output_name(kind: Option<&str>) -> (r: String)
    ensures
        exists|ts: Seq<char>| timestamp_shape(ts) && r@ == #[trigger] spec_restore_name(opt_str_view(kind), ts),
{
    let ts = utc_timestamp();
    build_restore_output_name_at(kind, ts.as_str())
}

/// The default output name of `boot-patch-rmvr`, stamped with the current
/// time.
pub fn build_rmvr_output_name() -> (r: String)
    ensures
        exists|ts: Seq<char>| timestamp_shape(ts) && r@ == #[trigger] ("kernelsu_rmvr_"@ + ts + ".img"@),
{
    let ts = utc_timestamp();
    build_rmvr_output_name_at(ts.as_str())
}

/// The partition `boot-patch` writes: an explicit boot-family choice wins
/// (any other explicit value means boot); otherwise init_boot when it
/// exists, no kernel is replaced and the KMI is not android12; else boot.
pub open spec fn spec_choose_boot_partition(
    kmi: Seq<char>,
    is_replace_kernel: bool,
    partition: Option<Seq<char>>,
    init_boot_exists: bool,
) -> Seq<char> {
    match partition {
        Some(p) => if is_boot_family(p) { p } else { BOOT_PARTITION_BOOT@ },
        None => if !is_replace_kernel && init_boot_exists && !starts_with(kmi, "android12-"@) {
            BOOT_PARTITION_INIT_BOOT@
        } else {
            BOOT_PARTITION_BOOT@
        },
    }
}

pub fn choose_boot_partition(
    kmi: &str,
    is_replace_kernel: bool,
    partition: Option<&str>,
    init_boot_exists: bool,
) -> (r: String)
    ensures
        r@ == spec_choose_boot_partition(kmi@, is_replace_kernel, opt_str_view(partition), init_boot_exists),
{
    let skip_init_boot = starts_with_str(&chars_of(kmi), "android12-");
    if let Some(p) = partition {
        if is_boot_family_exec(p) {
            return p.to_owned();
        }
        return BOOT_PARTITION_BOOT.to_owned();
    }
    if !is_replace_kernel && init_boot_exists && !skip_init_boot {
        return BOOT_PARTITION_INIT_BOOT.to_owned();
    }
    BOOT_PARTITION_BOOT.to_owned()
}

/// The slot suffix to use: the current one, or for an OTA the other slot
/// (`_a` becomes `_b`, anything else `_a`); empty stays empty.
pub open spec fn spec_slot_suffix(current: Seq<char>, ota: bool) -> Seq<char> {
    if current.len() > 0 && ota {
        if current == "_a"@ { "_b"@ } else { "_a"@ }
    } else {
        current
    }
}

pub fn get_slot_suffix(current: &str, ota: bool) -> (r: String)
    ensures
        r@ == spec_slot_suffix(current@, ota),
{
    let c = chars_of(current);
    if c.len() > 0 && ota {
        if chars_eq_str(&c, "_a") {
            "_b".to_owned()
        } else {
            "_a".to_owned()
        }
    } else {
        current.to_owned()
    }
}

/// The boot-family partitions present, in the order boot, init_boot,
/// vendor_boot.
pub fn list_available_partitions(boot_exists: bool, init_boot_exists: bool, vendor_boot_exists: bool) -> (r: Vec<String>)
    ensures
        crate::text::strings_view(r@) == (if boot_exists { seq![BOOT_PARTITION_BOOT@] } else { Seq::empty() })
            + (if init_boot_exists { seq![BOOT_PARTITION_INIT_BOOT@] } else { Seq::empty() })
            + (if vendor_boot_exists { seq![BOOT_PARTITION_VENDOR_BOOT@] } else { Seq::empty() }),
{
    let mut r: Vec<String> = Vec::new();
    if boot_exists {
        r.push(BOOT_PARTITION_BOOT.to_owned());
    }
    if init_boot_exists {
        r.push(BOOT_PARTITION_INIT_BOOT.to_owned());
    }
    if vendor_boot_exists {
        r.push(BOOT_PARTITION_VENDOR_BOOT.to_owned());
    }
    assert(crate::text::strings_view(r@) =~= (if boot_exists { seq![BOOT_PARTITION_BOOT@] } else { Seq::empty() })
        + (if init_boot_exists { seq![BOOT_PARTITION_INIT_BOOT@] } else { Seq::empty() })
        + (if vendor_boot_exists { seq![BOOT_PARTITION_VENDOR_BOOT@] } else { Seq::empty() }));
    r
}

/// The block device of a partition in slot `slot_suffix`.
pub open spec fn spec_by_name_path(name: Seq<char>, slot_suffix: Seq<char>) -> Seq<char> {
    "/dev/block/by-name/"@ + name + slot_suffix
}

pub fn by_name_path(name: &str, slot_suffix: &str) -> (r: String)
    ensures
        r@ == spec_by_name_path(name@, slot_suffix@),
{
    let mut s = "/dev/block/by-name/".to_owned();
    s.append(name);
    s.append(slot_suffix);
    s
}

/// The device that `boot-patch` targets when no image is given.
pub fn auto_boot_partition_path(
    kmi: &str,
    ota: bool,
    is_replace_kernel: bool,
    partition: Option<&str>,
    current_slot: &str,
    init_boot_exists: bool,
) -> (r: String)
    ensures
        r@ == spec_by_name_path(
            spec_choose_boot_partition(kmi@, is_replace_kernel, opt_str_view(partition), init_boot_exists),
            spec_slot_suffix(current_slot@, ota),
        ),
{
    let slot = get_slot_suffix(current_slot, ota);
    let name = choose_boot_partition(kmi, is_replace_kernel, partition, init_boot_exists);
    by_name_path(name.as_str(), slot.as_str())
}

/// GKI kernels: 5.10 and later 5.x, or any version whose third number is
/// above 5.
pub fn ensure_gki_kernel(version: (i32, i32, i32)) -> (r: Result<(), BootImageError>)
    ensures
        (version.0 == 5 && version.1 >= 10 || version.2 > 5) ==> r is Ok,
        !(version.0 == 5 && version.1 >= 10 || version.2 > 5) ==> r == Err::<(), BootImageError>(BootImageError::NotGki),
{
    if version.0 == 5 && version.1 >= 10 || version.2 > 5 {
        Ok(())
    } else {
        Err(BootImageError::NotGki)
    }
}

/// `--kernel` excludes `--init` and `--module`.
pub fn check_patch_inputs(has_kernel: bool, has_init: bool, has_module: bool) -> (r: Result<(), BootImageError>)
    ensures
        (has_kernel && (has_init || has_module)) <==> r == Err::<(), BootImageError>(BootImageError::KernelWithInitOrModule),
        !(has_kernel && (has_init || has_module)) <==> r is Ok,
{
    if has_kernel && (has_init || has_module) {
        Err(BootImageError::KernelWithInitOrModule)
    } else {
        Ok(())
    }
}

/// The output file is written unless the image was flashed to the device
/// found automatically and no output was asked for.
pub fn should_write_output(image_supplied: bool, flash: bool, has_out_name: bool, has_out: bool) -> (r: bool)
    ensures
        r == (image_supplied || !flash || has_out_name || has_out),
{
    image_supplied || !flash || has_out_name || has_out
}

/// The vendor ramdisk to patch: the first named `init_boot`, else the
/// first with an empty name.
pub fn select_vendor_ramdisk(names: &[Vec<u8>]) -> (r: Option<usize>)
    ensures
        match r {
            Some(i) => i < names@.len() && ({
                ||| names@[i as int]@ == "init_boot"@.map_values(|c: char| c as u8)
                    && forall|k: int| 0 <= k < i ==> names@[k]@ != "init_boot"@.map_values(|c: char| c as u8)
                ||| names@[i as int]@.len() == 0
                    && (forall|k: int| 0 <= k < names@.len() ==> names@[k]@ != "init_boot"@.map_values(|c: char| c as u8))
                    && forall|k: int| 0 <= k < i ==> names@[k]@.len() != 0
            }),
            None => forall|k: int| 0 <= k < names@.len() ==> names@[k]@ != "init_boot"@.map_values(|c: char| c as u8)
                && names@[k]@.len() != 0,
        },
{
    let target = "init_boot".as_bytes();
    proof {
        reveal_strlit("init_boot");
        vstd::string::is_ascii_spec_bytes("init_boot");
        assert(vstd::string::is_ascii("init_boot"));
        assert(target@ =~= "init_boot"@.map_values(|c: char| c as u8));
    }
    let mut i: usize = 0;
    while i < names.len()
        invariant
            i <= names@.len(),
            target@ == "init_boot"@.map_values(|c: char| c as u8),
            forall|k: int| 0 <= k < i ==> names@[k]@ != target@,
        decreases names@.len() - i,
    {
        if bytes_eq(names[i].as_slice(), target) {
            return Some(i);
        }
        i = i + 1;
    }
    let mut j: usize = 0;
    while j < names.len()
        invariant
            j <= names@.len(),
            forall|k: int| 0 <= k < names@.len() ==> names@[k]@ != "init_boot"@.map_values(|c: char| c as u8),
            forall|k: int| 0 <= k < j ==> names@[k]@.len() != 0,
        decreases names@.len() - j,
    {
        if names[j].len() == 0 {
            return Some(j);
        }
        j = j + 1;
    }
    None
}

fn bytes_eq(a: &[u8], b: &[u8]) -> (r: bool)
    ensures
        r == (a@ == b@),
{
    if a.len() != b.len() {
        return false;
    }
    let mut i: usize = 0;
    while i < a.len()
        invariant
            a@.len() == b@.len(),
            i <= a@.len(),
            forall|k: int| 0 <= k < i ==> a@[k] == b@[k],
        decreases a@.len() - i,
    {
        if a[i] != b[i] {
            return false;
        }
        i = i + 1;
    }
    assert(a@ =~= b@);
    true
}

} // verus!

verus! {

/// `boot-patch` takes an Android boot image of header version 3 or later,
/// never a vendor_boot image.
pub fn check_patch_image(version: BootImageVersion) -> (r: Result<(), BootImageError>)
    ensures
        match version {
            BootImageVersion::Android(v) => if v < 3 {
                r == Err::<(), BootImageError>(BootImageError::UnsupportedVersion(v))
            } else {
                r is Ok
            },
            BootImageVersion::Vendor(_) => r == Err::<(), BootImageError>(BootImageError::VendorBootNotAllowed),
        },
{
    enforce_bootimage_version(version)?;
    if is_vendor_boot_version(version) {
        return Err(BootImageError::VendorBootNotAllowed);
    }
    Ok(())
}

/// `rmvr` takes only vendor_boot images.
pub fn check_rmvr_image(version: BootImageVersion) -> (r: Result<(), BootImageError>)
    ensures
        r is Ok <==> version is Vendor,
        r is Err ==> r == Err::<(), BootImageError>(BootImageError::NotVendorBoot),
{
    if is_vendor_boot_version(version) {
        Ok(())
    } else {
        Err(BootImageError::NotVendorBoot)
    }
}

/// `rmvr` on the device found automatically can only target vendor_boot.
pub fn check_rmvr_partition(partition: Option<&str>) -> (r: Result<(), BootImageError>)
    ensures
        r is Ok <==> match partition {
            Some(p) => p@ == BOOT_PARTITION_VENDOR_BOOT@,
            None => true,
        },
        r is Err ==> r == Err::<(), BootImageError>(BootImageError::RmvrNotVendorPartition),
{
    match partition {
        Some(p) => {
            if chars_eq_str(&chars_of(p), BOOT_PARTITION_VENDOR_BOOT) {
                Ok(())
            } else {
                Err(BootImageError::RmvrNotVendorPartition)
            }
        },
        None => Ok(()),
    }
}


/// `boot-patch` and `boot-restore` read the given image, or on an Android
/// device the boot partition found there; elsewhere an image must be
/// given.
pub fn check_boot_image_source(image_supplied: bool, on_android: bool) -> (r: Result<(), BootImageError>)
    ensures
        r is Ok <==> (image_supplied || on_android),
        r is Err ==> r == Err::<(), BootImageError>(BootImageError::NoBootImage),
{
    if image_supplied || on_android {
        Ok(())
    } else {
        Err(BootImageError::NoBootImage)
    }
}

/// Where `rmvr` reads its image: `None` for the image given; otherwise,
/// on an Android device, the vendor_boot partition of the slot (only
/// vendor_boot may be asked for); elsewhere an image must be given.
pub fn rmvr_image_source(
    image_supplied: bool,
    on_android: bool,
    partition: Option<&str>,
    slot_suffix: &str,
) -> (r: Result<Option<String>, BootImageError>)
    ensures
        image_supplied ==> r matches Ok(None),
        !image_supplied && !on_android ==> r == Err::<Option<String>, BootImageError>(BootImageError::NoVendorBootImage),
        !image_supplied && on_android ==> match partition {
            Some(p) if p@ != BOOT_PARTITION_VENDOR_BOOT@ => r == Err::<Option<String>, BootImageError>(
                BootImageError::RmvrNotVendorPartition,
            ),
            _ => r matches Ok(Some(path)) && path@ == spec_by_name_path(BOOT_PARTITION_VENDOR_BOOT@, slot_suffix@),
        },
{
    if image_supplied {
        return Ok(None);
    }
    if !on_android {
        return Err(BootImageError::NoVendorBootImage);
    }
    check_rmvr_partition(partition)?;
    Ok(Some(by_name_path(BOOT_PARTITION_VENDOR_BOOT, slot_suffix)))
}


/// Law: a partition asked for by name is used when it is `boot`,
/// `init_boot` or `vendor_boot`, and any other name means `boot`; with
/// none asked for, `init_boot` is used exactly when it exists, no kernel
/// is replaced and the KMI is not an `android12-` one, else `boot`.
pub proof fn law_choose_boot_partition(
    kmi: Seq<char>,
    is_replace_kernel: bool,
    p: Seq<char>,
    init_boot_exists: bool,
)
    ensures
        (p == "boot"@ || p == "init_boot"@ || p == "vendor_boot"@) ==> spec_choose_boot_partition(
            kmi,
            is_replace_kernel,
            Some(p),
            init_boot_exists,
        ) == p,
        !(p == "boot"@ || p == "init_boot"@ || p == "vendor_boot"@) ==> spec_choose_boot_partition(
            kmi,
            is_replace_kernel,
            Some(p),
            init_boot_exists,
        ) == "boot"@,
        spec_choose_boot_partition(kmi, is_replace_kernel, None, init_boot_exists) == (if !is_replace_kernel
            && init_boot_exists && !(kmi.len() >= 10 && kmi.take(10) == "android12-"@) {
            "init_boot"@
        } else {
            "boot"@
        }),
{
    reveal_strlit("android12-");
    assert("android12-"@.len() == 10);
}

} // verus!
