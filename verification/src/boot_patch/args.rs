//! The options of `boot-patch`, `boot-restore` and `boot-patch-rmvr`, and
//! the decisions taken from them alone.  File paths are kept as strings.
use vstd::prelude::*;

use crate::boot_patch::image::{check_patch_inputs, should_write_output, BootImageError};
use crate::boot_patch::ramdisk::{opt_view, RamdiskPatchOptions};

verus! {

/// Options of `boot-patch`.
pub struct BootPatchArgs {
    /// the boot image; found on the device when absent
    pub boot: Option<String>,
    /// a kernel image to put in place of the image's kernel
    pub kernel: Option<String>,
    /// the KernelSU module to install instead of the built-in one
    pub module: Option<String>,
    /// the init to install instead of the built-in one
    pub init: Option<String>,
    /// use the other slot when no image is given
    pub ota: bool,
    /// flash the patched image
    pub flash: bool,
    /// back the source image up as the stock image
    pub backup: bool,
    /// the output directory
    pub out: Option<String>,
    /// the KMI to use instead of detecting it
    pub kmi: Option<String>,
    /// the target partition (init_boot, boot or vendor_boot)
    pub partition: Option<String>,
    /// the output file name
    pub out_name: Option<String>,
    /// a kernel command line for the image header
    pub cmdline: Option<String>,
    /// always let the shell become root
    pub allow_shell: bool,
    /// the kernel release that kernelsu.ko reports
    pub spoof_release: Option<String>,
    /// the kernel version that kernelsu.ko reports
    pub spoof_version: Option<String>,
    /// force adbd on, without authentication
    pub enable_adbd: bool,
    /// more adb debug properties
    pub adb_debug_prop: Option<String>,
    /// only change the settings, do not (re)install KernelSU
    pub no_install: bool,
    /// do not load custom rc files
    pub no_custom_rc: bool,
}

/// Options of `boot-patch-rmvr`.
pub struct VendorBootRmvrArgs {
    pub boot: Option<String>,
    pub ota: bool,
    pub flash: bool,
    pub out: Option<String>,
    pub out_name: Option<String>,
    pub partition: Option<String>,
}

/// Options of `boot-restore`.
pub struct BootRestoreArgs {
    pub boot: Option<String>,
    pub flash: bool,
    pub out: Option<String>,
    pub out_name: Option<String>,
}

fn clone_opt(o: &Option<String>) -> (r: Option<String>)
    ensures
        opt_view(r) == opt_view(*o),
{
    match o {
        Some(s) => Some(s.clone()),
        None => None,
    }
}

/// The ramdisk options of a patch.
pub fn patch_ramdisk_options(args: &BootPatchArgs, has_vivo_module: bool) -> (r: RamdiskPatchOptions)
    ensures
        r.no_install == args.no_install,
        r.has_vivo_module == has_vivo_module,
        r.no_custom_rc == args.no_custom_rc,
        r.allow_shell == args.allow_shell,
        opt_view(r.spoof_release) == opt_view(args.spoof_release),
        opt_view(r.spoof_version) == opt_view(args.spoof_version),
        r.enable_adbd == args.enable_adbd,
        opt_view(r.adb_debug_prop) == opt_view(args.adb_debug_prop),
{
    RamdiskPatchOptions {
        no_install: args.no_install,
        has_vivo_module,
        no_custom_rc: args.no_custom_rc,
        allow_shell: args.allow_shell,
        spoof_release: clone_opt(&args.spoof_release),
        spoof_version: clone_opt(&args.spoof_version),
        enable_adbd: args.enable_adbd,
        adb_debug_prop: clone_opt(&args.adb_debug_prop),
    }
}

/// A kernel to replace excludes an init and a module.
pub fn check_patch_args(args: &BootPatchArgs) -> (r: Result<(), BootImageError>)
    ensures
        r is Ok <==> !(args.kernel is Some && (args.init is Some || args.module is Some)),
        r is Err ==> r == Err::<(), BootImageError>(BootImageError::KernelWithInitOrModule),
{
    check_patch_inputs(args.kernel.is_some(), args.init.is_some(), args.module.is_some())
}

/// The KMI of a patch when the options settle it: the one given, or none
/// at all when a module is supplied; `None` when it must be detected.
pub fn patch_kmi_from_args(args: &BootPatchArgs) -> (r: Option<String>)
    ensures
        match args.kmi {
            Some(k) => r matches Some(s) && s@ == k@,
            None => if args.module is Some {
                r matches Some(s) && s@.len() == 0
            } else {
                r is None
            },
        },
{
    match &args.kmi {
        Some(k) => Some(k.clone()),
        None => {
            if args.module.is_some() {
                Some(String::new())
            } else {
                None
            }
        },
    }
}

/// A patch writes its output file unless it flashed the device found
/// automatically and no output was asked for.
pub fn patch_writes_output(args: &BootPatchArgs) -> (r: bool)
    ensures
        r == (args.boot is Some || !args.flash || args.out_name is Some || args.out is Some),
{
    should_write_output(args.boot.is_some(), args.flash, args.out_name.is_some(), args.out.is_some())
}

/// The same rule for `boot-restore`.
pub fn restore_writes_output(args: &BootRestoreArgs) -> (r: bool)
    ensures
        r == (args.boot is Some || !args.flash || args.out_name is Some || args.out is Some),
{
    should_write_output(args.boot.is_some(), args.flash, args.out_name.is_some(), args.out.is_some())
}

/// The same rule for `boot-patch-rmvr`.
pub fn rmvr_writes_output(args: &VendorBootRmvrArgs) -> (r: bool)
    ensures
        r == (args.boot is Some || !args.flash || args.out_name is Some || args.out is Some),
{
    should_write_output(args.boot.is_some(), args.flash, args.out_name.is_some(), args.out.is_some())
}

} // verus!
