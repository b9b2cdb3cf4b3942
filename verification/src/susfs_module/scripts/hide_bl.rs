//! Hiding the unlocked bootloader: helper functions taken from Shamiko's
//! script, then the `resetprop` calls that use them.
use vstd::prelude::*;

verus! {

/// Shell helpers (`check_reset_prop`, `check_missing_prop`, ...) defined
/// once before any property is changed.
pub const HIDE_BL_SECTION: &'static str = "# 隐藏BL 来自 Shamiko 脚本\nRESETPROP_BIN=\"/data/adb/ksu/bin/resetprop\"\n\ncheck_reset_prop() {\n    local NAME=$1\n    local EXPECTED=$2\n    local VALUE=$(\"$RESETPROP_BIN\" $NAME)\n    [ -z $VALUE ] || [ $VALUE = $EXPECTED ] || \"$RESETPROP_BIN\" $NAME $EXPECTED\n}\n\ncheck_missing_prop() {\n    local NAME=$1\n    local EXPECTED=$2\n    local VALUE=$(\"$RESETPROP_BIN\" $NAME)\n    [ -z $VALUE ] && \"$RESETPROP_BIN\" $NAME $EXPECTED\n}\n\ncheck_missing_match_prop() {\n    local NAME=$1\n    local EXPECTED=$2\n    local VALUE=$(\"$RESETPROP_BIN\" $NAME)\n    [ -z $VALUE ] || [ $VALUE = $EXPECTED ] || \"$RESETPROP_BIN\" $NAME $EXPECTED\n    [ -z $VALUE ] && \"$RESETPROP_BIN\" $NAME $EXPECTED\n}\n\ncontains_reset_prop() {\n    local NAME=$1\n    local CONTAINS=$2\n    local NEWVAL=$3\n    case \"$(\"$RESETPROP_BIN\" $NAME)\" in\n        *\"$CONTAINS\"*) \"$RESETPROP_BIN\" $NAME $NEWVAL ;;\n    esac\n}\n";

/// The `resetprop` calls run 30 seconds after boot, which make the
/// verified-boot and debug properties read as on a locked device.
pub const HIDE_BL_PROPS: &'static str = "sleep 30\n\"$RESETPROP_BIN\" -w sys.boot_completed 0\ncheck_missing_prop \"ro.boot.vbmeta.invalidate_on_error\" \"yes\"\ncheck_missing_match_prop \"ro.boot.vbmeta.avb_version\" \"1.2\"\ncheck_missing_match_prop \"ro.boot.vbmeta.hash_alg\" \"sha256\"\ncheck_missing_prop \"ro.boot.vbmeta.size\" \"19968\"\ncheck_missing_match_prop \"ro.boot.vbmeta.device_state\" \"locked\"\ncheck_missing_match_prop \"ro.boot.verifiedbootstate\" \"green\"\ncheck_reset_prop \"ro.boot.flash.locked\" \"1\"\ncheck_reset_prop \"ro.boot.veritymode\" \"enforcing\"\ncheck_reset_prop \"ro.boot.warranty_bit\" \"0\"\ncheck_reset_prop \"ro.warranty_bit\" \"0\"\ncheck_reset_prop \"ro.debuggable\" \"0\"\ncheck_reset_prop \"ro.force.debuggable\" \"0\"\ncheck_reset_prop \"ro.secure\" \"1\"\ncheck_reset_prop \"ro.adb.secure\" \"1\"\ncheck_reset_prop \"ro.build.type\" \"user\"\ncheck_reset_prop \"ro.build.tags\" \"release-keys\"\ncheck_reset_prop \"ro.vendor.boot.warranty_bit\" \"0\"\ncheck_reset_prop \"ro.vendor.warranty_bit\" \"0\"\ncheck_missing_match_prop \"vendor.boot.vbmeta.device_state\" \"locked\"\ncheck_missing_match_prop \"vendor.boot.verifiedbootstate\" \"green\"\ncheck_reset_prop \"sys.oem_unlock_allowed\" \"0\"\ncheck_reset_prop \"ro.secureboot.lockstate\" \"locked\"\ncheck_missing_match_prop \"ro.boot.realmebootstate\" \"green\"\ncheck_reset_prop \"ro.boot.realme.lockstate\" \"1\"\ncheck_reset_prop \"ro.crypto.state\" \"encrypted\"\n# Hide adb debugging traces\nresetprop \"sys.usb.adb.disabled\" \" \"\n# Hide recovery boot mode\ncontains_reset_prop \"ro.bootmode\" \"recovery\" \"unknown\"\ncontains_reset_prop \"ro.boot.bootmode\" \"recovery\" \"unknown\"\ncontains_reset_prop \"vendor.boot.bootmode\" \"recovery\" \"unknown\"\n# Hide cloudphone detection\n[ -n \"$(resetprop ro.kernel.qemu)\" ] && resetprop ro.kernel.qemu \"\"\n";

/// The helper-function definitions.
pub fn hide_bl_section() -> (r: String)
    ensures
        r@ == HIDE_BL_SECTION@,
{
    HIDE_BL_SECTION.to_string()
}

/// The property overrides.
pub fn hide_bl_props() -> (r: String)
    ensures
        r@ == HIDE_BL_PROPS@,
{
    HIDE_BL_PROPS.to_string()
}

} // verus!
