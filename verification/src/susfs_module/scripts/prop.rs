//! `module.prop` of the generated module.
use vstd::prelude::*;

verus! {

/// The fixed metadata of the SuSFS Manager module; `updateJson=` stays
/// empty because the module is generated on the device.
pub const MODULE_PROP: &'static str = "id=susfs_manager\nname=SuSFS Manager\nversion=v4.0.0\nversionCode=40000\nauthor=ShirkNeko\ndescription=SuSFS Manager Auto Configuration Module (自动生成请不要手动卸载或删除该模块! / Automatically generated Please do not manually uninstall or delete the module!)\nupdateJson=\n";

/// The content of `module.prop`.
pub fn module_prop() -> (r: String)
    ensures
        r@ == MODULE_PROP@,
{
    MODULE_PROP.to_string()
}

} // verus!
