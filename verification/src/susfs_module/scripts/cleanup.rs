//! Removal of files that third-party tools leave behind.
use vstd::prelude::*;

use crate::susfs_module::consts::{escape_single_quotes, escape_single_quotes_exec};
use crate::text::{decimal, decimal_string};

verus! {

/// Start of the cleanup section, up to `TOTAL=`: a log line and the shell
/// helper `cleanup_path PATH DESC CURRENT TOTAL`.
pub const CLEANUP_HEAD: &'static str = "# 清理工具残留文件\necho \"$(get_current_time): 开始清理工具残留\" >> \"$LOG_FILE\"\n\ncleanup_path() {\n    local path=\"$1\"\n    local desc=\"$2\"\n    local current=\"$3\"\n    local total=\"$4\"\n\n    if [ -n \"$desc\" ]; then\n        echo \"$(get_current_time): [$current/$total] 清理: $path ($desc)\" >> \"$LOG_FILE\"\n    else\n        echo \"$(get_current_time): [$current/$total] 清理: $path\" >> \"$LOG_FILE\"\n    fi\n\n    if rm -rf \"$path\" 2>/dev/null; then\n        echo \"$(get_current_time): ✓ 成功清理: $path\" >> \"$LOG_FILE\"\n    else\n        echo \"$(get_current_time): ✗ 清理失败或不存在: $path\" >> \"$LOG_FILE\"\n    fi\n}\n\nTOTAL=";

/// End of the cleanup section.
pub const CLEANUP_TAIL: &'static str = "\necho \"$(get_current_time): 工具残留清理完成\" >> \"$LOG_FILE\"\n\n";

/// The paths removed at boot, each with a description of the tool that
/// leaves it (possibly empty).
pub open spec fn spec_residue_paths() -> Seq<(&'static str, &'static str)> {
    seq![
        ("/data/local/stryker/", "Stryker残留"),
        ("/data/system/AppRetention", "AppRetention残留"),
        ("/data/local/tmp/luckys", "Luck Tool残留"),
        ("/data/local/tmp/HyperCeiler", "西米露残留"),
        ("/data/local/tmp/simpleHook", "simple Hook残留"),
        ("/data/local/tmp/DisabledAllGoogleServices", "谷歌省电模块残留"),
        ("/data/local/MIO", "解包软件"),
        ("/data/DNA", "解包软件"),
        ("/data/local/tmp/cleaner_starter", "质感清理残留"),
        ("/data/local/tmp/byyang", ""),
        ("/data/local/tmp/mount_mask", ""),
        ("/data/local/tmp/mount_mark", ""),
        ("/data/local/tmp/scriptTMP", ""),
        ("/data/local/luckys", ""),
        ("/data/local/tmp/horae_control.log", ""),
        ("/data/gpu_freq_table.conf", ""),
        ("/storage/emulated/0/Download/advanced/", ""),
        ("/storage/emulated/0/Documents/advanced/", "爱玩机"),
        ("/storage/emulated/0/Android/naki/", "旧版asoulopt"),
        ("/data/swap_config.conf", "scene附加模块2"),
        ("/data/local/tmp/resetprop", ""),
        ("/dev/cpuset/AppOpt/", "AppOpt模块"),
        ("/storage/emulated/0/Android/Clash/", "Clash for Magisk模块"),
        ("/storage/emulated/0/Android/Yume-Yunyun/", "网易云后台优化模块"),
        ("/data/local/tmp/Surfing_update", "Surfing模块缓存"),
        ("/data/encore/custom_default_cpu_gov", "encore模块"),
        ("/data/encore/default_cpu_gov", "encore模块"),
        ("/data/local/tmp/yshell", ""),
        ("/data/local/tmp/encore_logo.png", ""),
        ("/storage/emulated/0/legacy/", ""),
        ("/storage/emulated/0/elgg/", ""),
        ("/data/system/junge/", ""),
        ("/data/local/tmp/mount_namespace", "挂载命名空间残留")
    ]
}

/// The paths removed at boot, with their descriptions.
pub fn residue_paths() -> (r: Vec<(&'static str, &'static str)>)
    ensures
        r@ == spec_residue_paths(),
{
    let r = vec![
        ("/data/local/stryker/", "Stryker残留"),
        ("/data/system/AppRetention", "AppRetention残留"),
        ("/data/local/tmp/luckys", "Luck Tool残留"),
        ("/data/local/tmp/HyperCeiler", "西米露残留"),
        ("/data/local/tmp/simpleHook", "simple Hook残留"),
        ("/data/local/tmp/DisabledAllGoogleServices", "谷歌省电模块残留"),
        ("/data/local/MIO", "解包软件"),
        ("/data/DNA", "解包软件"),
        ("/data/local/tmp/cleaner_starter", "质感清理残留"),
        ("/data/local/tmp/byyang", ""),
        ("/data/local/tmp/mount_mask", ""),
        ("/data/local/tmp/mount_mark", ""),
        ("/data/local/tmp/scriptTMP", ""),
        ("/data/local/luckys", ""),
        ("/data/local/tmp/horae_control.log", ""),
        ("/data/gpu_freq_table.conf", ""),
        ("/storage/emulated/0/Download/advanced/", ""),
        ("/storage/emulated/0/Documents/advanced/", "爱玩机"),
        ("/storage/emulated/0/Android/naki/", "旧版asoulopt"),
        ("/data/swap_config.conf", "scene附加模块2"),
        ("/data/local/tmp/resetprop", ""),
        ("/dev/cpuset/AppOpt/", "AppOpt模块"),
        ("/storage/emulated/0/Android/Clash/", "Clash for Magisk模块"),
        ("/storage/emulated/0/Android/Yume-Yunyun/", "网易云后台优化模块"),
        ("/data/local/tmp/Surfing_update", "Surfing模块缓存"),
        ("/data/encore/custom_default_cpu_gov", "encore模块"),
        ("/data/encore/default_cpu_gov", "encore模块"),
        ("/data/local/tmp/yshell", ""),
        ("/data/local/tmp/encore_logo.png", ""),
        ("/storage/emulated/0/legacy/", ""),
        ("/storage/emulated/0/elgg/", ""),
        ("/data/system/junge/", ""),
        ("/data/local/tmp/mount_namespace", "挂载命名空间残留")
    ];
    assert(r@ =~= spec_residue_paths());
    r
}

/// `cleanup_path 'PATH' 'DESC' N $TOTAL`
pub open spec fn cleanup_entry(path: Seq<char>, desc: Seq<char>, n: nat) -> Seq<char> {
    "cleanup_path '"@ + escape_single_quotes(path) + "' '"@ + escape_single_quotes(desc) + "' "@ + decimal(n)
        + " $TOTAL\n"@
}

/// One `cleanup_path` line per entry, numbered from 1.
pub open spec fn cleanup_entries(list: Seq<(&'static str, &'static str)>) -> Seq<char>
    decreases list.len(),
{
    if list.len() == 0 {
        Seq::empty()
    } else {
        cleanup_entries(list.drop_last()) + cleanup_entry(list.last().0@, list.last().1@, list.len())
    }
}

/// The whole cleanup section.
pub open spec fn spec_cleanup_residue_section() -> Seq<char> {
    let list = spec_residue_paths();
    CLEANUP_HEAD@ + decimal(list.len()) + "\n\n"@ + cleanup_entries(list) + CLEANUP_TAIL@
}

/// The cleanup section of `service.sh`: the helper, then one call per
/// residue path, numbered `[n/TOTAL]` in the log.
#[verifier::spinoff_prover]
pub fn cleanup_residue_section() -> (r: String)
    ensures
        r@ == spec_cleanup_residue_section(),
{
    let list = residue_paths();
    let total = list.len();
    let mut s = String::new();
    s.append(CLEANUP_HEAD);
    let t = decimal_string(total);
    s.append(t.as_str());
    s.append("\n\n");
    let ghost head = s@;
    let ghost entries = list@;
    let mut i: usize = 0;
    while i < total
        invariant
            total == list@.len(),
            list@ == entries,
            i <= total,
            s@ == head + cleanup_entries(list@.take(i as int)),
        decreases total - i,
    {
        let (path, desc) = list[i];
        s.append("cleanup_path '");
        let p = escape_single_quotes_exec(path);
        s.append(p.as_str());
        s.append("' '");
        let d = escape_single_quotes_exec(desc);
        s.append(d.as_str());
        s.append("' ");
        let n = decimal_string(i + 1);
        s.append(n.as_str());
        s.append(" $TOTAL\n");
        proof {
            let t = list@.take(i + 1);
            assert(t.drop_last() =~= list@.take(i as int));
            assert(t.last() == list@[i as int]);
        }
        i = i + 1;
    }
    assert(list@.take(total as int) =~= list@);
    s.append(CLEANUP_TAIL);
    s
}

} // verus!
