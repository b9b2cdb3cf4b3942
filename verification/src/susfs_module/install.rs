//! The shell commands that write, remove and detect the module.  Running
//! them (through `sh -c`) is left to the caller, one after the other,
//! stopping at the first that fails.
use vstd::prelude::*;

use crate::susfs_config::config_map::ConfigMap;
use crate::susfs_config::module::{load_module_config, loaded_from, ModuleConfig};
use crate::susfs_module::consts::MODULE_PATH;
use crate::susfs_module::scripts::generate::{
    boot_completed, post_fs_data, post_mount, service, spec_boot_completed, spec_post_fs_data, spec_post_mount,
    spec_service,
};
use crate::susfs_module::scripts::prop::{module_prop, MODULE_PROP};
use crate::text::strings_view;

verus! {

/// What an installation command does.
#[derive(Debug, Clone, Copy, PartialEq, Eq, Structural)]
pub enum InstallStep {
    CreateDirectory,
    WriteModuleProp,
    WriteScript,
}

/// One command of the installation: its step, the file or directory it
/// writes, and the text given to `sh -c`.
pub struct InstallCommand {
    pub step: InstallStep,
    pub target: String,
    pub command: String,
}

pub open spec fn command_view(c: InstallCommand) -> (InstallStep, Seq<char>, Seq<char>) {
    (c.step, c.target@, c.command@)
}

pub open spec fn commands_view(v: Seq<InstallCommand>) -> Seq<(InstallStep, Seq<char>, Seq<char>)> {
    v.map_values(|c: InstallCommand| command_view(c))
}

/// `mkdir -p MODULE_PATH`
pub open spec fn create_dir_command() -> Seq<char> {
    "mkdir -p "@ + MODULE_PATH@
}

/// Writes `module.prop` through a quoted here-document.
pub open spec fn write_prop_command() -> Seq<char> {
    "cat > "@ + MODULE_PATH@ + "/module.prop << 'KSUEOF'\n"@ + MODULE_PROP@ + "\nKSUEOF"@
}

/// Writes the script `name` through a quoted here-document and makes it
/// executable.
pub open spec fn write_script_command(name: Seq<char>, content: Seq<char>) -> Seq<char> {
    "cat > '"@ + MODULE_PATH@ + "/"@ + name + "' << 'KSUEOF'\n"@ + content + "\nKSUEOF\nchmod 755 '"@
        + MODULE_PATH@ + "/"@ + name + "'"@
}

/// The four scripts of the module for `c`, by file name.
pub open spec fn spec_module_scripts(c: ModuleConfig) -> Seq<(Seq<char>, Seq<char>)> {
    seq![
        ("service.sh"@, spec_service(
            strings_view(c.sus_paths@),
            strings_view(c.sus_loop_paths@),
            strings_view(c.kstat_configs@),
            strings_view(c.add_kstat_paths@),
            c.cmdline_or_bootconfig_path@,
            c.uname_value@,
            c.build_time_value@,
            c.execute_in_post_fs_data,
            c.enable_log,
            c.enable_hide_bl,
            c.enable_cleanup_residue,
        )),
        ("post-fs-data.sh"@, spec_post_fs_data(
            c.uname_value@,
            c.build_time_value@,
            c.execute_in_post_fs_data,
            c.enable_avc_log_spoofing,
        )),
        ("post-mount.sh"@, spec_post_mount()),
        ("boot-completed.sh"@, spec_boot_completed(
            c.hide_sus_mounts_for_all_procs,
            strings_view(c.sus_paths@),
            strings_view(c.sus_loop_paths@),
            strings_view(c.sus_maps@),
        )),
    ]
}

pub open spec fn script_command(s: (Seq<char>, Seq<char>)) -> (InstallStep, Seq<char>, Seq<char>) {
    (InstallStep::WriteScript, s.0, write_script_command(s.0, s.1))
}

/// The installation commands for `c`, in order: the directory, then
/// `module.prop`, then each script.
pub open spec fn spec_install_commands(c: ModuleConfig) -> Seq<(InstallStep, Seq<char>, Seq<char>)> {
    seq![
        (InstallStep::CreateDirectory, MODULE_PATH@, create_dir_command()),
        (InstallStep::WriteModuleProp, "module.prop"@, write_prop_command()),
    ] + spec_module_scripts(c).map_values(|s: (Seq<char>, Seq<char>)| script_command(s))
}

fn script_command_exec(name: &str, content: &str) -> (r: InstallCommand)
    ensures
        command_view(r) == script_command((name@, content@)),
{
    let mut path = MODULE_PATH.to_owned();
    path.append("/");
    path.append(name);
    let mut c = String::new();
    c.append("cat > '");
    c.append(path.as_str());
    c.append("' << 'KSUEOF'\n");
    c.append(content);
    c.append("\nKSUEOF\nchmod 755 '");
    c.append(path.as_str());
    c.append("'");
    assert(c@ =~= write_script_command(name@, content@));
    InstallCommand { step: InstallStep::WriteScript, target: name.to_owned(), command: c }
}

pub open spec fn pairs_view(v: Seq<(&'static str, String)>) -> Seq<(Seq<char>, Seq<char>)> {
    v.map_values(|p: (&'static str, String)| (p.0@, p.1@))
}

/// The four scripts of the module for `config`, by file name.
pub fn module_scripts(config: &ModuleConfig) -> (r: Vec<(&'static str, String)>)
    ensures
        pairs_view(r@) == spec_module_scripts(*config),
{
    let svc = service(
        config.sus_paths.as_slice(),
        config.sus_loop_paths.as_slice(),
        config.sus_maps.as_slice(),
        config.kstat_configs.as_slice(),
        config.add_kstat_paths.as_slice(),
        config.cmdline_or_bootconfig_path.as_str(),
        config.uname_value.as_str(),
        config.build_time_value.as_str(),
        config.execute_in_post_fs_data,
        config.enable_log,
        config.enable_hide_bl,
        config.enable_cleanup_residue,
    );
    let pfd = post_fs_data(
        config.uname_value.as_str(),
        config.build_time_value.as_str(),
        config.execute_in_post_fs_data,
        config.enable_avc_log_spoofing,
    );
    let pm = post_mount();
    let bc = boot_completed(
        config.hide_sus_mounts_for_all_procs,
        config.sus_paths.as_slice(),
        config.sus_loop_paths.as_slice(),
        config.sus_maps.as_slice(),
    );
    let r = vec![("service.sh", svc), ("post-fs-data.sh", pfd), ("post-mount.sh", pm), ("boot-completed.sh", bc)];
    assert(pairs_view(r@) =~= spec_module_scripts(*config));
    r
}

/// The commands that install the module for `config`.
pub fn install_with_config(config: &ModuleConfig) -> (r: Vec<InstallCommand>)
    ensures
        commands_view(r@) == spec_install_commands(*config),
{
    let mut mkdir = String::new();
    mkdir.append("mkdir -p ");
    mkdir.append(MODULE_PATH);
    let prop = module_prop();
    let mut write_prop = String::new();
    write_prop.append("cat > ");
    write_prop.append(MODULE_PATH);
    write_prop.append("/module.prop << 'KSUEOF'\n");
    write_prop.append(prop.as_str());
    write_prop.append("\nKSUEOF");
    let mut r: Vec<InstallCommand> = Vec::new();
    r.push(InstallCommand { step: InstallStep::CreateDirectory, target: MODULE_PATH.to_owned(), command: mkdir });
    r.push(InstallCommand { step: InstallStep::WriteModuleProp, target: "module.prop".to_owned(), command: write_prop });
    let ghost head = seq![
        (InstallStep::CreateDirectory, MODULE_PATH@, create_dir_command()),
        (InstallStep::WriteModuleProp, "module.prop"@, write_prop_command()),
    ];
    assert(commands_view(r@) =~= head);
    let scripts = module_scripts(config);
    let ghost sv = pairs_view(scripts@);
    let ghost cmds = sv.map_values(|s: (Seq<char>, Seq<char>)| script_command(s));
    let mut i: usize = 0;
    while i < scripts.len()
        invariant
            i <= scripts@.len(),
            sv == pairs_view(scripts@),
            cmds == sv.map_values(|s: (Seq<char>, Seq<char>)| script_command(s)),
            commands_view(r@) == head + cmds.take(i as int),
        decreases scripts@.len() - i,
    {
        let c = script_command_exec(scripts[i].0, scripts[i].1.as_str());
        let ghost before = r@;
        r.push(c);
        assert(sv[i as int] == (scripts@[i as int].0@, scripts@[i as int].1@));
        assert(cmds[i as int] == script_command(sv[i as int]));
        assert(commands_view(r@) =~= commands_view(before).push(cmds[i as int]));
        assert(cmds.take(i + 1) =~= cmds.take(i as int).push(cmds[i as int]));
        assert(commands_view(r@) =~= head + cmds.take(i + 1));
        i = i + 1;
    }
    assert(cmds.take(scripts@.len() as int) =~= cmds);
    r
}

/// The commands that install the module for the saved configuration.
pub fn install_module(config: &ConfigMap) -> (r: Vec<InstallCommand>)
    ensures
        exists|m: ModuleConfig| loaded_from(m, config@) && commands_view(r@) == spec_install_commands(m),
{
    let m = load_module_config(config);
    install_with_config(&m)
}

/// The text of the error reported when the command `step` on `target`
/// fails, with what the shell wrote to standard error.
pub open spec fn spec_install_failure(step: InstallStep, target: Seq<char>, stderr: Seq<char>) -> Seq<char> {
    match step {
        InstallStep::CreateDirectory => "Failed to create module directory"@,
        InstallStep::WriteModuleProp => "Failed to write module.prop"@,
        InstallStep::WriteScript => "Failed to write "@ + target + ": "@ + stderr,
    }
}

/// The error message for a failed installation command.
pub fn install_failure_message(command: &InstallCommand, stderr: &str) -> (r: String)
    ensures
        r@ == spec_install_failure(command.step, command.target@, stderr@),
{
    match command.step {
        InstallStep::CreateDirectory => "Failed to create module directory".to_owned(),
        InstallStep::WriteModuleProp => "Failed to write module.prop".to_owned(),
        InstallStep::WriteScript => {
            let mut s = "Failed to write ".to_owned();
            s.append(command.target.as_str());
            s.append(": ");
            s.append(stderr);
            s
        },
    }
}

/// `rm -rf MODULE_PATH`
pub fn remove_module() -> (r: String)
    ensures
        r@ == "rm -rf "@ + MODULE_PATH@,
{
    let mut s = "rm -rf ".to_owned();
    s.append(MODULE_PATH);
    s
}

/// Prints `yes` when `module.prop` exists, `no` otherwise.
pub fn module_installed_check() -> (r: String)
    ensures
        r@ == "test -f "@ + MODULE_PATH@ + "/module.prop && echo yes || echo no"@,
{
    let mut s = "test -f ".to_owned();
    s.append(MODULE_PATH);
    s.append("/module.prop && echo yes || echo no");
    s
}

/// `yes` occurs in `out` at `i`.
pub open spec fn yes_at(out: Seq<u8>, i: int) -> bool {
    0 <= i && i + 3 <= out.len() && out[i] == 121u8 && out[i + 1] == 101u8 && out[i + 2] == 115u8
}

/// `yes` occurs somewhere in `out`.
pub open spec fn says_yes(out: Seq<u8>) -> bool {
    exists|i: int| yes_at(out, i)
}

fn contains_yes(out: &[u8]) -> (r: bool)
    ensures
        r == says_yes(out@),
{
    let n = out.len();
    let mut i: usize = 0;
    while n >= 3 && i <= n - 3
        invariant
            n == out@.len(),
            i <= n,
            forall|k: int| 0 <= k < i ==> !yes_at(out@, k),
        decreases n - i,
    {
        if out[i] == 121u8 && out[i + 1] == 101u8 && out[i + 2] == 115u8 {
            assert(yes_at(out@, i as int));
            return true;
        }
        i = i + 1;
    }
    assert forall|k: int| !yes_at(out@, k) by {
        if 0 <= k < i {
        }
    }
    false
}

/// Whether the module is installed, from the standard output of the
/// check (`None` when it could not be run): it said `yes`.
pub fn is_module_installed(check_output: Option<&[u8]>) -> (r: bool)
    ensures
        r == match check_output {
            Some(out) => says_yes(out@),
            None => false,
        },
{
    match check_output {
        None => false,
        Some(out) => contains_yes(out),
    }
}

} // verus!
