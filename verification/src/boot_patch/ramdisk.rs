//! Ramdisk edits as a list of CPIO operations: installing KernelSU,
//! removing it again, and removing vendor kernel modules.
use vstd::prelude::*;
use vstd::utf8::encode_utf8;

use crate::boot_patch::ksu_config::{
    apply_config, apply_spoof_config, ksu_config_data, read_ksu_config, spec_apply_config,
    spec_apply_spoof_config, spec_parse_ksu_config,
};
use crate::boot_patch::modules::{
    is_supported_module_index, is_target_module_path, normalized_cpio_path, rewrite_module_index,
    spec_is_supported_module_index, spec_is_target_module_path, spec_normalized_cpio_path,
    spec_rewrite_module_index, ModuleIndexError, VendorModuleCleanupReport,
};
use crate::text::{join_with, starts_with, strings_view};

verus! {

/// Where the data of an added entry comes from.
#[derive(Debug)]
pub enum CpioData {
    /// the KernelSU init binary
    KsuInit,
    /// the KernelSU kernel module
    KernelsuKo,
    /// the vivo fallback kernel module
    KernelsuVivoKo,
    /// these bytes
    Bytes(Vec<u8>),
}

/// One change to a CPIO archive.
#[derive(Debug)]
pub enum CpioOp {
    /// rename an entry
    Move(String, String),
    /// add (or replace) a regular file with this mode
    Add(String, u32, CpioData),
    /// remove an entry if present
    Remove(String),
}

pub enum DataSpec {
    KsuInit,
    KernelsuKo,
    KernelsuVivoKo,
    Bytes(Seq<u8>),
}

pub enum OpSpec {
    Move(Seq<char>, Seq<char>),
    Add(Seq<char>, u32, DataSpec),
    Remove(Seq<char>),
}

pub open spec fn data_view(d: CpioData) -> DataSpec {
    match d {
        CpioData::KsuInit => DataSpec::KsuInit,
        CpioData::KernelsuKo => DataSpec::KernelsuKo,
        CpioData::KernelsuVivoKo => DataSpec::KernelsuVivoKo,
        CpioData::Bytes(b) => DataSpec::Bytes(b@),
    }
}

pub open spec fn op_view(op: CpioOp) -> OpSpec {
    match op {
        CpioOp::Move(a, b) => OpSpec::Move(a@, b@),
        CpioOp::Add(p, m, d) => OpSpec::Add(p@, m, data_view(d)),
        CpioOp::Remove(p) => OpSpec::Remove(p@),
    }
}

pub open spec fn ops_view(ops: Seq<CpioOp>) -> Seq<OpSpec> {
    ops.map_values(|o: CpioOp| op_view(o))
}

/// Why a ramdisk cannot be edited.
#[derive(Debug, PartialEq, Eq)]
pub enum RamdiskError {
    /// the ramdisk was patched by Magisk
    MagiskPatched,
    /// the ramdisk holds no KernelSU module
    NotPatchedByKernelSu,
    /// a module or index path is not in canonical form
    NonCanonicalPath(String),
    /// a module index is not UTF-8 text
    IndexNotUtf8(String),
}

/// What the patch reads from the ramdisk before editing it.
pub struct RamdiskState {
    pub has_kernelsu_ko: bool,
    pub has_init: bool,
    pub has_init_real: bool,
    pub magisk_patched: bool,
    pub ksu_config: Option<Vec<u8>>,
    pub has_force_debuggable: bool,
    pub has_adb_debug_prop: bool,
}

/// The patch options that affect the ramdisk.
pub struct RamdiskPatchOptions {
    /// only update the settings, do not (re)install KernelSU
    pub no_install: bool,
    /// a vivo fallback module is available
    pub has_vivo_module: bool,
    pub no_custom_rc: bool,
    pub allow_shell: bool,
    pub spoof_release: Option<String>,
    pub spoof_version: Option<String>,
    pub enable_adbd: bool,
    pub adb_debug_prop: Option<String>,
}

pub open spec fn opt_view(o: Option<String>) -> Option<Seq<char>> {
    match o {
        Some(s) => Some(s@),
        None => None,
    }
}

pub open spec fn opt_bytes(o: Option<Vec<u8>>) -> Option<Seq<u8>> {
    match o {
        Some(b) => Some(b@),
        None => None,
    }
}

/// The `ksu_config` settings after the patch options are applied.
pub open spec fn spec_patched_config(state: RamdiskState, opts: RamdiskPatchOptions) -> Seq<Seq<char>> {
    let c0 = spec_parse_ksu_config(opt_bytes(state.ksu_config));
    let c1 = spec_apply_config(c0, "norc=1"@, opts.no_custom_rc);
    let c2 = spec_apply_config(c1, "allow_shell=1"@, opts.allow_shell);
    let c3 = spec_apply_spoof_config(c2, "spoof_release"@, opt_view(opts.spoof_release));
    spec_apply_spoof_config(c3, "spoof_version"@, opt_view(opts.spoof_version))
}

pub open spec fn spec_install_ops(state: RamdiskState, opts: RamdiskPatchOptions) -> Seq<OpSpec> {
    if opts.no_install {
        Seq::empty()
    } else {
        (if !state.has_kernelsu_ko && state.has_init {
            seq![OpSpec::Move("init"@, "init.real"@)]
        } else {
            Seq::empty()
        }) + seq![
            OpSpec::Add("init"@, 0o755, DataSpec::KsuInit),
            OpSpec::Add("kernelsu.ko"@, 0o755, DataSpec::KernelsuKo),
        ] + (if opts.has_vivo_module {
            seq![OpSpec::Add("kernelsu_vivo.ko"@, 0o755, DataSpec::KernelsuVivoKo)]
        } else {
            seq![OpSpec::Remove("kernelsu_vivo.ko"@)]
        })
    }
}

pub open spec fn spec_config_op(config: Seq<Seq<char>>) -> OpSpec {
    if config.len() == 0 {
        OpSpec::Remove("ksu_config"@)
    } else {
        OpSpec::Add("ksu_config"@, 0o644, DataSpec::Bytes(encode_utf8(join_with(config, seq![' ']))))
    }
}

pub open spec fn adbd_props() -> Seq<char> {
    "ro.debuggable=1\nro.force.debuggable=1\nro.adb.secure=0\n"@
}

pub open spec fn spec_adb_ops(state: RamdiskState, opts: RamdiskPatchOptions) -> Seq<OpSpec> {
    if opts.enable_adbd || opts.adb_debug_prop is Some {
        let prop = (if opts.enable_adbd { encode_utf8(adbd_props()) } else { Seq::empty() }) + match opts.adb_debug_prop {
            Some(extra) => encode_utf8(extra@),
            None => Seq::empty(),
        };
        seq![
            OpSpec::Add("force_debuggable"@, 0o644, DataSpec::Bytes(Seq::empty())),
            OpSpec::Add("adb_debug.prop"@, 0o644, DataSpec::Bytes(prop)),
        ]
    } else {
        (if state.has_force_debuggable {
            seq![OpSpec::Remove("force_debuggable"@)]
        } else {
            Seq::empty()
        }) + (if state.has_adb_debug_prop {
            seq![OpSpec::Remove("adb_debug.prop"@)]
        } else {
            Seq::empty()
        })
    }
}

/// The ramdisk edits of `boot-patch`, in order.
pub open spec fn spec_plan_patch(state: RamdiskState, opts: RamdiskPatchOptions) -> Result<Seq<OpSpec>, RamdiskError> {
    if !opts.no_install && state.magisk_patched {
        Err(RamdiskError::MagiskPatched)
    } else {
        Ok(spec_install_ops(state, opts) + seq![spec_config_op(spec_patched_config(state, opts))] + seq![
            OpSpec::Remove("allow_shell"@),
            OpSpec::Remove("ksu_spoof_release"@),
            OpSpec::Remove("ksu_spoof_version"@),
        ] + spec_adb_ops(state, opts))
    }
}

fn push_op(ops: &mut Vec<CpioOp>, op: CpioOp)
    ensures
        ops_view(final(ops)@) == ops_view(old(ops)@).push(op_view(op)),
{
    let ghost old_ops = ops@;
    ops.push(op);
    assert(ops_view(ops@) =~= ops_view(old_ops).push(op_view(op)));
}

fn opt_str(o: &Option<String>) -> (r: Option<&str>)
    ensures
        match r {
            Some(s) => opt_view(*o) == Some(s@),
            None => o is None,
        },
{
    match o {
        Some(s) => Some(s.as_str()),
        None => None,
    }
}

fn install_ops(state: &RamdiskState, opts: &RamdiskPatchOptions) -> (r: Vec<CpioOp>)
    ensures
        ops_view(r@) == spec_install_ops(*state, *opts),
{
    let mut ops: Vec<CpioOp> = Vec::new();
    assert(ops_view(ops@) =~= Seq::<OpSpec>::empty());
    if !opts.no_install {
        if !state.has_kernelsu_ko && state.has_init {
            push_op(&mut ops, CpioOp::Move("init".to_owned(), "init.real".to_owned()));
        }
        push_op(&mut ops, CpioOp::Add("init".to_owned(), 0o755, CpioData::KsuInit));
        push_op(&mut ops, CpioOp::Add("kernelsu.ko".to_owned(), 0o755, CpioData::KernelsuKo));
        if opts.has_vivo_module {
            push_op(&mut ops, CpioOp::Add("kernelsu_vivo.ko".to_owned(), 0o755, CpioData::KernelsuVivoKo));
        } else {
            push_op(&mut ops, CpioOp::Remove("kernelsu_vivo.ko".to_owned()));
        }
    }
    assert(ops_view(ops@) =~= spec_install_ops(*state, *opts));
    ops
}

/// The `ksu_config` settings after applying the options.
fn patched_config(state: &RamdiskState, opts: &RamdiskPatchOptions) -> (r: Vec<String>)
    ensures
        strings_view(r@) == spec_patched_config(*state, *opts),
{
    let data = match &state.ksu_config {
        Some(d) => Some(d.as_slice()),
        None => None,
    };
    let mut config = read_ksu_config(data);
    assert(opt_bytes(state.ksu_config) == match data {
        Some(d) => Some(d@),
        None => None::<Seq<u8>>,
    });
    apply_config(&mut config, "norc=1", opts.no_custom_rc);
    apply_config(&mut config, "allow_shell=1", opts.allow_shell);
    apply_spoof_config(&mut config, "spoof_release", opt_str(&opts.spoof_release));
    apply_spoof_config(&mut config, "spoof_version", opt_str(&opts.spoof_version));
    config
}

fn adb_ops(state: &RamdiskState, opts: &RamdiskPatchOptions) -> (r: Vec<CpioOp>)
    ensures
        ops_view(r@) == spec_adb_ops(*state, *opts),
{
    let mut ops: Vec<CpioOp> = Vec::new();
    assert(ops_view(ops@) =~= Seq::<OpSpec>::empty());
    if opts.enable_adbd || opts.adb_debug_prop.is_some() {
        push_op(&mut ops, CpioOp::Add("force_debuggable".to_owned(), 0o644, CpioData::Bytes(Vec::new())));
        let mut prop: Vec<u8> = Vec::new();
        if opts.enable_adbd {
            let mut p = vstd::slice::slice_to_vec("ro.debuggable=1\nro.force.debuggable=1\nro.adb.secure=0\n".as_bytes());
            prop.append(&mut p);
        }
        if let Some(extra) = &opts.adb_debug_prop {
            let mut p = vstd::slice::slice_to_vec(extra.as_str().as_bytes());
            prop.append(&mut p);
        }
        push_op(&mut ops, CpioOp::Add("adb_debug.prop".to_owned(), 0o644, CpioData::Bytes(prop)));
    } else {
        if state.has_force_debuggable {
            push_op(&mut ops, CpioOp::Remove("force_debuggable".to_owned()));
        }
        if state.has_adb_debug_prop {
            push_op(&mut ops, CpioOp::Remove("adb_debug.prop".to_owned()));
        }
    }
    assert(ops_view(ops@) =~= spec_adb_ops(*state, *opts));
    ops
}

fn append_ops(ops: &mut Vec<CpioOp>, more: Vec<CpioOp>)
    ensures
        ops_view(final(ops)@) == ops_view(old(ops)@) + ops_view(more@),
{
    let mut m = more;
    let ghost mv = m@;
    let ghost old_ops = ops@;
    ops.append(&mut m);
    assert(ops_view(ops@) =~= ops_view(old_ops) + ops_view(mv));
}

/// The ramdisk edits that install KernelSU and apply the settings of
/// `opts`; refused on a Magisk-patched ramdisk unless nothing is
/// installed.
pub fn plan_patch_ramdisk(state: &RamdiskState, opts: &RamdiskPatchOptions) -> (r: Result<Vec<CpioOp>, RamdiskError>)
    ensures
        match spec_plan_patch(*state, *opts) {
            Err(e) => r == Err::<Vec<CpioOp>, RamdiskError>(e),
            Ok(ops) => r matches Ok(v) && ops_view(v@) == ops,
        },
{
    if !opts.no_install && state.magisk_patched {
        return Err(RamdiskError::MagiskPatched);
    }
    let mut ops = install_ops(state, opts);
    let config = patched_config(state, opts);
    match ksu_config_data(&config) {
        None => push_op(&mut ops, CpioOp::Remove("ksu_config".to_owned())),
        Some(b) => push_op(&mut ops, CpioOp::Add("ksu_config".to_owned(), 0o644, CpioData::Bytes(b))),
    }
    push_op(&mut ops, CpioOp::Remove("allow_shell".to_owned()));
    push_op(&mut ops, CpioOp::Remove("ksu_spoof_release".to_owned()));
    push_op(&mut ops, CpioOp::Remove("ksu_spoof_version".to_owned()));
    append_ops(&mut ops, adb_ops(state, opts));
    assert(ops_view(ops@) =~= spec_plan_patch(*state, *opts)->Ok_0);
    Ok(ops)
}

/// The ramdisk edits of `boot-restore` when no stock image is used:
/// drop the KernelSU modules and put the original init back.
pub open spec fn spec_plan_remove_ksu(state: RamdiskState) -> Result<Seq<OpSpec>, RamdiskError> {
    if !state.has_kernelsu_ko {
        Err(RamdiskError::NotPatchedByKernelSu)
    } else {
        Ok(seq![OpSpec::Remove("kernelsu.ko"@), OpSpec::Remove("kernelsu_vivo.ko"@)] + (if state.has_init_real {
            seq![OpSpec::Move("init.real"@, "init"@)]
        } else {
            Seq::empty()
        }))
    }
}

pub fn plan_remove_ksu(state: &RamdiskState) -> (r: Result<Vec<CpioOp>, RamdiskError>)
    ensures
        match spec_plan_remove_ksu(*state) {
            Err(e) => r == Err::<Vec<CpioOp>, RamdiskError>(e),
            Ok(ops) => r matches Ok(v) && ops_view(v@) == ops,
        },
{
    if !state.has_kernelsu_ko {
        return Err(RamdiskError::NotPatchedByKernelSu);
    }
    let mut ops: Vec<CpioOp> = Vec::new();
    push_op(&mut ops, CpioOp::Remove("kernelsu.ko".to_owned()));
    push_op(&mut ops, CpioOp::Remove("kernelsu_vivo.ko".to_owned()));
    if state.has_init_real {
        push_op(&mut ops, CpioOp::Move("init.real".to_owned(), "init".to_owned()));
    }
    assert(ops_view(ops@) =~= spec_plan_remove_ksu(*state)->Ok_0);
    Ok(ops)
}

} // verus!

verus! {

/// A ramdisk entry as the vendor-module cleanup sees it.
pub struct RamdiskFile {
    pub path: String,
    /// the contents of a regular file
    pub data: Option<Vec<u8>>,
}

pub enum RamdiskErrorSpec {
    MagiskPatched,
    NotPatchedByKernelSu,
    NonCanonicalPath(Seq<char>),
    IndexNotUtf8(Seq<char>),
}

pub open spec fn err_view(e: RamdiskError) -> RamdiskErrorSpec {
    match e {
        RamdiskError::MagiskPatched => RamdiskErrorSpec::MagiskPatched,
        RamdiskError::NotPatchedByKernelSu => RamdiskErrorSpec::NotPatchedByKernelSu,
        RamdiskError::NonCanonicalPath(p) => RamdiskErrorSpec::NonCanonicalPath(p@),
        RamdiskError::IndexNotUtf8(p) => RamdiskErrorSpec::IndexNotUtf8(p@),
    }
}

pub type FileSpec = (Seq<char>, Option<Seq<u8>>);

pub open spec fn files_view(fs: Seq<RamdiskFile>) -> Seq<FileSpec> {
    fs.map_values(|f: RamdiskFile| (f.path@, opt_bytes(f.data)))
}

/// The modules that `rmvr` removes.
pub open spec fn default_targets() -> Seq<Seq<char>> {
    seq!["vr"@, "vklp"@]
}

pub open spec fn prepend_ops(d: Seq<OpSpec>, r: Result<Seq<OpSpec>, RamdiskErrorSpec>) -> Result<Seq<OpSpec>, RamdiskErrorSpec> {
    match r {
        Ok(rest) => Ok(d + rest),
        Err(e) => Err(e),
    }
}

/// Removal of the target module files, in entry order; the first
/// non-canonical module path is an error.
pub open spec fn module_pass(fs: Seq<FileSpec>, t: Seq<Seq<char>>) -> Result<Seq<OpSpec>, RamdiskErrorSpec>
    decreases fs.len(),
{
    if fs.len() == 0 {
        Ok(Seq::empty())
    } else {
        let p = fs[0].0;
        if spec_is_target_module_path(p, t) {
            if p != spec_normalized_cpio_path(p) {
                Err(RamdiskErrorSpec::NonCanonicalPath(p))
            } else {
                prepend_ops(seq![OpSpec::Remove(p)], module_pass(fs.drop_first(), t))
            }
        } else {
            module_pass(fs.drop_first(), t)
        }
    }
}

/// Rewriting of the module index files, in entry order.
pub open spec fn index_pass(fs: Seq<FileSpec>, t: Seq<Seq<char>>) -> Result<Seq<OpSpec>, RamdiskErrorSpec>
    decreases fs.len(),
{
    if fs.len() == 0 {
        Ok(Seq::empty())
    } else {
        let p = fs[0].0;
        if spec_is_supported_module_index(p) {
            if p != spec_normalized_cpio_path(p) {
                Err(RamdiskErrorSpec::NonCanonicalPath(p))
            } else {
                let data = match fs[0].1 {
                    Some(d) => d,
                    None => Seq::empty(),
                };
                match spec_rewrite_module_index(p, data, t) {
                    Err(_) => Err(RamdiskErrorSpec::IndexNotUtf8(p)),
                    Ok(None) => index_pass(fs.drop_first(), t),
                    Ok(Some(b)) => prepend_ops(
                        seq![OpSpec::Remove(p), OpSpec::Add(p, 0o644, DataSpec::Bytes(b))],
                        index_pass(fs.drop_first(), t),
                    ),
                }
            }
        } else {
            index_pass(fs.drop_first(), t)
        }
    }
}

proof fn lemma_prepend_assoc(a: Seq<OpSpec>, b: Seq<OpSpec>, r: Result<Seq<OpSpec>, RamdiskErrorSpec>)
    ensures
        prepend_ops(a, prepend_ops(b, r)) == prepend_ops(a + b, r),
{
    match r {
        Ok(rest) => {
            assert(a + (b + rest) =~= (a + b) + rest);
        },
        Err(_) => {},
    }
}

fn canonical(path: &String) -> (r: bool)
    ensures
        r == (path@ == spec_normalized_cpio_path(path@)),
{
    let n = normalized_cpio_path(path.as_str());
    n == *path
}

fn default_target_names() -> (r: Vec<String>)
    ensures
        strings_view(r@) == default_targets(),
{
    let r = vec!["vr".to_owned(), "vklp".to_owned()];
    assert(strings_view(r@) =~= default_targets());
    r
}

/// Remove the `vr` and `vklp` vendor modules: the edits that delete their
/// files and rewrite the module indexes that mention them, with counts.
pub fn remove_vendor_modules(files: &[RamdiskFile]) -> (r: Result<(Vec<CpioOp>, VendorModuleCleanupReport), RamdiskError>)
    ensures
        match module_pass(files_view(files@), default_targets()) {
            Err(e) => r matches Err(e2) && err_view(e2) == e,
            Ok(m) => match index_pass(files_view(files@), default_targets()) {
                Err(e) => r matches Err(e2) && err_view(e2) == e,
                Ok(ix) => r matches Ok((ops, report)) && ops_view(ops@) == m + ix
                    && report.removed_modules == m.len() && 2 * report.updated_indexes == ix.len(),
            },
        },
{
    let targets = default_target_names();
    let ghost t = default_targets();
    let ghost fv = files_view(files@);
    let n = files.len();
    let mut ops: Vec<CpioOp> = Vec::new();
    let mut removed: usize = 0;
    let mut i: usize = 0;
    assert(fv.skip(0) =~= fv);
    assert(ops_view(ops@) =~= Seq::<OpSpec>::empty());
    while i < n
        invariant
            n == files@.len(),
            i <= n,
            fv == files_view(files@),
            strings_view(targets@) == t,
            t == default_targets(),
            module_pass(fv, t) == prepend_ops(ops_view(ops@), module_pass(fv.skip(i as int), t)),
            removed == ops_view(ops@).len(),
            removed <= i,
        decreases n - i,
    {
        let f = &files[i];
        proof {
            assert(fv.skip(i as int)[0] == fv[i as int]);
            assert(fv[i as int].0 == f.path@);
            assert(fv.skip(i as int).drop_first() =~= fv.skip(i + 1));
        }
        if is_target_module_path(f.path.as_str(), targets.as_slice()) {
            if !canonical(&f.path) {
                return Err(RamdiskError::NonCanonicalPath(f.path.clone()));
            }
            let ghost before = ops_view(ops@);
            push_op(&mut ops, CpioOp::Remove(f.path.clone()));
            proof {
                lemma_prepend_assoc(before, seq![OpSpec::Remove(f.path@)], module_pass(fv.skip(i + 1), t));
                assert(before.push(OpSpec::Remove(f.path@)) =~= before + seq![OpSpec::Remove(f.path@)]);
            }
            removed = removed + 1;
        }
        i = i + 1;
    }
    let ghost m = ops_view(ops@);
    proof {
        assert(fv.skip(n as int) =~= Seq::<FileSpec>::empty());
        assert(m + Seq::<OpSpec>::empty() =~= m);
    }
    let mut ixops: Vec<CpioOp> = Vec::new();
    let mut updated: usize = 0;
    let mut i: usize = 0;
    assert(ops_view(ixops@) =~= Seq::<OpSpec>::empty());
    while i < n
        invariant
            n == files@.len(),
            i <= n,
            fv == files_view(files@),
            strings_view(targets@) == t,
            t == default_targets(),
            index_pass(fv, t) == prepend_ops(ops_view(ixops@), index_pass(fv.skip(i as int), t)),
            module_pass(fv, t) == Ok::<Seq<OpSpec>, RamdiskErrorSpec>(m),
            2 * updated == ops_view(ixops@).len(),
            updated <= i,
        decreases n - i,
    {
        let f = &files[i];
        proof {
            assert(fv.skip(i as int)[0] == fv[i as int]);
            assert(fv[i as int].0 == f.path@);
            assert(fv[i as int].1 == opt_bytes(f.data));
            assert(fv.skip(i as int).drop_first() =~= fv.skip(i + 1));
        }
        if is_supported_module_index(f.path.as_str()) {
            if !canonical(&f.path) {
                return Err(RamdiskError::NonCanonicalPath(f.path.clone()));
            }
            let empty: Vec<u8> = Vec::new();
            let data: &[u8] = match &f.data {
                Some(d) => d.as_slice(),
                None => empty.as_slice(),
            };
            match rewrite_module_index(f.path.as_str(), data, targets.as_slice()) {
                Err(_) => {
                    return Err(RamdiskError::IndexNotUtf8(f.path.clone()));
                },
                Ok(None) => {},
                Ok(Some(b)) => {
                    let ghost before = ops_view(ixops@);
                    let ghost two = seq![OpSpec::Remove(f.path@), OpSpec::Add(f.path@, 0o644, DataSpec::Bytes(b@))];
                    push_op(&mut ixops, CpioOp::Remove(f.path.clone()));
                    push_op(&mut ixops, CpioOp::Add(f.path.clone(), 0o644, CpioData::Bytes(b)));
                    proof {
                        lemma_prepend_assoc(before, two, index_pass(fv.skip(i + 1), t));
                        assert(ops_view(ixops@) =~= before + two);
                    }
                    updated = updated + 1;
                },
            }
        }
        i = i + 1;
    }
    proof {
        assert(fv.skip(n as int) =~= Seq::<FileSpec>::empty());
        assert(ops_view(ixops@) + Seq::<OpSpec>::empty() =~= ops_view(ixops@));
    }
    let ghost ix = ops_view(ixops@);
    append_ops(&mut ops, ixops);
    Ok((ops, VendorModuleCleanupReport { removed_modules: removed, updated_indexes: updated }))
}

} // verus!

verus! {

/// An archive entry: its mode and where its data comes from.
pub type EntrySpec = (u32, DataSpec);

/// The effect of one edit on an archive, by entry name: a move renames an
/// entry present (replacing any entry of the new name), an add sets an
/// entry, a remove drops one.
pub open spec fn apply_op(m: Map<Seq<char>, EntrySpec>, op: OpSpec) -> Map<Seq<char>, EntrySpec> {
    match op {
        OpSpec::Move(from, to) => if m.dom().contains(from) {
            m.remove(from).insert(to, m[from])
        } else {
            m
        },
        OpSpec::Add(p, mode, d) => m.insert(p, (mode, d)),
        OpSpec::Remove(p) => m.remove(p),
    }
}

/// The effect of edits applied in order.
pub open spec fn apply_ops(m: Map<Seq<char>, EntrySpec>, ops: Seq<OpSpec>) -> Map<Seq<char>, EntrySpec>
    decreases ops.len(),
{
    if ops.len() == 0 {
        m
    } else {
        apply_ops(apply_op(m, ops[0]), ops.drop_first())
    }
}

/// `state` describes which of the entries it reports `m` has.
pub open spec fn describes(state: RamdiskState, m: Map<Seq<char>, EntrySpec>) -> bool {
    &&& state.has_kernelsu_ko == m.dom().contains("kernelsu.ko"@)
    &&& state.has_init == m.dom().contains("init"@)
    &&& state.has_init_real == m.dom().contains("init.real"@)
    &&& state.has_force_debuggable == m.dom().contains("force_debuggable"@)
    &&& state.has_adb_debug_prop == m.dom().contains("adb_debug.prop"@)
}

/// The entries that hold KernelSU's settings rather than KernelSU itself.
pub open spec fn settings_entries() -> Set<Seq<char>> {
    set![
        "ksu_config"@,
        "allow_shell"@,
        "ksu_spoof_release"@,
        "ksu_spoof_version"@,
        "force_debuggable"@,
        "adb_debug.prop"@,
    ]
}

/// `a` and `b` agree on the entry `k`.
pub open spec fn agree_at(a: Map<Seq<char>, EntrySpec>, b: Map<Seq<char>, EntrySpec>, k: Seq<char>) -> bool {
    &&& a.dom().contains(k) == b.dom().contains(k)
    &&& a.dom().contains(k) ==> a[k] == b[k]
}

pub open spec fn op_within(op: OpSpec, s: Set<Seq<char>>) -> bool {
    match op {
        OpSpec::Move(a, b) => s.contains(a) && s.contains(b),
        OpSpec::Add(p, _, _) => s.contains(p),
        OpSpec::Remove(p) => s.contains(p),
    }
}

pub proof fn lemma_apply_ops_concat(m: Map<Seq<char>, EntrySpec>, a: Seq<OpSpec>, b: Seq<OpSpec>)
    ensures
        apply_ops(m, a + b) == apply_ops(apply_ops(m, a), b),
    decreases a.len(),
{
    if a.len() == 0 {
        assert(a + b =~= b);
    } else {
        assert((a + b)[0] == a[0]);
        assert((a + b).drop_first() =~= a.drop_first() + b);
        lemma_apply_ops_concat(apply_op(m, a[0]), a.drop_first(), b);
    }
}

/// Edits confined to the names `s` leave every other entry alone.
pub proof fn lemma_apply_ops_within(m: Map<Seq<char>, EntrySpec>, ops: Seq<OpSpec>, s: Set<Seq<char>>, k: Seq<char>)
    requires
        forall|i: int| 0 <= i < ops.len() ==> op_within(#[trigger] ops[i], s),
        !s.contains(k),
    ensures
        agree_at(apply_ops(m, ops), m, k),
    decreases ops.len(),
{
    if ops.len() > 0 {
        assert(op_within(ops[0], s));
        assert forall|i: int| 0 <= i < ops.drop_first().len() implies op_within(#[trigger] ops.drop_first()[i], s) by {
            assert(ops.drop_first()[i] == ops[i + 1]);
        }
        lemma_apply_ops_within(apply_op(m, ops[0]), ops.drop_first(), s, k);
    }
}

proof fn lemma_settings_ops_within(state: RamdiskState, opts: RamdiskPatchOptions)
    ensures
        ({
            let rest = seq![spec_config_op(spec_patched_config(state, opts))] + seq![
                OpSpec::Remove("allow_shell"@),
                OpSpec::Remove("ksu_spoof_release"@),
                OpSpec::Remove("ksu_spoof_version"@),
            ] + spec_adb_ops(state, opts);
            forall|i: int| 0 <= i < rest.len() ==> op_within(#[trigger] rest[i], settings_entries())
        }),
{
    let rest = seq![spec_config_op(spec_patched_config(state, opts))] + seq![
        OpSpec::Remove("allow_shell"@),
        OpSpec::Remove("ksu_spoof_release"@),
        OpSpec::Remove("ksu_spoof_version"@),
    ] + spec_adb_ops(state, opts);
    assert forall|i: int| 0 <= i < rest.len() implies op_within(#[trigger] rest[i], settings_entries()) by {
        if i >= 4 {
            let adb = spec_adb_ops(state, opts);
            assert(rest[i] == adb[i - 4]);
        }
    }
}

/// Restoring a ramdisk that `boot-patch` installed KernelSU into, without
/// a stock image, gives back every entry the patch found, apart from the
/// settings entries: `init` is the original init again, and the KernelSU
/// modules and `init.real` are gone.
pub proof fn law_remove_ksu_undoes_patch(
    m: Map<Seq<char>, EntrySpec>,
    state: RamdiskState,
    opts: RamdiskPatchOptions,
    patched: RamdiskState,
)
    requires
        describes(state, m),
        !state.magisk_patched,
        !opts.no_install,
        m.dom().contains("init"@),
        !m.dom().contains("kernelsu.ko"@),
        !m.dom().contains("kernelsu_vivo.ko"@),
        !m.dom().contains("init.real"@),
        describes(patched, apply_ops(m, spec_plan_patch(state, opts)->Ok_0)),
    ensures
        spec_plan_patch(state, opts) is Ok,
        spec_plan_remove_ksu(patched) is Ok,
        forall|k: Seq<char>|
            !settings_entries().contains(k) ==> agree_at(
                apply_ops(
                    apply_ops(m, spec_plan_patch(state, opts)->Ok_0),
                    spec_plan_remove_ksu(patched)->Ok_0,
                ),
                m,
                k,
            ),
{
    let install = spec_install_ops(state, opts);
    let rest = seq![spec_config_op(spec_patched_config(state, opts))] + seq![
        OpSpec::Remove("allow_shell"@),
        OpSpec::Remove("ksu_spoof_release"@),
        OpSpec::Remove("ksu_spoof_version"@),
    ] + spec_adb_ops(state, opts);
    let ops = spec_plan_patch(state, opts)->Ok_0;
    assert(ops =~= install + rest);
    lemma_apply_ops_concat(m, install, rest);
    let vivo = if opts.has_vivo_module {
        OpSpec::Add("kernelsu_vivo.ko"@, 0o755, DataSpec::KernelsuVivoKo)
    } else {
        OpSpec::Remove("kernelsu_vivo.ko"@)
    };
    assert(install =~= seq![
        OpSpec::Move("init"@, "init.real"@),
        OpSpec::Add("init"@, 0o755, DataSpec::KsuInit),
        OpSpec::Add("kernelsu.ko"@, 0o755, DataSpec::KernelsuKo),
        vivo,
    ]);
    let m_a = apply_op(m, OpSpec::Move("init"@, "init.real"@));
    let m_b = apply_op(m_a, OpSpec::Add("init"@, 0o755, DataSpec::KsuInit));
    let m_c = apply_op(m_b, OpSpec::Add("kernelsu.ko"@, 0o755, DataSpec::KernelsuKo));
    let m_i = apply_op(m_c, vivo);
    assert(apply_ops(m, install) == m_i) by {
        reveal_with_fuel(apply_ops, 5);
        assert(install.drop_first() =~= seq![
            OpSpec::Add("init"@, 0o755, DataSpec::KsuInit),
            OpSpec::Add("kernelsu.ko"@, 0o755, DataSpec::KernelsuKo),
            vivo,
        ]);
        assert(install.drop_first().drop_first() =~= seq![
            OpSpec::Add("kernelsu.ko"@, 0o755, DataSpec::KernelsuKo),
            vivo,
        ]);
        assert(install.drop_first().drop_first().drop_first() =~= seq![vivo]);
        assert(seq![vivo].drop_first() =~= Seq::<OpSpec>::empty());
    }
    let m1 = apply_ops(m_i, rest);
    lemma_settings_ops_within(state, opts);
    assert forall|k: Seq<char>| !settings_entries().contains(k) implies agree_at(m1, m_i, k) by {
        lemma_apply_ops_within(m_i, rest, settings_entries(), k);
    }
    reveal_strlit("init");
    reveal_strlit("init.real");
    reveal_strlit("kernelsu.ko");
    reveal_strlit("kernelsu_vivo.ko");
    reveal_strlit("ksu_config");
    reveal_strlit("allow_shell");
    reveal_strlit("ksu_spoof_release");
    reveal_strlit("ksu_spoof_version");
    reveal_strlit("force_debuggable");
    reveal_strlit("adb_debug.prop");
    let init = "init"@;
    let init_real = "init.real"@;
    let ko = "kernelsu.ko"@;
    let vivo_name = "kernelsu_vivo.ko"@;
    assert(init.len() == 4 && init_real.len() == 9 && ko.len() == 11 && vivo_name.len() == 16);
    assert("ksu_config"@.len() == 10 && "allow_shell"@.len() == 11 && "ksu_spoof_release"@.len() == 17);
    assert("ksu_spoof_version"@.len() == 17 && "force_debuggable"@.len() == 16 && "adb_debug.prop"@.len() == 14);
    assert(ko[0] == 'k' && "allow_shell"@[0] == 'a' && vivo_name[0] == 'k' && "force_debuggable"@[0] == 'f');
    assert(ko != "allow_shell"@ && vivo_name != "force_debuggable"@);
    assert(!settings_entries().contains(init) && !settings_entries().contains(init_real)
        && !settings_entries().contains(ko) && !settings_entries().contains(vivo_name));
    assert(init != init_real && init != ko && init != vivo_name && init_real != ko && init_real != vivo_name && ko != vivo_name);
    assert(agree_at(m1, m_i, ko));
    assert(agree_at(m1, m_i, init_real));
    assert(m_i.dom().contains(ko));
    assert(m_i.dom().contains(init_real) && m_i[init_real] == m[init]);
    let removes = spec_plan_remove_ksu(patched)->Ok_0;
    let m_x = apply_op(m1, OpSpec::Remove(ko));
    let m_y = apply_op(m_x, OpSpec::Remove(vivo_name));
    let m2 = apply_op(m_y, OpSpec::Move(init_real, init));
    assert(removes =~= seq![OpSpec::Remove(ko), OpSpec::Remove(vivo_name), OpSpec::Move(init_real, init)]);
    assert(apply_ops(m1, removes) == m2) by {
        reveal_with_fuel(apply_ops, 4);
        assert(removes.drop_first() =~= seq![OpSpec::Remove(vivo_name), OpSpec::Move(init_real, init)]);
        assert(removes.drop_first().drop_first() =~= seq![OpSpec::Move(init_real, init)]);
        assert(seq![OpSpec::Move(init_real, init)].drop_first() =~= Seq::<OpSpec>::empty());
    }
    assert(apply_ops(m, ops) == m1);
    assert forall|k: Seq<char>| !settings_entries().contains(k) implies agree_at(m2, m, k) by {
        assert(agree_at(m1, m_i, k));
        if k == init {
            assert(m2[init] == m1[init_real]);
        } else if k == init_real || k == ko || k == vivo_name {
        } else {
            assert(agree_at(m_i, m, k));
        }
    }
}

} // verus!

verus! {

/// The KernelSU entries, and the names that hold their settings.
pub open spec fn ksu_entries() -> Set<Seq<char>> {
    settings_entries().insert("init"@).insert("init.real"@).insert("kernelsu.ko"@).insert("kernelsu_vivo.ko"@)
}

proof fn lemma_ksu_names_distinct()
    ensures
        "init"@ != "init.real"@,
        "init"@ != "kernelsu.ko"@,
        "init"@ != "kernelsu_vivo.ko"@,
        "init.real"@ != "kernelsu.ko"@,
        "init.real"@ != "kernelsu_vivo.ko"@,
        "kernelsu.ko"@ != "kernelsu_vivo.ko"@,
        !settings_entries().contains("init"@),
        !settings_entries().contains("init.real"@),
        !settings_entries().contains("kernelsu.ko"@),
        !settings_entries().contains("kernelsu_vivo.ko"@),
{
    reveal_strlit("init");
    reveal_strlit("init.real");
    reveal_strlit("kernelsu.ko");
    reveal_strlit("kernelsu_vivo.ko");
    reveal_strlit("ksu_config");
    reveal_strlit("allow_shell");
    reveal_strlit("ksu_spoof_release");
    reveal_strlit("ksu_spoof_version");
    reveal_strlit("force_debuggable");
    reveal_strlit("adb_debug.prop");
    assert("init"@.len() == 4 && "init.real"@.len() == 9 && "kernelsu.ko"@.len() == 11);
    assert("kernelsu_vivo.ko"@.len() == 16 && "ksu_config"@.len() == 10 && "allow_shell"@.len() == 11);
    assert("ksu_spoof_release"@.len() == 17 && "ksu_spoof_version"@.len() == 17);
    assert("force_debuggable"@.len() == 16 && "adb_debug.prop"@.len() == 14);
    assert("kernelsu.ko"@[0] != "allow_shell"@[0]);
    assert("kernelsu_vivo.ko"@[0] != "force_debuggable"@[0]);
}

/// Law: restoring any ramdisk that `boot-patch` installed KernelSU into,
/// without a stock image, removes the KernelSU modules and `init.real`,
/// leaves every entry outside KernelSU's own names as the patch found it,
/// and puts back the init that the ramdisk booted before KernelSU: the
/// ramdisk's own `init`, or, when it was patched already, its `init.real`.
pub proof fn law_restore_removes_ksu(
    m: Map<Seq<char>, EntrySpec>,
    state: RamdiskState,
    opts: RamdiskPatchOptions,
    patched: RamdiskState,
)
    requires
        describes(state, m),
        !state.magisk_patched,
        !opts.no_install,
        describes(patched, apply_ops(m, spec_plan_patch(state, opts)->Ok_0)),
    ensures
        spec_plan_patch(state, opts) is Ok,
        spec_plan_remove_ksu(patched) is Ok,
        ({
            let m2 = apply_ops(apply_ops(m, spec_plan_patch(state, opts)->Ok_0), spec_plan_remove_ksu(patched)->Ok_0);
            &&& !m2.dom().contains("kernelsu.ko"@)
            &&& !m2.dom().contains("kernelsu_vivo.ko"@)
            &&& (!m.dom().contains("kernelsu.ko"@) && m.dom().contains("init"@)) ==> (!m2.dom().contains(
                "init.real"@,
            ) && m2.dom().contains("init"@) && m2["init"@] == m["init"@])
            &&& (m.dom().contains("kernelsu.ko"@) && m.dom().contains("init.real"@)) ==> (!m2.dom().contains(
                "init.real"@,
            ) && m2.dom().contains("init"@) && m2["init"@] == m["init.real"@])
            &&& forall|k: Seq<char>| !ksu_entries().contains(k) ==> agree_at(m2, m, k)
        }),
{
    lemma_ksu_names_distinct();
    let init = "init"@;
    let init_real = "init.real"@;
    let ko = "kernelsu.ko"@;
    let vivo_name = "kernelsu_vivo.ko"@;
    let install = spec_install_ops(state, opts);
    let rest = seq![spec_config_op(spec_patched_config(state, opts))] + seq![
        OpSpec::Remove("allow_shell"@),
        OpSpec::Remove("ksu_spoof_release"@),
        OpSpec::Remove("ksu_spoof_version"@),
    ] + spec_adb_ops(state, opts);
    let ops = spec_plan_patch(state, opts)->Ok_0;
    assert(ops =~= install + rest);
    lemma_apply_ops_concat(m, install, rest);
    let vivo = if opts.has_vivo_module {
        OpSpec::Add(vivo_name, 0o755, DataSpec::KernelsuVivoKo)
    } else {
        OpSpec::Remove(vivo_name)
    };
    let moved = !state.has_kernelsu_ko && state.has_init;
    let m_a = if moved { apply_op(m, OpSpec::Move(init, init_real)) } else { m };
    let m_b = apply_op(m_a, OpSpec::Add(init, 0o755, DataSpec::KsuInit));
    let m_c = apply_op(m_b, OpSpec::Add(ko, 0o755, DataSpec::KernelsuKo));
    let m_i = apply_op(m_c, vivo);
    let tail3 = seq![
        OpSpec::Add(init, 0o755, DataSpec::KsuInit),
        OpSpec::Add(ko, 0o755, DataSpec::KernelsuKo),
        vivo,
    ];
    assert(apply_ops(m_a, tail3) == m_i) by {
        reveal_with_fuel(apply_ops, 4);
        assert(tail3.drop_first() =~= seq![OpSpec::Add(ko, 0o755, DataSpec::KernelsuKo), vivo]);
        assert(tail3.drop_first().drop_first() =~= seq![vivo]);
        assert(seq![vivo].drop_first() =~= Seq::<OpSpec>::empty());
    }
    if moved {
        assert(install =~= seq![OpSpec::Move(init, init_real)] + tail3);
        lemma_apply_ops_concat(m, seq![OpSpec::Move(init, init_real)], tail3);
        assert(apply_ops(m, seq![OpSpec::Move(init, init_real)]) == m_a) by {
            reveal_with_fuel(apply_ops, 2);
            assert(seq![OpSpec::Move(init, init_real)].drop_first() =~= Seq::<OpSpec>::empty());
        }
    } else {
        assert(install =~= tail3);
    }
    assert(apply_ops(m, install) == m_i);
    let m1 = apply_ops(m_i, rest);
    lemma_settings_ops_within(state, opts);
    assert forall|k: Seq<char>| !settings_entries().contains(k) implies agree_at(m1, m_i, k) by {
        lemma_apply_ops_within(m_i, rest, settings_entries(), k);
    }
    assert(agree_at(m1, m_i, ko));
    assert(agree_at(m1, m_i, init_real));
    assert(m_i.dom().contains(ko));
    assert(apply_ops(m, ops) == m1);
    let removes = spec_plan_remove_ksu(patched)->Ok_0;
    let m_x = apply_op(m1, OpSpec::Remove(ko));
    let m_y = apply_op(m_x, OpSpec::Remove(vivo_name));
    let m2 = if patched.has_init_real { apply_op(m_y, OpSpec::Move(init_real, init)) } else { m_y };
    let two = seq![OpSpec::Remove(ko), OpSpec::Remove(vivo_name)];
    assert(apply_ops(m1, two) == m_y) by {
        reveal_with_fuel(apply_ops, 3);
        assert(two.drop_first() =~= seq![OpSpec::Remove(vivo_name)]);
        assert(seq![OpSpec::Remove(vivo_name)].drop_first() =~= Seq::<OpSpec>::empty());
    }
    if patched.has_init_real {
        assert(removes =~= two + seq![OpSpec::Move(init_real, init)]);
        lemma_apply_ops_concat(m1, two, seq![OpSpec::Move(init_real, init)]);
        assert(apply_ops(m_y, seq![OpSpec::Move(init_real, init)]) == m2) by {
            reveal_with_fuel(apply_ops, 2);
            assert(seq![OpSpec::Move(init_real, init)].drop_first() =~= Seq::<OpSpec>::empty());
        }
    } else {
        assert(removes =~= two + Seq::<OpSpec>::empty());
        assert(two + Seq::<OpSpec>::empty() =~= two);
    }
    assert(apply_ops(m1, removes) == m2);
    assert(!m2.dom().contains(ko));
    assert(!m2.dom().contains(vivo_name));
    if !m.dom().contains(ko) && m.dom().contains(init) {
        assert(m_i.dom().contains(init_real) && m_i[init_real] == m[init]);
        assert(m2[init] == m[init]);
    }
    if m.dom().contains(ko) && m.dom().contains(init_real) {
        assert(m_i.dom().contains(init_real) && m_i[init_real] == m[init_real]);
    }
    assert forall|k: Seq<char>| !ksu_entries().contains(k) implies agree_at(m2, m, k) by {
        assert(!settings_entries().contains(k));
        assert(k != init && k != init_real && k != ko && k != vivo_name);
        assert(agree_at(m1, m_i, k));
    }
}

} // verus!


verus! {

proof fn lemma_module_pass_removes(fs: Seq<FileSpec>, t: Seq<Seq<char>>)
    requires
        module_pass(fs, t) is Ok,
    ensures
        forall|i: int| 0 <= i < module_pass(fs, t)->Ok_0.len() ==> #[trigger] module_pass(fs, t)->Ok_0[i] is Remove,
        forall|i: int|
            0 <= i < fs.len() && spec_is_target_module_path(#[trigger] fs[i].0, t) ==> module_pass(fs, t)->Ok_0.contains(
                OpSpec::Remove(fs[i].0),
            ),
    decreases fs.len(),
{
    if fs.len() > 0 {
        let rest = fs.drop_first();
        let p = fs[0].0;
        if spec_is_target_module_path(p, t) {
            lemma_module_pass_removes(rest, t);
            let tail = module_pass(rest, t)->Ok_0;
            let mo = seq![OpSpec::Remove(p)] + tail;
            assert(module_pass(fs, t)->Ok_0 == mo);
            assert forall|i: int| 0 <= i < mo.len() implies #[trigger] mo[i] is Remove by {
                if i > 0 {
                    assert(mo[i] == tail[i - 1]);
                }
            }
            assert forall|i: int| 0 <= i < fs.len() && spec_is_target_module_path(#[trigger] fs[i].0, t) implies mo.contains(
                OpSpec::Remove(fs[i].0),
            ) by {
                if i == 0 {
                    assert(mo[0] == OpSpec::Remove(p));
                } else {
                    assert(rest[i - 1] == fs[i]);
                    assert(tail.contains(OpSpec::Remove(fs[i].0)));
                    let j = choose|j: int| 0 <= j < tail.len() && tail[j] == OpSpec::Remove(fs[i].0);
                    assert(mo[j + 1] == tail[j]);
                }
            }
        } else {
            lemma_module_pass_removes(rest, t);
            assert forall|i: int| 0 <= i < fs.len() && spec_is_target_module_path(#[trigger] fs[i].0, t) implies module_pass(
                fs,
                t,
            )->Ok_0.contains(OpSpec::Remove(fs[i].0)) by {
                assert(i > 0);
                assert(rest[i - 1] == fs[i]);
            }
        }
    }
}

/// The module index files, by name.
pub open spec fn index_files() -> Set<Seq<char>> {
    Set::new(|p: Seq<char>| spec_is_supported_module_index(p))
}

proof fn lemma_index_pass_within(fs: Seq<FileSpec>, t: Seq<Seq<char>>)
    requires
        index_pass(fs, t) is Ok,
    ensures
        forall|i: int| 0 <= i < index_pass(fs, t)->Ok_0.len() ==> op_within(#[trigger] index_pass(fs, t)->Ok_0[i], index_files()),
    decreases fs.len(),
{
    if fs.len() > 0 {
        let rest = fs.drop_first();
        let p = fs[0].0;
        lemma_index_pass_within(rest, t);
        if spec_is_supported_module_index(p) {
            let data = match fs[0].1 {
                Some(d) => d,
                None => Seq::empty(),
            };
            match spec_rewrite_module_index(p, data, t) {
                Ok(Some(b)) => {
                    let tail = index_pass(rest, t)->Ok_0;
                    let ix = seq![OpSpec::Remove(p), OpSpec::Add(p, 0o644, DataSpec::Bytes(b))] + tail;
                    assert(index_pass(fs, t)->Ok_0 == ix);
                    assert forall|i: int| 0 <= i < ix.len() implies op_within(#[trigger] ix[i], index_files()) by {
                        if i >= 2 {
                            assert(ix[i] == tail[i - 2]);
                        }
                    }
                },
                _ => {},
            }
        }
    }
}

proof fn lemma_apply_removes(m: Map<Seq<char>, EntrySpec>, ops: Seq<OpSpec>, k: Seq<char>)
    requires
        forall|i: int| 0 <= i < ops.len() ==> #[trigger] ops[i] is Remove,
        apply_ops(m, ops).dom().contains(k),
    ensures
        m.dom().contains(k),
        !ops.contains(OpSpec::Remove(k)),
    decreases ops.len(),
{
    if ops.len() > 0 {
        let rest = ops.drop_first();
        assert(ops[0] is Remove);
        assert forall|i: int| 0 <= i < rest.len() implies #[trigger] rest[i] is Remove by {
            assert(rest[i] == ops[i + 1]);
        }
        lemma_apply_removes(apply_op(m, ops[0]), rest, k);
        if ops.contains(OpSpec::Remove(k)) {
            let j = choose|j: int| 0 <= j < ops.len() && ops[j] == OpSpec::Remove(k);
            if j > 0 {
                assert(rest[j - 1] == ops[j]);
            }
        }
    }
}

/// `rmvr` leaves no `vr` or `vklp` module file in a ramdisk: applying its
/// edits to the ramdisk whose entries are `files` removes every one.
pub proof fn law_rmvr_removes_target_modules(files: Seq<FileSpec>, m: Map<Seq<char>, EntrySpec>)
    requires
        forall|k: Seq<char>| m.dom().contains(k) ==> exists|i: int| 0 <= i < files.len() && #[trigger] files[i].0 == k,
        module_pass(files, default_targets()) is Ok,
        index_pass(files, default_targets()) is Ok,
    ensures
        forall|k: Seq<char>|
            #[trigger] apply_ops(
                m,
                module_pass(files, default_targets())->Ok_0 + index_pass(files, default_targets())->Ok_0,
            ).dom().contains(k) ==> !spec_is_target_module_path(k, default_targets()),
{
    let t = default_targets();
    let mo = module_pass(files, t)->Ok_0;
    let ix = index_pass(files, t)->Ok_0;
    lemma_apply_ops_concat(m, mo, ix);
    lemma_module_pass_removes(files, t);
    lemma_index_pass_within(files, t);
    let m1 = apply_ops(m, mo);
    assert forall|k: Seq<char>| #[trigger] apply_ops(m, mo + ix).dom().contains(k) implies !spec_is_target_module_path(
        k,
        t,
    ) by {
        if spec_is_supported_module_index(k) {
            crate::boot_patch::modules::lemma_index_not_target(k);
        } else {
            assert(!index_files().contains(k));
            lemma_apply_ops_within(m1, ix, index_files(), k);
            lemma_apply_removes(m, mo, k);
            let i = choose|i: int| 0 <= i < files.len() && #[trigger] files[i].0 == k;
            if spec_is_target_module_path(k, t) {
                assert(mo.contains(OpSpec::Remove(files[i].0)));
            }
        }
    }
}

} // verus!

verus! {

/// The bytes of an archive entry, when it holds bytes.
pub open spec fn entry_bytes(e: EntrySpec) -> Option<Seq<u8>> {
    match e.1 {
        DataSpec::Bytes(b) => Some(b),
        _ => None,
    }
}

/// `files` lists the entries of `m`: each name once, with its bytes.
pub open spec fn lists(files: Seq<FileSpec>, m: Map<Seq<char>, EntrySpec>) -> bool {
    &&& forall|i: int|
        0 <= i < files.len() ==> m.dom().contains(#[trigger] files[i].0) && files[i].1 == entry_bytes(m[files[i].0])
    &&& forall|k: Seq<char>| m.dom().contains(k) ==> exists|i: int| 0 <= i < files.len() && #[trigger] files[i].0 == k
    &&& forall|i: int, j: int| 0 <= i < j < files.len() ==> #[trigger] files[i].0 != #[trigger] files[j].0
}

pub open spec fn file_data(f: FileSpec) -> Seq<u8> {
    match f.1 {
        Some(d) => d,
        None => Seq::empty(),
    }
}

pub open spec fn target_paths(t: Seq<Seq<char>>) -> Set<Seq<char>> {
    Set::new(|p: Seq<char>| spec_is_target_module_path(p, t))
}

proof fn lemma_module_pass_within(fs: Seq<FileSpec>, t: Seq<Seq<char>>)
    requires
        module_pass(fs, t) is Ok,
    ensures
        forall|i: int| 0 <= i < module_pass(fs, t)->Ok_0.len() ==> op_within(#[trigger] module_pass(fs, t)->Ok_0[i], target_paths(t)),
    decreases fs.len(),
{
    if fs.len() > 0 {
        let rest = fs.drop_first();
        let p = fs[0].0;
        lemma_module_pass_within(rest, t);
        if spec_is_target_module_path(p, t) {
            let tail = module_pass(rest, t)->Ok_0;
            let mo = seq![OpSpec::Remove(p)] + tail;
            assert(module_pass(fs, t)->Ok_0 == mo);
            assert forall|i: int| 0 <= i < mo.len() implies op_within(#[trigger] mo[i], target_paths(t)) by {
                if i >= 1 {
                    assert(mo[i] == tail[i - 1]);
                }
            }
        }
    }
}

proof fn lemma_module_pass_none(fs: Seq<FileSpec>, t: Seq<Seq<char>>)
    requires
        forall|i: int| 0 <= i < fs.len() ==> !spec_is_target_module_path(#[trigger] fs[i].0, t),
    ensures
        module_pass(fs, t) == Ok::<Seq<OpSpec>, RamdiskErrorSpec>(Seq::empty()),
    decreases fs.len(),
{
    if fs.len() > 0 {
        let rest = fs.drop_first();
        assert forall|i: int| 0 <= i < rest.len() implies !spec_is_target_module_path(#[trigger] rest[i].0, t) by {
            assert(rest[i] == fs[i + 1]);
        }
        assert(!spec_is_target_module_path(fs[0].0, t));
        lemma_module_pass_none(rest, t);
    }
}

proof fn lemma_index_pass_none(fs: Seq<FileSpec>, t: Seq<Seq<char>>)
    requires
        forall|i: int|
            0 <= i < fs.len() && spec_is_supported_module_index(#[trigger] fs[i].0) ==> fs[i].0
                == spec_normalized_cpio_path(fs[i].0) && spec_rewrite_module_index(fs[i].0, file_data(fs[i]), t)
                == Ok::<Option<Seq<u8>>, ModuleIndexError>(None),
    ensures
        index_pass(fs, t) == Ok::<Seq<OpSpec>, RamdiskErrorSpec>(Seq::empty()),
    decreases fs.len(),
{
    if fs.len() > 0 {
        let rest = fs.drop_first();
        assert forall|i: int|
            0 <= i < rest.len() && spec_is_supported_module_index(#[trigger] rest[i].0) implies rest[i].0
                == spec_normalized_cpio_path(rest[i].0) && spec_rewrite_module_index(rest[i].0, file_data(rest[i]), t)
                == Ok::<Option<Seq<u8>>, ModuleIndexError>(None) by {
            assert(rest[i] == fs[i + 1]);
        }
        lemma_index_pass_none(rest, t);
        if spec_is_supported_module_index(fs[0].0) {
            assert(fs[0].0 == spec_normalized_cpio_path(fs[0].0));
        }
    }
}

proof fn lemma_index_pass_ok(fs: Seq<FileSpec>, t: Seq<Seq<char>>)
    requires
        index_pass(fs, t) is Ok,
    ensures
        forall|i: int|
            0 <= i < fs.len() && spec_is_supported_module_index(#[trigger] fs[i].0) ==> fs[i].0
                == spec_normalized_cpio_path(fs[i].0) && spec_rewrite_module_index(fs[i].0, file_data(fs[i]), t) is Ok,
    decreases fs.len(),
{
    if fs.len() > 0 {
        let rest = fs.drop_first();
        if spec_is_supported_module_index(fs[0].0) {
            match spec_rewrite_module_index(fs[0].0, file_data(fs[0]), t) {
                Ok(Some(b)) => {
                    assert(index_pass(rest, t) is Ok);
                },
                _ => {},
            }
        }
        lemma_index_pass_ok(rest, t);
        assert forall|i: int|
            0 <= i < fs.len() && spec_is_supported_module_index(#[trigger] fs[i].0) implies fs[i].0
                == spec_normalized_cpio_path(fs[i].0) && spec_rewrite_module_index(fs[i].0, file_data(fs[i]), t) is Ok by {
            if i > 0 {
                assert(fs[i] == rest[i - 1]);
            }
        }
    }
}

/// Every edit of `ops` leaves the entry `k` alone.
pub open spec fn spares(ops: Seq<OpSpec>, k: Seq<char>) -> bool {
    forall|i: int| 0 <= i < ops.len() ==> op_within(#[trigger] ops[i], Set::new(|x: Seq<char>| x != k))
}

proof fn lemma_spares(m: Map<Seq<char>, EntrySpec>, ops: Seq<OpSpec>, k: Seq<char>)
    requires
        spares(ops, k),
    ensures
        agree_at(apply_ops(m, ops), m, k),
{
    lemma_apply_ops_within(m, ops, Set::new(|x: Seq<char>| x != k), k);
}

/// The index edits touch an entry only when it is a listed index that
/// was rewritten, and then leave its new contents.
proof fn lemma_index_pass_at(fs: Seq<FileSpec>, t: Seq<Seq<char>>, m: Map<Seq<char>, EntrySpec>, j: int)
    requires
        index_pass(fs, t) is Ok,
        0 <= j < fs.len(),
        forall|a: int, b: int| 0 <= a < b < fs.len() ==> #[trigger] fs[a].0 != #[trigger] fs[b].0,
    ensures
        ({
            let p = fs[j].0;
            let m2 = apply_ops(m, index_pass(fs, t)->Ok_0);
            if spec_is_supported_module_index(p) && spec_rewrite_module_index(p, file_data(fs[j]), t) is Ok && spec_rewrite_module_index(p, file_data(fs[j]), t)->Ok_0 is Some {
                m2.dom().contains(p) && m2[p] == (0o644u32, DataSpec::Bytes(spec_rewrite_module_index(p, file_data(fs[j]), t)->Ok_0->0))
            } else {
                agree_at(m2, m, p)
            }
        }),
    decreases fs.len(),
{
    let rest = fs.drop_first();
    let p0 = fs[0].0;
    let p = fs[j].0;
    assert forall|a: int, b: int| 0 <= a < b < rest.len() implies #[trigger] rest[a].0 != #[trigger] rest[b].0 by {
        assert(rest[a] == fs[a + 1] && rest[b] == fs[b + 1]);
    }
    let rest_ops = index_pass(rest, t);
    if spec_is_supported_module_index(p0) {
        match spec_rewrite_module_index(p0, file_data(fs[0]), t) {
            Ok(Some(b)) => {
                assert(rest_ops is Ok);
            },
            _ => {},
        }
    }
    assert(rest_ops is Ok);
    let tail = rest_ops->Ok_0;
    let rewritten = spec_is_supported_module_index(p0) && spec_rewrite_module_index(p0, file_data(fs[0]), t) matches Ok(Some(_));
    let two = if rewritten {
        seq![OpSpec::Remove(p0), OpSpec::Add(p0, 0o644, DataSpec::Bytes(spec_rewrite_module_index(p0, file_data(fs[0]), t)->Ok_0->0))]
    } else {
        Seq::empty()
    };
    assert(index_pass(fs, t)->Ok_0 == two + tail);
    lemma_apply_ops_concat(m, two, tail);
    let m_two = apply_ops(m, two);
    if rewritten {
        assert(apply_ops(m, two) == apply_op(apply_op(m, two[0]), two[1])) by {
            reveal_with_fuel(apply_ops, 3);
            assert(two.drop_first() =~= seq![two[1]]);
            assert(seq![two[1]].drop_first() =~= Seq::<OpSpec>::empty());
        }
    } else {
        assert(m_two == m);
    }
    if j == 0 {
        assert forall|i: int| 0 <= i < tail.len() implies op_within(#[trigger] tail[i], Set::new(|x: Seq<char>| x != p)) by {
            lemma_index_pass_mentions(rest, t, i);
        }
        lemma_spares(m_two, tail, p);
    } else {
        assert(rest[j - 1] == fs[j]);
        lemma_index_pass_at(rest, t, m_two, j - 1);
        assert(p != p0);
    }
}

/// Each index edit concerns one of the listed files.
proof fn lemma_index_pass_mentions(fs: Seq<FileSpec>, t: Seq<Seq<char>>, i: int)
    requires
        index_pass(fs, t) is Ok,
        0 <= i < index_pass(fs, t)->Ok_0.len(),
    ensures
        exists|j: int| 0 <= j < fs.len() && op_within(index_pass(fs, t)->Ok_0[i], Set::new(|x: Seq<char>| x == #[trigger] fs[j].0)),
    decreases fs.len(),
{
    let rest = fs.drop_first();
    let p0 = fs[0].0;
    if spec_is_supported_module_index(p0) {
        match spec_rewrite_module_index(p0, file_data(fs[0]), t) {
            Ok(Some(b)) => {
                let tail = index_pass(rest, t)->Ok_0;
                let two = seq![OpSpec::Remove(p0), OpSpec::Add(p0, 0o644, DataSpec::Bytes(b))];
                assert(index_pass(fs, t)->Ok_0 == two + tail);
                if i < 2 {
                    assert(op_within(index_pass(fs, t)->Ok_0[i], Set::new(|x: Seq<char>| x == fs[0].0)));
                } else {
                    assert(index_pass(fs, t)->Ok_0[i] == tail[i - 2]);
                    lemma_index_pass_mentions(rest, t, i - 2);
                    let j = choose|j: int| 0 <= j < rest.len() && op_within(tail[i - 2], Set::new(|x: Seq<char>| x == #[trigger] rest[j].0));
                    assert(rest[j] == fs[j + 1]);
                }
            },
            _ => {
                lemma_index_pass_mentions(rest, t, i);
                let j = choose|j: int| 0 <= j < rest.len() && op_within(index_pass(rest, t)->Ok_0[i], Set::new(|x: Seq<char>| x == #[trigger] rest[j].0));
                assert(rest[j] == fs[j + 1]);
            },
        }
    } else {
        lemma_index_pass_mentions(rest, t, i);
        let j = choose|j: int| 0 <= j < rest.len() && op_within(index_pass(rest, t)->Ok_0[i], Set::new(|x: Seq<char>| x == #[trigger] rest[j].0));
        assert(rest[j] == fs[j + 1]);
    }
}


/// Law: `rmvr` run on its own output finds nothing more to do.  When
/// `files` lists a ramdisk and the cleanup of it succeeds, any listing of
/// the cleaned ramdisk yields no module removals and no index rewrites.
pub proof fn law_rmvr_idempotent(
    files: Seq<FileSpec>,
    m: Map<Seq<char>, EntrySpec>,
    files2: Seq<FileSpec>,
)
    requires
        lists(files, m),
        module_pass(files, default_targets()) is Ok,
        index_pass(files, default_targets()) is Ok,
        lists(
            files2,
            apply_ops(
                m,
                module_pass(files, default_targets())->Ok_0 + index_pass(files, default_targets())->Ok_0,
            ),
        ),
    ensures
        module_pass(files2, default_targets()) == Ok::<Seq<OpSpec>, RamdiskErrorSpec>(Seq::empty()),
        index_pass(files2, default_targets()) == Ok::<Seq<OpSpec>, RamdiskErrorSpec>(Seq::empty()),
{
    let t = default_targets();
    let mo = module_pass(files, t)->Ok_0;
    let ix = index_pass(files, t)->Ok_0;
    let m1 = apply_ops(m, mo);
    let m2 = apply_ops(m, mo + ix);
    lemma_apply_ops_concat(m, mo, ix);
    assert(m2 == apply_ops(m1, ix));
    law_rmvr_removes_target_modules(files, m);
    assert forall|i: int| 0 <= i < files2.len() implies !spec_is_target_module_path(#[trigger] files2[i].0, t) by {
        assert(m2.dom().contains(files2[i].0));
    }
    lemma_module_pass_none(files2, t);
    lemma_module_pass_within(files, t);
    lemma_index_pass_ok(files, t);
    lemma_index_pass_within(files, t);
    crate::boot_patch::index_laws::lemma_default_keywords();
    assert forall|i: int|
        0 <= i < files2.len() && spec_is_supported_module_index(#[trigger] files2[i].0) implies files2[i].0
            == spec_normalized_cpio_path(files2[i].0) && spec_rewrite_module_index(files2[i].0, file_data(files2[i]), t)
            == Ok::<Option<Seq<u8>>, ModuleIndexError>(None) by {
        let p = files2[i].0;
        assert(m2.dom().contains(p));
        crate::boot_patch::modules::lemma_index_not_target(p);
        assert(!target_paths(t).contains(p));
        lemma_apply_ops_within(m, mo, target_paths(t), p);
        assert(agree_at(m1, m, p));
        assert(m.dom().contains(p)) by {
            if !m1.dom().contains(p) {
                assert(index_files().contains(p));
                // the index edits only rewrite entries that are present
                lemma_present_after_index(files, t, m1, p);
                if exists|j: int| 0 <= j < files.len() && #[trigger] files[j].0 == p {
                    let j = choose|j: int| 0 <= j < files.len() && #[trigger] files[j].0 == p;
                    assert(m.dom().contains(files[j].0));
                }
            }
        }
        let j = choose|j: int| 0 <= j < files.len() && #[trigger] files[j].0 == p;
        lemma_index_pass_at(files, t, m1, j);
        let first = spec_rewrite_module_index(p, file_data(files[j]), t);
        assert(first is Ok);
        crate::boot_patch::index_laws::lemma_index_stable_of_keywords(p, file_data(files[j]), t);
        crate::boot_patch::index_laws::law_rewrite_module_index_idempotent(p, file_data(files[j]), t);
        assert(files2[i].1 == entry_bytes(m2[p]));
        match first->Ok_0 {
            Some(b) => {
                assert(m2[p] == (0o644u32, DataSpec::Bytes(b)));
                assert(file_data(files2[i]) == b);
            },
            None => {
                assert(agree_at(m2, m1, p));
                assert(m2[p] == m[p]);
                assert(files[j].1 == entry_bytes(m[p]));
                assert(file_data(files2[i]) == file_data(files[j]));
            },
        }
    }
    lemma_index_pass_none(files2, t);
}

/// An entry present after the index edits was present before them.
proof fn lemma_present_after_index(fs: Seq<FileSpec>, t: Seq<Seq<char>>, m: Map<Seq<char>, EntrySpec>, p: Seq<char>)
    requires
        index_pass(fs, t) is Ok,
        forall|a: int, b: int| 0 <= a < b < fs.len() ==> #[trigger] fs[a].0 != #[trigger] fs[b].0,
        apply_ops(m, index_pass(fs, t)->Ok_0).dom().contains(p),
    ensures
        m.dom().contains(p) || exists|j: int| 0 <= j < fs.len() && #[trigger] fs[j].0 == p,
{
    if exists|j: int| 0 <= j < fs.len() && #[trigger] fs[j].0 == p {
    } else {
        assert forall|i: int| 0 <= i < index_pass(fs, t)->Ok_0.len() implies op_within(#[trigger] index_pass(fs, t)->Ok_0[i], Set::new(|x: Seq<char>| x != p)) by {
            lemma_index_pass_mentions(fs, t, i);
        }
        lemma_spares(m, index_pass(fs, t)->Ok_0, p);
    }
}


/// Law: the settings that `boot-patch` writes to `ksu_config` hold
/// `allow_shell=1` exactly when the allow-shell option is set and
/// `norc=1` exactly when the no-custom-rc option is set, whatever the
/// ramdisk held before.
pub proof fn law_patched_config_switches(state: RamdiskState, opts: RamdiskPatchOptions)
    ensures
        spec_patched_config(state, opts).contains("allow_shell=1"@) == opts.allow_shell,
        spec_patched_config(state, opts).contains("norc=1"@) == opts.no_custom_rc,
{
    reveal_strlit("allow_shell=1");
    reveal_strlit("norc=1");
    reveal_strlit("spoof_release");
    reveal_strlit("spoof_version");
    let a = "allow_shell=1"@;
    let n = "norc=1"@;
    let rel = "spoof_release"@ + seq!['='];
    let ver = "spoof_version"@ + seq!['='];
    assert(a[0] != n[0]);
    assert(!starts_with(a, rel)) by {
        assert(a.len() < rel.len());
    }
    assert(!starts_with(a, ver)) by {
        assert(a.len() < ver.len());
    }
    assert(!starts_with(n, rel)) by {
        assert(n.len() < rel.len());
    }
    assert(!starts_with(n, ver)) by {
        assert(n.len() < ver.len());
    }
    let c0 = spec_parse_ksu_config(opt_bytes(state.ksu_config));
    let c1 = spec_apply_config(c0, n, opts.no_custom_rc);
    let c2 = spec_apply_config(c1, a, opts.allow_shell);
    let c3 = spec_apply_spoof_config(c2, "spoof_release"@, opt_view(opts.spoof_release));
    crate::boot_patch::ksu_config::law_apply_config_presence(c0, n, opts.no_custom_rc);
    crate::boot_patch::ksu_config::law_apply_config_presence(c1, a, opts.allow_shell);
    crate::boot_patch::ksu_config::lemma_apply_config_keeps_other(c1, a, opts.allow_shell, n);
    crate::boot_patch::ksu_config::lemma_apply_spoof_keeps_other(c2, "spoof_release"@, opt_view(opts.spoof_release), a);
    crate::boot_patch::ksu_config::lemma_apply_spoof_keeps_other(c2, "spoof_release"@, opt_view(opts.spoof_release), n);
    crate::boot_patch::ksu_config::lemma_apply_spoof_keeps_other(c3, "spoof_version"@, opt_view(opts.spoof_version), a);
    crate::boot_patch::ksu_config::lemma_apply_spoof_keeps_other(c3, "spoof_version"@, opt_view(opts.spoof_version), n);
}


/// Law: after the edits of `boot-patch`, the `ksu_config` entry holds the
/// patched settings joined with spaces (mode 0644), and there is no such
/// entry when no setting is left.
pub proof fn law_patch_writes_config(m: Map<Seq<char>, EntrySpec>, state: RamdiskState, opts: RamdiskPatchOptions)
    requires
        spec_plan_patch(state, opts) is Ok,
    ensures
        ({
            let cfg = spec_patched_config(state, opts);
            let m2 = apply_ops(m, spec_plan_patch(state, opts)->Ok_0);
            &&& cfg.len() > 0 ==> m2.dom().contains("ksu_config"@) && m2["ksu_config"@] == (
                0o644u32,
                DataSpec::Bytes(encode_utf8(join_with(cfg, seq![' ']))),
            )
            &&& cfg.len() == 0 ==> !m2.dom().contains("ksu_config"@)
        }),
{
    reveal_strlit("ksu_config");
    reveal_strlit("allow_shell");
    reveal_strlit("ksu_spoof_release");
    reveal_strlit("ksu_spoof_version");
    reveal_strlit("force_debuggable");
    reveal_strlit("adb_debug.prop");
    let k = "ksu_config"@;
    let cfg = spec_patched_config(state, opts);
    let install = spec_install_ops(state, opts);
    let cop = spec_config_op(cfg);
    let removes = seq![
        OpSpec::Remove("allow_shell"@),
        OpSpec::Remove("ksu_spoof_release"@),
        OpSpec::Remove("ksu_spoof_version"@),
    ];
    let adb = spec_adb_ops(state, opts);
    let rest = removes + adb;
    let ops = spec_plan_patch(state, opts)->Ok_0;
    assert(ops =~= install + (seq![cop] + rest));
    lemma_apply_ops_concat(m, install, seq![cop] + rest);
    let m_i = apply_ops(m, install);
    lemma_apply_ops_concat(m_i, seq![cop], rest);
    let m_c = apply_ops(m_i, seq![cop]);
    assert(m_c == apply_op(m_i, cop)) by {
        reveal_with_fuel(apply_ops, 2);
        assert(seq![cop].drop_first() =~= Seq::<OpSpec>::empty());
    }
    assert forall|i: int| 0 <= i < rest.len() implies op_within(#[trigger] rest[i], Set::new(|x: Seq<char>| x != k)) by {
        assert(k.len() == 10);
        if i < 3 {
            assert(rest[i] == removes[i]);
        } else {
            assert(rest[i] == adb[i - 3]);
            if opts.enable_adbd || opts.adb_debug_prop is Some {
            } else {
                let a1: Seq<OpSpec> = if state.has_force_debuggable {
                    seq![OpSpec::Remove("force_debuggable"@)]
                } else {
                    Seq::empty()
                };
                if i - 3 < a1.len() {
                    assert(adb[i - 3] == a1[i - 3]);
                }
            }
        }
    }
    lemma_spares(m_c, rest, k);
}


/// The module index names that `rmvr` rewrites, as a fixed list.
pub open spec fn listed_index_name(n: Seq<char>) -> bool {
    ||| n == "modules.dep"@
    ||| n == "modules.softdep"@
    ||| n == "modules.alias"@
    ||| n == "modules.options"@
    ||| n == "modules.blocklist"@
    ||| n == "modules.load"@
    ||| n == "modules.order"@
    ||| starts_with(n, "modules.load."@)
}

/// Law: the index files `rmvr` rewrites are exactly those under
/// `lib/modules/` whose name is one of the listed index names.
pub proof fn law_supported_index_names(path: Seq<char>)
    ensures
        spec_is_supported_module_index(path) == (starts_with(spec_normalized_cpio_path(path), "lib/modules/"@)
            && listed_index_name(
            crate::text::last_segment(spec_normalized_cpio_path(path), crate::text::CharClass::Single('/')),
        )),
{
}

/// Law: after `rmvr`, every index file under `lib/modules/` with one of
/// the listed index names is still there, holds UTF-8 text, and no line
/// of it names `vr` or `vklp` (see `line_names_target`).
pub proof fn law_rmvr_cleans_indexes(files: Seq<FileSpec>, m: Map<Seq<char>, EntrySpec>, j: int)
    requires
        lists(files, m),
        module_pass(files, default_targets()) is Ok,
        index_pass(files, default_targets()) is Ok,
        0 <= j < files.len(),
        starts_with(spec_normalized_cpio_path(files[j].0), "lib/modules/"@),
        listed_index_name(
            crate::text::last_segment(spec_normalized_cpio_path(files[j].0), crate::text::CharClass::Single('/')),
        ),
    ensures
        ({
            let p = files[j].0;
            let m2 = apply_ops(m, module_pass(files, default_targets())->Ok_0 + index_pass(files, default_targets())->Ok_0);
            let d = match entry_bytes(m2[p]) {
                Some(x) => x,
                None => Seq::empty(),
            };
            &&& m2.dom().contains(p)
            &&& vstd::utf8::valid_utf8(d)
            &&& forall|i: int|
                0 <= i < crate::boot_patch::modules::text_lines(vstd::utf8::decode_utf8(d)).len() ==> !crate::boot_patch::index_laws::line_names_target(
                    crate::text::last_segment(p, crate::text::CharClass::Single('/')),
                    crate::text::trim_end(
                        #[trigger] crate::boot_patch::modules::text_lines(vstd::utf8::decode_utf8(d))[i],
                        crate::text::CharClass::Single('\r'),
                    ),
                    default_targets(),
                )
        }),
{
    let t = default_targets();
    let p = files[j].0;
    let mo = module_pass(files, t)->Ok_0;
    let ix = index_pass(files, t)->Ok_0;
    let m1 = apply_ops(m, mo);
    let m2 = apply_ops(m, mo + ix);
    lemma_apply_ops_concat(m, mo, ix);
    law_supported_index_names(p);
    assert(spec_is_supported_module_index(p));
    lemma_index_pass_ok(files, t);
    assert(p == spec_normalized_cpio_path(p));
    let data = file_data(files[j]);
    let first = spec_rewrite_module_index(p, data, t);
    assert(first is Ok);
    crate::boot_patch::modules::lemma_index_not_target(p);
    lemma_module_pass_within(files, t);
    assert(!target_paths(t).contains(p));
    lemma_apply_ops_within(m, mo, target_paths(t), p);
    lemma_index_pass_at(files, t, m1, j);
    crate::boot_patch::index_laws::lemma_default_keywords();
    crate::boot_patch::index_laws::lemma_index_stable_of_keywords(p, data, t);
    crate::boot_patch::index_laws::law_rewritten_index_names_no_target(p, data, t);
    assert(m.dom().contains(p));
    broadcast use vstd::utf8::encode_utf8_valid_utf8, vstd::utf8::encode_utf8_decode_utf8;
    match first->Ok_0 {
        Some(b) => {
            assert(m2[p] == (0o644u32, DataSpec::Bytes(b)));
            assert(entry_bytes(m2[p]) == Some(b));
            assert(crate::boot_patch::index_laws::index_text_after(p, data, t) == vstd::utf8::decode_utf8(b));
            let text = vstd::utf8::decode_utf8(data);
            let name = crate::text::last_segment(p, crate::text::CharClass::Single('/'));
            let (out, changed) = crate::boot_patch::modules::rewrite_lines(name, crate::boot_patch::modules::text_lines(text), t);
            let joined = join_with(out, seq!['\n']);
            let trailing = text.len() > 0 && text.last() == '\n';
            let body = if trailing && joined.len() > 0 { joined.push('\n') } else { joined };
            assert(b == encode_utf8(body));
            assert(vstd::utf8::valid_utf8(b));
        },
        None => {
            assert(m2[p] == m[p]);
            assert(files[j].1 == entry_bytes(m[p]));
            assert(vstd::utf8::valid_utf8(data));
            assert(crate::boot_patch::index_laws::index_text_after(p, data, t) == vstd::utf8::decode_utf8(data));
            assert(match entry_bytes(m2[p]) { Some(x) => x, None => Seq::<u8>::empty() } == data);
        },
    }
}

} // verus!
