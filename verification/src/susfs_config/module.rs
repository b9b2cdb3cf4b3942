//! `ModuleConfig`: the typed snapshot of the config that the module
//! installer needs, and the list encodings used inside config values.
use vstd::prelude::*;

use crate::susfs_config::config_map::ConfigMap;
use crate::susfs_config::keys::{
    KEY_ADD_KSTAT_PATHS, KEY_BUILD_TIME_VALUE, KEY_CMDLINE_OR_BOOTCONFIG_PATH,
    KEY_ENABLE_AVC_LOG_SPOOFING, KEY_ENABLE_CLEANUP_RESIDUE, KEY_ENABLE_HIDE_BL, KEY_ENABLE_LOG,
    KEY_EXECUTE_IN_POST_FS_DATA, KEY_HIDE_SUS_MOUNTS_FOR_ALL_PROCS, KEY_KSTAT_CONFIGS,
    KEY_SUS_LOOP_PATHS, KEY_SUS_MAPS, KEY_SUS_PATHS, KEY_UNAME_VALUE,
};
use crate::text::{
    chars_of, is_nonempty, join_strings, join_with, match_at, split_chars, split_nonempty,
    split_pat, strings_view, first_match_from, lemma_first_match_valid,
};

verus! {

pub open spec fn path_sep() -> Seq<char> {
    seq![';']
}

pub open spec fn kstat_sep() -> Seq<char> {
    seq![';', ';']
}

/// The non-empty `;`-separated entries of `raw`.
pub fn split_paths(raw: &str) -> (r: Vec<String>)
    ensures
        strings_view(r@) == split_nonempty(raw@, path_sep()),
{
    let cs = chars_of(raw);
    let pat = vec![';'];
    assert(pat@ =~= path_sep());
    split_chars(&cs, &pat, true)
}

/// `paths` joined with `;`.
pub fn join_paths(paths: &[String]) -> (r: String)
    ensures
        r@ == join_with(strings_view(paths@), path_sep()),
{
    let pat = vec![';'];
    assert(pat@ =~= path_sep());
    join_strings(paths, &pat)
}

/// The non-empty `;;`-separated entries of `raw`.
pub fn split_kstat_configs(raw: &str) -> (r: Vec<String>)
    ensures
        strings_view(r@) == split_nonempty(raw@, kstat_sep()),
{
    let cs = chars_of(raw);
    let pat = vec![';', ';'];
    assert(pat@ =~= kstat_sep());
    split_chars(&cs, &pat, true)
}

/// `configs` joined with `;;`.
pub fn join_kstat_configs(configs: &[String]) -> (r: String)
    ensures
        r@ == join_with(strings_view(configs@), kstat_sep()),
{
    let pat = vec![';', ';'];
    assert(pat@ =~= kstat_sep());
    join_strings(configs, &pat)
}

/// An item survives being joined with `pat` and split again: it is not
/// empty and no occurrence of `pat` starts inside it, counting one that
/// runs into the separator that follows it.
pub open spec fn survives_split(x: Seq<char>, pat: Seq<char>) -> bool {
    &&& x.len() > 0
    &&& forall|k: int| 0 <= k < x.len() ==> !match_at(#[trigger] (x + pat), pat, k)
}

proof fn lemma_filter_all_nonempty(xs: Seq<Seq<char>>)
    requires
        forall|i: int| 0 <= i < xs.len() ==> #[trigger] xs[i].len() > 0,
    ensures
        xs.filter(|x: Seq<char>| is_nonempty(x)) == xs,
    decreases xs.len(),
{
    reveal(Seq::filter);
    if xs.len() > 0 {
        let d = xs.drop_last();
        assert forall|i: int| 0 <= i < d.len() implies #[trigger] d[i].len() > 0 by {
            assert(d[i] == xs[i]);
        }
        lemma_filter_all_nonempty(d);
        assert(d.push(xs.last()) =~= xs);
    }
}

proof fn lemma_no_match_prefix(x: Seq<char>, pat: Seq<char>, tail: Seq<char>, k: int)
    requires
        pat.len() > 0,
        0 <= k < x.len(),
        !match_at(x + pat, pat, k),
    ensures
        !match_at(x + pat + tail, pat, k),
{
    if k + pat.len() <= (x + pat + tail).len() && (x + pat + tail).subrange(k, k + pat.len()) == pat {
        assert((x + pat + tail).subrange(k, k + pat.len()) =~= (x + pat).subrange(k, k + pat.len()));
    }
}

proof fn lemma_split_join(xs: Seq<Seq<char>>, pat: Seq<char>)
    requires
        pat.len() > 0,
        xs.len() > 0,
        forall|i: int| 0 <= i < xs.len() ==> survives_split(#[trigger] xs[i], pat),
    ensures
        split_pat(join_with(xs, pat), pat) == xs,
    decreases xs.len(),
{
    let x = xs[0];
    assert(survives_split(x, pat));
    if xs.len() == 1 {
        assert(join_with(xs, pat) == x);
        assert forall|k: int| 0 <= k < x.len() implies !match_at(x, pat, k) by {
            assert(!match_at(x + pat, pat, k));
            if match_at(x, pat, k) {
                assert((x + pat).subrange(k, k + pat.len()) =~= x.subrange(k, k + pat.len()));
            }
        }
        lemma_no_first_match(x, pat, 0);
        assert(seq![x] =~= xs);
    } else {
        let d = xs.drop_first();
        assert forall|i: int| 0 <= i < d.len() implies survives_split(#[trigger] d[i], pat) by {
            assert(d[i] == xs[i + 1]);
        }
        lemma_split_join(d, pat);
        let tail = join_with(d, pat);
        let full = join_with(xs, pat);
        assert(full == x + pat + tail);
        assert forall|k: int| 0 <= k < x.len() implies !match_at(full, pat, k) by {
            lemma_no_match_prefix(x, pat, tail, k);
        }
        assert(full.subrange(x.len() as int, (x.len() + pat.len()) as int) =~= pat);
        assert(match_at(full, pat, x.len() as int));
        lemma_first_match_at(full, pat, 0, x.len() as int);
        assert(full.take(x.len() as int) =~= x);
        assert(full.skip((x.len() + pat.len()) as int) =~= tail);
        assert(seq![x] + d =~= xs);
    }
}

proof fn lemma_no_first_match(s: Seq<char>, pat: Seq<char>, j: int)
    requires
        pat.len() > 0,
        0 <= j,
        forall|k: int| j <= k < s.len() ==> !match_at(s, pat, k),
    ensures
        first_match_from(s, pat, j) == -1,
    decreases s.len() + 1 - j,
{
    if j + pat.len() <= s.len() {
        lemma_no_first_match(s, pat, j + 1);
    }
}

proof fn lemma_first_match_at(s: Seq<char>, pat: Seq<char>, j: int, m: int)
    requires
        0 <= j <= m,
        match_at(s, pat, m),
        forall|k: int| j <= k < m ==> !match_at(s, pat, k),
    ensures
        first_match_from(s, pat, j) == m,
    decreases m - j,
{
    if j < m {
        lemma_first_match_at(s, pat, j + 1, m);
    }
}

/// Law: joining items with a separator and splitting the result again
/// (dropping empty pieces) gives the items back, when every item is
/// non-empty and no separator occurrence starts inside it.
pub proof fn law_split_of_join(xs: Seq<Seq<char>>, pat: Seq<char>)
    requires
        pat.len() > 0,
        forall|i: int| 0 <= i < xs.len() ==> survives_split(#[trigger] xs[i], pat),
    ensures
        split_nonempty(join_with(xs, pat), pat) == xs,
{
    assert forall|i: int| 0 <= i < xs.len() implies #[trigger] xs[i].len() > 0 by {
        assert(survives_split(xs[i], pat));
    }
    if xs.len() == 0 {
        reveal(Seq::filter);
        let e = Seq::<char>::empty();
        assert(join_with(xs, pat) == e);
        lemma_no_first_match(e, pat, 0);
        assert(split_pat(e, pat) == seq![e]);
        reveal_with_fuel(Seq::filter, 2);
        assert(seq![e].drop_last() =~= Seq::<Seq<char>>::empty());
        assert(seq![e].filter(|x: Seq<char>| is_nonempty(x)) =~= xs);
    } else {
        lemma_split_join(xs, pat);
        lemma_filter_all_nonempty(xs);
    }
}

/// Law: `split_paths` undoes `join_paths` for paths that are non-empty and
/// contain no `;`.
pub proof fn law_split_paths_of_join_paths(xs: Seq<Seq<char>>)
    requires
        forall|i: int| 0 <= i < xs.len() ==> #[trigger] xs[i].len() > 0 && !xs[i].contains(';'),
    ensures
        split_nonempty(join_with(xs, path_sep()), path_sep()) == xs,
{
    assert forall|i: int| 0 <= i < xs.len() implies survives_split(#[trigger] xs[i], path_sep()) by {
        let x = xs[i];
        assert(x.len() > 0 && !x.contains(';'));
        assert forall|k: int| 0 <= k < x.len() implies !match_at(#[trigger] (x + path_sep()), path_sep(), k) by {
            if match_at(x + path_sep(), path_sep(), k) {
                assert((x + path_sep()).subrange(k, k + 1)[0] == ';');
                assert(x[k] == ';');
            }
        }
    }
    law_split_of_join(xs, path_sep());
}

/// Law: `split_kstat_configs` undoes `join_kstat_configs` for entries that
/// are non-empty, contain no `;;` and do not end in `;`.
pub proof fn law_split_kstat_of_join_kstat(xs: Seq<Seq<char>>)
    requires
        forall|i: int|
            0 <= i < xs.len() ==> #[trigger] xs[i].len() > 0 && xs[i].last() != ';' && (forall|k: int|
                0 <= k < xs[i].len() - 1 ==> !(#[trigger] xs[i][k] == ';' && xs[i][k + 1] == ';')),
    ensures
        split_nonempty(join_with(xs, kstat_sep()), kstat_sep()) == xs,
{
    assert forall|i: int| 0 <= i < xs.len() implies survives_split(#[trigger] xs[i], kstat_sep()) by {
        let x = xs[i];
        let p = kstat_sep();
        assert forall|k: int| 0 <= k < x.len() implies !match_at(#[trigger] (x + p), p, k) by {
            if match_at(x + p, p, k) {
                let w = (x + p).subrange(k, k + 2);
                assert(w[0] == ';' && w[1] == ';');
                assert((x + p)[k] == ';' && (x + p)[k + 1] == ';');
                if k < x.len() - 1 {
                    assert(x[k] == ';' && x[k + 1] == ';');
                } else {
                    assert(x[k] == ';');
                    assert(x.last() == ';');
                }
            }
        }
    }
    law_split_of_join(xs, kstat_sep());
}

/// Total number of characters in `xs`.
pub open spec fn total_len(xs: Seq<Seq<char>>) -> nat
    decreases xs.len(),
{
    if xs.len() == 0 {
        0
    } else {
        xs[0].len() + total_len(xs.drop_first())
    }
}

proof fn lemma_total_len_push(xs: Seq<Seq<char>>, x: Seq<char>)
    ensures
        total_len(xs.push(x)) == total_len(xs) + x.len(),
    decreases xs.len(),
{
    if xs.len() > 0 {
        assert(xs.push(x).drop_first() =~= xs.drop_first().push(x));
        assert(xs.push(x)[0] == xs[0]);
        lemma_total_len_push(xs.drop_first(), x);
    } else {
        assert(xs.push(x).drop_first() =~= Seq::<Seq<char>>::empty());
        assert(xs.push(x)[0] == x);
        assert(total_len(xs.push(x).drop_first()) == 0);
    }
}

proof fn lemma_filter_nonempty_len(xs: Seq<Seq<char>>)
    ensures
        total_len(xs.filter(|x: Seq<char>| is_nonempty(x))) == total_len(xs),
        xs.filter(|x: Seq<char>| is_nonempty(x)).len() <= xs.len(),
        (exists|i: int| 0 <= i < xs.len() && #[trigger] xs[i].len() == 0) ==> xs.filter(
            |x: Seq<char>| is_nonempty(x),
        ).len() < xs.len(),
    decreases xs.len(),
{
    reveal(Seq::filter);
    if xs.len() > 0 {
        let d = xs.drop_last();
        lemma_filter_nonempty_len(d);
        assert(d.push(xs.last()) =~= xs);
        lemma_total_len_push(d, xs.last());
        let fd = d.filter(|x: Seq<char>| is_nonempty(x));
        if is_nonempty(xs.last()) {
            lemma_total_len_push(fd, xs.last());
        }
        if exists|i: int| 0 <= i < xs.len() && #[trigger] xs[i].len() == 0 {
            let i = choose|i: int| 0 <= i < xs.len() && #[trigger] xs[i].len() == 0;
            if i < xs.len() - 1 {
                assert(d[i] == xs[i]);
            }
        }
    }
}

proof fn lemma_join_len(xs: Seq<Seq<char>>)
    requires
        xs.len() > 0,
    ensures
        join_with(xs, path_sep()).len() == total_len(xs) + xs.len() - 1,
    decreases xs.len(),
{
    assert(path_sep().len() == 1);
    if xs.len() > 1 {
        lemma_join_len(xs.drop_first());
        assert(join_with(xs, path_sep()) == xs[0] + path_sep() + join_with(xs.drop_first(), path_sep()));
    } else {
        assert(xs.drop_first().len() == 0);
        assert(total_len(xs.drop_first()) == 0);
        assert(join_with(xs, path_sep()) == xs[0]);
    }
}

proof fn lemma_join_of_split_pat(s: Seq<char>, pat: Seq<char>)
    requires
        pat.len() > 0,
    ensures
        split_pat(s, pat).len() > 0,
        join_with(split_pat(s, pat), pat) == s,
    decreases s.len(),
{
    let f = first_match_from(s, pat, 0);
    lemma_first_match_valid(s, pat, 0);
    if f >= 0 {
        let rest = s.skip(f + pat.len());
        lemma_join_of_split_pat(rest, pat);
        let xs = split_pat(s, pat);
        assert(xs == seq![s.take(f)] + split_pat(rest, pat));
        assert(xs.drop_first() =~= split_pat(rest, pat));
        assert(xs[0] == s.take(f));
        assert(s.subrange(f, f + pat.len()) == pat);
        assert(s =~= s.take(f) + pat + rest);
    }
}

/// Law: joining the entries that `split_paths` finds gives the text back
/// exactly when the text is empty or none of its `;`-separated segments is
/// empty (no leading or trailing `;` and no `;;`).
pub proof fn law_join_paths_of_split_paths(s: Seq<char>)
    ensures
        join_with(split_nonempty(s, path_sep()), path_sep()) == s <==> (s.len() == 0 || forall|i: int|
            0 <= i < split_pat(s, path_sep()).len() ==> #[trigger] split_pat(s, path_sep())[i].len() > 0),
{
    let pieces = split_pat(s, path_sep());
    let kept = split_nonempty(s, path_sep());
    lemma_join_of_split_pat(s, path_sep());
    lemma_filter_nonempty_len(pieces);
    lemma_join_len(pieces);
    if forall|i: int| 0 <= i < pieces.len() ==> #[trigger] pieces[i].len() > 0 {
        lemma_filter_all_nonempty(pieces);
        assert(kept == pieces);
        assert(join_with(kept, path_sep()) == s);
    } else if s.len() == 0 {
        assert(pieces =~= seq![s]) by {
            lemma_first_match_valid(s, path_sep(), 0);
        }
        reveal_with_fuel(Seq::filter, 2);
        assert(seq![s].drop_last() =~= Seq::<Seq<char>>::empty());
        assert(kept =~= Seq::<Seq<char>>::empty());
        assert(join_with(kept, path_sep()) == s);
    } else {
        let i = choose|i: int| 0 <= i < pieces.len() && !(#[trigger] pieces[i].len() > 0);
        assert(pieces[i].len() == 0);
        if kept.len() > 0 {
            lemma_join_len(kept);
        }
        assert(join_with(kept, path_sep()).len() < s.len());
        assert(join_with(kept, path_sep()) != s);
    }
}

/// Typed snapshot of the config for the module installer.
#[derive(Debug, Clone)]
pub struct ModuleConfig {
    pub uname_value: String,
    pub build_time_value: String,
    pub execute_in_post_fs_data: bool,
    pub sus_paths: Vec<String>,
    pub sus_loop_paths: Vec<String>,
    pub sus_maps: Vec<String>,
    pub enable_log: bool,
    pub kstat_configs: Vec<String>,
    pub add_kstat_paths: Vec<String>,
    pub hide_sus_mounts_for_all_procs: bool,
    pub enable_hide_bl: bool,
    pub enable_cleanup_residue: bool,
    pub enable_avc_log_spoofing: bool,
    pub cmdline_or_bootconfig_path: String,
}

/// The value of `key` in `m`, or the empty string when it is absent.
pub open spec fn value_or_empty(m: Map<Seq<char>, Seq<char>>, key: Seq<char>) -> Seq<char> {
    if m.dom().contains(key) {
        m[key]
    } else {
        Seq::empty()
    }
}

/// The value of `key` reads as the flag `true`.
pub open spec fn flag(m: Map<Seq<char>, Seq<char>>, key: Seq<char>) -> bool {
    value_or_empty(m, key) == "true"@
}

fn value_of(config: &ConfigMap, key: &str) -> (r: String)
    ensures
        r@ == value_or_empty(config@, key@),
{
    match config.get(key) {
        Some(v) => v.clone(),
        None => String::new(),
    }
}

fn is_true(s: &String) -> (r: bool)
    ensures
        r == (s@ == "true"@),
{
    let t = String::from_str("true");
    *s == t
}

/// `r` is the module snapshot of the config map `config`: absent keys read
/// as empty strings, flags are on only when their value is exactly `true`,
/// lists are the non-empty pieces between separators.
pub open spec fn loaded_from(r: ModuleConfig, config: Map<Seq<char>, Seq<char>>) -> bool {
    &&& r.uname_value@ == value_or_empty(config, KEY_UNAME_VALUE@)
    &&& r.build_time_value@ == value_or_empty(config, KEY_BUILD_TIME_VALUE@)
    &&& r.execute_in_post_fs_data == flag(config, KEY_EXECUTE_IN_POST_FS_DATA@)
    &&& strings_view(r.sus_paths@) == split_nonempty(value_or_empty(config, KEY_SUS_PATHS@), path_sep())
    &&& strings_view(r.sus_loop_paths@) == split_nonempty(value_or_empty(config, KEY_SUS_LOOP_PATHS@), path_sep())
    &&& strings_view(r.sus_maps@) == split_nonempty(value_or_empty(config, KEY_SUS_MAPS@), path_sep())
    &&& r.enable_log == flag(config, KEY_ENABLE_LOG@)
    &&& strings_view(r.kstat_configs@) == split_nonempty(value_or_empty(config, KEY_KSTAT_CONFIGS@), kstat_sep())
    &&& strings_view(r.add_kstat_paths@) == split_nonempty(value_or_empty(config, KEY_ADD_KSTAT_PATHS@), path_sep())
    &&& r.hide_sus_mounts_for_all_procs == flag(config, KEY_HIDE_SUS_MOUNTS_FOR_ALL_PROCS@)
    &&& r.enable_hide_bl == flag(config, KEY_ENABLE_HIDE_BL@)
    &&& r.enable_cleanup_residue == flag(config, KEY_ENABLE_CLEANUP_RESIDUE@)
    &&& r.enable_avc_log_spoofing == flag(config, KEY_ENABLE_AVC_LOG_SPOOFING@)
    &&& r.cmdline_or_bootconfig_path@ == value_or_empty(config, KEY_CMDLINE_OR_BOOTCONFIG_PATH@)
}

/// The module snapshot of a loaded config.
pub fn load_module_config(config: &ConfigMap) -> (r: ModuleConfig)
    ensures
        loaded_from(r, config@),
{
    let sus_paths_raw = value_of(config, KEY_SUS_PATHS);
    let sus_loop_paths_raw = value_of(config, KEY_SUS_LOOP_PATHS);
    let sus_maps_raw = value_of(config, KEY_SUS_MAPS);
    let kstat_configs_raw = value_of(config, KEY_KSTAT_CONFIGS);
    let add_kstat_paths_raw = value_of(config, KEY_ADD_KSTAT_PATHS);
    ModuleConfig {
        uname_value: value_of(config, KEY_UNAME_VALUE),
        build_time_value: value_of(config, KEY_BUILD_TIME_VALUE),
        execute_in_post_fs_data: is_true(&value_of(config, KEY_EXECUTE_IN_POST_FS_DATA)),
        sus_paths: split_paths(sus_paths_raw.as_str()),
        sus_loop_paths: split_paths(sus_loop_paths_raw.as_str()),
        sus_maps: split_paths(sus_maps_raw.as_str()),
        enable_log: is_true(&value_of(config, KEY_ENABLE_LOG)),
        kstat_configs: split_kstat_configs(kstat_configs_raw.as_str()),
        add_kstat_paths: split_paths(add_kstat_paths_raw.as_str()),
        hide_sus_mounts_for_all_procs: is_true(&value_of(config, KEY_HIDE_SUS_MOUNTS_FOR_ALL_PROCS)),
        enable_hide_bl: is_true(&value_of(config, KEY_ENABLE_HIDE_BL)),
        enable_cleanup_residue: is_true(&value_of(config, KEY_ENABLE_CLEANUP_RESIDUE)),
        enable_avc_log_spoofing: is_true(&value_of(config, KEY_ENABLE_AVC_LOG_SPOOFING)),
        cmdline_or_bootconfig_path: value_of(config, KEY_CMDLINE_OR_BOOTCONFIG_PATH),
    }
}

} // verus!
