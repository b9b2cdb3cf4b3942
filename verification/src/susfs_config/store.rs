//! Operations on the whole config: single-key reads and writes, clearing,
//! the default config and the JSON export.
use vstd::prelude::*;
use vstd::relations::sorted_by;

use crate::susfs_config::binary::{read_binary, spec_read_binary, ConfigFormatError};
use crate::susfs_config::config_map::{map_of, ConfigMap};
use crate::susfs_config::keys::{
    KEY_ADD_KSTAT_PATHS, KEY_AUTO_START_ENABLED, KEY_BUILD_TIME_VALUE, KEY_ENABLE_AVC_LOG_SPOOFING,
    KEY_ENABLE_CLEANUP_RESIDUE, KEY_ENABLE_HIDE_BL, KEY_ENABLE_LOG, KEY_EXECUTE_IN_POST_FS_DATA,
    KEY_HIDE_SUS_MOUNTS_FOR_ALL_PROCS, KEY_KSTAT_CONFIGS, KEY_SUS_LOOP_PATHS, KEY_SUS_MAPS,
    KEY_SUS_PATHS, KEY_UNAME_VALUE,
};
use crate::susfs_config::json::{json_member, push_json_string};
use crate::susfs_config::module::value_or_empty;
use crate::text::{chars_of, join_strings, join_with, push_char, string_from_chars, strings_view};

verus! {

/// The config held by a file: an empty map when there is no file,
/// otherwise the decoded contents.
pub fn load_config(contents: Option<&[u8]>) -> (r: Result<ConfigMap, ConfigFormatError>)
    ensures
        contents is None ==> (r matches Ok(m) && m@ == Map::<Seq<char>, Seq<char>>::empty()),
        contents matches Some(data) ==> (match spec_read_binary(data@) {
            Ok(rs) => r matches Ok(m) && m@ == map_of(rs),
            Err(e) => r matches Err(e2) && e2 == e,
        }),
{
    match contents {
        None => Ok(ConfigMap::new()),
        Some(data) => read_binary(data),
    }
}

/// The value stored for `key`, or the empty string.
pub fn get(config: &ConfigMap, key: &str) -> (r: String)
    ensures
        r@ == value_or_empty(config@, key@),
{
    match config.get(key) {
        Some(v) => v.clone(),
        None => String::new(),
    }
}

/// Store `value` under `key`.
pub fn set(config: &mut ConfigMap, key: &str, value: &str)
    ensures
        final(config)@ == old(config)@.insert(key@, value@),
{
    config.insert(key.to_owned(), value.to_owned());
}

/// Delete `key`.
pub fn remove(config: &mut ConfigMap, key: &str)
    ensures
        final(config)@ == old(config)@.remove(key@),
{
    config.remove(key);
}

/// Drop every entry.
pub fn clear(config: &mut ConfigMap)
    ensures
        final(config)@ == Map::<Seq<char>, Seq<char>>::empty(),
{
    *config = ConfigMap::new();
}

/// The config written by "reset to defaults".
pub open spec fn default_config() -> Map<Seq<char>, Seq<char>> {
    Map::empty()
        .insert(KEY_UNAME_VALUE@, "default"@)
        .insert(KEY_BUILD_TIME_VALUE@, "default"@)
        .insert(KEY_AUTO_START_ENABLED@, "false"@)
        .insert(KEY_SUS_PATHS@, Seq::empty())
        .insert(KEY_SUS_LOOP_PATHS@, Seq::empty())
        .insert(KEY_SUS_MAPS@, Seq::empty())
        .insert(KEY_ENABLE_LOG@, "false"@)
        .insert(KEY_EXECUTE_IN_POST_FS_DATA@, "false"@)
        .insert(KEY_KSTAT_CONFIGS@, Seq::empty())
        .insert(KEY_ADD_KSTAT_PATHS@, Seq::empty())
        .insert(KEY_HIDE_SUS_MOUNTS_FOR_ALL_PROCS@, "true"@)
        .insert(KEY_ENABLE_CLEANUP_RESIDUE@, "false"@)
        .insert(KEY_ENABLE_HIDE_BL@, "true"@)
        .insert(KEY_ENABLE_AVC_LOG_SPOOFING@, "false"@)
}

/// The default config.
pub fn reset_to_defaults() -> (r: ConfigMap)
    ensures
        r@ == default_config(),
{
    let mut config = ConfigMap::new();
    config.insert(KEY_UNAME_VALUE.to_owned(), "default".to_owned());
    config.insert(KEY_BUILD_TIME_VALUE.to_owned(), "default".to_owned());
    config.insert(KEY_AUTO_START_ENABLED.to_owned(), "false".to_owned());
    config.insert(KEY_SUS_PATHS.to_owned(), String::new());
    config.insert(KEY_SUS_LOOP_PATHS.to_owned(), String::new());
    config.insert(KEY_SUS_MAPS.to_owned(), String::new());
    config.insert(KEY_ENABLE_LOG.to_owned(), "false".to_owned());
    config.insert(KEY_EXECUTE_IN_POST_FS_DATA.to_owned(), "false".to_owned());
    config.insert(KEY_KSTAT_CONFIGS.to_owned(), String::new());
    config.insert(KEY_ADD_KSTAT_PATHS.to_owned(), String::new());
    config.insert(KEY_HIDE_SUS_MOUNTS_FOR_ALL_PROCS.to_owned(), "true".to_owned());
    config.insert(KEY_ENABLE_CLEANUP_RESIDUE.to_owned(), "false".to_owned());
    config.insert(KEY_ENABLE_HIDE_BL.to_owned(), "true".to_owned());
    config.insert(KEY_ENABLE_AVC_LOG_SPOOFING.to_owned(), "false".to_owned());
    config
}

/// Code-point lexicographic order on character sequences, the order of
/// `str`'s `Ord` (UTF-8 byte order agrees with code-point order).
pub open spec fn lex_le(a: Seq<char>, b: Seq<char>) -> bool
    decreases a.len(),
{
    if a.len() == 0 {
        true
    } else if b.len() == 0 {
        false
    } else if a[0] != b[0] {
        a[0] < b[0]
    } else {
        lex_le(a.drop_first(), b.drop_first())
    }
}

pub proof fn lemma_lex_total(a: Seq<char>, b: Seq<char>)
    ensures
        lex_le(a, b) || lex_le(b, a),
    decreases a.len(),
{
    if a.len() > 0 && b.len() > 0 && a[0] == b[0] {
        lemma_lex_total(a.drop_first(), b.drop_first());
    }
}

pub proof fn lemma_lex_trans(a: Seq<char>, b: Seq<char>, c: Seq<char>)
    requires
        lex_le(a, b),
        lex_le(b, c),
    ensures
        lex_le(a, c),
    decreases a.len(),
{
    if a.len() > 0 && b.len() > 0 && c.len() > 0 && a[0] == b[0] && b[0] == c[0] {
        lemma_lex_trans(a.drop_first(), b.drop_first(), c.drop_first());
    }
}

fn lex_le_exec(a: &Vec<char>, b: &Vec<char>) -> (r: bool)
    ensures
        r == lex_le(a@, b@),
{
    let mut i: usize = 0;
    assert(a@.skip(0) =~= a@ && b@.skip(0) =~= b@);
    while i < a.len() && i < b.len()
        invariant
            i <= a@.len(),
            i <= b@.len(),
            lex_le(a@, b@) == lex_le(a@.skip(i as int), b@.skip(i as int)),
        decreases a@.len() - i,
    {
        if a[i] != b[i] {
            return a[i] < b[i];
        }
        assert(a@.skip(i as int).drop_first() =~= a@.skip(i + 1));
        assert(b@.skip(i as int).drop_first() =~= b@.skip(i + 1));
        i = i + 1;
    }
    i == a.len()
}

pub open spec fn lex_le_fn() -> spec_fn(Seq<char>, Seq<char>) -> bool {
    |a: Seq<char>, b: Seq<char>| lex_le(a, b)
}

proof fn lemma_insert_multiset(s: Seq<Seq<char>>, p: int, x: Seq<char>)
    requires
        0 <= p <= s.len(),
    ensures
        s.insert(p, x).to_multiset() == s.to_multiset().insert(x),
{
    broadcast use vstd::seq_lib::group_to_multiset_ensures;
    let t = s.insert(p, x);
    assert(t.remove(p) =~= s);
    assert(t[p] == x);
    assert(t.remove(p).to_multiset() =~= t.to_multiset().remove(x));
    assert(t.to_multiset().count(x) > 0) by {
        assert(t.contains(x));
    }
    assert(t.to_multiset() =~= s.to_multiset().insert(x));
}

pub open spec fn lines_view(v: Seq<Vec<char>>) -> Seq<Seq<char>> {
    v.map_values(|l: Vec<char>| l@)
}

pub open spec fn export_members(es: Seq<(Seq<char>, Seq<char>)>) -> Seq<Seq<char>> {
    es.map_values(|e: (Seq<char>, Seq<char>)| json_member(e.0, e.1))
}

/// The JSON object text with the given members, in the given order.
pub open spec fn json_object(members: Seq<Seq<char>>) -> Seq<char> {
    seq!['{'] + join_with(members, seq![',']) + seq!['}']
}

/// Sort lines in `lex_le` order (insertion sort).
fn sort_lines(lines: Vec<Vec<char>>) -> (r: Vec<Vec<char>>)
    ensures
        sorted_by(lines_view(r@), lex_le_fn()),
        lines_view(r@).to_multiset() == lines_view(lines@).to_multiset(),
{
    let ghost input = lines_view(lines@);
    let mut out: Vec<Vec<char>> = Vec::new();
    let mut i: usize = 0;
    let n = lines.len();
    assert(input.take(0) =~= Seq::<Seq<char>>::empty());
    assert(lines_view(out@) =~= Seq::<Seq<char>>::empty());
    while i < n
        invariant
            n == lines@.len(),
            i <= n,
            input == lines_view(lines@),
            sorted_by(lines_view(out@), lex_le_fn()),
            lines_view(out@).to_multiset() == input.take(i as int).to_multiset(),
        decreases n - i,
    {
        let x = lines[i].clone();
        let ghost cur = lines_view(out@);
        let mut p: usize = 0;
        while p < out.len() && lex_le_exec(&out[p], &x)
            invariant
                p <= out@.len(),
                cur == lines_view(out@),
                forall|k: int| 0 <= k < p ==> lex_le(#[trigger] cur[k], x@),
            decreases out@.len() - p,
        {
            assert(cur[p as int] == out@[p as int]@);
            p = p + 1;
        }
        proof {
            if p < out.len() {
                assert(cur[p as int] == out@[p as int]@);
                lemma_lex_total(cur[p as int], x@);
            }
        }
        let ghost old_out = out@;
        out.insert(p, x);
        proof {
            let nw = lines_view(out@);
            assert(out@ == old_out.insert(p as int, x));
            assert forall|k: int| 0 <= k < nw.len() implies nw[k] == cur.insert(p as int, x@)[k] by {
                if k < p {
                    assert(out@[k] == old_out[k]);
                } else if k > p {
                    assert(out@[k] == old_out[k - 1]);
                }
            }
            assert(nw =~= cur.insert(p as int, x@));
            assert forall|a: int, b: int| 0 <= a < b < nw.len() implies #[trigger] (lex_le_fn())(nw[a], nw[b]) by {
                if b < p {
                    assert(nw[a] == cur[a] && nw[b] == cur[b]);
                } else if b == p {
                    assert(nw[a] == cur[a]);
                } else if a < p {
                    assert(nw[a] == cur[a] && nw[b] == cur[b - 1]);
                    assert(lex_le(x@, cur[p as int]));
                    if b - 1 > p {
                        assert((lex_le_fn())(cur[p as int], cur[b - 1]));
                        lemma_lex_trans(x@, cur[p as int], cur[b - 1]);
                    }
                    lemma_lex_trans(cur[a], x@, cur[b - 1]);
                } else if a == p {
                    assert(nw[b] == cur[b - 1]);
                    if b - 1 > p {
                        assert((lex_le_fn())(cur[p as int], cur[b - 1]));
                        lemma_lex_trans(x@, cur[p as int], cur[b - 1]);
                    }
                } else {
                    assert(nw[a] == cur[a - 1] && nw[b] == cur[b - 1]);
                }
            }
            lemma_insert_multiset(cur, p as int, x@);
            assert(input.take(i + 1) =~= input.take(i as int).push(input[i as int]));
            broadcast use vstd::seq_lib::group_to_multiset_ensures;
        }
        i = i + 1;
    }
    assert(input.take(n as int) =~= input);
    out
}

/// The whole config as a JSON object: one `"key":"value"` member per
/// entry, keys and values as escaped JSON strings, members in `lex_le`
/// order of their text.
pub fn export_json(config: &ConfigMap) -> (r: String)
    ensures
        exists|members: Seq<Seq<char>>|
            #![trigger json_object(members)]
            {
                &&& sorted_by(members, lex_le_fn())
                &&& members.to_multiset() == export_members(config.entry_seq()).to_multiset()
                &&& r@ == json_object(members)
            },
{
    let n = config.len();
    let ghost es = config.entry_seq();
    let mut lines: Vec<Vec<char>> = Vec::new();
    let mut i: usize = 0;
    while i < n
        invariant
            n == es.len(),
            es == config.entry_seq(),
            i <= n,
            lines_view(lines@) == export_members(es.take(i as int)),
        decreases n - i,
    {
        let (k, v) = config.entry(i);
        let kc = chars_of(k.as_str());
        let vc = chars_of(v.as_str());
        let mut line: Vec<char> = Vec::new();
        push_json_string(&mut line, &kc);
        line.push(':');
        push_json_string(&mut line, &vc);
        assert(line@ =~= json_member(es[i as int].0, es[i as int].1));
        let ghost old_lines = lines@;
        assert(lines_view(old_lines).len() == i);
        lines.push(line);
        assert forall|q: int| 0 <= q < i + 1 implies #[trigger] lines_view(lines@)[q] == export_members(es.take(i + 1))[q] by {
            if q < i {
                assert(lines@[q] == old_lines[q]);
                assert(lines_view(old_lines)[q] == export_members(es.take(i as int))[q]);
            }
        }
        assert(lines_view(lines@) =~= export_members(es.take(i + 1)));
        i = i + 1;
    }
    assert(es.take(n as int) =~= es);
    let sorted = sort_lines(lines);
    let mut strs: Vec<String> = Vec::new();
    let mut t: usize = 0;
    while t < sorted.len()
        invariant
            t <= sorted@.len(),
            strings_view(strs@) == lines_view(sorted@.take(t as int)),
        decreases sorted@.len() - t,
    {
        let ghost old_strs = strs@;
        assert(strings_view(old_strs).len() == t);
        strs.push(string_from_chars(sorted[t].as_slice()));
        assert forall|q: int| 0 <= q < t + 1 implies #[trigger] strings_view(strs@)[q] == lines_view(sorted@.take(t + 1))[q] by {
            if q < t {
                assert(strs@[q] == old_strs[q]);
                assert(strings_view(old_strs)[q] == lines_view(sorted@.take(t as int))[q]);
            }
        }
        assert(strings_view(strs@) =~= lines_view(sorted@.take(t + 1)));
        t = t + 1;
    }
    assert(sorted@.take(sorted@.len() as int) =~= sorted@);
    assert(strings_view(strs@) == lines_view(sorted@));
    let comma = vec![','];
    assert(comma@ =~= seq![',']);
    let body = join_strings(strs.as_slice(), &comma);
    assert(sorted_by(strings_view(strs@), lex_le_fn()));
    let mut bc = chars_of(body.as_str());
    let mut out: Vec<char> = vec!['{'];
    out.append(&mut bc);
    out.push('}');
    assert(out@ =~= json_object(strings_view(strs@)));
    string_from_chars(out.as_slice())
}

} // verus!

verus! {

/// A value read back after `set` is the value set.
pub proof fn law_get_after_set(config: Map<Seq<char>, Seq<char>>, key: Seq<char>, value: Seq<char>)
    ensures
        value_or_empty(config.insert(key, value), key) == value,
{
}

/// `set` on one key leaves every other key's value as it was.
pub proof fn law_set_keeps_other_keys(
    config: Map<Seq<char>, Seq<char>>,
    key: Seq<char>,
    value: Seq<char>,
    other: Seq<char>,
)
    requires
        other != key,
    ensures
        value_or_empty(config.insert(key, value), other) == value_or_empty(config, other),
{
}

/// A key read after `remove` reads as empty.
pub proof fn law_get_after_remove(config: Map<Seq<char>, Seq<char>>, key: Seq<char>)
    ensures
        value_or_empty(config.remove(key), key) == Seq::<char>::empty(),
{
}

/// Every key of a cleared config reads as empty.
pub proof fn law_get_after_clear(key: Seq<char>)
    ensures
        value_or_empty(Map::<Seq<char>, Seq<char>>::empty(), key) == Seq::<char>::empty(),
{
}

} // verus!
