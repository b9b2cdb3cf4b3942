//! The `ksu_config` ramdisk entry: space-separated settings read by
//! KernelSU's init at boot.
use vstd::prelude::*;

use crate::text::{
    chars_eq, chars_of, chars_view, find_first, in_class, is_nonempty, is_ws, join_strings, join_with,
    lemma_filter_push_one, lemma_find_from_valid, split_class, split_class_exec, starts_with,
    starts_with_exec, string_from_chars, strings_view, trim, trim_end, trim_exec, trim_start,
    utf8_to_string, CharClass,
};

verus! {

/// The settings of a `ksu_config` entry: its UTF-8 text split at spaces,
/// each piece trimmed, empty pieces dropped; nothing when the entry is
/// missing or not UTF-8.
pub open spec fn spec_parse_ksu_config(data: Option<Seq<u8>>) -> Seq<Seq<char>> {
    match data {
        Some(d) => if vstd::utf8::valid_utf8(d) {
            split_class(vstd::utf8::decode_utf8(d), CharClass::Single(' ')).map_values(
                |p: Seq<char>| trim(p, CharClass::Whitespace),
            ).filter(|x: Seq<char>| is_nonempty(x))
        } else {
            Seq::empty()
        },
        None => Seq::empty(),
    }
}

/// The settings stored in a `ksu_config` entry whose data is `data`.
pub fn read_ksu_config(data: Option<&[u8]>) -> (r: Vec<String>)
    ensures
        strings_view(r@) == spec_parse_ksu_config(
            match data {
                Some(d) => Some(d@),
                None => None,
            },
        ),
{
    let d = match data {
        None => return Vec::new(),
        Some(d) => d,
    };
    let text = match utf8_to_string(d) {
        None => return Vec::new(),
        Some(t) => t,
    };
    let cs = chars_of(text.as_str());
    let pieces = split_class_exec(&cs, CharClass::Single(' '), false);
    let ghost pv = chars_view(pieces@);
    let ghost tr = pv.map_values(|p: Seq<char>| trim(p, CharClass::Whitespace));
    let ghost f = |x: Seq<char>| is_nonempty(x);
    let mut r: Vec<String> = Vec::new();
    let mut i: usize = 0;
    proof { reveal(Seq::filter); }
    assert(tr.take(0).filter(f) =~= Seq::<Seq<char>>::empty());
    while i < pieces.len()
        invariant
            i <= pieces@.len(),
            pv == chars_view(pieces@),
            tr == pv.map_values(|p: Seq<char>| trim(p, CharClass::Whitespace)),
            f == (|x: Seq<char>| is_nonempty(x)),
            strings_view(r@) == tr.take(i as int).filter(f),
        decreases pieces@.len() - i,
    {
        let t = trim_exec(&pieces[i], CharClass::Whitespace);
        proof {
            assert(tr[i as int] == t@);
            assert(tr.take(i + 1) =~= tr.take(i as int).push(t@));
            lemma_filter_push_one(tr.take(i as int), t@, f);
        }
        if t.len() > 0 {
            let ghost old_r = r@;
            r.push(string_from_chars(t.as_slice()));
            assert(strings_view(r@) =~= strings_view(old_r).push(t@));
        }
        i = i + 1;
    }
    assert(tr.take(pieces@.len() as int) =~= tr);
    r
}

pub open spec fn ne_pred(v: Seq<char>) -> spec_fn(Seq<char>) -> bool {
    |x: Seq<char>| x != v
}

pub open spec fn no_prefix_pred(p: Seq<char>) -> spec_fn(Seq<char>) -> bool {
    |x: Seq<char>| !starts_with(x, p)
}

/// `config` with `value` present when `add` holds and absent otherwise
/// (an existing entry stays in place; a new one goes last).
pub open spec fn spec_apply_config(config: Seq<Seq<char>>, value: Seq<char>, add: bool) -> Seq<Seq<char>> {
    if add {
        if config.contains(value) {
            config
        } else {
            config.push(value)
        }
    } else if config.contains(value) {
        config.filter(ne_pred(value))
    } else {
        config
    }
}

fn contains_string(config: &Vec<String>, value: &Vec<char>) -> (r: bool)
    ensures
        r == strings_view(config@).contains(value@),
{
    let mut i: usize = 0;
    while i < config.len()
        invariant
            i <= config@.len(),
            forall|k: int| 0 <= k < i ==> config@[k]@ != value@,
        decreases config@.len() - i,
    {
        let c = chars_of(config[i].as_str());
        if chars_eq(&c, value) {
            assert(strings_view(config@)[i as int] == value@);
            return true;
        }
        i = i + 1;
    }
    proof {
        if strings_view(config@).contains(value@) {
            let k = choose|k: int| 0 <= k < strings_view(config@).len() && strings_view(config@)[k] == value@;
            assert(config@[k]@ == value@);
        }
    }
    false
}

/// Keep the entries for which `keep` says so: `keep(x)` is `x != value`
/// (`by_prefix` false) or `x` not starting with `value` (`by_prefix` true).
fn retain_strings(config: &mut Vec<String>, value: &Vec<char>, by_prefix: bool)
    ensures
        !by_prefix ==> strings_view(final(config)@) == strings_view(old(config)@).filter(ne_pred(value@)),
        by_prefix ==> strings_view(final(config)@) == strings_view(old(config)@).filter(no_prefix_pred(value@)),
{
    let ghost v = value@;
    let ghost f = if by_prefix { no_prefix_pred(v) } else { ne_pred(v) };
    let ghost src = strings_view(config@);
    let mut r: Vec<String> = Vec::new();
    let mut i: usize = 0;
    proof { reveal(Seq::filter); }
    assert(src.take(0).filter(f) =~= Seq::<Seq<char>>::empty());
    while i < config.len()
        invariant
            i <= config@.len(),
            src == strings_view(config@),
            v == value@,
            f == (if by_prefix { no_prefix_pred(v) } else { ne_pred(v) }),
            strings_view(r@) == src.take(i as int).filter(f),
        decreases config@.len() - i,
    {
        let c = chars_of(config[i].as_str());
        let keep = if by_prefix { !starts_with_exec(&c, value) } else { !chars_eq(&c, value) };
        proof {
            assert(src[i as int] == c@);
            assert(src.take(i + 1) =~= src.take(i as int).push(c@));
            lemma_filter_push_one(src.take(i as int), c@, f);
        }
        if keep {
            let ghost old_r = r@;
            r.push(config[i].clone());
            assert(strings_view(r@) =~= strings_view(old_r).push(c@));
        }
        i = i + 1;
    }
    assert(src.take(config@.len() as int) =~= src);
    *config = r;
}

/// Make `value` present (`add`) or absent in the settings.
pub fn apply_config(config: &mut Vec<String>, value: &str, add: bool)
    ensures
        strings_view(final(config)@) == spec_apply_config(strings_view(old(config)@), value@, add),
{
    let v = chars_of(value);
    let present = contains_string(config, &v);
    if add {
        if !present {
            let ghost old_c = config@;
            config.push(value.to_owned());
            assert(strings_view(config@) =~= strings_view(old_c).push(value@));
        }
    } else if present {
        retain_strings(config, &v, false);
    }
}

/// `s` with `\` and `"` escaped by a backslash.
pub open spec fn escape_quoted(s: Seq<char>) -> Seq<char>
    decreases s.len(),
{
    if s.len() == 0 {
        Seq::empty()
    } else {
        escape_quoted(s.drop_last()) + (if s.last() == '\\' {
            seq!['\\', '\\']
        } else if s.last() == '"' {
            seq!['\\', '"']
        } else {
            seq![s.last()]
        })
    }
}

/// The settings with every `key=` entry removed and, when `value` holds a
/// non-blank string, `key="value"` (trimmed, escaped) appended.
pub open spec fn spec_apply_spoof_config(config: Seq<Seq<char>>, key: Seq<char>, value: Option<Seq<char>>) -> Seq<Seq<char>> {
    let kept = config.filter(no_prefix_pred(key + seq!['=']));
    match value {
        None => kept,
        Some(v) => {
            let t = trim(v, CharClass::Whitespace);
            if t.len() == 0 {
                kept
            } else {
                kept.push(key + seq!['=', '"'] + escape_quoted(t) + seq!['"'])
            }
        },
    }
}

/// Replace the `key=` setting by `key="value"`, or drop it when `value` is
/// absent or blank.
pub fn apply_spoof_config(config: &mut Vec<String>, key: &str, value: Option<&str>)
    ensures
        strings_view(final(config)@) == spec_apply_spoof_config(
            strings_view(old(config)@),
            key@,
            match value {
                Some(v) => Some(v@),
                None => None,
            },
        ),
{
    let mut prefix = chars_of(key);
    prefix.push('=');
    assert(prefix@ =~= key@ + seq!['=']);
    retain_strings(config, &prefix, true);
    if let Some(v) = value {
        let t = trim_exec(&chars_of(v), CharClass::Whitespace);
        if t.len() > 0 {
            let mut s = chars_of(key);
            s.push('=');
            s.push('"');
            let mut i: usize = 0;
            let ghost s0 = s@;
            assert(s0 =~= key@ + seq!['=', '"']);
            assert(escape_quoted(t@.take(0)) =~= Seq::<char>::empty());
            while i < t.len()
                invariant
                    i <= t@.len(),
                    s@ == s0 + escape_quoted(t@.take(i as int)),
                decreases t@.len() - i,
            {
                let c = t[i];
                if c == '\\' {
                    s.push('\\');
                    s.push('\\');
                } else if c == '"' {
                    s.push('\\');
                    s.push('"');
                } else {
                    s.push(c);
                }
                assert(t@.take(i + 1).drop_last() =~= t@.take(i as int));
                assert(s@ =~= s0 + escape_quoted(t@.take(i + 1)));
                i = i + 1;
            }
            assert(t@.take(t@.len() as int) =~= t@);
            s.push('"');
            assert(s@ =~= key@ + seq!['=', '"'] + escape_quoted(t@) + seq!['"']);
            let ghost old_c = config@;
            config.push(string_from_chars(s.as_slice()));
            assert(strings_view(config@) =~= strings_view(old_c).push(s@));
        }
    }
}

/// The bytes of the `ksu_config` entry for `config`: `None` (entry
/// removed) when there are no settings, otherwise the settings joined with
/// spaces.
pub fn ksu_config_data(config: &Vec<String>) -> (r: Option<Vec<u8>>)
    ensures
        strings_view(config@).len() == 0 ==> r is None,
        strings_view(config@).len() > 0 ==> (r matches Some(b) && b@ == vstd::utf8::encode_utf8(
            crate::text::join_with(strings_view(config@), seq![' ']),
        )),
{
    if config.len() == 0 {
        return None;
    }
    let sp = vec![' '];
    assert(sp@ =~= seq![' ']);
    let s = join_strings(config.as_slice(), &sp);
    Some(vstd::slice::slice_to_vec(s.as_str().as_bytes()))
}

} // verus!

verus! {

pub open spec fn prefix_pred(p: Seq<char>) -> spec_fn(Seq<char>) -> bool {
    |x: Seq<char>| starts_with(x, p)
}

/// A filter keeps a sequence whose every element passes it.
proof fn lemma_filter_keeps_all(s: Seq<Seq<char>>, f: spec_fn(Seq<char>) -> bool)
    requires
        forall|i: int| 0 <= i < s.len() ==> f(#[trigger] s[i]),
    ensures
        s.filter(f) == s,
    decreases s.len(),
{
    reveal(Seq::filter);
    if s.len() > 0 {
        assert forall|i: int| 0 <= i < s.drop_last().len() implies f(#[trigger] s.drop_last()[i]) by {
            assert(s.drop_last()[i] == s[i]);
        }
        lemma_filter_keeps_all(s.drop_last(), f);
        assert(f(s[s.len() - 1]));
        assert(s.drop_last().push(s.last()) =~= s);
    }
}

/// A filter drops a sequence whose every element fails it.
proof fn lemma_filter_drops_all(s: Seq<Seq<char>>, f: spec_fn(Seq<char>) -> bool)
    requires
        forall|i: int| 0 <= i < s.len() ==> !f(#[trigger] s[i]),
    ensures
        s.filter(f) == Seq::<Seq<char>>::empty(),
    decreases s.len(),
{
    reveal(Seq::filter);
    if s.len() > 0 {
        assert forall|i: int| 0 <= i < s.drop_last().len() implies !f(#[trigger] s.drop_last()[i]) by {
            assert(s.drop_last()[i] == s[i]);
        }
        lemma_filter_drops_all(s.drop_last(), f);
        assert(!f(s[s.len() - 1]));
    }
}

proof fn lemma_filter_passes(s: Seq<Seq<char>>, f: spec_fn(Seq<char>) -> bool)
    ensures
        forall|i: int| 0 <= i < s.filter(f).len() ==> f(#[trigger] s.filter(f)[i]),
{
    broadcast use Seq::lemma_filter_pred;
}

/// After `apply_config`, the setting is present exactly when it was to be
/// added.
pub proof fn law_apply_config_presence(config: Seq<Seq<char>>, value: Seq<char>, add: bool)
    ensures
        spec_apply_config(config, value, add).contains(value) == add,
{
    if add {
        if !config.contains(value) {
            assert(config.push(value)[config.len() as int] == value);
        }
    } else if config.contains(value) {
        let r = config.filter(ne_pred(value));
        lemma_filter_passes(config, ne_pred(value));
        if r.contains(value) {
            let i = choose|i: int| 0 <= i < r.len() && r[i] == value;
            assert(ne_pred(value)(r[i]));
        }
    }
}

/// `apply_config` leaves the presence of every other setting as it was.
pub proof fn lemma_apply_config_keeps_other(config: Seq<Seq<char>>, value: Seq<char>, add: bool, w: Seq<char>)
    requires
        w != value,
    ensures
        spec_apply_config(config, value, add).contains(w) == config.contains(w),
{
    broadcast use vstd::seq_lib::group_filter_ensures;
    if add {
        if !config.contains(value) {
            let r = config.push(value);
            if config.contains(w) {
                let i = choose|i: int| 0 <= i < config.len() && config[i] == w;
                assert(r[i] == w);
            }
            if r.contains(w) {
                let i = choose|i: int| 0 <= i < r.len() && r[i] == w;
                assert(i < config.len());
                assert(config[i] == w);
            }
        }
    } else if config.contains(value) {
        let r = config.filter(ne_pred(value));
        if config.contains(w) {
            let i = choose|i: int| 0 <= i < config.len() && config[i] == w;
            assert(ne_pred(value)(config[i]));
        }
        if r.contains(w) {
            config.lemma_filter_contains_rev(ne_pred(value), w);
        }
    }
}

/// `apply_spoof_config` leaves the presence of every setting that is not
/// a `key=` setting as it was.
pub proof fn lemma_apply_spoof_keeps_other(config: Seq<Seq<char>>, key: Seq<char>, value: Option<Seq<char>>, w: Seq<char>)
    requires
        !starts_with(w, key + seq!['=']),
    ensures
        spec_apply_spoof_config(config, key, value).contains(w) == config.contains(w),
{
    broadcast use vstd::seq_lib::group_filter_ensures;
    let p = key + seq!['='];
    let kept = config.filter(no_prefix_pred(p));
    assert(kept.contains(w) == config.contains(w)) by {
        if config.contains(w) {
            let i = choose|i: int| 0 <= i < config.len() && config[i] == w;
            assert(no_prefix_pred(p)(config[i]));
        }
        if kept.contains(w) {
            config.lemma_filter_contains_rev(no_prefix_pred(p), w);
        }
    }
    match value {
        Some(v) => {
            if trim(v, CharClass::Whitespace).len() > 0 {
                let e = key + seq!['=', '"'] + escape_quoted(trim(v, CharClass::Whitespace)) + seq!['"'];
                lemma_spoof_entry_prefix(key, v);
                assert(e == spoof_entry(key, v));
                assert(e != w);
                let r = kept.push(e);
                if kept.contains(w) {
                    let i = choose|i: int| 0 <= i < kept.len() && kept[i] == w;
                    assert(r[i] == w);
                }
                if r.contains(w) {
                    let i = choose|i: int| 0 <= i < r.len() && r[i] == w;
                    assert(i < kept.len());
                    assert(kept[i] == w);
                }
            }
        },
        None => {},
    }
}

/// Applying the same `apply_config` twice changes nothing more.
pub proof fn law_apply_config_idempotent(config: Seq<Seq<char>>, value: Seq<char>, add: bool)
    ensures
        spec_apply_config(spec_apply_config(config, value, add), value, add) == spec_apply_config(config, value, add),
{
    law_apply_config_presence(config, value, add);
}

/// The entry that `apply_spoof_config` writes for a non-blank value.
pub open spec fn spoof_entry(key: Seq<char>, value: Seq<char>) -> Seq<char> {
    key + seq!['=', '"'] + escape_quoted(trim(value, CharClass::Whitespace)) + seq!['"']
}

proof fn lemma_spoof_entry_prefix(key: Seq<char>, value: Seq<char>)
    ensures
        starts_with(spoof_entry(key, value), key + seq!['=']),
{
    let e = spoof_entry(key, value);
    assert(e.take((key + seq!['=']).len() as int) =~= key + seq!['=']);
}

/// After `apply_spoof_config`, the only `key=` setting is the new one when
/// the value is non-blank, and there is none otherwise.
pub proof fn law_apply_spoof_config_single(config: Seq<Seq<char>>, key: Seq<char>, value: Option<Seq<char>>)
    ensures
        spec_apply_spoof_config(config, key, value).filter(prefix_pred(key + seq!['='])) == match value {
            Some(v) => if trim(v, CharClass::Whitespace).len() > 0 {
                seq![spoof_entry(key, v)]
            } else {
                Seq::<Seq<char>>::empty()
            },
            None => Seq::<Seq<char>>::empty(),
        },
{
    let p = key + seq!['='];
    let kept = config.filter(no_prefix_pred(p));
    lemma_filter_passes(config, no_prefix_pred(p));
    assert forall|i: int| 0 <= i < kept.len() implies !prefix_pred(p)(#[trigger] kept[i]) by {
        assert(no_prefix_pred(p)(kept[i]));
    }
    lemma_filter_drops_all(kept, prefix_pred(p));
    match value {
        Some(v) => {
            if trim(v, CharClass::Whitespace).len() > 0 {
                lemma_spoof_entry_prefix(key, v);
                lemma_filter_push_one(kept, spoof_entry(key, v), prefix_pred(p));
                assert(Seq::<Seq<char>>::empty().push(spoof_entry(key, v)) =~= seq![spoof_entry(key, v)]);
            }
        },
        None => {},
    }
}

/// Applying the same `apply_spoof_config` twice changes nothing more.
pub proof fn law_apply_spoof_config_idempotent(config: Seq<Seq<char>>, key: Seq<char>, value: Option<Seq<char>>)
    ensures
        spec_apply_spoof_config(spec_apply_spoof_config(config, key, value), key, value)
            == spec_apply_spoof_config(config, key, value),
{
    let p = key + seq!['='];
    let kept = config.filter(no_prefix_pred(p));
    lemma_filter_passes(config, no_prefix_pred(p));
    lemma_filter_keeps_all(kept, no_prefix_pred(p));
    match value {
        Some(v) => {
            if trim(v, CharClass::Whitespace).len() > 0 {
                lemma_spoof_entry_prefix(key, v);
                lemma_filter_push_one(kept, spoof_entry(key, v), no_prefix_pred(p));
            }
        },
        None => {},
    }
}

} // verus!

verus! {

/// A setting that survives being written and read back: non-empty, with no
/// whitespace in it.
pub open spec fn is_word(s: Seq<char>) -> bool {
    s.len() > 0 && forall|i: int| 0 <= i < s.len() ==> !is_ws(#[trigger] s[i])
}

/// The `ksu_config` entry written for `config`: none for no settings, else
/// the settings joined with spaces.
pub open spec fn spec_config_entry(config: Seq<Seq<char>>) -> Option<Seq<u8>> {
    if config.len() == 0 {
        None
    } else {
        Some(vstd::utf8::encode_utf8(join_with(config, seq![' '])))
    }
}

proof fn lemma_trim_word(s: Seq<char>)
    requires
        is_word(s),
    ensures
        trim(s, CharClass::Whitespace) == s,
{
    assert(!is_ws(s[0]));
    assert(trim_start(s, CharClass::Whitespace) == s);
    assert(!is_ws(s[s.len() - 1]));
    assert(trim_end(s, CharClass::Whitespace) == s);
}

proof fn lemma_split_joined_words(c: Seq<Seq<char>>)
    requires
        c.len() > 0,
        forall|i: int| 0 <= i < c.len() ==> is_word(#[trigger] c[i]),
    ensures
        split_class(join_with(c, seq![' ']), CharClass::Single(' ')) == c,
    decreases c.len(),
{
    let w = c[0];
    assert(is_word(w));
    assert(forall|k: int| 0 <= k < w.len() ==> !in_class(#[trigger] w[k], CharClass::Single(' '))) by {
        assert forall|k: int| 0 <= k < w.len() implies !in_class(#[trigger] w[k], CharClass::Single(' ')) by {
            assert(!is_ws(w[k]));
        }
    }
    if c.len() == 1 {
        lemma_find_from_valid(w, CharClass::Single(' '), 0);
        if find_first(w, CharClass::Single(' ')) >= 0 {
            let k = find_first(w, CharClass::Single(' '));
            assert(in_class(w[k], CharClass::Single(' ')));
        }
    } else {
        let rest = c.drop_first();
        assert forall|i: int| 0 <= i < rest.len() implies is_word(#[trigger] rest[i]) by {
            assert(rest[i] == c[i + 1]);
        }
        lemma_split_joined_words(rest);
        let j = w + seq![' '] + join_with(rest, seq![' ']);
        assert(join_with(c, seq![' ']) == j);
        lemma_find_from_valid(j, CharClass::Single(' '), 0);
        let f = find_first(j, CharClass::Single(' '));
        assert(j[w.len() as int] == ' ');
        assert forall|k: int| 0 <= k < w.len() implies !in_class(#[trigger] j[k], CharClass::Single(' ')) by {
            assert(j[k] == w[k]);
        }
        assert(f == w.len());
        assert(j.take(f) =~= w);
        assert(j.skip(f + 1) =~= join_with(rest, seq![' ']));
        assert(seq![w] + rest =~= c);
    }
}

/// The settings read back from the entry written for them are the same
/// settings, when each is a non-empty word.
pub proof fn law_read_ksu_config_of_written(config: Seq<Seq<char>>)
    requires
        forall|i: int| 0 <= i < config.len() ==> is_word(#[trigger] config[i]),
    ensures
        spec_parse_ksu_config(spec_config_entry(config)) == config,
{
    if config.len() > 0 {
        let text = join_with(config, seq![' ']);
        vstd::utf8::encode_utf8_valid_utf8(text);
        vstd::utf8::encode_utf8_decode_utf8(text);
        lemma_split_joined_words(config);
        let trimmed = config.map_values(|p: Seq<char>| trim(p, CharClass::Whitespace));
        assert(trimmed =~= config) by {
            assert forall|i: int| 0 <= i < config.len() implies trimmed[i] == config[i] by {
                lemma_trim_word(config[i]);
            }
        }
        assert forall|i: int| 0 <= i < config.len() implies (|x: Seq<char>| is_nonempty(x))(#[trigger] config[i]) by {
            assert(is_word(config[i]));
        }
        lemma_filter_keeps_all(config, |x: Seq<char>| is_nonempty(x));
    }
}

} // verus!
