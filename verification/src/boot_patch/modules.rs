//! Vendor kernel-module removal: recognising module files and rewriting
//! the `modules.*` index files that mention them.
use vstd::prelude::*;
use vstd::utf8::encode_utf8;

use crate::text::{
    chars_eq_str, chars_of, chars_view, find_last, join_chars, is_nonempty, join_with, last_segment,
    last_segment_exec, lower_ascii, lower_ascii_exec, replace_char, replace_char_exec,
    split_once, split_once_exec, starts_with, starts_with_str, strings_view, strip_suffix,
    strip_suffix_str, sub_chars, trim, trim_end, trim_end_exec, trim_exec, trim_start,
    trim_start_exec, words, words_exec, CharClass, string_from_chars, push_char,
};

verus! {

/// Module names removed from a vendor_boot ramdisk by default.
pub const DEFAULT_VENDOR_RMVR_MODULES: [&'static str; 2] = ["vr", "vklp"];

/// What a vendor-module cleanup changed.
#[derive(Debug, Default, PartialEq, Eq, Structural)]
pub struct VendorModuleCleanupReport {
    pub removed_modules: usize,
    pub updated_indexes: usize,
}

impl VendorModuleCleanupReport {
    /// Something was removed or rewritten.
    pub fn changed(&self) -> (r: bool)
        ensures
            r == (self.removed_modules > 0 || self.updated_indexes > 0),
    {
        self.removed_modules > 0 || self.updated_indexes > 0
    }

    /// Add the counts of `other`.
    pub fn merge(&mut self, other: Self)
        requires
            old(self).removed_modules + other.removed_modules <= usize::MAX,
            old(self).updated_indexes + other.updated_indexes <= usize::MAX,
        ensures
            final(self).removed_modules == old(self).removed_modules + other.removed_modules,
            final(self).updated_indexes == old(self).updated_indexes + other.updated_indexes,
    {
        self.removed_modules = self.removed_modules + other.removed_modules;
        self.updated_indexes = self.updated_indexes + other.updated_indexes;
    }
}

/// `name` without one compression suffix (`.gz`, `.xz`, `.zst`, `.lz4`,
/// tried in that order).
pub open spec fn spec_strip_compression(name: Seq<char>) -> Seq<char> {
    if strip_suffix(name, ".gz"@) is Some {
        strip_suffix(name, ".gz"@)->0
    } else if strip_suffix(name, ".xz"@) is Some {
        strip_suffix(name, ".xz"@)->0
    } else if strip_suffix(name, ".zst"@) is Some {
        strip_suffix(name, ".zst"@)->0
    } else if strip_suffix(name, ".lz4"@) is Some {
        strip_suffix(name, ".lz4"@)->0
    } else {
        name
    }
}

pub fn strip_module_compression_suffix(name: &Vec<char>) -> (r: Vec<char>)
    ensures
        r@ == spec_strip_compression(name@),
{
    if let Some(t) = strip_suffix_str(name, ".gz") {
        return t;
    }
    if let Some(t) = strip_suffix_str(name, ".xz") {
        return t;
    }
    if let Some(t) = strip_suffix_str(name, ".zst") {
        return t;
    }
    if let Some(t) = strip_suffix_str(name, ".lz4") {
        return t;
    }
    sub_chars(name, 0, name.len())
}

/// The file-name part of a module reference, after trimming whitespace and
/// then `:` / `,` from both ends.
pub open spec fn module_basename(value: Seq<char>) -> Seq<char> {
    last_segment(trim(trim(value, CharClass::Whitespace), CharClass::ColonOrComma), CharClass::Single('/'))
}

/// The normalised module name of a reference: basename without
/// compression and `.ko` suffixes, `-` replaced by `_`, ASCII lower case.
/// `None` when the name is empty, or when `require_ko_suffix` holds and
/// there is no `.ko` suffix.
pub open spec fn spec_normalize_module_stem(value: Seq<char>, require_ko_suffix: bool) -> Option<Seq<char>> {
    let basename = spec_strip_compression(module_basename(value));
    let stem = if strip_suffix(basename, ".ko"@) is Some {
        Some(strip_suffix(basename, ".ko"@)->0)
    } else if require_ko_suffix {
        None
    } else {
        Some(basename)
    };
    match stem {
        None => None,
        Some(st) => if st.len() == 0 {
            None
        } else {
            Some(lower_ascii(replace_char(st, '-', '_')))
        },
    }
}

pub fn normalize_module_stem(value: &str, require_ko_suffix: bool) -> (r: Option<String>)
    ensures
        match spec_normalize_module_stem(value@, require_ko_suffix) {
            None => r is None,
            Some(st) => r matches Some(s) && s@ == st,
        },
{
    match normalize_stem_chars(&chars_of(value), require_ko_suffix) {
        None => None,
        Some(st) => Some(string_from_chars(st.as_slice())),
    }
}

fn normalize_stem_chars(v: &Vec<char>, require_ko_suffix: bool) -> (r: Option<Vec<char>>)
    ensures
        match spec_normalize_module_stem(v@, require_ko_suffix) {
            None => r is None,
            Some(st) => r matches Some(s) && s@ == st,
        },
{
    let t1 = trim_exec(v, CharClass::Whitespace);
    let t2 = trim_exec(&t1, CharClass::ColonOrComma);
    let base = last_segment_exec(&t2, CharClass::Single('/'));
    let base = strip_module_compression_suffix(&base);
    let stem = match strip_suffix_str(&base, ".ko") {
        Some(st) => st,
        None => {
            if require_ko_suffix {
                return None;
            }
            base
        },
    };
    if stem.len() == 0 {
        return None;
    }
    let replaced = replace_char_exec(&stem, '-', '_');
    Some(lower_ascii_exec(&replaced))
}

/// `value` names one of `targets`.
pub open spec fn spec_is_target_reference(value: Seq<char>, targets: Seq<Seq<char>>) -> bool {
    match spec_normalize_module_stem(value, false) {
        Some(st) => targets.contains(st),
        None => false,
    }
}

fn contains_name(targets: &[String], name: &Vec<char>) -> (r: bool)
    ensures
        r == strings_view(targets@).contains(name@),
{
    let mut i: usize = 0;
    while i < targets.len()
        invariant
            i <= targets@.len(),
            forall|k: int| 0 <= k < i ==> targets@[k]@ != name@,
        decreases targets@.len() - i,
    {
        if chars_eq_str(name, targets[i].as_str()) {
            assert(strings_view(targets@)[i as int] == name@);
            return true;
        }
        i = i + 1;
    }
    proof {
        if strings_view(targets@).contains(name@) {
            let k = choose|k: int| 0 <= k < strings_view(targets@).len() && strings_view(targets@)[k] == name@;
            assert(targets@[k]@ == name@);
        }
    }
    false
}

fn is_target_ref_chars(value: &Vec<char>, targets: &[String]) -> (r: bool)
    ensures
        r == spec_is_target_reference(value@, strings_view(targets@)),
{
    match normalize_stem_chars(value, false) {
        Some(st) => contains_name(targets, &st),
        None => false,
    }
}

pub fn is_target_module_reference(value: &str, targets: &[String]) -> (r: bool)
    ensures
        r == spec_is_target_reference(value@, strings_view(targets@)),
{
    is_target_ref_chars(&chars_of(value), targets)
}

/// `path` without leading `/` characters and then without leading `./`
/// pairs.
pub open spec fn strip_dot_slashes(s: Seq<char>) -> Seq<char>
    decreases s.len(),
{
    if starts_with(s, seq!['.', '/']) {
        strip_dot_slashes(s.skip(2))
    } else {
        s
    }
}

pub open spec fn spec_normalized_cpio_path(path: Seq<char>) -> Seq<char> {
    strip_dot_slashes(trim_start(path, CharClass::Single('/')))
}

proof fn lemma_strip_dot_slash_step(t: Seq<char>, start: int)
    requires
        0 <= start,
        start + 2 <= t.len(),
        t[start] == '.',
        t[start + 1] == '/',
    ensures
        strip_dot_slashes(t.skip(start)) == strip_dot_slashes(t.skip(start + 2)),
{
    let u = t.skip(start);
    assert(u.take(2) =~= seq!['.', '/']);
    assert(u.skip(2) =~= t.skip(start + 2));
}

fn normalized_path_chars(path: &Vec<char>) -> (r: Vec<char>)
    ensures
        r@ == spec_normalized_cpio_path(path@),
{
    let t = trim_start_exec(path, CharClass::Single('/'));
    let mut start: usize = 0;
    let n = t.len();
    assert(t@.skip(0) =~= t@);
    while start < n && n - start >= 2 && t[start] == '.' && t[start + 1] == '/'
        invariant
            start <= n,
            n == t@.len(),
            strip_dot_slashes(t@) == strip_dot_slashes(t@.skip(start as int)),
        decreases n - start,
    {
        proof { lemma_strip_dot_slash_step(t@, start as int); }
        start = start + 2;
    }
    let r = sub_chars(&t, start, n);
    proof {
        let u = t@.skip(start as int);
        if starts_with(u, seq!['.', '/']) {
            assert(u.take(2)[0] == '.' && u.take(2)[1] == '/');
            assert(n - start >= 2);
            assert(t@[start as int] == '.' && t@[start + 1] == '/');
        }
        assert(r@ =~= u);
    }
    r
}

pub fn normalized_cpio_path(path: &str) -> (r: String)
    ensures
        r@ == spec_normalized_cpio_path(path@),
{
    let r = normalized_path_chars(&chars_of(path));
    string_from_chars(r.as_slice())
}

/// `path` is a kernel module file under `lib/modules/` that names one of
/// `targets`.
pub open spec fn spec_is_target_module_path(path: Seq<char>, targets: Seq<Seq<char>>) -> bool {
    let p = spec_normalized_cpio_path(path);
    starts_with(p, "lib/modules/"@) && match spec_normalize_module_stem(p, true) {
        Some(st) => targets.contains(st),
        None => false,
    }
}

pub fn is_target_module_path(path: &str, targets: &[String]) -> (r: bool)
    ensures
        r == spec_is_target_module_path(path@, strings_view(targets@)),
{
    let p = normalized_path_chars(&chars_of(path));
    if !starts_with_str(&p, "lib/modules/") {
        return false;
    }
    match normalize_stem_chars(&p, true) {
        Some(st) => contains_name(targets, &st),
        None => false,
    }
}

/// The index files whose lines are rewritten.
pub open spec fn spec_is_index_name(name: Seq<char>) -> bool {
    ||| name == "modules.dep"@
    ||| name == "modules.softdep"@
    ||| name == "modules.alias"@
    ||| name == "modules.options"@
    ||| name == "modules.blocklist"@
    ||| name == "modules.load"@
    ||| name == "modules.order"@
    ||| starts_with(name, "modules.load."@)
}

pub open spec fn spec_is_supported_module_index(path: Seq<char>) -> bool {
    let p = spec_normalized_cpio_path(path);
    starts_with(p, "lib/modules/"@) && spec_is_index_name(last_segment(p, CharClass::Single('/')))
}

pub fn is_supported_module_index(path: &str) -> (r: bool)
    ensures
        r == spec_is_supported_module_index(path@),
{
    let p = normalized_path_chars(&chars_of(path));
    if !starts_with_str(&p, "lib/modules/") {
        return false;
    }
    let name = last_segment_exec(&p, CharClass::Single('/'));
    chars_eq_str(&name, "modules.dep") || chars_eq_str(&name, "modules.softdep")
        || chars_eq_str(&name, "modules.alias") || chars_eq_str(&name, "modules.options")
        || chars_eq_str(&name, "modules.blocklist") || chars_eq_str(&name, "modules.load")
        || chars_eq_str(&name, "modules.order") || starts_with_str(&name, "modules.load.")
}

} // verus!

verus! {

/// A line rebuilt from its content, with the `#` comment put back.
pub open spec fn attach_comment(rebuilt: Seq<char>, comment: Option<Seq<char>>) -> Seq<char> {
    match comment {
        None => rebuilt,
        Some(c) => (if rebuilt.len() > 0 && rebuilt.last() != ' ' {
            rebuilt.push(' ')
        } else {
            rebuilt
        }) + seq!['#'] + c,
    }
}

pub open spec fn not_target(targets: Seq<Seq<char>>) -> spec_fn(Seq<char>) -> bool {
    |d: Seq<char>| !spec_is_target_reference(d, targets)
}

pub open spec fn softdep_keep(targets: Seq<Seq<char>>) -> spec_fn(Seq<char>) -> bool {
    |t: Seq<char>| t == "softdep"@ || t == "pre:"@ || t == "post:"@ || !spec_is_target_reference(t, targets)
}

/// A line of the index file `index_name` with the references to
/// `targets` removed; `None` when the whole line is dropped.
pub open spec fn spec_rewrite_module_index_line(
    index_name: Seq<char>,
    line: Seq<char>,
    targets: Seq<Seq<char>>,
) -> Option<Seq<char>> {
    let trimmed = trim(line, CharClass::Whitespace);
    if trimmed.len() == 0 || starts_with(trimmed, seq!['#']) {
        Some(line)
    } else {
        let content = match split_once(line, CharClass::Single('#')) {
            Some((body, _)) => body,
            None => line,
        };
        let comment = match split_once(line, CharClass::Single('#')) {
            Some((_, tail)) => Some(tail),
            None => None,
        };
        let tokens = words(content);
        if index_name == "modules.dep"@ {
            match split_once(content, CharClass::Single(':')) {
                None => Some(line),
                Some((module, deps)) => if spec_is_target_reference(module, targets) {
                    None
                } else {
                    let kept = words(deps).filter(not_target(targets));
                    let m = trim_end(module, CharClass::Whitespace);
                    let rebuilt = if kept.len() == 0 {
                        m + seq![':']
                    } else {
                        m + seq![':', ' '] + join_with(kept, seq![' '])
                    };
                    Some(attach_comment(rebuilt, comment))
                },
            }
        } else if index_name == "modules.softdep"@ {
            if tokens.len() >= 2 && spec_is_target_reference(tokens[1], targets) {
                None
            } else {
                Some(attach_comment(join_with(tokens.filter(softdep_keep(targets)), seq![' ']), comment))
            }
        } else if index_name == "modules.alias"@ {
            if tokens.len() > 0 && tokens[0] == "alias"@ && spec_is_target_reference(tokens.last(), targets) {
                None
            } else {
                Some(line)
            }
        } else if index_name == "modules.options"@ || index_name == "modules.blocklist"@ {
            if tokens.len() >= 2 && spec_is_target_reference(tokens[1], targets) {
                None
            } else {
                Some(line)
            }
        } else if index_name == "modules.load"@ || starts_with(index_name, "modules.load."@)
            || index_name == "modules.order"@ {
            if tokens.len() > 0 && spec_is_target_reference(tokens[0], targets) {
                None
            } else {
                Some(line)
            }
        } else {
            Some(line)
        }
    }
}

fn attach_comment_exec(rebuilt: Vec<char>, comment: &Option<Vec<char>>) -> (r: Vec<char>)
    ensures
        r@ == attach_comment(rebuilt@, match comment {
            Some(c) => Some(c@),
            None => None,
        }),
{
    match comment {
        None => rebuilt,
        Some(c) => {
            let mut r = rebuilt;
            if r.len() > 0 && r[r.len() - 1] != ' ' {
                r.push(' ');
            }
            r.push('#');
            let mut k: usize = 0;
            let ghost r0 = r@;
            while k < c.len()
                invariant
                    k <= c@.len(),
                    r@ == r0 + c@.take(k as int),
                decreases c@.len() - k,
            {
                r.push(c[k]);
                assert(c@.take(k + 1) =~= c@.take(k as int).push(c@[k as int]));
                k = k + 1;
            }
            assert(c@.take(c@.len() as int) =~= c@);
            r
        },
    }
}

/// Keep the tokens that are not references to `targets` (for a softdep
/// line, also keep its keywords).
fn filter_tokens(tokens: &Vec<Vec<char>>, targets: &[String], softdep: bool) -> (r: Vec<Vec<char>>)
    ensures
        !softdep ==> chars_view(r@) == chars_view(tokens@).filter(not_target(strings_view(targets@))),
        softdep ==> chars_view(r@) == chars_view(tokens@).filter(softdep_keep(strings_view(targets@))),
{
    let ghost tv = strings_view(targets@);
    let ghost p = if softdep { softdep_keep(tv) } else { not_target(tv) };
    let mut r: Vec<Vec<char>> = Vec::new();
    let mut i: usize = 0;
    proof { reveal(Seq::filter); }
    assert(chars_view(tokens@).take(0).filter(p) =~= Seq::<Seq<char>>::empty());
    while i < tokens.len()
        invariant
            i <= tokens@.len(),
            tv == strings_view(targets@),
            p == (if softdep { softdep_keep(tv) } else { not_target(tv) }),
            chars_view(r@) == chars_view(tokens@).take(i as int).filter(p),
        decreases tokens@.len() - i,
    {
        let t = &tokens[i];
        let keep = if softdep {
            chars_eq_str(t, "softdep") || chars_eq_str(t, "pre:") || chars_eq_str(t, "post:")
                || !is_target_ref_chars(t, targets)
        } else {
            !is_target_ref_chars(t, targets)
        };
        proof {
            let tk = chars_view(tokens@).take(i as int);
            assert(chars_view(tokens@).take(i + 1) =~= tk.push(t@));
            crate::text::lemma_filter_push_one(tk, t@, p);
        }
        if keep {
            let ghost old_r = r@;
            let c = sub_chars(t, 0, t.len());
            assert(c@ =~= t@);
            r.push(c);
            assert(chars_view(r@) =~= chars_view(old_r).push(t@));
        }
        i = i + 1;
    }
    assert(chars_view(tokens@).take(tokens@.len() as int) =~= chars_view(tokens@));
    r
}


fn rewrite_line_chars(index_name: &Vec<char>, line: &Vec<char>, targets: &[String]) -> (r: Option<Vec<char>>)
    ensures
        match spec_rewrite_module_index_line(index_name@, line@, strings_view(targets@)) {
            None => r is None,
            Some(l) => r matches Some(x) && x@ == l,
        },
{
    let ghost tv = strings_view(targets@);
    let trimmed = trim_exec(line, CharClass::Whitespace);
    if trimmed.len() == 0 || starts_with_str(&trimmed, "#") {
        proof {
            reveal_strlit("#");
            assert(seq!['#'] =~= "#"@);
        }
        return Some(sub_chars(line, 0, line.len()));
    }
    proof {
        reveal_strlit("#");
        assert(seq!['#'] =~= "#"@);
    }
    let (content, comment) = match split_once_exec(line, CharClass::Single('#')) {
        Some((body, tail)) => (body, Some(tail)),
        None => (sub_chars(line, 0, line.len()), None),
    };
    assert(line@.subrange(0, line@.len() as int) =~= line@);
    let tokens = words_exec(&content);
    let keep_line = Some(sub_chars(line, 0, line.len()));
    if chars_eq_str(index_name, "modules.dep") {
        match split_once_exec(&content, CharClass::Single(':')) {
            None => keep_line,
            Some((module, deps)) => {
                if is_target_ref_chars(&module, targets) {
                    None
                } else {
                    let dep_words = words_exec(&deps);
                    let kept = filter_tokens(&dep_words, targets, false);
                    let mut rebuilt = trim_end_exec(&module, CharClass::Whitespace);
                    rebuilt.push(':');
                    if kept.len() > 0 {
                        rebuilt.push(' ');
                        let sp = vec![' '];
                        assert(sp@ =~= seq![' ']);
                        let joined = join_chars(&kept, &sp);
                        let mut k: usize = 0;
                        let ghost r0 = rebuilt@;
                        while k < joined.len()
                            invariant
                                k <= joined@.len(),
                                rebuilt@ == r0 + joined@.take(k as int),
                            decreases joined@.len() - k,
                        {
                            rebuilt.push(joined[k]);
                            assert(joined@.take(k + 1) =~= joined@.take(k as int).push(joined@[k as int]));
                            k = k + 1;
                        }
                        assert(joined@.take(joined@.len() as int) =~= joined@);
                    }
                    Some(attach_comment_exec(rebuilt, &comment))
                }
            },
        }
    } else if chars_eq_str(index_name, "modules.softdep") {
        if tokens.len() >= 2 && is_target_ref_chars(&tokens[1], targets) {
            None
        } else {
            let kept = filter_tokens(&tokens, targets, true);
            let sp = vec![' '];
            assert(sp@ =~= seq![' ']);
            let joined = join_chars(&kept, &sp);
            Some(attach_comment_exec(joined, &comment))
        }
    } else if chars_eq_str(index_name, "modules.alias") {
        if tokens.len() > 0 && chars_eq_str(&tokens[0], "alias")
            && is_target_ref_chars(&tokens[tokens.len() - 1], targets) {
            None
        } else {
            keep_line
        }
    } else if chars_eq_str(index_name, "modules.options") || chars_eq_str(index_name, "modules.blocklist") {
        if tokens.len() >= 2 && is_target_ref_chars(&tokens[1], targets) {
            None
        } else {
            keep_line
        }
    } else if chars_eq_str(index_name, "modules.load") || starts_with_str(index_name, "modules.load.")
        || chars_eq_str(index_name, "modules.order") {
        if tokens.len() > 0 && is_target_ref_chars(&tokens[0], targets) {
            None
        } else {
            keep_line
        }
    } else {
        keep_line
    }
}

/// A line of the index file `index_name` with its references to `targets`
/// removed; `None` when the whole line goes.
pub fn rewrite_module_index_line(index_name: &str, line: &str, targets: &[String]) -> (r: Option<String>)
    ensures
        match spec_rewrite_module_index_line(index_name@, line@, strings_view(targets@)) {
            None => r is None,
            Some(l) => r matches Some(x) && x@ == l,
        },
{
    match rewrite_line_chars(&chars_of(index_name), &chars_of(line), targets) {
        None => None,
        Some(x) => Some(string_from_chars(x.as_slice())),
    }
}

} // verus!

verus! {

/// A module index file that is not UTF-8 text.
#[derive(Debug, Clone, Copy, PartialEq, Eq, Structural)]
pub enum ModuleIndexError {
    NotUtf8,
}

/// `p` without one trailing `\r`.
pub open spec fn strip_one_cr(p: Seq<char>) -> Seq<char> {
    if p.len() > 0 && p.last() == '\r' {
        p.drop_last()
    } else {
        p
    }
}

/// The lines of `s` as `str::lines` yields them: split at `\n`, a `\r`
/// right before a `\n` removed, no empty line after a final `\n`.
pub open spec fn text_lines(s: Seq<char>) -> Seq<Seq<char>> {
    let parts = crate::text::split_class(s, CharClass::Single('\n'));
    let n = if parts.last().len() == 0 { parts.len() - 1 } else { parts.len() as int };
    Seq::new(n as nat, |i: int| if i < parts.len() - 1 { strip_one_cr(parts[i]) } else { parts[i] })
}

/// The rewritten lines kept, and whether any line was dropped or changed.
pub open spec fn rewrite_lines(
    index_name: Seq<char>,
    lines: Seq<Seq<char>>,
    targets: Seq<Seq<char>>,
) -> (Seq<Seq<char>>, bool)
    decreases lines.len(),
{
    if lines.len() == 0 {
        (Seq::empty(), false)
    } else {
        let (out, changed) = rewrite_lines(index_name, lines.drop_last(), targets);
        let l = lines.last();
        match spec_rewrite_module_index_line(index_name, trim_end(l, CharClass::Single('\r')), targets) {
            Some(rebuilt) => (out.push(rebuilt), changed || rebuilt != l),
            None => (out, true),
        }
    }
}

/// The new contents of the index file at `index_path`: `None` when no line
/// changes, otherwise the kept lines joined with `\n`, ending in `\n` when
/// the file did and the result is not empty.
pub open spec fn spec_rewrite_module_index(
    index_path: Seq<char>,
    data: Seq<u8>,
    targets: Seq<Seq<char>>,
) -> Result<Option<Seq<u8>>, ModuleIndexError> {
    if !vstd::utf8::valid_utf8(data) {
        Err(ModuleIndexError::NotUtf8)
    } else {
        let text = vstd::utf8::decode_utf8(data);
        let index_name = last_segment(index_path, CharClass::Single('/'));
        let (out, changed) = rewrite_lines(index_name, text_lines(text), targets);
        if !changed {
            Ok(None)
        } else {
            let joined = join_with(out, seq!['\n']);
            let trailing = text.len() > 0 && text.last() == '\n';
            let body = if trailing && joined.len() > 0 { joined.push('\n') } else { joined };
            Ok(Some(encode_utf8(body)))
        }
    }
}

fn text_lines_exec(text: &Vec<char>) -> (r: Vec<Vec<char>>)
    ensures
        chars_view(r@) == text_lines(text@),
{
    let parts = crate::text::split_class_exec(text, CharClass::Single('\n'), false);
    let ghost pv = chars_view(parts@);
    proof {
        lemma_split_class_nonempty(text@, CharClass::Single('\n'));
    }
    let np = parts.len();
    let n = if parts[np - 1].len() == 0 { np - 1 } else { np };
    let mut r: Vec<Vec<char>> = Vec::new();
    let mut i: usize = 0;
    while i < n
        invariant
            np == parts@.len(),
            np >= 1,
            n <= np,
            i <= n,
            pv == chars_view(parts@),
            pv == crate::text::split_class(text@, CharClass::Single('\n')),
            n == (if pv.last().len() == 0 { pv.len() - 1 } else { pv.len() as int }),
            chars_view(r@) == text_lines(text@).take(i as int),
            text_lines(text@).len() == n,
        decreases n - i,
    {
        let p = &parts[i];
        let l = if i < np - 1 && p.len() > 0 && p[p.len() - 1] == '\r' {
            sub_chars(p, 0, p.len() - 1)
        } else {
            sub_chars(p, 0, p.len())
        };
        proof {
            assert(pv[i as int] == p@);
            if i < np - 1 && p@.len() > 0 && p@.last() == '\r' {
                assert(l@ =~= p@.drop_last());
            } else {
                assert(l@ =~= p@);
            }
            let parts_s = crate::text::split_class(text@, CharClass::Single('\n'));
            assert(parts_s == pv);
            assert(text_lines(text@)[i as int] == (if i < pv.len() - 1 { strip_one_cr(pv[i as int]) } else { pv[i as int] }));
            assert(l@ == text_lines(text@)[i as int]);
        }
        let ghost old_r = r@;
        r.push(l);
        assert(chars_view(r@) =~= chars_view(old_r).push(l@));
        assert(text_lines(text@).take(i + 1) =~= text_lines(text@).take(i as int).push(l@));
        i = i + 1;
    }
    assert(text_lines(text@).take(n as int) =~= text_lines(text@));
    r
}

proof fn lemma_split_class_nonempty(s: Seq<char>, cls: CharClass)
    ensures
        crate::text::split_class(s, cls).len() >= 1,
    decreases s.len(),
{
    let i = crate::text::find_first(s, cls);
    if i >= 0 {
        crate::text::lemma_find_from_valid(s, cls, 0);
        lemma_split_class_nonempty(s.skip(i + 1), cls);
    }
}

/// The new contents of the module index at `index_path` with the
/// references to `targets` removed; `Ok(None)` when nothing changes.
pub fn rewrite_module_index(index_path: &str, data: &[u8], targets: &[String]) -> (r: Result<
    Option<Vec<u8>>,
    ModuleIndexError,
>)
    ensures
        match spec_rewrite_module_index(index_path@, data@, strings_view(targets@)) {
            Err(e) => r == Err::<Option<Vec<u8>>, ModuleIndexError>(e),
            Ok(None) => r matches Ok(None),
            Ok(Some(b)) => r matches Ok(Some(v)) && v@ == b,
        },
{
    let ghost tv = strings_view(targets@);
    let index_name = last_segment_exec(&chars_of(index_path), CharClass::Single('/'));
    let text = match crate::text::utf8_to_string(data) {
        None => return Err(ModuleIndexError::NotUtf8),
        Some(t) => t,
    };
    let tc = chars_of(text.as_str());
    let trailing = tc.len() > 0 && tc[tc.len() - 1] == '\n';
    let lines = text_lines_exec(&tc);
    let ghost lv = chars_view(lines@);
    let mut out: Vec<Vec<char>> = Vec::new();
    let mut changed = false;
    let mut i: usize = 0;
    assert(lv.take(0) =~= Seq::<Seq<char>>::empty());
    while i < lines.len()
        invariant
            i <= lines@.len(),
            lv == chars_view(lines@),
            tv == strings_view(targets@),
            rewrite_lines(index_name@, lv.take(i as int), tv) == (chars_view(out@), changed),
        decreases lines@.len() - i,
    {
        let l = &lines[i];
        let arg = trim_end_exec(l, CharClass::Single('\r'));
        let res = rewrite_line_chars(&index_name, &arg, targets);
        proof {
            assert(lv.take(i + 1).drop_last() =~= lv.take(i as int));
            assert(lv.take(i + 1).last() == l@);
        }
        match res {
            Some(rebuilt) => {
                let same = crate::text::chars_eq(&rebuilt, l);
                changed = changed || !same;
                let ghost old_out = out@;
                out.push(rebuilt);
                assert(chars_view(out@) =~= chars_view(old_out).push(out@.last()@));
            },
            None => {
                changed = true;
            },
        }
        i = i + 1;
    }
    assert(lv.take(lines@.len() as int) =~= lv);
    if !changed {
        return Ok(None);
    }
    let nl = vec!['\n'];
    assert(nl@ =~= seq!['\n']);
    let mut body = join_chars(&out, &nl);
    if trailing && body.len() > 0 {
        body.push('\n');
    }
    let s = string_from_chars(body.as_slice());
    let bytes = vstd::slice::slice_to_vec(s.as_str().as_bytes());
    Ok(Some(bytes))
}

} // verus!

verus! {

/// `trim_end` keeps a prefix and drops only characters of the class.
proof fn lemma_trim_end_prefix(s: Seq<char>, cls: CharClass) -> (e: int)
    ensures
        0 <= e <= s.len(),
        trim_end(s, cls) == s.take(e),
        forall|k: int| e <= k < s.len() ==> crate::text::in_class(#[trigger] s[k], cls),
    decreases s.len(),
{
    if s.len() > 0 && crate::text::in_class(s.last(), cls) {
        let e = lemma_trim_end_prefix(s.drop_last(), cls);
        assert(s.drop_last().take(e) =~= s.take(e));
        assert forall|k: int| e <= k < s.len() implies crate::text::in_class(#[trigger] s[k], cls) by {
            if k < s.len() - 1 {
                assert(s.drop_last()[k] == s[k]);
            }
        }
        e
    } else {
        assert(s.take(s.len() as int) =~= s);
        s.len() as int
    }
}

/// Cutting `s` after its last `/`-class character keeps that character
/// the last one.
proof fn lemma_find_last_take(s: Seq<char>, cls: CharClass, e: int)
    requires
        find_last(s, cls) + 1 < e <= s.len(),
    ensures
        find_last(s.take(e), cls) == find_last(s, cls),
{
    let q = find_last(s, cls);
    let t = s.take(e);
    crate::text::lemma_find_last_valid(s, cls);
    crate::text::lemma_find_last_valid(t, cls);
    let r = find_last(t, cls);
    if q >= 0 {
        assert(t[q] == s[q]);
        if r < q {
            assert(crate::text::in_class(t[q], cls));
        }
        if r > q {
            assert(t[r] == s[r]);
        }
    } else {
        if r >= 0 {
            assert(t[r] == s[r]);
        }
    }
}

/// A value whose last `/`-separated segment starts with a character that
/// is neither whitespace nor `:` / `,`, and that starts with such a
/// character, has that segment's first character as the first character
/// of its module basename.
proof fn lemma_module_basename_first(p: Seq<char>)
    requires
        p.len() > 0,
        !crate::text::is_ws(p[0]),
        p[0] != ':' && p[0] != ',',
        find_last(p, CharClass::Single('/')) + 1 < p.len(),
        !crate::text::is_ws(p[find_last(p, CharClass::Single('/')) + 1]),
        p[find_last(p, CharClass::Single('/')) + 1] != ':',
        p[find_last(p, CharClass::Single('/')) + 1] != ',',
    ensures
        module_basename(p).len() > 0,
        module_basename(p)[0] == p[find_last(p, CharClass::Single('/')) + 1],
{
    let slash = CharClass::Single('/');
    let q = find_last(p, slash);
    crate::text::lemma_find_last_valid(p, slash);
    assert(trim_start(p, CharClass::Whitespace) == p);
    let e1 = lemma_trim_end_prefix(p, CharClass::Whitespace);
    let p1 = p.take(e1);
    if e1 <= q + 1 {
        assert(crate::text::in_class(p[q + 1], CharClass::Whitespace));
    }
    assert(p1[0] == p[0]);
    assert(trim_start(p1, CharClass::ColonOrComma) == p1);
    let e2 = lemma_trim_end_prefix(p1, CharClass::ColonOrComma);
    let p2 = p1.take(e2);
    if e2 <= q + 1 {
        assert(p1[q + 1] == p[q + 1]);
        assert(crate::text::in_class(p1[q + 1], CharClass::ColonOrComma));
    }
    assert(p2 =~= p.take(e2));
    lemma_find_last_take(p, slash, e2);
    assert(module_basename(p) == p2.skip(q + 1));
    assert(p2.skip(q + 1)[0] == p[q + 1]);
}

/// A module index file is never taken for a target module: its name
/// starts with `modules.`, no target does.
pub proof fn lemma_index_not_target(path: Seq<char>)
    requires
        spec_is_supported_module_index(path),
    ensures
        !spec_is_target_module_path(path, seq!["vr"@, "vklp"@]),
{
    let p = spec_normalized_cpio_path(path);
    let slash = CharClass::Single('/');
    let name = last_segment(p, slash);
    let q = find_last(p, slash);
    crate::text::lemma_find_last_valid(p, slash);
    reveal_strlit("lib/modules/");
    reveal_strlit("modules.dep");
    reveal_strlit("modules.softdep");
    reveal_strlit("modules.alias");
    reveal_strlit("modules.options");
    reveal_strlit("modules.blocklist");
    reveal_strlit("modules.load");
    reveal_strlit("modules.order");
    reveal_strlit("modules.load.");
    reveal_strlit("vr");
    reveal_strlit("vklp");
    reveal_strlit(".gz");
    reveal_strlit(".xz");
    reveal_strlit(".zst");
    reveal_strlit(".lz4");
    reveal_strlit(".ko");
    assert(starts_with(p, "lib/modules/"@));
    assert(p.take(12)[0] == p[0]);
    assert(p[0] == 'l');
    assert(spec_is_index_name(name));
    assert(name.len() > 0 && name[0] == 'm') by {
        if starts_with(name, "modules.load."@) {
            assert(name.take(13)[0] == name[0]);
        }
    }
    assert(name == p.skip(q + 1));
    assert(p[q + 1] == 'm');
    lemma_module_basename_first(p);
    let mb = module_basename(p);
    if spec_is_target_module_path(path, seq!["vr"@, "vklp"@]) {
        let basename = spec_strip_compression(mb);
        assert(basename.len() == 0 || basename[0] == 'm') by {
            if strip_suffix(mb, ".gz"@) is Some {
                assert(basename == mb.take(mb.len() - 3));
            } else if strip_suffix(mb, ".xz"@) is Some {
                assert(basename == mb.take(mb.len() - 3));
            } else if strip_suffix(mb, ".zst"@) is Some {
                assert(basename == mb.take(mb.len() - 4));
            } else if strip_suffix(mb, ".lz4"@) is Some {
                assert(basename == mb.take(mb.len() - 4));
            }
            if basename.len() > 0 {
                assert(basename[0] == mb[0]);
            }
        }
        let st = spec_normalize_module_stem(p, true)->0;
        let stem = strip_suffix(basename, ".ko"@)->0;
        assert(stem.len() > 0);
        assert(stem == basename.take(basename.len() - 3));
        assert(stem[0] == 'm');
        assert(st == lower_ascii(replace_char(stem, '-', '_')));
        assert(st[0] == 'm');
        assert(seq!["vr"@, "vklp"@].contains(st));
        let i = choose|i: int| 0 <= i < 2 && seq!["vr"@, "vklp"@][i] == st;
        assert(seq!["vr"@, "vklp"@][i][0] == 'v');
    }
}

} // verus!
