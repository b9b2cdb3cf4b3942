//! Laws of the module-index rewrite: a rewritten index is rewritten to
//! itself.
use vstd::prelude::*;

use crate::boot_patch::modules::{
    attach_comment, module_basename, not_target, spec_normalize_module_stem, spec_strip_compression, rewrite_lines, softdep_keep, spec_is_target_reference,
    spec_rewrite_module_index, spec_rewrite_module_index_line, strip_one_cr, text_lines,
};
use crate::text::{
    ascii_lower, find_last, lemma_find_last_valid, lower_ascii, replace_char, strip_suffix, last_segment, find_first, find_from, in_class, is_nonempty, is_ws, join_with, lemma_find_from_valid, split_class,
    split_once, starts_with, trim, trim_end, trim_start, words, CharClass,
};

verus! {

broadcast use vstd::seq_lib::group_seq_properties;

/// `s` has no character of class `cls`.
pub open spec fn free_of(s: Seq<char>, cls: CharClass) -> bool {
    forall|k: int| 0 <= k < s.len() ==> !in_class(#[trigger] s[k], cls)
}

/// `s` has no character equal to `c`.
pub open spec fn lacks(s: Seq<char>, c: char) -> bool {
    forall|k: int| 0 <= k < s.len() ==> #[trigger] s[k] != c
}

/// A word: not empty, no whitespace.
pub open spec fn is_word(w: Seq<char>) -> bool {
    w.len() > 0 && free_of(w, CharClass::Whitespace)
}

proof fn lemma_find_from_at(s: Seq<char>, cls: CharClass, j: int, i: int)
    requires
        0 <= j <= i < s.len(),
        in_class(s[i], cls),
        forall|k: int| j <= k < i ==> !in_class(#[trigger] s[k], cls),
    ensures
        find_from(s, cls, j) == i,
    decreases i - j,
{
    if j < i {
        lemma_find_from_at(s, cls, j + 1, i);
    }
}

proof fn lemma_find_from_none(s: Seq<char>, cls: CharClass, j: int)
    requires
        0 <= j,
        forall|k: int| j <= k < s.len() ==> !in_class(#[trigger] s[k], cls),
    ensures
        find_from(s, cls, j) == -1,
    decreases s.len() - j,
{
    if j < s.len() {
        lemma_find_from_none(s, cls, j + 1);
    }
}

proof fn lemma_split_class_free(s: Seq<char>, cls: CharClass)
    requires
        free_of(s, cls),
    ensures
        split_class(s, cls) == seq![s],
{
    lemma_find_from_none(s, cls, 0);
}

proof fn lemma_split_class_cons(a: Seq<char>, c: char, b: Seq<char>, cls: CharClass)
    requires
        free_of(a, cls),
        in_class(c, cls),
    ensures
        split_class(a + seq![c] + b, cls) == seq![a] + split_class(b, cls),
{
    let s = a + seq![c] + b;
    assert forall|k: int| 0 <= k < a.len() implies !in_class(#[trigger] s[k], cls) by {
        assert(s[k] == a[k]);
    }
    lemma_find_from_at(s, cls, 0, a.len() as int);
    assert(s.take(a.len() as int) =~= a);
    assert(s.skip(a.len() as int + 1) =~= b);
}

proof fn lemma_split_class_snoc(x: Seq<char>, c: char, cls: CharClass)
    requires
        in_class(c, cls),
    ensures
        split_class(x + seq![c], cls) == split_class(x, cls) + seq![Seq::<char>::empty()],
    decreases x.len(),
{
    let i = find_first(x, cls);
    lemma_find_from_valid(x, cls, 0);
    if i < 0 {
        lemma_split_class_free(x, cls);
        lemma_split_class_free(Seq::<char>::empty(), cls);
        assert(x + seq![c] =~= x + seq![c] + Seq::<char>::empty());
        lemma_split_class_cons(x, c, Seq::<char>::empty(), cls);
    } else {
        let a = x.take(i);
        let b = x.skip(i + 1);
        assert(free_of(a, cls)) by {
            assert forall|k: int| 0 <= k < a.len() implies !in_class(#[trigger] a[k], cls) by {
                assert(a[k] == x[k]);
            }
        }
        assert(x =~= a + seq![x[i]] + b);
        assert(x + seq![c] =~= a + seq![x[i]] + (b + seq![c]));
        lemma_split_class_cons(a, x[i], b, cls);
        lemma_split_class_cons(a, x[i], b + seq![c], cls);
        lemma_split_class_snoc(b, c, cls);
        assert(seq![a] + (split_class(b, cls) + seq![Seq::<char>::empty()]) =~= (seq![a] + split_class(b, cls))
            + seq![Seq::<char>::empty()]);
    }
}

proof fn lemma_filter_keep_all(xs: Seq<Seq<char>>, p: spec_fn(Seq<char>) -> bool)
    requires
        forall|i: int| 0 <= i < xs.len() ==> p(#[trigger] xs[i]),
    ensures
        xs.filter(p) == xs,
    decreases xs.len(),
{
    reveal(Seq::filter);
    if xs.len() > 0 {
        let d = xs.drop_last();
        assert forall|i: int| 0 <= i < d.len() implies p(#[trigger] d[i]) by {
            assert(d[i] == xs[i]);
        }
        lemma_filter_keep_all(d, p);
        assert(p(xs[xs.len() - 1]));
        assert(d.push(xs.last()) =~= xs);
    }
}

/// The words of space-joined words are those words.
pub proof fn lemma_words_join(ws: Seq<Seq<char>>)
    requires
        forall|i: int| 0 <= i < ws.len() ==> is_word(#[trigger] ws[i]),
    ensures
        words(join_with(ws, seq![' '])) == ws,
    decreases ws.len(),
{
    let p = |x: Seq<char>| is_nonempty(x);
    let ws_cls = CharClass::Whitespace;
    assert(in_class(' ', ws_cls));
    if ws.len() == 0 {
        lemma_split_class_free(Seq::<char>::empty(), ws_cls);
        reveal_with_fuel(Seq::filter, 2);
        assert(seq![Seq::<char>::empty()].drop_last() =~= Seq::<Seq<char>>::empty());
        assert(seq![Seq::<char>::empty()].filter(p) =~= ws);
    } else if ws.len() == 1 {
        assert(is_word(ws[0]));
        lemma_split_class_free(ws[0], ws_cls);
        reveal_with_fuel(Seq::filter, 2);
        assert(seq![ws[0]].drop_last() =~= Seq::<Seq<char>>::empty());
        assert(seq![ws[0]].filter(p) =~= seq![ws[0]]);
        assert(seq![ws[0]] =~= ws);
    } else {
        let rest = ws.drop_first();
        assert forall|i: int| 0 <= i < rest.len() implies is_word(#[trigger] rest[i]) by {
            assert(rest[i] == ws[i + 1]);
        }
        lemma_words_join(rest);
        assert(is_word(ws[0]));
        let j = join_with(rest, seq![' ']);
        assert(join_with(ws, seq![' ']) == ws[0] + seq![' '] + j);
        lemma_split_class_cons(ws[0], ' ', j, ws_cls);
        split_class(j, ws_cls).lemma_filter_prepend(ws[0], p);
        assert(seq![ws[0]] + rest =~= ws);
    }
}

/// Spaces around a text do not change its words.
pub proof fn lemma_words_pad(x: Seq<char>)
    ensures
        words(seq![' '] + x) == words(x),
        words(x + seq![' ']) == words(x),
{
    let p = |y: Seq<char>| is_nonempty(y);
    let ws_cls = CharClass::Whitespace;
    assert(in_class(' ', ws_cls));
    lemma_split_class_free(Seq::<char>::empty(), ws_cls);
    lemma_split_class_cons(Seq::<char>::empty(), ' ', x, ws_cls);
    assert(Seq::<char>::empty() + seq![' '] + x =~= seq![' '] + x);
    split_class(x, ws_cls).lemma_filter_prepend(Seq::<char>::empty(), p);
    assert(Seq::<Seq<char>>::empty() + split_class(x, ws_cls).filter(p) =~= split_class(x, ws_cls).filter(p));
    lemma_split_class_snoc(x, ' ', ws_cls);
    reveal(Seq::filter);
    assert((split_class(x, ws_cls) + seq![Seq::<char>::empty()]).drop_last() =~= split_class(x, ws_cls));
}

proof fn lemma_split_class_pieces(s: Seq<char>, cls: CharClass, c: char)
    ensures
        forall|i: int| 0 <= i < split_class(s, cls).len() ==> free_of(#[trigger] split_class(s, cls)[i], cls)
            && (lacks(s, c) ==> lacks(split_class(s, cls)[i], c)),
    decreases s.len(),
{
    let i = find_first(s, cls);
    lemma_find_from_valid(s, cls, 0);
    if i < 0 {
        lemma_split_class_free(s, cls);
    } else {
        let b = s.skip(i + 1);
        assert(lacks(s, c) ==> lacks(b, c)) by {
            if lacks(s, c) {
                assert forall|k: int| 0 <= k < b.len() implies #[trigger] b[k] != c by {
                    assert(b[k] == s[k + i + 1]);
                }
            }
        }
        lemma_split_class_pieces(b, cls, c);
        let parts = split_class(s, cls);
        assert(parts == seq![s.take(i)] + split_class(b, cls));
        assert forall|j: int| 0 <= j < parts.len() implies free_of(#[trigger] parts[j], cls) && (lacks(s, c)
            ==> lacks(parts[j], c)) by {
            if j == 0 {
                assert(parts[0] == s.take(i));
                assert forall|k: int| 0 <= k < s.take(i).len() implies !in_class(#[trigger] s.take(i)[k], cls) by {
                    assert(s.take(i)[k] == s[k]);
                }
                if lacks(s, c) {
                    assert forall|k: int| 0 <= k < s.take(i).len() implies #[trigger] s.take(i)[k] != c by {
                        assert(s.take(i)[k] == s[k]);
                    }
                }
            } else {
                assert(parts[j] == split_class(b, cls)[j - 1]);
            }
        }
    }
}

/// The words of a text are words, and lack every character the text
/// lacks.
pub proof fn lemma_words_chars(s: Seq<char>, c: char)
    requires
        lacks(s, c),
    ensures
        forall|i: int| 0 <= i < words(s).len() ==> is_word(#[trigger] words(s)[i]) && lacks(words(s)[i], c),
{
    let p = |y: Seq<char>| is_nonempty(y);
    let parts = split_class(s, CharClass::Whitespace);
    lemma_split_class_pieces(s, CharClass::Whitespace, c);
    broadcast use vstd::seq_lib::group_filter_ensures;
    assert forall|i: int| 0 <= i < words(s).len() implies is_word(#[trigger] words(s)[i]) && lacks(words(s)[i], c) by {
        let w = words(s)[i];
        assert(parts.filter(p).contains(w));
        parts.lemma_filter_contains_rev(p, w);
        let j = choose|j: int| 0 <= j < parts.len() && parts[j] == w;
        assert(lacks(parts[j], c) && free_of(parts[j], CharClass::Whitespace));
        assert(p(w));
    }
}


/// `trim_start` drops exactly the leading run of class characters.
pub proof fn lemma_trim_start_index(s: Seq<char>, cls: CharClass)
    ensures
        exists|n: int|
            #![trigger s.skip(n)]
            0 <= n <= s.len() && trim_start(s, cls) == s.skip(n) && (forall|k: int|
                0 <= k < n ==> in_class(#[trigger] s[k], cls)) && (n == s.len() || !in_class(s[n], cls)),
    decreases s.len(),
{
    if s.len() > 0 && in_class(s[0], cls) {
        let d = s.drop_first();
        lemma_trim_start_index(d, cls);
        let n = choose|n: int|
            #![trigger d.skip(n)]
            0 <= n <= d.len() && trim_start(d, cls) == d.skip(n) && (forall|k: int|
                0 <= k < n ==> in_class(#[trigger] d[k], cls)) && (n == d.len() || !in_class(d[n], cls));
        assert(d.skip(n) =~= s.skip(n + 1));
        assert forall|k: int| 0 <= k < n + 1 implies in_class(#[trigger] s[k], cls) by {
            if k > 0 {
                assert(s[k] == d[k - 1]);
            }
        }
        if n + 1 < s.len() {
            assert(s[n + 1] == d[n]);
        }
    } else {
        assert(s.skip(0) =~= s);
    }
}

/// `trim_end` drops exactly the trailing run of class characters.
pub proof fn lemma_trim_end_index(s: Seq<char>, cls: CharClass)
    ensures
        exists|n: int|
            #![trigger s.take(n)]
            0 <= n <= s.len() && trim_end(s, cls) == s.take(n) && (forall|k: int|
                n <= k < s.len() ==> in_class(#[trigger] s[k], cls)) && (n == 0 || !in_class(s[n - 1], cls)),
    decreases s.len(),
{
    if s.len() > 0 && in_class(s.last(), cls) {
        let d = s.drop_last();
        lemma_trim_end_index(d, cls);
        let n = choose|n: int|
            #![trigger d.take(n)]
            0 <= n <= d.len() && trim_end(d, cls) == d.take(n) && (forall|k: int|
                n <= k < d.len() ==> in_class(#[trigger] d[k], cls)) && (n == 0 || !in_class(d[n - 1], cls));
        assert(d.take(n) =~= s.take(n));
        assert forall|k: int| n <= k < s.len() implies in_class(#[trigger] s[k], cls) by {
            if k < s.len() - 1 {
                assert(s[k] == d[k]);
            }
        }
        if n > 0 {
            assert(s[n - 1] == d[n - 1]);
        }
    } else {
        assert(s.take(s.len() as int) =~= s);
    }
}

/// A text that is empty or ends outside the class is its own `trim_end`.
pub proof fn lemma_trim_end_noop(s: Seq<char>, cls: CharClass)
    requires
        s.len() == 0 || !in_class(s.last(), cls),
    ensures
        trim_end(s, cls) == s,
{
}

/// `trim_end` gives a text that is empty or ends outside the class.
pub proof fn lemma_trim_end_ends(s: Seq<char>, cls: CharClass)
    ensures
        trim_end(s, cls).len() == 0 || !in_class(trim_end(s, cls).last(), cls),
        trim_end(trim_end(s, cls), cls) == trim_end(s, cls),
{
    lemma_trim_end_index(s, cls);
    let n = choose|n: int|
        #![trigger s.take(n)]
        0 <= n <= s.len() && trim_end(s, cls) == s.take(n) && (forall|k: int|
            n <= k < s.len() ==> in_class(#[trigger] s[k], cls)) && (n == 0 || !in_class(s[n - 1], cls));
    if n > 0 {
        assert(s.take(n).last() == s[n - 1]);
    }
    lemma_trim_end_noop(trim_end(s, cls), cls);
}

/// Trimming the end first does not change the full trim.
pub proof fn lemma_trim_of_trim_end(s: Seq<char>, cls: CharClass)
    ensures
        trim(trim_end(s, cls), cls) == trim(s, cls),
{
    lemma_trim_end_index(s, cls);
    let n = choose|n: int|
        #![trigger s.take(n)]
        0 <= n <= s.len() && trim_end(s, cls) == s.take(n) && (forall|k: int|
            n <= k < s.len() ==> in_class(#[trigger] s[k], cls)) && (n == 0 || !in_class(s[n - 1], cls));
    let t = s.take(n);
    lemma_trim_start_index(s, cls);
    let a = choose|a: int|
        #![trigger s.skip(a)]
        0 <= a <= s.len() && trim_start(s, cls) == s.skip(a) && (forall|k: int|
            0 <= k < a ==> in_class(#[trigger] s[k], cls)) && (a == s.len() || !in_class(s[a], cls));
    lemma_trim_start_index(t, cls);
    let b = choose|b: int|
        #![trigger t.skip(b)]
        0 <= b <= t.len() && trim_start(t, cls) == t.skip(b) && (forall|k: int|
            0 <= k < t.len() && k < b ==> in_class(#[trigger] t[k], cls)) && (b == t.len() || !in_class(t[b], cls));
    let u = s.skip(a);
    lemma_trim_end_index(u, cls);
    let e = choose|e: int|
        #![trigger u.take(e)]
        0 <= e <= u.len() && trim_end(u, cls) == u.take(e) && (forall|k: int|
            e <= k < u.len() ==> in_class(#[trigger] u[k], cls)) && (e == 0 || !in_class(u[e - 1], cls));
    let v = t.skip(b);
    lemma_trim_end_index(v, cls);
    let f = choose|f: int|
        #![trigger v.take(f)]
        0 <= f <= v.len() && trim_end(v, cls) == v.take(f) && (forall|k: int|
            f <= k < v.len() ==> in_class(#[trigger] v[k], cls)) && (f == 0 || !in_class(v[f - 1], cls));
    if a < n {
        // the first kept character lies before the trailing run
        assert(b == a) by {
            if b < a {
                assert(t[b] == s[b]);
            }
            if a < b {
                assert(t[a] == s[a]);
            }
        }
        assert(a + e == n) by {
            if a + e < n {
                assert(u[n - 1 - a] == s[n - 1]);
            }
            if a + e > n {
                assert(u[e - 1] == s[a + e - 1]);
            }
        }
        assert(f == e) by {
            if f < e {
                assert(v[e - 1] == s[a + e - 1]);
            }
            if e < f {
                assert(v[f - 1] == s[a + f - 1]);
            }
        }
        assert(u.take(e) =~= v.take(f));
    } else {
        assert(forall|k: int| 0 <= k < t.len() ==> #[trigger] t[k] == s[k]);
        assert(b == t.len());
        assert(v.len() == 0);
        assert(e == 0) by {
            if e > 0 {
                assert(u[e - 1] == s[a + e - 1]);
            }
        }
        assert(u.take(e) =~= v.take(f));
    }
}


/// A reference and its end-trimmed form name the same module.
proof fn lemma_target_trim_end(m: Seq<char>, t: Seq<Seq<char>>)
    ensures
        spec_is_target_reference(trim_end(m, CharClass::Whitespace), t) == spec_is_target_reference(m, t),
{
    lemma_trim_of_trim_end(m, CharClass::Whitespace);
    assert(module_basename(trim_end(m, CharClass::Whitespace)) == module_basename(m));
}

/// The rebuilt body of a `modules.dep` line.
pub open spec fn dep_rebuilt(m: Seq<char>, kept: Seq<Seq<char>>) -> Seq<char> {
    if kept.len() == 0 {
        m + seq![':']
    } else {
        m + seq![':', ' '] + join_with(kept, seq![' '])
    }
}

/// Space-joined words lack what each word lacks, and end in a word
/// character.
proof fn lemma_join_words(ws: Seq<Seq<char>>, c: char)
    requires
        c != ' ',
        forall|i: int| 0 <= i < ws.len() ==> is_word(#[trigger] ws[i]) && lacks(ws[i], c),
    ensures
        lacks(join_with(ws, seq![' ']), c),
        ws.len() > 0 ==> join_with(ws, seq![' ']).len() > 0 && !is_ws(join_with(ws, seq![' ']).last()),
    decreases ws.len(),
{
    if ws.len() > 1 {
        let rest = ws.drop_first();
        assert forall|i: int| 0 <= i < rest.len() implies is_word(#[trigger] rest[i]) && lacks(rest[i], c) by {
            assert(rest[i] == ws[i + 1]);
        }
        lemma_join_words(rest, c);
        assert(is_word(ws[0]) && lacks(ws[0], c));
        let j = join_with(rest, seq![' ']);
        assert(join_with(ws, seq![' ']) == ws[0] + seq![' '] + j);
        assert forall|k: int| 0 <= k < (ws[0] + seq![' '] + j).len() implies #[trigger] (ws[0] + seq![' '] + j)[k]
            != c by {
            if k < ws[0].len() {
                assert((ws[0] + seq![' '] + j)[k] == ws[0][k]);
            } else if k > ws[0].len() {
                assert((ws[0] + seq![' '] + j)[k] == j[k - ws[0].len() - 1]);
            }
        }
    } else if ws.len() == 1 {
        assert(is_word(ws[0]) && lacks(ws[0], c));
        assert(!in_class(ws[0].last(), CharClass::Whitespace));
    }
}

/// The trim of a line is not empty and does not start with `#` when a
/// `:` follows a `#`-free head.
proof fn lemma_trim_head(r: Seq<char>, p: int)
    requires
        0 <= p < r.len(),
        !is_ws(r[p]),
        forall|k: int| 0 <= k <= p ==> #[trigger] r[k] != '#',
    ensures
        trim(r, CharClass::Whitespace).len() > 0,
        !starts_with(trim(r, CharClass::Whitespace), seq!['#']),
{
    let cls = CharClass::Whitespace;
    lemma_trim_start_index(r, cls);
    let a = choose|a: int|
        #![trigger r.skip(a)]
        0 <= a <= r.len() && trim_start(r, cls) == r.skip(a) && (forall|k: int|
            0 <= k < a ==> in_class(#[trigger] r[k], cls)) && (a == r.len() || !in_class(r[a], cls));
    assert(a <= p) by {
        if a > p {
            assert(in_class(r[p], cls));
        }
    }
    let u = r.skip(a);
    assert(u[0] == r[a]);
    lemma_trim_end_index(u, cls);
    let n = choose|n: int|
        #![trigger u.take(n)]
        0 <= n <= u.len() && trim_end(u, cls) == u.take(n) && (forall|k: int|
            n <= k < u.len() ==> in_class(#[trigger] u[k], cls)) && (n == 0 || !in_class(u[n - 1], cls));
    assert(n > 0) by {
        if n == 0 {
            assert(in_class(u[0], cls));
        }
    }
    assert(trim(r, cls) == u.take(n));
    assert(u.take(n)[0] == r[a]);
    assert(u.take(n).take(1) != seq!['#']) by {
        assert(u.take(n).take(1)[0] == r[a]);
    }
}

/// Splitting `head + [c] + tail` at its first `c`, when `head` lacks `c`.
proof fn lemma_split_once_at(head: Seq<char>, c: char, tail: Seq<char>)
    requires
        lacks(head, c),
    ensures
        split_once(head + seq![c] + tail, CharClass::Single(c)) == Some((head, tail)),
{
    let s = head + seq![c] + tail;
    assert forall|k: int| 0 <= k < head.len() implies !in_class(#[trigger] s[k], CharClass::Single(c)) by {
        assert(s[k] == head[k]);
    }
    lemma_find_from_at(s, CharClass::Single(c), 0, head.len() as int);
    assert(s.take(head.len() as int) =~= head);
    assert(s.skip(head.len() as int + 1) =~= tail);
}

proof fn lemma_split_once_none(s: Seq<char>, c: char)
    requires
        lacks(s, c),
    ensures
        split_once(s, CharClass::Single(c)) is None,
{
    lemma_find_from_none(s, CharClass::Single(c), 0);
}

/// A rebuilt `modules.dep` line is rebuilt to itself.
#[verifier::spinoff_prover]
#[verifier::rlimit(60)]
proof fn lemma_dep_rebuilt_fixed(m: Seq<char>, kept: Seq<Seq<char>>, comment: Option<Seq<char>>, t: Seq<Seq<char>>)
    requires
        lacks(m, ':'),
        lacks(m, '#'),
        m.len() == 0 || !is_ws(m.last()),
        !spec_is_target_reference(m, t),
        forall|i: int| 0 <= i < kept.len() ==> is_word(#[trigger] kept[i]) && lacks(kept[i], '#') && !spec_is_target_reference(kept[i], t),
    ensures
        spec_rewrite_module_index_line("modules.dep"@, attach_comment(dep_rebuilt(m, kept), comment), t) == Some(
            attach_comment(dep_rebuilt(m, kept), comment),
        ),
{
    let rb = dep_rebuilt(m, kept);
    let r = attach_comment(rb, comment);
    let j = join_with(kept, seq![' ']);
    lemma_join_words(kept, '#');
    let tail2: Seq<char> = if kept.len() == 0 { Seq::empty() } else { seq![' '] + j };
    assert(rb =~= m + seq![':'] + tail2);
    assert(lacks(rb, '#')) by {
        assert forall|k: int| 0 <= k < rb.len() implies #[trigger] rb[k] != '#' by {
            if k < m.len() {
                assert(rb[k] == m[k]);
            } else if k > m.len() + 1 {
                assert(rb[k] == j[k - m.len() - 2]);
            }
        }
    }
    assert(rb.len() > 0 && !is_ws(rb.last())) by {
        if kept.len() > 0 {
            assert(rb.last() == j.last());
        }
    }
    assert(rb[m.len() as int] == ':');
    let body2: Seq<char> = match comment {
        None => rb,
        Some(c) => rb + seq![' '],
    };
    match comment {
        None => {
            assert(r == rb);
            lemma_split_once_none(r, '#');
        },
        Some(c) => {
            assert(rb.last() != ' ');
            assert(r =~= (rb + seq![' ']) + seq!['#'] + c);
            assert(lacks(rb + seq![' '], '#')) by {
                assert forall|k: int| 0 <= k < (rb + seq![' ']).len() implies #[trigger] (rb + seq![' '])[k] != '#' by {
                    if k < rb.len() {
                        assert((rb + seq![' '])[k] == rb[k]);
                    }
                }
            }
            lemma_split_once_at(rb + seq![' '], '#', c);
        },
    }
    assert forall|k: int| 0 <= k <= m.len() implies #[trigger] r[k] != '#' by {
        assert(r[k] == rb[k]);
    }
    assert(r[m.len() as int] == rb[m.len() as int]);
    lemma_trim_head(r, m.len() as int);
    let rest2: Seq<char> = match comment {
        None => tail2,
        Some(c) => tail2 + seq![' '],
    };
    assert(body2 =~= m + seq![':'] + rest2);
    lemma_split_once_at(m, ':', rest2);
    assert(words(rest2) == kept) by {
        lemma_words_pad(tail2);
        if kept.len() == 0 {
            lemma_words_join(kept);
            assert(j == Seq::<char>::empty());
        } else {
            lemma_words_pad(j);
            lemma_words_join(kept);
        }
    }
    lemma_filter_keep_all(kept, not_target(t));
    lemma_trim_end_noop(m, CharClass::Whitespace);
}


/// The keywords of a softdep line are not module references.
pub open spec fn keywords_not_targets(t: Seq<Seq<char>>) -> bool {
    &&& !spec_is_target_reference("softdep"@, t)
    &&& !spec_is_target_reference("pre:"@, t)
    &&& !spec_is_target_reference("post:"@, t)
}

/// The part of a line before its first `#`.
pub open spec fn line_content(x: Seq<char>) -> Seq<char> {
    match split_once(x, CharClass::Single('#')) {
        Some((body, _)) => body,
        None => x,
    }
}

/// The one kind of `modules.softdep` line that a second rewrite drops
/// although the first kept it: the first rewrite keeps the line, and
/// after it removes the target tokens the second token left is a keyword
/// that itself names a target.
pub open spec fn softdep_unstable(x: Seq<char>, t: Seq<Seq<char>>) -> bool {
    let trimmed = trim(x, CharClass::Whitespace);
    let tokens = words(line_content(x));
    let kept = tokens.filter(softdep_keep(t));
    &&& trimmed.len() > 0
    &&& !starts_with(trimmed, seq!['#'])
    &&& !(tokens.len() >= 2 && spec_is_target_reference(tokens[1], t))
    &&& kept.len() >= 2
    &&& spec_is_target_reference(kept[1], t)
}

/// When no softdep keyword names a target, no line is unstable.
pub proof fn lemma_stable_of_keywords(x: Seq<char>, t: Seq<Seq<char>>)
    requires
        keywords_not_targets(t),
    ensures
        !softdep_unstable(x, t),
{
    let kept = words(line_content(x)).filter(softdep_keep(t));
    broadcast use vstd::seq_lib::group_filter_ensures;
    if kept.len() >= 2 {
        assert((softdep_keep(t))(kept[1]));
    }
}

/// Every line of the index `data` at `index_path` is a stable softdep
/// line, or the index is no `modules.softdep`.
pub open spec fn softdep_index_stable(index_path: Seq<char>, data: Seq<u8>, t: Seq<Seq<char>>) -> bool {
    last_segment(index_path, CharClass::Single('/')) == "modules.softdep"@ && vstd::utf8::valid_utf8(data) ==> forall|i: int|
        0 <= i < text_lines(vstd::utf8::decode_utf8(data)).len() ==> !softdep_unstable(
            trim_end(#[trigger] text_lines(vstd::utf8::decode_utf8(data))[i], CharClass::Single('\r')),
            t,
        )
}

/// When no softdep keyword names a target, every index is stable.
pub proof fn lemma_index_stable_of_keywords(index_path: Seq<char>, data: Seq<u8>, t: Seq<Seq<char>>)
    requires
        keywords_not_targets(t),
    ensures
        softdep_index_stable(index_path, data, t),
{
    assert forall|x: Seq<char>| !softdep_unstable(x, t) by {
        lemma_stable_of_keywords(x, t);
    }
}

/// A rebuilt `modules.softdep` line is rebuilt to itself.
#[verifier::spinoff_prover]
#[verifier::rlimit(60)]
proof fn lemma_softdep_rebuilt_fixed(kept: Seq<Seq<char>>, comment: Option<Seq<char>>, t: Seq<Seq<char>>)
    requires
        kept.len() >= 2 ==> !spec_is_target_reference(kept[1], t),
        forall|i: int| 0 <= i < kept.len() ==> is_word(#[trigger] kept[i]) && lacks(kept[i], '#') && (softdep_keep(t))(kept[i]),
    ensures
        spec_rewrite_module_index_line("modules.softdep"@, attach_comment(join_with(kept, seq![' ']), comment), t)
            == Some(attach_comment(join_with(kept, seq![' ']), comment)),
{
    reveal_strlit("modules.softdep");
    reveal_strlit("modules.dep");
    assert("modules.softdep"@.len() != "modules.dep"@.len());
    let j = join_with(kept, seq![' ']);
    let r = attach_comment(j, comment);
    let cls = CharClass::Whitespace;
    lemma_join_words(kept, '#');
    if kept.len() == 0 {
        assert(j == Seq::<char>::empty());
        match comment {
            None => {
                assert(r == j);
                assert(trim_start(r, cls) == r);
            },
            Some(c) => {
                assert(r =~= seq!['#'] + c);
                assert(!is_ws(r[0]));
                assert(trim_start(r, cls) == r);
                lemma_trim_end_index(r, cls);
                let n = choose|n: int|
                    #![trigger r.take(n)]
                    0 <= n <= r.len() && trim_end(r, cls) == r.take(n) && (forall|k: int|
                        n <= k < r.len() ==> in_class(#[trigger] r[k], cls)) && (n == 0 || !in_class(r[n - 1], cls));
                assert(n > 0) by {
                    if n == 0 {
                        assert(in_class(r[0], cls));
                    }
                }
                assert(r.take(n).take(1) =~= seq!['#']);
            },
        }
    } else {
        assert(is_word(kept[0]) && lacks(kept[0], '#'));
        assert(j.len() > 0 && !is_ws(j.last()));
        let body2: Seq<char> = match comment {
            None => j,
            Some(c) => j + seq![' '],
        };
        match comment {
            None => {
                lemma_split_once_none(r, '#');
            },
            Some(c) => {
                assert(j.last() != ' ');
                assert(r =~= (j + seq![' ']) + seq!['#'] + c);
                assert(lacks(j + seq![' '], '#')) by {
                    assert forall|k: int| 0 <= k < (j + seq![' ']).len() implies #[trigger] (j + seq![' '])[k] != '#' by {
                        if k < j.len() {
                            assert((j + seq![' '])[k] == j[k]);
                        }
                    }
                }
                lemma_split_once_at(j + seq![' '], '#', c);
            },
        }
        assert(j[0] == kept[0][0]) by {
            if kept.len() > 1 {
                assert(j == kept[0] + seq![' '] + join_with(kept.drop_first(), seq![' ']));
            }
        }
        assert(r[0] == j[0]);
        assert(!is_ws(kept[0][0]));
        lemma_trim_head(r, 0);
        assert(words(body2) == kept) by {
            lemma_words_join(kept);
            lemma_words_pad(j);
        }
        lemma_filter_keep_all(kept, softdep_keep(t));
    }
}


/// A line that is empty or does not end in `\r`.
pub open spec fn no_trailing_cr(x: Seq<char>) -> bool {
    x.len() == 0 || x.last() != '\r'
}

/// What `split_once` at the first `c` gives: a head without `c` that
/// starts `s`, and a tail that ends it.
proof fn lemma_split_once_parts(s: Seq<char>, c: char)
    ensures
        split_once(s, CharClass::Single(c)) is None ==> lacks(s, c),
        split_once(s, CharClass::Single(c)) matches Some((h, tl)) ==> lacks(h, c) && h == s.take(h.len() as int)
            && h.len() + 1 + tl.len() == s.len() && tl == s.skip(h.len() as int + 1),
{
    let cls = CharClass::Single(c);
    lemma_find_from_valid(s, cls, 0);
    let i = find_first(s, cls);
    if i >= 0 {
        assert forall|k: int| 0 <= k < s.take(i).len() implies #[trigger] s.take(i)[k] != c by {
            assert(s.take(i)[k] == s[k]);
            assert(!in_class(s[k], cls));
        }
    } else {
        assert forall|k: int| 0 <= k < s.len() implies #[trigger] s[k] != c by {
            assert(!in_class(s[k], cls));
        }
    }
}

proof fn lemma_prefix_lacks(s: Seq<char>, n: int, c: char)
    requires
        0 <= n <= s.len(),
        lacks(s, c),
    ensures
        lacks(s.take(n), c),
        lacks(s.skip(n), c),
{
    assert forall|k: int| 0 <= k < s.take(n).len() implies #[trigger] s.take(n)[k] != c by {
        assert(s.take(n)[k] == s[k]);
    }
    assert forall|k: int| 0 <= k < s.skip(n).len() implies #[trigger] s.skip(n)[k] != c by {
        assert(s.skip(n)[k] == s[k + n]);
    }
}

/// The facts about an attached comment that the file-level law needs.
proof fn lemma_attach_tail(rb: Seq<char>, comment: Option<Seq<char>>, x: Seq<char>)
    requires
        rb.len() == 0 || !is_ws(rb.last()),
        no_trailing_cr(x),
        comment matches Some(c) ==> c.len() <= x.len() && c == x.skip(x.len() - c.len()),
    ensures
        no_trailing_cr(attach_comment(rb, comment)),
        lacks(rb, '\n') && lacks(x, '\n') ==> lacks(attach_comment(rb, comment), '\n'),
{
    assert(in_class('\r', CharClass::Whitespace));
    match comment {
        None => {},
        Some(c) => {
            let pre = if rb.len() > 0 && rb.last() != ' ' { rb.push(' ') } else { rb };
            let r = pre + seq!['#'] + c;
            if c.len() > 0 {
                assert(r.last() == c.last());
                assert(c.last() == x.last());
            }
            if lacks(rb, '\n') && lacks(x, '\n') {
            assert(lacks(pre, '\n')) by {
                assert forall|k: int| 0 <= k < pre.len() implies #[trigger] pre[k] != '\n' by {
                    if k < rb.len() {
                        assert(pre[k] == rb[k]);
                    }
                }
            }
            lemma_prefix_lacks(x, x.len() - c.len(), '\n');
            assert forall|k: int| 0 <= k < r.len() implies #[trigger] r[k] != '\n' by {
                if k < pre.len() {
                    assert(r[k] == pre[k]);
                } else if k > pre.len() {
                    assert(r[k] == c[k - pre.len() - 1]);
                }
            }
            }
        },
    }
}

#[verifier::spinoff_prover]
#[verifier::rlimit(80)]
proof fn lemma_rewrite_content_line(name: Seq<char>, x: Seq<char>, t: Seq<Seq<char>>)
    requires
        name == "modules.softdep"@ ==> !softdep_unstable(x, t),
        no_trailing_cr(x),
        trim(x, CharClass::Whitespace).len() > 0,
        !starts_with(trim(x, CharClass::Whitespace), seq!['#']),
    ensures
        spec_rewrite_module_index_line(name, x, t) matches Some(r) ==> spec_rewrite_module_index_line(name, r, t)
            == Some(r) && no_trailing_cr(r) && (lacks(x, '\n') ==> lacks(r, '\n')),
{
    let ws = CharClass::Whitespace;
    let content = match split_once(x, CharClass::Single('#')) {
        Some((body, _)) => body,
        None => x,
    };
    let comment = match split_once(x, CharClass::Single('#')) {
        Some((_, tail)) => Some(tail),
        None => None,
    };
    lemma_split_once_parts(x, '#');
    assert(lacks(content, '#'));
    assert(content == x.take(content.len() as int)) by {
        if split_once(x, CharClass::Single('#')) is None {
            assert(x.take(x.len() as int) =~= x);
        }
    }
    assert(comment matches Some(c) ==> c.len() <= x.len() && c == x.skip(x.len() - c.len()));
    if lacks(x, '\n') {
        lemma_prefix_lacks(x, content.len() as int, '\n');
    }
    let tokens = words(content);
    if name == "modules.dep"@ {
        match split_once(content, CharClass::Single(':')) {
            None => {},
            Some((module, deps)) => {
                if !spec_is_target_reference(module, t) {
                    lemma_split_once_parts(content, ':');
                    lemma_prefix_lacks(content, module.len() as int, '#');
                    lemma_prefix_lacks(content, module.len() as int + 1, '#');
                    let kept = words(deps).filter(not_target(t));
                    lemma_words_chars(deps, '#');
                    broadcast use vstd::seq_lib::group_filter_ensures;
                    assert forall|i: int| 0 <= i < kept.len() implies is_word(#[trigger] kept[i]) && lacks(kept[i], '#')
                        && !spec_is_target_reference(kept[i], t) by {
                        assert((not_target(t))(kept[i]));
                        assert(words(deps).filter(not_target(t)).contains(kept[i]));
                        words(deps).lemma_filter_contains_rev(not_target(t), kept[i]);
                    }
                    let m = trim_end(module, ws);
                    lemma_trim_end_index(module, ws);
                    let n = choose|n: int|
                        #![trigger module.take(n)]
                        0 <= n <= module.len() && trim_end(module, ws) == module.take(n) && (forall|k: int|
                            n <= k < module.len() ==> in_class(#[trigger] module[k], ws)) && (n == 0 || !in_class(
                            module[n - 1],
                            ws,
                        ));
                    lemma_prefix_lacks(module, n, ':');
                    lemma_prefix_lacks(module, n, '#');
                    lemma_trim_end_ends(module, ws);
                    lemma_target_trim_end(module, t);
                    lemma_dep_rebuilt_fixed(m, kept, comment, t);
                    let rb = dep_rebuilt(m, kept);
                    let j = join_with(kept, seq![' ']);
                    lemma_join_words(kept, '\n');
                    assert(rb.len() > 0 && !is_ws(rb.last())) by {
                        if kept.len() > 0 {
                            assert(rb.last() == j.last());
                        }
                    }
                    if lacks(x, '\n') {
                        lemma_prefix_lacks(content, module.len() as int, '\n');
                        lemma_prefix_lacks(module, n, '\n');
                        assert(lacks(rb, '\n')) by {
                            assert forall|k: int| 0 <= k < rb.len() implies #[trigger] rb[k] != '\n' by {
                                if k < m.len() {
                                    assert(rb[k] == m[k]);
                                } else if k > m.len() + 1 {
                                    assert(rb[k] == j[k - m.len() - 2]);
                                }
                            }
                        }
                    }
                    lemma_attach_tail(rb, comment, x);
                }
            },
        }
    } else if name == "modules.softdep"@ {
        if !(tokens.len() >= 2 && spec_is_target_reference(tokens[1], t)) {
            let kept = tokens.filter(softdep_keep(t));
            lemma_words_chars(content, '#');
            broadcast use vstd::seq_lib::group_filter_ensures;
            assert forall|i: int| 0 <= i < kept.len() implies is_word(#[trigger] kept[i]) && lacks(kept[i], '#')
                && (softdep_keep(t))(kept[i]) by {
                assert(tokens.filter(softdep_keep(t)).contains(kept[i]));
                tokens.lemma_filter_contains_rev(softdep_keep(t), kept[i]);
            }
            lemma_softdep_rebuilt_fixed(kept, comment, t);
            lemma_join_words(kept, '\n');
            let j = join_with(kept, seq![' ']);
            assert(kept.len() == 0 ==> j.len() == 0);
            lemma_attach_tail(j, comment, x);
        }
    }
}

/// Law: a line of a module index that the rewrite keeps is kept again,
/// unchanged, by a second rewrite; it has no trailing `\r`, and no `\n`
/// when the original had none.  The one exception is an unstable softdep
/// line (see `softdep_unstable`), which the second rewrite drops.
pub proof fn law_rewrite_line_idempotent(name: Seq<char>, x: Seq<char>, t: Seq<Seq<char>>)
    requires
        name == "modules.softdep"@ ==> !softdep_unstable(x, t),
        no_trailing_cr(x),
    ensures
        spec_rewrite_module_index_line(name, x, t) matches Some(r) ==> spec_rewrite_module_index_line(name, r, t)
            == Some(r) && no_trailing_cr(r) && (lacks(x, '\n') ==> lacks(r, '\n')),
{
    let trimmed = trim(x, CharClass::Whitespace);
    if !(trimmed.len() == 0 || starts_with(trimmed, seq!['#'])) {
        lemma_rewrite_content_line(name, x, t);
    }
}



/// A line that the rewrite of `name` keeps as it is.
pub open spec fn kept_as_is(name: Seq<char>, r: Seq<char>, t: Seq<Seq<char>>) -> bool {
    &&& spec_rewrite_module_index_line(name, r, t) == Some(r)
    &&& no_trailing_cr(r)
    &&& lacks(r, '\n')
}

proof fn lemma_rewrite_lines_out(name: Seq<char>, lines: Seq<Seq<char>>, t: Seq<Seq<char>>)
    requires
        name == "modules.softdep"@ ==> forall|i: int|
            0 <= i < lines.len() ==> !softdep_unstable(trim_end(#[trigger] lines[i], CharClass::Single('\r')), t),
        forall|i: int| 0 <= i < lines.len() ==> lacks(#[trigger] lines[i], '\n'),
    ensures
        forall|k: int|
            0 <= k < rewrite_lines(name, lines, t).0.len() ==> kept_as_is(name, #[trigger] rewrite_lines(name, lines, t).0[k], t),
    decreases lines.len(),
{
    if lines.len() > 0 {
        let d = lines.drop_last();
        assert forall|i: int| 0 <= i < d.len() implies lacks(#[trigger] d[i], '\n') by {
            assert(d[i] == lines[i]);
        }
        lemma_rewrite_lines_out(name, d, t);
        let l = lines.last();
        assert(lacks(l, '\n'));
        let cr = CharClass::Single('\r');
        let a = trim_end(l, cr);
        lemma_trim_end_ends(l, cr);
        lemma_trim_end_index(l, cr);
        let n = choose|n: int|
            #![trigger l.take(n)]
            0 <= n <= l.len() && trim_end(l, cr) == l.take(n) && (forall|k: int|
                n <= k < l.len() ==> in_class(#[trigger] l[k], cr)) && (n == 0 || !in_class(l[n - 1], cr));
        lemma_prefix_lacks(l, n, '\n');
        law_rewrite_line_idempotent(name, a, t);
        let prev = rewrite_lines(name, d, t).0;
        match spec_rewrite_module_index_line(name, a, t) {
            Some(r) => {
                assert(rewrite_lines(name, lines, t).0 == prev.push(r));
                assert forall|k: int| 0 <= k < prev.push(r).len() implies kept_as_is(name, #[trigger] prev.push(r)[k], t) by {
                    if k < prev.len() {
                        assert(prev.push(r)[k] == prev[k]);
                    }
                }
            },
            None => {},
        }
    }
}

proof fn lemma_rewrite_lines_fixed(name: Seq<char>, ls: Seq<Seq<char>>, t: Seq<Seq<char>>)
    requires
        forall|k: int| 0 <= k < ls.len() ==> kept_as_is(name, #[trigger] ls[k], t),
    ensures
        rewrite_lines(name, ls, t) == (ls, false),
    decreases ls.len(),
{
    if ls.len() > 0 {
        let d = ls.drop_last();
        assert forall|k: int| 0 <= k < d.len() implies kept_as_is(name, #[trigger] d[k], t) by {
            assert(d[k] == ls[k]);
        }
        lemma_rewrite_lines_fixed(name, d, t);
        let l = ls.last();
        assert(kept_as_is(name, ls[ls.len() - 1], t));
        lemma_trim_end_noop(l, CharClass::Single('\r'));
        assert(d.push(l) =~= ls);
    }
}

proof fn lemma_split_join_lines(xs: Seq<Seq<char>>)
    requires
        xs.len() > 0,
        forall|i: int| 0 <= i < xs.len() ==> lacks(#[trigger] xs[i], '\n'),
    ensures
        split_class(join_with(xs, seq!['\n']), CharClass::Single('\n')) == xs,
    decreases xs.len(),
{
    let nl = CharClass::Single('\n');
    assert(lacks(xs[0], '\n'));
    assert(free_of(xs[0], nl));
    if xs.len() == 1 {
        lemma_split_class_free(xs[0], nl);
        assert(seq![xs[0]] =~= xs);
    } else {
        let rest = xs.drop_first();
        assert forall|i: int| 0 <= i < rest.len() implies lacks(#[trigger] rest[i], '\n') by {
            assert(rest[i] == xs[i + 1]);
        }
        lemma_split_join_lines(rest);
        lemma_split_class_cons(xs[0], '\n', join_with(rest, seq!['\n']), nl);
        assert(seq![xs[0]] + rest =~= xs);
    }
}

proof fn lemma_text_lines_lack_nl(text: Seq<char>)
    ensures
        forall|i: int| 0 <= i < text_lines(text).len() ==> lacks(#[trigger] text_lines(text)[i], '\n'),
{
    let nl = CharClass::Single('\n');
    let parts = split_class(text, nl);
    lemma_split_class_pieces(text, nl, '\n');
    assert forall|i: int| 0 <= i < text_lines(text).len() implies lacks(#[trigger] text_lines(text)[i], '\n') by {
        assert(free_of(parts[i], nl));
        assert forall|k: int| 0 <= k < parts[i].len() implies #[trigger] parts[i][k] != '\n' by {
            assert(!in_class(parts[i][k], nl));
        }
        if i < parts.len() - 1 {
            let p = parts[i];
            assert forall|k: int| 0 <= k < strip_one_cr(p).len() implies #[trigger] strip_one_cr(p)[k] != '\n' by {
                assert(strip_one_cr(p)[k] == p[k]);
            }
        }
    }
}

/// The lines read back from the joined kept lines are those lines (less
/// a last empty line when no newline follows it).
proof fn lemma_text_lines_of_output(out: Seq<Seq<char>>, body: Seq<char>, trailing: bool)
    requires
        forall|k: int| 0 <= k < out.len() ==> no_trailing_cr(#[trigger] out[k]) && lacks(out[k], '\n'),
        body == (if trailing && join_with(out, seq!['\n']).len() > 0 {
            join_with(out, seq!['\n']).push('\n')
        } else {
            join_with(out, seq!['\n'])
        }),
    ensures
        forall|k: int| 0 <= k < text_lines(body).len() ==> exists|j: int| 0 <= j < out.len() && #[trigger] text_lines(body)[k] == out[j],
{
    let nl = CharClass::Single('\n');
    let joined = join_with(out, seq!['\n']);
    if out.len() == 0 {
        assert(joined == Seq::<char>::empty());
        lemma_split_class_free(Seq::<char>::empty(), nl);
        assert(text_lines(body).len() == 0);
    } else {
        assert forall|i: int| 0 <= i < out.len() implies lacks(#[trigger] out[i], '\n') by {
            assert(no_trailing_cr(out[i]) && lacks(out[i], '\n'));
        }
        lemma_split_join_lines(out);
        let parts = split_class(body, nl);
        if trailing && joined.len() > 0 {
            lemma_split_class_snoc(joined, '\n', nl);
            assert(body == joined + seq!['\n']);
            assert(parts == out + seq![Seq::<char>::empty()]);
        } else {
            assert(parts == out);
        }
        assert forall|k: int| 0 <= k < text_lines(body).len() implies exists|j: int| 0 <= j < out.len() && #[trigger] text_lines(body)[k] == out[j] by {
            assert(parts[k] == out[k]);
            assert(no_trailing_cr(out[k]) && lacks(out[k], '\n'));
            assert(text_lines(body)[k] == out[k]);
        }
    }
}

/// Law: rewriting a module index that a rewrite produced changes nothing,
/// unless it is a `modules.softdep` with an unstable line (see
/// `softdep_unstable`), which only happens when a softdep keyword names a
/// target.
pub proof fn law_rewrite_module_index_idempotent(index_path: Seq<char>, data: Seq<u8>, t: Seq<Seq<char>>)
    requires
        softdep_index_stable(index_path, data, t),
    ensures
        spec_rewrite_module_index(index_path, data, t) matches Ok(Some(b)) ==> spec_rewrite_module_index(
            index_path,
            b,
            t,
        ) == Ok::<Option<Seq<u8>>, crate::boot_patch::modules::ModuleIndexError>(None),
{
    if spec_rewrite_module_index(index_path, data, t) is Ok {
        if vstd::utf8::valid_utf8(data) {
            let text = vstd::utf8::decode_utf8(data);
            let name = last_segment(index_path, CharClass::Single('/'));
            let lines = text_lines(text);
            lemma_text_lines_lack_nl(text);
            lemma_rewrite_lines_out(name, lines, t);
            let (out, changed) = rewrite_lines(name, lines, t);
            if changed {
                let joined = join_with(out, seq!['\n']);
                let trailing = text.len() > 0 && text.last() == '\n';
                let body = if trailing && joined.len() > 0 { joined.push('\n') } else { joined };
                broadcast use vstd::utf8::encode_utf8_valid_utf8, vstd::utf8::encode_utf8_decode_utf8;
                let b = vstd::utf8::encode_utf8(body);
                assert(vstd::utf8::valid_utf8(b));
                assert(vstd::utf8::decode_utf8(b) == body);
                assert forall|k: int| 0 <= k < out.len() implies no_trailing_cr(#[trigger] out[k]) && lacks(out[k], '\n') by {
                    assert(kept_as_is(name, out[k], t));
                }
                lemma_text_lines_of_output(out, body, trailing);
                let l2 = text_lines(body);
                assert forall|k: int| 0 <= k < l2.len() implies kept_as_is(name, #[trigger] l2[k], t) by {
                    let j = choose|j: int| 0 <= j < out.len() && #[trigger] l2[k] == out[j];
                    assert(kept_as_is(name, out[j], t));
                }
                lemma_rewrite_lines_fixed(name, l2, t);
            }
        }
    }
}


/// A text whose first character is kept by both trims stays non-empty
/// and keeps that first character.
proof fn lemma_trim_keeps_first(v: Seq<char>, cls: CharClass)
    requires
        v.len() > 0,
        !in_class(v[0], cls),
    ensures
        0 < trim(v, cls).len() <= v.len(),
        trim(v, cls)[0] == v[0],
        trim(v, cls) == v.take(trim(v, cls).len() as int),
{
    assert(trim_start(v, cls) == v);
    lemma_trim_end_index(v, cls);
    let n = choose|n: int|
        #![trigger v.take(n)]
        0 <= n <= v.len() && trim_end(v, cls) == v.take(n) && (forall|k: int|
            n <= k < v.len() ==> in_class(#[trigger] v[k], cls)) && (n == 0 || !in_class(v[n - 1], cls));
    assert(n > 0) by {
        if n == 0 {
            assert(in_class(v[0], cls));
        }
    }
}

/// The normalised name of a reference that starts with a plain character
/// and has no `/` starts with that character in lower case.
proof fn lemma_stem_first_char(v: Seq<char>)
    requires
        v.len() > 0,
        !is_ws(v[0]),
        v[0] != ':',
        v[0] != ',',
        v[0] != '-',
        lacks(v, '/'),
    ensures
        spec_normalize_module_stem(v, false) matches Some(st) ==> st.len() > 0 && st[0] == ascii_lower(v[0]),
{
    lemma_trim_keeps_first(v, CharClass::Whitespace);
    let a = trim(v, CharClass::Whitespace);
    lemma_prefix_lacks(v, a.len() as int, '/');
    lemma_trim_keeps_first(a, CharClass::ColonOrComma);
    let b = trim(a, CharClass::ColonOrComma);
    lemma_prefix_lacks(a, b.len() as int, '/');
    lemma_find_last_valid(b, CharClass::Single('/'));
    assert(find_last(b, CharClass::Single('/')) == -1) by {
        if find_last(b, CharClass::Single('/')) >= 0 {
            assert(b[find_last(b, CharClass::Single('/'))] != '/');
        }
    }
    assert(module_basename(v) == b) by {
        assert(b.skip(0) =~= b);
    }
    let base = spec_strip_compression(b);
    assert(base.len() > 0 ==> base[0] == b[0]);
    let stem = if strip_suffix(base, ".ko"@) is Some { strip_suffix(base, ".ko"@)->0 } else { base };
    assert(stem.len() > 0 ==> stem[0] == v[0]);
    if stem.len() > 0 {
        assert(replace_char(stem, '-', '_')[0] == v[0]);
        assert(lower_ascii(replace_char(stem, '-', '_'))[0] == ascii_lower(v[0]));
    }
}

/// The softdep keywords name neither `vr` nor `vklp`.
pub proof fn lemma_default_keywords()
    ensures
        keywords_not_targets(crate::boot_patch::ramdisk::default_targets()),
{
    let t = crate::boot_patch::ramdisk::default_targets();
    reveal_strlit("softdep");
    reveal_strlit("pre:");
    reveal_strlit("post:");
    reveal_strlit("vr");
    reveal_strlit("vklp");
    assert(t[0][0] == 'v' && t[1][0] == 'v');
    let kws = seq!["softdep"@, "pre:"@, "post:"@];
    assert forall|i: int| 0 <= i < 3 implies !spec_is_target_reference(#[trigger] kws[i], t) by {
        let v = kws[i];
        assert(v[0] == 's' || v[0] == 'p');
        assert(lacks(v, '/')) by {
            assert forall|k: int| 0 <= k < v.len() implies #[trigger] v[k] != '/' by {}
        }
        lemma_stem_first_char(v);
        if spec_is_target_reference(v, t) {
            let st = spec_normalize_module_stem(v, false)->0;
            assert(t.contains(st));
            let j = choose|j: int| 0 <= j < t.len() && t[j] == st;
            assert(st[0] == 'v');
        }
    }
    assert(kws[0] == "softdep"@ && kws[1] == "pre:"@ && kws[2] == "post:"@);
}


/// A line of the index `name` that refers to one of the targets where the
/// line's meaning hangs on it: the module of a `modules.dep` line, the
/// module of a `modules.softdep`, `modules.options` or `modules.blocklist`
/// line (its second word), the module an `alias` line of
/// `modules.alias` maps to (its last word), and the module of a
/// `modules.load`, `modules.load.*` or `modules.order` line (its first
/// word).  Blank lines and comment lines refer to nothing.
pub open spec fn line_names_target(name: Seq<char>, l: Seq<char>, t: Seq<Seq<char>>) -> bool {
    let trimmed = trim(l, CharClass::Whitespace);
    let tokens = words(line_content(l));
    &&& trimmed.len() > 0
    &&& !starts_with(trimmed, seq!['#'])
    &&& {
        ||| name == "modules.dep"@ && (split_once(line_content(l), CharClass::Single(':')) matches Some((module, _))
            && spec_is_target_reference(module, t))
        ||| (name == "modules.softdep"@ || name == "modules.options"@ || name == "modules.blocklist"@)
            && tokens.len() >= 2 && spec_is_target_reference(tokens[1], t)
        ||| name == "modules.alias"@ && tokens.len() > 0 && tokens[0] == "alias"@ && spec_is_target_reference(
            tokens.last(),
            t,
        )
        ||| (name == "modules.load"@ || name == "modules.order"@ || starts_with(name, "modules.load."@))
            && tokens.len() > 0 && spec_is_target_reference(tokens[0], t)
    }
}

/// A line that the rewrite keeps names no target.
pub proof fn lemma_kept_line_clean(name: Seq<char>, l: Seq<char>, t: Seq<Seq<char>>)
    requires
        spec_rewrite_module_index_line(name, l, t) is Some,
    ensures
        !line_names_target(name, l, t),
{
    reveal_strlit("modules.dep");
    reveal_strlit("modules.softdep");
    reveal_strlit("modules.alias");
    reveal_strlit("modules.options");
    reveal_strlit("modules.blocklist");
    reveal_strlit("modules.load");
    reveal_strlit("modules.order");
    reveal_strlit("modules.load.");
    let n_dep = "modules.dep"@;
    let n_soft = "modules.softdep"@;
    let n_alias = "modules.alias"@;
    let n_opt = "modules.options"@;
    let n_block = "modules.blocklist"@;
    let n_load = "modules.load"@;
    let n_order = "modules.order"@;
    assert(n_dep.len() == 11 && n_soft.len() == 15 && n_alias.len() == 13 && n_opt.len() == 15);
    assert(n_block.len() == 17 && n_load.len() == 12 && n_order.len() == 13 && "modules.load."@.len() == 13);
    assert(n_soft[8] != n_opt[8]);
    assert(n_alias[8] != n_order[8]);
    assert(!starts_with(n_dep, "modules.load."@) && !starts_with(n_load, "modules.load."@));
    assert(!starts_with(n_alias, "modules.load."@)) by {
        assert(n_alias.take(13)[8] != "modules.load."@[8]);
    }
    assert(!starts_with(n_order, "modules.load."@)) by {
        assert(n_order.take(13)[8] != "modules.load."@[8]);
    }
    assert(!starts_with(n_soft, "modules.load."@)) by {
        assert(n_soft.take(13)[8] != "modules.load."@[8]);
    }
    assert(!starts_with(n_opt, "modules.load."@)) by {
        assert(n_opt.take(13)[8] != "modules.load."@[8]);
    }
    assert(!starts_with(n_block, "modules.load."@)) by {
        assert(n_block.take(13)[8] != "modules.load."@[8]);
    }
    if starts_with(name, "modules.load."@) {
        assert(name.len() >= 13);
        assert(name != n_dep && name != n_load);
        assert(name != n_alias) by {
            if name == n_alias {
                assert(name.take(13)[8] == n_alias[8]);
            }
        }
        assert(name != n_soft) by {
            if name == n_soft {
                assert(name.take(13)[8] == n_soft[8]);
            }
        }
        assert(name != n_opt) by {
            if name == n_opt {
                assert(name.take(13)[8] == n_opt[8]);
            }
        }
        assert(name != n_block) by {
            if name == n_block {
                assert(name.take(13)[8] == n_block[8]);
            }
        }
    }
}

proof fn lemma_unchanged_lines_kept(name: Seq<char>, ls: Seq<Seq<char>>, t: Seq<Seq<char>>)
    requires
        !rewrite_lines(name, ls, t).1,
    ensures
        forall|i: int| 0 <= i < ls.len() ==> spec_rewrite_module_index_line(
            name,
            trim_end(#[trigger] ls[i], CharClass::Single('\r')),
            t,
        ) is Some,
    decreases ls.len(),
{
    if ls.len() > 0 {
        let d = ls.drop_last();
        let l = ls.last();
        assert(spec_rewrite_module_index_line(name, trim_end(l, CharClass::Single('\r')), t) is Some);
        lemma_unchanged_lines_kept(name, d, t);
        assert forall|i: int| 0 <= i < ls.len() implies spec_rewrite_module_index_line(
            name,
            trim_end(#[trigger] ls[i], CharClass::Single('\r')),
            t,
        ) is Some by {
            if i < ls.len() - 1 {
                assert(ls[i] == d[i]);
            }
        }
    }
}

/// The text an index holds after the rewrite: the new text when it
/// changes, else the old one.
pub open spec fn index_text_after(index_path: Seq<char>, data: Seq<u8>, t: Seq<Seq<char>>) -> Seq<char> {
    match spec_rewrite_module_index(index_path, data, t) {
        Ok(Some(b)) => vstd::utf8::decode_utf8(b),
        _ => vstd::utf8::decode_utf8(data),
    }
}

/// Law: after the rewrite of a module index (of a UTF-8 file), no line of
/// it names one of the targets (see `line_names_target`), whether the file
/// was changed or was left as it was.
pub proof fn law_rewritten_index_names_no_target(index_path: Seq<char>, data: Seq<u8>, t: Seq<Seq<char>>)
    requires
        softdep_index_stable(index_path, data, t),
        spec_rewrite_module_index(index_path, data, t) is Ok,
    ensures
        forall|i: int|
            0 <= i < text_lines(index_text_after(index_path, data, t)).len() ==> !line_names_target(
                last_segment(index_path, CharClass::Single('/')),
                trim_end(#[trigger] text_lines(index_text_after(index_path, data, t))[i], CharClass::Single('\r')),
                t,
            ),
{
    let text = vstd::utf8::decode_utf8(data);
    let name = last_segment(index_path, CharClass::Single('/'));
    let lines = text_lines(text);
    lemma_text_lines_lack_nl(text);
    lemma_rewrite_lines_out(name, lines, t);
    let (out, changed) = rewrite_lines(name, lines, t);
    if changed {
        let joined = join_with(out, seq!['\n']);
        let trailing = text.len() > 0 && text.last() == '\n';
        let body = if trailing && joined.len() > 0 { joined.push('\n') } else { joined };
        broadcast use vstd::utf8::encode_utf8_valid_utf8, vstd::utf8::encode_utf8_decode_utf8;
        let b = vstd::utf8::encode_utf8(body);
        assert(vstd::utf8::decode_utf8(b) == body);
        assert(index_text_after(index_path, data, t) == body);
        assert forall|k: int| 0 <= k < out.len() implies no_trailing_cr(#[trigger] out[k]) && lacks(out[k], '\n') by {
            assert(kept_as_is(name, out[k], t));
        }
        lemma_text_lines_of_output(out, body, trailing);
        let l2 = text_lines(body);
        assert forall|k: int| 0 <= k < l2.len() implies !line_names_target(
            name,
            trim_end(#[trigger] l2[k], CharClass::Single('\r')),
            t,
        ) by {
            let j = choose|j: int| 0 <= j < out.len() && #[trigger] l2[k] == out[j];
            assert(kept_as_is(name, out[j], t));
            lemma_trim_end_noop(l2[k], CharClass::Single('\r'));
            lemma_kept_line_clean(name, l2[k], t);
        }
    } else {
        assert(index_text_after(index_path, data, t) == text);
        lemma_unchanged_lines_kept(name, lines, t);
        assert forall|k: int| 0 <= k < lines.len() implies !line_names_target(
            name,
            trim_end(#[trigger] lines[k], CharClass::Single('\r')),
            t,
        ) by {
            lemma_kept_line_clean(name, trim_end(lines[k], CharClass::Single('\r')), t);
        }
    }
}

} // verus!
