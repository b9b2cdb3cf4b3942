//! Character-level string helpers shared by every module.
use vstd::prelude::*;

verus! {

/// Append one character to `s` (wraps `String::push`).
#[verifier::external_body]
pub(crate) fn push_char(s: &mut String, c: char)
    ensures
        final(s)@ == old(s)@.push(c),
{
    s.push(c);
}

/// The characters of `s`, in order.
pub fn chars_of(s: &str) -> (r: Vec<char>)
    ensures
        r@ == s@,
{
    let mut r: Vec<char> = Vec::new();
    for c in it: s.chars()
        invariant
            r@ == it.seq().take(it.index() as int),
    {
        r.push(c);
    }
    r
}

/// A string made of the characters `cs`.
pub fn string_from_chars(cs: &[char]) -> (r: String)
    ensures
        r@ == cs@,
{
    let mut r = String::new();
    let mut i: usize = 0;
    while i < cs.len()
        invariant
            i <= cs@.len(),
            r@ == cs@.take(i as int),
        decreases cs@.len() - i,
    {
        push_char(&mut r, cs[i]);
        assert(cs@.take(i + 1) =~= cs@.take(i as int).push(cs@[i as int]));
        i = i + 1;
    }
    assert(cs@.take(cs@.len() as int) =~= cs@);
    r
}


} // verus!

verus! {

/// Decode UTF-8 bytes into a `String` (wraps `std::str::from_utf8`):
/// `None` exactly when the bytes are not valid UTF-8, otherwise the
/// decoded characters.
#[verifier::external_body]
pub(crate) fn utf8_to_string(bytes: &[u8]) -> (r: Option<String>)
    ensures
        r is Some <==> vstd::utf8::valid_utf8(bytes@),
        r matches Some(s) ==> s@ == vstd::utf8::decode_utf8(bytes@),
{
    match std::str::from_utf8(bytes) {
        Ok(s) => Some(s.to_string()),
        Err(_) => None,
    }
}

} // verus!

verus! {

/// `pat` occurs in `s` starting at index `j`.
pub open spec fn match_at(s: Seq<char>, pat: Seq<char>, j: int) -> bool {
    0 <= j && j + pat.len() <= s.len() && s.subrange(j, j + pat.len()) == pat
}

/// Index of the first occurrence of `pat` in `s` at or after `j`, or -1.
pub open spec fn first_match_from(s: Seq<char>, pat: Seq<char>, j: int) -> int
    decreases s.len() + 1 - j,
{
    if j < 0 || j + pat.len() > s.len() {
        -1
    } else if match_at(s, pat, j) {
        j
    } else {
        first_match_from(s, pat, j + 1)
    }
}

/// `s` split at every non-overlapping occurrence of the non-empty pattern
/// `pat`, scanning left to right (the pieces of `str::split`).
pub open spec fn split_pat(s: Seq<char>, pat: Seq<char>) -> Seq<Seq<char>>
    decreases s.len(),
{
    let f = first_match_from(s, pat, 0);
    if pat.len() == 0 || f < 0 {
        seq![s]
    } else {
        proof {
            lemma_first_match_valid(s, pat, 0);
        }
        seq![s.take(f)] + split_pat(s.skip(f + pat.len()), pat)
    }
}

/// The pieces joined with `sep` between neighbours.
pub open spec fn join_with(xs: Seq<Seq<char>>, sep: Seq<char>) -> Seq<char>
    decreases xs.len(),
{
    if xs.len() == 0 {
        Seq::empty()
    } else if xs.len() == 1 {
        xs[0]
    } else {
        xs[0] + sep + join_with(xs.drop_first(), sep)
    }
}

pub open spec fn is_nonempty(s: Seq<char>) -> bool {
    s.len() > 0
}

/// The non-empty pieces of `split_pat`.
pub open spec fn split_nonempty(s: Seq<char>, pat: Seq<char>) -> Seq<Seq<char>> {
    split_pat(s, pat).filter(|x: Seq<char>| is_nonempty(x))
}

pub open spec fn strings_view(v: Seq<String>) -> Seq<Seq<char>> {
    v.map_values(|s: String| s@)
}

/// A found match really is a match, at or after `j`.
pub proof fn lemma_first_match_valid(s: Seq<char>, pat: Seq<char>, j: int)
    ensures
        first_match_from(s, pat, j) >= 0 ==> match_at(s, pat, first_match_from(s, pat, j)) && first_match_from(s, pat, j) >= j,
    decreases s.len() + 1 - j,
{
    if !(j < 0 || j + pat.len() > s.len()) && !match_at(s, pat, j) {
        lemma_first_match_valid(s, pat, j + 1);
    }
}

proof fn lemma_first_match_skip(s: Seq<char>, pat: Seq<char>, a: int, b: int)
    requires
        0 <= a <= b,
        forall|k: int| a <= k < b ==> !match_at(s, pat, k),
    ensures
        first_match_from(s, pat, a) == first_match_from(s, pat, b) || (first_match_from(s, pat, a) == -1 && first_match_from(s, pat, b) == -1),
    decreases b - a,
{
    if a < b {
        lemma_first_match_skip(s, pat, a + 1, b);
        if a + pat.len() > s.len() {
            lemma_first_match_none(s, pat, b);
        }
    }
}

proof fn lemma_first_match_none(s: Seq<char>, pat: Seq<char>, j: int)
    requires
        j >= 0,
        j + pat.len() > s.len(),
    ensures
        first_match_from(s, pat, j) == -1,
{
}

proof fn lemma_match_at_skip(s: Seq<char>, pat: Seq<char>, start: int, k: int)
    requires
        0 <= start <= s.len(),
    ensures
        match_at(s.skip(start), pat, k - start) <==> (k >= start && match_at(s, pat, k)),
{
    if k >= start && k + pat.len() <= s.len() {
        assert(s.skip(start).subrange(k - start, k - start + pat.len()) =~= s.subrange(k, k + pat.len()));
    }
}

/// Split the characters `s` at every occurrence of the non-empty pattern
/// `pat`; with `skip_empty`, empty pieces are left out.
pub fn split_chars(s: &Vec<char>, pat: &Vec<char>, skip_empty: bool) -> (r: Vec<String>)
    requires
        pat@.len() > 0,
    ensures
        skip_empty ==> strings_view(r@) == split_nonempty(s@, pat@),
        !skip_empty ==> strings_view(r@) == split_pat(s@, pat@),
{
    let m = pat.len();
    let n = s.len();
    let mut r: Vec<String> = Vec::new();
    let ghost mut done: Seq<Seq<char>> = Seq::empty();
    let mut start: usize = 0;
    let mut i: usize = 0;
    assert(s@.skip(0) =~= s@);
    while i < n
        invariant
            m == pat@.len(),
            m > 0,
            n == s@.len(),
            start <= i <= n,
            split_pat(s@, pat@) == done + split_pat(s@.skip(start as int), pat@),
            forall|k: int| start <= k < i ==> !match_at(s@, pat@, k),
            !skip_empty ==> strings_view(r@) == done,
            skip_empty ==> strings_view(r@) == done.filter(|x: Seq<char>| is_nonempty(x)),
        decreases n - i,
    {
        let mut hit = m <= n - i;
        let mut j: usize = 0;
        while hit && j < m
            invariant
                m == pat@.len(),
                n == s@.len(),
                i < n,
                j <= m,
                hit ==> i + m <= n,
                hit ==> forall|t: int| 0 <= t < j ==> s@[i + t] == pat@[t],
                !hit ==> !match_at(s@, pat@, i as int),
            decreases m - j,
        {
            if s[i + j] != pat[j] {
                hit = false;
                assert(s@.subrange(i as int, i + m)[j as int] != pat@[j as int]);
            }
            j = j + 1;
        }
        if hit {
            assert(s@.subrange(i as int, i + m) =~= pat@);
            let ghost rest = s@.skip(start as int);
            proof {
                assert forall|k: int| 0 <= k < i - start implies !match_at(rest, pat@, k) by {
                    lemma_match_at_skip(s@, pat@, start as int, k + start);
                }
                lemma_match_at_skip(s@, pat@, start as int, i as int);
                lemma_first_match_skip(rest, pat@, 0, i - start);
                assert(first_match_from(rest, pat@, 0) == i - start);
                assert(rest.take(i - start) =~= s@.subrange(start as int, i as int));
                assert(rest.skip(i - start + m) =~= s@.skip(i + m));
            }
            let piece = string_from_chars(vstd::slice::slice_subrange(s.as_slice(), start, i));
            let ghost p = s@.subrange(start as int, i as int);
            proof {
                assert(done + split_pat(rest, pat@) =~= done.push(p) + split_pat(s@.skip(i + m), pat@));
            }
            if !skip_empty || i > start {
                r.push(piece);
            }
            proof {
                let f = |x: Seq<char>| is_nonempty(x);
                assert(done.push(p).filter(f) == done.filter(f) + seq![p].filter(f)) by {
                    Seq::filter_distributes_over_add(done, seq![p], f);
                    assert(done.push(p) =~= done + seq![p]);
                }
                reveal_with_fuel(Seq::filter, 2);
                if p.len() > 0 {
                    assert(seq![p].filter(f) =~= seq![p]);
                } else {
                    assert(seq![p].filter(f) =~= Seq::<Seq<char>>::empty());
                }
                done = done.push(p);
                assert(strings_view(r@) =~= (if skip_empty { done.filter(f) } else { done }));
            }
            start = i + m;
            i = i + m;
        } else {
            i = i + 1;
        }
    }
    let ghost rest = s@.skip(start as int);
    proof {
        assert forall|k: int| 0 <= k < n - start implies !match_at(rest, pat@, k) by {
            lemma_match_at_skip(s@, pat@, start as int, k + start);
        }
        lemma_first_match_skip(rest, pat@, 0, n - start);
        lemma_first_match_none(rest, pat@, n - start);
        assert(split_pat(rest, pat@) == seq![rest]);
    }
    let piece = string_from_chars(vstd::slice::slice_subrange(s.as_slice(), start, n));
    assert(s@.subrange(start as int, n as int) =~= rest);
    if !skip_empty || n > start {
        r.push(piece);
    }
    proof {
        let f = |x: Seq<char>| is_nonempty(x);
        assert(done.push(rest).filter(f) == done.filter(f) + seq![rest].filter(f)) by {
            Seq::filter_distributes_over_add(done, seq![rest], f);
            assert(done.push(rest) =~= done + seq![rest]);
        }
        reveal_with_fuel(Seq::filter, 2);
        if rest.len() > 0 {
            assert(seq![rest].filter(f) =~= seq![rest]);
        } else {
            assert(seq![rest].filter(f) =~= Seq::<Seq<char>>::empty());
        }
        assert(done + seq![rest] =~= done.push(rest));
        assert(strings_view(r@) =~= (if skip_empty { done.push(rest).filter(f) } else { done.push(rest) }));
    }
    r
}

/// Append the characters `cs` to `s`.
pub fn append_chars(s: &mut String, cs: &Vec<char>)
    ensures
        final(s)@ == old(s)@ + cs@,
{
    let mut k: usize = 0;
    while k < cs.len()
        invariant
            k <= cs@.len(),
            s@ == old(s)@ + cs@.take(k as int),
        decreases cs@.len() - k,
    {
        push_char(s, cs[k]);
        assert(cs@.take(k + 1) =~= cs@.take(k as int).push(cs@[k as int]));
        k = k + 1;
    }
    assert(cs@.take(cs@.len() as int) =~= cs@);
}

/// The strings `xs` joined with `sep` between neighbours.
pub fn join_strings(xs: &[String], sep: &Vec<char>) -> (r: String)
    ensures
        r@ == join_with(strings_view(xs@), sep@),
{
    let ghost v = strings_view(xs@);
    let mut r = String::new();
    let n = xs.len();
    if n == 0 {
        return r;
    }
    r.append(xs[0].as_str());
    let mut i: usize = 1;
    assert(v.skip(1) =~= v.drop_first());
    while i < n
        invariant
            1 <= i <= n,
            n == xs@.len(),
            v == strings_view(xs@),
            i < n ==> join_with(v, sep@) == r@ + sep@ + join_with(v.skip(i as int), sep@),
            i == n ==> r@ == join_with(v, sep@),
        decreases n - i,
    {
        let ghost old_r = r@;
        append_chars(&mut r, sep);
        r.append(xs[i].as_str());
        proof {
            let t = v.skip(i as int);
            assert(t[0] == v[i as int]);
            assert(t.drop_first() =~= v.skip(i + 1));
            if i + 1 < n {
                assert(join_with(t, sep@) == t[0] + sep@ + join_with(t.drop_first(), sep@));
                assert(join_with(v, sep@) =~= r@ + sep@ + join_with(v.skip(i + 1), sep@));
            } else {
                assert(t.len() == 1);
                assert(join_with(v, sep@) =~= r@);
            }
        }
        i = i + 1;
    }
    r
}

} // verus!

verus! {

/// Characters for which `char::is_whitespace` holds (Unicode White_Space).
pub open spec fn is_ws(c: char) -> bool {
    ||| ('\u{9}' <= c && c <= '\u{d}')
    ||| c == ' '
    ||| c == '\u{85}'
    ||| c == '\u{a0}'
    ||| c == '\u{1680}'
    ||| ('\u{2000}' <= c && c <= '\u{200a}')
    ||| c == '\u{2028}'
    ||| c == '\u{2029}'
    ||| c == '\u{202f}'
    ||| c == '\u{205f}'
    ||| c == '\u{3000}'
}

/// A set of characters used as trim or split delimiters.
#[derive(Clone, Copy, PartialEq, Eq, Structural)]
pub enum CharClass {
    /// `char::is_whitespace`
    Whitespace,
    /// exactly the one character
    Single(char),
    /// `:` or `,`
    ColonOrComma,
}

pub open spec fn in_class(c: char, cls: CharClass) -> bool {
    match cls {
        CharClass::Whitespace => is_ws(c),
        CharClass::Single(d) => c == d,
        CharClass::ColonOrComma => c == ':' || c == ',',
    }
}

pub fn char_in_class(c: char, cls: CharClass) -> (r: bool)
    ensures
        r == in_class(c, cls),
{
    match cls {
        CharClass::Whitespace => {
            ('\u{9}' <= c && c <= '\u{d}') || c == ' ' || c == '\u{85}' || c == '\u{a0}'
                || c == '\u{1680}' || ('\u{2000}' <= c && c <= '\u{200a}') || c == '\u{2028}'
                || c == '\u{2029}' || c == '\u{202f}' || c == '\u{205f}' || c == '\u{3000}'
        },
        CharClass::Single(d) => c == d,
        CharClass::ColonOrComma => c == ':' || c == ',',
    }
}

/// `s` without its leading characters of class `cls`.
pub open spec fn trim_start(s: Seq<char>, cls: CharClass) -> Seq<char>
    decreases s.len(),
{
    if s.len() > 0 && in_class(s[0], cls) {
        trim_start(s.drop_first(), cls)
    } else {
        s
    }
}

/// `s` without its trailing characters of class `cls`.
pub open spec fn trim_end(s: Seq<char>, cls: CharClass) -> Seq<char>
    decreases s.len(),
{
    if s.len() > 0 && in_class(s.last(), cls) {
        trim_end(s.drop_last(), cls)
    } else {
        s
    }
}

/// `s` without leading and trailing characters of class `cls`.
pub open spec fn trim(s: Seq<char>, cls: CharClass) -> Seq<char> {
    trim_end(trim_start(s, cls), cls)
}

/// Index of the first character of class `cls` in `s` at or after `j`, or -1.
pub open spec fn find_from(s: Seq<char>, cls: CharClass, j: int) -> int
    decreases s.len() - j,
{
    if j < 0 || j >= s.len() {
        -1
    } else if in_class(s[j], cls) {
        j
    } else {
        find_from(s, cls, j + 1)
    }
}

pub open spec fn find_first(s: Seq<char>, cls: CharClass) -> int {
    find_from(s, cls, 0)
}

/// Index of the last character of class `cls` in `s`, or -1.
pub open spec fn find_last(s: Seq<char>, cls: CharClass) -> int
    decreases s.len(),
{
    if s.len() == 0 {
        -1
    } else if in_class(s.last(), cls) {
        s.len() - 1
    } else {
        find_last(s.drop_last(), cls)
    }
}

/// `s` cut at its first character of class `cls` (that character dropped).
pub open spec fn split_once(s: Seq<char>, cls: CharClass) -> Option<(Seq<char>, Seq<char>)> {
    let i = find_first(s, cls);
    if i < 0 {
        None
    } else {
        Some((s.take(i), s.skip(i + 1)))
    }
}

/// `s` split at every character of class `cls`.
pub open spec fn split_class(s: Seq<char>, cls: CharClass) -> Seq<Seq<char>>
    decreases s.len(),
{
    let i = find_first(s, cls);
    if i < 0 {
        seq![s]
    } else {
        proof {
            lemma_find_from_valid(s, cls, 0);
        }
        seq![s.take(i)] + split_class(s.skip(i + 1), cls)
    }
}

/// The whitespace-separated words of `s` (`str::split_whitespace`).
pub open spec fn words(s: Seq<char>) -> Seq<Seq<char>> {
    split_class(s, CharClass::Whitespace).filter(|x: Seq<char>| is_nonempty(x))
}

pub proof fn lemma_find_from_valid(s: Seq<char>, cls: CharClass, j: int)
    requires
        0 <= j,
    ensures
        find_from(s, cls, j) >= 0 ==> j <= find_from(s, cls, j) < s.len() && in_class(s[find_from(s, cls, j)], cls),
        find_from(s, cls, j) < 0 ==> forall|k: int| j <= k < s.len() ==> !in_class(#[trigger] s[k], cls),
        find_from(s, cls, j) >= 0 ==> forall|k: int| j <= k < find_from(s, cls, j) ==> !in_class(#[trigger] s[k], cls),
    decreases s.len() - j,
{
    if 0 <= j < s.len() && !in_class(s[j], cls) {
        lemma_find_from_valid(s, cls, j + 1);
    }
}

pub proof fn lemma_find_last_valid(s: Seq<char>, cls: CharClass)
    ensures
        find_last(s, cls) >= -1,
        find_last(s, cls) >= 0 ==> find_last(s, cls) < s.len() && in_class(s[find_last(s, cls)], cls),
        find_last(s, cls) < 0 ==> forall|k: int| 0 <= k < s.len() ==> !in_class(#[trigger] s[k], cls),
        forall|k: int| 0 <= k && find_last(s, cls) < k < s.len() ==> !in_class(#[trigger] s[k], cls),
    decreases s.len(),
{
    if s.len() > 0 && !in_class(s.last(), cls) {
        lemma_find_last_valid(s.drop_last(), cls);
        assert forall|k: int| 0 <= k && find_last(s, cls) < k < s.len() - 1 implies !in_class(#[trigger] s[k], cls) by {
            assert(s.drop_last()[k] == s[k]);
        }
        if find_last(s, cls) < 0 {
            assert forall|k: int| 0 <= k < s.len() implies !in_class(#[trigger] s[k], cls) by {
                if k < s.len() - 1 {
                    assert(s.drop_last()[k] == s[k]);
                }
            }
        }
    }
}

/// Exec `find_first` on characters.
pub fn find_first_exec(s: &Vec<char>, cls: CharClass) -> (r: Option<usize>)
    ensures
        match r {
            Some(i) => i == find_first(s@, cls),
            None => find_first(s@, cls) < 0,
        },
{
    let mut i: usize = 0;
    while i < s.len()
        invariant
            i <= s@.len(),
            find_from(s@, cls, 0) == find_from(s@, cls, i as int),
        decreases s@.len() - i,
    {
        if char_in_class(s[i], cls) {
            return Some(i);
        }
        i = i + 1;
    }
    None
}

/// Exec `find_last` on characters.
pub fn find_last_exec(s: &Vec<char>, cls: CharClass) -> (r: Option<usize>)
    ensures
        match r {
            Some(i) => i == find_last(s@, cls),
            None => find_last(s@, cls) < 0,
        },
{
    let mut i: usize = s.len();
    assert(s@.take(i as int) =~= s@);
    while i > 0
        invariant
            i <= s@.len(),
            find_last(s@, cls) == find_last(s@.take(i as int), cls),
        decreases i,
    {
        assert(s@.take(i as int).drop_last() =~= s@.take(i - 1));
        if char_in_class(s[i - 1], cls) {
            return Some(i - 1);
        }
        i = i - 1;
    }
    None
}

/// The characters of `s` from `a` up to `b`.
pub fn sub_chars(s: &Vec<char>, a: usize, b: usize) -> (r: Vec<char>)
    requires
        a <= b <= s@.len(),
    ensures
        r@ == s@.subrange(a as int, b as int),
{
    let mut r: Vec<char> = Vec::new();
    let mut i: usize = a;
    while i < b
        invariant
            a <= i <= b,
            b <= s@.len(),
            r@ == s@.subrange(a as int, i as int),
        decreases b - i,
    {
        r.push(s[i]);
        assert(s@.subrange(a as int, i + 1) =~= s@.subrange(a as int, i as int).push(s@[i as int]));
        i = i + 1;
    }
    r
}

proof fn lemma_trim_start_skip(s: Seq<char>, cls: CharClass, i: int)
    requires
        0 <= i <= s.len(),
        forall|k: int| 0 <= k < i ==> in_class(#[trigger] s[k], cls),
    ensures
        trim_start(s, cls) == trim_start(s.skip(i), cls),
    decreases i,
{
    if i > 0 {
        assert(s.drop_first().skip(i - 1) =~= s.skip(i));
        assert forall|k: int| 0 <= k < i - 1 implies in_class(#[trigger] s.drop_first()[k], cls) by {
            assert(s.drop_first()[k] == s[k + 1]);
        }
        lemma_trim_start_skip(s.drop_first(), cls, i - 1);
    } else {
        assert(s.skip(0) =~= s);
    }
}

proof fn lemma_trim_end_take(s: Seq<char>, cls: CharClass, j: int)
    requires
        0 <= j <= s.len(),
        forall|k: int| j <= k < s.len() ==> in_class(#[trigger] s[k], cls),
    ensures
        trim_end(s, cls) == trim_end(s.take(j), cls),
    decreases s.len() - j,
{
    if j < s.len() {
        assert(s.drop_last().take(j) =~= s.take(j));
        assert forall|k: int| j <= k < s.drop_last().len() implies in_class(#[trigger] s.drop_last()[k], cls) by {
            assert(s.drop_last()[k] == s[k]);
        }
        lemma_trim_end_take(s.drop_last(), cls, j);
    } else {
        assert(s.take(j) =~= s);
    }
}

/// Exec `trim_start`.
pub fn trim_start_exec(s: &Vec<char>, cls: CharClass) -> (r: Vec<char>)
    ensures
        r@ == trim_start(s@, cls),
{
    let mut i: usize = 0;
    while i < s.len() && char_in_class(s[i], cls)
        invariant
            i <= s@.len(),
            forall|k: int| 0 <= k < i ==> in_class(#[trigger] s@[k], cls),
        decreases s@.len() - i,
    {
        i = i + 1;
    }
    proof {
        lemma_trim_start_skip(s@, cls, i as int);
    }
    let r = sub_chars(s, i, s.len());
    assert(r@ =~= s@.skip(i as int));
    r
}

/// Exec `trim_end`.
pub fn trim_end_exec(s: &Vec<char>, cls: CharClass) -> (r: Vec<char>)
    ensures
        r@ == trim_end(s@, cls),
{
    let mut j: usize = s.len();
    while j > 0 && char_in_class(s[j - 1], cls)
        invariant
            j <= s@.len(),
            forall|k: int| j <= k < s@.len() ==> in_class(#[trigger] s@[k], cls),
        decreases j,
    {
        j = j - 1;
    }
    proof {
        lemma_trim_end_take(s@, cls, j as int);
    }
    let r = sub_chars(s, 0, j);
    assert(r@ =~= s@.take(j as int));
    r
}

/// Exec `trim`.
pub fn trim_exec(s: &Vec<char>, cls: CharClass) -> (r: Vec<char>)
    ensures
        r@ == trim(s@, cls),
{
    let t = trim_start_exec(s, cls);
    trim_end_exec(&t, cls)
}

/// Exec `split_once`.
pub fn split_once_exec(s: &Vec<char>, cls: CharClass) -> (r: Option<(Vec<char>, Vec<char>)>)
    ensures
        match split_once(s@, cls) {
            None => r is None,
            Some((a, b)) => r matches Some((x, y)) && x@ == a && y@ == b,
        },
{
    proof { lemma_find_from_valid(s@, cls, 0); }
    match find_first_exec(s, cls) {
        None => None,
        Some(i) => {
            assert(find_from(s@, cls, 0) >= 0);
            let n = s.len();
            assert(i < n);
            let a = sub_chars(s, 0, i);
            let b = sub_chars(s, i + 1, n);
            assert(a@ =~= s@.take(i as int));
            assert(b@ =~= s@.skip(i + 1));
            Some((a, b))
        },
    }
}

proof fn lemma_find_from_shift_eq(s: Seq<char>, cls: CharClass, start: int, k: int)
    requires
        0 <= start <= s.len(),
        0 <= k,
    ensures
        find_from(s.skip(start), cls, k) == (if find_from(s, cls, start + k) < 0 { -1 } else { find_from(s, cls, start + k) - start }),
    decreases s.len() - start - k,
{
    if start + k < s.len() {
        assert(s.skip(start)[k] == s[start + k]);
        if !in_class(s[start + k], cls) {
            lemma_find_from_shift_eq(s, cls, start, k + 1);
        }
    }
}

proof fn lemma_find_from_skip_more(s: Seq<char>, cls: CharClass, start: int, j: int)
    requires
        0 <= start <= j <= s.len(),
        forall|k: int| start <= k < j ==> !in_class(#[trigger] s[k], cls),
    ensures
        find_from(s.skip(start), cls, 0) == (if find_from(s, cls, j) < 0 { -1 } else { find_from(s, cls, j) - start }),
    decreases j - start,
{
    lemma_find_from_shift_eq(s, cls, start, 0);
    lemma_find_from_same(s, cls, start, j);
}

proof fn lemma_find_from_same(s: Seq<char>, cls: CharClass, a: int, b: int)
    requires
        0 <= a <= b <= s.len(),
        forall|k: int| a <= k < b ==> !in_class(#[trigger] s[k], cls),
    ensures
        find_from(s, cls, a) == find_from(s, cls, b),
    decreases b - a,
{
    if a < b {
        lemma_find_from_same(s, cls, a + 1, b);
    }
}

/// Exec `split_class`; with `skip_empty` the empty pieces are dropped.
pub fn split_class_exec(s: &Vec<char>, cls: CharClass, skip_empty: bool) -> (r: Vec<Vec<char>>)
    ensures
        !skip_empty ==> chars_view(r@) == split_class(s@, cls),
        skip_empty ==> chars_view(r@) == split_class(s@, cls).filter(|x: Seq<char>| is_nonempty(x)),
{
    let n = s.len();
    let mut r: Vec<Vec<char>> = Vec::new();
    let ghost mut done: Seq<Seq<char>> = Seq::empty();
    let mut start: usize = 0;
    let mut i: usize = 0;
    assert(s@.skip(0) =~= s@);
    while i < n
        invariant
            n == s@.len(),
            start <= i <= n,
            split_class(s@, cls) == done + split_class(s@.skip(start as int), cls),
            forall|k: int| start <= k < i ==> !in_class(#[trigger] s@[k], cls),
            !skip_empty ==> chars_view(r@) == done,
            skip_empty ==> chars_view(r@) == done.filter(|x: Seq<char>| is_nonempty(x)),
        decreases n - i,
    {
        if char_in_class(s[i], cls) {
            let ghost rest = s@.skip(start as int);
            proof {
                lemma_find_from_skip_more(s@, cls, start as int, i as int);
                assert(find_from(rest, cls, 0) == i - start);
                assert(rest.take(i - start) =~= s@.subrange(start as int, i as int));
                assert(rest.skip(i - start + 1) =~= s@.skip(i + 1));
            }
            let piece = sub_chars(s, start, i);
            let ghost p = piece@;
            proof {
                assert(done + split_class(rest, cls) =~= done.push(p) + split_class(s@.skip(i + 1), cls));
            }
            if !skip_empty || i > start {
                r.push(piece);
            }
            proof {
                let f = |x: Seq<char>| is_nonempty(x);
                assert(done.push(p).filter(f) == done.filter(f) + seq![p].filter(f)) by {
                    Seq::filter_distributes_over_add(done, seq![p], f);
                    assert(done.push(p) =~= done + seq![p]);
                }
                reveal_with_fuel(Seq::filter, 2);
                if p.len() > 0 {
                    assert(seq![p].filter(f) =~= seq![p]);
                } else {
                    assert(seq![p].filter(f) =~= Seq::<Seq<char>>::empty());
                }
                done = done.push(p);
                assert(chars_view(r@) =~= (if skip_empty { done.filter(f) } else { done }));
            }
            start = i + 1;
        }
        i = i + 1;
    }
    let ghost rest = s@.skip(start as int);
    proof {
        lemma_find_from_skip_more(s@, cls, start as int, n as int);
        assert(split_class(rest, cls) == seq![rest]);
    }
    let piece = sub_chars(s, start, n);
    assert(piece@ =~= rest);
    if !skip_empty || n > start {
        r.push(piece);
    }
    proof {
        let f = |x: Seq<char>| is_nonempty(x);
        assert(done.push(rest).filter(f) == done.filter(f) + seq![rest].filter(f)) by {
            Seq::filter_distributes_over_add(done, seq![rest], f);
            assert(done.push(rest) =~= done + seq![rest]);
        }
        reveal_with_fuel(Seq::filter, 2);
        if rest.len() > 0 {
            assert(seq![rest].filter(f) =~= seq![rest]);
        } else {
            assert(seq![rest].filter(f) =~= Seq::<Seq<char>>::empty());
        }
        assert(done + seq![rest] =~= done.push(rest));
        assert(chars_view(r@) =~= (if skip_empty { done.push(rest).filter(f) } else { done.push(rest) }));
    }
    r
}

pub open spec fn chars_view(v: Seq<Vec<char>>) -> Seq<Seq<char>> {
    v.map_values(|x: Vec<char>| x@)
}

/// The whitespace-separated words of `s`.
pub fn words_exec(s: &Vec<char>) -> (r: Vec<Vec<char>>)
    ensures
        chars_view(r@) == words(s@),
{
    split_class_exec(s, CharClass::Whitespace, true)
}

} // verus!

verus! {

pub open spec fn starts_with(s: Seq<char>, p: Seq<char>) -> bool {
    p.len() <= s.len() && s.take(p.len() as int) == p
}

pub open spec fn ends_with(s: Seq<char>, p: Seq<char>) -> bool {
    p.len() <= s.len() && s.skip(s.len() - p.len()) == p
}

/// `char::to_ascii_lowercase`.
pub open spec fn ascii_lower(c: char) -> char {
    if 'A' <= c && c <= 'Z' {
        (((c as u8) + 32) as u8) as char
    } else {
        c
    }
}

pub open spec fn lower_ascii(s: Seq<char>) -> Seq<char> {
    s.map_values(|c: char| ascii_lower(c))
}

/// `s` with every `a` replaced by `b`.
pub open spec fn replace_char(s: Seq<char>, a: char, b: char) -> Seq<char> {
    s.map_values(|c: char| if c == a { b } else { c })
}

pub fn chars_eq(a: &Vec<char>, b: &Vec<char>) -> (r: bool)
    ensures
        r == (a@ == b@),
{
    if a.len() != b.len() {
        return false;
    }
    let mut i: usize = 0;
    while i < a.len()
        invariant
            a@.len() == b@.len(),
            i <= a@.len(),
            forall|k: int| 0 <= k < i ==> a@[k] == b@[k],
        decreases a@.len() - i,
    {
        if a[i] != b[i] {
            return false;
        }
        i = i + 1;
    }
    assert(a@ =~= b@);
    true
}

/// Characters `s` equal the characters of `t`.
pub fn chars_eq_str(a: &Vec<char>, t: &str) -> (r: bool)
    ensures
        r == (a@ == t@),
{
    let b = chars_of(t);
    chars_eq(a, &b)
}

pub fn starts_with_exec(s: &Vec<char>, p: &Vec<char>) -> (r: bool)
    ensures
        r == starts_with(s@, p@),
{
    if p.len() > s.len() {
        return false;
    }
    let mut i: usize = 0;
    while i < p.len()
        invariant
            p@.len() <= s@.len(),
            i <= p@.len(),
            forall|k: int| 0 <= k < i ==> s@[k] == p@[k],
        decreases p@.len() - i,
    {
        if s[i] != p[i] {
            assert(s@.take(p@.len() as int)[i as int] != p@[i as int]);
            return false;
        }
        i = i + 1;
    }
    assert(s@.take(p@.len() as int) =~= p@);
    true
}

pub fn ends_with_exec(s: &Vec<char>, p: &Vec<char>) -> (r: bool)
    ensures
        r == ends_with(s@, p@),
{
    if p.len() > s.len() {
        return false;
    }
    let n = s.len();
    let off = n - p.len();
    let mut i: usize = 0;
    while i < p.len()
        invariant
            n == s@.len(),
            p@.len() <= s@.len(),
            off == s@.len() - p@.len(),
            i <= p@.len(),
            forall|k: int| 0 <= k < i ==> s@[off + k] == p@[k],
        decreases p@.len() - i,
    {
        if s[off + i] != p[i] {
            assert(s@.skip(off as int)[i as int] != p@[i as int]);
            return false;
        }
        i = i + 1;
    }
    assert(s@.skip(off as int) =~= p@);
    true
}

pub fn starts_with_str(s: &Vec<char>, p: &str) -> (r: bool)
    ensures
        r == starts_with(s@, p@),
{
    let pc = chars_of(p);
    starts_with_exec(s, &pc)
}

pub fn ends_with_str(s: &Vec<char>, p: &str) -> (r: bool)
    ensures
        r == ends_with(s@, p@),
{
    let pc = chars_of(p);
    ends_with_exec(s, &pc)
}

pub fn lower_ascii_exec(s: &Vec<char>) -> (r: Vec<char>)
    ensures
        r@ == lower_ascii(s@),
{
    let mut r: Vec<char> = Vec::new();
    let mut i: usize = 0;
    while i < s.len()
        invariant
            i <= s@.len(),
            r@ == lower_ascii(s@.take(i as int)),
        decreases s@.len() - i,
    {
        let c = s[i];
        let d = if 'A' <= c && c <= 'Z' {
            (((c as u8) + 32) as u8) as char
        } else {
            c
        };
        r.push(d);
        assert(lower_ascii(s@.take(i + 1)) =~= lower_ascii(s@.take(i as int)).push(ascii_lower(c)));
        i = i + 1;
    }
    assert(s@.take(s@.len() as int) =~= s@);
    r
}

pub fn replace_char_exec(s: &Vec<char>, a: char, b: char) -> (r: Vec<char>)
    ensures
        r@ == replace_char(s@, a, b),
{
    let mut r: Vec<char> = Vec::new();
    let mut i: usize = 0;
    while i < s.len()
        invariant
            i <= s@.len(),
            r@ == replace_char(s@.take(i as int), a, b),
        decreases s@.len() - i,
    {
        let c = s[i];
        r.push(if c == a { b } else { c });
        assert(replace_char(s@.take(i + 1), a, b) =~= replace_char(s@.take(i as int), a, b).push(if c == a { b } else { c }));
        i = i + 1;
    }
    assert(s@.take(s@.len() as int) =~= s@);
    r
}

} // verus!

verus! {

pub open spec fn strip_suffix(s: Seq<char>, p: Seq<char>) -> Option<Seq<char>> {
    if ends_with(s, p) {
        Some(s.take(s.len() - p.len()))
    } else {
        None
    }
}

pub fn strip_suffix_str(s: &Vec<char>, p: &str) -> (r: Option<Vec<char>>)
    ensures
        match strip_suffix(s@, p@) {
            None => r is None,
            Some(t) => r matches Some(u) && u@ == t,
        },
{
    let pc = chars_of(p);
    if ends_with_exec(s, &pc) {
        let t = sub_chars(s, 0, s.len() - pc.len());
        assert(t@ =~= s@.take(s@.len() - pc@.len()));
        Some(t)
    } else {
        None
    }
}

/// The part of `s` after its last character of class `cls` (all of `s`
/// when there is none): the first item of `str::rsplit`.
pub open spec fn last_segment(s: Seq<char>, cls: CharClass) -> Seq<char> {
    s.skip(find_last(s, cls) + 1)
}

pub fn last_segment_exec(s: &Vec<char>, cls: CharClass) -> (r: Vec<char>)
    ensures
        r@ == last_segment(s@, cls),
{
    proof { lemma_find_last_valid(s@, cls); }
    let n = s.len();
    match find_last_exec(s, cls) {
        Some(i) => {
            let r = sub_chars(s, i + 1, n);
            assert(r@ =~= s@.skip(i + 1));
            r
        },
        None => {
            let r = sub_chars(s, 0, n);
            assert(r@ =~= s@.skip(0));
            r
        },
    }
}

} // verus!

verus! {

/// The character sequences `xs` joined with `sep` between neighbours.
pub fn join_chars(xs: &Vec<Vec<char>>, sep: &Vec<char>) -> (r: Vec<char>)
    ensures
        r@ == join_with(chars_view(xs@), sep@),
{
    let ghost v = chars_view(xs@);
    let n = xs.len();
    if n == 0 {
        return Vec::new();
    }
    let mut r = sub_chars(&xs[0], 0, xs[0].len());
    assert(r@ =~= v[0]);
    let mut i: usize = 1;
    assert(v.skip(1) =~= v.drop_first());
    while i < n
        invariant
            1 <= i <= n,
            n == xs@.len(),
            v == chars_view(xs@),
            i < n ==> join_with(v, sep@) == r@ + sep@ + join_with(v.skip(i as int), sep@),
            i == n ==> r@ == join_with(v, sep@),
        decreases n - i,
    {
        let mut k: usize = 0;
        let ghost r0 = r@;
        while k < sep.len()
            invariant
                k <= sep@.len(),
                r@ == r0 + sep@.take(k as int),
            decreases sep@.len() - k,
        {
            r.push(sep[k]);
            assert(sep@.take(k + 1) =~= sep@.take(k as int).push(sep@[k as int]));
            k = k + 1;
        }
        assert(sep@.take(sep@.len() as int) =~= sep@);
        let x = &xs[i];
        let mut k: usize = 0;
        let ghost r1 = r@;
        while k < x.len()
            invariant
                k <= x@.len(),
                r@ == r1 + x@.take(k as int),
            decreases x@.len() - k,
        {
            r.push(x[k]);
            assert(x@.take(k + 1) =~= x@.take(k as int).push(x@[k as int]));
            k = k + 1;
        }
        assert(x@.take(x@.len() as int) =~= x@);
        proof {
            let t = v.skip(i as int);
            assert(t[0] == v[i as int]);
            assert(v[i as int] == x@);
            assert(t.drop_first() =~= v.skip(i + 1));
            if i + 1 < n {
                assert(join_with(t, sep@) == t[0] + sep@ + join_with(t.drop_first(), sep@));
                assert(join_with(v, sep@) =~= r@ + sep@ + join_with(v.skip(i + 1), sep@));
            } else {
                assert(t.len() == 1);
                assert(join_with(v, sep@) =~= r@);
            }
        }
        i = i + 1;
    }
    r
}

/// Pushing onto a sequence and filtering.
pub proof fn lemma_filter_push_one(s: Seq<Seq<char>>, x: Seq<char>, p: spec_fn(Seq<char>) -> bool)
    ensures
        s.push(x).filter(p) == (if p(x) { s.filter(p).push(x) } else { s.filter(p) }),
{
    reveal(Seq::filter);
    assert(s.push(x).drop_last() =~= s);
}

} // verus!

verus! {

/// The decimal digit `d` (below 10) as a character.
pub open spec fn digit_char(d: nat) -> char {
    seq!['0', '1', '2', '3', '4', '5', '6', '7', '8', '9'][d as int]
}

/// The decimal representation of `n`, without leading zeros.
pub open spec fn decimal(n: nat) -> Seq<char>
    decreases n,
{
    if n < 10 {
        seq![digit_char(n)]
    } else {
        decimal(n / 10) + seq![digit_char(n % 10)]
    }
}

fn digit_char_exec(d: usize) -> (r: char)
    requires
        d < 10,
    ensures
        r == digit_char(d as nat),
{
    match d {
        0 => '0',
        1 => '1',
        2 => '2',
        3 => '3',
        4 => '4',
        5 => '5',
        6 => '6',
        7 => '7',
        8 => '8',
        _ => '9',
    }
}

/// `n` written in decimal, as `format!("{n}")` writes it.
pub fn decimal_string(n: usize) -> (r: String)
    ensures
        r@ == decimal(n as nat),
    decreases n,
{
    if n < 10 {
        let mut s = String::new();
        push_char(&mut s, digit_char_exec(n));
        s
    } else {
        let mut s = decimal_string(n / 10);
        push_char(&mut s, digit_char_exec(n % 10));
        s
    }
}

} // verus!
