//! Kernel Module Interface (KMI) and kernel version detection.
//!
//! The KMI of a kernel is written `androidNN-X.Y`, from the Android release
//! and the kernel's major and minor version.  It is found in a kernel's
//! version string (`uname -r`, a module's `vermagic`) or in the raw bytes of
//! a kernel image.
use vstd::prelude::*;

use crate::text::{chars_of, starts_with, starts_with_str, utf8_to_string};

verus! {

/// Pattern that finds the KMI in a kernel release or `vermagic` line.
pub const KMI_VERSION_PATTERN: &'static str = "(.* )?(\\d+\\.\\d+)(\\S+)?(android\\d+)(.*)";

/// Pattern that finds the KMI in a NUL-terminated string of a kernel image.
pub const KMI_BUFFER_PATTERN: &'static str = "(\\d+\\.\\d+)(?:\\S+)?(android\\d+)";

/// Pattern that finds `major.minor.patch` in a kernel release.
pub const KERNEL_VERSION_PATTERN: &'static str = "(\\d+)\\.(\\d+)\\.(\\d+)";

/// Why no KMI or kernel version could be found.
#[derive(Debug, Clone, Copy, PartialEq, Eq, Structural)]
pub enum KmiError {
    /// the search pattern was refused by the regex engine
    Pattern,
    /// no KMI was found in the input
    NoKmi,
    /// no `vermagic` line in the `modinfo` output
    NoVermagic,
    /// the release has no `major.minor.patch`
    InvalidKernelVersion,
    /// the major number does not fit in an `i32`
    MajorVersion,
    /// the minor number does not fit in an `i32`
    MinorVersion,
    /// the patch number does not fit in an `i32`
    PatchVersion,
}

/// Whether `regex_lite` accepts `pattern`.
pub uninterp spec fn regex_compiles(pattern: Seq<char>) -> bool;

/// The capture groups (group 0 first) of the leftmost match of `pattern`
/// in `text`, as `regex_lite` reports them; `None` when nothing matches.
pub uninterp spec fn regex_captures(pattern: Seq<char>, text: Seq<char>) -> Option<Seq<Option<Seq<char>>>>;

pub open spec fn opt_string_view(o: Option<String>) -> Option<Seq<char>> {
    match o {
        Some(s) => Some(s@),
        None => None,
    }
}

pub open spec fn captures_view(v: Seq<Option<String>>) -> Seq<Option<Seq<char>>> {
    v.map_values(|o: Option<String>| opt_string_view(o))
}

pub open spec fn opt_captures_view(c: Option<Vec<Option<String>>>) -> Option<Seq<Option<Seq<char>>>> {
    match c {
        Some(v) => Some(captures_view(v@)),
        None => None,
    }
}

/// Group `k` of a match, `None` where it did not take part or does not exist.
pub open spec fn group(c: Seq<Option<Seq<char>>>, k: int) -> Option<Seq<char>> {
    if 0 <= k < c.len() {
        c[k]
    } else {
        None
    }
}

pub open spec fn group_or_empty(c: Seq<Option<Seq<char>>>, k: int) -> Seq<char> {
    match group(c, k) {
        Some(s) => s,
        None => Seq::empty(),
    }
}

/// Whether `pattern` compiles (wraps `regex_lite::Regex::new`); the result
/// is named by `regex_compiles`.
#[verifier::external_body]
fn pattern_compiles(pattern: &str) -> (r: bool)
    ensures
        r == regex_compiles(pattern@),
{
    regex_lite::Regex::new(pattern).is_ok()
}

/// The capture groups of the leftmost match of `pattern` in `text`
/// (wraps `regex_lite::Regex::captures` and `Captures::iter`), each group
/// copied into a `String`; the result is named by `regex_captures`.
#[verifier::external_body]
fn regex_captures_of(pattern: &str, text: &str) -> (r: Option<Vec<Option<String>>>)
    requires
        regex_compiles(pattern@),
    ensures
        opt_captures_view(r) == regex_captures(pattern@, text@),
{
    match regex_lite::Regex::new(pattern) {
        Ok(re) => re.captures(text).map(
            |caps| caps.iter().map(|m| m.map(|m| m.as_str().to_string())).collect(),
        ),
        Err(_) => None,
    }
}

/// Group `k` of `v`, copied.
pub fn capture_group(v: &Vec<Option<String>>, k: usize) -> (r: Option<String>)
    ensures
        opt_string_view(r) == group(captures_view(v@), k as int),
{
    if k < v.len() {
        match &v[k] {
            Some(s) => Some(s.clone()),
            None => None,
        }
    } else {
        None
    }
}

/// `android-version "-" kernel-version`
pub open spec fn spec_kmi(android: Seq<char>, kernel: Seq<char>) -> Seq<char> {
    android + "-"@ + kernel
}

fn kmi_string(android: &str, kernel: &str) -> (r: String)
    ensures
        r@ == spec_kmi(android@, kernel@),
{
    let mut s = android.to_owned();
    s.append("-");
    s.append(kernel);
    s
}

/// The KMI of a version-string match: group 4 (the Android release) and
/// group 2 (`major.minor`), each empty where it did not take part.
pub open spec fn spec_kmi_of_version(c: Seq<Option<Seq<char>>>) -> Seq<char> {
    spec_kmi(group_or_empty(c, 4), group_or_empty(c, 2))
}

/// The KMI from the captures of `KMI_VERSION_PATTERN`: `NoKmi` when it did
/// not match.
pub fn kmi_from_version_captures(caps: Option<Vec<Option<String>>>) -> (r: Result<String, KmiError>)
    ensures
        match opt_captures_view(caps) {
            None => r matches Err(KmiError::NoKmi),
            Some(c) => r matches Ok(s) && s@ == spec_kmi_of_version(c),
        },
{
    match caps {
        None => Err(KmiError::NoKmi),
        Some(v) => {
            let android = match capture_group(&v, 4) {
                Some(s) => s,
                None => String::new(),
            };
            let kernel = match capture_group(&v, 2) {
                Some(s) => s,
                None => String::new(),
            };
            Ok(kmi_string(android.as_str(), kernel.as_str()))
        },
    }
}

pub open spec fn result_view<T>(r: Result<String, T>) -> Result<Seq<char>, T> {
    match r {
        Ok(s) => Ok(s@),
        Err(e) => Err(e),
    }
}

/// What `parse_kmi_from_version` gives for `version`.
pub open spec fn spec_kmi_from_version(version: Seq<char>) -> Result<Seq<char>, KmiError> {
    if !regex_compiles(KMI_VERSION_PATTERN@) {
        Err(KmiError::Pattern)
    } else {
        match regex_captures(KMI_VERSION_PATTERN@, version) {
            None => Err(KmiError::NoKmi),
            Some(c) => Ok(spec_kmi_of_version(c)),
        }
    }
}

/// The KMI in a kernel release or `vermagic` line, such as
/// `5.10.101-android12-9` giving `android12-5.10`.
pub fn parse_kmi_from_version(version: &str) -> (r: Result<String, KmiError>)
    ensures
        result_view(r) == spec_kmi_from_version(version@),
{
    if !pattern_compiles(KMI_VERSION_PATTERN) {
        return Err(KmiError::Pattern);
    }
    let caps = regex_captures_of(KMI_VERSION_PATTERN, version);
    kmi_from_version_captures(caps)
}

/// The KMI of a match in a kernel image: group 2 (the Android release) and
/// group 1 (`major.minor`), when both took part.
pub open spec fn spec_kmi_of_buffer_match(c: Seq<Option<Seq<char>>>) -> Option<Seq<char>> {
    match (group(c, 1), group(c, 2)) {
        (Some(kernel), Some(android)) => Some(spec_kmi(android, kernel)),
        _ => None,
    }
}

/// The KMI from the captures of `KMI_BUFFER_PATTERN`.
pub fn kmi_from_buffer_captures(caps: Option<Vec<Option<String>>>) -> (r: Option<String>)
    ensures
        opt_string_view(r) == match opt_captures_view(caps) {
            None => None,
            Some(c) => spec_kmi_of_buffer_match(c),
        },
{
    match caps {
        None => None,
        Some(v) => {
            let kernel = capture_group(&v, 1);
            let android = capture_group(&v, 2);
            match (kernel, android) {
                (Some(k), Some(a)) => Some(kmi_string(a.as_str(), k.as_str())),
                _ => None,
            }
        },
    }
}

pub open spec fn is_digit_byte(b: u8) -> bool {
    48u8 <= b <= 57u8
}

/// A kernel version may start at `i`: `5.D` followed by a digit, or
/// `6.D` to `9.D`, with four bytes available.
pub open spec fn is_kmi_candidate(b: Seq<u8>, i: int) -> bool {
    &&& 0 <= i
    &&& i + 4 <= b.len()
    &&& b[i + 1] == 46u8
    &&& is_digit_byte(b[i + 2])
    &&& ((b[i] == 53u8 && is_digit_byte(b[i + 3])) || (54u8 <= b[i] <= 57u8))
}

/// The end of the (at most 100 bytes long) window that starts at `i`.
pub open spec fn window_end(len: int, i: int) -> int {
    if len - i >= 100 {
        i + 100
    } else {
        len
    }
}

/// The first NUL byte of `b` in `j..end`, or `end`.
pub open spec fn nul_from(b: Seq<u8>, j: int, end: int) -> int
    decreases end - j,
{
    if j >= end {
        end
    } else if b[j] == 0u8 {
        j
    } else {
        nul_from(b, j + 1, end)
    }
}

/// The KMI read from the NUL-terminated string at `i`, if `i` is a
/// candidate, the string ends within the window, is UTF-8 and matches.
pub open spec fn kmi_at(b: Seq<u8>, i: int) -> Option<Seq<char>> {
    let end = window_end(b.len() as int, i);
    let e = nul_from(b, i, end);
    if !is_kmi_candidate(b, i) || e >= end || !vstd::utf8::valid_utf8(b.subrange(i, e)) {
        None
    } else {
        match regex_captures(KMI_BUFFER_PATTERN@, vstd::utf8::decode_utf8(b.subrange(i, e))) {
            None => None,
            Some(c) => spec_kmi_of_buffer_match(c),
        }
    }
}

/// The KMI at the first position from `i` on that gives one.
pub open spec fn first_kmi_from(b: Seq<u8>, i: int) -> Option<Seq<char>>
    decreases b.len() - i,
{
    if i + 4 > b.len() {
        None
    } else {
        match kmi_at(b, i) {
            Some(k) => Some(k),
            None => first_kmi_from(b, i + 1),
        }
    }
}

fn is_digit(b: u8) -> (r: bool)
    ensures
        r == is_digit_byte(b),
{
    48u8 <= b && b <= 57u8
}

fn kmi_at_exec(buffer: &[u8], i: usize) -> (r: Option<String>)
    requires
        i + 4 <= buffer@.len(),
        regex_compiles(KMI_BUFFER_PATTERN@),
    ensures
        opt_string_view(r) == kmi_at(buffer@, i as int),
{
    let b0 = buffer[i];
    let candidate = buffer[i + 1] == 46u8 && is_digit(buffer[i + 2]) && ((b0 == 53u8 && is_digit(
        buffer[i + 3],
    )) || (54u8 <= b0 && b0 <= 57u8));
    if !candidate {
        return None;
    }
    let len = buffer.len();
    let end = if len - i >= 100 {
        i + 100
    } else {
        len
    };
    let mut j = i;
    while j < end && buffer[j] != 0u8
        invariant
            i <= j <= end,
            end <= len,
            len == buffer@.len(),
            end == window_end(len as int, i as int),
            nul_from(buffer@, i as int, end as int) == nul_from(buffer@, j as int, end as int),
        decreases end - j,
    {
        j = j + 1;
    }
    if j == end {
        return None;
    }
    let bytes = vstd::slice::slice_subrange(buffer, i, j);
    match utf8_to_string(bytes) {
        None => None,
        Some(s) => {
            let caps = regex_captures_of(KMI_BUFFER_PATTERN, s.as_str());
            kmi_from_buffer_captures(caps)
        },
    }
}

/// The KMI in the bytes of a kernel image: the first position where a
/// kernel version starts and the NUL-terminated string there matches
/// `KMI_BUFFER_PATTERN`.
pub fn parse_kmi(buffer: &[u8]) -> (r: Result<String, KmiError>)
    ensures
        !regex_compiles(KMI_BUFFER_PATTERN@) ==> r matches Err(KmiError::Pattern),
        regex_compiles(KMI_BUFFER_PATTERN@) ==> match r {
            Ok(s) => first_kmi_from(buffer@, 0) == Some(s@),
            Err(e) => e == KmiError::NoKmi && first_kmi_from(buffer@, 0) is None,
        },
{
    if !pattern_compiles(KMI_BUFFER_PATTERN) {
        return Err(KmiError::Pattern);
    }
    let len = buffer.len();
    if len < 4 {
        return Err(KmiError::NoKmi);
    }
    let mut i: usize = 0;
    while i <= len - 4
        invariant
            len == buffer@.len(),
            len >= 4,
            i <= len - 3,
            regex_compiles(KMI_BUFFER_PATTERN@),
            first_kmi_from(buffer@, 0) == first_kmi_from(buffer@, i as int),
        decreases len - i,
    {
        match kmi_at_exec(buffer, i) {
            Some(k) => {
                return Ok(k);
            },
            None => {},
        }
        i = i + 1;
    }
    Err(KmiError::NoKmi)
}

} // verus!

verus! {

pub open spec fn all_digits(s: Seq<char>) -> bool {
    forall|i: int| 0 <= i < s.len() ==> '0' <= #[trigger] s[i] <= '9'
}

/// The number written by the decimal digits `s`.
pub open spec fn digits_value(s: Seq<char>) -> int
    decreases s.len(),
{
    if s.len() == 0 {
        0
    } else {
        digits_value(s.drop_last()) * 10 + (s.last() as int - 48)
    }
}

/// `str::parse::<i32>`: an optional `+` or `-`, then one or more decimal
/// digits, whose value fits in an `i32`.
pub open spec fn spec_parse_i32(s: Seq<char>) -> Option<i32> {
    let neg = s.len() > 0 && s[0] == '-';
    let digits = if s.len() > 0 && (s[0] == '+' || s[0] == '-') {
        s.drop_first()
    } else {
        s
    };
    let v = if neg {
        -digits_value(digits)
    } else {
        digits_value(digits)
    };
    if digits.len() > 0 && all_digits(digits) && i32::MIN <= v <= i32::MAX {
        Some(v as i32)
    } else {
        None
    }
}

proof fn lemma_digits_value_nonneg(s: Seq<char>)
    requires
        all_digits(s),
    ensures
        digits_value(s) >= 0,
    decreases s.len(),
{
    if s.len() > 0 {
        assert(all_digits(s.drop_last())) by {
            assert forall|i: int| 0 <= i < s.drop_last().len() implies '0' <= #[trigger] s.drop_last()[i] <= '9' by {
                assert(s.drop_last()[i] == s[i]);
            }
        }
        lemma_digits_value_nonneg(s.drop_last());
        assert('0' <= s[s.len() - 1]);
    }
}

/// A prefix of digits is worth no more than the whole.
proof fn lemma_digits_value_prefix(s: Seq<char>, k: int)
    requires
        all_digits(s),
        0 <= k <= s.len(),
    ensures
        digits_value(s.take(k)) <= digits_value(s),
    decreases s.len(),
{
    if k < s.len() {
        let t = s.drop_last();
        assert(all_digits(t)) by {
            assert forall|i: int| 0 <= i < t.len() implies '0' <= #[trigger] t[i] <= '9' by {
                assert(t[i] == s[i]);
            }
        }
        lemma_digits_value_prefix(t, k);
        assert(t.take(k) =~= s.take(k));
        lemma_digits_value_nonneg(t);
        assert('0' <= s[s.len() - 1]);
    } else {
        assert(s.take(k) =~= s);
    }
}

/// `str::parse::<i32>` on `s`.
pub fn parse_i32(s: &str) -> (r: Option<i32>)
    ensures
        r == spec_parse_i32(s@),
{
    let cs = chars_of(s);
    let n = cs.len();
    let neg = n > 0 && cs[0] == '-';
    let start: usize = if n > 0 && (cs[0] == '+' || cs[0] == '-') {
        1
    } else {
        0
    };
    let ghost digits = if n > 0 && (cs@[0] == '+' || cs@[0] == '-') {
        s@.drop_first()
    } else {
        s@
    };
    assert(digits =~= cs@.subrange(start as int, n as int));
    if start >= n {
        return None;
    }
    let limit: i64 = if neg {
        2147483648
    } else {
        2147483647
    };
    let mut v: i64 = 0;
    let mut i: usize = start;
    while i < n
        invariant
            n == cs@.len(),
            cs@ == s@,
            start <= i <= n,
            neg == (s@.len() > 0 && s@[0] == '-'),
            digits == if s@.len() > 0 && (s@[0] == '+' || s@[0] == '-') {
                s@.drop_first()
            } else {
                s@
            },
            digits =~= cs@.subrange(start as int, n as int),
            0 <= v <= limit,
            limit == if neg { 2147483648i64 } else { 2147483647i64 },
            v == digits_value(cs@.subrange(start as int, i as int)),
            all_digits(cs@.subrange(start as int, i as int)),
        decreases n - i,
    {
        let c = cs[i];
        if !('0' <= c && c <= '9') {
            assert(digits[i - start] == c);
            return None;
        }
        let d: i64 = (c as u32 - 48u32) as i64;
        let w: i64 = v * 10 + d;
        let ghost prefix = cs@.subrange(start as int, i + 1);
        assert(prefix.drop_last() =~= cs@.subrange(start as int, i as int));
        assert(all_digits(prefix)) by {
            assert forall|k: int| 0 <= k < prefix.len() implies '0' <= #[trigger] prefix[k] <= '9' by {
                if k < prefix.len() - 1 {
                    assert(prefix[k] == cs@.subrange(start as int, i as int)[k]);
                }
            }
        }
        assert(w == digits_value(prefix));
        if w > limit {
            proof {
                if all_digits(digits) {
                    assert(prefix =~= digits.take(i + 1 - start));
                    lemma_digits_value_prefix(digits, i + 1 - start);
                }
            }
            return None;
        }
        v = w;
        i = i + 1;
    }
    assert(digits =~= cs@.subrange(start as int, i as int));
    if neg {
        Some((-v) as i32)
    } else {
        Some(v as i32)
    }
}

/// Group `k` read as an `i32`, when it took part and parses.
pub open spec fn parse_group(c: Seq<Option<Seq<char>>>, k: int) -> Option<i32> {
    match group(c, k) {
        Some(s) => spec_parse_i32(s),
        None => None,
    }
}

/// The version `(major, minor, patch)` from a match of
/// `KERNEL_VERSION_PATTERN`.
pub open spec fn spec_kernel_version(c: Option<Seq<Option<Seq<char>>>>) -> Result<(i32, i32, i32), KmiError> {
    match c {
        None => Err(KmiError::InvalidKernelVersion),
        Some(c) => match (parse_group(c, 1), parse_group(c, 2), parse_group(c, 3)) {
            (None, _, _) => Err(KmiError::MajorVersion),
            (Some(_), None, _) => Err(KmiError::MinorVersion),
            (Some(_), Some(_), None) => Err(KmiError::PatchVersion),
            (Some(a), Some(b), Some(p)) => Ok((a, b, p)),
        },
    }
}

fn parse_capture(v: &Vec<Option<String>>, k: usize) -> (r: Option<i32>)
    ensures
        r == parse_group(captures_view(v@), k as int),
{
    match capture_group(v, k) {
        Some(s) => parse_i32(s.as_str()),
        None => None,
    }
}

/// The kernel version from the captures of `KERNEL_VERSION_PATTERN`.
pub fn kernel_version_from_captures(caps: Option<Vec<Option<String>>>) -> (r: Result<(i32, i32, i32), KmiError>)
    ensures
        r == spec_kernel_version(opt_captures_view(caps)),
{
    match caps {
        None => Err(KmiError::InvalidKernelVersion),
        Some(v) => {
            let major = match parse_capture(&v, 1) {
                Some(x) => x,
                None => {
                    return Err(KmiError::MajorVersion);
                },
            };
            let minor = match parse_capture(&v, 2) {
                Some(x) => x,
                None => {
                    return Err(KmiError::MinorVersion);
                },
            };
            let patch = match parse_capture(&v, 3) {
                Some(x) => x,
                None => {
                    return Err(KmiError::PatchVersion);
                },
            };
            Ok((major, minor, patch))
        },
    }
}

/// The `(major, minor, patch)` version of a kernel release such as
/// `5.10.101-android12-9`.
pub fn get_kernel_version(release: &str) -> (r: Result<(i32, i32, i32), KmiError>)
    ensures
        !regex_compiles(KERNEL_VERSION_PATTERN@) ==> r == Err::<(i32, i32, i32), KmiError>(KmiError::Pattern),
        regex_compiles(KERNEL_VERSION_PATTERN@) ==> r == spec_kernel_version(
            regex_captures(KERNEL_VERSION_PATTERN@, release@),
        ),
{
    if !pattern_compiles(KERNEL_VERSION_PATTERN) {
        return Err(KmiError::Pattern);
    }
    let caps = regex_captures_of(KERNEL_VERSION_PATTERN, release);
    kernel_version_from_captures(caps)
}

/// The KMI of the running kernel, from its release (`uname -r`).
pub fn get_current_kmi(release: &str) -> (r: Result<String, KmiError>)
    ensures
        result_view(r) == spec_kmi_from_version(release@),
{
    parse_kmi_from_version(release)
}

/// The first `\n` of `b` at or after `j`, or the end of `b`.
pub open spec fn newline_from(b: Seq<u8>, j: int) -> int
    decreases b.len() - j,
{
    if j >= b.len() {
        b.len() as int
    } else if b[j] == 10u8 {
        j
    } else {
        newline_from(b, j + 1)
    }
}

proof fn lemma_newline_from_bounds(b: Seq<u8>, j: int)
    requires
        0 <= j <= b.len(),
    ensures
        j <= newline_from(b, j) <= b.len(),
        newline_from(b, j) < b.len() ==> b[newline_from(b, j)] == 10u8,
    decreases b.len() - j,
{
    if j < b.len() && b[j] != 10u8 {
        lemma_newline_from_bounds(b, j + 1);
    }
}

/// The line that starts at `p`, as `BufRead::lines` gives it: without its
/// `\n`, and without a `\r` just before that `\n`.
pub open spec fn line_at(b: Seq<u8>, p: int) -> Seq<u8> {
    let e = newline_from(b, p);
    let l = b.subrange(p, e);
    if e < b.len() && l.len() > 0 && l.last() == 13u8 {
        l.drop_last()
    } else {
        l
    }
}

/// The first line from `p` on that starts with `vermagic`, reading lines
/// as `BufRead::lines` does and stopping at the first line that is not
/// UTF-8.
pub open spec fn vermagic_from(b: Seq<u8>, p: int) -> Option<Seq<char>>
    decreases b.len() - p,
{
    if p < 0 || p >= b.len() {
        None
    } else {
        let l = line_at(b, p);
        if !vstd::utf8::valid_utf8(l) {
            None
        } else if starts_with(vstd::utf8::decode_utf8(l), "vermagic"@) {
            Some(vstd::utf8::decode_utf8(l))
        } else if newline_from(b, p) < p || newline_from(b, p) >= b.len() {
            None
        } else {
            vermagic_from(b, newline_from(b, p) + 1)
        }
    }
}

/// What `kmi_from_modinfo` gives for the output `b` of `modinfo`.
pub open spec fn spec_kmi_from_modinfo(b: Seq<u8>) -> Result<Seq<char>, KmiError> {
    match vermagic_from(b, 0) {
        None => Err(KmiError::NoVermagic),
        Some(line) => spec_kmi_from_version(line),
    }
}

/// The KMI in the output of `modinfo` on a kernel module: read from its
/// first `vermagic` line.
pub fn kmi_from_modinfo(output: &[u8]) -> (r: Result<String, KmiError>)
    ensures
        result_view(r) == spec_kmi_from_modinfo(output@),
{
    let len = output.len();
    let mut p: usize = 0;
    while p < len
        invariant
            len == output@.len(),
            p <= len,
            vermagic_from(output@, 0) == vermagic_from(output@, p as int),
        decreases len - p,
    {
        let mut e = p;
        while e < len && output[e] != 10u8
            invariant
                p <= e <= len,
                len == output@.len(),
                newline_from(output@, p as int) == newline_from(output@, e as int),
            decreases len - e,
        {
            e = e + 1;
        }
        let line_end = if e < len && e > p && output[e - 1] == 13u8 {
            e - 1
        } else {
            e
        };
        let bytes = vstd::slice::slice_subrange(output, p, line_end);
        assert(bytes@ =~= line_at(output@, p as int));
        let line = match utf8_to_string(bytes) {
            Some(l) => l,
            None => {
                return Err(KmiError::NoVermagic);
            },
        };
        let chars = chars_of(line.as_str());
        if starts_with_str(&chars, "vermagic") {
            return parse_kmi_from_version(line.as_str());
        }
        proof {
            lemma_newline_from_bounds(output@, p as int);
        }
        if e == len {
            p = len;
        } else {
            p = e + 1;
        }
    }
    Err(KmiError::NoVermagic)
}

} // verus!

verus! {

/// The names of the built-in KernelSU module for `kmi` and of its vivo
/// fallback.
pub fn kernelsu_module_names(kmi: &str) -> (r: (String, String))
    ensures
        r.0@ == kmi@ + "_kernelsu.ko"@,
        r.1@ == kmi@ + "_vivo_kernelsu.ko"@,
{
    let mut name = kmi.to_owned();
    name.append("_kernelsu.ko");
    let mut vivo = kmi.to_owned();
    vivo.append("_vivo_kernelsu.ko");
    (name, vivo)
}

} // verus!
