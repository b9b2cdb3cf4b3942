//! Module paths, default values and the shell quoting every script uses.
use vstd::prelude::*;

use crate::text::{chars_of, push_char, string_from_chars, trim, trim_exec, utf8_to_string, CharClass};

verus! {

pub const MODULE_ID: &'static str = "susfs_manager";
pub const MODULE_PATH: &'static str = "/data/adb/modules/susfs_manager";
pub const LOG_DIR: &'static str = "/data/adb/ksu/log";
pub const DEFAULT_UNAME: &'static str = "default";
pub const DEFAULT_BUILD_TIME: &'static str = "default";

/// What one character becomes inside a single-quoted shell word: a quote
/// closes the word, is written escaped, and reopens it.
pub open spec fn quote_piece(c: char) -> Seq<char> {
    if c == '\'' {
        seq!['\'', '\\', '\'', '\'']
    } else {
        seq![c]
    }
}

/// `s.replace('\'', "'\\''")`.
pub open spec fn escape_single_quotes(s: Seq<char>) -> Seq<char>
    decreases s.len(),
{
    if s.len() == 0 {
        Seq::empty()
    } else {
        quote_piece(s[0]) + escape_single_quotes(s.drop_first())
    }
}

/// `'` + the escaped text + `'`.
pub open spec fn spec_shell_quote(s: Seq<char>) -> Seq<char> {
    seq!['\''] + escape_single_quotes(s) + seq!['\'']
}

pub proof fn lemma_escape_concat(a: Seq<char>, b: Seq<char>)
    ensures
        escape_single_quotes(a + b) == escape_single_quotes(a) + escape_single_quotes(b),
    decreases a.len(),
{
    if a.len() == 0 {
        assert(a + b =~= b);
        assert(Seq::<char>::empty() + escape_single_quotes(b) =~= escape_single_quotes(b));
    } else {
        assert((a + b).drop_first() =~= a.drop_first() + b);
        assert((a + b)[0] == a[0]);
        lemma_escape_concat(a.drop_first(), b);
        assert(escape_single_quotes(a + b) =~= escape_single_quotes(a) + escape_single_quotes(b));
    }
}

proof fn lemma_escape_push(a: Seq<char>, c: char)
    ensures
        escape_single_quotes(a.push(c)) == escape_single_quotes(a) + quote_piece(c),
{
    assert(a.push(c) =~= a + seq![c]);
    lemma_escape_concat(a, seq![c]);
    assert(seq![c].drop_first() =~= Seq::<char>::empty());
    assert(escape_single_quotes(Seq::<char>::empty()) == Seq::<char>::empty());
    assert(escape_single_quotes(seq![c]) =~= quote_piece(c));
}

/// `s` with every `'` written as `'\''`, for use inside single quotes.
pub fn escape_single_quotes_exec(s: &str) -> (r: String)
    ensures
        r@ == escape_single_quotes(s@),
{
    let cs = chars_of(s);
    let mut r = String::new();
    let mut i: usize = 0;
    while i < cs.len()
        invariant
            i <= cs@.len(),
            cs@ == s@,
            r@ == escape_single_quotes(cs@.take(i as int)),
        decreases cs@.len() - i,
    {
        let c = cs[i];
        if c == '\'' {
            r.append("'\\''");
            proof {
                reveal_strlit("'\\''");
            }
        } else {
            push_char(&mut r, c);
        }
        proof {
            assert(cs@.take(i + 1) =~= cs@.take(i as int).push(c));
            lemma_escape_push(cs@.take(i as int), c);
        }
        i = i + 1;
    }
    assert(cs@.take(cs@.len() as int) =~= cs@);
    r
}

/// POSIX-safe single-quoted form of `s` (`foo'bar` becomes `'foo'\''bar'`).
pub fn shell_quote(s: &str) -> (r: String)
    ensures
        r@ == spec_shell_quote(s@),
{
    let mut r = String::new();
    push_char(&mut r, '\'');
    let e = escape_single_quotes_exec(s);
    r.append(e.as_str());
    push_char(&mut r, '\'');
    r
}

/// How a POSIX shell reads the word `w` made of single-quoted parts and
/// backslash-escaped characters, starting inside quotes when `quoted`:
/// `None` if a quote is left open, a backslash ends the word, or an
/// unquoted character other than a quote or a backslash appears.
pub open spec fn sh_read(w: Seq<char>, quoted: bool) -> Option<Seq<char>>
    decreases w.len(),
{
    if w.len() == 0 {
        if quoted {
            None
        } else {
            Some(Seq::empty())
        }
    } else if quoted {
        if w[0] == '\'' {
            sh_read(w.drop_first(), false)
        } else {
            match sh_read(w.drop_first(), true) {
                Some(r) => Some(seq![w[0]] + r),
                None => None,
            }
        }
    } else if w[0] == '\'' {
        sh_read(w.drop_first(), true)
    } else if w[0] == '\\' && w.len() >= 2 {
        match sh_read(w.skip(2), false) {
            Some(r) => Some(seq![w[1]] + r),
            None => None,
        }
    } else {
        None
    }
}

proof fn lemma_read_escaped(s: Seq<char>, rest: Seq<char>)
    ensures
        sh_read(escape_single_quotes(s) + seq!['\''] + rest, true) == match sh_read(rest, false) {
            Some(r) => Some(s + r),
            None => None,
        },
    decreases s.len(),
{
    let w = escape_single_quotes(s) + seq!['\''] + rest;
    if s.len() == 0 {
        assert(escape_single_quotes(s) == Seq::<char>::empty());
        assert(w =~= seq!['\''] + rest);
        assert(w.drop_first() =~= rest);
        assert(sh_read(w, true) == sh_read(rest, false));
        match sh_read(rest, false) {
            Some(r) => assert(s + r =~= r),
            None => {},
        }
    } else {
        let c = s[0];
        let t = s.drop_first();
        let x = escape_single_quotes(t) + seq!['\''] + rest;
        lemma_read_escaped(t, rest);
        assert(w =~= quote_piece(c) + x);
        if c == '\'' {
            assert(w[0] == '\'');
            assert(w.drop_first() =~= seq!['\\', '\'', '\''] + x);
            let u = w.drop_first();
            assert(u[0] == '\\' && u[1] == '\'');
            assert(u.skip(2) =~= seq!['\''] + x);
            assert((seq!['\''] + x).drop_first() =~= x);
            assert(sh_read(seq!['\''] + x, false) == sh_read(x, true));
            assert(sh_read(w, true) == sh_read(u, false));
            match sh_read(rest, false) {
                Some(r) => assert(seq![c] + (t + r) =~= s + r),
                None => {},
            }
        } else {
            assert(w[0] == c);
            assert(w.drop_first() =~= x);
            assert(sh_read(w, true) == match sh_read(x, true) {
                Some(r) => Some(seq![c] + r),
                None => None,
            });
            match sh_read(rest, false) {
                Some(r) => assert(seq![c] + (t + r) =~= s + r),
                None => {},
            }
        }
    }
}

/// The shell reads a quoted string back as exactly that string, as one
/// word: quoting is safe for any text.
pub proof fn law_shell_quote_reads_back(s: Seq<char>)
    ensures
        sh_read(spec_shell_quote(s), false) == Some(s),
{
    let w = spec_shell_quote(s);
    lemma_read_escaped(s, Seq::empty());
    assert(w[0] == '\'');
    assert(w.drop_first() =~= escape_single_quotes(s) + seq!['\''] + Seq::<char>::empty());
    assert(s + Seq::<char>::empty() =~= s);
}

/// The time printed by `date '+%Y-%m-%d %H:%M:%S'`, from its standard
/// output (`None` when it could not be run): the output without
/// surrounding whitespace, or `unknown` when there is none or it is not
/// UTF-8.
pub fn get_current_time(date_output: Option<&[u8]>) -> (r: String)
    ensures
        r@ == match date_output {
            Some(out) => if vstd::utf8::valid_utf8(out@) {
                trim(vstd::utf8::decode_utf8(out@), CharClass::Whitespace)
            } else {
                "unknown"@
            },
            None => "unknown"@,
        },
{
    match date_output {
        None => "unknown".to_owned(),
        Some(out) => match utf8_to_string(out) {
            None => "unknown".to_owned(),
            Some(text) => {
                let cs = chars_of(text.as_str());
                let t = trim_exec(&cs, CharClass::Whitespace);
                string_from_chars(t.as_slice())
            },
        },
    }
}

} // verus!
