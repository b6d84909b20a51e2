//! Finding the Alpha Vantage API key in the text of a `.env` file (the program reads the files,
//! from the working directory up to the root).

use crate::cli::{split_first, split_once};
use crate::text::{chars_eq, chars_of, slice_chars, string_of, trim, trim_chars};
use vstd::prelude::*;

verus! {

/// `s` without its leading run of `c`.
pub open spec fn strip_start(s: Seq<char>, c: char) -> Seq<char>
    decreases s.len(),
{
    if s.len() > 0 && s[0] == c {
        strip_start(s.drop_first(), c)
    } else {
        s
    }
}

/// `s` without its trailing run of `c`.
pub open spec fn strip_end(s: Seq<char>, c: char) -> Seq<char>
    decreases s.len(),
{
    if s.len() > 0 && s.last() == c {
        strip_end(s.drop_last(), c)
    } else {
        s
    }
}

/// `str::trim_matches` with one character: every leading and trailing `c` removed.
pub open spec fn trim_matches(s: Seq<char>, c: char) -> Seq<char> {
    strip_end(strip_start(s, c), c)
}

/// The key a `.env` line sets, when it sets `ALPHA_VANTAGE_API_KEY` to a non-empty value.
/// Blank lines, `#` comments and lines without `=` set nothing; the value is trimmed, then
/// stripped of surrounding double and then single quotes.
pub open spec fn env_line_value(line: Seq<char>) -> Option<Seq<char>> {
    let t = trim(line);
    if t.len() == 0 || t[0] == '#' {
        None
    } else {
        match split_first(t, '=') {
            None => None,
            Some((k, v)) => if trim(k) == "ALPHA_VANTAGE_API_KEY"@ {
                let w = trim_matches(trim_matches(trim(v), '"'), '\'');
                if w.len() > 0 {
                    Some(w)
                } else {
                    None
                }
            } else {
                None
            },
        }
    }
}

/// Where the line that starts at `i` ends: its newline, or the end of the text.
pub open spec fn line_end(s: Seq<char>, i: int) -> int
    decreases s.len() - i,
{
    if i >= s.len() {
        s.len() as int
    } else if s[i] == '\n' {
        i
    } else {
        line_end(s, i + 1)
    }
}

/// A line ends within the text, at a newline unless it runs to the end.
pub proof fn lemma_line_end_bounds(s: Seq<char>, i: int)
    requires
        0 <= i,
    ensures
        i <= s.len() ==> i <= line_end(s, i) <= s.len(),
        line_end(s, i) < s.len() ==> s[line_end(s, i)] == '\n',
    decreases s.len() - i,
{
    if i < s.len() && s[i] != '\n' {
        lemma_line_end_bounds(s, i + 1);
    }
}

/// The key set by the first line, from position `start` on, that sets one.
pub open spec fn dotenv_key_from(s: Seq<char>, start: int) -> Option<Seq<char>>
    decreases s.len() - start,
{
    if start < 0 || start >= s.len() {
        None
    } else {
        let e = line_end(s, start);
        match env_line_value(s.subrange(start, e)) {
            Some(v) => Some(v),
            None => if e < s.len() {
                proof {
                    lemma_line_end_bounds(s, start);
                }
                dotenv_key_from(s, e + 1)
            } else {
                None
            },
        }
    }
}

/// The Alpha Vantage key a whole `.env` text sets.
pub open spec fn dotenv_key(s: Seq<char>) -> Option<Seq<char>> {
    dotenv_key_from(s, 0)
}

/// `s` with every leading and trailing `c` removed.
fn trim_matches_chars(s: &[char], c: char) -> (v: Vec<char>)
    ensures
        v@ == trim_matches(s@, c),
{
    let n = s.len();
    let mut a: usize = 0;
    assert(s@.subrange(0, n as int) =~= s@);
    while a < n && s[a] == c
        invariant
            a <= n == s@.len(),
            strip_start(s@, c) == strip_start(s@.subrange(a as int, n as int), c),
        decreases n - a,
    {
        assert(s@.subrange(a as int, n as int).drop_first() =~= s@.subrange(a + 1, n as int));
        a = a + 1;
    }
    assert(strip_start(s@, c) == s@.subrange(a as int, n as int));
    let mut b: usize = n;
    while b > a && s[b - 1] == c
        invariant
            a <= b <= n == s@.len(),
            strip_end(s@.subrange(a as int, n as int), c) == strip_end(
                s@.subrange(a as int, b as int),
                c,
            ),
        decreases b - a,
    {
        assert(s@.subrange(a as int, b as int).drop_last() =~= s@.subrange(a as int, b - 1));
        b = b - 1;
    }
    slice_chars(s, a, b)
}

/// The key one line sets, if it sets one.
fn line_value(line: &[char]) -> (r: Option<Vec<char>>)
    ensures
        match env_line_value(line@) {
            Some(w) => r matches Some(v) && v@ == w,
            None => r is None,
        },
{
    let t = trim_chars(line);
    if t.len() == 0 || t[0] == '#' {
        return None;
    }
    let text = string_of(&t);
    match split_once(text.as_str(), '=') {
        None => None,
        Some((k, v)) => {
            let kc = chars_of(k.as_str());
            let kt = trim_chars(&kc);
            if chars_eq(&kt, "ALPHA_VANTAGE_API_KEY") {
                let vc = chars_of(v.as_str());
                let vt = trim_chars(&vc);
                let w1 = trim_matches_chars(&vt, '"');
                let w2 = trim_matches_chars(&w1, '\'');
                if w2.len() > 0 {
                    Some(w2)
                } else {
                    None
                }
            } else {
                None
            }
        },
    }
}

/// The Alpha Vantage API key a `.env` text sets: the value of the first line that assigns
/// `ALPHA_VANTAGE_API_KEY` a non-empty value.
pub fn alpha_vantage_key_in(contents: &str) -> (r: Option<String>)
    ensures
        match dotenv_key(contents@) {
            Some(k) => r matches Some(v) && v@ == k,
            None => r is None,
        },
{
    let s = chars_of(contents);
    let n = s.len();
    let mut start: usize = 0;
    while start < n
        invariant
            n == s@.len(),
            s@ == contents@,
            start <= n,
            dotenv_key(s@) == dotenv_key_from(s@, start as int),
        decreases n - start,
    {
        let mut e: usize = start;
        while e < n && s[e] != '\n'
            invariant
                start <= e <= n == s@.len(),
                line_end(s@, start as int) == line_end(s@, e as int),
            decreases n - e,
        {
            e = e + 1;
        }
        let line = slice_chars(&s, start, e);
        match line_value(&line) {
            Some(v) => {
                return Some(string_of(&v));
            },
            None => {},
        }
        if e < n {
            start = e + 1;
        } else {
            start = n;
        }
    }
    None
}

} // verus!
