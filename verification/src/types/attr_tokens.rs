//! Reading the entries of an `#[fp(...)]` or `#[serde(...)]` attribute
//! from the text of its tokens: a parenthesised, comma-separated list of
//! `key` or `key = "value"` entries.

use vstd::prelude::*;
use crate::text::{char_is_ws, chars_of, is_ws, string_of, sub_chars};
use super::attrs::{entries_view, AttrEntry};

verus! {

/// Whether `c` can stand in an identifier (or a literal's suffix).
pub open spec fn is_ident_char(c: char) -> bool {
    ||| c == '_'
    ||| ('a' <= c <= 'z')
    ||| ('A' <= c <= 'Z')
    ||| ('0' <= c <= '9')
    ||| (c as u32 >= 0x80 && !is_ws(c))
}

/// Whether `c` can begin an identifier.
pub open spec fn is_ident_start(c: char) -> bool {
    is_ident_char(c) && !('0' <= c <= '9')
}

/// The first position from `i` on that holds no white space.
pub open spec fn skip_ws(s: Seq<char>, i: int) -> int
    decreases s.len() - i,
{
    if 0 <= i < s.len() && is_ws(s[i]) {
        skip_ws(s, i + 1)
    } else {
        i
    }
}

/// The end of the run of identifier characters that starts at `i`.
pub open spec fn ident_end(s: Seq<char>, i: int) -> int
    decreases s.len() - i,
{
    if 0 <= i < s.len() && is_ident_char(s[i]) {
        ident_end(s, i + 1)
    } else {
        i
    }
}

/// The end of the identifier (raw identifiers included) at `i`, if one
/// starts there.
pub open spec fn lex_ident(s: Seq<char>, i: int) -> Option<int> {
    if 0 <= i && i + 2 < s.len() && s[i] == 'r' && s[i + 1] == '#' && is_ident_start(s[i + 2]) {
        Some(ident_end(s, i + 2))
    } else if 0 <= i < s.len() && is_ident_start(s[i]) {
        Some(ident_end(s, i))
    } else {
        None
    }
}

/// The end of a string literal's body from `j` on: just past the first
/// double quote that no backslash escapes.
pub open spec fn quoted_end(s: Seq<char>, j: int) -> Option<int>
    decreases s.len() - j,
{
    if j < 0 || j >= s.len() {
        None
    } else if s[j] == '"' {
        Some(j + 1)
    } else if s[j] == '\\' {
        if j + 1 < s.len() { quoted_end(s, j + 2) } else { None }
    } else {
        quoted_end(s, j + 1)
    }
}

/// The end of the run of `#` that starts at `i`.
pub open spec fn hashes_end(s: Seq<char>, i: int) -> int
    decreases s.len() - i,
{
    if 0 <= i < s.len() && s[i] == '#' {
        hashes_end(s, i + 1)
    } else {
        i
    }
}

/// Whether `n` characters `#` stand from `j` on.
pub open spec fn hashes_at(s: Seq<char>, j: int, n: int) -> bool {
    0 <= j && j + n <= s.len() && forall|k: int| j <= k < j + n ==> s[k] == '#'
}

/// The end of a raw string's body from `j` on: just past the first double
/// quote followed by `n` characters `#`, and those.
pub open spec fn raw_end(s: Seq<char>, j: int, n: int) -> Option<int>
    decreases s.len() - j,
{
    if j < 0 || j >= s.len() {
        None
    } else if s[j] == '"' && hashes_at(s, j + 1, n) {
        Some(j + 1 + n)
    } else {
        raw_end(s, j + 1, n)
    }
}

/// The end of the string literal (raw strings and suffixes included) at
/// `i`, if one starts there.
pub open spec fn lex_str(s: Seq<char>, i: int) -> Option<int> {
    let body = if 0 <= i < s.len() && s[i] == '"' {
        quoted_end(s, i + 1)
    } else if 0 <= i < s.len() && s[i] == 'r' {
        let h = hashes_end(s, i + 1);
        if h < s.len() && s[h] == '"' { raw_end(s, h + 1, h - (i + 1)) } else { None }
    } else {
        None
    };
    match body {
        Some(e) => if e < s.len() && is_ident_start(s[e]) { Some(ident_end(s, e)) } else { Some(e) },
        None => None,
    }
}

/// The entries of a list from position `i` on, up to the closing
/// parenthesis that ends the text (white space aside).
pub open spec fn entry_list(s: Seq<char>, i: int) -> Option<Seq<(Seq<char>, Option<Seq<char>>)>>
    decreases s.len() - i,
{
    let a = skip_ws(s, i);
    match lex_ident(s, a) {
        None => None,
        Some(e) => {
            let key = s.subrange(a, e);
            let b = skip_ws(s, e);
            let (value, c) = if b < s.len() && s[b] == '=' {
                let d = skip_ws(s, b + 1);
                match lex_str(s, d) {
                    Some(f) => (Some(Some(s.subrange(d, f))), skip_ws(s, f)),
                    None => (None, b),
                }
            } else {
                (Some(None), b)
            };
            match value {
                None => None,
                Some(v) => if c < s.len() && s[c] == ',' && c + 1 > i {
                    match entry_list(s, c + 1) {
                        Some(rest) => Some(seq![(key, v)] + rest),
                        None => None,
                    }
                } else if c < s.len() && s[c] == ')' && skip_ws(s, c + 1) == s.len() {
                    Some(seq![(key, v)])
                } else {
                    None
                },
            }
        },
    }
}

/// The entries that the text of an attribute's tokens holds: a
/// parenthesised list of one or more `key` or `key = "value"` entries,
/// separated by commas, with nothing after the closing parenthesis.
pub open spec fn entries_of_tokens(s: Seq<char>) -> Option<Seq<(Seq<char>, Option<Seq<char>>)>> {
    let a = skip_ws(s, 0);
    if a < s.len() && s[a] == '(' { entry_list(s, a + 1) } else { None }
}

proof fn lemma_skip_ws(s: Seq<char>, i: int)
    requires
        0 <= i,
    ensures
        i <= skip_ws(s, i),
        i <= s.len() ==> skip_ws(s, i) <= s.len(),
    decreases s.len() - i,
{
    if 0 <= i < s.len() && is_ws(s[i]) {
        lemma_skip_ws(s, i + 1);
    }
}

proof fn lemma_ident_end(s: Seq<char>, i: int)
    requires
        0 <= i,
    ensures
        i <= ident_end(s, i),
        i <= s.len() ==> ident_end(s, i) <= s.len(),
    decreases s.len() - i,
{
    if 0 <= i < s.len() && is_ident_char(s[i]) {
        lemma_ident_end(s, i + 1);
    }
}

proof fn lemma_hashes_end(s: Seq<char>, i: int)
    requires
        0 <= i <= s.len(),
    ensures
        i <= hashes_end(s, i) <= s.len(),
        forall|k: int| i <= k < hashes_end(s, i) ==> s[k] == '#',
    decreases s.len() - i,
{
    if 0 <= i < s.len() && s[i] == '#' {
        lemma_hashes_end(s, i + 1);
    }
}

proof fn lemma_quoted_end(s: Seq<char>, j: int)
    ensures
        quoted_end(s, j) matches Some(e) ==> j < e <= s.len(),
    decreases s.len() - j,
{
    if 0 <= j < s.len() && s[j] != '"' {
        if s[j] == '\\' {
            if j + 1 < s.len() {
                lemma_quoted_end(s, j + 2);
            }
        } else {
            lemma_quoted_end(s, j + 1);
        }
    }
}

proof fn lemma_raw_end(s: Seq<char>, j: int, n: int)
    requires
        n >= 0,
    ensures
        raw_end(s, j, n) matches Some(e) ==> j < e <= s.len(),
    decreases s.len() - j,
{
    if 0 <= j < s.len() && !(s[j] == '"' && hashes_at(s, j + 1, n)) {
        lemma_raw_end(s, j + 1, n);
    }
}

fn skip_ws_in(v: &Vec<char>, i: usize) -> (res: usize)
    requires
        i <= v@.len(),
    ensures
        res as int == skip_ws(v@, i as int),
        i <= res <= v@.len(),
{
    let mut j = i;
    proof {
        lemma_skip_ws(v@, i as int);
    }
    while j < v.len() && char_is_ws(v[j])
        invariant
            i <= j <= v@.len(),
            skip_ws(v@, j as int) == skip_ws(v@, i as int),
        decreases v@.len() - j,
    {
        j = j + 1;
    }
    j
}

fn is_ident_char_exec(c: char) -> (res: bool)
    ensures
        res == is_ident_char(c),
{
    c == '_' || ('a' <= c && c <= 'z') || ('A' <= c && c <= 'Z') || ('0' <= c && c <= '9')
        || (c as u32 >= 0x80 && !char_is_ws(c))
}

fn is_ident_start_exec(c: char) -> (res: bool)
    ensures
        res == is_ident_start(c),
{
    is_ident_char_exec(c) && !('0' <= c && c <= '9')
}

fn ident_end_in(v: &Vec<char>, i: usize) -> (res: usize)
    requires
        i <= v@.len(),
    ensures
        res as int == ident_end(v@, i as int),
        i <= res <= v@.len(),
{
    let mut j = i;
    while j < v.len() && is_ident_char_exec(v[j])
        invariant
            i <= j <= v@.len(),
            ident_end(v@, j as int) == ident_end(v@, i as int),
        decreases v@.len() - j,
    {
        j = j + 1;
    }
    j
}

fn lex_ident_in(v: &Vec<char>, i: usize) -> (res: Option<usize>)
    requires
        i <= v@.len(),
    ensures
        match lex_ident(v@, i as int) {
            Some(e) => res matches Some(r) && r as int == e && i < r <= v@.len(),
            None => res is None,
        },
{
    if i < v.len() && v.len() - i > 2 && v[i] == 'r' && v[i + 1] == '#' && is_ident_start_exec(v[i + 2]) {
        let e = ident_end_in(v, i + 2);
        proof {
            lemma_ident_end(v@, i + 3);
        }
        Some(e)
    } else if i < v.len() && is_ident_start_exec(v[i]) {
        let e = ident_end_in(v, i);
        proof {
            lemma_ident_end(v@, i + 1);
        }
        Some(e)
    } else {
        None
    }
}

fn quoted_end_in(v: &Vec<char>, j: usize) -> (res: Option<usize>)
    requires
        j <= v@.len(),
    ensures
        match quoted_end(v@, j as int) {
            Some(e) => res matches Some(r) && r as int == e,
            None => res is None,
        },
{
    let mut k = j;
    proof {
        lemma_quoted_end(v@, j as int);
    }
    while k < v.len()
        invariant
            j <= k <= v@.len() + 1,
            quoted_end(v@, k as int) == quoted_end(v@, j as int),
        decreases v@.len() + 1 - k,
    {
        if v[k] == '"' {
            proof {
                lemma_quoted_end(v@, j as int);
            }
            return Some(k + 1);
        } else if v[k] == '\\' {
            if k + 1 < v.len() {
                k = k + 2;
            } else {
                return None;
            }
        } else {
            k = k + 1;
        }
    }
    None
}

fn hashes_end_in(v: &Vec<char>, i: usize) -> (res: usize)
    requires
        i <= v@.len(),
    ensures
        res as int == hashes_end(v@, i as int),
        i <= res <= v@.len(),
{
    let mut j = i;
    proof {
        lemma_hashes_end(v@, i as int);
    }
    while j < v.len() && v[j] == '#'
        invariant
            i <= j <= v@.len(),
            hashes_end(v@, j as int) == hashes_end(v@, i as int),
        decreases v@.len() - j,
    {
        j = j + 1;
    }
    j
}

fn hashes_at_in(v: &Vec<char>, j: usize, n: usize) -> (res: bool)
    ensures
        res == hashes_at(v@, j as int, n as int),
{
    if j > v.len() || n > v.len() - j {
        return false;
    }
    let mut k: usize = 0;
    while k < n
        invariant
            k <= n,
            j + n <= v@.len(),
            j + n <= v.len(),
            forall|m: int| j <= m < j + k ==> v@[m] == '#',
        decreases n - k,
    {
        assert(j + k < v@.len());
        if v[j + k] != '#' {
            return false;
        }
        k = k + 1;
    }
    true
}

fn raw_end_in(v: &Vec<char>, j: usize, n: usize) -> (res: Option<usize>)
    requires
        j <= v@.len(),
        n <= v@.len(),
    ensures
        match raw_end(v@, j as int, n as int) {
            Some(e) => res matches Some(r) && r as int == e,
            None => res is None,
        },
{
    let mut k = j;
    while k < v.len()
        invariant
            j <= k <= v@.len(),
            n <= v@.len(),
            raw_end(v@, k as int, n as int) == raw_end(v@, j as int, n as int),
        decreases v@.len() - k,
    {
        if v[k] == '"' && hashes_at_in(v, k + 1, n) {
            return Some(k + 1 + n);
        }
        k = k + 1;
    }
    None
}

fn lex_str_in(v: &Vec<char>, i: usize) -> (res: Option<usize>)
    requires
        i <= v@.len(),
    ensures
        match lex_str(v@, i as int) {
            Some(e) => res matches Some(r) && r as int == e && i < r <= v@.len(),
            None => res is None,
        },
{
    let body = if i < v.len() && v[i] == '"' {
        proof {
            lemma_quoted_end(v@, i + 1);
        }
        quoted_end_in(v, i + 1)
    } else if i < v.len() && v[i] == 'r' {
        let h = hashes_end_in(v, i + 1);
        if h < v.len() && v[h] == '"' {
            proof {
                lemma_raw_end(v@, h + 1, h - (i + 1));
            }
            raw_end_in(v, h + 1, h - (i + 1))
        } else {
            None
        }
    } else {
        None
    };
    match body {
        Some(e) => if e < v.len() && is_ident_start_exec(v[e]) {
            let f = ident_end_in(v, e);
            Some(f)
        } else {
            Some(e)
        },
        None => None,
    }
}

fn entry_list_in(v: &Vec<char>, i: usize) -> (res: Option<Vec<AttrEntry>>)
    requires
        i <= v@.len(),
    ensures
        match entry_list(v@, i as int) {
            Some(es) => res matches Some(r) && entries_view(r@) == es,
            None => res is None,
        },
    decreases v@.len() - i,
{
    let a = skip_ws_in(v, i);
    let e = match lex_ident_in(v, a) {
        Some(e) => e,
        None => {
            return None;
        },
    };
    let key = string_of(sub_chars(v.as_slice(), a, e).as_slice());
    let b = skip_ws_in(v, e);
    let mut value: Option<String> = None;
    let c = if b < v.len() && v[b] == '=' {
        let d = skip_ws_in(v, b + 1);
        match lex_str_in(v, d) {
            Some(f) => {
                value = Some(string_of(sub_chars(v.as_slice(), d, f).as_slice()));
                skip_ws_in(v, f)
            },
            None => {
                return None;
            },
        }
    } else {
        b
    };
    let entry = AttrEntry { key, value };
    let ghost ev = crate::types::attrs::entry_view(entry);
    assert(c > i);
    if c < v.len() && v[c] == ',' {
        match entry_list_in(v, c + 1) {
            Some(rest) => {
                let ghost rv = rest@;
                let mut all: Vec<AttrEntry> = Vec::new();
                all.push(entry);
                let mut rest = rest;
                all.append(&mut rest);
                assert(all@ == seq![entry] + rv);
                assert(entries_view(all@) =~= seq![ev] + entries_view(rv));
                Some(all)
            },
            None => None,
        }
    } else if c < v.len() && v[c] == ')' && skip_ws_in(v, c + 1) == v.len() {
        let mut all: Vec<AttrEntry> = Vec::new();
        all.push(entry);
        assert(entries_view(all@) =~= seq![ev]);
        Some(all)
    } else {
        None
    }
}

/// Reads the entries of an `#[fp(...)]` or `#[serde(...)]` attribute from
/// the text of its tokens, such as `(rename_all = "camelCase", tag = "type")`;
/// nothing where the text has another shape.
pub fn parse_entries(text: &str) -> (res: Option<Vec<AttrEntry>>)
    ensures
        match entries_of_tokens(text@) {
            Some(es) => res matches Some(r) && entries_view(r@) == es,
            None => res is None,
        },
{
    let v = chars_of(text);
    let a = skip_ws_in(&v, 0);
    if a < v.len() && v[a] == '(' {
        entry_list_in(&v, a + 1)
    } else {
        None
    }
}

} // verus!
