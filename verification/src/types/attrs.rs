use vstd::prelude::*;
use crate::text::{
    chars_eq, chars_of, replace, replace_in, str_views, string_of, sub_chars,
};

verus! {

/// One `key` or `key = "value"` entry inside the parentheses of an
/// `#[fp(...)]` or `#[serde(...)]` attribute.
#[derive(Debug)]
pub struct AttrEntry {
    pub key: String,
    /// The string literal after the `=`, as written (quotes included).
    pub value: Option<String>,
}

/// An attribute of an item, field or variant, as written in the source.
#[derive(Debug)]
pub struct Attribute {
    /// The attribute's path, when it is a single identifier (such as `doc`,
    /// `fp` or `serde`).
    pub ident: Option<String>,
    /// Whether it is an outer attribute (`#[...]` rather than `#![...]`).
    pub is_outer: bool,
    /// The literal tokens of its contents, as written.
    pub literals: Vec<String>,
    /// Its contents read as a parenthesised, comma-separated list of
    /// entries, when they have that shape.
    pub entries: Option<Vec<AttrEntry>>,
}

/// The view of an entry: its key and the text of its value.
pub open spec fn entry_view(e: AttrEntry) -> (Seq<char>, Option<Seq<char>>) {
    (e.key@, match e.value {
        Some(v) => Some(v@),
        None => None,
    })
}

pub open spec fn entries_view(es: Seq<AttrEntry>) -> Seq<(Seq<char>, Option<Seq<char>>)> {
    es.map_values(|e: AttrEntry| entry_view(e))
}

/// `s` without leading double quotes.
pub open spec fn trim_quotes_start(s: Seq<char>) -> Seq<char>
    decreases s.len(),
{
    if s.len() > 0 && s[0] == '"' {
        trim_quotes_start(s.drop_first())
    } else {
        s
    }
}

/// `s` without trailing double quotes.
pub open spec fn trim_quotes_end(s: Seq<char>) -> Seq<char>
    decreases s.len(),
{
    if s.len() > 0 && s.last() == '"' {
        trim_quotes_end(s.drop_last())
    } else {
        s
    }
}

/// `s` without leading and trailing double quotes (what
/// `str::trim_matches('"')` returns).
pub open spec fn trim_quotes(s: Seq<char>) -> Seq<char> {
    trim_quotes_end(trim_quotes_start(s))
}

proof fn lemma_quotes_start_skip(s: Seq<char>, i: int)
    requires
        0 <= i <= s.len(),
        forall|j: int| 0 <= j < i ==> #[trigger] s[j] == '"',
    ensures
        trim_quotes_start(s) == trim_quotes_start(s.skip(i)),
    decreases i,
{
    if i > 0 {
        assert(s.drop_first().skip(i - 1) =~= s.skip(i));
        assert forall|j: int| 0 <= j < i - 1 implies #[trigger] s.drop_first()[j] == '"' by {
            assert(s.drop_first()[j] == s[j + 1]);
        }
        lemma_quotes_start_skip(s.drop_first(), i - 1);
    } else {
        assert(s.skip(0) =~= s);
    }
}

proof fn lemma_quotes_end_take(s: Seq<char>, i: int)
    requires
        0 <= i <= s.len(),
        forall|j: int| i <= j < s.len() ==> #[trigger] s[j] == '"',
    ensures
        trim_quotes_end(s) == trim_quotes_end(s.take(i)),
    decreases s.len() - i,
{
    if i < s.len() {
        assert(s.drop_last().take(i) =~= s.take(i));
        assert forall|j: int| i <= j < s.len() - 1 implies #[trigger] s.drop_last()[j] == '"' by {
            assert(s.drop_last()[j] == s[j]);
        }
        lemma_quotes_end_take(s.drop_last(), i);
    } else {
        assert(s.take(i) =~= s);
    }
}

/// The text of a literal value, without its quotes.
pub fn literal_value(lit: &String) -> (res: String)
    ensures
        res@ == trim_quotes(lit@),
{
    let v = chars_of(lit.as_str());
    let n = v.len();
    let mut start: usize = 0;
    while start < n && v[start] == '"'
        invariant
            start <= n == v@.len(),
            forall|j: int| 0 <= j < start ==> #[trigger] v@[j] == '"',
        decreases n - start,
    {
        start = start + 1;
    }
    proof {
        lemma_quotes_start_skip(v@, start as int);
        assert(trim_quotes_start(v@.skip(start as int)) == v@.skip(start as int));
    }
    let mut end: usize = n;
    while end > start && v[end - 1] == '"'
        invariant
            start <= end <= n == v@.len(),
            forall|j: int| end <= j < n ==> #[trigger] v@[j] == '"',
        decreases end,
    {
        end = end - 1;
    }
    proof {
        let t = v@.skip(start as int);
        assert forall|j: int| end - start <= j < t.len() implies #[trigger] t[j] == '"' by {
            assert(t[j] == v@[j + start]);
        }
        lemma_quotes_end_take(t, end - start);
        assert(t.take(end - start) =~= v@.subrange(start as int, end as int));
        let u = v@.subrange(start as int, end as int);
        if u.len() > 0 {
            assert(u.last() == v@[end - 1]);
        }
    }
    let w = sub_chars(&v, start, end);
    string_of(&w)
}


/// The text of a doc comment's string literal: the literal without its
/// quotes, with escaped quotes and backslashes restored; nothing for any
/// other literal.
pub open spec fn doc_literal(s: Seq<char>) -> Option<Seq<char>> {
    if s.len() > 0 && s[0] == '"' && s.last() == '"' {
        Some(replace(replace(s.subrange(1, s.len() - 1), "\\\""@, "\""@), "\\\\"@, "\\"@))
    } else {
        None
    }
}

/// Whether a literal can be read: a lone double quote cannot.
pub open spec fn readable_literal(s: Seq<char>) -> bool {
    !(s.len() == 1 && s[0] == '"')
}

/// Reads the text of a doc comment's literal.
pub fn parse_literal(literal: &String) -> (res: Option<String>)
    requires
        readable_literal(literal@),
    ensures
        match doc_literal(literal@) {
            Some(t) => res matches Some(r) && r@ == t,
            None => res is None,
        },
{
    let v = chars_of(literal.as_str());
    if v.len() > 0 && v[0] == '"' && v[v.len() - 1] == '"' {
        let inner = sub_chars(&v, 1, v.len() - 1);
        let escaped_quote = chars_of("\\\"");
        let quote = chars_of("\"");
        let two_backslashes = chars_of("\\\\");
        let backslash = chars_of("\\");
        proof {
            reveal_strlit("\\\"");
            reveal_strlit("\\\\");
        }
        let step1 = replace_in(&inner, &escaped_quote, &quote);
        let step2 = replace_in(&step1, &two_backslashes, &backslash);
        Some(string_of(&step2))
    } else {
        None
    }
}

/// Whether an attribute holds a doc comment.
pub open spec fn is_doc_attr(a: Attribute) -> bool {
    &&& a.is_outer
    &&& a.ident is Some
    &&& a.ident.unwrap()@ == "doc"@
}

/// The texts of the doc literals among `lits`, in order.
pub open spec fn literal_lines(lits: Seq<Seq<char>>) -> Seq<Seq<char>>
    decreases lits.len(),
{
    if lits.len() == 0 {
        Seq::empty()
    } else {
        match doc_literal(lits.last()) {
            Some(t) => literal_lines(lits.drop_last()).push(t),
            None => literal_lines(lits.drop_last()),
        }
    }
}

/// The lines of the doc comments among `attrs`, in order.
pub open spec fn doc_lines_of(attrs: Seq<Attribute>) -> Seq<Seq<char>>
    decreases attrs.len(),
{
    if attrs.len() == 0 {
        Seq::empty()
    } else if is_doc_attr(attrs.last()) {
        doc_lines_of(attrs.drop_last()) + literal_lines(str_views(attrs.last().literals@))
    } else {
        doc_lines_of(attrs.drop_last())
    }
}

/// Whether every literal of every doc comment among `attrs` can be read.
pub open spec fn doc_attrs_readable(attrs: Seq<Attribute>) -> bool {
    forall|i: int, j: int|
        0 <= i < attrs.len() && is_doc_attr(#[trigger] attrs[i]) && 0 <= j < attrs[i].literals@.len()
            ==> readable_literal(#[trigger] attrs[i].literals@[j]@)
}

fn is_doc(a: &Attribute) -> (res: bool)
    ensures
        res == is_doc_attr(*a),
{
    if !a.is_outer {
        return false;
    }
    match &a.ident {
        Some(i) => {
            let v = chars_of(i.as_str());
            chars_eq(&v, "doc")
        },
        None => false,
    }
}

/// The lines of the doc comments among `attrs`.
pub fn get_doc_lines(attrs: &[Attribute]) -> (res: Vec<String>)
    requires
        doc_attrs_readable(attrs@),
    ensures
        str_views(res@) == doc_lines_of(attrs@),
{
    let mut res: Vec<String> = Vec::new();
    let mut i: usize = 0;
    assert(str_views(res@) =~= doc_lines_of(attrs@.take(0)));
    while i < attrs.len()
        invariant
            i <= attrs@.len(),
            doc_attrs_readable(attrs@),
            str_views(res@) == doc_lines_of(attrs@.take(i as int)),
        decreases attrs@.len() - i,
    {
        let a = &attrs[i];
        proof {
            assert(attrs@.take(i + 1).drop_last() =~= attrs@.take(i as int));
            assert(attrs@.take(i + 1).last() == attrs@[i as int]);
        }
        if is_doc(a) {
            let ghost before = str_views(res@);
            let mut j: usize = 0;
            assert(str_views(a.literals@).take(0) =~= Seq::<Seq<char>>::empty());
            assert(before + literal_lines(Seq::<Seq<char>>::empty()) =~= before);
            while j < a.literals.len()
                invariant
                    j <= a.literals@.len(),
                    i < attrs@.len(),
                    *a == attrs@[i as int],
                    is_doc_attr(*a),
                    doc_attrs_readable(attrs@),
                    str_views(res@) == before + literal_lines(str_views(a.literals@).take(j as int)),
                decreases a.literals@.len() - j,
            {
                proof {
                    assert(readable_literal(attrs@[i as int].literals@[j as int]@));
                    let t = str_views(a.literals@).take(j + 1);
                    assert(t.drop_last() =~= str_views(a.literals@).take(j as int));
                    assert(t.last() == a.literals@[j as int]@);
                }
                match parse_literal(&a.literals[j]) {
                    Some(line) => {
                        let ghost b2 = str_views(res@);
                        res.push(line);
                        assert(str_views(res@) =~= b2.push(line@));
                        assert(before + literal_lines(str_views(a.literals@).take(j + 1)) =~= b2.push(line@));
                    },
                    None => {},
                }
                j = j + 1;
            }
            assert(str_views(a.literals@).take(a.literals@.len() as int) =~= str_views(a.literals@));
        }
        i = i + 1;
    }
    assert(attrs@.take(attrs@.len() as int) =~= attrs@);
    res
}


/// Whether an attribute holds options for fp-bindgen (`#[fp(...)]` or
/// `#[serde(...)]`).
pub open spec fn is_options_attr(a: Attribute) -> bool {
    &&& a.ident is Some
    &&& (a.ident.unwrap()@ == "fp"@ || a.ident.unwrap()@ == "serde"@)
}

/// Whether an attribute is an outer `#[fp(...)]` or `#[serde(...)]`
/// attribute.
pub fn options_attr(a: &Attribute) -> (res: bool)
    ensures
        res == is_options_attr(*a),
{
    match &a.ident {
        Some(i) => {
            let v = chars_of(i.as_str());
            chars_eq(&v, "fp") || chars_eq(&v, "serde")
        },
        None => false,
    }
}

/// The view of an optional string.
pub open spec fn opt_view(o: Option<String>) -> Option<Seq<char>> {
    match o {
        Some(s) => Some(s@),
        None => None,
    }
}

/// A copy of an optional string.
pub fn clone_opt(o: &Option<String>) -> (res: Option<String>)
    ensures
        opt_view(res) == opt_view(*o),
{
    match o {
        Some(s) => Some(s.clone()),
        None => None,
    }
}

/// Builds `prefix + value + suffix`.
pub fn wrap(prefix: &str, value: &str, suffix: &str) -> (res: String)
    ensures
        res@ == prefix@ + value@ + suffix@,
{
    let mut s = prefix.to_owned();
    s.append(value);
    s.append(suffix);
    s
}

/// `key = "value"`, as written in a Serde attribute.
pub open spec fn serde_pair(key: Seq<char>, value: Seq<char>) -> Seq<char> {
    key + " = \""@ + value + "\""@
}

/// The Serde attribute `key = "value"`.
pub fn serde_pair_string(key: &str, value: &str) -> (res: String)
    ensures
        res@ == serde_pair(key@, value@),
{
    let mut s = key.to_owned();
    s.append(" = \"");
    s.append(value);
    s.append("\"");
    s
}

/// Appends `s` to `v`.
pub fn push_str_to(v: &mut Vec<String>, s: String)
    ensures
        str_views(final(v)@) == str_views(old(v)@).push(s@),
{
    v.push(s);
    assert(str_views(v@) =~= str_views(old(v)@).push(s@));
}


/// Whether every literal of every doc comment among `attrs` can be read.
pub fn doc_attrs_ok(attrs: &[Attribute]) -> (res: bool)
    ensures
        res == doc_attrs_readable(attrs@),
{
    let mut i: usize = 0;
    while i < attrs.len()
        invariant
            i <= attrs@.len(),
            forall|k: int, j: int|
                0 <= k < i && is_doc_attr(#[trigger] attrs@[k]) && 0 <= j < attrs@[k].literals@.len()
                    ==> readable_literal(#[trigger] attrs@[k].literals@[j]@),
        decreases attrs@.len() - i,
    {
        let a = &attrs[i];
        if is_doc(a) {
            let mut j: usize = 0;
            while j < a.literals.len()
                invariant
                    j <= a.literals@.len(),
                    *a == attrs@[i as int],
                    is_doc_attr(*a),
                    i < attrs@.len(),
                    forall|m: int| 0 <= m < j ==> readable_literal(#[trigger] a.literals@[m]@),
                decreases a.literals@.len() - j,
            {
                let v = chars_of(a.literals[j].as_str());
                if v.len() == 1 && v[0] == '"' {
                    assert(v@ == a.literals@[j as int]@);
                    assert(!readable_literal(attrs@[i as int].literals@[j as int]@));
                    assert(!doc_attrs_readable(attrs@));
                    return false;
                }
                j = j + 1;
            }
        }
        i = i + 1;
    }
    true
}

} // verus!
