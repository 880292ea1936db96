use vstd::prelude::*;

verus! {

/// Whether `c` has the Unicode `White_Space` property (what `char::is_whitespace` tests).
pub open spec fn is_ws(c: char) -> bool {
    let u = c as u32;
    ||| 9 <= u <= 13
    ||| u == 32
    ||| u == 0x85
    ||| u == 0xA0
    ||| u == 0x1680
    ||| 0x2000 <= u <= 0x200A
    ||| u == 0x2028
    ||| u == 0x2029
    ||| u == 0x202F
    ||| u == 0x205F
    ||| u == 0x3000
}

/// Whether `c` is white space.
pub fn char_is_ws(c: char) -> (res: bool)
    ensures
        res == is_ws(c),
{
    let u = c as u32;
    (9 <= u && u <= 13) || u == 32 || u == 0x85 || u == 0xA0 || u == 0x1680 || (0x2000 <= u
        && u <= 0x200A) || u == 0x2028 || u == 0x2029 || u == 0x202F || u == 0x205F || u == 0x3000
}

/// Appends one character to a string.
#[verifier::external_body]
fn push_char(s: &mut String, c: char)
    ensures
        final(s)@ == old(s)@.push(c),
{
    s.push(c);
}

/// The characters of a string slice, in order.
pub fn chars_of(s: &str) -> (res: Vec<char>)
    ensures
        res@ == s@,
{
    let n = s.unicode_len();
    let mut res: Vec<char> = Vec::new();
    let mut i: usize = 0;
    while i < n
        invariant
            n == s@.len(),
            i <= n,
            res@ == s@.take(i as int),
        decreases n - i,
    {
        let c = s.get_char(i);
        res.push(c);
        i = i + 1;
        assert(res@ =~= s@.take(i as int));
    }
    assert(res@ =~= s@);
    res
}


/// A string holding exactly the given characters.
pub fn string_of(v: &[char]) -> (res: String)
    ensures
        res@ == v@,
{
    let mut res = String::new();
    let mut i: usize = 0;
    while i < v.len()
        invariant
            i <= v@.len(),
            res@ == v@.take(i as int),
        decreases v@.len() - i,
    {
        push_char(&mut res, v[i]);
        i = i + 1;
        assert(res@ =~= v@.take(i as int));
    }
    assert(v@.take(v@.len() as int) =~= v@);
    res
}

/// The characters `v[from..to]`.
pub fn sub_chars(v: &[char], from: usize, to: usize) -> (res: Vec<char>)
    requires
        from <= to <= v@.len(),
    ensures
        res@ == v@.subrange(from as int, to as int),
{
    let mut res: Vec<char> = Vec::new();
    let mut i: usize = from;
    while i < to
        invariant
            from <= i <= to <= v@.len(),
            res@ == v@.subrange(from as int, i as int),
        decreases to - i,
    {
        res.push(v[i]);
        i = i + 1;
        assert(res@ =~= v@.subrange(from as int, i as int));
    }
    res
}

/// `s` with leading white space removed.
pub open spec fn trim_start(s: Seq<char>) -> Seq<char>
    decreases s.len(),
{
    if s.len() > 0 && is_ws(s[0]) {
        trim_start(s.drop_first())
    } else {
        s
    }
}

/// `s` with trailing white space removed.
pub open spec fn trim_end(s: Seq<char>) -> Seq<char>
    decreases s.len(),
{
    if s.len() > 0 && is_ws(s.last()) {
        trim_end(s.drop_last())
    } else {
        s
    }
}

/// `s` with white space removed at both ends (what `str::trim` returns).
pub open spec fn trim(s: Seq<char>) -> Seq<char> {
    trim_end(trim_start(s))
}

proof fn lemma_trim_start_skip(s: Seq<char>, i: int)
    requires
        0 <= i <= s.len(),
        forall|j: int| 0 <= j < i ==> is_ws(#[trigger] s[j]),
    ensures
        trim_start(s) == trim_start(s.skip(i)),
    decreases i,
{
    if i > 0 {
        assert(s.drop_first().skip(i - 1) =~= s.skip(i));
        assert forall|j: int| 0 <= j < i - 1 implies is_ws(#[trigger] s.drop_first()[j]) by {
            assert(s.drop_first()[j] == s[j + 1]);
        }
        lemma_trim_start_skip(s.drop_first(), i - 1);
    } else {
        assert(s.skip(0) =~= s);
    }
}

proof fn lemma_trim_end_take(s: Seq<char>, i: int)
    requires
        0 <= i <= s.len(),
        forall|j: int| i <= j < s.len() ==> is_ws(#[trigger] s[j]),
    ensures
        trim_end(s) == trim_end(s.take(i)),
    decreases s.len() - i,
{
    if i < s.len() {
        assert(s.drop_last().take(i) =~= s.take(i));
        assert forall|j: int| i <= j < s.len() - 1 implies is_ws(#[trigger] s.drop_last()[j]) by {
            assert(s.drop_last()[j] == s[j]);
        }
        lemma_trim_end_take(s.drop_last(), i);
    } else {
        assert(s.take(i) =~= s);
    }
}

/// `v` with white space removed at both ends.
pub fn trim_chars(v: &[char]) -> (res: Vec<char>)
    ensures
        res@ == trim(v@),
{
    let n = v.len();
    let mut start: usize = 0;
    while start < n && char_is_ws(v[start])
        invariant
            start <= n == v@.len(),
            forall|j: int| 0 <= j < start ==> is_ws(#[trigger] v@[j]),
        decreases n - start,
    {
        start = start + 1;
    }
    proof {
        lemma_trim_start_skip(v@, start as int);
        assert(trim_start(v@.skip(start as int)) == v@.skip(start as int));
    }
    let mut end: usize = n;
    while end > start && char_is_ws(v[end - 1])
        invariant
            start <= end <= n == v@.len(),
            forall|j: int| end <= j < n ==> is_ws(#[trigger] v@[j]),
        decreases end,
    {
        end = end - 1;
    }
    proof {
        let t = v@.skip(start as int);
        assert forall|j: int| end - start <= j < t.len() implies is_ws(#[trigger] t[j]) by {
            assert(t[j] == v@[j + start]);
        }
        lemma_trim_end_take(t, end - start);
        assert(t.take(end - start) =~= v@.subrange(start as int, end as int));
        let u = v@.subrange(start as int, end as int);
        if u.len() > 0 {
            assert(u.last() == v@[end - 1]);
        }
    }
    sub_chars(v, start, end)
}

/// Whether `s` begins with `p`.
pub open spec fn starts_with(s: Seq<char>, p: Seq<char>) -> bool {
    p.len() <= s.len() && s.take(p.len() as int) == p
}

/// The first index at which `c` occurs in `s`.
pub open spec fn find_char(s: Seq<char>, c: char) -> Option<int> {
    if exists|i: int| 0 <= i < s.len() && s[i] == c && forall|j: int| 0 <= j < i ==> s[j] != c {
        Some(choose|i: int| 0 <= i < s.len() && s[i] == c && forall|j: int| 0 <= j < i ==> s[j] != c)
    } else {
        None
    }
}

/// The last index at which `c` occurs in `s`.
pub open spec fn rfind_char(s: Seq<char>, c: char) -> Option<int> {
    if exists|i: int| 0 <= i < s.len() && s[i] == c && forall|j: int| i < j < s.len() ==> s[j] != c {
        Some(choose|i: int| 0 <= i < s.len() && s[i] == c && forall|j: int| i < j < s.len() ==> s[j] != c)
    } else {
        None
    }
}

pub proof fn lemma_find_char(s: Seq<char>, c: char, i: int)
    requires
        0 <= i < s.len(),
        s[i] == c,
        forall|j: int| 0 <= j < i ==> s[j] != c,
    ensures
        find_char(s, c) == Some(i),
{
    let k = choose|k: int| 0 <= k < s.len() && s[k] == c && forall|j: int| 0 <= j < k ==> s[j] != c;
    assert(0 <= k < s.len() && s[k] == c && forall|j: int| 0 <= j < k ==> s[j] != c);
    if k < i {
        assert(s[k] != c);
    }
    if i < k {
        assert(s[i] != c);
    }
}

pub proof fn lemma_rfind_char(s: Seq<char>, c: char, i: int)
    requires
        0 <= i < s.len(),
        s[i] == c,
        forall|j: int| i < j < s.len() ==> s[j] != c,
    ensures
        rfind_char(s, c) == Some(i),
{
    let k = choose|k: int| 0 <= k < s.len() && s[k] == c && forall|j: int| k < j < s.len() ==> s[j] != c;
    assert(0 <= k < s.len() && s[k] == c && forall|j: int| k < j < s.len() ==> s[j] != c);
    if k < i {
        assert(s[i] != c);
    }
    if i < k {
        assert(s[k] != c);
    }
}

/// Index of the first occurrence of `c` in `v`.
pub fn find_in(v: &[char], c: char) -> (res: Option<usize>)
    ensures
        res matches Some(i) ==> find_char(v@, c) == Some(i as int) && i < v@.len() && v@[i as int] == c,
        res is None ==> find_char(v@, c) is None,
{
    let mut i: usize = 0;
    while i < v.len()
        invariant
            i <= v@.len(),
            forall|j: int| 0 <= j < i ==> v@[j] != c,
        decreases v@.len() - i,
    {
        if v[i] == c {
            proof {
                lemma_find_char(v@, c, i as int);
            }
            return Some(i);
        }
        i = i + 1;
    }
    None
}

/// Index of the last occurrence of `c` in `v`.
pub fn rfind_in(v: &[char], c: char) -> (res: Option<usize>)
    ensures
        res matches Some(i) ==> rfind_char(v@, c) == Some(i as int) && i < v@.len() && v@[i as int] == c,
        res is None ==> rfind_char(v@, c) is None,
{
    let mut i: usize = v.len();
    while i > 0
        invariant
            i <= v@.len(),
            forall|j: int| i <= j < v@.len() ==> v@[j] != c,
        decreases i,
    {
        if v[i - 1] == c {
            proof {
                lemma_rfind_char(v@, c, i - 1);
            }
            return Some(i - 1);
        }
        i = i - 1;
    }
    None
}


/// The views of a sequence of character vectors.
pub open spec fn char_views(vs: Seq<Vec<char>>) -> Seq<Seq<char>> {
    vs.map_values(|v: Vec<char>| v@)
}

/// The views of a sequence of strings.
pub open spec fn str_views(vs: Seq<String>) -> Seq<Seq<char>> {
    vs.map_values(|v: String| v@)
}

/// The pieces of `s` between occurrences of `c` (what `str::split` with a
/// character yields).
#[verifier::opaque]
pub open spec fn split_char(s: Seq<char>, c: char) -> Seq<Seq<char>>
    decreases s.len(),
{
    match find_char(s, c) {
        Some(i) => if 0 <= i < s.len() {
            seq![s.take(i)] + split_char(s.skip(i + 1), c)
        } else {
            seq![s]
        },
        None => seq![s],
    }
}

pub proof fn lemma_find_char_none(s: Seq<char>, c: char)
    requires
        forall|j: int| 0 <= j < s.len() ==> s[j] != c,
    ensures
        find_char(s, c) is None,
{
}

pub proof fn lemma_split_step(s: Seq<char>, c: char, i: int)
    requires
        0 <= i < s.len(),
        s[i] == c,
        forall|j: int| 0 <= j < i ==> s[j] != c,
    ensures
        split_char(s, c) == seq![s.take(i)] + split_char(s.skip(i + 1), c),
{
    lemma_find_char(s, c, i);
    reveal(split_char);
}

pub proof fn lemma_split_none(s: Seq<char>, c: char)
    requires
        forall|j: int| 0 <= j < s.len() ==> s[j] != c,
    ensures
        split_char(s, c) == seq![s],
{
    lemma_find_char_none(s, c);
    reveal(split_char);
}

/// Splits `v` at every occurrence of `c`.
pub fn split_in(v: &[char], c: char) -> (res: Vec<Vec<char>>)
    ensures
        char_views(res@) == split_char(v@, c),
{
    let n = v.len();
    let mut res: Vec<Vec<char>> = Vec::new();
    let mut start: usize = 0;
    let mut i: usize = 0;
    assert(v@.skip(0) =~= v@);
    assert(char_views(res@) + split_char(v@.skip(0), c) =~= split_char(v@, c));
    while i < n
        invariant
            n == v@.len(),
            start <= i <= n,
            forall|j: int| start <= j < i ==> v@[j] != c,
            split_char(v@, c) == char_views(res@) + split_char(v@.skip(start as int), c),
        decreases n - i,
    {
        if v[i] == c {
            let piece = sub_chars(v, start, i);
            proof {
                let t = v@.skip(start as int);
                assert forall|j: int| 0 <= j < i - start implies t[j] != c by {
                    assert(t[j] == v@[j + start]);
                }
                lemma_split_step(t, c, i - start);
                assert(t.take(i - start) =~= piece@);
                assert(t.skip(i - start + 1) =~= v@.skip(i + 1));
                assert(char_views(res@.push(piece)) =~= char_views(res@) + seq![piece@]);
                assert(char_views(res@) + (seq![piece@] + split_char(v@.skip(i + 1), c))
                    =~= char_views(res@.push(piece)) + split_char(v@.skip(i + 1), c));
            }
            res.push(piece);
            start = i + 1;
        }
        i = i + 1;
    }
    let last = sub_chars(v, start, n);
    proof {
        let t = v@.skip(start as int);
        assert forall|j: int| 0 <= j < t.len() implies t[j] != c by {
            assert(t[j] == v@[j + start]);
        }
        lemma_split_none(t, c);
        assert(t =~= last@);
        assert(char_views(res@.push(last)) =~= char_views(res@) + seq![last@]);
    }
    res.push(last);
    res
}

/// `s` split at the first occurrence of `c` (what `str::split_once` gives).
pub open spec fn split_once_char(s: Seq<char>, c: char) -> Option<(Seq<char>, Seq<char>)> {
    match find_char(s, c) {
        Some(i) => Some((s.take(i), s.skip(i + 1))),
        None => None,
    }
}

/// Joins `parts`, putting `sep` between each two of them.
pub open spec fn join(parts: Seq<Seq<char>>, sep: Seq<char>) -> Seq<char>
    decreases parts.len(),
{
    if parts.len() == 0 {
        Seq::empty()
    } else if parts.len() == 1 {
        parts[0]
    } else {
        join(parts.drop_last(), sep) + sep + parts.last()
    }
}

/// Concatenates `parts`.
pub open spec fn concat(parts: Seq<Seq<char>>) -> Seq<char>
    decreases parts.len(),
{
    if parts.len() == 0 {
        Seq::empty()
    } else {
        concat(parts.drop_last()) + parts.last()
    }
}

/// Joins the strings of `parts` with `sep` between each two of them.
pub fn join_strings(parts: &Vec<String>, sep: &str) -> (res: String)
    ensures
        res@ == join(str_views(parts@), sep@),
{
    let mut res = String::new();
    let mut i: usize = 0;
    while i < parts.len()
        invariant
            i <= parts@.len(),
            res@ == join(str_views(parts@).take(i as int), sep@),
        decreases parts@.len() - i,
    {
        proof {
            let t = str_views(parts@).take(i as int + 1);
            assert(t.drop_last() =~= str_views(parts@).take(i as int));
            assert(t.last() == parts@[i as int]@);
        }
        if i > 0 {
            res.append(sep);
        } else {
            assert(str_views(parts@).take(0) =~= Seq::<Seq<char>>::empty());
        }
        res.append(parts[i].as_str());
        i = i + 1;
    }
    assert(str_views(parts@).take(parts@.len() as int) =~= str_views(parts@));
    res
}

/// Concatenates the strings of `parts`.
pub fn concat_strings(parts: &Vec<String>) -> (res: String)
    ensures
        res@ == concat(str_views(parts@)),
{
    let mut res = String::new();
    let mut i: usize = 0;
    while i < parts.len()
        invariant
            i <= parts@.len(),
            res@ == concat(str_views(parts@).take(i as int)),
        decreases parts@.len() - i,
    {
        proof {
            let t = str_views(parts@).take(i as int + 1);
            assert(t.drop_last() =~= str_views(parts@).take(i as int));
        }
        if i == 0 {
            assert(str_views(parts@).take(0) =~= Seq::<Seq<char>>::empty());
        }
        res.append(parts[i].as_str());
        i = i + 1;
    }
    assert(str_views(parts@).take(parts@.len() as int) =~= str_views(parts@));
    res
}

/// `s` with every non-overlapping occurrence of `pat`, scanned from the
/// left, replaced by `rep` (what `str::replace` returns).
pub open spec fn replace(s: Seq<char>, pat: Seq<char>, rep: Seq<char>) -> Seq<char>
    recommends
        pat.len() > 0,
    decreases s.len(),
{
    if s.len() == 0 || pat.len() == 0 {
        s
    } else if starts_with(s, pat) {
        rep + replace(s.skip(pat.len() as int), pat, rep)
    } else {
        seq![s[0]] + replace(s.drop_first(), pat, rep)
    }
}

fn starts_with_at(v: &[char], at: usize, pat: &[char]) -> (res: bool)
    requires
        at <= v@.len(),
    ensures
        res == starts_with(v@.skip(at as int), pat@),
{
    if pat.len() > v.len() - at {
        return false;
    }
    let mut k: usize = 0;
    while k < pat.len()
        invariant
            at + pat@.len() <= v@.len(),
            v@.len() == v.len(),
            k <= pat@.len(),
            forall|j: int| 0 <= j < k ==> v@[at + j] == pat@[j],
        decreases pat@.len() - k,
    {
        if v[at + k] != pat[k] {
            assert(v@.skip(at as int).take(pat@.len() as int)[k as int] != pat@[k as int]);
            return false;
        }
        k = k + 1;
    }
    assert(v@.skip(at as int).take(pat@.len() as int) =~= pat@);
    true
}

/// Replaces every occurrence of `pat` in `v` by `rep`.
pub fn replace_in(v: &[char], pat: &[char], rep: &[char]) -> (res: Vec<char>)
    requires
        pat@.len() > 0,
    ensures
        res@ == replace(v@, pat@, rep@),
{
    let mut res: Vec<char> = Vec::new();
    let mut i: usize = 0;
    assert(v@.skip(0) =~= v@);
    assert(res@ + replace(v@.skip(0), pat@, rep@) =~= replace(v@, pat@, rep@));
    while i < v.len()
        invariant
            pat@.len() > 0,
            i <= v@.len(),
            replace(v@, pat@, rep@) == res@ + replace(v@.skip(i as int), pat@, rep@),
        decreases v@.len() - i,
    {
        let t = Ghost(v@.skip(i as int));
        if starts_with_at(v, i, pat) {
            let mut k: usize = 0;
            let ghost before = res@;
            while k < rep.len()
                invariant
                    k <= rep@.len(),
                    res@ == before + rep@.take(k as int),
                decreases rep@.len() - k,
            {
                res.push(rep[k]);
                k = k + 1;
                assert(res@ =~= before + rep@.take(k as int));
            }
            assert(rep@.take(rep@.len() as int) =~= rep@);
            assert(t@.skip(pat@.len() as int) =~= v@.skip(i + pat@.len()));
            assert(replace(t@, pat@, rep@) == rep@ + replace(t@.skip(pat@.len() as int), pat@, rep@));
            assert(before + (rep@ + replace(v@.skip(i + pat@.len()), pat@, rep@)) =~= res@ + replace(v@.skip(i + pat@.len()), pat@, rep@));
            i = i + pat.len();
        } else {
            assert(t@.drop_first() =~= v@.skip(i + 1));
            assert(t@[0] == v@[i as int]);
            let ghost before = res@;
            res.push(v[i]);
            assert(before + (seq![v@[i as int]] + replace(v@.skip(i + 1), pat@, rep@)) =~= res@ + replace(v@.skip(i + 1), pat@, rep@));
            i = i + 1;
        }
    }
    assert(v@.skip(v@.len() as int) =~= Seq::<char>::empty());
    assert(res@ + Seq::<char>::empty() =~= res@);
    res
}


/// Whether `v` holds exactly the characters of `lit`.
pub fn chars_eq(v: &[char], lit: &str) -> (res: bool)
    ensures
        res == (v@ == lit@),
{
    let w = chars_of(lit);
    if v.len() != w.len() {
        return false;
    }
    let mut i: usize = 0;
    while i < v.len()
        invariant
            v@.len() == w@.len(),
            w@ == lit@,
            i <= v@.len(),
            forall|j: int| 0 <= j < i ==> v@[j] == w@[j],
        decreases v@.len() - i,
    {
        if v[i] != w[i] {
            return false;
        }
        i = i + 1;
    }
    assert(v@ =~= w@);
    true
}

/// Whether two strings hold the same characters.
pub fn str_eq(a: &str, b: &str) -> (res: bool)
    ensures
        res == (a@ == b@),
{
    let v = chars_of(a);
    chars_eq(&v, b)
}

/// Whether `c` is an ASCII decimal digit.
pub open spec fn is_digit(c: char) -> bool {
    '0' <= c <= '9'
}

/// The value of a character that is a decimal digit.
pub open spec fn digit_value(c: char) -> nat {
    ((c as u32) - ('0' as u32)) as nat
}

/// The value of a sequence of decimal digits.
pub open spec fn digits_value(d: Seq<char>) -> nat
    decreases d.len(),
{
    if d.len() == 0 {
        0
    } else {
        digits_value(d.drop_last()) * 10 + digit_value(d.last())
    }
}

/// The digits of `s` once an optional leading `+` is removed.
pub open spec fn unsigned_digits(s: Seq<char>) -> Seq<char> {
    if s.len() > 0 && s[0] == '+' {
        s.drop_first()
    } else {
        s
    }
}

/// What `usize::from_str` returns for `s`: an optional `+`, then one or more
/// decimal digits whose value fits in a `usize`.
pub open spec fn parse_usize(s: Seq<char>) -> Option<usize> {
    let d = unsigned_digits(s);
    if d.len() > 0 && (forall|i: int| 0 <= i < d.len() ==> is_digit(#[trigger] d[i]))
        && digits_value(d) <= usize::MAX {
        Some(digits_value(d) as usize)
    } else {
        None
    }
}

proof fn lemma_digits_value_prefix(d: Seq<char>, k: int)
    requires
        0 <= k <= d.len(),
    ensures
        digits_value(d.take(k)) <= digits_value(d),
    decreases d.len() - k,
{
    if k < d.len() {
        lemma_digits_value_prefix(d, k + 1);
        assert(d.take(k + 1).drop_last() =~= d.take(k));
    } else {
        assert(d.take(k) =~= d);
    }
}

/// Parses an unsigned decimal number the way `usize::from_str` does.
pub fn parse_usize_in(v: &[char]) -> (res: Option<usize>)
    ensures
        res == parse_usize(v@),
{
    let start: usize = if v.len() > 0 && v[0] == '+' { 1 } else { 0 };
    let ghost d = unsigned_digits(v@);
    assert(d =~= v@.skip(start as int));
    if start == v.len() {
        return None;
    }
    let mut value: usize = 0;
    let mut i: usize = start;
    while i < v.len()
        invariant
            start <= i <= v@.len(),
            start < v@.len(),
            d == v@.skip(start as int),
            d == unsigned_digits(v@),
            forall|j: int| 0 <= j < i - start ==> is_digit(#[trigger] d[j]),
            value as nat == digits_value(d.take(i - start)),
        decreases v@.len() - i,
    {
        let c = v[i];
        if !('0' <= c && c <= '9') {
            assert(!is_digit(d[i - start]));
            return None;
        }
        let dv = (c as u32 - '0' as u32) as usize;
        proof {
            assert(d.take(i - start + 1).drop_last() =~= d.take(i - start));
            assert(d.take(i - start + 1).last() == c);
        }
        if value > (usize::MAX - dv) / 10 {
            proof {
                assert(digits_value(d.take(i - start + 1)) > usize::MAX);
                lemma_digits_value_prefix(d, i - start + 1);
            }
            return None;
        }
        value = value * 10 + dv;
        i = i + 1;
    }
    assert(d.take(i - start) =~= d);
    Some(value)
}

/// The decimal rendering of `n` (what `n.to_string()` gives).
pub open spec fn decimal(n: nat) -> Seq<char>
    decreases n,
{
    if n < 10 {
        seq![digit_char(n)]
    } else {
        decimal(n / 10) + seq![digit_char(n % 10)]
    }
}

/// The decimal digit for a value below ten.
pub open spec fn digit_char(n: nat) -> char {
    (('0' as u32) + n) as char
}

/// Renders `n` in decimal.
pub fn decimal_string(n: usize) -> (res: String)
    ensures
        res@ == decimal(n as nat),
    decreases n,
{
    if n < 10 {
        let mut s = String::new();
        let c = char_of_digit(n as u32);
        push_char(&mut s, c);
        assert(s@ =~= seq![digit_char(n as nat)]);
        s
    } else {
        let mut s = decimal_string(n / 10);
        let c = char_of_digit((n % 10) as u32);
        push_char(&mut s, c);
        s
    }
}

fn char_of_digit(d: u32) -> (c: char)
    requires
        d < 10,
    ensures
        c == digit_char(d as nat),
{
    if d == 0 { '0' }
    else if d == 1 { '1' }
    else if d == 2 { '2' }
    else if d == 3 { '3' }
    else if d == 4 { '4' }
    else if d == 5 { '5' }
    else if d == 6 { '6' }
    else if d == 7 { '7' }
    else if d == 8 { '8' }
    else { '9' }
}


/// Whether `a` comes before `b` in the order of `str` (character codes
/// compared from the left, a proper prefix first).
pub open spec fn seq_lt(a: Seq<char>, b: Seq<char>) -> bool
    decreases a.len(),
{
    if a.len() == 0 {
        b.len() > 0
    } else if b.len() == 0 {
        false
    } else if a[0] != b[0] {
        a[0] < b[0]
    } else {
        seq_lt(a.drop_first(), b.drop_first())
    }
}

/// No text comes before itself.
pub proof fn lemma_seq_lt_irreflexive(a: Seq<char>)
    ensures
        !seq_lt(a, a),
    decreases a.len(),
{
    if a.len() > 0 {
        lemma_seq_lt_irreflexive(a.drop_first());
    }
}

/// The order of texts is transitive.
pub proof fn lemma_seq_lt_transitive(a: Seq<char>, b: Seq<char>, c: Seq<char>)
    requires
        seq_lt(a, b),
        seq_lt(b, c),
    ensures
        seq_lt(a, c),
    decreases a.len(),
{
    if a.len() > 0 && b.len() > 0 && c.len() > 0 && a[0] == b[0] && b[0] == c[0] {
        lemma_seq_lt_transitive(a.drop_first(), b.drop_first(), c.drop_first());
    }
}

/// Of two different texts, one comes before the other.
pub proof fn lemma_seq_lt_total(a: Seq<char>, b: Seq<char>)
    ensures
        seq_lt(a, b) || seq_lt(b, a) || a == b,
    decreases a.len(),
{
    if a.len() > 0 && b.len() > 0 && a[0] == b[0] {
        lemma_seq_lt_total(a.drop_first(), b.drop_first());
        if a.drop_first() == b.drop_first() {
            assert(a =~= seq![a[0]] + a.drop_first());
            assert(b =~= seq![b[0]] + b.drop_first());
        }
    } else if a.len() == 0 && b.len() == 0 {
        assert(a =~= b);
    }
}

/// Of two texts, at most one comes before the other.
pub proof fn lemma_seq_lt_asymmetric(a: Seq<char>, b: Seq<char>)
    requires
        seq_lt(a, b),
    ensures
        !seq_lt(b, a),
    decreases a.len(),
{
    if a.len() > 0 && b.len() > 0 && a[0] == b[0] {
        lemma_seq_lt_asymmetric(a.drop_first(), b.drop_first());
    }
}

/// Whether `a` comes before `b`.
pub fn str_lt(a: &str, b: &str) -> (res: bool)
    ensures
        res == seq_lt(a@, b@),
{
    let x = chars_of(a);
    let y = chars_of(b);
    let mut i: usize = 0;
    assert(x@.skip(0) =~= x@);
    assert(y@.skip(0) =~= y@);
    while i < x.len() && i < y.len() && x[i] == y[i]
        invariant
            i <= x@.len(),
            i <= y@.len(),
            seq_lt(x@, y@) == seq_lt(x@.skip(i as int), y@.skip(i as int)),
        decreases x@.len() - i,
    {
        assert(x@.skip(i as int).drop_first() =~= x@.skip(i + 1));
        assert(y@.skip(i as int).drop_first() =~= y@.skip(i + 1));
        i = i + 1;
    }
    assert(x@.skip(0) =~= x@);
    if i == x.len() {
        i < y.len()
    } else if i == y.len() {
        false
    } else {
        assert(x@.skip(i as int)[0] == x@[i as int]);
        assert(y@.skip(i as int)[0] == y@[i as int]);
        x[i] < y[i]
    }
}


/// The pieces of `s` between occurrences of `c`, as strings.
pub fn split_string(s: &str, c: char) -> (res: Vec<String>)
    ensures
        str_views(res@) == split_char(s@, c),
{
    let v = chars_of(s);
    let pieces = split_in(&v, c);
    let mut res: Vec<String> = Vec::new();
    let mut i: usize = 0;
    while i < pieces.len()
        invariant
            i <= pieces@.len(),
            str_views(res@) == char_views(pieces@).take(i as int),
        decreases pieces@.len() - i,
    {
        let piece = string_of(pieces[i].as_slice());
        let ghost before = res@;
        res.push(piece);
        assert(str_views(res@) =~= str_views(before).push(piece@));
        assert(char_views(pieces@).take(i as int + 1) =~= char_views(pieces@).take(i as int).push(pieces@[i as int]@));
        assert(str_views(res@) =~= char_views(pieces@).take(i as int + 1));
        i = i + 1;
    }
    assert(char_views(pieces@).take(pieces@.len() as int) =~= char_views(pieces@));
    res
}

/// `s` without the occurrences of `c` at its start (what
/// `str::trim_start_matches` with a character gives).
pub open spec fn trim_start_char(s: Seq<char>, c: char) -> Seq<char>
    decreases s.len(),
{
    if s.len() > 0 && s[0] == c {
        trim_start_char(s.drop_first(), c)
    } else {
        s
    }
}

/// `s` without the occurrences of `c` at its end (what
/// `str::trim_end_matches` with a character gives).
pub open spec fn trim_end_char(s: Seq<char>, c: char) -> Seq<char>
    decreases s.len(),
{
    if s.len() > 0 && s.last() == c {
        trim_end_char(s.drop_last(), c)
    } else {
        s
    }
}

proof fn lemma_trim_start_char(s: Seq<char>, c: char, i: int)
    requires
        0 <= i <= s.len(),
        forall|j: int| 0 <= j < i ==> s[j] == c,
    ensures
        trim_start_char(s, c) == trim_start_char(s.skip(i), c),
    decreases i,
{
    if i > 0 {
        lemma_trim_start_char(s.drop_first(), c, i - 1);
        assert(s.drop_first().skip(i - 1) =~= s.skip(i));
    } else {
        assert(s.skip(0) =~= s);
    }
}

proof fn lemma_trim_end_char(s: Seq<char>, c: char, n: int)
    requires
        0 <= n <= s.len(),
        forall|j: int| n <= j < s.len() ==> s[j] == c,
    ensures
        trim_end_char(s, c) == trim_end_char(s.take(n), c),
    decreases s.len() - n,
{
    if n < s.len() {
        lemma_trim_end_char(s.drop_last(), c, n);
        assert(s.drop_last().take(n) =~= s.take(n));
    } else {
        assert(s.take(n) =~= s);
    }
}

/// `s` without the occurrences of `c` at its start.
pub fn trim_start_string(s: &str, c: char) -> (res: String)
    ensures
        res@ == trim_start_char(s@, c),
{
    let v = chars_of(s);
    let mut i: usize = 0;
    while i < v.len() && v[i] == c
        invariant
            i <= v@.len(),
            v@ == s@,
            forall|j: int| 0 <= j < i ==> v@[j] == c,
        decreases v@.len() - i,
    {
        i = i + 1;
    }
    proof {
        lemma_trim_start_char(v@, c, i as int);
    }
    let rest = sub_chars(&v, i, v.len());
    assert(rest@ =~= v@.skip(i as int));
    string_of(rest.as_slice())
}

/// `s` without the occurrences of `c` at its end.
pub fn trim_end_string(s: &str, c: char) -> (res: String)
    ensures
        res@ == trim_end_char(s@, c),
{
    let v = chars_of(s);
    let mut n: usize = v.len();
    while n > 0 && v[n - 1] == c
        invariant
            n <= v@.len(),
            v@ == s@,
            forall|j: int| n <= j < v@.len() ==> v@[j] == c,
        decreases n,
    {
        n = n - 1;
    }
    proof {
        lemma_trim_end_char(v@, c, n as int);
    }
    let rest = sub_chars(&v, 0, n);
    assert(rest@ =~= v@.take(n as int));
    string_of(rest.as_slice())
}

/// Whether `s` holds the character `c`.
pub fn contains_char(s: &str, c: char) -> (res: bool)
    ensures
        res == s@.contains(c),
{
    let v = chars_of(s);
    let mut i: usize = 0;
    while i < v.len()
        invariant
            i <= v@.len(),
            v@ == s@,
            forall|j: int| 0 <= j < i ==> v@[j] != c,
        decreases v@.len() - i,
    {
        if v[i] == c {
            assert(s@[i as int] == c);
            return true;
        }
        i = i + 1;
    }
    false
}

/// `x` put into the ascending `sorted`, after the parts that do not come
/// after it.
pub open spec fn insert_sorted(sorted: Seq<Seq<char>>, x: Seq<char>) -> Seq<Seq<char>>
    decreases sorted.len(),
{
    if sorted.len() == 0 {
        seq![x]
    } else if seq_lt(x, sorted[0]) {
        seq![x] + sorted
    } else {
        seq![sorted[0]] + insert_sorted(sorted.drop_first(), x)
    }
}

/// `s` in ascending order (what `sort` makes of a vector of strings).
pub open spec fn sort_strs(s: Seq<Seq<char>>) -> Seq<Seq<char>>
    decreases s.len(),
{
    if s.len() == 0 {
        s
    } else {
        insert_sorted(sort_strs(s.drop_last()), s.last())
    }
}

proof fn lemma_insert_sorted_prefix(sorted: Seq<Seq<char>>, x: Seq<char>, i: int)
    requires
        0 <= i <= sorted.len(),
        forall|j: int| 0 <= j < i ==> !seq_lt(x, #[trigger] sorted[j]),
    ensures
        insert_sorted(sorted, x) == sorted.take(i) + insert_sorted(sorted.skip(i), x),
    decreases i,
{
    if i > 0 {
        let rest = sorted.drop_first();
        assert forall|j: int| 0 <= j < i - 1 implies !seq_lt(x, #[trigger] rest[j]) by {
            assert(rest[j] == sorted[j + 1]);
        }
        lemma_insert_sorted_prefix(rest, x, i - 1);
        assert(rest.skip(i - 1) =~= sorted.skip(i));
        assert(sorted.take(i) =~= seq![sorted[0]] + rest.take(i - 1));
    } else {
        assert(sorted.skip(0) =~= sorted);
    }
}

/// Sorts `v` in ascending order.
pub fn sort_strings(v: &mut Vec<String>)
    ensures
        str_views(final(v)@) == sort_strs(str_views(old(v)@)),
{
    let ghost input = str_views(v@);
    let mut res: Vec<String> = Vec::new();
    let mut i: usize = 0;
    assert(input.take(0) =~= Seq::<Seq<char>>::empty());
    while i < v.len()
        invariant
            i <= v@.len(),
            input == str_views(v@),
            str_views(res@) == sort_strs(input.take(i as int)),
        decreases v@.len() - i,
    {
        let x = v[i].clone();
        let mut p: usize = 0;
        while p < res.len() && !str_lt(x.as_str(), res[p].as_str())
            invariant
                p <= res@.len(),
                forall|j: int| 0 <= j < p ==> !seq_lt(x@, #[trigger] str_views(res@)[j]),
            decreases res@.len() - p,
        {
            p = p + 1;
        }
        proof {
            let sorted = str_views(res@);
            lemma_insert_sorted_prefix(sorted, x@, p as int);
            let t = input.take(i as int + 1);
            assert(t.drop_last() =~= input.take(i as int));
            assert(t.last() == x@);
            if p < res@.len() {
                assert(sorted.skip(p as int)[0] == sorted[p as int]);
                assert(insert_sorted(sorted.skip(p as int), x@) =~= seq![x@] + sorted.skip(p as int));
            } else {
                assert(insert_sorted(sorted.skip(p as int), x@) =~= seq![x@]);
            }
        }
        let ghost before = res@;
        res.insert(p, x);
        assert(str_views(res@) =~= str_views(before).take(p as int) + (seq![x@] + str_views(before).skip(p as int)));
        i = i + 1;
    }
    assert(input.take(v@.len() as int) =~= input);
    *v = res;
}


/// The lines of all of `texts`, in order: each text split at `\n`.
pub open spec fn lines_of_all(texts: Seq<Seq<char>>) -> Seq<Seq<char>>
    decreases texts.len(),
{
    if texts.len() == 0 {
        Seq::empty()
    } else {
        lines_of_all(texts.drop_last()) + split_char(texts.last(), '\n')
    }
}

/// The lines of all of `texts`.
pub fn split_all_lines(texts: &Vec<String>) -> (res: Vec<String>)
    ensures
        str_views(res@) == lines_of_all(str_views(texts@)),
{
    let mut res: Vec<String> = Vec::new();
    let mut i: usize = 0;
    assert(str_views(texts@).take(0) =~= Seq::<Seq<char>>::empty());
    while i < texts.len()
        invariant
            i <= texts@.len(),
            str_views(res@) == lines_of_all(str_views(texts@).take(i as int)),
        decreases texts@.len() - i,
    {
        let mut pieces = split_string(texts[i].as_str(), '\n');
        let ghost before = res@;
        res.append(&mut pieces);
        proof {
            let t = str_views(texts@).take(i as int + 1);
            assert(t.drop_last() =~= str_views(texts@).take(i as int));
            assert(t.last() == texts@[i as int]@);
            assert(str_views(res@) =~= str_views(before) + split_char(texts@[i as int]@, '\n'));
        }
        i = i + 1;
    }
    assert(str_views(texts@).take(texts@.len() as int) =~= str_views(texts@));
    res
}

/// `line` with `prefix` before it, unless it is empty.
pub open spec fn prefixed(prefix: Seq<char>, line: Seq<char>) -> Seq<char> {
    if line.len() == 0 {
        line
    } else {
        prefix + line
    }
}

/// Each of `lines` with `prefix` before it, but the empty ones.
pub open spec fn prefix_lines(prefix: Seq<char>, lines: Seq<Seq<char>>) -> Seq<Seq<char>> {
    lines.map_values(|l: Seq<char>| prefixed(prefix, l))
}

/// Puts `prefix` before each of `lines` that is not empty.
pub fn prefix_nonempty(prefix: &str, lines: &Vec<String>) -> (res: Vec<String>)
    ensures
        str_views(res@) == prefix_lines(prefix@, str_views(lines@)),
{
    let mut res: Vec<String> = Vec::new();
    let mut i: usize = 0;
    while i < lines.len()
        invariant
            i <= lines@.len(),
            str_views(res@) == prefix_lines(prefix@, str_views(lines@).take(i as int)),
        decreases lines@.len() - i,
    {
        let line = if lines[i].unicode_len() == 0 {
            lines[i].clone()
        } else {
            let mut l = prefix.to_owned();
            l.append(lines[i].as_str());
            l
        };
        assert(line@ == prefixed(prefix@, lines@[i as int]@));
        let ghost before = res@;
        res.push(line);
        assert(str_views(res@) =~= str_views(before).push(line@));
        assert(prefix_lines(prefix@, str_views(lines@).take(i as int + 1)) =~= prefix_lines(prefix@, str_views(lines@).take(i as int)).push(prefixed(prefix@, lines@[i as int]@)));
        i = i + 1;
    }
    assert(str_views(lines@).take(lines@.len() as int) =~= str_views(lines@));
    res
}

/// Each of `lines` between `before` and `after`, concatenated.
pub open spec fn wrap_lines(before: Seq<char>, lines: Seq<Seq<char>>, after: Seq<char>) -> Seq<char> {
    concat(lines.map_values(|l: Seq<char>| before + l + after))
}

/// Concatenates each of `lines` between `before` and `after`.
pub fn wrap_each(before: &str, lines: &Vec<String>, after: &str) -> (res: String)
    ensures
        res@ == wrap_lines(before@, str_views(lines@), after@),
{
    let mut res = String::new();
    let mut i: usize = 0;
    let ghost f = |l: Seq<char>| before@ + l + after@;
    while i < lines.len()
        invariant
            i <= lines@.len(),
            f == (|l: Seq<char>| before@ + l + after@),
            res@ == concat(str_views(lines@).take(i as int).map_values(f)),
        decreases lines@.len() - i,
    {
        proof {
            let t = str_views(lines@).take(i as int + 1).map_values(f);
            assert(t.drop_last() =~= str_views(lines@).take(i as int).map_values(f));
            assert(t.last() == before@ + lines@[i as int]@ + after@);
        }
        if i == 0 {
            assert(str_views(lines@).take(0).map_values(f) =~= Seq::<Seq<char>>::empty());
        }
        res.append(before);
        res.append(lines[i].as_str());
        res.append(after);
        i = i + 1;
    }
    assert(str_views(lines@).take(lines@.len() as int) =~= str_views(lines@));
    res
}


/// Whether `s` begins with `p`.
pub fn string_starts_with(s: &str, p: &str) -> (res: bool)
    ensures
        res == starts_with(s@, p@),
{
    let v = chars_of(s);
    let w = chars_of(p);
    assert(v@.skip(0) =~= v@);
    starts_with_at(&v, 0, &w)
}


/// `x` put into the strictly ascending `sorted`, unless it is there already
/// (what `BTreeSet::insert` does to the order of a set of strings).
pub open spec fn set_insert(sorted: Seq<Seq<char>>, x: Seq<char>) -> Seq<Seq<char>>
    decreases sorted.len(),
{
    if sorted.len() == 0 {
        seq![x]
    } else if x == sorted[0] {
        sorted
    } else if seq_lt(x, sorted[0]) {
        seq![x] + sorted
    } else {
        seq![sorted[0]] + set_insert(sorted.drop_first(), x)
    }
}

proof fn lemma_set_insert_prefix(sorted: Seq<Seq<char>>, x: Seq<char>, i: int)
    requires
        0 <= i <= sorted.len(),
        forall|j: int| 0 <= j < i ==> seq_lt(#[trigger] sorted[j], x),
    ensures
        set_insert(sorted, x) == sorted.take(i) + set_insert(sorted.skip(i), x),
    decreases i,
{
    if i > 0 {
        let rest = sorted.drop_first();
        lemma_seq_lt_asymmetric(sorted[0], x);
        lemma_seq_lt_irreflexive(x);
        assert forall|j: int| 0 <= j < i - 1 implies seq_lt(#[trigger] rest[j], x) by {
            assert(rest[j] == sorted[j + 1]);
        }
        lemma_set_insert_prefix(rest, x, i - 1);
        assert(rest.skip(i - 1) =~= sorted.skip(i));
        assert(sorted.take(i) =~= seq![sorted[0]] + rest.take(i - 1));
    } else {
        assert(sorted.skip(0) =~= sorted);
    }
}

/// Puts `x` into the ascending `v`, unless it is there already.
pub fn insert_distinct(v: &mut Vec<String>, x: String)
    ensures
        str_views(final(v)@) == set_insert(str_views(old(v)@), x@),
{
    let ghost sorted = str_views(v@);
    let mut p: usize = 0;
    while p < v.len() && str_lt(v[p].as_str(), x.as_str())
        invariant
            p <= v@.len(),
            sorted == str_views(v@),
            forall|j: int| 0 <= j < p ==> seq_lt(#[trigger] sorted[j], x@),
        decreases v@.len() - p,
    {
        p = p + 1;
    }
    proof {
        lemma_set_insert_prefix(sorted, x@, p as int);
    }
    if p < v.len() && str_eq(v[p].as_str(), x.as_str()) {
        assert(sorted.skip(p as int)[0] == sorted[p as int]);
        assert(sorted.take(p as int) + sorted.skip(p as int) =~= sorted);
    } else {
        proof {
            if p < sorted.len() {
                assert(sorted.skip(p as int)[0] == sorted[p as int]);
                lemma_seq_lt_total(x@, sorted[p as int]);
                assert(set_insert(sorted.skip(p as int), x@) =~= seq![x@] + sorted.skip(p as int));
            } else {
                assert(set_insert(sorted.skip(p as int), x@) =~= seq![x@]);
            }
        }
        let ghost xv = x@;
        v.insert(p, x);
        assert(str_views(v@) =~= sorted.take(p as int) + (seq![xv] + sorted.skip(p as int)));
    }
}

/// The texts among `s`, in order.
pub open spec fn somes(s: Seq<Option<Seq<char>>>) -> Seq<Seq<char>>
    decreases s.len(),
{
    if s.len() == 0 {
        Seq::empty()
    } else {
        match s.last() {
            Some(t) => somes(s.drop_last()).push(t),
            None => somes(s.drop_last()),
        }
    }
}


/// `s` with white space removed at its end.
pub fn trim_end_string_ws(s: &str) -> (res: String)
    ensures
        res@ == trim_end(s@),
{
    let v = chars_of(s);
    let mut end: usize = v.len();
    while end > 0 && char_is_ws(v[end - 1])
        invariant
            end <= v@.len(),
            v@ == s@,
            forall|j: int| end <= j < v@.len() ==> is_ws(#[trigger] v@[j]),
        decreases end,
    {
        end = end - 1;
    }
    proof {
        lemma_trim_end_take(v@, end as int);
        let u = v@.take(end as int);
        if u.len() > 0 {
            assert(u.last() == v@[end - 1]);
        }
    }
    let rest = sub_chars(&v, 0, end);
    assert(rest@ =~= v@.take(end as int));
    string_of(rest.as_slice())
}


/// Whether a list of texts is in ascending order (what a sort leaves).
pub open spec fn ascending(v: Seq<Seq<char>>) -> bool {
    forall|i: int, j: int| 0 <= i < j < v.len() ==> !seq_lt(#[trigger] v[j], #[trigger] v[i])
}

/// Whether a list of texts is strictly ascending, so that it holds each
/// text once, in the order of a `BTreeSet`.
pub open spec fn strictly_sorted(v: Seq<Seq<char>>) -> bool {
    forall|i: int, j: int| 0 <= i < j < v.len() ==> seq_lt(#[trigger] v[i], #[trigger] v[j])
}

proof fn lemma_cons_contains(a: Seq<char>, b: Seq<Seq<char>>, y: Seq<char>)
    ensures
        (seq![a] + b).contains(y) <==> (y == a || b.contains(y)),
{
    let c = seq![a] + b;
    if c.contains(y) {
        let k = choose|k: int| 0 <= k < c.len() && c[k] == y;
        if k > 0 {
            assert(b[k - 1] == y);
        }
    }
    if b.contains(y) {
        let k = choose|k: int| 0 <= k < b.len() && b[k] == y;
        assert(c[k + 1] == y);
    }
    if y == a {
        assert(c[0] == y);
    }
}

proof fn lemma_cons_multiset(a: Seq<char>, b: Seq<Seq<char>>)
    ensures
        (seq![a] + b).to_multiset() =~= b.to_multiset().insert(a),
{
    assert(seq![a] + b =~= b.insert(0, a));
    broadcast use vstd::seq_lib::group_to_multiset_ensures;
}

/// Inserting a text into a strictly ascending list, as `insert_distinct`
/// does, keeps the list strictly ascending, and the texts it holds are
/// those it held and the new one.
pub proof fn lemma_set_insert_keeps_set(sorted: Seq<Seq<char>>, x: Seq<char>)
    requires
        strictly_sorted(sorted),
    ensures
        strictly_sorted(set_insert(sorted, x)),
        forall|y: Seq<char>| #[trigger] set_insert(sorted, x).contains(y) <==> (sorted.contains(y) || y == x),
    decreases sorted.len(),
{
    let r = set_insert(sorted, x);
    if sorted.len() == 0 {
        assert(r =~= seq![x] + sorted);
        assert forall|y: Seq<char>| r.contains(y) <==> (sorted.contains(y) || y == x) by {
            lemma_cons_contains(x, sorted, y);
        }
    } else if x == sorted[0] {
        assert(sorted.contains(x));
    } else if seq_lt(x, sorted[0]) {
        assert(r =~= seq![x] + sorted);
        assert forall|i: int, j: int| 0 <= i < j < r.len() implies seq_lt(#[trigger] r[i], #[trigger] r[j]) by {
            if i == 0 {
                if j > 1 {
                    lemma_seq_lt_transitive(x, sorted[0], sorted[j - 1]);
                }
            }
        }
        assert forall|y: Seq<char>| r.contains(y) <==> (sorted.contains(y) || y == x) by {
            lemma_cons_contains(x, sorted, y);
        }
    } else {
        let rest = sorted.drop_first();
        assert(strictly_sorted(rest)) by {
            assert forall|i: int, j: int| 0 <= i < j < rest.len() implies seq_lt(#[trigger] rest[i], #[trigger] rest[j]) by {
                assert(rest[i] == sorted[i + 1] && rest[j] == sorted[j + 1]);
            }
        }
        lemma_set_insert_keeps_set(rest, x);
        let r2 = set_insert(rest, x);
        assert(r =~= seq![sorted[0]] + r2);
        lemma_seq_lt_total(x, sorted[0]);
        assert forall|k: int| 0 <= k < r2.len() implies seq_lt(sorted[0], #[trigger] r2[k]) by {
            assert(r2.contains(r2[k]));
            if r2[k] != x {
                let m = choose|m: int| 0 <= m < rest.len() && rest[m] == r2[k];
                assert(sorted[m + 1] == r2[k]);
            }
        }
        assert forall|i: int, j: int| 0 <= i < j < r.len() implies seq_lt(#[trigger] r[i], #[trigger] r[j]) by {
            if i == 0 {
                assert(r[j] == r2[j - 1]);
            } else {
                assert(r[i] == r2[i - 1] && r[j] == r2[j - 1]);
            }
        }
        assert forall|y: Seq<char>| r.contains(y) <==> (sorted.contains(y) || y == x) by {
            lemma_cons_contains(sorted[0], r2, y);
            lemma_cons_contains(sorted[0], rest, y);
            assert(sorted =~= seq![sorted[0]] + rest);
        }
    }
}

proof fn lemma_insert_sorted_keeps_order(sorted: Seq<Seq<char>>, x: Seq<char>)
    requires
        ascending(sorted),
    ensures
        ascending(insert_sorted(sorted, x)),
        insert_sorted(sorted, x).to_multiset() =~= sorted.to_multiset().insert(x),
    decreases sorted.len(),
{
    let r = insert_sorted(sorted, x);
    if sorted.len() == 0 {
        assert(r =~= seq![x] + sorted);
        lemma_cons_multiset(x, sorted);
    } else if seq_lt(x, sorted[0]) {
        assert(r =~= seq![x] + sorted);
        lemma_cons_multiset(x, sorted);
        assert forall|i: int, j: int| 0 <= i < j < r.len() implies !seq_lt(#[trigger] r[j], #[trigger] r[i]) by {
            if i == 0 {
                if seq_lt(sorted[j - 1], x) {
                    lemma_seq_lt_transitive(sorted[j - 1], x, sorted[0]);
                    if j == 1 {
                        lemma_seq_lt_irreflexive(sorted[0]);
                    }
                }
            }
        }
    } else {
        let rest = sorted.drop_first();
        assert(ascending(rest)) by {
            assert forall|i: int, j: int| 0 <= i < j < rest.len() implies !seq_lt(#[trigger] rest[j], #[trigger] rest[i]) by {
                assert(rest[i] == sorted[i + 1] && rest[j] == sorted[j + 1]);
            }
        }
        lemma_insert_sorted_keeps_order(rest, x);
        let r2 = insert_sorted(rest, x);
        assert(r =~= seq![sorted[0]] + r2);
        lemma_cons_multiset(sorted[0], r2);
        lemma_cons_multiset(sorted[0], rest);
        assert(sorted =~= seq![sorted[0]] + rest);
        assert forall|k: int| 0 <= k < r2.len() implies !seq_lt(#[trigger] r2[k], sorted[0]) by {
            assert(r2.to_multiset().count(r2[k]) > 0) by {
                assert(r2.contains(r2[k]));
                broadcast use vstd::seq_lib::group_to_multiset_ensures;
            }
            if r2[k] != x {
                assert(rest.to_multiset().count(r2[k]) > 0);
                assert(rest.contains(r2[k])) by {
                    broadcast use vstd::seq_lib::group_to_multiset_ensures;
                }
                let m = choose|m: int| 0 <= m < rest.len() && rest[m] == r2[k];
                assert(sorted[m + 1] == r2[k]);
            }
        }
        assert forall|i: int, j: int| 0 <= i < j < r.len() implies !seq_lt(#[trigger] r[j], #[trigger] r[i]) by {
            if i == 0 {
                assert(r[j] == r2[j - 1]);
            } else {
                assert(r[i] == r2[i - 1] && r[j] == r2[j - 1]);
            }
        }
    }
}

/// What `sort_strings` makes of a list is in ascending order and holds the
/// same texts, each as often.
pub proof fn lemma_sort_strs_sorts(s: Seq<Seq<char>>)
    ensures
        ascending(sort_strs(s)),
        sort_strs(s).to_multiset() =~= s.to_multiset(),
    decreases s.len(),
{
    if s.len() > 0 {
        lemma_sort_strs_sorts(s.drop_last());
        lemma_insert_sorted_keeps_order(sort_strs(s.drop_last()), s.last());
        assert(s =~= s.drop_last().push(s.last()));
        broadcast use vstd::seq_lib::group_to_multiset_ensures;
    }
}


/// A decimal digit's character reads back as the digit.
proof fn lemma_digit_char(k: nat)
    requires
        k < 10,
    ensures
        is_digit(digit_char(k)),
        digit_value(digit_char(k)) == k,
        !is_ws(digit_char(k)),
        digit_char(k) != '+',
        digit_char(k) != ';',
{
    assert((('0' as u32) + k) as char as u32 == ('0' as u32) + k);
}

/// The decimal rendering of a number is made of digits and reads back as
/// the number.
pub proof fn lemma_decimal(n: nat)
    ensures
        decimal(n).len() > 0,
        forall|i: int| 0 <= i < decimal(n).len() ==> is_digit(#[trigger] decimal(n)[i]),
        forall|i: int| 0 <= i < decimal(n).len() ==> !is_ws(#[trigger] decimal(n)[i]) && decimal(n)[i] != ';',
        digits_value(decimal(n)) == n,
    decreases n,
{
    if n < 10 {
        lemma_digit_char(n);
        assert(decimal(n).drop_last() =~= Seq::<char>::empty());
        assert(digits_value(decimal(n)) == digits_value(Seq::<char>::empty()) * 10 + digit_value(decimal(n).last()));
    } else {
        lemma_decimal(n / 10);
        lemma_digit_char(n % 10);
        let d = decimal(n);
        assert(d.drop_last() =~= decimal(n / 10));
        assert(d.last() == digit_char(n % 10));
        assert((n / 10) * 10 + n % 10 == n) by (nonlinear_arith);
        assert(digits_value(d) == digits_value(decimal(n / 10)) * 10 + digit_value(d.last()));
        assert forall|i: int| 0 <= i < d.len() implies is_digit(#[trigger] d[i]) && !is_ws(d[i]) && d[i] != ';' by {
            if i < d.len() - 1 {
                assert(d[i] == decimal(n / 10)[i]);
            }
        }
    }
}

/// `usize::from_str` reads a number's decimal rendering back as the number.
pub proof fn lemma_parse_decimal(n: usize)
    ensures
        parse_usize(decimal(n as nat)) == Some(n),
        trim(decimal(n as nat)) == decimal(n as nat),
        forall|i: int| 0 <= i < decimal(n as nat).len() ==> #[trigger] decimal(n as nat)[i] != ';',
{
    lemma_decimal(n as nat);
    let d = decimal(n as nat);
    assert(is_digit(d[0]));
    assert(unsigned_digits(d) == d);
    assert(!is_ws(d[0]));
    assert(trim_start(d) == d);
    assert(!is_ws(d.last()));
    assert(trim_end(d) == d);
}


/// Splitting at `c` around an occurrence of `c` splits each side.
pub proof fn lemma_split_concat(x: Seq<char>, y: Seq<char>, c: char)
    ensures
        split_char(x + seq![c] + y, c) == split_char(x, c) + split_char(y, c),
    decreases x.len(),
{
    let s = x + seq![c] + y;
    if exists|i: int| 0 <= i < x.len() && x[i] == c {
        let i = choose|i: int| 0 <= i < x.len() && x[i] == c && forall|j: int| 0 <= j < i ==> x[j] != c;
        assert(exists|i: int| 0 <= i < x.len() && x[i] == c && forall|j: int| 0 <= j < i ==> x[j] != c) by {
            let k = choose|k: int| 0 <= k < x.len() && x[k] == c;
            lemma_first_occurrence(x, c, k);
        }
        assert(s[i] == x[i]);
        assert forall|j: int| 0 <= j < i implies s[j] != c by {
            assert(s[j] == x[j]);
        }
        lemma_split_step(s, c, i);
        lemma_split_step(x, c, i);
        assert(s.take(i) =~= x.take(i));
        assert(s.skip(i + 1) =~= x.skip(i + 1) + seq![c] + y);
        lemma_split_concat(x.skip(i + 1), y, c);
        assert(split_char(s, c) =~= split_char(x, c) + split_char(y, c));
    } else {
        let i = x.len() as int;
        assert(s[i] == c);
        assert forall|j: int| 0 <= j < i implies s[j] != c by {
            assert(s[j] == x[j]);
        }
        lemma_split_step(s, c, i);
        lemma_split_none(x, c);
        assert(s.take(i) =~= x);
        assert(s.skip(i + 1) =~= y);
    }
}

proof fn lemma_first_occurrence(x: Seq<char>, c: char, k: int)
    requires
        0 <= k < x.len(),
        x[k] == c,
    ensures
        exists|i: int| 0 <= i < x.len() && x[i] == c && forall|j: int| 0 <= j < i ==> x[j] != c,
    decreases k,
{
    if exists|j: int| 0 <= j < k && x[j] == c {
        let j = choose|j: int| 0 <= j < k && x[j] == c;
        lemma_first_occurrence(x, c, j);
    } else {
        assert(forall|j: int| 0 <= j < k ==> x[j] != c);
    }
}

} // verus!
