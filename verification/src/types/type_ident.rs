use vstd::prelude::*;
use crate::primitives::{
    js_array_name_of, lemma_primitive_name_round_trip, primitive_from_chars, primitive_from_name,
    primitive_name, unknown_primitive_message, Primitive,
};
use crate::text::{
    chars_of, decimal, decimal_string, find_char, find_in, join, join_strings, parse_usize,
    parse_usize_in, rfind_char, rfind_in, split_char, split_in, split_once_char, str_views,
    string_of, sub_chars, trim, trim_chars, char_views, is_ws, char_is_ws,
    lemma_parse_decimal, lemma_split_none, lemma_split_step,
};
use super::{filter_runtime_bounds, runtime_bounds};

verus! {

/// The identifier of a type: its name, its generic arguments with their
/// bounds and, for arrays, the array's length.
#[derive(Debug, PartialEq, Eq, Hash)]
pub struct TypeIdent {
    pub name: String,
    pub generic_args: Vec<(TypeIdent, Vec<String>)>,
    /// If this TypeIdent represents an array this field will store the length
    /// (which is never zero).
    pub array: Option<usize>,
}

/// The mathematical value of a `TypeIdent`.
pub struct IdentView {
    pub name: Seq<char>,
    pub generic_args: Seq<(IdentView, Seq<Seq<char>>)>,
    pub array: Option<usize>,
}

pub open spec fn ident_view(t: TypeIdent) -> IdentView
    decreases t,
{
    IdentView { name: t.name@, generic_args: args_view(t.generic_args@), array: t.array }
}

pub open spec fn args_view(a: Seq<(TypeIdent, Vec<String>)>) -> Seq<(IdentView, Seq<Seq<char>>)>
    decreases a,
{
    if a.len() == 0 {
        Seq::empty()
    } else {
        args_view(a.drop_last()).push((ident_view(a.last().0), str_views(a.last().1@)))
    }
}

impl View for TypeIdent {
    type V = IdentView;

    open spec fn view(&self) -> IdentView {
        ident_view(*self)
    }
}


/// Clones every element of a list of strings.
pub fn clone_strings(v: &Vec<String>) -> (res: Vec<String>)
    ensures
        str_views(res@) == str_views(v@),
{
    let mut res: Vec<String> = Vec::new();
    let mut i: usize = 0;
    while i < v.len()
        invariant
            i <= v@.len(),
            res@.len() == i,
            str_views(res@) == str_views(v@).take(i as int),
        decreases v@.len() - i,
    {
        let c = v[i].clone();
        let ghost before = res@;
        res.push(c);
        assert(res@ == before.push(c));
        assert(c@ == v@[i as int]@);
        assert forall|k: int| 0 <= k < i + 1 implies str_views(res@)[k] == str_views(v@).take(i as int + 1)[k] by {
            if k < i {
                assert(str_views(before)[k] == str_views(v@).take(i as int)[k]);
                assert(res@[k] == before[k]);
            }
        }
        assert(str_views(res@) =~= str_views(v@).take(i as int + 1));
        i = i + 1;
    }
    assert(str_views(v@).take(v@.len() as int) =~= str_views(v@));
    res
}

impl Clone for TypeIdent {
    fn clone(&self) -> (res: Self)
        ensures
            res@ == self@,
        decreases self,
    {
        let mut args: Vec<(TypeIdent, Vec<String>)> = Vec::new();
        let mut i: usize = 0;
        while i < self.generic_args.len()
            invariant
                i <= self.generic_args@.len(),
                args_view(args@) == args_view(self.generic_args@.take(i as int)),
            decreases self.generic_args@.len() - i,
        {
            let arg = &self.generic_args[i];
            assert(decreases_to!(self => self.generic_args@[i as int].0));
            let id = arg.0.clone();
            let bounds = clone_strings(&arg.1);
            let ghost before = args@;
            args.push((id, bounds));
            proof {
                assert(args@.drop_last() =~= before);
                let t = self.generic_args@.take(i as int + 1);
                assert(t.drop_last() =~= self.generic_args@.take(i as int));
                assert(t.last() == self.generic_args@[i as int]);
            }
            i = i + 1;
        }
        assert(self.generic_args@.take(self.generic_args@.len() as int) =~= self.generic_args@);
        TypeIdent { name: self.name.clone(), generic_args: args, array: self.array }
    }
}

/// What a text form of a type identifier is read as: an identifier, the
/// message with which the text is refused, or a panic.
pub enum Outcome<T> {
    Done(T),
    Failed(Seq<char>),
    Panics,
}

pub open spec fn array_syntax_message(s: Seq<char>) -> Seq<char> {
    "Invalid array syntax in: "@ + s
}

pub open spec fn array_length_message(s: Seq<char>) -> Seq<char> {
    "Invalid array length in: "@ + s
}

pub open spec fn array_element_message(s: Seq<char>) -> Seq<char> {
    "Only arrays of primitives supported by Javascript are allowed, found: "@ + s
}

/// Whether `c` is dropped from the end of a type's name.
pub open spec fn is_name_trailer(c: char) -> bool {
    is_ws(c) || c == ':'
}

/// `s` without trailing white space and colons.
pub open spec fn trim_name(s: Seq<char>) -> Seq<char>
    decreases s.len(),
{
    if s.len() > 0 && is_name_trailer(s.last()) {
        trim_name(s.drop_last())
    } else {
        s
    }
}

/// The trimmed, non-empty pieces of `pieces`, in order.
pub open spec fn nonempty_trimmed(pieces: Seq<Seq<char>>) -> Seq<Seq<char>>
    decreases pieces.len(),
{
    if pieces.len() == 0 {
        Seq::empty()
    } else if trim(pieces.last()).len() > 0 {
        nonempty_trimmed(pieces.drop_last()).push(trim(pieces.last()))
    } else {
        nonempty_trimmed(pieces.drop_last())
    }
}

/// The bounds written after a generic argument's colon.
pub open spec fn bound_names(bounds: Seq<char>) -> Seq<Seq<char>> {
    nonempty_trimmed(split_char(bounds, '+'))
}

/// The argument and the bounds of one generic argument's text.
pub open spec fn arg_and_bounds(piece: Seq<char>) -> (Seq<char>, Seq<char>) {
    match split_once_char(piece, ':') {
        Some(p) => p,
        None => (piece, Seq::empty()),
    }
}

/// Trimming never lengthens a text.
pub proof fn lemma_trim_len(s: Seq<char>)
    ensures
        trim(s).len() <= s.len(),
{
    lemma_trim_start_len(s);
    lemma_trim_end_len(crate::text::trim_start(s));
}

proof fn lemma_trim_start_len(s: Seq<char>)
    ensures
        crate::text::trim_start(s).len() <= s.len(),
    decreases s.len(),
{
    if s.len() > 0 && is_ws(s[0]) {
        lemma_trim_start_len(s.drop_first());
    }
}

proof fn lemma_trim_end_len(s: Seq<char>)
    ensures
        crate::text::trim_end(s).len() <= s.len(),
    decreases s.len(),
{
    if s.len() > 0 && is_ws(s.last()) {
        lemma_trim_end_len(s.drop_last());
    }
}

/// A split gives at least one piece, and no piece is longer than the text.
pub proof fn lemma_split_pieces(s: Seq<char>, c: char)
    ensures
        split_char(s, c).len() >= 1,
        forall|i: int| 0 <= i < split_char(s, c).len() ==> (#[trigger] split_char(s, c)[i]).len() <= s.len(),
    decreases s.len(),
{
    reveal(split_char);
    match find_char(s, c) {
        Some(i) => {
            if 0 <= i < s.len() {
                lemma_split_pieces(s.skip(i + 1), c);
                let rest = split_char(s.skip(i + 1), c);
                assert forall|k: int| 0 <= k < split_char(s, c).len() implies (#[trigger] split_char(s, c)[k]).len() <= s.len() by {
                    if k > 0 {
                        assert(split_char(s, c)[k] == rest[k - 1]);
                    }
                }
            }
        },
        None => {},
    }
}

/// The identifier that `TypeIdent::from_str` reads from `s`.
pub open spec fn parse_type_ident(s: Seq<char>) -> Outcome<IdentView>
    decreases s.len(), 2nat, 0nat,
{
    if s.len() > 0 && s[0] == '[' {
        if s.len() >= 2 && s.last() == ']' {
            let inner = s.subrange(1, s.len() - 1);
            let parts = split_char(inner, ';');
            if parts.len() < 2 {
                Outcome::Panics
            } else {
                let element = trim(parts[0]);
                match parse_usize(trim(parts[1])) {
                    None => Outcome::Failed(array_length_message(s)),
                    Some(len) => match primitive_from_name(element) {
                        None => Outcome::Failed(unknown_primitive_message(element)),
                        Some(p) => if js_array_name_of(p) is None {
                            Outcome::Failed(array_element_message(s))
                        } else {
                            proof {
                                lemma_split_pieces(inner, ';');
                                lemma_trim_len(parts[0]);
                            }
                            parse_plain(element, if len == 0 { None } else { Some(len) })
                        },
                    },
                }
            }
        } else {
            Outcome::Failed(array_syntax_message(s))
        }
    } else {
        parse_plain(s, None)
    }
}

/// The identifier read from `string` once any array brackets are gone.
pub open spec fn parse_plain(string: Seq<char>, array: Option<usize>) -> Outcome<IdentView>
    decreases string.len(), 1nat, 0nat,
{
    match find_char(string, '<') {
        Some(start) => {
            let end = match rfind_char(string, '>') {
                Some(e) => e,
                None => string.len() as int,
            };
            if end < start + 1 {
                Outcome::Panics
            } else {
                let name = trim_name(string.take(start));
                let pieces = split_char(string.subrange(start + 1, end), ',');
                match parse_args(pieces, string.len()) {
                    Outcome::Done(args) => Outcome::Done(
                        IdentView { name, generic_args: args, array },
                    ),
                    Outcome::Failed(e) => Outcome::Failed(e),
                    Outcome::Panics => Outcome::Panics,
                }
            }
        },
        None => Outcome::Done(IdentView { name: string, generic_args: Seq::empty(), array }),
    }
}

/// One generic argument with its bounds, read from its text.
pub open spec fn parse_piece(piece: Seq<char>) -> Outcome<(IdentView, Seq<Seq<char>>)>
    decreases piece.len(), 3nat, 0nat,
{
    let (arg, bounds) = arg_and_bounds(piece);
    let a = trim(arg);
    if a.len() <= piece.len() {
        match parse_type_ident(a) {
            Outcome::Done(id) => Outcome::Done((id, bound_names(bounds))),
            Outcome::Failed(e) => Outcome::Failed(e),
            Outcome::Panics => Outcome::Panics,
        }
    } else {
        Outcome::Panics
    }
}

/// The generic arguments read from `pieces`, each shorter than `bound`,
/// from the first to the last; the first that is refused decides.
pub open spec fn parse_args(pieces: Seq<Seq<char>>, bound: nat) -> Outcome<
    Seq<(IdentView, Seq<Seq<char>>)>,
>
    decreases bound, 0nat, pieces.len(),
{
    if pieces.len() == 0 {
        Outcome::Done(Seq::empty())
    } else if pieces[0].len() < bound {
        match parse_piece(pieces[0]) {
            Outcome::Done(x) => match parse_args(pieces.drop_first(), bound) {
                Outcome::Done(rest) => Outcome::Done(seq![x] + rest),
                Outcome::Failed(e) => Outcome::Failed(e),
                Outcome::Panics => Outcome::Panics,
            },
            Outcome::Failed(e) => Outcome::Failed(e),
            Outcome::Panics => Outcome::Panics,
        }
    } else {
        Outcome::Panics
    }
}

/// Whether `res` is what the outcome `o` describes.
pub open spec fn ident_result_matches(res: Result<TypeIdent, String>, o: Outcome<IdentView>) -> bool {
    match o {
        Outcome::Done(v) => res matches Ok(t) && t@ == v,
        Outcome::Failed(e) => res matches Err(m) && m@ == e,
        Outcome::Panics => false,
    }
}

/// The arguments `done` followed by what `o` reads.
pub open spec fn prepend_args(
    done: Seq<(IdentView, Seq<Seq<char>>)>,
    o: Outcome<Seq<(IdentView, Seq<Seq<char>>)>>,
) -> Outcome<Seq<(IdentView, Seq<Seq<char>>)>> {
    match o {
        Outcome::Done(rest) => Outcome::Done(done + rest),
        Outcome::Failed(e) => Outcome::Failed(e),
        Outcome::Panics => Outcome::Panics,
    }
}

/// `v` without trailing white space and colons.
pub fn trim_name_chars(v: &[char]) -> (res: Vec<char>)
    ensures
        res@ == trim_name(v@),
{
    let mut end: usize = v.len();
    assert(v@.take(v@.len() as int) =~= v@);
    while end > 0 && (char_is_ws(v[end - 1]) || v[end - 1] == ':')
        invariant
            end <= v@.len(),
            trim_name(v@) == trim_name(v@.take(end as int)),
        decreases end,
    {
        assert(v@.take(end as int).last() == v@[end - 1]);
        assert(v@.take(end as int).drop_last() =~= v@.take(end - 1));
        end = end - 1;
    }
    proof {
        let t = v@.take(end as int);
        if t.len() > 0 {
            assert(t.last() == v@[end - 1]);
        }
        assert(t =~= v@.subrange(0, end as int));
    }
    sub_chars(v, 0, end)
}

/// The trimmed, non-empty pieces of the `+`-separated list `bounds`.
pub fn bounds_from(bounds: &[char]) -> (res: Vec<String>)
    ensures
        str_views(res@) == bound_names(bounds@),
{
    let pieces = split_in(bounds, '+');
    let mut res: Vec<String> = Vec::new();
    let mut i: usize = 0;
    assert(char_views(pieces@).take(0) =~= Seq::<Seq<char>>::empty());
    assert(str_views(res@) =~= Seq::<Seq<char>>::empty());
    while i < pieces.len()
        invariant
            i <= pieces@.len(),
            char_views(pieces@) == split_char(bounds@, '+'),
            str_views(res@) == nonempty_trimmed(char_views(pieces@).take(i as int)),
        decreases pieces@.len() - i,
    {
        let t = trim_chars(&pieces[i]);
        proof {
            let u = char_views(pieces@).take(i as int + 1);
            assert(u.drop_last() =~= char_views(pieces@).take(i as int));
            assert(u.last() == pieces@[i as int]@);
        }
        if t.len() > 0 {
            let st = string_of(&t);
            let ghost before = res@;
            res.push(st);
            assert(str_views(res@) =~= str_views(before).push(st@));
        }
        i = i + 1;
    }
    assert(char_views(pieces@).take(pieces@.len() as int) =~= char_views(pieces@));
    res
}

proof fn lemma_parse_args_step(p: Seq<Seq<char>>, i: int, bound: nat)
    requires
        0 <= i < p.len(),
    ensures
        parse_args(p.skip(i), bound) == if p[i].len() < bound {
            match parse_piece(p[i]) {
                Outcome::Done(x) => prepend_args(seq![x], parse_args(p.skip(i + 1), bound)),
                Outcome::Failed(e) => Outcome::Failed(e),
                Outcome::Panics => Outcome::Panics,
            }
        } else {
            Outcome::Panics
        },
{
    assert(p.skip(i)[0] == p[i]);
    assert(p.skip(i).drop_first() =~= p.skip(i + 1));
}

proof fn lemma_arg_len(piece: Seq<char>)
    ensures
        trim(arg_and_bounds(piece).0).len() <= piece.len(),
{
    match split_once_char(piece, ':') {
        Some(p) => {
            let i = find_char(piece, ':').unwrap();
            lemma_trim_len(piece.take(i));
        },
        None => {
            lemma_trim_len(piece);
        },
    }
}

/// Reads one generic argument with its bounds from its text.
fn parse_piece_chars(piece: &Vec<char>) -> (res: Result<(TypeIdent, Vec<String>), String>)
    requires
        !(parse_piece(piece@) is Panics),
    ensures
        match parse_piece(piece@) {
            Outcome::Done(x) => res matches Ok(r) && r.0@ == x.0 && str_views(r.1@) == x.1,
            Outcome::Failed(e) => res matches Err(m) && m@ == e,
            Outcome::Panics => false,
        },
    decreases piece@.len(), 3nat, 0nat,
{
    let (arg, bounds) = match find_in(piece, ':') {
        Some(k) => {
            assert(k < piece.len());
            (sub_chars(piece, 0, k), sub_chars(piece, k + 1, piece.len()))
        },
        None => (sub_chars(piece, 0, piece.len()), Vec::new()),
    };
    proof {
        assert(piece@.subrange(0, piece@.len() as int) =~= piece@);
        assert(arg_and_bounds(piece@) == (arg@, bounds@)) by {
            match find_char(piece@, ':') {
                Some(k) => {
                    assert(piece@.subrange(k + 1, piece@.len() as int) =~= piece@.skip(k + 1));
                },
                None => {
                    assert(bounds@ =~= Seq::<char>::empty());
                },
            }
        }
        lemma_arg_len(piece@);
    }
    let a = trim_chars(&arg);
    match parse_ident_chars(&a) {
        Ok(id) => Ok((id, bounds_from(&bounds))),
        Err(e) => Err(e),
    }
}

/// Reads a type identifier from `string`, which holds no array brackets.
fn parse_plain_chars(string: &[char], array: Option<usize>) -> (res: Result<TypeIdent, String>)
    requires
        !(parse_plain(string@, array) is Panics),
    ensures
        ident_result_matches(res, parse_plain(string@, array)),
    decreases string@.len(), 1nat, 0nat,
{
    match find_in(string, '<') {
        Some(start) => {
            let end = match rfind_in(string, '>') {
                Some(e) => e,
                None => string.len(),
            };
            let name_chars = trim_name_chars(&sub_chars(string, 0, start));
            let inner = sub_chars(string, start + 1, end);
            let pieces = split_in(&inner, ',');
            let ghost pv = char_views(pieces@);
            let ghost bound = string@.len();
            proof {
                lemma_split_pieces(inner@, ',');
                assert(string@.take(start as int) =~= string@.subrange(0, start as int));
                assert(pv.skip(0) =~= pv);
            }
            let mut args: Vec<(TypeIdent, Vec<String>)> = Vec::new();
            let mut i: usize = 0;
            assert(prepend_args(args_view(args@), parse_args(pv.skip(0), bound)) == parse_args(pv, bound)) by {
                assert(args_view(args@) =~= Seq::<(IdentView, Seq<Seq<char>>)>::empty());
                match parse_args(pv, bound) {
                    Outcome::Done(r) => { assert(Seq::<(IdentView, Seq<Seq<char>>)>::empty() + r =~= r); },
                    _ => {},
                }
            }
            while i < pieces.len()
                invariant
                    i <= pieces@.len(),
                    pv == char_views(pieces@),
                    bound == string@.len(),
                    inner@.len() < bound,
                    forall|k: int| 0 <= k < pv.len() ==> (#[trigger] pv[k]).len() <= inner@.len(),
                    !(parse_args(pv, bound) is Panics),
                    parse_plain(string@, array) == match parse_args(pv, bound) {
                        Outcome::Done(args) => Outcome::Done(
                            IdentView { name: name_chars@, generic_args: args, array },
                        ),
                        Outcome::Failed(e) => Outcome::Failed(e),
                        Outcome::Panics => Outcome::Panics,
                    },
                    parse_args(pv, bound) == prepend_args(args_view(args@), parse_args(pv.skip(i as int), bound)),
                decreases pieces@.len() - i,
            {
                proof {
                    assert(pv[i as int] == pieces@[i as int]@);
                    lemma_parse_args_step(pv, i as int, bound);
                }
                match parse_piece_chars(&pieces[i]) {
                    Ok(x) => {
                        let ghost before = args@;
                        let ghost entry = (x.0@, str_views(x.1@));
                        args.push(x);
                        proof {
                            assert(args@.drop_last() =~= before);
                            let d = args_view(before);
                            assert(args_view(args@) == d.push(entry));
                            match parse_args(pv.skip(i + 1), bound) {
                                Outcome::Done(r) => {
                                    assert(d + (seq![entry] + r) =~= d.push(entry) + r);
                                },
                                _ => {},
                            }
                        }
                    },
                    Err(e) => {
                        return Err(e);
                    },
                }
                i = i + 1;
            }
            proof {
                assert(pv.skip(pv.len() as int) =~= Seq::<Seq<char>>::empty());
                assert(args_view(args@) + Seq::<(IdentView, Seq<Seq<char>>)>::empty() =~= args_view(args@));
            }
            Ok(TypeIdent { name: string_of(&name_chars), generic_args: args, array })
        },
        None => Ok(TypeIdent { name: string_of(string), generic_args: Vec::new(), array }),
    }
}

/// Reads a type identifier, possibly an array of primitives, from `s`.
fn parse_ident_chars(s: &[char]) -> (res: Result<TypeIdent, String>)
    requires
        !(parse_type_ident(s@) is Panics),
    ensures
        ident_result_matches(res, parse_type_ident(s@)),
    decreases s@.len(), 2nat, 0nat,
{
    if s.len() > 0 && s[0] == '[' {
        if s.len() >= 2 && s[s.len() - 1] == ']' {
            let inner = sub_chars(s, 1, s.len() - 1);
            let parts = split_in(&inner, ';');
            proof {
                lemma_split_pieces(inner@, ';');
                assert(char_views(parts@)[0] == parts@[0]@);
                assert(char_views(parts@)[1] == parts@[1]@);
            }
            let element = trim_chars(&parts[0]);
            let len_chars = trim_chars(&parts[1]);
            match parse_usize_in(&len_chars) {
                None => {
                    let mut msg = "Invalid array length in: ".to_owned();
                    msg.append(string_of(s).as_str());
                    Err(msg)
                },
                Some(len) => match primitive_from_chars(&element) {
                    Err(e) => Err(e),
                    Ok(p) => {
                        if p.js_array_name().is_none() {
                            let mut msg = "Only arrays of primitives supported by Javascript are allowed, found: ".to_owned();
                            msg.append(string_of(s).as_str());
                            Err(msg)
                        } else {
                            proof {
                                lemma_trim_len(parts@[0]@);
                            }
                            parse_plain_chars(&element, if len == 0 { None } else { Some(len) })
                        }
                    },
                },
            }
        } else {
            let mut msg = "Invalid array syntax in: ".to_owned();
            msg.append(string_of(s).as_str());
            Err(msg)
        }
    } else {
        parse_plain_chars(s, None)
    }
}

impl TypeIdent {
    /// Reads a type identifier from its text form, such as `u32`,
    /// `Vec<T: Debug + Display>` or `[u8; 4]`.
    pub fn from_str(string: &str) -> (res: Result<TypeIdent, String>)
        requires
            !(parse_type_ident(string@) is Panics),
        ensures
            ident_result_matches(res, parse_type_ident(string@)),
    {
        let v = chars_of(string);
        parse_ident_chars(&v)
    }

    /// The identifier that `name` reads as, where it reads as one.
    pub fn from(name: &str) -> (res: TypeIdent)
        requires
            parse_type_ident(name@) is Done,
        ensures
            parse_type_ident(name@) == Outcome::Done(res@),
    {
        match TypeIdent::from_str(name) {
            Ok(t) => t,
            Err(_) => TypeIdent::new(name, Vec::new()),
        }
    }
}

/// The text of a type identifier; with `include_bounds`, the runtime bounds
/// of its generic arguments follow them (nested arguments always carry
/// theirs).
pub open spec fn format_view(t: IdentView, include_bounds: bool) -> Seq<char>
    decreases t,
{
    let ty = if t.generic_args.len() == 0 {
        t.name
    } else {
        t.name + "<"@ + join(format_arg_list(t.generic_args, include_bounds), ", "@) + ">"@
    };
    match t.array {
        Some(len) => "["@ + ty + "; "@ + decimal(len as nat) + "]"@,
        None => ty,
    }
}

/// The texts of a list of generic arguments.
pub open spec fn format_arg_list(args: Seq<(IdentView, Seq<Seq<char>>)>, include_bounds: bool) -> Seq<Seq<char>>
    decreases args,
{
    if args.len() == 0 {
        Seq::empty()
    } else {
        format_arg_list(args.drop_last(), include_bounds).push(format_arg(args.last(), include_bounds))
    }
}

/// The text of one generic argument.
pub open spec fn format_arg(arg: (IdentView, Seq<Seq<char>>), include_bounds: bool) -> Seq<char>
    decreases arg,
{
    if arg.1.len() == 0 || !include_bounds {
        format_view(arg.0, true)
    } else {
        format_view(arg.0, true) + ": "@ + join(runtime_bounds(arg.1), " + "@)
    }
}

/// The view of generic arguments, element by element.
pub proof fn lemma_args_view(a: Seq<(TypeIdent, Vec<String>)>)
    ensures
        args_view(a).len() == a.len(),
        forall|i: int| 0 <= i < a.len() ==> #[trigger] args_view(a)[i] == (ident_view(a[i].0), str_views(a[i].1@)),
    decreases a.len(),
{
    if a.len() > 0 {
        lemma_args_view(a.drop_last());
    }
}

proof fn lemma_format_arg_list_take(args: Seq<(IdentView, Seq<Seq<char>>)>, i: int, inc: bool)
    requires
        0 <= i < args.len(),
    ensures
        format_arg_list(args.take(i + 1), inc) == format_arg_list(args.take(i), inc).push(format_arg(args[i], inc)),
{
    assert(args.take(i + 1).drop_last() =~= args.take(i));
    assert(args.take(i + 1).last() == args[i]);
}

impl TypeIdent {
    /// An identifier with the given name and generic arguments, and no
    /// array length.
    pub fn new(name: &str, generic_args: Vec<(TypeIdent, Vec<String>)>) -> (res: Self)
        ensures
            res.name@ == name@,
            res.generic_args == generic_args,
            res.array is None,
    {
        TypeIdent { name: name.to_owned(), generic_args, array: None }
    }

    /// Whether the identifier is that of an array.
    pub fn is_array(&self) -> (res: bool)
        ensures
            res == self.array is Some,
    {
        self.array.is_some()
    }

    /// The primitive the identifier names, if it names one and is no
    /// array.
    pub fn as_primitive(&self) -> (res: Option<crate::primitives::Primitive>)
        ensures
            res == (if self.array is None { primitive_from_name(self.name@) } else { None }),
    {
        if self.array.is_none() {
            match crate::primitives::Primitive::from_str(self.name.as_str()) {
                Ok(p) => Some(p),
                Err(_) => None,
            }
        } else {
            None
        }
    }

    /// Whether the identifier names a primitive and is no array.
    pub fn is_primitive(&self) -> (res: bool)
        ensures
            res == (self.array is None && primitive_from_name(self.name@) is Some),
    {
        self.as_primitive().is_some()
    }

    /// The text of the identifier; with `include_bounds`, the runtime
    /// bounds of its generic arguments follow them.
    pub fn format(&self, include_bounds: bool) -> (res: String)
        ensures
            res@ == format_view(self@, include_bounds),
        decreases self,
    {
        let ghost av = args_view(self.generic_args@);
        proof {
            lemma_args_view(self.generic_args@);
        }
        let ty = if self.generic_args.len() == 0 {
            self.name.clone()
        } else {
            let mut parts: Vec<String> = Vec::new();
            let mut i: usize = 0;
            assert(av.take(0) =~= Seq::<(IdentView, Seq<Seq<char>>)>::empty());
            assert(str_views(parts@) =~= Seq::<Seq<char>>::empty());
            while i < self.generic_args.len()
                invariant
                    i <= self.generic_args@.len(),
                    av == args_view(self.generic_args@),
                    av.len() == self.generic_args@.len(),
                    forall|k: int| 0 <= k < self.generic_args@.len() ==> #[trigger] av[k] == (ident_view(self.generic_args@[k].0), str_views(self.generic_args@[k].1@)),
                    str_views(parts@) == format_arg_list(av.take(i as int), include_bounds),
                decreases self.generic_args@.len() - i,
            {
                let arg = &self.generic_args[i];
                assert(decreases_to!(self => self.generic_args@[i as int].0));
                let mut text = arg.0.format(true);
                if arg.1.len() > 0 && include_bounds {
                    text.append(": ");
                    let bounds = filter_runtime_bounds(&arg.1);
                    let joined = join_strings(&bounds, " + ");
                    text.append(joined.as_str());
                }
                proof {
                    lemma_format_arg_list_take(av, i as int, include_bounds);
                    assert(av[i as int] == (arg.0@, str_views(arg.1@)));
                }
                let ghost before = parts@;
                parts.push(text);
                assert(str_views(parts@) =~= str_views(before).push(text@));
                i = i + 1;
            }
            assert(av.take(av.len() as int) =~= av);
            let mut t = self.name.clone();
            t.append("<");
            let joined = join_strings(&parts, ", ");
            t.append(joined.as_str());
            t.append(">");
            t
        };
        match self.array {
            Some(len) => {
                let mut res = "[".to_owned();
                res.append(ty.as_str());
                res.append("; ");
                let digits = decimal_string(len);
                res.append(digits.as_str());
                res.append("]");
                res
            },
            None => ty,
        }
    }

    /// The text of the identifier, with the runtime bounds of its generic
    /// arguments.
    pub fn to_string(&self) -> (res: String)
        ensures
            res@ == format_view(self@, true),
    {
        self.format(true)
    }
}


/// The Rust spelling of a primitive is plain text: no white space, `;`
/// or `<` in it.
proof fn lemma_primitive_name_plain(p: Primitive)
    ensures
        primitive_name(p).len() > 0,
        forall|j: int| 0 <= j < primitive_name(p).len() ==> {
            &&& !is_ws(#[trigger] primitive_name(p)[j])
            &&& primitive_name(p)[j] != ';'
            &&& primitive_name(p)[j] != '<'
        },
{
    match p {
        Primitive::Bool => { reveal_strlit("bool"); },
        Primitive::F32 => { reveal_strlit("f32"); },
        Primitive::F64 => { reveal_strlit("f64"); },
        Primitive::I8 => { reveal_strlit("i8"); },
        Primitive::I16 => { reveal_strlit("i16"); },
        Primitive::I32 => { reveal_strlit("i32"); },
        Primitive::I64 => { reveal_strlit("i64"); },
        Primitive::U8 => { reveal_strlit("u8"); },
        Primitive::U16 => { reveal_strlit("u16"); },
        Primitive::U32 => { reveal_strlit("u32"); },
        Primitive::U64 => { reveal_strlit("u64"); },
    }
}

/// An array of a primitive, written `[p; n]` with a length `n` other than
/// zero in decimal, reads as that array exactly when JavaScript has a typed
/// array for the primitive; otherwise it is refused as an array of an
/// element that is not allowed.
pub proof fn lemma_array_ident(p: Primitive, n: usize)
    requires
        n >= 1,
    ensures
        ({
            let s = "["@ + primitive_name(p) + "; "@ + decimal(n as nat) + "]"@;
            &&& js_array_name_of(p) is Some ==> parse_type_ident(s) == Outcome::Done(
                IdentView { name: primitive_name(p), generic_args: Seq::empty(), array: Some(n) },
            )
            &&& js_array_name_of(p) is None ==> parse_type_ident(s) == Outcome::<IdentView>::Failed(
                array_element_message(s),
            )
        }),
{
    let pn = primitive_name(p);
    let d = decimal(n as nat);
    lemma_parse_decimal(n);
    lemma_primitive_name_plain(p);
    lemma_primitive_name_round_trip(p);
    reveal_strlit("[");
    reveal_strlit("; ");
    reveal_strlit("]");
    let s = "["@ + pn + "; "@ + d + "]"@;
    assert(s =~= seq!['['] + pn + seq![';', ' '] + d + seq![']']);
    assert(s[0] == '[');
    assert(s.last() == ']');
    let inner = s.subrange(1, s.len() - 1);
    let rest = seq![' '] + d;
    assert(inner =~= pn + (seq![';'] + rest));
    let i = pn.len() as int;
    assert(inner[i] == ';');
    assert forall|j: int| 0 <= j < i implies inner[j] != ';' by {
        assert(inner[j] == pn[j]);
    }
    lemma_split_step(inner, ';', i);
    assert(inner.take(i) =~= pn);
    assert(inner.skip(i + 1) =~= rest);
    assert forall|j: int| 0 <= j < rest.len() implies rest[j] != ';' by {
        if j > 0 {
            assert(rest[j] == d[j - 1]);
        }
    }
    lemma_split_none(rest, ';');
    let parts = split_char(inner, ';');
    assert(parts =~= seq![pn, rest]);
    assert(!is_ws(pn[0]));
    assert(crate::text::trim_start(pn) == pn);
    assert(!is_ws(pn.last()));
    assert(crate::text::trim_end(pn) == pn);
    assert(trim(pn) == pn);
    assert(is_ws(' '));
    assert(rest.drop_first() =~= d);
    assert(crate::text::trim_start(rest) == crate::text::trim_start(d));
    assert(trim(rest) == trim(d));
    assert(parse_usize(trim(parts[1])) == Some(n));
    assert forall|j: int| 0 <= j < pn.len() implies pn[j] != '<' by {}
    crate::text::lemma_find_char_none(pn, '<');
}


/// Whether a name is written without white space and without the
/// characters that delimit generic arguments, bounds and arrays.
pub open spec fn plain_name(s: Seq<char>) -> bool {
    &&& s.len() > 0
    &&& forall|j: int| 0 <= j < s.len() ==> {
        &&& !is_ws(#[trigger] s[j])
        &&& s[j] != '<' && s[j] != '>' && s[j] != ',' && s[j] != ':' && s[j] != '[' && s[j] != '+'
    }
}

/// The generic arguments named `names`, each plain and without bounds.
pub open spec fn plain_args(names: Seq<Seq<char>>) -> Seq<(IdentView, Seq<Seq<char>>)> {
    names.map_values(|n: Seq<char>| (IdentView { name: n, generic_args: Seq::empty(), array: None }, Seq::<Seq<char>>::empty()))
}

/// The pieces between the commas of `parts` joined by ", ".
spec fn comma_pieces(parts: Seq<Seq<char>>) -> Seq<Seq<char>>
    decreases parts.len(),
{
    if parts.len() <= 1 {
        parts
    } else {
        comma_pieces(parts.drop_last()).push(seq![' '] + parts.last())
    }
}

proof fn lemma_comma_pieces(parts: Seq<Seq<char>>)
    requires
        parts.len() >= 1,
        forall|k: int, j: int| 0 <= k < parts.len() && 0 <= j < parts[k].len() ==> #[trigger] parts[k][j] != ',',
    ensures
        split_char(join(parts, ", "@), ',') == comma_pieces(parts),
        comma_pieces(parts).len() == parts.len(),
        forall|k: int| 0 <= k < parts.len() ==> #[trigger] comma_pieces(parts)[k] == (if k == 0 {
            parts[0]
        } else {
            seq![' '] + parts[k]
        }),
    decreases parts.len(),
{
    reveal_strlit(", ");
    if parts.len() == 1 {
        lemma_split_none(parts[0], ',');
    } else {
        let dl = parts.drop_last();
        assert forall|k: int, j: int| 0 <= k < dl.len() && 0 <= j < dl[k].len() implies #[trigger] dl[k][j] != ',' by {
            assert(dl[k] == parts[k]);
        }
        lemma_comma_pieces(dl);
        let last = seq![' '] + parts.last();
        assert(join(parts, ", "@) =~= join(dl, ", "@) + seq![','] + last);
        crate::text::lemma_split_concat(join(dl, ", "@), last, ',');
        assert forall|j: int| 0 <= j < last.len() implies last[j] != ',' by {
            if j > 0 {
                assert(last[j] == parts[parts.len() - 1][j - 1]);
            }
        }
        lemma_split_none(last, ',');
        assert forall|k: int| 0 <= k < parts.len() implies #[trigger] comma_pieces(parts)[k] == (if k == 0 {
            parts[0]
        } else {
            seq![' '] + parts[k]
        }) by {
            if k < parts.len() - 1 {
                assert(dl[k] == parts[k]);
            }
        }
    }
}

proof fn lemma_trim_plain(n: Seq<char>)
    requires
        plain_name(n),
    ensures
        trim(n) == n,
        trim(seq![' '] + n) == n,
{
    assert(!is_ws(n[0]));
    assert(crate::text::trim_start(n) == n);
    assert(!is_ws(n.last()));
    assert(crate::text::trim_end(n) == n);
    assert(is_ws(' '));
    assert((seq![' '] + n).drop_first() =~= n);
    assert(crate::text::trim_start(seq![' '] + n) == crate::text::trim_start(n));
}

proof fn lemma_parse_plain_name(n: Seq<char>)
    requires
        plain_name(n),
    ensures
        parse_type_ident(n) == Outcome::Done(IdentView { name: n, generic_args: Seq::empty(), array: None }),
{
    assert(n[0] != '[');
    crate::text::lemma_find_char_none(n, '<');
}

proof fn lemma_parse_plain_args(pieces: Seq<Seq<char>>, names: Seq<Seq<char>>, bound: nat)
    requires
        pieces.len() == names.len(),
        forall|k: int| 0 <= k < pieces.len() ==> {
            &&& plain_name(#[trigger] names[k])
            &&& trim(pieces[k]) == names[k]
            &&& pieces[k].len() < bound
        },
        forall|k: int, j: int| 0 <= k < pieces.len() && 0 <= j < pieces[k].len() ==> #[trigger] pieces[k][j] != ':',
    ensures
        parse_args(pieces, bound) == Outcome::Done(plain_args(names)),
    decreases pieces.len(),
{
    if pieces.len() == 0 {
        assert(plain_args(names) =~= Seq::empty());
    } else {
        let piece = pieces[0];
        assert forall|j: int| 0 <= j < piece.len() implies piece[j] != ':' by {
            assert(pieces[0][j] != ':');
        }
        crate::text::lemma_find_char_none(piece, ':');
        assert(arg_and_bounds(piece) == (piece, Seq::<char>::empty()));
        lemma_trim_len(piece);
        assert(plain_name(names[0]));
        lemma_parse_plain_name(names[0]);
        lemma_split_none(Seq::<char>::empty(), '+');
        let sp = split_char(Seq::<char>::empty(), '+');
        assert(sp.len() == 1 && sp.last() == Seq::<char>::empty());
        assert(sp.drop_last() =~= Seq::<Seq<char>>::empty());
        assert(nonempty_trimmed(sp.drop_last()) == Seq::<Seq<char>>::empty());
        assert(trim(sp.last()).len() == 0);
        assert(nonempty_trimmed(sp) == nonempty_trimmed(sp.drop_last()));
        assert(bound_names(Seq::<char>::empty()) =~= Seq::<Seq<char>>::empty());
        assert(parse_piece(piece) == Outcome::Done((IdentView { name: names[0], generic_args: Seq::empty(), array: None }, Seq::<Seq<char>>::empty())));
        let rest_p = pieces.drop_first();
        let rest_n = names.drop_first();
        assert forall|k: int| 0 <= k < rest_p.len() implies {
            &&& plain_name(#[trigger] rest_n[k])
            &&& trim(rest_p[k]) == rest_n[k]
            &&& rest_p[k].len() < bound
        } by {
            assert(rest_p[k] == pieces[k + 1] && rest_n[k] == names[k + 1]);
        }
        assert forall|k: int, j: int| 0 <= k < rest_p.len() && 0 <= j < rest_p[k].len() implies #[trigger] rest_p[k][j] != ':' by {
            assert(rest_p[k] == pieces[k + 1]);
        }
        lemma_parse_plain_args(rest_p, rest_n, bound);
        assert(seq![(IdentView { name: names[0], generic_args: Seq::empty(), array: None }, Seq::<Seq<char>>::empty())] + plain_args(rest_n) =~= plain_args(names));
    }
}

proof fn lemma_format_plain_args(args: Seq<(IdentView, Seq<Seq<char>>)>)
    requires
        forall|k: int| 0 <= k < args.len() ==> {
            &&& (#[trigger] args[k]).1.len() == 0
            &&& args[k].0.generic_args.len() == 0
            &&& args[k].0.array is None
        },
    ensures
        format_arg_list(args, true) == args.map_values(|a: (IdentView, Seq<Seq<char>>)| a.0.name),
    decreases args.len(),
{
    if args.len() > 0 {
        let dl = args.drop_last();
        assert forall|k: int| 0 <= k < dl.len() implies {
            &&& (#[trigger] dl[k]).1.len() == 0
            &&& dl[k].0.generic_args.len() == 0
            &&& dl[k].0.array is None
        } by {
            assert(dl[k] == args[k]);
        }
        lemma_format_plain_args(dl);
        assert(args[args.len() - 1].1.len() == 0);
        assert(format_arg(args.last(), true) == args.last().0.name);
        assert(format_arg_list(args, true) =~= args.map_values(|a: (IdentView, Seq<Seq<char>>)| a.0.name));
    } else {
        assert(format_arg_list(args, true) =~= args.map_values(|a: (IdentView, Seq<Seq<char>>)| a.0.name));
    }
}

/// An identifier that is no array, whose name and whose generic arguments'
/// names are plain, and whose generic arguments have no bounds, arguments
/// or array lengths of their own, reads back from its text as itself.
pub proof fn lemma_format_then_parse(t: IdentView)
    requires
        t.array is None,
        plain_name(t.name),
        forall|k: int| 0 <= k < t.generic_args.len() ==> {
            &&& (#[trigger] t.generic_args[k]).1.len() == 0
            &&& t.generic_args[k].0.generic_args.len() == 0
            &&& t.generic_args[k].0.array is None
            &&& plain_name(t.generic_args[k].0.name)
        },
    ensures
        parse_type_ident(format_view(t, true)) == Outcome::Done(t),
{
    if t.generic_args.len() == 0 {
        lemma_parse_plain_name(t.name);
        assert(t.generic_args =~= Seq::<(IdentView, Seq<Seq<char>>)>::empty());
    } else {
        reveal_strlit("<");
        reveal_strlit(">");
        let args = t.generic_args;
        let names = args.map_values(|a: (IdentView, Seq<Seq<char>>)| a.0.name);
        lemma_format_plain_args(args);
        let j = join(names, ", "@);
        let s = t.name + "<"@ + j + ">"@;
        assert(format_view(t, true) == s);
        assert(s =~= t.name + seq!['<'] + j + seq!['>']);
        assert(s[0] == t.name[0]);
        let start = t.name.len() as int;
        assert(s[start] == '<');
        assert forall|k: int| 0 <= k < start implies s[k] != '<' by {
            assert(s[k] == t.name[k]);
        }
        crate::text::lemma_find_char(s, '<', start);
        let end = s.len() - 1;
        crate::text::lemma_rfind_char(s, '>', end);
        assert(s.take(start) =~= t.name);
        assert(!is_name_trailer(t.name.last()));
        assert(trim_name(t.name) == t.name);
        assert(s.subrange(start + 1, end) =~= j);
        assert forall|k: int, i: int| 0 <= k < names.len() && 0 <= i < names[k].len() implies #[trigger] names[k][i] != ',' by {
            assert(plain_name(args[k].0.name));
        }
        lemma_comma_pieces(names);
        let pieces = split_char(j, ',');
        lemma_split_pieces(j, ',');
        assert forall|k: int| 0 <= k < pieces.len() implies {
            &&& plain_name(#[trigger] names[k])
            &&& trim(pieces[k]) == names[k]
            &&& pieces[k].len() < s.len()
        } by {
            assert(plain_name(args[k].0.name));
            lemma_trim_plain(names[k]);
        }
        assert forall|k: int, i: int| 0 <= k < pieces.len() && 0 <= i < pieces[k].len() implies #[trigger] pieces[k][i] != ':' by {
            assert(plain_name(args[k].0.name));
            if k > 0 && i > 0 {
                assert(pieces[k][i] == names[k][i - 1]);
            }
        }
        lemma_parse_plain_args(pieces, names, s.len());
        assert forall|k: int| 0 <= k < args.len() implies #[trigger] plain_args(names)[k] == args[k] by {
            assert(args[k].0.generic_args =~= Seq::<(IdentView, Seq<Seq<char>>)>::empty());
            assert(args[k].1 =~= Seq::<Seq<char>>::empty());
        }
        assert(plain_args(names) =~= args);
    }
}

} // verus!
