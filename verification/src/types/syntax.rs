use vstd::prelude::*;
use crate::text::{join, join_strings, parse_usize, parse_usize_in, chars_of, str_views};
use super::type_ident::{args_view, ident_result_matches, ident_view, IdentView, Outcome, TypeIdent};

verus! {

/// A trait bound as written in Rust source.
#[derive(Debug)]
pub enum BoundSyntax {
    /// A trait, by the segments of its path.
    Trait(Vec<String>),
    /// A lifetime, with the debug text of the bound.
    Lifetime(String),
}

/// A generic argument as written in Rust source.
#[derive(Debug)]
pub enum GenericArgSyntax {
    /// A type.
    Type(TypeSyntax),
    /// A constraint such as `T: Debug + Display`: the name and its bounds.
    Constraint(String, Vec<BoundSyntax>),
    /// Any other argument, with its debug text.
    Other(String),
}

/// The length of an array type with a literal length.
#[derive(Debug)]
pub enum LenSyntax {
    /// An integer literal, by its decimal digits.
    Int(String),
    /// Another literal.
    OtherLiteral,
}

/// A type as written in Rust source, as far as the generators read it.
#[derive(Debug)]
pub enum TypeSyntax {
    /// `[elem; len]`, with a literal length.
    Array(Box<TypeSyntax>, LenSyntax),
    /// A path without a qualified self type: its segments, and the generic
    /// arguments in angle brackets of its last segment.
    Path(Vec<String>, Vec<GenericArgSyntax>),
    /// The empty tuple `()`.
    Unit,
    /// A tuple of one or more items, with its debug text.
    Tuple(Vec<TypeSyntax>, String),
    /// Any other type, with its debug text.
    Other(String),
}

/// The text of a path: its segments joined by `::`.
pub open spec fn path_text(segments: Seq<String>) -> Seq<char> {
    join(str_views(segments), "::"@)
}

/// The text of a path: its segments joined by `::`.
pub fn path_to_string(segments: &Vec<String>) -> (res: String)
    ensures
        res@ == path_text(segments@),
{
    join_strings(segments, "::")
}

/// The bounds of a constraint, or the message for its first lifetime
/// bound.
pub open spec fn bounds_of(bounds: Seq<BoundSyntax>) -> Outcome<Seq<Seq<char>>>
    decreases bounds.len(),
{
    if bounds.len() == 0 {
        Outcome::Done(Seq::empty())
    } else {
        match bounds_of(bounds.drop_last()) {
            Outcome::Done(prev) => match bounds.last() {
                BoundSyntax::Trait(path) => Outcome::Done(prev.push(path_text(path@))),
                BoundSyntax::Lifetime(d) => Outcome::Failed("Lifecycle bounds are not supported: "@ + d@),
            },
            other => other,
        }
    }
}

/// What `TypeIdent::try_from` reads from a type: an identifier, a message,
/// or a panic (for an array length that is no integer literal, or that does
/// not fit in `usize`).
pub open spec fn ident_of_syntax(t: TypeSyntax) -> Outcome<IdentView>
    decreases t, 1nat, 0nat,
{
    match t {
        TypeSyntax::Array(elem, len) => match len {
            LenSyntax::Int(digits) => match parse_usize(digits@) {
                Some(n) => match ident_of_syntax(*elem) {
                    Outcome::Done(e) => Outcome::Done(IdentView {
                        name: e.name,
                        generic_args: Seq::empty(),
                        array: if n == 0 { None } else { Some(n) },
                    }),
                    Outcome::Failed(m) => Outcome::Failed(m),
                    Outcome::Panics => Outcome::Panics,
                },
                None => Outcome::Panics,
            },
            LenSyntax::OtherLiteral => Outcome::Panics,
        },
        TypeSyntax::Path(segments, args) => match args_of_syntax(t, args@.len()) {
            Outcome::Done(a) => Outcome::Done(IdentView { name: path_text(segments@), generic_args: a, array: None }),
            Outcome::Failed(m) => Outcome::Failed(m),
            Outcome::Panics => Outcome::Panics,
        },
        TypeSyntax::Unit => Outcome::Done(IdentView { name: "()"@, generic_args: Seq::empty(), array: None }),
        TypeSyntax::Tuple(_, d) => Outcome::Failed("Unsupported type: "@ + d@),
        TypeSyntax::Other(d) => Outcome::Failed("Unsupported type: "@ + d@),
    }
}

/// What the first `n` generic arguments of the path `t` are read as.
pub open spec fn args_of_syntax(t: TypeSyntax, n: nat) -> Outcome<Seq<(IdentView, Seq<Seq<char>>)>>
    decreases t, 0nat, n,
{
    match t {
        TypeSyntax::Path(_, args) => if n == 0 || n > args@.len() {
            Outcome::Done(Seq::empty())
        } else {
            match args_of_syntax(t, (n - 1) as nat) {
                Outcome::Done(prev) => match args@[n - 1] {
                    GenericArgSyntax::Type(ty) => match ident_of_syntax(ty) {
                        Outcome::Done(i) => Outcome::Done(prev.push((i, Seq::empty()))),
                        Outcome::Failed(m) => Outcome::Failed(m),
                        Outcome::Panics => Outcome::Panics,
                    },
                    GenericArgSyntax::Constraint(name, bounds) => match bounds_of(bounds@) {
                        Outcome::Done(b) => Outcome::Done(prev.push((IdentView { name: name@, generic_args: Seq::empty(), array: None }, b))),
                        Outcome::Failed(m) => Outcome::Failed(m),
                        Outcome::Panics => Outcome::Panics,
                    },
                    GenericArgSyntax::Other(d) => Outcome::Failed("Unsupported generic argument: "@ + d@),
                },
                other => other,
            }
        },
        _ => Outcome::Done(Seq::empty()),
    }
}


proof fn lemma_args_of_syntax_stuck(t: TypeSyntax, k: nat, n: nat)
    requires
        t is Path,
        k <= n <= t->Path_1@.len(),
        !(args_of_syntax(t, k) is Done),
    ensures
        args_of_syntax(t, n) == args_of_syntax(t, k),
    decreases n - k,
{
    if n > k {
        lemma_args_of_syntax_stuck(t, k, (n - 1) as nat);
    }
}

fn bounds_exec(bounds: &Vec<BoundSyntax>) -> (res: Result<Vec<String>, String>)
    ensures
        match bounds_of(bounds@) {
            Outcome::Done(b) => res matches Ok(v) && str_views(v@) == b,
            Outcome::Failed(m) => res matches Err(e) && e@ == m,
            Outcome::Panics => false,
        },
{
    let mut res: Vec<String> = Vec::new();
    let mut i: usize = 0;
    assert(bounds@.take(0) =~= Seq::<BoundSyntax>::empty());
    assert(str_views(res@) =~= Seq::<Seq<char>>::empty());
    while i < bounds.len()
        invariant
            i <= bounds@.len(),
            bounds_of(bounds@.take(i as int)) == Outcome::Done(str_views(res@)),
        decreases bounds@.len() - i,
    {
        let ghost t = bounds@.take(i as int + 1);
        assert(t.drop_last() =~= bounds@.take(i as int));
        assert(t.last() == bounds@[i as int]);
        match &bounds[i] {
            BoundSyntax::Trait(path) => {
                let text = join_strings(path, "::");
                let ghost before = res@;
                res.push(text);
                assert(str_views(res@) =~= str_views(before).push(text@));
            },
            BoundSyntax::Lifetime(d) => {
                let mut e = "Lifecycle bounds are not supported: ".to_owned();
                e.append(d.as_str());
                proof {
                    assert(bounds_of(t) == Outcome::<Seq<Seq<char>>>::Failed(e@));
                    lemma_bounds_stuck(bounds@, i as int + 1, bounds@.len() as int);
                    assert(bounds@.take(bounds@.len() as int) =~= bounds@);
                }
                return Err(e);
            },
        }
        i = i + 1;
    }
    assert(bounds@.take(bounds@.len() as int) =~= bounds@);
    Ok(res)
}

proof fn lemma_bounds_stuck(bounds: Seq<BoundSyntax>, k: int, n: int)
    requires
        0 <= k <= n <= bounds.len(),
        !(bounds_of(bounds.take(k)) is Done),
    ensures
        bounds_of(bounds.take(n)) == bounds_of(bounds.take(k)),
    decreases n - k,
{
    if n > k {
        lemma_bounds_stuck(bounds, k, n - 1);
        assert(bounds.take(n).drop_last() =~= bounds.take(n - 1));
    }
}

impl TypeIdent {
    /// Reads an identifier from a type as written in Rust source.
    pub fn try_from(ty: &TypeSyntax) -> (res: Result<TypeIdent, String>)
        requires
            !(ident_of_syntax(*ty) is Panics),
        ensures
            ident_result_matches(res, ident_of_syntax(*ty)),
        decreases ty,
    {
        match ty {
            TypeSyntax::Array(elem, len) => {
                let digits = match len {
                    LenSyntax::Int(d) => d,
                    LenSyntax::OtherLiteral => {
                        return Err(String::new());
                    },
                };
                let v = chars_of(digits.as_str());
                let n = match parse_usize_in(&v) {
                    Some(n) => n,
                    None => {
                        return Err(String::new());
                    },
                };
                let elem_ident = match TypeIdent::try_from(elem) {
                    Ok(t) => t,
                    Err(e) => {
                        return Err(e);
                    },
                };
                let res = TypeIdent {
                    name: elem_ident.name,
                    generic_args: Vec::new(),
                    array: if n == 0 { None } else { Some(n) },
                };
                assert(args_view(res.generic_args@) =~= Seq::<(IdentView, Seq<Seq<char>>)>::empty());
                Ok(res)
            },
            TypeSyntax::Path(segments, args) => {
                let mut generic_args: Vec<(TypeIdent, Vec<String>)> = Vec::new();
                let mut i: usize = 0;
                assert(args_view(generic_args@) =~= Seq::<(IdentView, Seq<Seq<char>>)>::empty());
                while i < args.len()
                    invariant
                        i <= args@.len(),
                        *ty == TypeSyntax::Path(*segments, *args),
                        !(ident_of_syntax(*ty) is Panics),
                        args_of_syntax(*ty, i as nat) == Outcome::Done(args_view(generic_args@)),
                    decreases args@.len() - i,
                {
                    proof {
                        if !(args_of_syntax(*ty, (i + 1) as nat) is Done) {
                            lemma_args_of_syntax_stuck(*ty, (i + 1) as nat, args@.len());
                        }
                    }
                    let ghost before = generic_args@;
                    match &args[i] {
                        GenericArgSyntax::Type(t) => {
                            assert(decreases_to!(ty => t));
                            match TypeIdent::try_from(t) {
                                Ok(id) => {
                                    generic_args.push((id, Vec::new()));
                                    proof {
                                        crate::types::type_ident::lemma_args_view(generic_args@);
                                        crate::types::type_ident::lemma_args_view(before);
                                        assert(str_views(generic_args@.last().1@) =~= Seq::<Seq<char>>::empty());
                                        assert(args_view(generic_args@) =~= args_view(before).push((id@, Seq::empty())));
                                    }
                                },
                                Err(e) => {
                                    return Err(e);
                                },
                            }
                        },
                        GenericArgSyntax::Constraint(name, bounds) => {
                            match bounds_exec(bounds) {
                                Ok(b) => {
                                    let id = TypeIdent::new(name.as_str(), Vec::new());
                                    assert(args_view(id.generic_args@) =~= Seq::<(IdentView, Seq<Seq<char>>)>::empty());
                                    let ghost bv = str_views(b@);
                                    generic_args.push((id, b));
                                    proof {
                                        crate::types::type_ident::lemma_args_view(generic_args@);
                                        crate::types::type_ident::lemma_args_view(before);
                                        assert(args_view(generic_args@) =~= args_view(before).push((id@, bv)));
                                    }
                                },
                                Err(e) => {
                                    return Err(e);
                                },
                            }
                        },
                        GenericArgSyntax::Other(d) => {
                            let mut e = "Unsupported generic argument: ".to_owned();
                            e.append(d.as_str());
                            return Err(e);
                        },
                    }
                    i = i + 1;
                }
                let name = path_to_string(segments);
                Ok(TypeIdent { name, generic_args, array: None })
            },
            TypeSyntax::Unit => {
                let res = TypeIdent::new("()", Vec::new());
                assert(args_view(res.generic_args@) =~= Seq::<(IdentView, Seq<Seq<char>>)>::empty());
                Ok(res)
            },
            TypeSyntax::Tuple(_, d) | TypeSyntax::Other(d) => {
                let mut e = "Unsupported type: ".to_owned();
                e.append(d.as_str());
                Err(e)
            },
        }
    }
}


/// Whether `TypeIdent::try_from` reads an identifier from `ty`, neither
/// refusing it nor panicking.
pub fn ident_readable(ty: &TypeSyntax) -> (res: bool)
    ensures
        res == (ident_of_syntax(*ty) is Done),
    decreases ty,
{
    match ty {
        TypeSyntax::Array(elem, len) => match len {
            LenSyntax::Int(digits) => {
                let v = chars_of(digits.as_str());
                match parse_usize_in(&v) {
                    Some(_) => {
                        assert(decreases_to!(ty => **elem));
                        ident_readable(elem)
                    },
                    None => false,
                }
            },
            LenSyntax::OtherLiteral => false,
        },
        TypeSyntax::Path(segments, args) => {
            let mut i: usize = 0;
            while i < args.len()
                invariant
                    i <= args@.len(),
                    *ty == TypeSyntax::Path(*segments, *args),
                    args_of_syntax(*ty, i as nat) is Done,
                decreases args@.len() - i,
            {
                let ok = match &args[i] {
                    GenericArgSyntax::Type(t) => {
                        assert(decreases_to!(ty => *t));
                        ident_readable(t)
                    },
                    GenericArgSyntax::Constraint(_, bounds) => bounds_exec(bounds).is_ok(),
                    GenericArgSyntax::Other(_) => false,
                };
                if !ok {
                    proof {
                        lemma_args_of_syntax_stuck(*ty, (i + 1) as nat, args@.len());
                    }
                    return false;
                }
                i = i + 1;
            }
            true
        },
        TypeSyntax::Unit => true,
        TypeSyntax::Tuple(_, _) => false,
        TypeSyntax::Other(_) => false,
    }
}

} // verus!
