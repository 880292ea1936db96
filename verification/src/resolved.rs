//! Types described by their resolved definitions: a type holds the types
//! it is made of, rather than their identifiers.

use vstd::prelude::*;
use crate::primitives::{primitive_from_name, primitive_name, Primitive};
use crate::types::syntax::{path_text, path_to_string, GenericArgSyntax, TypeSyntax};
use crate::text::{join, join_strings, str_eq, str_views};
use crate::types::attrs::{clone_opt, opt_view};

verus! {

/// A generic argument has a name (T, E, ...) and an optional type, which is
/// only known in contexts when we are dealing with concrete instances of
/// the generic type.
#[derive(Debug)]
pub struct GenericArgument {
    pub name: String,
    pub ty: Option<Type>,
}

/// A type, with the definitions of the types it is made of.
#[derive(Debug)]
pub enum Type {
    Enum(String, Vec<GenericArgument>, Vec<Variant>, EnumOptions),
    GenericArgument(Box<GenericArgument>),
    List(String, Box<Type>),
    Mapping(String, Box<Type>, Box<Type>),
    Option(Box<Type>),
    Primitive(Primitive),
    String,
    Struct(String, Vec<GenericArgument>, Vec<Field>),
    Tuple(Vec<Type>),
    Unit,
}

/// How an enum is tagged when serialized: the names of its tag and content
/// properties, as the string literals of its `#[fp(...)]` attribute.
#[derive(Debug)]
pub struct EnumOptions {
    pub content_prop_name: Option<String>,
    pub tag_prop_name: Option<String>,
}

/// A named field of a struct.
#[derive(Debug)]
pub struct Field {
    pub name: String,
    pub ty: Type,
}

/// A variant of an enum.
#[derive(Debug)]
pub struct Variant {
    pub name: String,
    pub ty: Type,
}

/// The names of generic arguments.
pub open spec fn arg_names(args: Seq<GenericArgument>) -> Seq<Seq<char>> {
    args.map_values(|a: GenericArgument| a.name@)
}

/// `name`, followed by the names of its generic arguments in angle
/// brackets where it has any.
pub open spec fn name_with_generics(name: Seq<char>, args: Seq<GenericArgument>) -> Seq<char> {
    if args.len() == 0 {
        name
    } else {
        name + "<"@ + join(arg_names(args), ", "@) + ">"@
    }
}

/// The name of a type, as written in Rust.
pub open spec fn resolved_name(t: Type) -> Seq<char>
    decreases t, 1nat, 0nat,
{
    match t {
        Type::Enum(name, args, _, _) => name_with_generics(name@, args@),
        Type::GenericArgument(arg) => arg.name@,
        Type::List(name, ty) => name@ + "<"@ + resolved_name(*ty) + ">"@,
        Type::Mapping(name, key, value) => name@ + "<"@ + resolved_name(*key) + ", "@ + resolved_name(*value) + ">"@,
        Type::Option(ty) => "Option<"@ + resolved_name(*ty) + ">"@,
        Type::Primitive(p) => primitive_name(p),
        Type::String => "String"@,
        Type::Struct(name, args, _) => name_with_generics(name@, args@),
        Type::Tuple(items) => "("@ + join(item_names(t, items@.len()), ", "@) + ")"@,
        Type::Unit => "()"@,
    }
}

/// The names of the first `n` items of the tuple type `t`.
pub open spec fn item_names(t: Type, n: nat) -> Seq<Seq<char>>
    decreases t, 0nat, n,
{
    match t {
        Type::Tuple(items) => if n == 0 || n > items@.len() {
            Seq::empty()
        } else {
            item_names(t, (n - 1) as nat).push(resolved_name(items@[n - 1]))
        },
        _ => Seq::empty(),
    }
}

/// The name of a type with its generic arguments.
pub fn format_name_with_generics(name: &str, generic_args: &[GenericArgument]) -> (res: String)
    ensures
        res@ == name_with_generics(name@, generic_args@),
{
    if generic_args.len() == 0 {
        name.to_owned()
    } else {
        let mut names: Vec<String> = Vec::new();
        let mut i: usize = 0;
        while i < generic_args.len()
            invariant
                i <= generic_args@.len(),
                str_views(names@) == arg_names(generic_args@.take(i as int)),
            decreases generic_args@.len() - i,
        {
            let ghost before = names@;
            names.push(generic_args[i].name.clone());
            assert(str_views(names@) =~= str_views(before).push(generic_args@[i as int].name@));
            assert(arg_names(generic_args@.take(i as int + 1)) =~= arg_names(generic_args@.take(i as int)).push(generic_args@[i as int].name@));
            i = i + 1;
        }
        assert(generic_args@.take(generic_args@.len() as int) =~= generic_args@);
        let mut res = name.to_owned();
        res.append("<");
        let joined = join_strings(&names, ", ");
        res.append(joined.as_str());
        res.append(">");
        res
    }
}

impl Type {
    /// The name of the type, as written in Rust.
    pub fn name(&self) -> (res: String)
        ensures
            res@ == resolved_name(*self),
        decreases self,
    {
        match self {
            Type::Enum(name, args, _, _) => format_name_with_generics(name.as_str(), args.as_slice()),
            Type::GenericArgument(arg) => arg.name.clone(),
            Type::List(name, ty) => {
                let mut s = name.clone();
                s.append("<");
                let inner = ty.name();
                s.append(inner.as_str());
                s.append(">");
                s
            },
            Type::Mapping(name, key, value) => {
                let mut s = name.clone();
                s.append("<");
                let k = key.name();
                s.append(k.as_str());
                s.append(", ");
                let v = value.name();
                s.append(v.as_str());
                s.append(">");
                s
            },
            Type::Option(ty) => {
                let mut s = "Option<".to_owned();
                let inner = ty.name();
                s.append(inner.as_str());
                s.append(">");
                s
            },
            Type::Primitive(p) => p.name(),
            Type::String => "String".to_owned(),
            Type::Struct(name, args, _) => format_name_with_generics(name.as_str(), args.as_slice()),
            Type::Tuple(items) => {
                let mut names: Vec<String> = Vec::new();
                let mut i: usize = 0;
                assert(item_names(*self, 0) =~= Seq::<Seq<char>>::empty());
                while i < items.len()
                    invariant
                        i <= items@.len(),
                        *self == Type::Tuple(*items),
                        str_views(names@) == item_names(*self, i as nat),
                    decreases items@.len() - i,
                {
                    assert(decreases_to!(self => items@[i as int]));
                    let n = items[i].name();
                    let ghost before = names@;
                    names.push(n);
                    assert(str_views(names@) =~= str_views(before).push(n@));
                    i = i + 1;
                }
                let joined = join_strings(&names, ", ");
                let mut s = "(".to_owned();
                s.append(joined.as_str());
                s.append(")");
                s
            },
            Type::Unit => "()".to_owned(),
        }
    }

    /// A generic argument of the given name, of no known type.
    pub fn named_generic(name: &str) -> (res: Self)
        ensures
            res matches Type::GenericArgument(arg) && arg.name@ == name@ && arg.ty is None,
    {
        Type::GenericArgument(Box::new(GenericArgument { name: name.to_owned(), ty: None }))
    }
}

/// The Serde attributes of an enum: its variants in snake case, and its
/// tag and content properties where it has them.
pub open spec fn resolved_serde_attrs(o: EnumOptions) -> Seq<Seq<char>> {
    seq!["rename_all = \"snake_case\""@] + match o.tag_prop_name {
        Some(tag) => seq!["tag = "@ + tag@] + match o.content_prop_name {
            Some(content) => seq!["content = "@ + content@],
            None => Seq::empty(),
        },
        None => Seq::empty(),
    }
}

impl EnumOptions {
    /// The options of an enum without an `#[fp(...)]` attribute.
    pub fn default() -> (res: Self)
        ensures
            res.content_prop_name is None,
            res.tag_prop_name is None,
    {
        EnumOptions { content_prop_name: None, tag_prop_name: None }
    }

    /// The Serde attributes for the options.
    pub fn to_serde_attrs(&self) -> (res: Vec<String>)
        ensures
            str_views(res@) == resolved_serde_attrs(*self),
    {
        let mut attrs: Vec<String> = Vec::new();
        attrs.push("rename_all = \"snake_case\"".to_owned());
        if let Some(tag) = &self.tag_prop_name {
            let mut t = "tag = ".to_owned();
            t.append(tag.as_str());
            attrs.push(t);
            if let Some(content) = &self.content_prop_name {
                let mut c = "content = ".to_owned();
                c.append(content.as_str());
                attrs.push(c);
            }
        }
        assert(str_views(attrs@) =~= resolved_serde_attrs(*self));
        attrs
    }
}


/// Whether two optional strings hold the same text.
pub open spec fn same_text(a: Option<String>, b: Option<String>) -> bool {
    opt_view(a) == opt_view(b)
}

/// Whether two types are the same: the same shape, with the same texts.
pub open spec fn same_type(a: Type, b: Type) -> bool
    decreases a, 2nat, 0nat,
{
    match a {
        Type::Enum(n1, g1, v1, o1) => match b {
            Type::Enum(n2, g2, v2, o2) => {
                &&& n1@ == n2@
                &&& g1@.len() == g2@.len()
                &&& same_generic_args(a, g2@, g1@.len())
                &&& v1@.len() == v2@.len()
                &&& same_members(a, v2@.map_values(|v: Variant| (v.name, v.ty)), v1@.len())
                &&& same_text(o1.content_prop_name, o2.content_prop_name)
                &&& same_text(o1.tag_prop_name, o2.tag_prop_name)
            },
            _ => false,
        },
        Type::GenericArgument(x) => match b {
            Type::GenericArgument(y) => x.name@ == y.name@ && match (x.ty, y.ty) {
                (Some(s), Some(t)) => same_type(s, t),
                (None, None) => true,
                _ => false,
            },
            _ => false,
        },
        Type::List(n1, t1) => match b {
            Type::List(n2, t2) => n1@ == n2@ && same_type(*t1, *t2),
            _ => false,
        },
        Type::Mapping(n1, k1, v1) => match b {
            Type::Mapping(n2, k2, v2) => n1@ == n2@ && same_type(*k1, *k2) && same_type(*v1, *v2),
            _ => false,
        },
        Type::Option(t1) => match b {
            Type::Option(t2) => same_type(*t1, *t2),
            _ => false,
        },
        Type::Primitive(p) => b == Type::Primitive(p),
        Type::String => b is String,
        Type::Struct(n1, g1, f1) => match b {
            Type::Struct(n2, g2, f2) => {
                &&& n1@ == n2@
                &&& g1@.len() == g2@.len()
                &&& same_generic_args(a, g2@, g1@.len())
                &&& f1@.len() == f2@.len()
                &&& same_members(a, f2@.map_values(|f: Field| (f.name, f.ty)), f1@.len())
            },
            _ => false,
        },
        Type::Tuple(i1) => match b {
            Type::Tuple(i2) => i1@.len() == i2@.len() && same_items(a, i2@, i1@.len()),
            _ => false,
        },
        Type::Unit => b is Unit,
    }
}

/// Whether the first `n` generic arguments of the enum or struct type `a`
/// are the same as those of `other`.
pub open spec fn same_generic_args(a: Type, other: Seq<GenericArgument>, n: nat) -> bool
    decreases a, 1nat, n,
{
    let args = match a {
        Type::Enum(_, g, _, _) => g@,
        Type::Struct(_, g, _) => g@,
        _ => Seq::empty(),
    };
    if n == 0 || n > args.len() || n > other.len() {
        n == 0
    } else {
        &&& same_generic_args(a, other, (n - 1) as nat)
        &&& args[n - 1].name@ == other[n - 1].name@
        &&& match (args[n - 1].ty, other[n - 1].ty) {
            (Some(s), Some(t)) => same_type(s, t),
            (None, None) => true,
            _ => false,
        }
    }
}

/// Whether the first `n` variants (of an enum type) or fields (of a struct
/// type) of `a` have the same names and types as those of `other`.
pub open spec fn same_members(a: Type, other: Seq<(String, Type)>, n: nat) -> bool
    decreases a, 1nat, n,
{
    let members = match a {
        Type::Enum(_, _, v, _) => v@.map_values(|v: Variant| (v.name, v.ty)),
        Type::Struct(_, _, f) => f@.map_values(|f: Field| (f.name, f.ty)),
        _ => Seq::empty(),
    };
    if n == 0 || n > members.len() || n > other.len() {
        n == 0
    } else {
        &&& same_members(a, other, (n - 1) as nat)
        &&& members[n - 1].0@ == other[n - 1].0@
        &&& same_type(members[n - 1].1, other[n - 1].1)
    }
}

/// Whether the first `n` items of the tuple type `a` are the same as those
/// of `other`.
pub open spec fn same_items(a: Type, other: Seq<Type>, n: nat) -> bool
    decreases a, 1nat, n,
{
    match a {
        Type::Tuple(items) => if n == 0 || n > items@.len() || n > other.len() {
            n == 0
        } else {
            same_items(a, other, (n - 1) as nat) && same_type(items@[n - 1], other[n - 1])
        },
        _ => n == 0,
    }
}


proof fn lemma_generic_args_prefix(a: Type, other: Seq<GenericArgument>, k: nat, n: nat)
    requires
        k <= n,
        same_generic_args(a, other, n),
    ensures
        same_generic_args(a, other, k),
    decreases n - k,
{
    if k < n {
        lemma_generic_args_prefix(a, other, k, (n - 1) as nat);
    }
}

proof fn lemma_members_prefix(a: Type, other: Seq<(String, Type)>, k: nat, n: nat)
    requires
        k <= n,
        same_members(a, other, n),
    ensures
        same_members(a, other, k),
    decreases n - k,
{
    if k < n {
        lemma_members_prefix(a, other, k, (n - 1) as nat);
    }
}

proof fn lemma_items_prefix(a: Type, other: Seq<Type>, k: nat, n: nat)
    requires
        k <= n,
        same_items(a, other, n),
    ensures
        same_items(a, other, k),
    decreases n - k,
{
    if k < n {
        lemma_items_prefix(a, other, k, (n - 1) as nat);
    }
}

fn same_text_exec(a: &Option<String>, b: &Option<String>) -> (res: bool)
    ensures
        res == same_text(*a, *b),
{
    match (a, b) {
        (Some(x), Some(y)) => str_eq(x.as_str(), y.as_str()),
        (None, None) => true,
        _ => false,
    }
}

/// Whether two types are the same.
pub fn type_eq(a: &Type, b: &Type) -> (res: bool)
    ensures
        res == same_type(*a, *b),
    decreases a,
{
    match a {
        Type::Enum(n1, g1, v1, o1) => match b {
            Type::Enum(n2, g2, v2, o2) => {
                if !str_eq(n1.as_str(), n2.as_str()) || g1.len() != g2.len() || v1.len() != v2.len() {
                    return false;
                }
                let mut i: usize = 0;
                while i < g1.len()
                    invariant
                        i <= g1@.len() == g2@.len(),
                        *a == Type::Enum(*n1, *g1, *v1, *o1),
                        *b == Type::Enum(*n2, *g2, *v2, *o2),
                        same_generic_args(*a, g2@, i as nat),
                    decreases g1@.len() - i,
                {
                    if !str_eq(g1[i].name.as_str(), g2[i].name.as_str()) {
                        proof {
                            if same_generic_args(*a, g2@, g1@.len()) {
                                lemma_generic_args_prefix(*a, g2@, (i + 1) as nat, g1@.len());
                            }
                        }
                        return false;
                    }
                    let same = match (&g1[i].ty, &g2[i].ty) {
                        (Some(s), Some(t)) => {
                            assert(decreases_to!(a => s));
                            type_eq(s, t)
                        },
                        (None, None) => true,
                        _ => false,
                    };
                    if !same {
                        proof {
                            if same_generic_args(*a, g2@, g1@.len()) {
                                lemma_generic_args_prefix(*a, g2@, (i + 1) as nat, g1@.len());
                            }
                        }
                        return false;
                    }
                    i = i + 1;
                }
                let ghost others = v2@.map_values(|v: Variant| (v.name, v.ty));
                let mut i: usize = 0;
                while i < v1.len()
                    invariant
                        i <= v1@.len() == v2@.len(),
                        *a == Type::Enum(*n1, *g1, *v1, *o1),
                        *b == Type::Enum(*n2, *g2, *v2, *o2),
                        same_generic_args(*a, g2@, g1@.len()),
                        others == v2@.map_values(|v: Variant| (v.name, v.ty)),
                        same_members(*a, others, i as nat),
                    decreases v1@.len() - i,
                {
                    if !str_eq(v1[i].name.as_str(), v2[i].name.as_str()) {
                        proof {
                            if same_members(*a, others, v1@.len()) {
                                lemma_members_prefix(*a, others, (i + 1) as nat, v1@.len());
                            }
                        }
                        return false;
                    }
                    assert(decreases_to!(a => v1@[i as int].ty));
                    if !type_eq(&v1[i].ty, &v2[i].ty) {
                        proof {
                            if same_members(*a, others, v1@.len()) {
                                lemma_members_prefix(*a, others, (i + 1) as nat, v1@.len());
                            }
                        }
                        return false;
                    }
                    i = i + 1;
                }
                same_text_exec(&o1.content_prop_name, &o2.content_prop_name)
                    && same_text_exec(&o1.tag_prop_name, &o2.tag_prop_name)
            },
            _ => false,
        },
        Type::GenericArgument(x) => match b {
            Type::GenericArgument(y) => {
                if !str_eq(x.name.as_str(), y.name.as_str()) {
                    return false;
                }
                match (&x.ty, &y.ty) {
                    (Some(s), Some(t)) => type_eq(s, t),
                    (None, None) => true,
                    _ => false,
                }
            },
            _ => false,
        },
        Type::List(n1, t1) => match b {
            Type::List(n2, t2) => str_eq(n1.as_str(), n2.as_str()) && type_eq(t1, t2),
            _ => false,
        },
        Type::Mapping(n1, k1, v1) => match b {
            Type::Mapping(n2, k2, v2) => str_eq(n1.as_str(), n2.as_str()) && type_eq(k1, k2) && type_eq(v1, v2),
            _ => false,
        },
        Type::Option(t1) => match b {
            Type::Option(t2) => type_eq(t1, t2),
            _ => false,
        },
        Type::Primitive(p) => match b {
            Type::Primitive(q) => *p == *q,
            _ => false,
        },
        Type::String => match b {
            Type::String => true,
            _ => false,
        },
        Type::Struct(n1, g1, f1) => match b {
            Type::Struct(n2, g2, f2) => {
                if !str_eq(n1.as_str(), n2.as_str()) || g1.len() != g2.len() || f1.len() != f2.len() {
                    return false;
                }
                let mut i: usize = 0;
                while i < g1.len()
                    invariant
                        i <= g1@.len() == g2@.len(),
                        *a == Type::Struct(*n1, *g1, *f1),
                        *b == Type::Struct(*n2, *g2, *f2),
                        same_generic_args(*a, g2@, i as nat),
                    decreases g1@.len() - i,
                {
                    if !str_eq(g1[i].name.as_str(), g2[i].name.as_str()) {
                        proof {
                            if same_generic_args(*a, g2@, g1@.len()) {
                                lemma_generic_args_prefix(*a, g2@, (i + 1) as nat, g1@.len());
                            }
                        }
                        return false;
                    }
                    let same = match (&g1[i].ty, &g2[i].ty) {
                        (Some(s), Some(t)) => {
                            assert(decreases_to!(a => s));
                            type_eq(s, t)
                        },
                        (None, None) => true,
                        _ => false,
                    };
                    if !same {
                        proof {
                            if same_generic_args(*a, g2@, g1@.len()) {
                                lemma_generic_args_prefix(*a, g2@, (i + 1) as nat, g1@.len());
                            }
                        }
                        return false;
                    }
                    i = i + 1;
                }
                let ghost others = f2@.map_values(|f: Field| (f.name, f.ty));
                let mut i: usize = 0;
                while i < f1.len()
                    invariant
                        i <= f1@.len() == f2@.len(),
                        *a == Type::Struct(*n1, *g1, *f1),
                        *b == Type::Struct(*n2, *g2, *f2),
                        same_generic_args(*a, g2@, g1@.len()),
                        others == f2@.map_values(|f: Field| (f.name, f.ty)),
                        same_members(*a, others, i as nat),
                    decreases f1@.len() - i,
                {
                    if !str_eq(f1[i].name.as_str(), f2[i].name.as_str()) {
                        proof {
                            if same_members(*a, others, f1@.len()) {
                                lemma_members_prefix(*a, others, (i + 1) as nat, f1@.len());
                            }
                        }
                        return false;
                    }
                    assert(decreases_to!(a => f1@[i as int].ty));
                    if !type_eq(&f1[i].ty, &f2[i].ty) {
                        proof {
                            if same_members(*a, others, f1@.len()) {
                                lemma_members_prefix(*a, others, (i + 1) as nat, f1@.len());
                            }
                        }
                        return false;
                    }
                    i = i + 1;
                }
                true
            },
            _ => false,
        },
        Type::Tuple(i1) => match b {
            Type::Tuple(i2) => {
                if i1.len() != i2.len() {
                    return false;
                }
                let mut i: usize = 0;
                while i < i1.len()
                    invariant
                        i <= i1@.len() == i2@.len(),
                        *a == Type::Tuple(*i1),
                        *b == Type::Tuple(*i2),
                        same_items(*a, i2@, i as nat),
                    decreases i1@.len() - i,
                {
                    assert(decreases_to!(a => i1@[i as int]));
                    if !type_eq(&i1[i], &i2[i]) {
                        proof {
                            if same_items(*a, i2@, i1@.len()) {
                                lemma_items_prefix(*a, i2@, (i + 1) as nat, i1@.len());
                            }
                        }
                        return false;
                    }
                    i = i + 1;
                }
                true
            },
            _ => false,
        },
        Type::Unit => match b {
            Type::Unit => true,
            _ => false,
        },
    }
}


proof fn lemma_generic_args_push(a: Type, other: Seq<GenericArgument>, x: GenericArgument, n: nat)
    requires
        same_generic_args(a, other, n),
        n <= other.len(),
    ensures
        same_generic_args(a, other.push(x), n),
    decreases n,
{
    if n > 0 {
        lemma_generic_args_push(a, other, x, (n - 1) as nat);
        assert(other.push(x)[n - 1] == other[n - 1]);
    }
}

proof fn lemma_members_push(a: Type, other: Seq<(String, Type)>, x: (String, Type), n: nat)
    requires
        same_members(a, other, n),
        n <= other.len(),
    ensures
        same_members(a, other.push(x), n),
    decreases n,
{
    if n > 0 {
        lemma_members_push(a, other, x, (n - 1) as nat);
        assert(other.push(x)[n - 1] == other[n - 1]);
    }
}

proof fn lemma_items_push(a: Type, other: Seq<Type>, x: Type, n: nat)
    requires
        same_items(a, other, n),
        n <= other.len(),
    ensures
        same_items(a, other.push(x), n),
    decreases n,
{
    if n > 0 {
        lemma_items_push(a, other, x, (n - 1) as nat);
        assert(other.push(x)[n - 1] == other[n - 1]);
    }
}

/// A copy of a type: the same shape, with the same texts.
pub fn clone_type(t: &Type) -> (res: Type)
    ensures
        same_type(*t, res),
    decreases t,
{
    match t {
        Type::Enum(name, args, variants, opts) => {
            let mut new_args: Vec<GenericArgument> = Vec::new();
            let mut i: usize = 0;
            while i < args.len()
                invariant
                    i <= args@.len(),
                    *t == Type::Enum(*name, *args, *variants, *opts),
                    new_args@.len() == i,
                    same_generic_args(*t, new_args@, i as nat),
                decreases args@.len() - i,
            {
                let ty = match &args[i].ty {
                    Some(s) => {
                        assert(decreases_to!(t => s));
                        Some(clone_type(s))
                    },
                    None => None,
                };
                let arg = GenericArgument { name: args[i].name.clone(), ty };
                proof { lemma_generic_args_push(*t, new_args@, arg, i as nat); }
                new_args.push(arg);
                i = i + 1;
            }
            let mut new_variants: Vec<Variant> = Vec::new();
            let mut i: usize = 0;
            while i < variants.len()
                invariant
                    i <= variants@.len(),
                    *t == Type::Enum(*name, *args, *variants, *opts),
                    new_variants@.len() == i,
                    same_members(*t, new_variants@.map_values(|v: Variant| (v.name, v.ty)), i as nat),
                decreases variants@.len() - i,
            {
                assert(decreases_to!(t => variants@[i as int].ty));
                let v = Variant { name: variants[i].name.clone(), ty: clone_type(&variants[i].ty) };
                let ghost before = new_variants@.map_values(|v: Variant| (v.name, v.ty));
                proof { lemma_members_push(*t, before, (v.name, v.ty), i as nat); }
                new_variants.push(v);
                assert(new_variants@.map_values(|v: Variant| (v.name, v.ty)) =~= before.push((v.name, v.ty)));
                i = i + 1;
            }
            let new_opts = EnumOptions {
                content_prop_name: clone_opt(&opts.content_prop_name),
                tag_prop_name: clone_opt(&opts.tag_prop_name),
            };
            Type::Enum(name.clone(), new_args, new_variants, new_opts)
        },
        Type::GenericArgument(arg) => {
            let ty = match &arg.ty {
                Some(s) => Some(clone_type(s)),
                None => None,
            };
            Type::GenericArgument(Box::new(GenericArgument { name: arg.name.clone(), ty }))
        },
        Type::List(name, ty) => Type::List(name.clone(), Box::new(clone_type(ty))),
        Type::Mapping(name, key, value) => {
            Type::Mapping(name.clone(), Box::new(clone_type(key)), Box::new(clone_type(value)))
        },
        Type::Option(ty) => Type::Option(Box::new(clone_type(ty))),
        Type::Primitive(p) => Type::Primitive(*p),
        Type::String => Type::String,
        Type::Struct(name, args, fields) => {
            let mut new_args: Vec<GenericArgument> = Vec::new();
            let mut i: usize = 0;
            while i < args.len()
                invariant
                    i <= args@.len(),
                    *t == Type::Struct(*name, *args, *fields),
                    new_args@.len() == i,
                    same_generic_args(*t, new_args@, i as nat),
                decreases args@.len() - i,
            {
                let ty = match &args[i].ty {
                    Some(s) => {
                        assert(decreases_to!(t => s));
                        Some(clone_type(s))
                    },
                    None => None,
                };
                let arg = GenericArgument { name: args[i].name.clone(), ty };
                proof { lemma_generic_args_push(*t, new_args@, arg, i as nat); }
                new_args.push(arg);
                i = i + 1;
            }
            let mut new_fields: Vec<Field> = Vec::new();
            let mut i: usize = 0;
            while i < fields.len()
                invariant
                    i <= fields@.len(),
                    *t == Type::Struct(*name, *args, *fields),
                    new_fields@.len() == i,
                    same_members(*t, new_fields@.map_values(|f: Field| (f.name, f.ty)), i as nat),
                decreases fields@.len() - i,
            {
                assert(decreases_to!(t => fields@[i as int].ty));
                let f = Field { name: fields[i].name.clone(), ty: clone_type(&fields[i].ty) };
                let ghost before = new_fields@.map_values(|f: Field| (f.name, f.ty));
                proof { lemma_members_push(*t, before, (f.name, f.ty), i as nat); }
                new_fields.push(f);
                assert(new_fields@.map_values(|f: Field| (f.name, f.ty)) =~= before.push((f.name, f.ty)));
                i = i + 1;
            }
            Type::Struct(name.clone(), new_args, new_fields)
        },
        Type::Tuple(items) => {
            let mut new_items: Vec<Type> = Vec::new();
            let mut i: usize = 0;
            while i < items.len()
                invariant
                    i <= items@.len(),
                    *t == Type::Tuple(*items),
                    new_items@.len() == i,
                    same_items(*t, new_items@, i as nat),
                decreases items@.len() - i,
            {
                assert(decreases_to!(t => items@[i as int]));
                let item = clone_type(&items[i]);
                proof { lemma_items_push(*t, new_items@, item, i as nat); }
                new_items.push(item);
                i = i + 1;
            }
            Type::Tuple(new_items)
        },
        Type::Unit => Type::Unit,
    }
}


/// Where a type written in Rust source was found: a primitive, or the known
/// type at an index.
#[derive(Clone, Copy, Debug)]
pub enum Found {
    Primitive(Primitive),
    Index(usize),
}

/// The type that `f` stands for among the known types `types`.
pub open spec fn found_type(f: Found, types: Seq<Type>) -> Type {
    match f {
        Found::Primitive(p) => Type::Primitive(p),
        Found::Index(i) => types[i as int],
    }
}

/// Whether `f` stands for a type: a primitive, or an index of `types`.
pub open spec fn found_valid(f: Found, types: Seq<Type>) -> bool {
    match f {
        Found::Primitive(_) => true,
        Found::Index(i) => i < types.len(),
    }
}

/// The types that `found` stand for.
pub open spec fn found_types(found: Seq<Found>, types: Seq<Type>) -> Seq<Type> {
    found.map_values(|f: Found| found_type(f, types))
}

/// The known types of generic arguments, in order.
pub open spec fn arg_types(args: Seq<GenericArgument>) -> Seq<Type>
    decreases args.len(),
{
    if args.len() == 0 {
        Seq::empty()
    } else {
        match args.last().ty {
            Some(t) => arg_types(args.drop_last()).push(t),
            None => arg_types(args.drop_last()),
        }
    }
}

/// Whether two lists of types have the same length and the same types.
pub open spec fn same_type_list(a: Seq<Type>, b: Seq<Type>) -> bool {
    a.len() == b.len() && forall|i: int| 0 <= i < a.len() ==> same_type(#[trigger] a[i], b[i])
}

/// Whether the known type `t` is the type named by `path` with the generic
/// arguments `args`.
pub open spec fn candidate_matches(t: Type, path: Seq<char>, args: Seq<Type>) -> bool {
    match t {
        Type::Enum(name, g, _, _) => name@ == path && same_type_list(arg_types(g@), args),
        Type::GenericArgument(a) => a.name@ == path && args.len() == 0,
        Type::List(name, ty) => name@ == path && args.len() > 0 && same_type(args[0], *ty),
        Type::Mapping(name, key, value) => {
            &&& name@ == path
            &&& args.len() > 1
            &&& same_type(args[0], *key)
            &&& same_type(args[1], *value)
        },
        Type::Option(ty) => path == "Option"@ && args.len() > 0 && same_type(args[0], *ty),
        Type::Primitive(p) => primitive_name(p) == path,
        Type::String => path == "String"@,
        Type::Struct(name, g, _) => name@ == path && same_type_list(arg_types(g@), args),
        Type::Tuple(_) => false,
        Type::Unit => false,
    }
}

/// The first of the first `n` known types that is named by `path` with the
/// generic arguments `args`.
pub open spec fn first_candidate(path: Seq<char>, args: Seq<Type>, types: Seq<Type>, n: nat) -> Option<Found>
    decreases n,
{
    if n == 0 || n > types.len() {
        None
    } else {
        match first_candidate(path, args, types, (n - 1) as nat) {
            Some(f) => Some(f),
            None => if candidate_matches(types[n - 1], path, args) {
                Some(Found::Index((n - 1) as usize))
            } else {
                None
            },
        }
    }
}

/// The first of the first `n` known types that is the unit type.
pub open spec fn first_unit(types: Seq<Type>, n: nat) -> Option<Found>
    decreases n,
{
    if n == 0 || n > types.len() {
        None
    } else {
        match first_unit(types, (n - 1) as nat) {
            Some(f) => Some(f),
            None => if types[n - 1] is Unit {
                Some(Found::Index((n - 1) as usize))
            } else {
                None
            },
        }
    }
}

/// The first of the first `n` known types that is a tuple of the types
/// `items`.
pub open spec fn first_tuple(items: Seq<Type>, types: Seq<Type>, n: nat) -> Option<Found>
    decreases n,
{
    if n == 0 || n > types.len() {
        None
    } else {
        match first_tuple(items, types, (n - 1) as nat) {
            Some(f) => Some(f),
            None => if types[n - 1] matches Type::Tuple(its) && same_type_list(its@, items) {
                Some(Found::Index((n - 1) as usize))
            } else {
                None
            },
        }
    }
}

/// What a type written in Rust source resolves to among the known types
/// `types`: `None` where resolving it panics (a type that is neither a path
/// nor a tuple, or a tuple with an item that does not resolve), `Some(None)`
/// where no type matches, and otherwise where it was found.
pub open spec fn resolution(ty: TypeSyntax, types: Seq<Type>) -> Option<Option<Found>>
    decreases ty, 1nat, 0nat,
{
    match ty {
        TypeSyntax::Path(segments, args) => match resolved_args(ty, types, args@.len()) {
            None => None,
            Some(found) => match primitive_from_name(path_text(segments@)) {
                Some(p) => Some(Some(Found::Primitive(p))),
                None => Some(first_candidate(path_text(segments@), found_types(found, types), types, types.len())),
            },
        },
        TypeSyntax::Unit => Some(first_unit(types, types.len())),
        TypeSyntax::Tuple(items, _) => match resolved_items(ty, types, items@.len()) {
            None => None,
            Some(found) => Some(first_tuple(found_types(found, types), types, types.len())),
        },
        _ => None,
    }
}

/// What the first `n` generic arguments of the path `ty` resolve to: those
/// that are types and resolve, in order; `None` where one of them panics.
pub open spec fn resolved_args(ty: TypeSyntax, types: Seq<Type>, n: nat) -> Option<Seq<Found>>
    decreases ty, 0nat, n,
{
    match ty {
        TypeSyntax::Path(_, args) => if n == 0 || n > args@.len() {
            Some(Seq::empty())
        } else {
            match resolved_args(ty, types, (n - 1) as nat) {
                None => None,
                Some(prev) => match args@[n - 1] {
                    GenericArgSyntax::Type(t) => match resolution(t, types) {
                        None => None,
                        Some(None) => Some(prev),
                        Some(Some(f)) => Some(prev.push(f)),
                    },
                    _ => Some(prev),
                },
            }
        },
        _ => Some(Seq::empty()),
    }
}

/// What the first `n` items of the tuple `ty` resolve to; `None` where one
/// of them does not resolve.
pub open spec fn resolved_items(ty: TypeSyntax, types: Seq<Type>, n: nat) -> Option<Seq<Found>>
    decreases ty, 0nat, n,
{
    match ty {
        TypeSyntax::Tuple(items, _) => if n == 0 || n > items@.len() {
            Some(Seq::empty())
        } else {
            match resolved_items(ty, types, (n - 1) as nat) {
                None => None,
                Some(prev) => match resolution(items@[n - 1], types) {
                    Some(Some(f)) => Some(prev.push(f)),
                    _ => None,
                },
            }
        },
        _ => Some(Seq::empty()),
    }
}


proof fn lemma_resolved_args_stuck(ty: TypeSyntax, types: Seq<Type>, k: nat, n: nat)
    requires
        ty is Path,
        k <= n <= ty->Path_1@.len(),
        resolved_args(ty, types, k) is None,
    ensures
        resolved_args(ty, types, n) is None,
    decreases n - k,
{
    if n > k {
        lemma_resolved_args_stuck(ty, types, k, (n - 1) as nat);
    }
}

proof fn lemma_resolved_items_stuck(ty: TypeSyntax, types: Seq<Type>, k: nat, n: nat)
    requires
        ty is Tuple,
        k <= n <= ty->Tuple_0@.len(),
        resolved_items(ty, types, k) is None,
    ensures
        resolved_items(ty, types, n) is None,
    decreases n - k,
{
    if n > k {
        lemma_resolved_items_stuck(ty, types, k, (n - 1) as nat);
    }
}

proof fn lemma_first_candidate_stays(path: Seq<char>, args: Seq<Type>, types: Seq<Type>, k: nat, n: nat)
    requires
        k <= n <= types.len(),
        first_candidate(path, args, types, k) is Some,
    ensures
        first_candidate(path, args, types, n) == first_candidate(path, args, types, k),
    decreases n - k,
{
    if n > k {
        lemma_first_candidate_stays(path, args, types, k, (n - 1) as nat);
    }
}

proof fn lemma_first_unit_stays(types: Seq<Type>, k: nat, n: nat)
    requires
        k <= n <= types.len(),
        first_unit(types, k) is Some,
    ensures
        first_unit(types, n) == first_unit(types, k),
    decreases n - k,
{
    if n > k {
        lemma_first_unit_stays(types, k, (n - 1) as nat);
    }
}

proof fn lemma_first_tuple_stays(items: Seq<Type>, types: Seq<Type>, k: nat, n: nat)
    requires
        k <= n <= types.len(),
        first_tuple(items, types, k) is Some,
    ensures
        first_tuple(items, types, n) == first_tuple(items, types, k),
    decreases n - k,
{
    if n > k {
        lemma_first_tuple_stays(items, types, k, (n - 1) as nat);
    }
}

proof fn lemma_arg_types_prefix(args: Seq<GenericArgument>, i: int, n: int)
    requires
        0 <= i <= n <= args.len(),
    ensures
        arg_types(args.take(i)).len() <= arg_types(args.take(n)).len(),
        forall|j: int| 0 <= j < arg_types(args.take(i)).len()
            ==> #[trigger] arg_types(args.take(i))[j] == arg_types(args.take(n))[j],
    decreases n - i,
{
    if n > i {
        lemma_arg_types_prefix(args, i, n - 1);
        assert(args.take(n).drop_last() =~= args.take(n - 1));
    }
}

fn found_eq_type(f: &Found, t: &Type, types: &Vec<Type>) -> (res: bool)
    requires
        found_valid(*f, types@),
    ensures
        res == same_type(found_type(*f, types@), *t),
{
    match f {
        Found::Primitive(p) => {
            let ft = Type::Primitive(*p);
            type_eq(&ft, t)
        },
        Found::Index(i) => type_eq(&types[*i], t),
    }
}

fn type_eq_found(t: &Type, f: &Found, types: &Vec<Type>) -> (res: bool)
    requires
        found_valid(*f, types@),
    ensures
        res == same_type(*t, found_type(*f, types@)),
{
    match f {
        Found::Primitive(p) => {
            let ft = Type::Primitive(*p);
            type_eq(t, &ft)
        },
        Found::Index(i) => type_eq(t, &types[*i]),
    }
}

/// Whether the known types of the generic arguments `g` are the types that
/// `found` stand for.
fn generic_args_match(g: &Vec<GenericArgument>, found: &Vec<Found>, types: &Vec<Type>) -> (res: bool)
    requires
        forall|j: int| 0 <= j < found@.len() ==> found_valid(#[trigger] found@[j], types@),
    ensures
        res == same_type_list(arg_types(g@), found_types(found@, types@)),
{
    let ghost fts = found_types(found@, types@);
    let mut k: usize = 0;
    let mut i: usize = 0;
    assert(g@.take(0) =~= Seq::<GenericArgument>::empty());
    while i < g.len()
        invariant
            i <= g@.len(),
            fts == found_types(found@, types@),
            forall|j: int| 0 <= j < found@.len() ==> found_valid(#[trigger] found@[j], types@),
            arg_types(g@.take(i as int)).len() == k,
            k <= found@.len(),
            forall|j: int| 0 <= j < k ==> same_type(#[trigger] arg_types(g@.take(i as int))[j], fts[j]),
        decreases g@.len() - i,
    {
        let ghost prev = arg_types(g@.take(i as int));
        assert(g@.take(i as int + 1).drop_last() =~= g@.take(i as int));
        proof {
            lemma_arg_types_prefix(g@, i as int + 1, g@.len() as int);
            assert(g@.take(g@.len() as int) =~= g@);
        }
        if let Some(ty) = &g[i].ty {
            assert(arg_types(g@.take(i as int + 1)) == prev.push(*ty));
            if k >= found.len() {
                return false;
            }
            if !type_eq_found(ty, &found[k], types) {
                assert(arg_types(g@)[k as int] == arg_types(g@.take(i as int + 1))[k as int]);
                return false;
            }
            k = k + 1;
        }
        i = i + 1;
    }
    assert(g@.take(g@.len() as int) =~= g@);
    k == found.len()
}

/// Whether the items `items` are the types that `found` stand for.
fn items_match(items: &Vec<Type>, found: &Vec<Found>, types: &Vec<Type>) -> (res: bool)
    requires
        forall|j: int| 0 <= j < found@.len() ==> found_valid(#[trigger] found@[j], types@),
    ensures
        res == same_type_list(items@, found_types(found@, types@)),
{
    if items.len() != found.len() {
        return false;
    }
    let mut i: usize = 0;
    while i < items.len()
        invariant
            i <= items@.len() == found@.len(),
            forall|j: int| 0 <= j < found@.len() ==> found_valid(#[trigger] found@[j], types@),
            forall|j: int| 0 <= j < i ==> same_type(#[trigger] items@[j], found_types(found@, types@)[j]),
        decreases items@.len() - i,
    {
        if !type_eq_found(&items[i], &found[i], types) {
            return false;
        }
        i = i + 1;
    }
    true
}

/// Whether the known type `t` is named by `path` with the generic arguments
/// that `found` stand for.
fn candidate_matches_exec(t: &Type, path: &str, found: &Vec<Found>, types: &Vec<Type>) -> (res: bool)
    requires
        forall|j: int| 0 <= j < found@.len() ==> found_valid(#[trigger] found@[j], types@),
    ensures
        res == candidate_matches(*t, path@, found_types(found@, types@)),
{
    match t {
        Type::Enum(name, g, _, _) => str_eq(name.as_str(), path) && generic_args_match(g, found, types),
        Type::GenericArgument(a) => str_eq(a.name.as_str(), path) && found.len() == 0,
        Type::List(name, ty) => {
            str_eq(name.as_str(), path) && found.len() > 0 && found_eq_type(&found[0], ty, types)
        },
        Type::Mapping(name, key, value) => {
            str_eq(name.as_str(), path) && found.len() > 1 && found_eq_type(&found[0], key, types)
                && found_eq_type(&found[1], value, types)
        },
        Type::Option(ty) => {
            str_eq(path, "Option") && found.len() > 0 && found_eq_type(&found[0], ty, types)
        },
        Type::Primitive(p) => {
            let n = p.name();
            str_eq(n.as_str(), path)
        },
        Type::String => str_eq(path, "String"),
        Type::Struct(name, g, _) => str_eq(name.as_str(), path) && generic_args_match(g, found, types),
        Type::Tuple(_) => false,
        Type::Unit => false,
    }
}

fn find_candidate(path: &str, found: &Vec<Found>, types: &Vec<Type>) -> (res: Option<Found>)
    requires
        forall|j: int| 0 <= j < found@.len() ==> found_valid(#[trigger] found@[j], types@),
    ensures
        res == first_candidate(path@, found_types(found@, types@), types@, types@.len()),
        res matches Some(f) ==> found_valid(f, types@),
{
    let ghost args = found_types(found@, types@);
    let mut i: usize = 0;
    while i < types.len()
        invariant
            i <= types@.len(),
            args == found_types(found@, types@),
            forall|j: int| 0 <= j < found@.len() ==> found_valid(#[trigger] found@[j], types@),
            first_candidate(path@, args, types@, i as nat) is None,
        decreases types@.len() - i,
    {
        if candidate_matches_exec(&types[i], path, found, types) {
            proof { lemma_first_candidate_stays(path@, args, types@, (i + 1) as nat, types@.len()); }
            return Some(Found::Index(i));
        }
        i = i + 1;
    }
    None
}

fn find_unit(types: &Vec<Type>) -> (res: Option<Found>)
    ensures
        res == first_unit(types@, types@.len()),
        res matches Some(f) ==> found_valid(f, types@),
{
    let mut i: usize = 0;
    while i < types.len()
        invariant
            i <= types@.len(),
            first_unit(types@, i as nat) is None,
        decreases types@.len() - i,
    {
        if let Type::Unit = &types[i] {
            proof { lemma_first_unit_stays(types@, (i + 1) as nat, types@.len()); }
            return Some(Found::Index(i));
        }
        i = i + 1;
    }
    None
}

fn find_tuple(found: &Vec<Found>, types: &Vec<Type>) -> (res: Option<Found>)
    requires
        forall|j: int| 0 <= j < found@.len() ==> found_valid(#[trigger] found@[j], types@),
    ensures
        res == first_tuple(found_types(found@, types@), types@, types@.len()),
        res matches Some(f) ==> found_valid(f, types@),
{
    let ghost items = found_types(found@, types@);
    let mut i: usize = 0;
    while i < types.len()
        invariant
            i <= types@.len(),
            items == found_types(found@, types@),
            forall|j: int| 0 <= j < found@.len() ==> found_valid(#[trigger] found@[j], types@),
            first_tuple(items, types@, i as nat) is None,
        decreases types@.len() - i,
    {
        if let Type::Tuple(its) = &types[i] {
            if items_match(its, found, types) {
                proof { lemma_first_tuple_stays(items, types@, (i + 1) as nat, types@.len()); }
                return Some(Found::Index(i));
            }
        }
        i = i + 1;
    }
    None
}

fn resolve_found(ty: &TypeSyntax, types: &Vec<Type>) -> (res: Option<Found>)
    requires
        resolution(*ty, types@) is Some,
    ensures
        resolution(*ty, types@) == Some(res),
        res matches Some(f) ==> found_valid(f, types@),
    decreases ty,
{
    match ty {
        TypeSyntax::Path(segments, args) => {
            let mut found: Vec<Found> = Vec::new();
            let mut i: usize = 0;
            while i < args.len()
                invariant
                    i <= args@.len(),
                    *ty == TypeSyntax::Path(*segments, *args),
                    resolution(*ty, types@) is Some,
                    resolved_args(*ty, types@, i as nat) == Some(found@),
                    forall|j: int| 0 <= j < found@.len() ==> found_valid(#[trigger] found@[j], types@),
                decreases args@.len() - i,
            {
                proof {
                    if resolved_args(*ty, types@, (i + 1) as nat) is None {
                        lemma_resolved_args_stuck(*ty, types@, (i + 1) as nat, args@.len());
                    }
                }
                match &args[i] {
                    GenericArgSyntax::Type(t) => {
                        assert(decreases_to!(ty => t));
                        if let Some(f) = resolve_found(t, types) {
                            found.push(f);
                        }
                    },
                    _ => {},
                }
                i = i + 1;
            }
            let path = path_to_string(segments);
            match Primitive::from_str(path.as_str()) {
                Ok(p) => Some(Found::Primitive(p)),
                Err(_) => find_candidate(path.as_str(), &found, types),
            }
        },
        TypeSyntax::Unit => find_unit(types),
        TypeSyntax::Tuple(items, _) => {
            let mut found: Vec<Found> = Vec::new();
            let mut i: usize = 0;
            while i < items.len()
                invariant
                    i <= items@.len(),
                    *ty == TypeSyntax::Tuple(*items, ty->Tuple_1),
                    resolution(*ty, types@) is Some,
                    resolved_items(*ty, types@, i as nat) == Some(found@),
                    forall|j: int| 0 <= j < found@.len() ==> found_valid(#[trigger] found@[j], types@),
                decreases items@.len() - i,
            {
                proof {
                    if resolved_items(*ty, types@, (i + 1) as nat) is None {
                        lemma_resolved_items_stuck(*ty, types@, (i + 1) as nat, items@.len());
                    }
                }
                assert(decreases_to!(ty => items@[i as int]));
                match resolve_found(&items[i], types) {
                    Some(f) => found.push(f),
                    None => {
                        return None;
                    },
                }
                i = i + 1;
            }
            find_tuple(&found, types)
        },
        _ => None,
    }
}

/// Resolves a type written in Rust source against the known types `types`:
/// a primitive by its name, and otherwise a copy of the first known type
/// that matches it; `None` where none does.
pub fn resolve_type(ty: &TypeSyntax, types: &Vec<Type>) -> (res: Option<Type>)
    requires
        resolution(*ty, types@) is Some,
    ensures
        match resolution(*ty, types@) {
            Some(Some(f)) => res matches Some(r) && same_type(found_type(f, types@), r),
            _ => res is None,
        },
{
    match resolve_found(ty, types) {
        Some(Found::Primitive(p)) => Some(Type::Primitive(p)),
        Some(Found::Index(i)) => Some(clone_type(&types[i])),
        None => None,
    }
}

} // verus!
