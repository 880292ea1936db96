use vstd::prelude::*;
use std::collections::{BTreeMap, BTreeSet, HashMap, HashSet};
use std::rc::Rc;
use crate::primitives::Primitive;
use crate::text::str_views;
use crate::types::enums::{default_enum_options, default_variant_attrs};
use crate::types::type_ident::{lemma_args_view, IdentView};
use crate::types::type_map::{insert_entry, keeps_entries, lemma_keeps_entries_trans, lemma_lookup_key, lookup, lookup_key};
use crate::types::{Enum, EnumOptions, Type, TypeIdent, TypeMap, Variant, VariantAttrs};

verus! {

/// Whether `entries` hold a type under the key of the identifier `v`.
pub open spec fn holds_key(entries: Seq<(TypeIdent, Type)>, v: IdentView) -> bool {
    lookup_key(entries, v.name, v.array) is Some
}

/// A type that can cross the boundary between a plugin and its runtime.
pub trait Serializable: Sized {
    /// The identifier of the type, as a plain value.
    spec fn ident_view() -> IdentView;

    /// Whether `t` is the definition of the type.
    spec fn defines(t: Type) -> bool;

    /// The identifier of the type as defined in the protocol.
    fn ident() -> (res: TypeIdent)
        ensures
            res@ == Self::ident_view();

    /// The type definition.
    fn ty() -> (res: Type)
        ensures
            Self::defines(res);

    /// Whether this type is a primitive.
    fn is_primitive() -> (res: bool)
        default_ensures
            !res,
    {
        false
    }

    /// Collects the `Type` of this type and its dependencies into `types`,
    /// keeping every type that is there already: afterwards the map holds a
    /// type under the key of this type, its definition where the key was
    /// not held before.
    fn collect_types(types: &mut TypeMap)
        requires
            old(types).wf(),
        ensures
            final(types).wf(),
            keeps_entries(old(types)@, final(types)@),
            holds_key(final(types)@, Self::ident_view()),
            !holds_key(old(types)@, Self::ident_view()) ==> match lookup_key(
                final(types)@,
                Self::ident_view().name,
                Self::ident_view().array,
            ) {
                Some(t) => Self::defines(t),
                None => false,
            },
        default_ensures
            holds_key(old(types)@, Self::ident_view()) ==> final(types)@ == old(types)@,
            !holds_key(old(types)@, Self::ident_view()) ==> exists|i: TypeIdent, t: Type|
                i@ == Self::ident_view() && Self::defines(t) && final(types)@ == insert_entry(old(types)@, i, t),
    {
        let ident = Self::ident();
        let ty = Self::ty();
        let ghost (i, t) = (ident, ty);
        add_type(types, ident, ty);
        proof {
            lemma_add_type(old(types)@, types@, i, t);
        }
    }
}

/// Puts `ty` in for `ident` unless a type is held for its key already.
pub(crate) fn add_type(types: &mut TypeMap, ident: TypeIdent, ty: Type)
    requires
        old(types).wf(),
    ensures
        final(types).wf(),
        keeps_entries(old(types)@, final(types)@),
        lookup(old(types)@, ident) is Some ==> final(types)@ == old(types)@,
        lookup(old(types)@, ident) is None ==> final(types)@ == insert_entry(old(types)@, ident, ty),
        lookup(old(types)@, ident) is None ==> lookup(final(types)@, ident) == Some(ty),
        lookup(final(types)@, ident) is Some,
{
    types.insert_if_absent(ident, ty);
}

/// What `add_type` leaves, by the key of the identifier it was given.
pub(crate) proof fn lemma_add_type(before: Seq<(TypeIdent, Type)>, after: Seq<(TypeIdent, Type)>, ident: TypeIdent, ty: Type)
    requires
        lookup(before, ident) is Some ==> after == before,
        lookup(before, ident) is None ==> lookup(after, ident) == Some(ty),
        lookup(after, ident) is Some,
    ensures
        holds_key(before, ident@) <==> lookup(before, ident) is Some,
        holds_key(after, ident@),
        !holds_key(before, ident@) ==> lookup_key(after, ident@.name, ident@.array) == Some(ty),
{
    lemma_lookup_key(before, ident);
    lemma_lookup_key(after, ident);
}

/// A type held under a key stays held where every entry is kept.
pub(crate) proof fn lemma_kept_key(before: Seq<(TypeIdent, Type)>, after: Seq<(TypeIdent, Type)>, v: IdentView)
    requires
        keeps_entries(before, after),
        holds_key(before, v),
    ensures
        lookup_key(after, v.name, v.array) == lookup_key(before, v.name, v.array),
{
}

/// The identifier of a name without generic arguments.
pub open spec fn plain_ident(name: Seq<char>) -> IdentView {
    IdentView { name, generic_args: Seq::empty(), array: None }
}

/// The identifier `name<P1, ..>` of a generic type with the parameters
/// `params`.
pub open spec fn generic_ident_view(name: Seq<char>, params: Seq<Seq<char>>) -> IdentView {
    IdentView {
        name,
        generic_args: params.map_values(|p: Seq<char>| (plain_ident(p), Seq::<Seq<char>>::empty())),
        array: None,
    }
}

/// The identifier `name<P1, ..>` of a generic type, with its parameters.
fn generic_ident(name: &str, params: &[&str]) -> (res: TypeIdent)
    ensures
        res@ == generic_ident_view(name@, params@.map_values(|p: &str| p@)),
{
    let mut args: Vec<(TypeIdent, Vec<String>)> = Vec::new();
    let mut i: usize = 0;
    while i < params.len()
        invariant
            i <= params@.len(),
            args@.len() == i,
            forall|k: int| 0 <= k < i ==> {
                &&& (#[trigger] args@[k]).0@ == plain_ident(params@[k]@)
                &&& args@[k].1@.len() == 0
            },
        decreases params@.len() - i,
    {
        let p = param(params[i]);
        args.push((p, Vec::new()));
        i = i + 1;
    }
    let res = TypeIdent::new(name, args);
    proof {
        lemma_args_view(args@);
        assert forall|k: int| 0 <= k < args@.len() implies str_views(args@[k].1@) =~= Seq::<Seq<char>>::empty() by {}
        assert(res@.generic_args =~= params@.map_values(|p: &str| p@).map_values(
            |p: Seq<char>| (plain_ident(p), Seq::<Seq<char>>::empty())));
    }
    res
}

/// The identifier of a name without generic arguments.
pub(crate) fn param(name: &str) -> (res: TypeIdent)
    ensures
        res@ == plain_ident(name@),
{
    let res = TypeIdent::new(name, Vec::new());
    assert(res@.generic_args =~= Seq::<(IdentView, Seq<Seq<char>>)>::empty());
    res
}

/// The identifier `name<p>`.
fn generic_ident1(name: &str, p: &str) -> (res: TypeIdent)
    ensures
        res@ == generic_ident_view(name@, seq![p@]),
{
    let params: [&str; 1] = [p];
    let res = generic_ident(name, &params);
    assert(params@.map_values(|p: &str| p@) =~= seq![p@]);
    res
}

/// The identifier `name<p, q>`.
pub(crate) fn generic_ident2(name: &str, p: &str, q: &str) -> (res: TypeIdent)
    ensures
        res@ == generic_ident_view(name@, seq![p@, q@]),
{
    let params: [&str; 2] = [p, q];
    let res = generic_ident(name, &params);
    assert(params@.map_values(|p: &str| p@) =~= seq![p@, q@]);
    res
}

/// Whether `t` is a type of the given kind (`Box`, `Option` or `Rc`) around
/// the parameter `T`.
pub open spec fn container_of_t(t: Type, name: Seq<char>) -> bool {
    match t {
        Type::Container(n, item) => n@ == name && item@ == plain_ident("T"@),
        _ => false,
    }
}

/// Whether `t` is a list type of the given kind over the parameter `T`.
pub open spec fn list_of_t(t: Type, name: Seq<char>) -> bool {
    match t {
        Type::List(n, item) => n@ == name && item@ == plain_ident("T"@),
        _ => false,
    }
}

/// Whether `t` is a map type of the given kind from `K` to `V`.
pub open spec fn map_of_k_v(t: Type, name: Seq<char>) -> bool {
    match t {
        Type::Mapping(n, k, v) => n@ == name && k@ == plain_ident("K"@) && v@ == plain_ident("V"@),
        _ => false,
    }
}

/// Whether `v` is a variant of the given name, holding the parameter
/// `param` alone, with the given doc comment and no attributes.
pub open spec fn single_item_variant(v: Variant, name: Seq<char>, param: Seq<char>, doc: Seq<char>) -> bool {
    &&& v.name@ == name
    &&& match v.ty {
        Type::Tuple(items) => items@.len() == 1 && items@[0]@ == plain_ident(param),
        _ => false,
    }
    &&& str_views(v.doc_lines@) == seq![doc]
    &&& v.attrs@ == default_variant_attrs()
}

/// Whether `t` is the definition of `Result<T, E>`: an enum of `Ok(T)` and
/// `Err(E)`.
pub open spec fn result_definition(t: Type) -> bool {
    match t {
        Type::Enum(e) => {
            &&& e.ident@ == generic_ident_view("Result"@, seq!["T"@, "E"@])
            &&& e.variants@.len() == 2
            &&& single_item_variant(e.variants@[0], "Ok"@, "T"@, " Represents a successful result."@)
            &&& single_item_variant(e.variants@[1], "Err"@, "E"@, " Represents an error."@)
            &&& str_views(e.doc_lines@) == seq![" A result that can be either successful (`Ok`) or represent an error (`Err`)."@]
            &&& e.options@ == default_enum_options()
        },
        _ => false,
    }
}

impl<T: Serializable> Serializable for Box<T> {
    open spec fn ident_view() -> IdentView {
        generic_ident_view("Box"@, seq!["T"@])
    }

    fn ident() -> TypeIdent {
        generic_ident1("Box", "T")
    }

    open spec fn defines(t: Type) -> bool {
        container_of_t(t, "Box"@)
    }

    fn ty() -> Type {
        Type::Container("Box".to_owned(), param("T"))
    }

    fn collect_types(types: &mut TypeMap)
        ensures
            holds_key(final(types)@, T::ident_view()),
    {
        let ident = Self::ident();
        let ty = Self::ty();
        let ghost (i, t, before) = (ident, ty, types@);
        add_type(types, ident, ty);
        let ghost mid = types@;
        proof {
            lemma_add_type(before, mid, i, t);
        }
        T::collect_types(types);
        proof {
            lemma_keeps_entries_trans(before, mid, types@);
            if !holds_key(before, i@) {
                lemma_kept_key(mid, types@, i@);
            }
        }
    }
}

impl<K: Serializable, V: Serializable> Serializable for BTreeMap<K, V> {
    open spec fn ident_view() -> IdentView {
        generic_ident_view("BTreeMap"@, seq!["K"@, "V"@])
    }

    fn ident() -> TypeIdent {
        generic_ident2("BTreeMap", "K", "V")
    }

    open spec fn defines(t: Type) -> bool {
        map_of_k_v(t, "BTreeMap"@)
    }

    fn ty() -> Type {
        Type::Mapping("BTreeMap".to_owned(), param("K"), param("V"))
    }

    fn collect_types(types: &mut TypeMap)
        ensures
            holds_key(final(types)@, K::ident_view()),
            holds_key(final(types)@, V::ident_view()),
    {
        let ident = Self::ident();
        let ty = Self::ty();
        let ghost (i, t, before) = (ident, ty, types@);
        add_type(types, ident, ty);
        let ghost mid = types@;
        proof {
            lemma_add_type(before, mid, i, t);
        }
        K::collect_types(types);
        let ghost mid2 = types@;
        V::collect_types(types);
        proof {
            lemma_keeps_entries_trans(before, mid, mid2);
            lemma_keeps_entries_trans(before, mid2, types@);
            lemma_keeps_entries_trans(mid, mid2, types@);
            lemma_kept_key(mid2, types@, K::ident_view());
            if !holds_key(before, i@) {
                lemma_kept_key(mid, types@, i@);
            }
        }
    }
}

impl<T: Serializable> Serializable for BTreeSet<T> {
    open spec fn ident_view() -> IdentView {
        generic_ident_view("BTreeSet"@, seq!["T"@])
    }

    fn ident() -> TypeIdent {
        generic_ident1("BTreeSet", "T")
    }

    open spec fn defines(t: Type) -> bool {
        list_of_t(t, "BTreeSet"@)
    }

    fn ty() -> Type {
        Type::List("BTreeSet".to_owned(), param("T"))
    }

    fn collect_types(types: &mut TypeMap)
        ensures
            holds_key(final(types)@, T::ident_view()),
    {
        let ident = Self::ident();
        let ty = Self::ty();
        let ghost (i, t, before) = (ident, ty, types@);
        add_type(types, ident, ty);
        let ghost mid = types@;
        proof {
            lemma_add_type(before, mid, i, t);
        }
        T::collect_types(types);
        proof {
            lemma_keeps_entries_trans(before, mid, types@);
            if !holds_key(before, i@) {
                lemma_kept_key(mid, types@, i@);
            }
        }
    }
}

impl<K: Serializable, V: Serializable> Serializable for HashMap<K, V> {
    open spec fn ident_view() -> IdentView {
        generic_ident_view("HashMap"@, seq!["K"@, "V"@])
    }

    fn ident() -> TypeIdent {
        generic_ident2("HashMap", "K", "V")
    }

    open spec fn defines(t: Type) -> bool {
        map_of_k_v(t, "HashMap"@)
    }

    fn ty() -> Type {
        Type::Mapping("HashMap".to_owned(), param("K"), param("V"))
    }

    fn collect_types(types: &mut TypeMap)
        ensures
            holds_key(final(types)@, K::ident_view()),
            holds_key(final(types)@, V::ident_view()),
    {
        let ident = Self::ident();
        let ty = Self::ty();
        let ghost (i, t, before) = (ident, ty, types@);
        add_type(types, ident, ty);
        let ghost mid = types@;
        proof {
            lemma_add_type(before, mid, i, t);
        }
        K::collect_types(types);
        let ghost mid2 = types@;
        V::collect_types(types);
        proof {
            lemma_keeps_entries_trans(before, mid, mid2);
            lemma_keeps_entries_trans(before, mid2, types@);
            lemma_keeps_entries_trans(mid, mid2, types@);
            lemma_kept_key(mid2, types@, K::ident_view());
            if !holds_key(before, i@) {
                lemma_kept_key(mid, types@, i@);
            }
        }
    }
}

impl<T: Serializable> Serializable for HashSet<T> {
    open spec fn ident_view() -> IdentView {
        generic_ident_view("HashSet"@, seq!["T"@])
    }

    fn ident() -> TypeIdent {
        generic_ident1("HashSet", "T")
    }

    open spec fn defines(t: Type) -> bool {
        list_of_t(t, "HashSet"@)
    }

    fn ty() -> Type {
        Type::List("HashSet".to_owned(), param("T"))
    }

    fn collect_types(types: &mut TypeMap)
        ensures
            holds_key(final(types)@, T::ident_view()),
    {
        let ident = Self::ident();
        let ty = Self::ty();
        let ghost (i, t, before) = (ident, ty, types@);
        add_type(types, ident, ty);
        let ghost mid = types@;
        proof {
            lemma_add_type(before, mid, i, t);
        }
        T::collect_types(types);
        proof {
            lemma_keeps_entries_trans(before, mid, types@);
            if !holds_key(before, i@) {
                lemma_kept_key(mid, types@, i@);
            }
        }
    }
}

impl<T: Serializable> Serializable for Option<T> {
    open spec fn ident_view() -> IdentView {
        generic_ident_view("Option"@, seq!["T"@])
    }

    fn ident() -> TypeIdent {
        generic_ident1("Option", "T")
    }

    open spec fn defines(t: Type) -> bool {
        container_of_t(t, "Option"@)
    }

    fn ty() -> Type {
        Type::Container("Option".to_owned(), param("T"))
    }

    fn collect_types(types: &mut TypeMap)
        ensures
            holds_key(final(types)@, T::ident_view()),
    {
        let ident = Self::ident();
        let ty = Self::ty();
        let ghost (i, t, before) = (ident, ty, types@);
        add_type(types, ident, ty);
        let ghost mid = types@;
        proof {
            lemma_add_type(before, mid, i, t);
        }
        T::collect_types(types);
        proof {
            lemma_keeps_entries_trans(before, mid, types@);
            if !holds_key(before, i@) {
                lemma_kept_key(mid, types@, i@);
            }
        }
    }
}

impl<T: Serializable> Serializable for Rc<T> {
    open spec fn ident_view() -> IdentView {
        generic_ident_view("Rc"@, seq!["T"@])
    }

    fn ident() -> TypeIdent {
        generic_ident1("Rc", "T")
    }

    open spec fn defines(t: Type) -> bool {
        container_of_t(t, "Rc"@)
    }

    fn ty() -> Type {
        Type::Container("Rc".to_owned(), param("T"))
    }

    fn collect_types(types: &mut TypeMap)
        ensures
            holds_key(final(types)@, T::ident_view()),
    {
        let ident = Self::ident();
        let ty = Self::ty();
        let ghost (i, t, before) = (ident, ty, types@);
        add_type(types, ident, ty);
        let ghost mid = types@;
        proof {
            lemma_add_type(before, mid, i, t);
        }
        T::collect_types(types);
        proof {
            lemma_keeps_entries_trans(before, mid, types@);
            if !holds_key(before, i@) {
                lemma_kept_key(mid, types@, i@);
            }
        }
    }
}

impl<T: Serializable, E: Serializable> Serializable for Result<T, E> {
    open spec fn ident_view() -> IdentView {
        generic_ident_view("Result"@, seq!["T"@, "E"@])
    }

    fn ident() -> TypeIdent {
        generic_ident2("Result", "T", "E")
    }

    open spec fn defines(t: Type) -> bool {
        result_definition(t)
    }

    fn ty() -> Type {
        let mut ok: Vec<TypeIdent> = Vec::new();
        ok.push(param("T"));
        let mut err: Vec<TypeIdent> = Vec::new();
        err.push(param("E"));
        let mut ok_doc: Vec<String> = Vec::new();
        ok_doc.push(" Represents a successful result.".to_owned());
        let mut err_doc: Vec<String> = Vec::new();
        err_doc.push(" Represents an error.".to_owned());
        let mut doc: Vec<String> = Vec::new();
        doc.push(" A result that can be either successful (`Ok`) or represent an error (`Err`).".to_owned());
        let ghost (ok_view, err_view, doc_view) = (ok_doc@, err_doc@, doc@);
        let mut variants: Vec<Variant> = Vec::new();
        variants.push(Variant { name: "Ok".to_owned(), ty: Type::Tuple(ok), doc_lines: ok_doc, attrs: VariantAttrs::default() });
        variants.push(Variant { name: "Err".to_owned(), ty: Type::Tuple(err), doc_lines: err_doc, attrs: VariantAttrs::default() });
        let ident = generic_ident2("Result", "T", "E");
        let res = Type::Enum(Enum { ident, variants, doc_lines: doc, options: EnumOptions::default() });
        assert(str_views(ok_view) =~= seq![" Represents a successful result."@]);
        assert(str_views(err_view) =~= seq![" Represents an error."@]);
        assert(str_views(doc_view) =~= seq![" A result that can be either successful (`Ok`) or represent an error (`Err`)."@]);
        res
    }

    fn collect_types(types: &mut TypeMap)
        ensures
            holds_key(final(types)@, T::ident_view()),
            holds_key(final(types)@, E::ident_view()),
    {
        let ident = Self::ident();
        let ty = Self::ty();
        let ghost (i, t, before) = (ident, ty, types@);
        add_type(types, ident, ty);
        let ghost mid = types@;
        proof {
            lemma_add_type(before, mid, i, t);
        }
        T::collect_types(types);
        let ghost mid2 = types@;
        E::collect_types(types);
        proof {
            lemma_keeps_entries_trans(before, mid, mid2);
            lemma_keeps_entries_trans(before, mid2, types@);
            lemma_keeps_entries_trans(mid, mid2, types@);
            lemma_kept_key(mid2, types@, T::ident_view());
            if !holds_key(before, i@) {
                lemma_kept_key(mid, types@, i@);
            }
        }
    }
}

impl Serializable for () {
    open spec fn ident_view() -> IdentView {
        plain_ident("()"@)
    }

    fn ident() -> TypeIdent {
        param("()")
    }

    open spec fn defines(t: Type) -> bool {
        t is Unit
    }

    fn ty() -> Type {
        Type::Unit
    }
}

impl Serializable for String {
    open spec fn ident_view() -> IdentView {
        plain_ident("String"@)
    }

    fn ident() -> TypeIdent {
        param("String")
    }

    open spec fn defines(t: Type) -> bool {
        t is String
    }

    fn ty() -> Type {
        Type::String
    }
}

impl<T: Serializable> Serializable for Vec<T> {
    open spec fn ident_view() -> IdentView {
        generic_ident_view("Vec"@, seq!["T"@])
    }

    fn ident() -> TypeIdent {
        generic_ident1("Vec", "T")
    }

    open spec fn defines(t: Type) -> bool {
        list_of_t(t, "Vec"@)
    }

    fn ty() -> Type {
        Type::List("Vec".to_owned(), param("T"))
    }

    fn collect_types(types: &mut TypeMap)
        ensures
            holds_key(final(types)@, T::ident_view()),
    {
        let ident = Self::ident();
        let ty = Self::ty();
        let ghost (i, t, before) = (ident, ty, types@);
        add_type(types, ident, ty);
        let ghost mid = types@;
        proof {
            lemma_add_type(before, mid, i, t);
        }
        T::collect_types(types);
        proof {
            lemma_keeps_entries_trans(before, mid, types@);
            if !holds_key(before, i@) {
                lemma_kept_key(mid, types@, i@);
            }
        }
    }
}

impl Serializable for bool {
    open spec fn ident_view() -> IdentView {
        plain_ident("bool"@)
    }

    fn ident() -> TypeIdent {
        param("bool")
    }

    open spec fn defines(t: Type) -> bool {
        t == Type::Primitive(Primitive::Bool)
    }

    fn ty() -> Type {
        Type::Primitive(Primitive::Bool)
    }

    fn is_primitive() -> (res: bool)
        ensures
            res,
    {
        true
    }
}

impl Serializable for u8 {
    open spec fn ident_view() -> IdentView {
        plain_ident("u8"@)
    }

    fn ident() -> TypeIdent {
        param("u8")
    }

    open spec fn defines(t: Type) -> bool {
        t == Type::Primitive(Primitive::U8)
    }

    fn ty() -> Type {
        Type::Primitive(Primitive::U8)
    }

    fn is_primitive() -> (res: bool)
        ensures
            res,
    {
        true
    }
}

impl Serializable for u16 {
    open spec fn ident_view() -> IdentView {
        plain_ident("u16"@)
    }

    fn ident() -> TypeIdent {
        param("u16")
    }

    open spec fn defines(t: Type) -> bool {
        t == Type::Primitive(Primitive::U16)
    }

    fn ty() -> Type {
        Type::Primitive(Primitive::U16)
    }

    fn is_primitive() -> (res: bool)
        ensures
            res,
    {
        true
    }
}

impl Serializable for u32 {
    open spec fn ident_view() -> IdentView {
        plain_ident("u32"@)
    }

    fn ident() -> TypeIdent {
        param("u32")
    }

    open spec fn defines(t: Type) -> bool {
        t == Type::Primitive(Primitive::U32)
    }

    fn ty() -> Type {
        Type::Primitive(Primitive::U32)
    }

    fn is_primitive() -> (res: bool)
        ensures
            res,
    {
        true
    }
}

impl Serializable for u64 {
    open spec fn ident_view() -> IdentView {
        plain_ident("u64"@)
    }

    fn ident() -> TypeIdent {
        param("u64")
    }

    open spec fn defines(t: Type) -> bool {
        t == Type::Primitive(Primitive::U64)
    }

    fn ty() -> Type {
        Type::Primitive(Primitive::U64)
    }

    fn is_primitive() -> (res: bool)
        ensures
            res,
    {
        true
    }
}

impl Serializable for i8 {
    open spec fn ident_view() -> IdentView {
        plain_ident("i8"@)
    }

    fn ident() -> TypeIdent {
        param("i8")
    }

    open spec fn defines(t: Type) -> bool {
        t == Type::Primitive(Primitive::I8)
    }

    fn ty() -> Type {
        Type::Primitive(Primitive::I8)
    }

    fn is_primitive() -> (res: bool)
        ensures
            res,
    {
        true
    }
}

impl Serializable for i16 {
    open spec fn ident_view() -> IdentView {
        plain_ident("i16"@)
    }

    fn ident() -> TypeIdent {
        param("i16")
    }

    open spec fn defines(t: Type) -> bool {
        t == Type::Primitive(Primitive::I16)
    }

    fn ty() -> Type {
        Type::Primitive(Primitive::I16)
    }

    fn is_primitive() -> (res: bool)
        ensures
            res,
    {
        true
    }
}

impl Serializable for i32 {
    open spec fn ident_view() -> IdentView {
        plain_ident("i32"@)
    }

    fn ident() -> TypeIdent {
        param("i32")
    }

    open spec fn defines(t: Type) -> bool {
        t == Type::Primitive(Primitive::I32)
    }

    fn ty() -> Type {
        Type::Primitive(Primitive::I32)
    }

    fn is_primitive() -> (res: bool)
        ensures
            res,
    {
        true
    }
}

impl Serializable for i64 {
    open spec fn ident_view() -> IdentView {
        plain_ident("i64"@)
    }

    fn ident() -> TypeIdent {
        param("i64")
    }

    open spec fn defines(t: Type) -> bool {
        t == Type::Primitive(Primitive::I64)
    }

    fn ty() -> Type {
        Type::Primitive(Primitive::I64)
    }

    fn is_primitive() -> (res: bool)
        ensures
            res,
    {
        true
    }
}

} // verus!
