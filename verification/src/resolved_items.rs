//! Reading struct and enum items, as written in Rust source, into resolved
//! types: the types of their fields are looked up among known types.

use vstd::prelude::*;
use crate::resolved::{
    arg_names, found_type, resolution, resolve_type, same_type, EnumOptions, Field, GenericArgument, Type, Variant,
};
use crate::text::str_eq;
use crate::types::attrs::{entries_view, opt_view, AttrEntry, Attribute};
use crate::types::items::{has_named_field, EnumItemSyntax, FieldSyntax, GenericParamSyntax, StructItemSyntax, VariantSyntax};
use crate::types::syntax::TypeSyntax;

verus! {

/// A struct or enum item, as written in Rust source.
#[derive(Debug)]
pub enum ItemSyntax {
    Struct(StructItemSyntax),
    Enum(EnumItemSyntax),
}

/// The names of the type parameters among `generics`, in order.
pub open spec fn type_param_names(generics: Seq<GenericParamSyntax>) -> Seq<Seq<char>>
    decreases generics.len(),
{
    if generics.len() == 0 {
        Seq::empty()
    } else {
        match generics.last() {
            GenericParamSyntax::Type(p) => type_param_names(generics.drop_last()).push(p.ident@),
            GenericParamSyntax::Other => type_param_names(generics.drop_last()),
        }
    }
}

/// Whether `args` are the type parameters of `generics`, of no known type.
pub open spec fn params_read(args: Seq<GenericArgument>, generics: Seq<GenericParamSyntax>) -> bool {
    &&& arg_names(args) == type_param_names(generics)
    &&& forall|i: int| 0 <= i < args.len() ==> (#[trigger] args[i]).ty is None
}

/// Whether a type written in Rust source resolves to a known type, without
/// a panic.
pub open spec fn resolves(ty: TypeSyntax, types: Seq<Type>) -> bool {
    resolution(ty, types) matches Some(Some(_))
}

/// Whether `t` is a copy of the type that `ty` resolves to.
pub open spec fn resolved_as(ty: TypeSyntax, types: Seq<Type>, t: Type) -> bool {
    match resolution(ty, types) {
        Some(Some(f)) => same_type(found_type(f, types), t),
        _ => false,
    }
}

/// Whether named fields can be read: each has a name and a type that
/// resolves.
pub open spec fn named_fields_readable(fields: Seq<FieldSyntax>, types: Seq<Type>) -> bool {
    forall|i: int| 0 <= i < fields.len() ==> (#[trigger] fields[i]).ident is Some && resolves(fields[i].ty, types)
}

/// Whether `f` is what the named field `s` is read as.
pub open spec fn named_field_read(f: Field, s: FieldSyntax, types: Seq<Type>) -> bool {
    match s.ident {
        Some(n) => f.name@ == n@ && resolved_as(s.ty, types, f.ty),
        None => false,
    }
}

/// Whether `fs` are what the named fields `fields` are read as.
pub open spec fn named_fields_read(fs: Seq<Field>, fields: Seq<FieldSyntax>, types: Seq<Type>) -> bool {
    &&& fs.len() == fields.len()
    &&& forall|i: int| 0 <= i < fs.len() ==> #[trigger] named_field_read(fs[i], fields[i], types)
}

/// Whether `items` are what the unnamed fields `fields` are read as.
pub open spec fn items_read(items: Seq<Type>, fields: Seq<FieldSyntax>, types: Seq<Type>) -> bool {
    &&& items.len() == fields.len()
    &&& forall|i: int| 0 <= i < items.len() ==> resolved_as(fields[i].ty, types, #[trigger] items[i])
}

/// Whether a variant can be read without a panic: it has no discriminant,
/// and its fields are all named or all unnamed, with types that resolve.
pub open spec fn variant_readable(v: VariantSyntax, types: Seq<Type>) -> bool {
    &&& !v.has_discriminant
    &&& if has_named_field(v.fields@) {
        named_fields_readable(v.fields@, types)
    } else {
        forall|i: int| 0 <= i < v.fields@.len() ==> resolves((#[trigger] v.fields@[i]).ty, types)
    }
}

/// Whether `t` is the type of the variant `v`: the unit type without
/// fields, a struct of the variant's name for named fields, and a tuple
/// otherwise.
pub open spec fn variant_type_read(t: Type, v: VariantSyntax, types: Seq<Type>) -> bool {
    if v.fields@.len() == 0 {
        t is Unit
    } else if has_named_field(v.fields@) {
        match t {
            Type::Struct(name, args, fields) => {
                &&& name@ == v.ident@
                &&& args@.len() == 0
                &&& named_fields_read(fields@, v.fields@, types)
            },
            _ => false,
        }
    } else {
        match t {
            Type::Tuple(items) => items_read(items@, v.fields@, types),
            _ => false,
        }
    }
}

/// Whether an attribute is `#[fp(...)]`.
pub open spec fn is_fp_attr(a: Attribute) -> bool {
    match a.ident {
        Some(i) => i@ == "fp"@,
        None => false,
    }
}

/// The first `#[fp(...)]` attribute among `attrs`.
pub open spec fn first_fp_attr(attrs: Seq<Attribute>) -> Option<Attribute>
    decreases attrs.len(),
{
    if attrs.len() == 0 {
        None
    } else if is_fp_attr(attrs[0]) {
        Some(attrs[0])
    } else {
        first_fp_attr(attrs.drop_first())
    }
}

/// The content and tag property names that the entries of an `#[fp(...)]`
/// attribute set, each entry overriding those before it; `None` where an
/// entry is not `content = "..."` or `tag = "..."`.
pub open spec fn option_entries(es: Seq<(Seq<char>, Option<Seq<char>>)>) -> Option<(Option<Seq<char>>, Option<Seq<char>>)>
    decreases es.len(),
{
    if es.len() == 0 {
        Some((None, None))
    } else {
        match option_entries(es.drop_last()) {
            None => None,
            Some((content, tag)) => match es.last() {
                (key, Some(value)) => if key == "content"@ {
                    Some((Some(value), tag))
                } else if key == "tag"@ {
                    Some((content, Some(value)))
                } else {
                    None
                },
                (_, None) => None,
            },
        }
    }
}

/// The content and tag property names of an enum with the attributes
/// `attrs`, read from its first `#[fp(...)]` attribute; `None` where that
/// attribute cannot be read.
pub open spec fn enum_options_of(attrs: Seq<Attribute>) -> Option<(Option<Seq<char>>, Option<Seq<char>>)> {
    match first_fp_attr(attrs) {
        None => Some((None, None)),
        Some(a) => match a.entries {
            Some(es) => if es@.len() > 0 {
                option_entries(entries_view(es@))
            } else {
                None
            },
            None => None,
        },
    }
}

/// Whether an item can be read without a panic.
pub open spec fn item_readable(item: ItemSyntax, types: Seq<Type>) -> bool {
    match item {
        ItemSyntax::Struct(s) => named_fields_readable(s.fields@, types),
        ItemSyntax::Enum(e) => {
            &&& enum_options_of(e.attrs@) is Some
            &&& forall|i: int| 0 <= i < e.variants@.len() ==> variant_readable(#[trigger] e.variants@[i], types)
        },
    }
}

/// Whether `t` is the type that the item `item` declares.
pub open spec fn item_read(t: Type, item: ItemSyntax, types: Seq<Type>) -> bool {
    match item {
        ItemSyntax::Struct(s) => match t {
            Type::Struct(name, args, fields) => {
                &&& name@ == s.ident@
                &&& params_read(args@, s.generics@)
                &&& named_fields_read(fields@, s.fields@, types)
            },
            _ => false,
        },
        ItemSyntax::Enum(e) => match t {
            Type::Enum(name, args, variants, opts) => {
                &&& name@ == e.ident@
                &&& params_read(args@, e.generics@)
                &&& variants@.len() == e.variants@.len()
                &&& forall|i: int| 0 <= i < variants@.len() ==> {
                    &&& (#[trigger] variants@[i]).name@ == e.variants@[i].ident@
                    &&& variant_type_read(variants@[i].ty, e.variants@[i], types)
                }
                &&& enum_options_of(e.attrs@) == Some((opt_view(opts.content_prop_name), opt_view(opts.tag_prop_name)))
            },
            _ => false,
        },
    }
}


fn read_params(generics: &Vec<GenericParamSyntax>) -> (res: Vec<GenericArgument>)
    ensures
        params_read(res@, generics@),
{
    let mut res: Vec<GenericArgument> = Vec::new();
    let mut i: usize = 0;
    assert(generics@.take(0) =~= Seq::<GenericParamSyntax>::empty());
    assert(arg_names(res@) =~= Seq::<Seq<char>>::empty());
    while i < generics.len()
        invariant
            i <= generics@.len(),
            arg_names(res@) == type_param_names(generics@.take(i as int)),
            forall|k: int| 0 <= k < res@.len() ==> (#[trigger] res@[k]).ty is None,
        decreases generics@.len() - i,
    {
        let ghost t = generics@.take(i as int + 1);
        assert(t.drop_last() =~= generics@.take(i as int));
        assert(t.last() == generics@[i as int]);
        match &generics[i] {
            GenericParamSyntax::Type(p) => {
                let ghost before = res@;
                res.push(GenericArgument { name: p.ident.clone(), ty: None });
                assert(arg_names(res@) =~= arg_names(before).push(p.ident@));
            },
            GenericParamSyntax::Other => {},
        }
        i = i + 1;
    }
    assert(generics@.take(generics@.len() as int) =~= generics@);
    res
}

fn read_named_fields(fields: &Vec<FieldSyntax>, types: &Vec<Type>) -> (res: Vec<Field>)
    requires
        named_fields_readable(fields@, types@),
    ensures
        named_fields_read(res@, fields@, types@),
{
    let mut res: Vec<Field> = Vec::new();
    let mut i: usize = 0;
    while i < fields.len()
        invariant
            i <= fields@.len(),
            named_fields_readable(fields@, types@),
            res@.len() == i,
            forall|k: int| 0 <= k < i ==> #[trigger] named_field_read(res@[k], fields@[k], types@),
        decreases fields@.len() - i,
    {
        assert(fields@[i as int].ident is Some && resolves(fields@[i as int].ty, types@));
        let name = match &fields[i].ident {
            Some(n) => n.clone(),
            None => String::new(),
        };
        let ty = match resolve_type(&fields[i].ty, types) {
            Some(t) => t,
            None => Type::Unit,
        };
        res.push(Field { name, ty });
        assert(named_field_read(res@[i as int], fields@[i as int], types@));
        i = i + 1;
    }
    res
}

fn read_items(fields: &Vec<FieldSyntax>, types: &Vec<Type>) -> (res: Vec<Type>)
    requires
        forall|i: int| 0 <= i < fields@.len() ==> resolves((#[trigger] fields@[i]).ty, types@),
    ensures
        items_read(res@, fields@, types@),
{
    let mut res: Vec<Type> = Vec::new();
    let mut i: usize = 0;
    while i < fields.len()
        invariant
            i <= fields@.len(),
            forall|k: int| 0 <= k < fields@.len() ==> resolves((#[trigger] fields@[k]).ty, types@),
            res@.len() == i,
            forall|k: int| 0 <= k < i ==> resolved_as(fields@[k].ty, types@, #[trigger] res@[k]),
        decreases fields@.len() - i,
    {
        assert(resolves(fields@[i as int].ty, types@));
        let ty = match resolve_type(&fields[i].ty, types) {
            Some(t) => t,
            None => Type::Unit,
        };
        res.push(ty);
        assert(resolved_as(fields@[i as int].ty, types@, res@[i as int]));
        i = i + 1;
    }
    res
}

fn any_named(fields: &Vec<FieldSyntax>) -> (res: bool)
    ensures
        res == has_named_field(fields@),
{
    let mut i: usize = 0;
    while i < fields.len()
        invariant
            i <= fields@.len(),
            forall|k: int| 0 <= k < i ==> (#[trigger] fields@[k]).ident is None,
        decreases fields@.len() - i,
    {
        if fields[i].ident.is_some() {
            assert(fields@[i as int].ident is Some);
            return true;
        }
        i = i + 1;
    }
    false
}

fn read_variant(v: &VariantSyntax, types: &Vec<Type>) -> (res: Variant)
    requires
        variant_readable(*v, types@),
    ensures
        res.name@ == v.ident@,
        variant_type_read(res.ty, *v, types@),
{
    let ty = if v.fields.len() == 0 {
        Type::Unit
    } else if any_named(&v.fields) {
        Type::Struct(v.ident.clone(), Vec::new(), read_named_fields(&v.fields, types))
    } else {
        Type::Tuple(read_items(&v.fields, types))
    };
    Variant { name: v.ident.clone(), ty }
}

proof fn lemma_option_entries_stuck(es: Seq<(Seq<char>, Option<Seq<char>>)>, k: int, n: int)
    requires
        0 <= k <= n <= es.len(),
        option_entries(es.take(k)) is None,
    ensures
        option_entries(es.take(n)) is None,
    decreases n - k,
{
    if n > k {
        lemma_option_entries_stuck(es, k, n - 1);
        assert(es.take(n).drop_last() =~= es.take(n - 1));
    }
}

fn read_option_entries(entries: &Vec<AttrEntry>) -> (res: EnumOptions)
    requires
        option_entries(entries_view(entries@)) is Some,
    ensures
        option_entries(entries_view(entries@)) == Some((opt_view(res.content_prop_name), opt_view(res.tag_prop_name))),
{
    let ghost es = entries_view(entries@);
    let mut res = EnumOptions { content_prop_name: None, tag_prop_name: None };
    let mut i: usize = 0;
    assert(es.take(0) =~= Seq::<(Seq<char>, Option<Seq<char>>)>::empty());
    while i < entries.len()
        invariant
            i <= entries@.len() == es.len(),
            es == entries_view(entries@),
            option_entries(es) is Some,
            option_entries(es.take(i as int)) == Some((opt_view(res.content_prop_name), opt_view(res.tag_prop_name))),
        decreases entries@.len() - i,
    {
        proof {
            assert(es.take(es.len() as int) =~= es);
            if option_entries(es.take(i as int + 1)) is None {
                lemma_option_entries_stuck(es, i as int + 1, es.len() as int);
            }
            assert(es.take(i as int + 1).drop_last() =~= es.take(i as int));
            assert(es.take(i as int + 1).last() == es[i as int]);
        }
        let e = &entries[i];
        if let Some(value) = &e.value {
            if str_eq(e.key.as_str(), "content") {
                res.content_prop_name = Some(value.clone());
            } else if str_eq(e.key.as_str(), "tag") {
                res.tag_prop_name = Some(value.clone());
            }
        }
        i = i + 1;
    }
    assert(es.take(es.len() as int) =~= es);
    res
}

/// Reads the options of an enum from its first `#[fp(...)]` attribute.
fn parse_enum_options(attrs: &Vec<Attribute>) -> (res: EnumOptions)
    requires
        enum_options_of(attrs@) is Some,
    ensures
        enum_options_of(attrs@) == Some((opt_view(res.content_prop_name), opt_view(res.tag_prop_name))),
{
    let mut i: usize = 0;
    assert(attrs@.skip(0) =~= attrs@);
    while i < attrs.len()
        invariant
            i <= attrs@.len(),
            enum_options_of(attrs@) is Some,
            first_fp_attr(attrs@) == first_fp_attr(attrs@.skip(i as int)),
        decreases attrs@.len() - i,
    {
        assert(attrs@.skip(i as int)[0] == attrs@[i as int]);
        assert(attrs@.skip(i as int).drop_first() =~= attrs@.skip(i as int + 1));
        let is_fp = match &attrs[i].ident {
            Some(ident) => str_eq(ident.as_str(), "fp"),
            None => false,
        };
        if is_fp {
            return match &attrs[i].entries {
                Some(es) => read_option_entries(es),
                None => EnumOptions { content_prop_name: None, tag_prop_name: None },
            };
        }
        i = i + 1;
    }
    assert(attrs@.skip(attrs@.len() as int) =~= Seq::<Attribute>::empty());
    EnumOptions { content_prop_name: None, tag_prop_name: None }
}

/// Reads the struct type that a struct item declares.
fn parse_struct_item(item: &StructItemSyntax, types: &Vec<Type>) -> (res: Type)
    requires
        item_readable(ItemSyntax::Struct(*item), types@),
    ensures
        item_read(res, ItemSyntax::Struct(*item), types@),
{
    Type::Struct(item.ident.clone(), read_params(&item.generics), read_named_fields(&item.fields, types))
}

/// Reads the enum type that an enum item declares.
fn parse_enum_item(item: &EnumItemSyntax, types: &Vec<Type>) -> (res: Type)
    requires
        item_readable(ItemSyntax::Enum(*item), types@),
    ensures
        item_read(res, ItemSyntax::Enum(*item), types@),
{
    let mut variants: Vec<Variant> = Vec::new();
    let mut i: usize = 0;
    while i < item.variants.len()
        invariant
            i <= item.variants@.len(),
            forall|k: int| 0 <= k < item.variants@.len() ==> variant_readable(#[trigger] item.variants@[k], types@),
            variants@.len() == i,
            forall|k: int| 0 <= k < i ==> {
                &&& (#[trigger] variants@[k]).name@ == item.variants@[k].ident@
                &&& variant_type_read(variants@[k].ty, item.variants@[k], types@)
            },
        decreases item.variants@.len() - i,
    {
        assert(variant_readable(item.variants@[i as int], types@));
        let v = read_variant(&item.variants[i], types);
        variants.push(v);
        i = i + 1;
    }
    let opts = parse_enum_options(&item.attrs);
    Type::Enum(item.ident.clone(), read_params(&item.generics), variants, opts)
}

impl Type {
    /// Reads the type that a struct or enum item declares, resolving the
    /// types of its fields among the known types `dependencies`.
    pub fn from_item(item: &ItemSyntax, dependencies: &Vec<Type>) -> (res: Type)
        requires
            item_readable(*item, dependencies@),
        ensures
            item_read(res, *item, dependencies@),
    {
        match item {
            ItemSyntax::Enum(e) => parse_enum_item(e, dependencies),
            ItemSyntax::Struct(s) => parse_struct_item(s, dependencies),
        }
    }
}

} // verus!
