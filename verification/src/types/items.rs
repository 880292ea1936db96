use vstd::prelude::*;
use crate::primitives::primitive_from_name;
use crate::text::{join_strings, str_eq, str_views};
use super::attrs::{doc_attrs_ok, doc_attrs_readable, doc_lines_of, entries_view, get_doc_lines, is_options_attr, opt_view, options_attr, Attribute};
use super::enums::{enum_attrs_readable, enum_options_of, parse_enum_entries, parse_variant_entries, variant_attrs_of, variant_attrs_readable, EnumOptions, VariantAttrs};
use super::structs::{default_struct_options, field_attrs_of, field_attrs_readable, parse_field_entries, parse_struct_entries, struct_attrs_readable, struct_options_of, FieldAttrs, StructOptions};
use super::syntax::{ident_of_syntax, ident_readable, path_text, BoundSyntax, TypeSyntax};
use super::type_ident::{args_view, IdentView, Outcome, TypeIdent};
use super::{Enum, Field, Struct, Type, Variant};
use crate::resolved_items::ItemSyntax;

verus! {

/// A type parameter of an item: its name and its bounds.
#[derive(Debug)]
pub struct TypeParamSyntax {
    pub ident: String,
    pub bounds: Vec<BoundSyntax>,
}

/// A generic parameter of an item.
#[derive(Debug)]
pub enum GenericParamSyntax {
    Type(TypeParamSyntax),
    /// A lifetime or a const parameter.
    Other,
}

/// A field of a struct or of an enum variant, as written in Rust source.
#[derive(Debug)]
pub struct FieldSyntax {
    pub ident: Option<String>,
    pub ty: TypeSyntax,
    pub attrs: Vec<Attribute>,
}

/// A struct item, as written in Rust source.
#[derive(Debug)]
pub struct StructItemSyntax {
    pub ident: String,
    pub generics: Vec<GenericParamSyntax>,
    pub fields: Vec<FieldSyntax>,
    pub attrs: Vec<Attribute>,
}

/// A variant of an enum item, as written in Rust source.
#[derive(Debug)]
pub struct VariantSyntax {
    pub ident: String,
    pub fields: Vec<FieldSyntax>,
    pub has_discriminant: bool,
    pub attrs: Vec<Attribute>,
}

/// An enum item, as written in Rust source.
#[derive(Debug)]
pub struct EnumItemSyntax {
    pub ident: String,
    pub generics: Vec<GenericParamSyntax>,
    pub variants: Vec<VariantSyntax>,
    pub attrs: Vec<Attribute>,
}

/// The trait bounds among `bounds`, as path texts.
pub open spec fn trait_bounds(bounds: Seq<BoundSyntax>) -> Seq<Seq<char>>
    decreases bounds.len(),
{
    if bounds.len() == 0 {
        Seq::empty()
    } else {
        match bounds.last() {
            BoundSyntax::Trait(path) => trait_bounds(bounds.drop_last()).push(path_text(path@)),
            BoundSyntax::Lifetime(_) => trait_bounds(bounds.drop_last()),
        }
    }
}

/// The trait bounds of a type parameter.
pub fn format_bounds(param: &TypeParamSyntax) -> (res: Vec<String>)
    ensures
        str_views(res@) == trait_bounds(param.bounds@),
{
    let mut res: Vec<String> = Vec::new();
    let mut i: usize = 0;
    assert(param.bounds@.take(0) =~= Seq::<BoundSyntax>::empty());
    assert(str_views(res@) =~= Seq::<Seq<char>>::empty());
    while i < param.bounds.len()
        invariant
            i <= param.bounds@.len(),
            str_views(res@) == trait_bounds(param.bounds@.take(i as int)),
        decreases param.bounds@.len() - i,
    {
        let ghost t = param.bounds@.take(i as int + 1);
        assert(t.drop_last() =~= param.bounds@.take(i as int));
        assert(t.last() == param.bounds@[i as int]);
        match &param.bounds[i] {
            BoundSyntax::Trait(path) => {
                let text = join_strings(path, "::");
                let ghost before = res@;
                res.push(text);
                assert(str_views(res@) =~= str_views(before).push(text@));
            },
            BoundSyntax::Lifetime(_) => {},
        }
        i = i + 1;
    }
    assert(param.bounds@.take(param.bounds@.len() as int) =~= param.bounds@);
    res
}

/// The generic arguments that the type parameters of an item give its
/// identifier.
pub open spec fn params_view(generics: Seq<GenericParamSyntax>) -> Seq<(IdentView, Seq<Seq<char>>)>
    decreases generics.len(),
{
    if generics.len() == 0 {
        Seq::empty()
    } else {
        match generics.last() {
            GenericParamSyntax::Type(p) => params_view(generics.drop_last()).push(
                (IdentView { name: p.ident@, generic_args: Seq::empty(), array: None }, trait_bounds(p.bounds@))),
            GenericParamSyntax::Other => params_view(generics.drop_last()),
        }
    }
}

/// The identifier of an item with the given name and generic parameters.
pub open spec fn item_ident_view(name: Seq<char>, generics: Seq<GenericParamSyntax>) -> IdentView {
    IdentView { name, generic_args: params_view(generics), array: None }
}

fn item_ident(name: &String, generics: &Vec<GenericParamSyntax>) -> (res: TypeIdent)
    ensures
        res@ == item_ident_view(name@, generics@),
{
    let mut args: Vec<(TypeIdent, Vec<String>)> = Vec::new();
    let mut i: usize = 0;
    assert(generics@.take(0) =~= Seq::<GenericParamSyntax>::empty());
    assert(args_view(args@) =~= Seq::<(IdentView, Seq<Seq<char>>)>::empty());
    while i < generics.len()
        invariant
            i <= generics@.len(),
            args_view(args@) == params_view(generics@.take(i as int)),
        decreases generics@.len() - i,
    {
        let ghost t = generics@.take(i as int + 1);
        assert(t.drop_last() =~= generics@.take(i as int));
        assert(t.last() == generics@[i as int]);
        match &generics[i] {
            GenericParamSyntax::Type(p) => {
                let id = TypeIdent::new(p.ident.as_str(), Vec::new());
                assert(args_view(id.generic_args@) =~= Seq::<(IdentView, Seq<Seq<char>>)>::empty());
                let bounds = format_bounds(p);
                let ghost bv = str_views(bounds@);
                let ghost before = args@;
                args.push((id, bounds));
                proof {
                    super::type_ident::lemma_args_view(args@);
                    super::type_ident::lemma_args_view(before);
                    assert(args_view(args@) =~= args_view(before).push((id@, bv)));
                }
            },
            GenericParamSyntax::Other => {},
        }
        i = i + 1;
    }
    assert(generics@.take(generics@.len() as int) =~= generics@);
    TypeIdent { name: name.clone(), generic_args: args, array: None }
}

/// Whether a field can be read: its type, doc comments and attributes.
pub open spec fn field_readable(f: FieldSyntax) -> bool {
    &&& ident_of_syntax(f.ty) is Done
    &&& doc_attrs_readable(f.attrs@)
    &&& field_attrs_readable(f.attrs@)
}

/// Whether `f` is what the field `s` is read as.
pub open spec fn field_read(f: Field, s: FieldSyntax) -> bool {
    &&& opt_view(f.name) == opt_view(s.ident)
    &&& Outcome::Done(f.ty@) == ident_of_syntax(s.ty)
    &&& str_views(f.doc_lines@) == doc_lines_of(s.attrs@)
    &&& f.attrs@ == field_attrs_of(s.attrs@)
}

/// Whether `fields` are what the fields `syntax` are read as.
pub open spec fn fields_read(fields: Seq<Field>, syntax: Seq<FieldSyntax>) -> bool {
    &&& fields.len() == syntax.len()
    &&& forall|i: int| 0 <= i < fields.len() ==> #[trigger] field_read(fields[i], syntax[i])
}

fn read_field(s: &FieldSyntax) -> (res: Field)
    requires
        field_readable(*s),
    ensures
        field_read(res, *s),
{
    let ty = match TypeIdent::try_from(&s.ty) {
        Ok(t) => t,
        Err(_) => TypeIdent::new("", Vec::new()),
    };
    let name = match &s.ident {
        Some(n) => Some(n.clone()),
        None => None,
    };
    Field {
        name,
        ty,
        doc_lines: get_doc_lines(s.attrs.as_slice()),
        attrs: FieldAttrs::from_attrs(s.attrs.as_slice()),
    }
}

fn read_fields(syntax: &Vec<FieldSyntax>) -> (res: Vec<Field>)
    requires
        forall|i: int| 0 <= i < syntax@.len() ==> field_readable(#[trigger] syntax@[i]),
    ensures
        fields_read(res@, syntax@),
{
    let mut res: Vec<Field> = Vec::new();
    let mut i: usize = 0;
    while i < syntax.len()
        invariant
            i <= syntax@.len(),
            forall|k: int| 0 <= k < syntax@.len() ==> field_readable(#[trigger] syntax@[k]),
            res@.len() == i,
            forall|k: int| 0 <= k < i ==> #[trigger] field_read(res@[k], syntax@[k]),
        decreases syntax@.len() - i,
    {
        assert(field_readable(syntax@[i as int]));
        let f = read_field(&syntax[i]);
        res.push(f);
        assert(field_read(res@[i as int], syntax@[i as int]));
        i = i + 1;
    }
    res
}

/// Whether a struct item can be read without a panic.
pub open spec fn struct_item_readable(item: StructItemSyntax) -> bool {
    &&& doc_attrs_readable(item.attrs@)
    &&& struct_attrs_readable(item.attrs@)
    &&& forall|i: int| 0 <= i < item.fields@.len() ==> field_readable(#[trigger] item.fields@[i])
}

/// Reads the struct that an item declares.
pub fn parse_struct_item(item: &StructItemSyntax) -> (res: Struct)
    requires
        struct_item_readable(*item),
    ensures
        res.ident@ == item_ident_view(item.ident@, item.generics@),
        fields_read(res.fields@, item.fields@),
        str_views(res.doc_lines@) == doc_lines_of(item.attrs@),
        res.options@ == struct_options_of(item.attrs@),
{
    let ident = item_ident(&item.ident, &item.generics);
    let fields = read_fields(&item.fields);
    Struct {
        ident,
        fields,
        doc_lines: get_doc_lines(item.attrs.as_slice()),
        options: StructOptions::from_attrs(item.attrs.as_slice()),
    }
}

/// Whether a type is a path to `String` or to a primitive: a single name,
/// without arguments.
pub open spec fn path_to_primitive(t: TypeSyntax) -> bool {
    match t {
        TypeSyntax::Path(segments, args) => segments@.len() == 1 && args@.len() == 0 && (segments@[0]@ == "String"@
            || primitive_from_name(segments@[0]@) is Some),
        _ => false,
    }
}

/// Whether a type is a path to `String` or to a primitive.
pub fn is_path_to_primitive(ty: &TypeSyntax) -> (res: bool)
    ensures
        res == path_to_primitive(*ty),
{
    match ty {
        TypeSyntax::Path(segments, args) => segments.len() == 1 && args.len() == 0 && (str_eq(segments[0].as_str(), "String")
            || crate::primitives::Primitive::from_str(segments[0].as_str()).is_ok()),
        _ => false,
    }
}

/// Whether some field of the variant has a name.
pub open spec fn has_named_field(fields: Seq<FieldSyntax>) -> bool {
    exists|i: int| 0 <= i < fields.len() && (#[trigger] fields[i]).ident is Some
}

/// Whether a variant of an enum with the options `opts` can be read
/// without a panic: it has no discriminant, and can be serialized where the
/// enum's tag is inline (a tag and no content).
pub open spec fn variant_readable(v: VariantSyntax, tag: Option<Seq<char>>, content: Option<Seq<char>>) -> bool {
    let inline_tag = tag is Some && content is None;
    &&& !v.has_discriminant
    &&& doc_attrs_readable(v.attrs@)
    &&& variant_attrs_readable(v.attrs@)
    &&& forall|i: int| 0 <= i < v.fields@.len() ==> field_readable(#[trigger] v.fields@[i])
    &&& if has_named_field(v.fields@) {
        forall|i: int| 0 <= i < v.fields@.len() ==> {
            &&& (#[trigger] v.fields@[i]).ident is Some
            &&& !(inline_tag && opt_view(v.fields@[i].ident) == tag)
        }
    } else {
        &&& forall|i: int| 0 <= i < v.fields@.len() ==> !(inline_tag && path_to_primitive(#[trigger] v.fields@[i].ty))
        &&& !(inline_tag && v.fields@.len() > 1)
    }
}

/// Whether `v` is what the variant `s` is read as.
pub open spec fn variant_read(v: Variant, s: VariantSyntax) -> bool {
    &&& v.name@ == s.ident@
    &&& str_views(v.doc_lines@) == doc_lines_of(s.attrs@)
    &&& v.attrs@ == variant_attrs_of(s.attrs@)
    &&& if s.fields@.len() == 0 {
        v.ty is Unit
    } else if has_named_field(s.fields@) {
        v.ty matches Type::Struct(st) && {
            &&& st.ident@ == (IdentView { name: s.ident@, generic_args: Seq::empty(), array: None })
            &&& fields_read(st.fields@, s.fields@)
            &&& st.doc_lines@.len() == 0
            &&& st.options@ == default_struct_options()
        }
    } else {
        v.ty matches Type::Tuple(items) && {
            &&& items@.len() == s.fields@.len()
            &&& forall|i: int| 0 <= i < items@.len() ==> Outcome::Done((#[trigger] items@[i])@) == ident_of_syntax(s.fields@[i].ty)
        }
    }
}

/// Whether an enum item can be read without a panic.
pub open spec fn enum_item_readable(item: EnumItemSyntax) -> bool {
    let opts = enum_options_of(item.attrs@);
    &&& doc_attrs_readable(item.attrs@)
    &&& enum_attrs_readable(item.attrs@)
    &&& forall|i: int| 0 <= i < item.variants@.len() ==>
        variant_readable(#[trigger] item.variants@[i], opts.tag_prop_name, opts.content_prop_name)
}

fn has_named_field_exec(fields: &Vec<FieldSyntax>) -> (res: bool)
    ensures
        res == has_named_field(fields@),
{
    let mut i: usize = 0;
    while i < fields.len()
        invariant
            i <= fields@.len(),
            forall|k: int| 0 <= k < i ==> (#[trigger] fields@[k]).ident is None,
        decreases fields@.len() - i,
    {
        if fields[i].ident.is_some() {
            assert(fields@[i as int].ident is Some);
            return true;
        }
        i = i + 1;
    }
    false
}

fn read_variant(s: &VariantSyntax, Ghost(tag): Ghost<Option<Seq<char>>>, Ghost(content): Ghost<Option<Seq<char>>>) -> (res: Variant)
    requires
        variant_readable(*s, tag, content),
    ensures
        variant_read(res, *s),
{
    let ty = if s.fields.len() == 0 {
        Type::Unit
    } else if has_named_field_exec(&s.fields) {
        let fields = read_fields(&s.fields);
        let no_docs: Vec<String> = Vec::new();
        let ident = TypeIdent::new(s.ident.as_str(), Vec::new());
        assert(args_view(ident.generic_args@) =~= Seq::<(IdentView, Seq<Seq<char>>)>::empty());
        Type::Struct(Struct { ident, fields, doc_lines: no_docs, options: StructOptions::default() })
    } else {
        let mut items: Vec<TypeIdent> = Vec::new();
        let mut i: usize = 0;
        while i < s.fields.len()
            invariant
                i <= s.fields@.len(),
                forall|k: int| 0 <= k < s.fields@.len() ==> field_readable(#[trigger] s.fields@[k]),
                items@.len() == i,
                forall|k: int| 0 <= k < i ==> Outcome::Done((#[trigger] items@[k])@) == ident_of_syntax(s.fields@[k].ty),
            decreases s.fields@.len() - i,
        {
            assert(field_readable(s.fields@[i as int]));
            let t = match TypeIdent::try_from(&s.fields[i].ty) {
                Ok(t) => t,
                Err(_) => TypeIdent::new("", Vec::new()),
            };
            items.push(t);
            assert(Outcome::Done(items@[i as int]@) == ident_of_syntax(s.fields@[i as int].ty));
            i = i + 1;
        }
        Type::Tuple(items)
    };
    Variant {
        name: s.ident.clone(),
        ty,
        doc_lines: get_doc_lines(s.attrs.as_slice()),
        attrs: VariantAttrs::from_attrs(s.attrs.as_slice()),
    }
}

/// Reads the enum that an item declares.
pub fn parse_enum_item(item: &EnumItemSyntax) -> (res: Enum)
    requires
        enum_item_readable(*item),
    ensures
        res.ident@ == item_ident_view(item.ident@, item.generics@),
        res.variants@.len() == item.variants@.len(),
        forall|i: int| 0 <= i < res.variants@.len() ==> #[trigger] variant_read(res.variants@[i], item.variants@[i]),
        str_views(res.doc_lines@) == doc_lines_of(item.attrs@),
        res.options@ == enum_options_of(item.attrs@),
{
    let ident = item_ident(&item.ident, &item.generics);
    let options = EnumOptions::from_attrs(item.attrs.as_slice());
    let ghost tag = options@.tag_prop_name;
    let ghost content = options@.content_prop_name;
    let mut variants: Vec<Variant> = Vec::new();
    let mut i: usize = 0;
    while i < item.variants.len()
        invariant
            i <= item.variants@.len(),
            enum_item_readable(*item),
            tag == enum_options_of(item.attrs@).tag_prop_name,
            content == enum_options_of(item.attrs@).content_prop_name,
            variants@.len() == i,
            forall|k: int| 0 <= k < i ==> #[trigger] variant_read(variants@[k], item.variants@[k]),
        decreases item.variants@.len() - i,
    {
        assert(variant_readable(item.variants@[i as int], tag, content));
        let v = read_variant(&item.variants[i], Ghost(tag), Ghost(content));
        variants.push(v);
        assert(variant_read(variants@[i as int], item.variants@[i as int]));
        i = i + 1;
    }
    Enum {
        ident,
        variants,
        doc_lines: get_doc_lines(item.attrs.as_slice()),
        options,
    }
}


fn struct_attrs_ok(attrs: &Vec<Attribute>) -> (res: bool)
    ensures
        res == struct_attrs_readable(attrs@),
{
    let mut i: usize = 0;
    while i < attrs.len()
        invariant
            i <= attrs@.len(),
            forall|k: int| 0 <= k < i && is_options_attr(#[trigger] attrs@[k]) ==> {
                &&& attrs@[k].entries is Some
                &&& parse_struct_entries(entries_view(attrs@[k].entries.unwrap()@)) is Some
            },
        decreases attrs@.len() - i,
    {
        if options_attr(&attrs[i]) {
            match &attrs[i].entries {
                Some(es) => if StructOptions::parse(es).is_none() {
                    return false;
                },
                None => {
                    return false;
                },
            }
        }
        i = i + 1;
    }
    true
}

fn field_attrs_ok(attrs: &Vec<Attribute>) -> (res: bool)
    ensures
        res == field_attrs_readable(attrs@),
{
    let mut i: usize = 0;
    while i < attrs.len()
        invariant
            i <= attrs@.len(),
            forall|k: int| 0 <= k < i && is_options_attr(#[trigger] attrs@[k]) ==> {
                &&& attrs@[k].entries is Some
                &&& parse_field_entries(entries_view(attrs@[k].entries.unwrap()@)) is Some
            },
        decreases attrs@.len() - i,
    {
        if options_attr(&attrs[i]) {
            match &attrs[i].entries {
                Some(es) => if FieldAttrs::parse(es).is_none() {
                    return false;
                },
                None => {
                    return false;
                },
            }
        }
        i = i + 1;
    }
    true
}

fn enum_attrs_ok(attrs: &Vec<Attribute>) -> (res: bool)
    ensures
        res == enum_attrs_readable(attrs@),
{
    let mut i: usize = 0;
    while i < attrs.len()
        invariant
            i <= attrs@.len(),
            forall|k: int| 0 <= k < i && is_options_attr(#[trigger] attrs@[k]) ==> {
                &&& attrs@[k].entries is Some
                &&& parse_enum_entries(entries_view(attrs@[k].entries.unwrap()@)) is Some
            },
        decreases attrs@.len() - i,
    {
        if options_attr(&attrs[i]) {
            match &attrs[i].entries {
                Some(es) => if EnumOptions::parse(es).is_none() {
                    return false;
                },
                None => {
                    return false;
                },
            }
        }
        i = i + 1;
    }
    true
}

fn variant_attrs_ok(attrs: &Vec<Attribute>) -> (res: bool)
    ensures
        res == variant_attrs_readable(attrs@),
{
    let mut i: usize = 0;
    while i < attrs.len()
        invariant
            i <= attrs@.len(),
            forall|k: int| 0 <= k < i && is_options_attr(#[trigger] attrs@[k]) ==> {
                &&& attrs@[k].entries is Some
                &&& parse_variant_entries(entries_view(attrs@[k].entries.unwrap()@)) is Some
            },
        decreases attrs@.len() - i,
    {
        if options_attr(&attrs[i]) {
            match &attrs[i].entries {
                Some(es) => if VariantAttrs::parse(es).is_none() {
                    return false;
                },
                None => {
                    return false;
                },
            }
        }
        i = i + 1;
    }
    true
}

/// Why a struct or enum item cannot be read. The numbers are the positions
/// of the variant and of the field concerned; a field of a struct has no
/// variant.
#[derive(Debug, PartialEq, Eq)]
pub enum Refusal {
    /// An `#[fp(...)]` or `#[serde(...)]` attribute of the item cannot be read.
    Attributes,
    /// A doc comment of the item cannot be read.
    DocComment,
    /// The variant has a discriminant.
    Discriminant(usize),
    /// An `#[fp(...)]` or `#[serde(...)]` attribute of the variant cannot be read.
    VariantAttributes(usize),
    /// A doc comment of the variant cannot be read.
    VariantDocComment(usize),
    /// The type of the field cannot be read.
    FieldType(Option<usize>, usize),
    /// An `#[fp(...)]` or `#[serde(...)]` attribute of the field cannot be read.
    FieldAttributes(Option<usize>, usize),
    /// A doc comment of the field cannot be read.
    FieldDocComment(Option<usize>, usize),
    /// The field has no name, though another field of the variant has one.
    UnnamedField(usize, usize),
    /// The field is named like the tag of an enum whose tag is inline.
    TagField(usize, usize),
    /// The unnamed field is a primitive, and the enum's tag is inline.
    PrimitiveUnnamedField(usize, usize),
    /// The variant has several unnamed fields, and the enum's tag is inline.
    MultipleUnnamedFields(usize),
}

/// Whether `r` is a true reason why the field `f` (at position `i`, of the
/// variant `v` where there is one) cannot be read.
pub open spec fn field_refusal_applies(r: Refusal, f: FieldSyntax, v: Option<usize>, i: usize) -> bool {
    match r {
        Refusal::FieldType(rv, ri) => rv == v && ri == i && !(ident_of_syntax(f.ty) is Done),
        Refusal::FieldAttributes(rv, ri) => rv == v && ri == i && !field_attrs_readable(f.attrs@),
        Refusal::FieldDocComment(rv, ri) => rv == v && ri == i && !doc_attrs_readable(f.attrs@),
        _ => false,
    }
}

/// Why the field `f` cannot be read, if it cannot.
fn field_refusal(f: &FieldSyntax, v: Option<usize>, i: usize) -> (res: Option<Refusal>)
    ensures
        res is None <==> field_readable(*f),
        res matches Some(r) ==> field_refusal_applies(r, *f, v, i),
{
    if !ident_readable(&f.ty) {
        Some(Refusal::FieldType(v, i))
    } else if !doc_attrs_ok(f.attrs.as_slice()) {
        Some(Refusal::FieldDocComment(v, i))
    } else if !field_attrs_ok(&f.attrs) {
        Some(Refusal::FieldAttributes(v, i))
    } else {
        None
    }
}

/// Whether `r` is a true reason why the struct item cannot be read.
pub open spec fn struct_refusal_applies(r: Refusal, item: StructItemSyntax) -> bool {
    match r {
        Refusal::Attributes => !struct_attrs_readable(item.attrs@),
        Refusal::DocComment => !doc_attrs_readable(item.attrs@),
        Refusal::FieldType(None, i) => i < item.fields@.len() && field_refusal_applies(r, item.fields@[i as int], None, i),
        Refusal::FieldAttributes(None, i) => i < item.fields@.len() && field_refusal_applies(r, item.fields@[i as int], None, i),
        Refusal::FieldDocComment(None, i) => i < item.fields@.len() && field_refusal_applies(r, item.fields@[i as int], None, i),
        _ => false,
    }
}

/// Why a struct item cannot be read (where `parse_struct_item` would
/// panic), or nothing where it can.
pub fn struct_item_refusal(item: &StructItemSyntax) -> (res: Option<Refusal>)
    ensures
        res is None <==> struct_item_readable(*item),
        res matches Some(r) ==> struct_refusal_applies(r, *item),
{
    if !struct_attrs_ok(&item.attrs) {
        return Some(Refusal::Attributes);
    }
    if !doc_attrs_ok(item.attrs.as_slice()) {
        return Some(Refusal::DocComment);
    }
    let mut i: usize = 0;
    while i < item.fields.len()
        invariant
            i <= item.fields@.len(),
            forall|k: int| 0 <= k < i ==> field_readable(#[trigger] item.fields@[k]),
        decreases item.fields@.len() - i,
    {
        let r = field_refusal(&item.fields[i], None, i);
        if r.is_some() {
            assert(!field_readable(item.fields@[i as int]));
            return r;
        }
        i = i + 1;
    }
    None
}

/// Whether `r` is a true reason why the variant `v` (at position `vi`) of
/// an enum whose tag and content are `tag` and `content` cannot be read.
pub open spec fn variant_refusal_applies(
    r: Refusal,
    v: VariantSyntax,
    vi: usize,
    tag: Option<Seq<char>>,
    content: Option<Seq<char>>,
) -> bool {
    let inline_tag = tag is Some && content is None;
    match r {
        Refusal::Discriminant(x) => x == vi && v.has_discriminant,
        Refusal::VariantAttributes(x) => x == vi && !variant_attrs_readable(v.attrs@),
        Refusal::VariantDocComment(x) => x == vi && !doc_attrs_readable(v.attrs@),
        Refusal::FieldType(Some(x), f) => x == vi && f < v.fields@.len()
            && field_refusal_applies(r, v.fields@[f as int], Some(vi), f),
        Refusal::FieldAttributes(Some(x), f) => x == vi && f < v.fields@.len()
            && field_refusal_applies(r, v.fields@[f as int], Some(vi), f),
        Refusal::FieldDocComment(Some(x), f) => x == vi && f < v.fields@.len()
            && field_refusal_applies(r, v.fields@[f as int], Some(vi), f),
        Refusal::UnnamedField(x, f) => x == vi && f < v.fields@.len() && has_named_field(v.fields@)
            && v.fields@[f as int].ident is None,
        Refusal::TagField(x, f) => x == vi && f < v.fields@.len() && has_named_field(v.fields@) && inline_tag
            && opt_view(v.fields@[f as int].ident) == tag,
        Refusal::PrimitiveUnnamedField(x, f) => x == vi && f < v.fields@.len() && !has_named_field(v.fields@)
            && inline_tag && path_to_primitive(v.fields@[f as int].ty),
        Refusal::MultipleUnnamedFields(x) => x == vi && !has_named_field(v.fields@) && inline_tag
            && v.fields@.len() > 1,
        _ => false,
    }
}

fn same_opt_text(a: &Option<String>, b: &Option<String>) -> (res: bool)
    ensures
        res == (opt_view(*a) == opt_view(*b)),
{
    match (a, b) {
        (Some(x), Some(y)) => str_eq(x.as_str(), y.as_str()),
        (None, None) => true,
        _ => false,
    }
}

/// Why the variant `v` (at position `vi`) cannot be read, if it cannot.
fn variant_refusal(v: &VariantSyntax, vi: usize, options: &EnumOptions) -> (res: Option<Refusal>)
    ensures
        res is None <==> variant_readable(*v, options@.tag_prop_name, options@.content_prop_name),
        res matches Some(r) ==> variant_refusal_applies(r, *v, vi, options@.tag_prop_name, options@.content_prop_name),
{
    let ghost tag = options@.tag_prop_name;
    let ghost content = options@.content_prop_name;
    let inline_tag = options.tag_prop_name.is_some() && options.content_prop_name.is_none();
    if v.has_discriminant {
        return Some(Refusal::Discriminant(vi));
    }
    if !doc_attrs_ok(v.attrs.as_slice()) {
        return Some(Refusal::VariantDocComment(vi));
    }
    if !variant_attrs_ok(&v.attrs) {
        return Some(Refusal::VariantAttributes(vi));
    }
    let mut i: usize = 0;
    while i < v.fields.len()
        invariant
            i <= v.fields@.len(),
            !v.has_discriminant,
            doc_attrs_readable(v.attrs@),
            variant_attrs_readable(v.attrs@),
            forall|k: int| 0 <= k < i ==> field_readable(#[trigger] v.fields@[k]),
        decreases v.fields@.len() - i,
    {
        let r = field_refusal(&v.fields[i], Some(vi), i);
        if r.is_some() {
            assert(!field_readable(v.fields@[i as int]));
            return r;
        }
        i = i + 1;
    }
    let named = has_named_field_exec(&v.fields);
    if named {
        let mut i: usize = 0;
        while i < v.fields.len()
            invariant
                i <= v.fields@.len(),
                inline_tag == (tag is Some && content is None),
                tag == opt_view(options.tag_prop_name),
                tag == options@.tag_prop_name,
                content == options@.content_prop_name,
                has_named_field(v.fields@),
                !v.has_discriminant,
                doc_attrs_readable(v.attrs@),
                variant_attrs_readable(v.attrs@),
                forall|k: int| 0 <= k < v.fields@.len() ==> field_readable(#[trigger] v.fields@[k]),
                forall|k: int| 0 <= k < i ==> {
                    &&& (#[trigger] v.fields@[k]).ident is Some
                    &&& !(inline_tag && opt_view(v.fields@[k].ident) == tag)
                },
            decreases v.fields@.len() - i,
        {
            if v.fields[i].ident.is_none() {
                assert(v.fields@[i as int].ident is None);
                return Some(Refusal::UnnamedField(vi, i));
            }
            if inline_tag && same_opt_text(&v.fields[i].ident, &options.tag_prop_name) {
                assert(opt_view(v.fields@[i as int].ident) == tag);
                return Some(Refusal::TagField(vi, i));
            }
            i = i + 1;
        }
    } else {
        let mut i: usize = 0;
        while i < v.fields.len()
            invariant
                i <= v.fields@.len(),
                inline_tag == (tag is Some && content is None),
                tag == options@.tag_prop_name,
                content == options@.content_prop_name,
                !has_named_field(v.fields@),
                !v.has_discriminant,
                doc_attrs_readable(v.attrs@),
                variant_attrs_readable(v.attrs@),
                forall|k: int| 0 <= k < v.fields@.len() ==> field_readable(#[trigger] v.fields@[k]),
                forall|k: int| 0 <= k < i ==> !(inline_tag && path_to_primitive(#[trigger] v.fields@[k].ty)),
            decreases v.fields@.len() - i,
        {
            if inline_tag && is_path_to_primitive(&v.fields[i].ty) {
                assert(path_to_primitive(v.fields@[i as int].ty));
                return Some(Refusal::PrimitiveUnnamedField(vi, i));
            }
            i = i + 1;
        }
        if inline_tag && v.fields.len() > 1 {
            return Some(Refusal::MultipleUnnamedFields(vi));
        }
    }
    None
}

/// The variant a refusal concerns, if any.
pub open spec fn refusal_variant(r: Refusal) -> Option<usize> {
    match r {
        Refusal::Discriminant(v) => Some(v),
        Refusal::VariantAttributes(v) => Some(v),
        Refusal::VariantDocComment(v) => Some(v),
        Refusal::FieldType(v, _) => v,
        Refusal::FieldAttributes(v, _) => v,
        Refusal::FieldDocComment(v, _) => v,
        Refusal::UnnamedField(v, _) => Some(v),
        Refusal::TagField(v, _) => Some(v),
        Refusal::PrimitiveUnnamedField(v, _) => Some(v),
        Refusal::MultipleUnnamedFields(v) => Some(v),
        _ => None,
    }
}

/// Whether `r` is a true reason why the enum item cannot be read.
pub open spec fn enum_refusal_applies(r: Refusal, item: EnumItemSyntax) -> bool {
    let opts = enum_options_of(item.attrs@);
    match r {
        Refusal::Attributes => !enum_attrs_readable(item.attrs@),
        Refusal::DocComment => !doc_attrs_readable(item.attrs@),
        _ => match refusal_variant(r) {
            Some(v) => v < item.variants@.len() && enum_attrs_readable(item.attrs@)
                && variant_refusal_applies(r, item.variants@[v as int], v, opts.tag_prop_name, opts.content_prop_name),
            None => false,
        },
    }
}

/// Why an enum item cannot be read (where `parse_enum_item` would panic),
/// or nothing where it can.
pub fn enum_item_refusal(item: &EnumItemSyntax) -> (res: Option<Refusal>)
    ensures
        res is None <==> enum_item_readable(*item),
        res matches Some(r) ==> enum_refusal_applies(r, *item),
{
    if !enum_attrs_ok(&item.attrs) {
        return Some(Refusal::Attributes);
    }
    if !doc_attrs_ok(item.attrs.as_slice()) {
        return Some(Refusal::DocComment);
    }
    let options = EnumOptions::from_attrs(item.attrs.as_slice());
    let ghost tag = options@.tag_prop_name;
    let ghost content = options@.content_prop_name;
    let mut i: usize = 0;
    while i < item.variants.len()
        invariant
            i <= item.variants@.len(),
            options@ == enum_options_of(item.attrs@),
            enum_attrs_readable(item.attrs@),
            doc_attrs_readable(item.attrs@),
            tag == options@.tag_prop_name,
            content == options@.content_prop_name,
            forall|k: int| 0 <= k < i ==> variant_readable(#[trigger] item.variants@[k], tag, content),
        decreases item.variants@.len() - i,
    {
        let r = variant_refusal(&item.variants[i], i, &options);
        match r {
            Some(x) => {
                assert(!variant_readable(item.variants@[i as int], tag, content));
                assert(refusal_variant(x) == Some(i));
                return Some(x);
            },
            None => {},
        }
        i = i + 1;
    }
    None
}


/// Whether `st` is the struct that the item `item` declares.
pub open spec fn struct_item_read(st: Struct, item: StructItemSyntax) -> bool {
    &&& st.ident@ == item_ident_view(item.ident@, item.generics@)
    &&& fields_read(st.fields@, item.fields@)
    &&& str_views(st.doc_lines@) == doc_lines_of(item.attrs@)
    &&& st.options@ == struct_options_of(item.attrs@)
}

/// Whether `e` is the enum that the item `item` declares.
pub open spec fn enum_item_read(e: Enum, item: EnumItemSyntax) -> bool {
    &&& e.ident@ == item_ident_view(item.ident@, item.generics@)
    &&& e.variants@.len() == item.variants@.len()
    &&& forall|i: int| 0 <= i < e.variants@.len() ==> #[trigger] variant_read(e.variants@[i], item.variants@[i])
    &&& str_views(e.doc_lines@) == doc_lines_of(item.attrs@)
    &&& e.options@ == enum_options_of(item.attrs@)
}

/// Reads the struct or enum that an item declares, or says why it cannot
/// be read.
pub fn type_of_item(item: &ItemSyntax) -> (res: Result<Type, Refusal>)
    ensures
        match *item {
            ItemSyntax::Struct(s) => match res {
                Ok(Type::Struct(st)) => struct_item_readable(s) && struct_item_read(st, s),
                Err(r) => !struct_item_readable(s) && struct_refusal_applies(r, s),
                _ => false,
            },
            ItemSyntax::Enum(e) => match res {
                Ok(Type::Enum(en)) => enum_item_readable(e) && enum_item_read(en, e),
                Err(r) => !enum_item_readable(e) && enum_refusal_applies(r, e),
                _ => false,
            },
        },
{
    match item {
        ItemSyntax::Struct(s) => match struct_item_refusal(s) {
            Some(r) => Err(r),
            None => Ok(Type::Struct(parse_struct_item(s))),
        },
        ItemSyntax::Enum(e) => match enum_item_refusal(e) {
            Some(r) => Err(r),
            None => Ok(Type::Enum(parse_enum_item(e))),
        },
    }
}

} // verus!
