use vstd::prelude::*;
use crate::primitives::{primitive_name, Primitive};
use crate::text::{chars_eq, join, join_strings, seq_lt, str_eq, str_lt, str_views};
use crate::text::{lemma_seq_lt_asymmetric, lemma_seq_lt_irreflexive, lemma_seq_lt_total, lemma_seq_lt_transitive};

pub mod attr_tokens;
pub mod attrs;
pub mod cargo_dependency;
pub mod custom_type;
pub mod enums;
pub mod items;
pub mod structs;
pub mod syntax;
pub mod type_ident;
pub mod type_map;

pub use cargo_dependency::CargoDependency;
pub use custom_type::CustomType;
pub use enums::{Enum, EnumOptions, Variant, VariantAttrs};
pub use structs::{Field, FieldAttrs, Struct, StructOptions};
pub use type_ident::TypeIdent;
pub use type_map::TypeMap;
use type_ident::format_view;
use type_map::{insert_entry, same_key};

verus! {

/// Whether a trait bound still matters at runtime. Bounds on the
/// `Serializable` trait only matter while the bindings are generated and are
/// left out of the generated code.
pub open spec fn is_runtime_bound(bound: Seq<char>) -> bool {
    bound != "Serializable"@ && bound != "fp_bindgen::prelude::Serializable"@
}

/// The bounds of `bounds` that still matter at runtime, in order.
pub open spec fn runtime_bounds(bounds: Seq<Seq<char>>) -> Seq<Seq<char>>
    decreases bounds.len(),
{
    if bounds.len() == 0 {
        Seq::empty()
    } else if is_runtime_bound(bounds.last()) {
        runtime_bounds(bounds.drop_last()).push(bounds.last())
    } else {
        runtime_bounds(bounds.drop_last())
    }
}

/// Whether a bound still matters at runtime: every bound but
/// `Serializable`.
pub fn runtime_bound(bound: &String) -> (res: bool)
    ensures
        res == is_runtime_bound(bound@),
{
    let v = crate::text::chars_of(bound.as_str());
    !chars_eq(&v, "Serializable") && !chars_eq(&v, "fp_bindgen::prelude::Serializable")
}

/// The bounds of `bounds` that still matter at runtime.
pub fn filter_runtime_bounds(bounds: &Vec<String>) -> (res: Vec<String>)
    ensures
        str_views(res@) == runtime_bounds(str_views(bounds@)),
{
    let mut res: Vec<String> = Vec::new();
    let mut i: usize = 0;
    assert(str_views(bounds@).take(0) =~= Seq::<Seq<char>>::empty());
    while i < bounds.len()
        invariant
            i <= bounds@.len(),
            str_views(res@) == runtime_bounds(str_views(bounds@).take(i as int)),
        decreases bounds@.len() - i,
    {
        let ghost t = str_views(bounds@).take(i as int + 1);
        assert(t.drop_last() =~= str_views(bounds@).take(i as int));
        if runtime_bound(&bounds[i]) {
            res.push(bounds[i].clone());
            assert(str_views(res@) =~= runtime_bounds(str_views(bounds@).take(i as int)).push(bounds@[i as int]@));
        }
        i = i + 1;
    }
    assert(str_views(bounds@).take(bounds@.len() as int) =~= str_views(bounds@));
    res
}


/// A type, as the generators see it.
#[derive(Debug, PartialEq, Eq, Hash)]
pub enum Type {
    Alias(String, TypeIdent),
    Container(String, TypeIdent),
    Custom(CustomType),
    Enum(Enum),
    List(String, TypeIdent),
    Mapping(String, TypeIdent, TypeIdent),
    Primitive(Primitive),
    String,
    Struct(Struct),
    Tuple(Vec<TypeIdent>),
    Unit,
}

/// The texts of the identifiers `items`, with their bounds.
pub open spec fn idents_text(items: Seq<TypeIdent>) -> Seq<Seq<char>> {
    items.map_values(|t: TypeIdent| format_view(t@, true))
}

/// The name of a type: how it is written in Rust.
pub open spec fn rust_type_name(t: Type) -> Seq<char> {
    match t {
        Type::Alias(name, _) => name@,
        Type::Container(name, ident) => name@ + "<"@ + format_view(ident@, true) + ">"@,
        Type::Custom(custom) => format_view(custom.ident@, true),
        Type::Enum(e) => format_view(e.ident@, true),
        Type::List(name, ident) => name@ + "<"@ + format_view(ident@, true) + ">"@,
        Type::Mapping(name, key, value) => name@ + "<"@ + format_view(key@, true) + ", "@ + format_view(value@, true) + ">"@,
        Type::Primitive(p) => primitive_name(p),
        Type::String => "String"@,
        Type::Struct(s) => format_view(s.ident@, true),
        Type::Tuple(items) => "("@ + join(idents_text(items@), ", "@) + ")"@,
        Type::Unit => "()"@,
    }
}

/// The texts of the identifiers `items`, with their bounds.
pub fn idents_to_strings(items: &Vec<TypeIdent>) -> (res: Vec<String>)
    ensures
        str_views(res@) == idents_text(items@),
{
    let mut res: Vec<String> = Vec::new();
    let mut i: usize = 0;
    while i < items.len()
        invariant
            i <= items@.len(),
            str_views(res@) == idents_text(items@.take(i as int)),
        decreases items@.len() - i,
    {
        let text = items[i].to_string();
        let ghost before = res@;
        res.push(text);
        assert(idents_text(items@.take(i as int + 1)) =~= idents_text(items@.take(i as int)).push(text@));
        assert(str_views(res@) =~= str_views(before).push(text@));
        i = i + 1;
    }
    assert(items@.take(items@.len() as int) =~= items@);
    res
}

fn bracketed(name: &String, inner: &str) -> (res: String)
    ensures
        res@ == name@ + "<"@ + inner@ + ">"@,
{
    let mut res = name.clone();
    res.append("<");
    res.append(inner);
    res.append(">");
    res
}

impl Type {
    /// The name of the type, as written in Rust.
    pub fn name(&self) -> (res: String)
        ensures
            res@ == rust_type_name(*self),
    {
        match self {
            Type::Alias(name, _) => name.clone(),
            Type::Container(name, ident) => {
                let inner = ident.to_string();
                bracketed(name, inner.as_str())
            },
            Type::Custom(custom) => custom.ident.to_string(),
            Type::Enum(e) => e.ident.to_string(),
            Type::List(name, ident) => {
                let inner = ident.to_string();
                bracketed(name, inner.as_str())
            },
            Type::Mapping(name, key, value) => {
                let mut inner = key.to_string();
                inner.append(", ");
                let v = value.to_string();
                inner.append(v.as_str());
                bracketed(name, inner.as_str())
            },
            Type::Primitive(p) => p.name(),
            Type::String => "String".to_owned(),
            Type::Struct(s) => s.ident.to_string(),
            Type::Tuple(items) => {
                let texts = idents_to_strings(items);
                let joined = join_strings(&texts, ", ");
                let mut res = "(".to_owned();
                res.append(joined.as_str());
                res.append(")");
                res
            },
            Type::Unit => "()".to_owned(),
        }
    }
}


/// Whether `t` is the identifier of a type without generic arguments,
/// named `name`.
pub open spec fn plain_ident(t: TypeIdent, name: Seq<char>) -> bool {
    t.name@ == name && t.generic_args@.len() == 0 && t.array is None
}

/// Whether a field has the given name, plain type and doc lines, and no
/// attributes.
pub open spec fn plain_field(f: Field, name: Seq<char>, ty: Seq<char>, docs: Seq<Seq<char>>) -> bool {
    &&& f.name matches Some(n) && n@ == name
    &&& plain_ident(f.ty, ty)
    &&& str_views(f.doc_lines@) == docs
    &&& f.attrs@ == structs::default_field_attrs()
}

/// Whether `(ident, ty)` is the type of the errors that a plugin reports to
/// its runtime: an enum tagged by `type`, with the variants in snake case,
/// made of `SerdeError { path, message }` (fields in camel case) and
/// `InvalidFatPtr`.
pub open spec fn is_guest_error_type(ident: TypeIdent, ty: Type) -> bool {
    &&& plain_ident(ident, "FPGuestError"@)
    &&& ty matches Type::Enum(e) && {
        &&& e.ident@ == ident@
        &&& e.doc_lines@.len() == 0
        &&& e.options@ == enums::EnumOptionsView {
            variant_casing: crate::casing::Casing::SnakeCase,
            content_prop_name: None,
            tag_prop_name: Some("type"@),
            untagged: false,
            rust_module: None,
        }
        &&& e.variants@.len() == 2
        &&& e.variants@[0].name@ == "SerdeError"@
        &&& str_views(e.variants@[0].doc_lines@) == seq![
            " Deserialization of data failed, possible mismatch between guest and runtime protocol version"@]
        &&& e.variants@[0].attrs@ == enums::VariantAttrsView { field_casing: crate::casing::Casing::CamelCase, rename: None }
        &&& e.variants@[0].ty matches Type::Struct(s) && {
            &&& plain_ident(s.ident, "SerdeError"@)
            &&& s.doc_lines@.len() == 0
            &&& s.options@ == structs::default_struct_options()
            &&& s.fields@.len() == 2
            &&& plain_field(s.fields@[0], "path"@, "String"@, seq![" Path to the failed field that failed to serde"@])
            &&& plain_field(s.fields@[1], "message"@, "String"@, Seq::empty())
        }
        &&& e.variants@[1].name@ == "InvalidFatPtr"@
        &&& e.variants@[1].doc_lines@.len() == 0
        &&& e.variants@[1].attrs@ == enums::default_variant_attrs()
        &&& e.variants@[1].ty is Unit
    }
}

/// Whether `(ident, ty)` is the generic `Result<T, E>` type, with its
/// variants `Ok(T)` and `Err(E)`.
pub open spec fn is_result_type(ident: TypeIdent, ty: Type) -> bool {
    &&& ident.name@ == "Result"@ && ident.array is None
    &&& ident.generic_args@.len() == 2
    &&& plain_ident(ident.generic_args@[0].0, "T"@) && ident.generic_args@[0].1@.len() == 0
    &&& plain_ident(ident.generic_args@[1].0, "E"@) && ident.generic_args@[1].1@.len() == 0
    &&& ty matches Type::Enum(e) && {
        &&& e.ident@ == ident@
        &&& str_views(e.doc_lines@) == seq![
            " A result that can be either successful (`Ok`) or represent an error (`Err`)."@]
        &&& e.options@ == enums::default_enum_options()
        &&& e.variants@.len() == 2
        &&& e.variants@[0].name@ == "Ok"@
        &&& str_views(e.variants@[0].doc_lines@) == seq![" Represents a successful result."@]
        &&& e.variants@[0].attrs@ == enums::default_variant_attrs()
        &&& e.variants@[0].ty matches Type::Tuple(items) && items@.len() == 1 && plain_ident(items@[0], "T"@)
        &&& e.variants@[1].name@ == "Err"@
        &&& str_views(e.variants@[1].doc_lines@) == seq![" Represents an error."@]
        &&& e.variants@[1].attrs@ == enums::default_variant_attrs()
        &&& e.variants@[1].ty matches Type::Tuple(items) && items@.len() == 1 && plain_ident(items@[0], "E"@)
    }
}

fn plain(name: &str) -> (res: TypeIdent)
    ensures
        plain_ident(res, name@),
{
    TypeIdent::new(name, Vec::new())
}

fn one_line(line: &str) -> (res: Vec<String>)
    ensures
        str_views(res@) == seq![line@],
{
    let mut v: Vec<String> = Vec::new();
    v.push(line.to_owned());
    assert(str_views(v@) =~= seq![line@]);
    v
}

fn guest_error_type() -> (res: (TypeIdent, Type))
    ensures
        is_guest_error_type(res.0, res.1),
{
    let mut fields: Vec<Field> = Vec::new();
    fields.push(Field {
        name: Some("path".to_owned()),
        ty: plain("String"),
        doc_lines: one_line(" Path to the failed field that failed to serde"),
        attrs: FieldAttrs::default(),
    });
    let no_docs: Vec<String> = Vec::new();
    assert(str_views(no_docs@) =~= Seq::<Seq<char>>::empty());
    fields.push(Field {
        name: Some("message".to_owned()),
        ty: plain("String"),
        doc_lines: no_docs,
        attrs: FieldAttrs::default(),
    });
    let serde_error = Struct {
        ident: plain("SerdeError"),
        fields,
        doc_lines: Vec::new(),
        options: StructOptions::default(),
    };
    let mut variants: Vec<Variant> = Vec::new();
    variants.push(Variant {
        name: "SerdeError".to_owned(),
        ty: Type::Struct(serde_error),
        doc_lines: one_line(" Deserialization of data failed, possible mismatch between guest and runtime protocol version"),
        attrs: VariantAttrs { field_casing: crate::casing::Casing::CamelCase, rename: None },
    });
    variants.push(Variant {
        name: "InvalidFatPtr".to_owned(),
        ty: Type::Unit,
        doc_lines: Vec::new(),
        attrs: VariantAttrs::default(),
    });
    let ident = plain("FPGuestError");
    let e = Enum {
        ident: ident.clone(),
        variants,
        doc_lines: Vec::new(),
        options: EnumOptions {
            variant_casing: crate::casing::Casing::SnakeCase,
            content_prop_name: None,
            tag_prop_name: Some("type".to_owned()),
            untagged: false,
            rust_module: None,
        },
    };
    assert(e.ident@ == ident@);
    assert(plain_ident(ident, "FPGuestError"@));
    assert(e.doc_lines@.len() == 0);
    assert(e.variants@.len() == 2);
    assert(str_views(e.variants@[0].doc_lines@) == seq![
            " Deserialization of data failed, possible mismatch between guest and runtime protocol version"@]);
    assert(e.variants@[1].doc_lines@.len() == 0);
    assert(e.variants@[0].ty matches Type::Struct(s) && plain_field(s.fields@[0], "path"@, "String"@, seq![" Path to the failed field that failed to serde"@]));
    (ident, Type::Enum(e))
}

fn result_type() -> (res: (TypeIdent, Type))
    ensures
        is_result_type(res.0, res.1),
{
    let mut args: Vec<(TypeIdent, Vec<String>)> = Vec::new();
    args.push((plain("T"), Vec::new()));
    args.push((plain("E"), Vec::new()));
    let ident = TypeIdent::new("Result", args);
    let mut ok_items: Vec<TypeIdent> = Vec::new();
    ok_items.push(plain("T"));
    let mut err_items: Vec<TypeIdent> = Vec::new();
    err_items.push(plain("E"));
    let mut variants: Vec<Variant> = Vec::new();
    variants.push(Variant {
        name: "Ok".to_owned(),
        ty: Type::Tuple(ok_items),
        doc_lines: one_line(" Represents a successful result."),
        attrs: VariantAttrs::default(),
    });
    variants.push(Variant {
        name: "Err".to_owned(),
        ty: Type::Tuple(err_items),
        doc_lines: one_line(" Represents an error."),
        attrs: VariantAttrs::default(),
    });
    let e = Enum {
        ident: ident.clone(),
        variants,
        doc_lines: one_line(" A result that can be either successful (`Ok`) or represent an error (`Err`)."),
        options: EnumOptions::default(),
    };
    (ident, Type::Enum(e))
}

/// The types that the generators always know of, since errors are passed
/// out of a plugin in them: the guest error type and `Result`.
pub fn create_default_type_map() -> (res: TypeMap)
    ensures
        res.wf(),
        res@.len() == 2,
        is_guest_error_type(res@[0].0, res@[0].1),
        is_result_type(res@[1].0, res@[1].1),
{
    let mut map = TypeMap::new();
    let (ident0, ty0) = guest_error_type();
    let ghost first = (ident0, ty0);
    map.insert(ident0, ty0);
    let (ident, ty) = result_type();
    let ghost before = map@;
    assert(before =~= seq![first]);
    proof {
        reveal_strlit("FPGuestError");
        reveal_strlit("Result");
        assert(before[0].0.name@ == "FPGuestError"@);
        assert(ident.name@ == "Result"@);
        assert(before[0].0.name@ != ident.name@);
        assert(!same_key(before[0].0, ident));
        assert(before[0].0.name@[0] == 'F');
        assert(ident.name@[0] == 'R');
        assert(seq_lt(before[0].0.name@, ident.name@));
        assert(!type_map::key_lt(ident, before[0].0));
    }
    let ghost second = (ident, ty);
    map.insert(ident, ty);
    proof {
        assert(before.skip(1) =~= Seq::<(TypeIdent, Type)>::empty());
        assert(insert_entry(before.skip(1), second.0, second.1) == seq![second]);
        assert(map@ =~= seq![first, second]);
    }
    map
}

} // verus!
