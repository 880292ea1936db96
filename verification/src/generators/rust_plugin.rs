use vstd::prelude::*;
use crate::text::{join, join_strings, sort_strings, sort_strs, str_eq, str_views, wrap_each, wrap_lines};
use crate::text::{lines_of_all, prefix_lines, prefix_nonempty, split_all_lines, starts_with, string_starts_with};
use crate::text::{insert_distinct, set_insert, somes};
use crate::text::{contains_char, split_char, split_string, trim_end_char, trim_end_string, trim_start_char, trim_start_string};
use crate::types::enums::{enum_serde_attrs, variant_serde_attrs};
use crate::types::attrs::opt_view;
use crate::types::cargo_dependency::{dependency_text, feature_names, merged, same_dependency, strs_of, version_dependency, CargoDependency};
use crate::text::{lemma_seq_lt_transitive, seq_lt, str_lt, strictly_sorted};
use super::RustPluginConfig;
use crate::functions::{Function, FunctionArg, FunctionList};
use crate::types::structs::{field_serde_attrs, struct_serde_attrs};
use crate::types::type_ident::{format_view, TypeIdent};
use crate::types::type_map::lookup;
use crate::types::{filter_runtime_bounds, runtime_bounds, Enum, Field, Struct, Type, TypeMap, Variant};

verus! {

/// The runtime bounds of `bounds`, joined with ` + `.
pub open spec fn bounds_text(bounds: Seq<Seq<char>>) -> Seq<char> {
    join(runtime_bounds(bounds), " + "@)
}

/// The bounds that matter at runtime, joined with ` + `.
pub fn format_bounds(bounds: &Vec<String>) -> (res: String)
    ensures
        res@ == bounds_text(str_views(bounds@)),
{
    let kept = filter_runtime_bounds(bounds);
    join_strings(&kept, " + ")
}

/// How the Rust plugin writes `ident`, unfolding the map at most `fuel`
/// times; `None` where that is not enough, or where the generator would
/// panic on a wrong number of generic arguments.
pub open spec fn rs_ident(ident: TypeIdent, types: Seq<(TypeIdent, Type)>, fuel: nat) -> Option<Seq<char>>
    decreases fuel, 0nat, 0nat,
{
    if fuel == 0 {
        None
    } else {
        match lookup(types, ident) {
            Some(ty) => rs_type_with_ident(ty, ident, types, (fuel - 1) as nat),
            None => Some(format_view(ident@, true)),
        }
    }
}

/// How the Rust plugin writes the generic arguments `args`, each with its
/// runtime bounds appended.
pub open spec fn rs_args(args: Seq<(TypeIdent, Vec<String>)>, types: Seq<(TypeIdent, Type)>, fuel: nat) -> Option<Seq<Seq<char>>>
    decreases fuel, 1nat, args.len(),
{
    if args.len() == 0 {
        Some(Seq::empty())
    } else {
        match (rs_args(args.drop_last(), types, fuel), rs_ident(args.last().0, types, fuel)) {
            (Some(prev), Some(t)) => Some(prev.push(t + bounds_text(str_views(args.last().1@)))),
            _ => None,
        }
    }
}

/// How the Rust plugin writes the identifiers `items`.
pub open spec fn rs_idents(items: Seq<TypeIdent>, types: Seq<(TypeIdent, Type)>, fuel: nat) -> Option<Seq<Seq<char>>>
    decreases fuel, 1nat, items.len(),
{
    if items.len() == 0 {
        Some(Seq::empty())
    } else {
        match (rs_idents(items.drop_last(), types, fuel), rs_ident(items.last(), types, fuel)) {
            (Some(prev), Some(t)) => Some(prev.push(t)),
            _ => None,
        }
    }
}

/// `name` with the generic arguments of `ident`, if there are any; `None`
/// where their number is not the expected one.
pub open spec fn rs_name_with_args(
    name: Seq<char>,
    expected: Option<nat>,
    ident: TypeIdent,
    types: Seq<(TypeIdent, Type)>,
    fuel: nat,
) -> Option<Seq<char>>
    decreases fuel, 1nat, ident.generic_args@.len() + 1,
{
    match rs_args(ident.generic_args@, types, fuel) {
        None => None,
        Some(args) => if expected is Some && args.len() != expected.unwrap() {
            None
        } else if args.len() == 0 {
            Some(name)
        } else {
            Some(name + "<"@ + join(args, ", "@) + ">"@)
        },
    }
}

/// How the Rust plugin writes `ident`, which the map holds as `ty`.
pub open spec fn rs_type_with_ident(ty: Type, ident: TypeIdent, types: Seq<(TypeIdent, Type)>, fuel: nat) -> Option<Seq<char>>
    decreases fuel, 2nat, 0nat,
{
    match ty {
        Type::Alias(name, _) => Some(name@),
        Type::Container(name, _) => rs_name_with_args(name@, Some(1), ident, types, fuel),
        Type::List(name, _) => rs_name_with_args(name@, Some(1), ident, types, fuel),
        Type::Custom(custom) => Some(custom.rs_ty@),
        Type::Enum(e) => rs_name_with_args(e.ident.name@, None, ident, types, fuel),
        Type::Mapping(name, _, _) => rs_name_with_args(name@, Some(2), ident, types, fuel),
        Type::Struct(s) => rs_name_with_args(s.ident.name@, None, ident, types, fuel),
        Type::Tuple(items) => match rs_idents(items@, types, fuel) {
            Some(texts) => Some("["@ + join(texts, ", "@) + "]"@),
            None => None,
        },
        Type::Unit => Some("()"@),
        _ => Some(format_view(ident@, true)),
    }
}

/// How the Rust plugin writes `ident`, where some number of unfoldings of
/// the map is enough; `None` where none is.
pub open spec fn rs_ident_text(ident: TypeIdent, types: Seq<(TypeIdent, Type)>) -> Option<Seq<char>> {
    if exists|f: nat| #[trigger] rs_ident(ident, types, f) is Some {
        rs_ident(ident, types, choose|f: nat| #[trigger] rs_ident(ident, types, f) is Some)
    } else {
        None
    }
}

proof fn lemma_rs_args_prefix(args: Seq<(TypeIdent, Vec<String>)>, types: Seq<(TypeIdent, Type)>, fuel: nat, i: int)
    requires
        rs_args(args, types, fuel) is Some,
        0 <= i <= args.len(),
    ensures
        rs_args(args.take(i), types, fuel) is Some,
        i < args.len() ==> rs_ident(args[i].0, types, fuel) is Some,
        i < args.len() ==> rs_args(args.take(i + 1), types, fuel) == Some(
            rs_args(args.take(i), types, fuel).unwrap().push(
                rs_ident(args[i].0, types, fuel).unwrap() + bounds_text(str_views(args[i].1@)))),
    decreases args.len() - i,
{
    if i < args.len() {
        lemma_rs_args_prefix(args, types, fuel, i + 1);
        let t = args.take(i + 1);
        assert(t.drop_last() =~= args.take(i));
        assert(t.last() == args[i]);
    } else {
        assert(args.take(i) =~= args);
    }
}

proof fn lemma_rs_idents_prefix(items: Seq<TypeIdent>, types: Seq<(TypeIdent, Type)>, fuel: nat, i: int)
    requires
        rs_idents(items, types, fuel) is Some,
        0 <= i <= items.len(),
    ensures
        rs_idents(items.take(i), types, fuel) is Some,
        i < items.len() ==> rs_ident(items[i], types, fuel) is Some,
        i < items.len() ==> rs_idents(items.take(i + 1), types, fuel) == Some(
            rs_idents(items.take(i), types, fuel).unwrap().push(rs_ident(items[i], types, fuel).unwrap())),
    decreases items.len() - i,
{
    if i < items.len() {
        lemma_rs_idents_prefix(items, types, fuel, i + 1);
        let t = items.take(i + 1);
        assert(t.drop_last() =~= items.take(i));
        assert(t.last() == items[i]);
    } else {
        assert(items.take(i) =~= items);
    }
}

/// Formats `ident` as the Rust plugin writes it.
pub fn format_ident(ident: &TypeIdent, types: &TypeMap) -> (res: String)
    requires
        rs_ident_text(*ident, types@) is Some,
    ensures
        Some(res@) == rs_ident_text(*ident, types@),
{
    let ghost f = choose|f: nat| #[trigger] rs_ident(*ident, types@, f) is Some;
    format_ident_fuel(ident, types, Ghost(f))
}

fn format_ident_fuel(ident: &TypeIdent, types: &TypeMap, Ghost(fuel): Ghost<nat>) -> (res: String)
    requires
        rs_ident(*ident, types@, fuel) is Some,
    ensures
        Some(res@) == rs_ident(*ident, types@, fuel),
    decreases fuel, 0nat, 0nat,
{
    match types.get(ident) {
        Some(ty) => format_type_with_ident(ty, ident, types, Ghost((fuel - 1) as nat)),
        None => ident.to_string(),
    }
}

fn format_args_fuel(ident: &TypeIdent, types: &TypeMap, Ghost(fuel): Ghost<nat>) -> (res: Vec<String>)
    requires
        rs_args(ident.generic_args@, types@, fuel) is Some,
    ensures
        Some(str_views(res@)) == rs_args(ident.generic_args@, types@, fuel),
    decreases fuel, 1nat, ident.generic_args@.len() + 1,
{
    let args = &ident.generic_args;
    let mut res: Vec<String> = Vec::new();
    let mut i: usize = 0;
    assert(args@.take(0) =~= Seq::<(TypeIdent, Vec<String>)>::empty());
    while i < args.len()
        invariant
            i <= args@.len(),
            *args == ident.generic_args,
            rs_args(args@, types@, fuel) is Some,
            Some(str_views(res@)) == rs_args(args@.take(i as int), types@, fuel),
        decreases args@.len() - i,
    {
        proof {
            lemma_rs_args_prefix(args@, types@, fuel, i as int);
        }
        let mut text = format_ident_fuel(&args[i].0, types, Ghost(fuel));
        let bounds = format_bounds(&args[i].1);
        text.append(bounds.as_str());
        let ghost before = res@;
        res.push(text);
        assert(str_views(res@) =~= str_views(before).push(text@));
        i = i + 1;
    }
    assert(args@.take(args@.len() as int) =~= args@);
    res
}

fn format_name_with_args(name: &String, expected: Option<usize>, ident: &TypeIdent, types: &TypeMap, Ghost(fuel): Ghost<nat>) -> (res: String)
    requires
        rs_name_with_args(name@, match expected { Some(n) => Some(n as nat), None => None }, *ident, types@, fuel) is Some,
    ensures
        Some(res@) == rs_name_with_args(name@, match expected { Some(n) => Some(n as nat), None => None }, *ident, types@, fuel),
    decreases fuel, 1nat, ident.generic_args@.len() + 2,
{
    let args = format_args_fuel(ident, types, Ghost(fuel));
    if args.len() == 0 {
        name.clone()
    } else {
        let mut res = name.clone();
        res.append("<");
        let joined = join_strings(&args, ", ");
        res.append(joined.as_str());
        res.append(">");
        res
    }
}

fn format_type_with_ident(ty: &Type, ident: &TypeIdent, types: &TypeMap, Ghost(fuel): Ghost<nat>) -> (res: String)
    requires
        rs_type_with_ident(*ty, *ident, types@, fuel) is Some,
    ensures
        Some(res@) == rs_type_with_ident(*ty, *ident, types@, fuel),
    decreases fuel, 2nat, 0nat,
{
    match ty {
        Type::Alias(name, _) => name.clone(),
        Type::Container(name, _) => format_name_with_args(name, Some(1), ident, types, Ghost(fuel)),
        Type::List(name, _) => format_name_with_args(name, Some(1), ident, types, Ghost(fuel)),
        Type::Custom(custom) => custom.rs_ty.clone(),
        Type::Enum(e) => format_name_with_args(&e.ident.name, None, ident, types, Ghost(fuel)),
        Type::Mapping(name, _, _) => format_name_with_args(name, Some(2), ident, types, Ghost(fuel)),
        Type::Struct(s) => format_name_with_args(&s.ident.name, None, ident, types, Ghost(fuel)),
        Type::Tuple(items) => {
            let mut texts: Vec<String> = Vec::new();
            let mut i: usize = 0;
            assert(items@.take(0) =~= Seq::<TypeIdent>::empty());
            while i < items.len()
                invariant
                    i <= items@.len(),
                    rs_idents(items@, types@, fuel) is Some,
                    Some(str_views(texts@)) == rs_idents(items@.take(i as int), types@, fuel),
                decreases items@.len() - i,
            {
                proof {
                    lemma_rs_idents_prefix(items@, types@, fuel, i as int);
                }
                let text = format_ident_fuel(&items[i], types, Ghost(fuel));
                let ghost before = texts@;
                texts.push(text);
                assert(str_views(texts@) =~= str_views(before).push(text@));
                i = i + 1;
            }
            assert(items@.take(items@.len() as int) =~= items@);
            let joined = join_strings(&texts, ", ");
            let mut res = "[".to_owned();
            res.append(joined.as_str());
            res.append("]");
            res
        },
        Type::Unit => "()".to_owned(),
        _ => ident.to_string(),
    }
}


/// Doc comment lines, each as `///` and the line.
pub open spec fn docs_text(doc_lines: Seq<Seq<char>>) -> Seq<char> {
    wrap_lines("///"@, doc_lines, "\n"@)
}

/// Formats doc lines as Rust doc comments.
pub fn format_doc_lines(doc_lines: &Vec<String>) -> (res: String)
    ensures
        res@ == docs_text(str_views(doc_lines@)),
{
    wrap_each("///", doc_lines, "\n")
}

/// Formats doc lines as Rust doc comments.
pub fn format_docs(doc_lines: &Vec<String>) -> (res: String)
    ensures
        res@ == docs_text(str_views(doc_lines@)),
{
    wrap_each("///", doc_lines, "\n")
}

/// The `std` import that a type needs in the generated Rust types file.
pub open spec fn std_type_of(ty: Type) -> Option<Seq<char>> {
    match ty {
        Type::Container(name, _) => if name@ == "Rc"@ { Some("rc::Rc"@) } else { None },
        Type::List(name, _) => if name@ == "BTreeSet"@ || name@ == "HashSet"@ {
            Some("collections::"@ + name@)
        } else {
            None
        },
        Type::Mapping(name, _, _) => if name@ == "BTreeMap"@ || name@ == "HashMap"@ {
            Some("collections::"@ + name@)
        } else {
            None
        },
        _ => None,
    }
}

/// The `std` import that `ty` needs, if any.
pub fn collect_std_types(ty: &Type) -> (res: Option<String>)
    ensures
        opt_view(res) == std_type_of(*ty),
{
    match ty {
        Type::Container(name, _) => if str_eq(name.as_str(), "Rc") {
            Some("rc::Rc".to_owned())
        } else {
            None
        },
        Type::List(name, _) => if str_eq(name.as_str(), "BTreeSet") || str_eq(name.as_str(), "HashSet") {
            let mut s = "collections::".to_owned();
            s.append(name.as_str());
            Some(s)
        } else {
            None
        },
        Type::Mapping(name, _, _) => if str_eq(name.as_str(), "BTreeMap") || str_eq(name.as_str(), "HashMap") {
            let mut s = "collections::".to_owned();
            s.append(name.as_str());
            Some(s)
        } else {
            None
        },
        _ => None,
    }
}

/// Whether every identifier of `fields` can be written.
pub open spec fn fields_formattable(fields: Seq<Field>, types: Seq<(TypeIdent, Type)>) -> bool {
    forall|i: int| 0 <= i < fields.len() ==> (#[trigger] rs_ident_text(fields[i].ty, types)) is Some
}

/// The serde attributes of a field: its own, then those of its custom type.
pub open spec fn field_serde_attrs_with(field: Field, types: Seq<(TypeIdent, Type)>) -> Seq<Seq<char>> {
    field_serde_attrs(field.attrs@) + match lookup(types, field.ty) {
        Some(Type::Custom(custom)) => str_views(custom.serde_attrs@),
        _ => Seq::empty(),
    }
}

/// `#[serde(...)]` with the attributes, and a new line; nothing without
/// attributes.
pub open spec fn serde_annotation(attrs: Seq<Seq<char>>) -> Seq<char> {
    if attrs.len() == 0 {
        Seq::empty()
    } else {
        "#[serde("@ + join(attrs, ", "@) + ")]\n"@
    }
}

/// How the Rust plugin writes one field.
pub open spec fn rs_field_text(field: Field, types: Seq<(TypeIdent, Type)>) -> Seq<char> {
    let docs = if field.doc_lines@.len() == 0 {
        Seq::empty()
    } else {
        "\n"@ + docs_text(str_views(field.doc_lines@))
    };
    let annotations = serde_annotation(sort_strs(field_serde_attrs_with(field, types)));
    let ty = rs_ident_text(field.ty, types).unwrap();
    match field.name {
        Some(name) => docs + annotations + name@ + ": "@ + ty + ","@,
        None => docs + annotations + ty + ","@,
    }
}

/// How the Rust plugin writes the fields `fields`, one text each.
pub open spec fn rs_fields_text(fields: Seq<Field>, types: Seq<(TypeIdent, Type)>) -> Seq<Seq<char>> {
    fields.map_values(|f: Field| rs_field_text(f, types))
}

fn serde_annotation_string(attrs: &Vec<String>) -> (res: String)
    ensures
        res@ == serde_annotation(str_views(attrs@)),
{
    if attrs.len() == 0 {
        String::new()
    } else {
        let mut s = "#[serde(".to_owned();
        let joined = join_strings(attrs, ", ");
        s.append(joined.as_str());
        s.append(")]\n");
        s
    }
}

fn format_struct_field(field: &Field, types: &TypeMap) -> (res: String)
    requires
        rs_ident_text(field.ty, types@) is Some,
    ensures
        res@ == rs_field_text(*field, types@),
{
    let mut serde_attrs = field.attrs.to_serde_attrs();
    match types.get(&field.ty) {
        Some(Type::Custom(custom)) => {
            let mut i: usize = 0;
            let ghost start = str_views(serde_attrs@);
            while i < custom.serde_attrs.len()
                invariant
                    i <= custom.serde_attrs@.len(),
                    str_views(serde_attrs@) == start + str_views(custom.serde_attrs@).take(i as int),
                decreases custom.serde_attrs@.len() - i,
            {
                let ghost before = serde_attrs@;
                serde_attrs.push(custom.serde_attrs[i].clone());
                assert(str_views(serde_attrs@) =~= str_views(before).push(custom.serde_attrs@[i as int]@));
                assert(str_views(custom.serde_attrs@).take(i as int + 1) =~= str_views(custom.serde_attrs@).take(i as int).push(custom.serde_attrs@[i as int]@));
                i = i + 1;
            }
            assert(str_views(custom.serde_attrs@).take(custom.serde_attrs@.len() as int) =~= str_views(custom.serde_attrs@));
        },
        _ => {
            assert(str_views(serde_attrs@) =~= field_serde_attrs_with(*field, types@));
        },
    }
    let mut res = if field.doc_lines.len() == 0 {
        String::new()
    } else {
        let mut d = "\n".to_owned();
        let docs = wrap_each("///", &field.doc_lines, "\n");
        d.append(docs.as_str());
        d
    };
    sort_strings(&mut serde_attrs);
    let annotations = serde_annotation_string(&serde_attrs);
    res.append(annotations.as_str());
    let ty = format_ident(&field.ty, types);
    match &field.name {
        Some(name) => {
            res.append(name.as_str());
            res.append(": ");
        },
        None => {},
    }
    res.append(ty.as_str());
    res.append(",");
    res
}

/// Formats the fields of a struct for the Rust plugin, one text each.
pub fn format_struct_fields(fields: &Vec<Field>, types: &TypeMap) -> (res: Vec<String>)
    requires
        fields_formattable(fields@, types@),
    ensures
        str_views(res@) == rs_fields_text(fields@, types@),
{
    let mut res: Vec<String> = Vec::new();
    let mut i: usize = 0;
    while i < fields.len()
        invariant
            i <= fields@.len(),
            fields_formattable(fields@, types@),
            str_views(res@) == rs_fields_text(fields@.take(i as int), types@),
        decreases fields@.len() - i,
    {
        assert(rs_ident_text(fields@[i as int].ty, types@) is Some);
        let text = format_struct_field(&fields[i], types);
        let ghost before = res@;
        res.push(text);
        assert(str_views(res@) =~= str_views(before).push(text@));
        assert(rs_fields_text(fields@.take(i as int + 1), types@) =~= rs_fields_text(fields@.take(i as int), types@).push(text@));
        i = i + 1;
    }
    assert(fields@.take(fields@.len() as int) =~= fields@);
    res
}


/// A field line of a struct, made public unless it is empty, an attribute
/// or a doc comment.
pub open spec fn pub_line(line: Seq<char>) -> Seq<char> {
    if line.len() == 0 || starts_with(line, "#"@) || starts_with(line, "///"@) {
        line
    } else {
        "pub "@ + line
    }
}

/// Whether the fields are those of a tuple struct: the first has no name.
pub open spec fn is_tuple_fields(fields: Seq<Field>) -> bool {
    fields.len() > 0 && fields[0].name is None
}

/// The derive line of every generated Rust type.
pub open spec fn rs_derive_line() -> Seq<char> {
    "#[derive(Clone, Debug, Deserialize, PartialEq, Serialize)]\n"@
}

/// The field lines of a struct definition, before their indentation.
pub open spec fn rs_struct_lines(s: Struct, types: Seq<(TypeIdent, Type)>) -> Seq<Seq<char>> {
    lines_of_all(rs_fields_text(s.fields@, types)).map_values(|l: Seq<char>| pub_line(l))
}

/// How the Rust plugin defines a struct.
pub open spec fn rs_struct_definition(s: Struct, types: Seq<(TypeIdent, Type)>) -> Seq<char> {
    let is_tuple = is_tuple_fields(s.fields@);
    let lines0 = rs_struct_lines(s, types);
    let lines = if lines0.len() > 1 || !is_tuple { prefix_lines("    "@, lines0) } else { lines0 };
    let annotations = docs_text(str_views(s.doc_lines@)) + rs_derive_line() + serde_annotation(struct_serde_attrs(s.options@));
    let ident = format_view(s.ident@, true);
    if is_tuple {
        if lines.len() > 1 {
            annotations + "pub struct "@ + ident + "(\n"@ + trim_start_char(join(lines, "\n"@), '\n') + "\n);"@
        } else {
            annotations + "pub struct "@ + ident + "("@ + join(lines, " "@) + ");"@
        }
    } else {
        annotations + "pub struct "@ + ident + " {\n"@ + trim_start_char(join(lines, "\n"@), '\n') + "\n}"@
    }
}

fn pub_lines(lines: &Vec<String>) -> (res: Vec<String>)
    ensures
        str_views(res@) == str_views(lines@).map_values(|l: Seq<char>| pub_line(l)),
{
    let mut res: Vec<String> = Vec::new();
    let mut i: usize = 0;
    while i < lines.len()
        invariant
            i <= lines@.len(),
            str_views(res@) == str_views(lines@).take(i as int).map_values(|l: Seq<char>| pub_line(l)),
        decreases lines@.len() - i,
    {
        let line = &lines[i];
        let text = if line.unicode_len() == 0 || string_starts_with(line.as_str(), "#")
            || string_starts_with(line.as_str(), "///") {
            line.clone()
        } else {
            let mut t = "pub ".to_owned();
            t.append(line.as_str());
            t
        };
        assert(text@ == pub_line(lines@[i as int]@));
        let ghost before = res@;
        res.push(text);
        assert(str_views(res@) =~= str_views(before).push(text@));
        assert(str_views(lines@).take(i as int + 1).map_values(|l: Seq<char>| pub_line(l))
            =~= str_views(lines@).take(i as int).map_values(|l: Seq<char>| pub_line(l)).push(text@));
        i = i + 1;
    }
    assert(str_views(lines@).take(lines@.len() as int) =~= str_views(lines@));
    res
}

/// Defines a struct in the Rust plugin's types file.
pub fn create_struct_definition(ty: &Struct, types: &TypeMap) -> (res: String)
    requires
        fields_formattable(ty.fields@, types@),
    ensures
        res@ == rs_struct_definition(*ty, types@),
{
    let is_tuple = ty.fields.len() > 0 && ty.fields[0].name.is_none();
    let texts = format_struct_fields(&ty.fields, types);
    let split = split_all_lines(&texts);
    let lines0 = pub_lines(&split);
    let lines = if lines0.len() > 1 || !is_tuple { prefix_nonempty("    ", &lines0) } else { lines0 };
    let mut annotations = wrap_each("///", &ty.doc_lines, "\n");
    annotations.append("#[derive(Clone, Debug, Deserialize, PartialEq, Serialize)]\n");
    let attrs = ty.options.to_serde_attrs();
    let serde = serde_annotation_string(&attrs);
    annotations.append(serde.as_str());
    let ident = ty.ident.format(true);
    let mut res = annotations;
    res.append("pub struct ");
    res.append(ident.as_str());
    if is_tuple {
        if lines.len() > 1 {
            res.append("(\n");
            let joined = join_strings(&lines, "\n");
            let body = trim_start_string(joined.as_str(), '\n');
            res.append(body.as_str());
            res.append("\n);");
        } else {
            res.append("(");
            let joined = join_strings(&lines, " ");
            res.append(joined.as_str());
            res.append(");");
        }
    } else {
        res.append(" {\n");
        let joined = join_strings(&lines, "\n");
        let body = trim_start_string(joined.as_str(), '\n');
        res.append(body.as_str());
        res.append("\n}");
    }
    res
}


/// Whether any of `texts` spans more than one line.
pub open spec fn any_multiline(texts: Seq<Seq<char>>) -> bool {
    exists|i: int| 0 <= i < texts.len() && (#[trigger] texts[i]).contains('\n')
}

/// How the Rust plugin writes the identifiers `items`.
pub open spec fn rs_items_text(items: Seq<TypeIdent>, types: Seq<(TypeIdent, Type)>) -> Seq<Seq<char>> {
    items.map_values(|t: TypeIdent| rs_ident_text(t, types).unwrap())
}

/// Whether every identifier of `items` can be written.
pub open spec fn items_formattable(items: Seq<TypeIdent>, types: Seq<(TypeIdent, Type)>) -> bool {
    forall|j: int| 0 <= j < items.len() ==> (#[trigger] rs_ident_text(items[j], types)) is Some
}

/// Whether the Rust plugin can define every variant of `variants`: each
/// is a unit, struct or tuple variant whose identifiers can be written.
pub open spec fn variants_formattable(variants: Seq<Variant>, types: Seq<(TypeIdent, Type)>) -> bool {
    forall|i: int| 0 <= i < variants.len() ==> match (#[trigger] variants[i]).ty {
        Type::Unit => true,
        Type::Struct(s) => fields_formattable(s.fields@, types),
        Type::Tuple(items) => items_formattable(items@, types),
        _ => false,
    }
}

/// The declaration of a variant, before its attributes and docs.
pub open spec fn rs_variant_decl(v: Variant, types: Seq<(TypeIdent, Type)>) -> Seq<char> {
    match v.ty {
        Type::Unit => v.name@ + ","@,
        Type::Struct(sv) => {
            let fields = rs_fields_text(sv.fields@, types);
            let body = if any_multiline(fields) {
                "\n"@ + trim_start_char(join(prefix_lines("    "@, lines_of_all(fields)), "\n"@), '\n') + "\n"@
            } else {
                " "@ + trim_end_char(join(fields, " "@), ',') + " "@
            };
            sv.ident.name@ + " {"@ + body + "},"@
        },
        Type::Tuple(items) => v.name@ + "("@ + join(rs_items_text(items@, types), ", "@) + "),"@,
        _ => Seq::empty(),
    }
}

/// The lines of a variant in an enum definition, indented.
pub open spec fn rs_variant_lines(v: Variant, types: Seq<(TypeIdent, Type)>) -> Seq<Seq<char>> {
    let decl = serde_annotation(sort_strs(variant_serde_attrs(v.attrs@))) + rs_variant_decl(v, types);
    let lines = if v.doc_lines@.len() == 0 {
        split_char(decl, '\n')
    } else {
        split_char(trim_end_char(docs_text(str_views(v.doc_lines@)), '\n'), '\n') + split_char(decl, '\n')
    };
    prefix_lines("    "@, lines)
}

/// The lines of all of `variants`.
pub open spec fn rs_variants_lines(variants: Seq<Variant>, types: Seq<(TypeIdent, Type)>) -> Seq<Seq<char>>
    decreases variants.len(),
{
    if variants.len() == 0 {
        Seq::empty()
    } else {
        rs_variants_lines(variants.drop_last(), types) + rs_variant_lines(variants.last(), types)
    }
}

/// How the Rust plugin defines an enum.
pub open spec fn rs_enum_definition(e: Enum, types: Seq<(TypeIdent, Type)>) -> Seq<char> {
    docs_text(str_views(e.doc_lines@)) + rs_derive_line() + serde_annotation(enum_serde_attrs(e.options@))
        + "pub enum "@ + format_view(e.ident@, true) + " {\n"@
        + join(rs_variants_lines(e.variants@, types), "\n"@) + "\n}"@
}

fn format_items(items: &Vec<TypeIdent>, types: &TypeMap) -> (res: Vec<String>)
    requires
        items_formattable(items@, types@),
    ensures
        str_views(res@) == rs_items_text(items@, types@),
{
    let mut res: Vec<String> = Vec::new();
    let mut i: usize = 0;
    while i < items.len()
        invariant
            i <= items@.len(),
            items_formattable(items@, types@),
            str_views(res@) == rs_items_text(items@.take(i as int), types@),
        decreases items@.len() - i,
    {
        assert(rs_ident_text(items@[i as int], types@) is Some);
        let text = format_ident(&items[i], types);
        let ghost before = res@;
        res.push(text);
        assert(str_views(res@) =~= str_views(before).push(text@));
        assert(rs_items_text(items@.take(i as int + 1), types@) =~= rs_items_text(items@.take(i as int), types@).push(text@));
        i = i + 1;
    }
    assert(items@.take(items@.len() as int) =~= items@);
    res
}

fn any_multiline_exec(texts: &Vec<String>) -> (res: bool)
    ensures
        res == any_multiline(str_views(texts@)),
{
    let mut i: usize = 0;
    while i < texts.len()
        invariant
            i <= texts@.len(),
            forall|j: int| 0 <= j < i ==> !(#[trigger] str_views(texts@)[j]).contains('\n'),
        decreases texts@.len() - i,
    {
        if contains_char(texts[i].as_str(), '\n') {
            assert(str_views(texts@)[i as int].contains('\n'));
            return true;
        }
        i = i + 1;
    }
    false
}

fn variant_decl(v: &Variant, types: &TypeMap) -> (res: String)
    requires
        match v.ty {
            Type::Unit => true,
            Type::Struct(s) => fields_formattable(s.fields@, types@),
            Type::Tuple(items) => items_formattable(items@, types@),
            _ => false,
        },
    ensures
        res@ == rs_variant_decl(*v, types@),
{
    match &v.ty {
        Type::Unit => {
            let mut s = v.name.clone();
            s.append(",");
            s
        },
        Type::Struct(sv) => {
            let fields = format_struct_fields(&sv.fields, types);
            let body = if any_multiline_exec(&fields) {
                let lines = split_all_lines(&fields);
                let indented = prefix_nonempty("    ", &lines);
                let joined = join_strings(&indented, "\n");
                let trimmed = trim_start_string(joined.as_str(), '\n');
                let mut b = "\n".to_owned();
                b.append(trimmed.as_str());
                b.append("\n");
                b
            } else {
                let joined = join_strings(&fields, " ");
                let trimmed = trim_end_string(joined.as_str(), ',');
                let mut b = " ".to_owned();
                b.append(trimmed.as_str());
                b.append(" ");
                b
            };
            let mut s = sv.ident.name.clone();
            s.append(" {");
            s.append(body.as_str());
            s.append("},");
            s
        },
        Type::Tuple(items) => {
            let texts = format_items(items, types);
            let joined = join_strings(&texts, ", ");
            let mut s = v.name.clone();
            s.append("(");
            s.append(joined.as_str());
            s.append("),");
            s
        },
        _ => String::new(),
    }
}

fn variant_lines(v: &Variant, types: &TypeMap) -> (res: Vec<String>)
    requires
        match v.ty {
            Type::Unit => true,
            Type::Struct(s) => fields_formattable(s.fields@, types@),
            Type::Tuple(items) => items_formattable(items@, types@),
            _ => false,
        },
    ensures
        str_views(res@) == rs_variant_lines(*v, types@),
{
    let mut attrs = v.attrs.to_serde_attrs();
    sort_strings(&mut attrs);
    let mut decl = serde_annotation_string(&attrs);
    let d = variant_decl(v, types);
    decl.append(d.as_str());
    let lines = if v.doc_lines.len() == 0 {
        split_string(decl.as_str(), '\n')
    } else {
        let docs = wrap_each("///", &v.doc_lines, "\n");
        let trimmed = trim_end_string(docs.as_str(), '\n');
        let mut lines = split_string(trimmed.as_str(), '\n');
        let mut rest = split_string(decl.as_str(), '\n');
        let ghost l1 = lines@;
        let ghost l2 = rest@;
        lines.append(&mut rest);
        assert(str_views(lines@) =~= str_views(l1) + str_views(l2));
        lines
    };
    prefix_nonempty("    ", &lines)
}

/// Defines an enum in the Rust plugin's types file.
pub fn create_enum_definition(ty: &Enum, types: &TypeMap) -> (res: String)
    requires
        variants_formattable(ty.variants@, types@),
    ensures
        res@ == rs_enum_definition(*ty, types@),
{
    let mut lines: Vec<String> = Vec::new();
    let mut i: usize = 0;
    assert(ty.variants@.take(0) =~= Seq::<Variant>::empty());
    while i < ty.variants.len()
        invariant
            i <= ty.variants@.len(),
            variants_formattable(ty.variants@, types@),
            str_views(lines@) == rs_variants_lines(ty.variants@.take(i as int), types@),
        decreases ty.variants@.len() - i,
    {
        let v = &ty.variants[i];
        assert(match v.ty {
            Type::Unit => true,
            Type::Struct(s) => fields_formattable(s.fields@, types@),
            Type::Tuple(items) => items_formattable(items@, types@),
            _ => false,
        });
        let mut vl = variant_lines(v, types);
        let ghost before = lines@;
        let ghost added = vl@;
        lines.append(&mut vl);
        proof {
            let t = ty.variants@.take(i as int + 1);
            assert(t.drop_last() =~= ty.variants@.take(i as int));
            assert(t.last() == ty.variants@[i as int]);
            assert(str_views(lines@) =~= str_views(before) + str_views(added));
        }
        i = i + 1;
    }
    assert(ty.variants@.take(ty.variants@.len() as int) =~= ty.variants@);
    let mut res = wrap_each("///", &ty.doc_lines, "\n");
    res.append("#[derive(Clone, Debug, Deserialize, PartialEq, Serialize)]\n");
    let attrs = ty.options.to_serde_attrs();
    let serde = serde_annotation_string(&attrs);
    res.append(serde.as_str());
    res.append("pub enum ");
    let ident = ty.ident.format(true);
    res.append(ident.as_str());
    res.append(" {\n");
    let joined = join_strings(&lines, "\n");
    res.append(joined.as_str());
    res.append("\n}");
    res
}


/// The types that a type map holds, in the order of their keys.
pub open spec fn map_values(types: Seq<(TypeIdent, Type)>) -> Seq<Type> {
    types.map_values(|e: (TypeIdent, Type)| e.1)
}

/// The distinct `std` imports that `values` need, in ascending order.
pub open spec fn std_types_of(values: Seq<Type>) -> Seq<Seq<char>>
    decreases values.len(),
{
    if values.len() == 0 {
        Seq::empty()
    } else {
        let prev = std_types_of(values.drop_last());
        match std_type_of(values.last()) {
            Some(s) => set_insert(prev, s),
            None => prev,
        }
    }
}

/// The `use std::...` line of the types file, if it needs one.
pub open spec fn std_imports_text(std: Seq<Seq<char>>) -> Seq<char> {
    if std.len() == 0 {
        Seq::empty()
    } else if std.len() == 1 {
        "use std::"@ + std[0] + ";\n"@
    } else {
        "use std::{"@ + join(std, ", "@) + "};\n"@
    }
}

/// The re-export of a type that a Rust module provides.
pub open spec fn rs_type_import(ty: Type) -> Option<Seq<char>> {
    match ty {
        Type::Enum(e) => match e.options.rust_module {
            Some(m) => Some("pub use "@ + m@ + "::"@ + e.ident.name@ + ";"@),
            None => None,
        },
        Type::Struct(s) => match s.options.rust_module {
            Some(m) => Some("pub use "@ + m@ + "::"@ + s.ident.name@ + ";"@),
            None => None,
        },
        _ => None,
    }
}

/// Whether the Rust plugin can write the definition of `ty`.
pub open spec fn type_def_formattable(ty: Type, types: Seq<(TypeIdent, Type)>) -> bool {
    match ty {
        Type::Alias(_, t) => rs_ident_text(t, types) is Some,
        Type::Enum(e) => e.options.rust_module is Some || e.ident.name@ == "Result"@
            || variants_formattable(e.variants@, types),
        Type::Struct(s) => s.options.rust_module is Some || fields_formattable(s.fields@, types),
        _ => true,
    }
}

/// The definition of `ty` in the Rust plugin's types file, if it gets one.
pub open spec fn rs_type_def(ty: Type, types: Seq<(TypeIdent, Type)>) -> Option<Seq<char>> {
    match ty {
        Type::Alias(name, t) => Some("pub type "@ + name@ + " = "@ + rs_ident_text(t, types).unwrap() + ";"@),
        Type::Enum(e) => if e.options.rust_module is Some || e.ident.name@ == "Result"@ {
            None
        } else {
            Some(rs_enum_definition(e, types))
        },
        Type::Struct(s) => if s.options.rust_module is Some {
            None
        } else {
            Some(rs_struct_definition(s, types))
        },
        _ => None,
    }
}

/// Whether the Rust plugin can write the types file for `types`.
pub open spec fn types_formattable(types: Seq<(TypeIdent, Type)>) -> bool {
    forall|i: int| 0 <= i < types.len() ==> type_def_formattable(#[trigger] types[i].1, types)
}

/// The Rust plugin's types file for `types`.
pub open spec fn rs_types_file(types: Seq<(TypeIdent, Type)>) -> Seq<char> {
    let values = map_values(types);
    let imports = somes(values.map_values(|t: Type| rs_type_import(t)));
    let imports_text = if imports.len() == 0 { Seq::empty() } else { join(imports, "\n"@) + "\n\n"@ };
    let defs = somes(values.map_values(|t: Type| rs_type_def(t, types)));
    "#![allow(unused_imports)]\nuse serde::{Deserialize, Serialize};\n"@ + std_imports_text(std_types_of(values))
        + "\n"@ + imports_text + join(defs, "\n\n"@) + "\n"@
}

fn type_import(ty: &Type) -> (res: Option<String>)
    ensures
        opt_view(res) == rs_type_import(*ty),
{
    let (name, module) = match ty {
        Type::Enum(e) => (&e.ident.name, &e.options.rust_module),
        Type::Struct(s) => (&s.ident.name, &s.options.rust_module),
        _ => {
            return None;
        },
    };
    match module {
        Some(m) => {
            let mut s = "pub use ".to_owned();
            s.append(m.as_str());
            s.append("::");
            s.append(name.as_str());
            s.append(";");
            Some(s)
        },
        None => None,
    }
}

fn type_def(ty: &Type, types: &TypeMap) -> (res: Option<String>)
    requires
        type_def_formattable(*ty, types@),
    ensures
        opt_view(res) == rs_type_def(*ty, types@),
{
    match ty {
        Type::Alias(name, t) => {
            let mut s = "pub type ".to_owned();
            s.append(name.as_str());
            s.append(" = ");
            let text = format_ident(t, types);
            s.append(text.as_str());
            s.append(";");
            Some(s)
        },
        Type::Enum(e) => if e.options.rust_module.is_some() || str_eq(e.ident.name.as_str(), "Result") {
            None
        } else {
            Some(create_enum_definition(e, types))
        },
        Type::Struct(s) => if s.options.rust_module.is_some() {
            None
        } else {
            Some(create_struct_definition(s, types))
        },
        _ => None,
    }
}

proof fn lemma_somes_step(s: Seq<Option<Seq<char>>>, i: int)
    requires
        0 <= i < s.len(),
    ensures
        somes(s.take(i + 1)) == match s[i] {
            Some(t) => somes(s.take(i)).push(t),
            None => somes(s.take(i)),
        },
{
    assert(s.take(i + 1).drop_last() =~= s.take(i));
    assert(s.take(i + 1).last() == s[i]);
}

/// The contents of the Rust plugin's types file for `types`.
pub fn generate_type_bindings(types: &TypeMap) -> (res: String)
    requires
        types_formattable(types@),
    ensures
        res@ == rs_types_file(types@),
{
    let ghost values = map_values(types@);
    let ghost import_opts = values.map_values(|t: Type| rs_type_import(t));
    let ghost def_opts = values.map_values(|t: Type| rs_type_def(t, types@));
    let mut std_types: Vec<String> = Vec::new();
    let mut imports: Vec<String> = Vec::new();
    let mut defs: Vec<String> = Vec::new();
    let mut i: usize = 0;
    assert(values.take(0) =~= Seq::<Type>::empty());
    assert(import_opts.take(0) =~= Seq::<Option<Seq<char>>>::empty());
    assert(def_opts.take(0) =~= Seq::<Option<Seq<char>>>::empty());
    while i < types.len()
        invariant
            i <= types@.len(),
            values == map_values(types@),
            import_opts == values.map_values(|t: Type| rs_type_import(t)),
            def_opts == values.map_values(|t: Type| rs_type_def(t, types@)),
            types_formattable(types@),
            str_views(std_types@) == std_types_of(values.take(i as int)),
            str_views(imports@) == somes(import_opts.take(i as int)),
            str_views(defs@) == somes(def_opts.take(i as int)),
        decreases types@.len() - i,
    {
        let (_, ty) = types.entry_at(i);
        assert(*ty == values[i as int]);
        proof {
            let t = values.take(i as int + 1);
            assert(t.drop_last() =~= values.take(i as int));
            assert(t.last() == values[i as int]);
            lemma_somes_step(import_opts, i as int);
            lemma_somes_step(def_opts, i as int);
            assert(type_def_formattable(types@[i as int].1, types@));
        }
        match collect_std_types(ty) {
            Some(s) => insert_distinct(&mut std_types, s),
            None => {},
        }
        match type_import(ty) {
            Some(s) => {
                let ghost before = imports@;
                imports.push(s);
                assert(str_views(imports@) =~= str_views(before).push(s@));
            },
            None => {},
        }
        match type_def(ty, types) {
            Some(s) => {
                let ghost before = defs@;
                defs.push(s);
                assert(str_views(defs@) =~= str_views(before).push(s@));
            },
            None => {},
        }
        i = i + 1;
    }
    assert(values.take(values.len() as int) =~= values);
    assert(import_opts.take(import_opts.len() as int) =~= import_opts);
    assert(def_opts.take(def_opts.len() as int) =~= def_opts);
    let mut res = "#![allow(unused_imports)]\nuse serde::{Deserialize, Serialize};\n".to_owned();
    if std_types.len() == 1 {
        res.append("use std::");
        res.append(std_types[0].as_str());
        res.append(";\n");
    } else if std_types.len() > 1 {
        res.append("use std::{");
        let joined = join_strings(&std_types, ", ");
        res.append(joined.as_str());
        res.append("};\n");
    }
    res.append("\n");
    if imports.len() > 0 {
        let joined = join_strings(&imports, "\n");
        res.append(joined.as_str());
        res.append("\n\n");
    }
    let joined = join_strings(&defs, "\n\n");
    res.append(joined.as_str());
    res.append("\n");
    res
}


/// `async ` for an async function, nothing otherwise.
pub open spec fn modifiers_text(f: Function) -> Seq<char> {
    if f.is_async { "async "@ } else { Seq::empty() }
}

/// The modifiers of a function declaration.
pub fn format_modifiers(function: &Function) -> (res: String)
    ensures
        res@ == modifiers_text(*function),
{
    if function.is_async { "async ".to_owned() } else { String::new() }
}

/// Whether the Rust plugin can write every type in the signature of `f`.
pub open spec fn function_formattable(f: Function, types: Seq<(TypeIdent, Type)>) -> bool {
    &&& forall|i: int| 0 <= i < f.args@.len() ==> (#[trigger] rs_ident_text(f.args@[i].ty, types)) is Some
    &&& match f.return_type {
        Some(t) => rs_ident_text(t, types) is Some,
        None => true,
    }
}

/// Whether the Rust plugin can write every function of `functions`.
pub open spec fn functions_formattable(functions: Seq<Function>, types: Seq<(TypeIdent, Type)>) -> bool {
    forall|i: int| 0 <= i < functions.len() ==> function_formattable(#[trigger] functions[i], types)
}

/// An argument as the Rust plugin declares it.
pub open spec fn rs_arg_text(a: FunctionArg, types: Seq<(TypeIdent, Type)>) -> Seq<char> {
    a.name@ + ": "@ + rs_ident_text(a.ty, types).unwrap()
}

/// How the Rust plugin declares a function, with the signature macro at
/// `macro_path`.
pub open spec fn rs_function_text(f: Function, types: Seq<(TypeIdent, Type)>, macro_path: Seq<char>) -> Seq<char> {
    let args = join(f.args@.map_values(|a: FunctionArg| rs_arg_text(a, types)), ", "@);
    let ret = match f.return_type {
        Some(t) => " -> "@ + rs_ident_text(t, types).unwrap(),
        None => Seq::empty(),
    };
    docs_text(str_views(f.doc_lines@)) + "#["@ + macro_path + "]\npub "@ + modifiers_text(f) + "fn "@ + f.name@
        + "("@ + args + ")"@ + ret + ";"@
}

/// How the Rust plugin declares the functions, separated by a blank line.
pub open spec fn rs_functions_text(functions: Seq<Function>, types: Seq<(TypeIdent, Type)>, macro_path: Seq<char>) -> Seq<char> {
    join(functions.map_values(|f: Function| rs_function_text(f, types, macro_path)), "\n\n"@)
}

fn format_function(func: &Function, types: &TypeMap, macro_path: &str) -> (res: String)
    requires
        function_formattable(*func, types@),
    ensures
        res@ == rs_function_text(*func, types@, macro_path@),
{
    let mut args: Vec<String> = Vec::new();
    let mut i: usize = 0;
    let ghost f = |a: FunctionArg| rs_arg_text(a, types@);
    while i < func.args.len()
        invariant
            i <= func.args@.len(),
            function_formattable(*func, types@),
            f == (|a: FunctionArg| rs_arg_text(a, types@)),
            str_views(args@) == func.args@.take(i as int).map_values(f),
        decreases func.args@.len() - i,
    {
        let arg = &func.args[i];
        assert(rs_ident_text(func.args@[i as int].ty, types@) is Some);
        let mut text = arg.name.clone();
        text.append(": ");
        let ty = format_ident(&arg.ty, types);
        text.append(ty.as_str());
        let ghost before = args@;
        args.push(text);
        assert(str_views(args@) =~= str_views(before).push(text@));
        assert(func.args@.take(i as int + 1).map_values(f) =~= func.args@.take(i as int).map_values(f).push(text@));
        i = i + 1;
    }
    assert(func.args@.take(func.args@.len() as int) =~= func.args@);
    let mut res = wrap_each("///", &func.doc_lines, "\n");
    res.append("#[");
    res.append(macro_path);
    res.append("]\npub ");
    let modifiers = format_modifiers(func);
    res.append(modifiers.as_str());
    res.append("fn ");
    res.append(func.name.as_str());
    res.append("(");
    let joined = join_strings(&args, ", ");
    res.append(joined.as_str());
    res.append(")");
    match &func.return_type {
        Some(t) => {
            res.append(" -> ");
            let ty = format_ident(t, types);
            res.append(ty.as_str());
        },
        None => {},
    }
    res.append(";");
    res
}

/// Declares the functions for the Rust plugin, with the signature macro at
/// `macro_path`.
pub fn format_functions(functions: &FunctionList, types: &TypeMap, macro_path: &str) -> (res: String)
    requires
        functions_formattable(functions@, types@),
    ensures
        res@ == rs_functions_text(functions@, types@, macro_path@),
{
    let list = functions.iter();
    let mut texts: Vec<String> = Vec::new();
    let mut i: usize = 0;
    let ghost f = |func: Function| rs_function_text(func, types@, macro_path@);
    while i < list.len()
        invariant
            i <= list@.len(),
            list@ == functions@,
            functions_formattable(functions@, types@),
            f == (|func: Function| rs_function_text(func, types@, macro_path@)),
            str_views(texts@) == list@.take(i as int).map_values(f),
        decreases list@.len() - i,
    {
        assert(function_formattable(list@[i as int], types@));
        let text = format_function(&list[i], types, macro_path);
        let ghost before = texts@;
        texts.push(text);
        assert(str_views(texts@) =~= str_views(before).push(text@));
        assert(list@.take(i as int + 1).map_values(f) =~= list@.take(i as int).map_values(f).push(text@));
        i = i + 1;
    }
    assert(list@.take(list@.len() as int) =~= list@);
    join_strings(&texts, "\n\n")
}

/// The Rust plugin's file of imported functions.
pub open spec fn rs_import_file(functions: Seq<Function>, types: Seq<(TypeIdent, Type)>) -> Seq<char> {
    "use crate::types::*;\n\n"@ + rs_functions_text(functions, types, "fp_bindgen_support::fp_import_signature"@) + "\n"@
}

/// The Rust plugin's file of exported functions.
pub open spec fn rs_export_file(functions: Seq<Function>, types: Seq<(TypeIdent, Type)>) -> Seq<char> {
    "use crate::types::*;\n\n"@ + rs_functions_text(functions, types, "fp_bindgen_support::fp_export_signature"@) + "\n"@
}

/// The contents of the Rust plugin's file of imported functions.
pub fn generate_imported_function_bindings(import_functions: &FunctionList, types: &TypeMap) -> (res: String)
    requires
        functions_formattable(import_functions@, types@),
    ensures
        res@ == rs_import_file(import_functions@, types@),
{
    let mut res = "use crate::types::*;\n\n".to_owned();
    let body = format_functions(import_functions, types, "fp_bindgen_support::fp_import_signature");
    res.append(body.as_str());
    res.append("\n");
    res
}

/// The contents of the Rust plugin's file of exported functions.
pub fn generate_exported_function_bindings(export_functions: &FunctionList, types: &TypeMap) -> (res: String)
    requires
        functions_formattable(export_functions@, types@),
    ensures
        res@ == rs_export_file(export_functions@, types@),
{
    let mut res = "use crate::types::*;\n\n".to_owned();
    let body = format_functions(export_functions, types, "fp_bindgen_support::fp_export_signature");
    res.append(body.as_str());
    res.append("\n");
    res
}


/// The number of entries at the start of `deps` whose names come before
/// `name`: where an entry of that name is looked for, or put.
pub open spec fn dep_pos(deps: Seq<(&'static str, CargoDependency)>, name: Seq<char>) -> nat
    decreases deps.len(),
{
    if deps.len() > 0 && seq_lt(deps[0].0@, name) {
        1 + dep_pos(deps.skip(1), name)
    } else {
        0
    }
}

/// Whether `after` is `before` with `dep` put in under `name`: merged into
/// the entry of that name where there is one, added before the first entry
/// with a later name otherwise.
pub open spec fn dep_upsert(
    before: Seq<(&'static str, CargoDependency)>,
    name: &'static str,
    dep: CargoDependency,
    after: Seq<(&'static str, CargoDependency)>,
) -> bool {
    let p = dep_pos(before, name@) as int;
    if p < before.len() && before[p].0@ == name@ {
        &&& after.len() == before.len()
        &&& after[p].0 == name
        &&& merged(before[p].1, dep, after[p].1)
        &&& forall|j: int| 0 <= j < before.len() && j != p ==> after[j] == before[j]
    } else {
        &&& after.len() == before.len() + 1
        &&& after.take(p) == before.take(p)
        &&& after.skip(p + 1) == before.skip(p)
        &&& after[p].0 == name
        &&& same_dependency(after[p].1, dep)
    }
}

/// Whether `end` is `start` with each of `updates` put in, in order.
pub open spec fn dep_upserts(
    start: Seq<(&'static str, CargoDependency)>,
    updates: Seq<(&'static str, CargoDependency)>,
    end: Seq<(&'static str, CargoDependency)>,
) -> bool
    decreases updates.len(),
{
    if updates.len() == 0 {
        end == start
    } else {
        exists|mid: Seq<(&'static str, CargoDependency)>|
            dep_upserts(start, updates.drop_last(), mid) && #[trigger] dep_upsert(mid, updates.last().0, updates.last().1, end)
    }
}

/// Whether every dependency of `deps` is well formed.
pub open spec fn deps_wf(deps: Seq<(&'static str, CargoDependency)>) -> bool {
    forall|i: int| 0 <= i < deps.len() ==> (#[trigger] deps[i]).1.wf()
}

proof fn lemma_dep_pos(deps: Seq<(&'static str, CargoDependency)>, name: Seq<char>, i: int)
    requires
        0 <= i <= deps.len(),
        forall|j: int| 0 <= j < i ==> seq_lt(#[trigger] deps[j].0@, name),
    ensures
        dep_pos(deps, name) == i + dep_pos(deps.skip(i), name),
    decreases i,
{
    if i > 0 {
        let rest = deps.skip(1);
        assert forall|j: int| 0 <= j < i - 1 implies seq_lt(#[trigger] rest[j].0@, name) by {
            assert(rest[j] == deps[j + 1]);
        }
        lemma_dep_pos(rest, name, i - 1);
        assert(rest.skip(i - 1) =~= deps.skip(i));
    } else {
        assert(deps.skip(0) =~= deps);
    }
}

/// Puts `dep` in under `name`, merging it into an entry of that name.
fn upsert_dependency(deps: &mut Vec<(&'static str, CargoDependency)>, name: &'static str, dep: &CargoDependency)
    requires
        deps_wf(old(deps)@),
        dep.wf(),
    ensures
        dep_upsert(old(deps)@, name, *dep, final(deps)@),
        deps_wf(final(deps)@),
{
    let ghost before = deps@;
    let mut p: usize = 0;
    while p < deps.len() && str_lt(deps[p].0, name)
        invariant
            p <= deps@.len(),
            deps@ == before,
            forall|j: int| 0 <= j < p ==> seq_lt(#[trigger] before[j].0@, name@),
        decreases deps@.len() - p,
    {
        p = p + 1;
    }
    proof {
        lemma_dep_pos(before, name@, p as int);
        if p < before.len() {
            assert(before.skip(p as int)[0] == before[p as int]);
        }
        assert(dep_pos(before, name@) == p);
    }
    if p < deps.len() && str_eq(deps[p].0, name) {
        let (_, existing) = deps.remove(p);
        assert(existing.wf());
        let m = existing.merge_or_replace_with(dep);
        deps.insert(p, (name, m));
        proof {
            assert forall|j: int| 0 <= j < before.len() && j != p implies deps@[j] == before[j] by {}
            assert forall|i: int| 0 <= i < deps@.len() implies (#[trigger] deps@[i]).1.wf() by {
                if i != p {
                    assert(deps@[i] == before[i]);
                }
            }
        }
    } else {
        let c = dep.clone();
        deps.insert(p, (name, c));
        proof {
            assert(deps@.take(p as int) =~= before.take(p as int));
            assert(deps@.skip(p as int + 1) =~= before.skip(p as int));
            assert forall|i: int| 0 <= i < deps@.len() implies (#[trigger] deps@[i]).1.wf() by {
                if i < p {
                    assert(deps@[i] == before[i]);
                } else if i > p {
                    assert(deps@[i] == before[i - 1]);
                } else {
                    assert(c.features@ == dep.features@);
                }
            }
        }
    }
}

/// The dependencies that custom types bring, in the order of the map.
pub open spec fn custom_dependencies(values: Seq<Type>) -> Seq<(&'static str, CargoDependency)>
    decreases values.len(),
{
    if values.len() == 0 {
        Seq::empty()
    } else {
        custom_dependencies(values.drop_last()) + match values.last() {
            Type::Custom(c) => c.rs_dependencies@,
            _ => Seq::empty(),
        }
    }
}

/// Whether `deps` are the dependencies that every plugin has: the support
/// crate (with `async` where a function is async), `once_cell`, `rmp-serde`
/// and `serde`.
pub open spec fn base_dependencies(deps: Seq<(&'static str, CargoDependency)>, requires_async: bool, support_version: Seq<char>) -> bool {
    &&& deps.len() == 4
    &&& deps[0].0@ == "fp-bindgen-support"@
    &&& version_dependency(deps[0].1, support_version,
            if requires_async { set!["guest"@, "async"@] } else { set!["guest"@] })
    &&& deps[1].0@ == "once_cell"@
    &&& version_dependency(deps[1].1, "1"@, Set::empty())
    &&& deps[2].0@ == "rmp-serde"@
    &&& version_dependency(deps[2].1, "1.0"@, Set::empty())
    &&& deps[3].0@ == "serde"@
    &&& version_dependency(deps[3].1, "1.0"@, set!["derive"@])
}

/// The `Cargo.toml` of the plugin crate, with the given dependencies.
pub open spec fn cargo_text(config: RustPluginConfig, deps: Seq<(&'static str, CargoDependency)>) -> Seq<char> {
    "[package]\nname = \""@ + config.name@ + "\"\nversion = \""@ + config.version@ + "\"\nauthors = "@ + config.authors@
        + "\nedition = \"2018\"\n\n[dependencies]\n"@
        + join(deps.map_values(|e: (&'static str, CargoDependency)| e.0@ + " = "@ + dependency_text(e.1)), "\n"@) + "\n"@
}

/// Whether the dependencies that the types and the settings bring are well
/// formed.
pub open spec fn cargo_inputs_wf(types: Seq<(TypeIdent, Type)>, config: RustPluginConfig) -> bool {
    &&& forall|i: int| 0 <= i < types.len() ==> match (#[trigger] types[i]).1 {
        Type::Custom(c) => deps_wf(c.rs_dependencies@),
        _ => true,
    }
    &&& deps_wf(config.dependencies@)
}

/// Whether some function is async.
pub open spec fn any_async_fn(functions: Seq<Function>) -> bool {
    exists|i: int| 0 <= i < functions.len() && (#[trigger] functions[i]).is_async
}

fn upsert_all(deps: &mut Vec<(&'static str, CargoDependency)>, updates: &Vec<(&'static str, CargoDependency)>, Ghost(start): Ghost<Seq<(&'static str, CargoDependency)>>, Ghost(done): Ghost<Seq<(&'static str, CargoDependency)>>)
    requires
        deps_wf(old(deps)@),
        deps_wf(updates@),
        dep_upserts(start, done, old(deps)@),
    ensures
        deps_wf(final(deps)@),
        dep_upserts(start, done + updates@, final(deps)@),
{
    let mut i: usize = 0;
    assert(done + updates@.take(0) =~= done);
    while i < updates.len()
        invariant
            i <= updates@.len(),
            deps_wf(deps@),
            deps_wf(updates@),
            dep_upserts(start, done + updates@.take(i as int), deps@),
        decreases updates@.len() - i,
    {
        let ghost mid = deps@;
        assert(updates@[i as int].1.wf());
        upsert_dependency(deps, updates[i].0, &updates[i].1);
        proof {
            let u = done + updates@.take(i as int + 1);
            assert(u.drop_last() =~= done + updates@.take(i as int));
            assert(u.last() == updates@[i as int]);
            assert(dep_upsert(mid, u.last().0, u.last().1, deps@));
        }
        i = i + 1;
    }
    assert(done + updates@.take(updates@.len() as int) =~= done + updates@);
}

/// The contents of the plugin crate's `Cargo.toml`: the base dependencies,
/// into which those of the custom types, in the order of the map, and then
/// those of the settings are merged; `support_version` is the version of
/// the support crate.
pub fn generate_cargo_file(
    config: &RustPluginConfig,
    import_functions: &FunctionList,
    types: &TypeMap,
    support_version: &'static str,
) -> (res: String)
    requires
        cargo_inputs_wf(types@, *config),
    ensures
        exists|start: Seq<(&'static str, CargoDependency)>, end: Seq<(&'static str, CargoDependency)>| {
            &&& base_dependencies(start, any_async_fn(import_functions@), support_version@)
            &&& dep_upserts(start, custom_dependencies(map_values(types@)) + config.dependencies@, end)
            &&& res@ == cargo_text(*config, end)
        },
{
    let list = import_functions.iter();
    let mut requires_async = false;
    let mut i: usize = 0;
    while i < list.len()
        invariant
            i <= list@.len(),
            list@ == import_functions@,
            requires_async == exists|j: int| 0 <= j < i && (#[trigger] list@[j]).is_async,
        decreases list@.len() - i,
    {
        if list[i].is_async {
            requires_async = true;
        }
        i = i + 1;
    }
    let mut features: Vec<&'static str> = Vec::new();
    features.push("guest");
    if requires_async {
        features.push("async");
    }
    let ghost fv = features@;
    let support = CargoDependency::with_version_and_features(support_version, features);
    proof {
        if requires_async {
            assert(strs_of(fv) =~= seq!["guest"@, "async"@]);
            assert(strs_of(fv).to_set() =~= set!["guest"@, "async"@]) by {
                assert(strs_of(fv)[0] == "guest"@);
                assert(strs_of(fv)[1] == "async"@);
            }
        } else {
            assert(strs_of(fv) =~= seq!["guest"@]);
            assert(strs_of(fv).to_set() =~= set!["guest"@]) by {
                assert(strs_of(fv)[0] == "guest"@);
            }
        }
    }
    let mut serde_features: Vec<&'static str> = Vec::new();
    serde_features.push("derive");
    let ghost sv = serde_features@;
    proof {
        assert(strs_of(sv) =~= seq!["derive"@]);
        assert(strs_of(sv).to_set() =~= set!["derive"@]) by {
            assert(strs_of(sv)[0] == "derive"@);
        }
    }
    let mut deps: Vec<(&'static str, CargoDependency)> = Vec::new();
    deps.push(("fp-bindgen-support", support));
    deps.push(("once_cell", CargoDependency::with_version("1")));
    deps.push(("rmp-serde", CargoDependency::with_version("1.0")));
    deps.push(("serde", CargoDependency::with_version_and_features("1.0", serde_features)));
    let ghost start = deps@;
    assert(requires_async == any_async_fn(import_functions@));
    assert(start[0].1 == support);
    assert(version_dependency(start[0].1, support_version@,
            if requires_async { set!["guest"@, "async"@] } else { set!["guest"@] }));
    assert(strs_of(start[1].1.features@) =~= Seq::<Seq<char>>::empty());
    assert(strs_of(start[1].1.features@).to_set() =~= Set::<Seq<char>>::empty());
    assert(strs_of(start[2].1.features@) =~= Seq::<Seq<char>>::empty());
    assert(strs_of(start[2].1.features@).to_set() =~= Set::<Seq<char>>::empty());
    assert(version_dependency(start[1].1, "1"@, Set::empty()));
    assert(version_dependency(start[2].1, "1.0"@, Set::empty()));
    assert(version_dependency(start[3].1, "1.0"@, set!["derive"@]));
    assert(base_dependencies(start, any_async_fn(import_functions@), support_version@));
    let mut k: usize = 0;
    let ghost values = map_values(types@);
    assert(values.take(0) =~= Seq::<Type>::empty());
    assert(dep_upserts(start, custom_dependencies(values.take(0)), deps@));
    while k < types.len()
        invariant
            k <= types@.len(),
            values == map_values(types@),
            cargo_inputs_wf(types@, *config),
            deps_wf(deps@),
            dep_upserts(start, custom_dependencies(values.take(k as int)), deps@),
        decreases types@.len() - k,
    {
        let (_, ty) = types.entry_at(k);
        proof {
            let t = values.take(k as int + 1);
            assert(t.drop_last() =~= values.take(k as int));
            assert(t.last() == values[k as int]);
        }
        match ty {
            Type::Custom(c) => {
                assert(deps_wf(c.rs_dependencies@));
                upsert_all(&mut deps, &c.rs_dependencies, Ghost(start), Ghost(custom_dependencies(values.take(k as int))));
            },
            _ => {
                assert(custom_dependencies(values.take(k as int + 1)) =~= custom_dependencies(values.take(k as int)));
            },
        }
        k = k + 1;
    }
    assert(values.take(values.len() as int) =~= values);
    upsert_all(&mut deps, &config.dependencies, Ghost(start), Ghost(custom_dependencies(values)));
    let mut lines: Vec<String> = Vec::new();
    let mut m: usize = 0;
    let ghost f = |e: (&'static str, CargoDependency)| e.0@ + " = "@ + dependency_text(e.1);
    while m < deps.len()
        invariant
            m <= deps@.len(),
            f == (|e: (&'static str, CargoDependency)| e.0@ + " = "@ + dependency_text(e.1)),
            str_views(lines@) == deps@.take(m as int).map_values(f),
        decreases deps@.len() - m,
    {
        let mut line = deps[m].0.to_owned();
        line.append(" = ");
        let text = deps[m].1.to_string();
        line.append(text.as_str());
        let ghost before = lines@;
        lines.push(line);
        assert(str_views(lines@) =~= str_views(before).push(line@));
        assert(deps@.take(m as int + 1).map_values(f) =~= deps@.take(m as int).map_values(f).push(line@));
        m = m + 1;
    }
    assert(deps@.take(deps@.len() as int) =~= deps@);
    let mut res = "[package]\nname = \"".to_owned();
    res.append(config.name.as_str());
    res.append("\"\nversion = \"");
    res.append(config.version.as_str());
    res.append("\"\nauthors = ");
    res.append(config.authors.as_str());
    res.append("\nedition = \"2018\"\n\n[dependencies]\n");
    let joined = join_strings(&lines, "\n");
    res.append(joined.as_str());
    res.append("\n");
    res
}


/// The `lib.rs` of the plugin crate.
pub const PLUGIN_LIB: &'static str = "#![allow(unused_imports)]
#[rustfmt::skip]
mod export;
#[rustfmt::skip]
mod import;
#[rustfmt::skip]
mod types;

pub use export::*;
pub use import::*;
pub use types::*;

pub use fp_bindgen_support::*;
";

/// The files of the Rust plugin crate, as pairs of a path relative to the
/// crate's directory and the file's contents: `Cargo.toml`, then the types,
/// the imported and the exported functions, and `lib.rs` under `src`.
pub fn generate_bindings(
    import_functions: &FunctionList,
    export_functions: &FunctionList,
    types: &TypeMap,
    config: &RustPluginConfig,
    support_version: &'static str,
) -> (res: Vec<(String, String)>)
    requires
        cargo_inputs_wf(types@, *config),
        types_formattable(types@),
        functions_formattable(import_functions@, types@),
        functions_formattable(export_functions@, types@),
    ensures
        res@.len() == 5,
        res@[0].0@ == "Cargo.toml"@,
        exists|start: Seq<(&'static str, CargoDependency)>, end: Seq<(&'static str, CargoDependency)>| {
            &&& base_dependencies(start, any_async_fn(import_functions@), support_version@)
            &&& dep_upserts(start, custom_dependencies(map_values(types@)) + config.dependencies@, end)
            &&& res@[0].1@ == cargo_text(*config, end)
        },
        res@[1].0@ == "src/types.rs"@,
        res@[1].1@ == rs_types_file(types@),
        res@[2].0@ == "src/import.rs"@,
        res@[2].1@ == rs_import_file(import_functions@, types@),
        res@[3].0@ == "src/export.rs"@,
        res@[3].1@ == rs_export_file(export_functions@, types@),
        res@[4].0@ == "src/lib.rs"@,
        res@[4].1@ == PLUGIN_LIB@,
{
    let mut files: Vec<(String, String)> = Vec::new();
    files.push(("Cargo.toml".to_owned(), generate_cargo_file(config, import_functions, types, support_version)));
    files.push(("src/types.rs".to_owned(), generate_type_bindings(types)));
    files.push(("src/import.rs".to_owned(), generate_imported_function_bindings(import_functions, types)));
    files.push(("src/export.rs".to_owned(), generate_exported_function_bindings(export_functions, types)));
    files.push(("src/lib.rs".to_owned(), PLUGIN_LIB.to_owned()));
    files
}


proof fn lemma_rs_args_len(args: Seq<(TypeIdent, Vec<String>)>, types: Seq<(TypeIdent, Type)>, fuel: nat)
    requires
        rs_args(args, types, fuel) is Some,
    ensures
        rs_args(args, types, fuel).unwrap().len() == args.len(),
    decreases args.len(),
{
    if args.len() > 0 {
        lemma_rs_args_len(args.drop_last(), types, fuel);
    }
}

proof fn lemma_rs_args_stuck(args: Seq<(TypeIdent, Vec<String>)>, types: Seq<(TypeIdent, Type)>, fuel: nat, k: int, n: int)
    requires
        0 <= k <= n <= args.len(),
        rs_args(args.take(k), types, fuel) is None,
    ensures
        rs_args(args.take(n), types, fuel) is None,
    decreases n - k,
{
    if n > k {
        lemma_rs_args_stuck(args, types, fuel, k, n - 1);
        assert(args.take(n).drop_last() =~= args.take(n - 1));
    }
}

proof fn lemma_rs_idents_stuck(items: Seq<TypeIdent>, types: Seq<(TypeIdent, Type)>, fuel: nat, k: int, n: int)
    requires
        0 <= k <= n <= items.len(),
        rs_idents(items.take(k), types, fuel) is None,
    ensures
        rs_idents(items.take(n), types, fuel) is None,
    decreases n - k,
{
    if n > k {
        lemma_rs_idents_stuck(items, types, fuel, k, n - 1);
        assert(items.take(n).drop_last() =~= items.take(n - 1));
    }
}

/// Whether the Rust plugin writes `ident` within `fuel` unfoldings of the
/// map.
fn ident_fits(ident: &TypeIdent, types: &TypeMap, fuel: u64) -> (res: bool)
    ensures
        res == (rs_ident(*ident, types@, fuel as nat) is Some),
    decreases fuel, 0nat, 0nat,
{
    if fuel == 0 {
        return false;
    }
    match types.get(ident) {
        Some(ty) => type_fits(ty, ident, types, fuel - 1),
        None => true,
    }
}

/// Whether the Rust plugin writes the generic arguments of `ident` within
/// `fuel` unfoldings of the map.
fn args_fit(ident: &TypeIdent, types: &TypeMap, fuel: u64) -> (res: bool)
    ensures
        res == (rs_args(ident.generic_args@, types@, fuel as nat) is Some),
    decreases fuel, 1nat, ident.generic_args@.len() + 1,
{
    let args = &ident.generic_args;
    let mut i: usize = 0;
    assert(args@.take(0) =~= Seq::<(TypeIdent, Vec<String>)>::empty());
    while i < args.len()
        invariant
            i <= args@.len(),
            *args == ident.generic_args,
            rs_args(args@.take(i as int), types@, fuel as nat) is Some,
        decreases args@.len() - i,
    {
        let ghost t = args@.take(i as int + 1);
        assert(t.drop_last() =~= args@.take(i as int));
        assert(t.last() == args@[i as int]);
        if !ident_fits(&args[i].0, types, fuel) {
            proof {
                lemma_rs_args_stuck(args@, types@, fuel as nat, i as int + 1, args@.len() as int);
                assert(args@.take(args@.len() as int) =~= args@);
            }
            return false;
        }
        i = i + 1;
    }
    assert(args@.take(args@.len() as int) =~= args@);
    true
}

/// An expected number of generic arguments, as a natural number.
pub open spec fn expected_count(expected: Option<usize>) -> Option<nat> {
    match expected {
        Some(n) => Some(n as nat),
        None => None,
    }
}

/// Whether the Rust plugin writes `ident` with `name` and the expected
/// number of generic arguments within `fuel` unfoldings of the map.
fn name_with_args_fits(expected: Option<usize>, ident: &TypeIdent, types: &TypeMap, fuel: u64) -> (res: bool)
    ensures
        forall|name: Seq<char>| res == (#[trigger] rs_name_with_args(name, expected_count(expected), *ident, types@, fuel as nat) is Some),
    decreases fuel, 1nat, ident.generic_args@.len() + 2,
{
    if !args_fit(ident, types, fuel) {
        return false;
    }
    proof {
        lemma_rs_args_len(ident.generic_args@, types@, fuel as nat);
    }
    match expected {
        Some(n) => ident.generic_args.len() == n,
        None => true,
    }
}

/// Whether the Rust plugin writes `ident`, which the map holds as `ty`,
/// within `fuel` unfoldings of the map.
fn type_fits(ty: &Type, ident: &TypeIdent, types: &TypeMap, fuel: u64) -> (res: bool)
    ensures
        res == (rs_type_with_ident(*ty, *ident, types@, fuel as nat) is Some),
    decreases fuel, 2nat, 0nat,
{
    match ty {
        Type::Container(name, _) | Type::List(name, _) => {
            let r = name_with_args_fits(Some(1), ident, types, fuel);
            assert(expected_count(Some(1usize)) == Some(1nat));
            assert(r == (rs_name_with_args(name@, expected_count(Some(1usize)), *ident, types@, fuel as nat) is Some));
            r
        },
        Type::Enum(e) => {
            let r = name_with_args_fits(None, ident, types, fuel);
            assert(r == (rs_name_with_args(e.ident.name@, expected_count(None), *ident, types@, fuel as nat) is Some));
            r
        },
        Type::Mapping(name, _, _) => {
            let r = name_with_args_fits(Some(2), ident, types, fuel);
            assert(expected_count(Some(2usize)) == Some(2nat));
            assert(r == (rs_name_with_args(name@, expected_count(Some(2usize)), *ident, types@, fuel as nat) is Some));
            r
        },
        Type::Struct(s) => {
            let r = name_with_args_fits(None, ident, types, fuel);
            assert(r == (rs_name_with_args(s.ident.name@, expected_count(None), *ident, types@, fuel as nat) is Some));
            r
        },
        Type::Tuple(items) => {
            let mut i: usize = 0;
            assert(items@.take(0) =~= Seq::<TypeIdent>::empty());
            while i < items.len()
                invariant
                    i <= items@.len(),
                    *ty == Type::Tuple(*items),
                    rs_idents(items@.take(i as int), types@, fuel as nat) is Some,
                decreases items@.len() - i,
            {
                let ghost t = items@.take(i as int + 1);
                assert(t.drop_last() =~= items@.take(i as int));
                assert(t.last() == items@[i as int]);
                if !ident_fits(&items[i], types, fuel) {
                    proof {
                        lemma_rs_idents_stuck(items@, types@, fuel as nat, i as int + 1, items@.len() as int);
                        assert(items@.take(items@.len() as int) =~= items@);
                    }
                    return false;
                }
                i = i + 1;
            }
            assert(items@.take(items@.len() as int) =~= items@);
            true
        },
        _ => true,
    }
}


/// Whether the Rust plugin writes `ident` within `fuel` unfoldings of the
/// map.
pub open spec fn ident_within(ident: TypeIdent, types: Seq<(TypeIdent, Type)>, fuel: nat) -> bool {
    rs_ident(ident, types, fuel) is Some
}

/// Whether the Rust plugin writes the types of `fields` within `fuel`
/// unfoldings of the map.
pub open spec fn fields_within(fields: Seq<Field>, types: Seq<(TypeIdent, Type)>, fuel: nat) -> bool {
    forall|i: int| 0 <= i < fields.len() ==> ident_within(#[trigger] fields[i].ty, types, fuel)
}

/// Whether the Rust plugin writes `items` within `fuel` unfoldings of the
/// map.
pub open spec fn items_within(items: Seq<TypeIdent>, types: Seq<(TypeIdent, Type)>, fuel: nat) -> bool {
    forall|i: int| 0 <= i < items.len() ==> ident_within(#[trigger] items[i], types, fuel)
}

/// Whether the Rust plugin defines every variant of `variants`, writing
/// its identifiers within `fuel` unfoldings of the map.
pub open spec fn variants_within(variants: Seq<Variant>, types: Seq<(TypeIdent, Type)>, fuel: nat) -> bool {
    forall|i: int| 0 <= i < variants.len() ==> match (#[trigger] variants[i]).ty {
        Type::Unit => true,
        Type::Struct(s) => fields_within(s.fields@, types, fuel),
        Type::Tuple(items) => items_within(items@, types, fuel),
        _ => false,
    }
}

/// Whether the Rust plugin defines `ty`, writing its identifiers within
/// `fuel` unfoldings of the map.
pub open spec fn type_def_within(ty: Type, types: Seq<(TypeIdent, Type)>, fuel: nat) -> bool {
    match ty {
        Type::Alias(_, t) => ident_within(t, types, fuel),
        Type::Enum(e) => e.options.rust_module is Some || e.ident.name@ == "Result"@
            || variants_within(e.variants@, types, fuel),
        Type::Struct(s) => s.options.rust_module is Some || fields_within(s.fields@, types, fuel),
        _ => true,
    }
}

/// Whether the Rust plugin declares `f`, writing its identifiers within
/// `fuel` unfoldings of the map.
pub open spec fn function_within(f: Function, types: Seq<(TypeIdent, Type)>, fuel: nat) -> bool {
    &&& forall|i: int| 0 <= i < f.args@.len() ==> ident_within(#[trigger] f.args@[i].ty, types, fuel)
    &&& match f.return_type {
        Some(t) => ident_within(t, types, fuel),
        None => true,
    }
}

/// Whether the Rust plugin declares every function of `functions`, writing
/// their identifiers within `fuel` unfoldings of the map.
pub open spec fn functions_within(functions: Seq<Function>, types: Seq<(TypeIdent, Type)>, fuel: nat) -> bool {
    forall|i: int| 0 <= i < functions.len() ==> function_within(#[trigger] functions[i], types, fuel)
}

/// Whether the Rust plugin writes its crate for the functions and types,
/// with every identifier written within `fuel` unfoldings of the map, and
/// the dependencies are well formed.
pub open spec fn plugin_within(
    imports: Seq<Function>,
    exports: Seq<Function>,
    types: Seq<(TypeIdent, Type)>,
    config: RustPluginConfig,
    fuel: nat,
) -> bool {
    &&& cargo_inputs_wf(types, config)
    &&& forall|i: int| 0 <= i < types.len() ==> type_def_within(#[trigger] types[i].1, types, fuel)
    &&& functions_within(imports, types, fuel)
    &&& functions_within(exports, types, fuel)
}

proof fn lemma_fits_text(ident: TypeIdent, types: Seq<(TypeIdent, Type)>, fuel: nat)
    requires
        rs_ident(ident, types, fuel) is Some,
    ensures
        rs_ident_text(ident, types) is Some,
{
}

proof fn lemma_functions_within(functions: Seq<Function>, types: Seq<(TypeIdent, Type)>, fuel: nat)
    requires
        functions_within(functions, types, fuel),
    ensures
        functions_formattable(functions, types),
{
    assert forall|i: int| 0 <= i < functions.len() implies function_formattable(#[trigger] functions[i], types) by {
        let f = functions[i];
        assert(function_within(f, types, fuel));
        assert forall|k: int| 0 <= k < f.args@.len() implies (#[trigger] rs_ident_text(f.args@[k].ty, types)) is Some by {
            assert(ident_within(f.args@[k].ty, types, fuel));
            lemma_fits_text(f.args@[k].ty, types, fuel);
        }
        if let Some(t) = f.return_type {
            lemma_fits_text(t, types, fuel);
        }
    }
}

/// What is written within some number of unfoldings of the map can be
/// written: a crate that the Rust plugin writes within `fuel` unfoldings is
/// one it can write.
pub proof fn lemma_plugin_within(
    imports: Seq<Function>,
    exports: Seq<Function>,
    types: Seq<(TypeIdent, Type)>,
    config: RustPluginConfig,
    fuel: nat,
)
    requires
        plugin_within(imports, exports, types, config, fuel),
    ensures
        cargo_inputs_wf(types, config),
        types_formattable(types),
        functions_formattable(imports, types),
        functions_formattable(exports, types),
{
    lemma_functions_within(imports, types, fuel);
    lemma_functions_within(exports, types, fuel);
    lemma_types_within(types, fuel);
}

/// Type definitions whose identifiers are written within `fuel` unfoldings
/// of the map of types can be written.
pub proof fn lemma_types_within(types: Seq<(TypeIdent, Type)>, fuel: nat)
    requires
        forall|i: int| 0 <= i < types.len() ==> type_def_within(#[trigger] types[i].1, types, fuel),
    ensures
        types_formattable(types),
{
    assert forall|i: int| 0 <= i < types.len() implies type_def_formattable(#[trigger] types[i].1, types) by {
        assert(type_def_within(types[i].1, types, fuel));
        match types[i].1 {
            Type::Alias(_, t) => {
                lemma_fits_text(t, types, fuel);
            },
            Type::Enum(e) => {
                if e.options.rust_module is None && e.ident.name@ != "Result"@ {
                    assert forall|j: int| 0 <= j < e.variants@.len() implies match (#[trigger] e.variants@[j]).ty {
                        Type::Unit => true,
                        Type::Struct(s) => fields_formattable(s.fields@, types),
                        Type::Tuple(items) => items_formattable(items@, types),
                        _ => false,
                    } by {
                        match e.variants@[j].ty {
                            Type::Struct(s) => {
                                assert forall|k: int| 0 <= k < s.fields@.len() implies (#[trigger] rs_ident_text(s.fields@[k].ty, types)) is Some by {
                                    assert(ident_within(s.fields@[k].ty, types, fuel));
                                    lemma_fits_text(s.fields@[k].ty, types, fuel);
                                }
                            },
                            Type::Tuple(items) => {
                                assert forall|k: int| 0 <= k < items@.len() implies (#[trigger] rs_ident_text(items@[k], types)) is Some by {
                                    assert(ident_within(items@[k], types, fuel));
                                    lemma_fits_text(items@[k], types, fuel);
                                }
                            },
                            _ => {},
                        }
                    }
                }
            },
            Type::Struct(s) => {
                if s.options.rust_module is None {
                    assert forall|k: int| 0 <= k < s.fields@.len() implies (#[trigger] rs_ident_text(s.fields@[k].ty, types)) is Some by {
                        assert(ident_within(s.fields@[k].ty, types, fuel));
                        lemma_fits_text(s.fields@[k].ty, types, fuel);
                    }
                }
            },
            _ => {},
        }
    }
}

fn fields_fit(fields: &Vec<Field>, types: &TypeMap, fuel: u64) -> (res: bool)
    ensures
        res == fields_within(fields@, types@, fuel as nat),
{
    let mut i: usize = 0;
    while i < fields.len()
        invariant
            i <= fields@.len(),
            forall|k: int| 0 <= k < i ==> ident_within(#[trigger] fields@[k].ty, types@, fuel as nat),
        decreases fields@.len() - i,
    {
        if !ident_fits(&fields[i].ty, types, fuel) {
            return false;
        }
        i = i + 1;
    }
    true
}

fn items_fit(items: &Vec<TypeIdent>, types: &TypeMap, fuel: u64) -> (res: bool)
    ensures
        res == items_within(items@, types@, fuel as nat),
{
    let mut i: usize = 0;
    while i < items.len()
        invariant
            i <= items@.len(),
            forall|k: int| 0 <= k < i ==> ident_within(#[trigger] items@[k], types@, fuel as nat),
        decreases items@.len() - i,
    {
        if !ident_fits(&items[i], types, fuel) {
            return false;
        }
        i = i + 1;
    }
    true
}

fn variants_fit(variants: &Vec<Variant>, types: &TypeMap, fuel: u64) -> (res: bool)
    ensures
        res == variants_within(variants@, types@, fuel as nat),
{
    let mut i: usize = 0;
    while i < variants.len()
        invariant
            i <= variants@.len(),
            forall|k: int| 0 <= k < i ==> match (#[trigger] variants@[k]).ty {
                Type::Unit => true,
                Type::Struct(s) => fields_within(s.fields@, types@, fuel as nat),
                Type::Tuple(items) => items_within(items@, types@, fuel as nat),
                _ => false,
            },
        decreases variants@.len() - i,
    {
        let ok = match &variants[i].ty {
            Type::Unit => true,
            Type::Struct(s) => fields_fit(&s.fields, types, fuel),
            Type::Tuple(items) => items_fit(items, types, fuel),
            _ => false,
        };
        if !ok {
            return false;
        }
        i = i + 1;
    }
    true
}

fn type_def_fits(ty: &Type, types: &TypeMap, fuel: u64) -> (res: bool)
    ensures
        res == type_def_within(*ty, types@, fuel as nat),
{
    match ty {
        Type::Alias(_, t) => ident_fits(t, types, fuel),
        Type::Enum(e) => e.options.rust_module.is_some() || str_eq(e.ident.name.as_str(), "Result")
            || variants_fit(&e.variants, types, fuel),
        Type::Struct(s) => s.options.rust_module.is_some() || fields_fit(&s.fields, types, fuel),
        _ => true,
    }
}

fn functions_fit(functions: &FunctionList, types: &TypeMap, fuel: u64) -> (res: bool)
    ensures
        res == functions_within(functions@, types@, fuel as nat),
{
    let fs = functions.iter();
    let mut i: usize = 0;
    while i < fs.len()
        invariant
            i <= fs@.len(),
            fs@ == functions@,
            forall|k: int| 0 <= k < i ==> function_within(#[trigger] fs@[k], types@, fuel as nat),
        decreases fs@.len() - i,
    {
        let f = &fs[i];
        let mut j: usize = 0;
        while j < f.args.len()
            invariant
                j <= f.args@.len(),
                i < fs@.len(),
                fs@ == functions@,
                *f == fs@[i as int],
                forall|k: int| 0 <= k < j ==> ident_within(#[trigger] f.args@[k].ty, types@, fuel as nat),
            decreases f.args@.len() - j,
        {
            if !ident_fits(&f.args[j].ty, types, fuel) {
                assert(!function_within(functions@[i as int], types@, fuel as nat));
                return false;
            }
            j = j + 1;
        }
        let ret_ok = match &f.return_type {
            Some(t) => ident_fits(t, types, fuel),
            None => true,
        };
        if !ret_ok {
            assert(!function_within(functions@[i as int], types@, fuel as nat));
            return false;
        }
        i = i + 1;
    }
    true
}

/// Whether the features of a dependency are sorted and free of repeats.
fn dependency_wf(d: &CargoDependency) -> (res: bool)
    ensures
        res == d.wf(),
{
    let ghost s = strs_of(d.features@);
    let mut i: usize = 1;
    if d.features.len() == 0 {
        return true;
    }
    while i < d.features.len()
        invariant
            1 <= i <= d.features@.len(),
            s == strs_of(d.features@),
            strictly_sorted(s.take(i as int)),
        decreases d.features@.len() - i,
    {
        if !str_lt(d.features[i - 1], d.features[i]) {
            assert(s[i - 1] == d.features@[i - 1]@ && s[i as int] == d.features@[i as int]@);
            return false;
        }
        proof {
            let t = s.take(i as int + 1);
            assert forall|a: int, b: int| 0 <= a < b < t.len() implies seq_lt(#[trigger] t[a], #[trigger] t[b]) by {
                assert(s[i - 1] == d.features@[i - 1]@ && s[i as int] == d.features@[i as int]@);
                if b < i {
                    assert(s.take(i as int)[a] == t[a] && s.take(i as int)[b] == t[b]);
                } else if a < i - 1 {
                    assert(s.take(i as int)[a] == t[a] && s.take(i as int)[i - 1] == t[i - 1]);
                    lemma_seq_lt_transitive(t[a], t[i - 1], t[b]);
                }
            }
        }
        i = i + 1;
    }
    assert(s.take(s.len() as int) =~= s);
    true
}

fn deps_are_wf(deps: &Vec<(&'static str, CargoDependency)>) -> (res: bool)
    ensures
        res == deps_wf(deps@),
{
    let mut i: usize = 0;
    while i < deps.len()
        invariant
            i <= deps@.len(),
            forall|k: int| 0 <= k < i ==> (#[trigger] deps@[k]).1.wf(),
        decreases deps@.len() - i,
    {
        if !dependency_wf(&deps[i].1) {
            return false;
        }
        i = i + 1;
    }
    true
}

/// Whether the Rust plugin can write the types of `types` and the
/// functions of both lists, and the dependencies of the custom types and
/// of `config` are well formed, with every identifier written within `fuel`
/// unfoldings of the map of types.
/// Whether every type definition of the map can be written within `fuel`
/// unfoldings of the map of types.
pub fn types_writable(types: &TypeMap, fuel: u64) -> (res: bool)
    ensures
        res == (forall|i: int| 0 <= i < types@.len() ==> type_def_within(#[trigger] types@[i].1, types@, fuel as nat)),
        res ==> types_formattable(types@),
{
    let mut i: usize = 0;
    while i < types.len()
        invariant
            i <= types@.len(),
            forall|k: int| 0 <= k < i ==> type_def_within(#[trigger] types@[k].1, types@, fuel as nat),
        decreases types@.len() - i,
    {
        let (_, ty) = types.entry_at(i);
        if !type_def_fits(ty, types, fuel) {
            return false;
        }
        i = i + 1;
    }
    proof {
        lemma_types_within(types@, fuel as nat);
    }
    true
}

pub fn plugin_writable(
    import_functions: &FunctionList,
    export_functions: &FunctionList,
    types: &TypeMap,
    config: &RustPluginConfig,
    fuel: u64,
) -> (res: bool)
    ensures
        res == plugin_within(import_functions@, export_functions@, types@, *config, fuel as nat),
        res ==> {
            &&& cargo_inputs_wf(types@, *config)
            &&& types_formattable(types@)
            &&& functions_formattable(import_functions@, types@)
            &&& functions_formattable(export_functions@, types@)
        },
{
    let mut i: usize = 0;
    while i < types.len()
        invariant
            i <= types@.len(),
            forall|k: int| 0 <= k < i ==> type_def_within(#[trigger] types@[k].1, types@, fuel as nat),
            forall|k: int| 0 <= k < i ==> match (#[trigger] types@[k]).1 {
                Type::Custom(c) => deps_wf(c.rs_dependencies@),
                _ => true,
            },
        decreases types@.len() - i,
    {
        let (_, ty) = types.entry_at(i);
        if !type_def_fits(ty, types, fuel) {
            return false;
        }
        if let Type::Custom(c) = ty {
            if !deps_are_wf(&c.rs_dependencies) {
                return false;
            }
        }
        i = i + 1;
    }
    let res = deps_are_wf(&config.dependencies) && functions_fit(import_functions, types, fuel)
        && functions_fit(export_functions, types, fuel);
    proof {
        if res {
            lemma_plugin_within(import_functions@, export_functions@, types@, *config, fuel as nat);
        }
    }
    res
}


/// The Serde attributes annotated on a field of the Rust plugin are, in
/// ascending order, exactly the field's own attributes and, where the field's
/// type is a custom type, every Serde attribute of that custom type, each as
/// often as it occurs: none is lost and none is added.
pub proof fn lemma_field_annotation_attrs(field: Field, types: Seq<(TypeIdent, Type)>)
    ensures
        crate::text::ascending(sort_strs(field_serde_attrs_with(field, types))),
        match lookup(types, field.ty) {
            Some(Type::Custom(c)) => {
                &&& sort_strs(field_serde_attrs_with(field, types)).to_multiset()
                    == (field_serde_attrs(field.attrs@) + str_views(c.serde_attrs@)).to_multiset()
                &&& forall|i: int| 0 <= i < c.serde_attrs@.len()
                    ==> sort_strs(field_serde_attrs_with(field, types)).contains(#[trigger] c.serde_attrs@[i]@)
            },
            _ => sort_strs(field_serde_attrs_with(field, types)).to_multiset()
                == field_serde_attrs(field.attrs@).to_multiset(),
        },
        forall|i: int| 0 <= i < field_serde_attrs(field.attrs@).len()
            ==> sort_strs(field_serde_attrs_with(field, types)).contains(#[trigger] field_serde_attrs(field.attrs@)[i]),
{
    let own = field_serde_attrs(field.attrs@);
    let all = field_serde_attrs_with(field, types);
    let sorted = sort_strs(all);
    crate::text::lemma_sort_strs_sorts(all);
    sorted.to_multiset_ensures();
    all.to_multiset_ensures();
    match lookup(types, field.ty) {
        Some(Type::Custom(c)) => {
            let extra = str_views(c.serde_attrs@);
            assert(all == own + extra);
            vstd::seq_lib::lemma_multiset_commutative(own, extra);
            extra.to_multiset_ensures();
            assert forall|i: int| 0 <= i < c.serde_attrs@.len() implies sorted.contains(#[trigger] c.serde_attrs@[i]@) by {
                assert(all[own.len() + i] == extra[i]);
                assert(all.contains(extra[i]));
                assert(all.to_multiset().count(extra[i]) > 0);
                assert(sorted.to_multiset().count(extra[i]) > 0);
            }
            assert forall|i: int| 0 <= i < own.len() implies sorted.contains(#[trigger] own[i]) by {
                assert(all[i] == own[i]);
                assert(all.contains(own[i]));
                assert(all.to_multiset().count(own[i]) > 0);
                assert(sorted.to_multiset().count(own[i]) > 0);
            }
        },
        _ => {
            assert(all =~= own);
            assert forall|i: int| 0 <= i < own.len() implies sorted.contains(#[trigger] own[i]) by {
                assert(all[i] == own[i]);
                assert(all.contains(own[i]));
                assert(all.to_multiset().count(own[i]) > 0);
                assert(sorted.to_multiset().count(own[i]) > 0);
            }
        },
    }
}


proof fn lemma_rs_ident_step(ident: TypeIdent, types: Seq<(TypeIdent, Type)>, fuel: nat)
    requires
        rs_ident(ident, types, fuel) is Some,
    ensures
        rs_ident(ident, types, fuel + 1) == rs_ident(ident, types, fuel),
    decreases fuel, 0nat, 0nat,
{
    if fuel > 0 {
        match lookup(types, ident) {
            Some(ty) => lemma_rs_type_step(ty, ident, types, (fuel - 1) as nat),
            None => {},
        }
    }
}

proof fn lemma_rs_args_step(args: Seq<(TypeIdent, Vec<String>)>, types: Seq<(TypeIdent, Type)>, fuel: nat)
    requires
        rs_args(args, types, fuel) is Some,
    ensures
        rs_args(args, types, fuel + 1) == rs_args(args, types, fuel),
    decreases fuel, 1nat, args.len(),
{
    if args.len() > 0 {
        lemma_rs_args_step(args.drop_last(), types, fuel);
        lemma_rs_ident_step(args.last().0, types, fuel);
    }
}

proof fn lemma_rs_idents_step(items: Seq<TypeIdent>, types: Seq<(TypeIdent, Type)>, fuel: nat)
    requires
        rs_idents(items, types, fuel) is Some,
    ensures
        rs_idents(items, types, fuel + 1) == rs_idents(items, types, fuel),
    decreases fuel, 1nat, items.len(),
{
    if items.len() > 0 {
        lemma_rs_idents_step(items.drop_last(), types, fuel);
        lemma_rs_ident_step(items.last(), types, fuel);
    }
}

proof fn lemma_rs_type_step(ty: Type, ident: TypeIdent, types: Seq<(TypeIdent, Type)>, fuel: nat)
    requires
        rs_type_with_ident(ty, ident, types, fuel) is Some,
    ensures
        rs_type_with_ident(ty, ident, types, fuel + 1) == rs_type_with_ident(ty, ident, types, fuel),
    decreases fuel, 2nat, 0nat,
{
    match ty {
        Type::Tuple(items) => lemma_rs_idents_step(items@, types, fuel),
        Type::Alias(_, _) | Type::Custom(_) | Type::Unit | Type::Primitive(_) | Type::String => {},
        _ => lemma_rs_args_step(ident.generic_args@, types, fuel),
    }
}

proof fn lemma_rs_ident_more_fuel(ident: TypeIdent, types: Seq<(TypeIdent, Type)>, f: nat, g: nat)
    requires
        rs_ident(ident, types, f) is Some,
        f <= g,
    ensures
        rs_ident(ident, types, g) == rs_ident(ident, types, f),
    decreases g - f,
{
    if f < g {
        lemma_rs_ident_more_fuel(ident, types, f, (g - 1) as nat);
        lemma_rs_ident_step(ident, types, (g - 1) as nat);
    }
}

proof fn lemma_rs_args_more_fuel(args: Seq<(TypeIdent, Vec<String>)>, types: Seq<(TypeIdent, Type)>, f: nat, g: nat)
    requires
        rs_args(args, types, f) is Some,
        f <= g,
    ensures
        rs_args(args, types, g) == rs_args(args, types, f),
    decreases g - f,
{
    if f < g {
        lemma_rs_args_more_fuel(args, types, f, (g - 1) as nat);
        lemma_rs_args_step(args, types, (g - 1) as nat);
    }
}

proof fn lemma_rs_ident_text_at(ident: TypeIdent, types: Seq<(TypeIdent, Type)>, f: nat)
    requires
        rs_ident(ident, types, f) is Some,
    ensures
        rs_ident_text(ident, types) == rs_ident(ident, types, f),
{
    let g = choose|g: nat| #[trigger] rs_ident(ident, types, g) is Some;
    assert(rs_ident(ident, types, g) is Some);
    if f <= g {
        lemma_rs_ident_more_fuel(ident, types, f, g);
    } else {
        lemma_rs_ident_more_fuel(ident, types, g, f);
    }
}

/// The texts of generic arguments, each with its runtime bounds appended.
pub open spec fn rs_arg_texts(args: Seq<(TypeIdent, Vec<String>)>, types: Seq<(TypeIdent, Type)>) -> Seq<Seq<char>> {
    args.map_values(|a: (TypeIdent, Vec<String>)| rs_ident_text(a.0, types).unwrap() + bounds_text(str_views(a.1@)))
}

proof fn lemma_rs_args_fuel(args: Seq<(TypeIdent, Vec<String>)>, types: Seq<(TypeIdent, Type)>) -> (f: nat)
    requires
        forall|i: int| 0 <= i < args.len() ==> (#[trigger] rs_ident_text(args[i].0, types)) is Some,
    ensures
        rs_args(args, types, f) == Some(rs_arg_texts(args, types)),
    decreases args.len(),
{
    if args.len() == 0 {
        assert(rs_arg_texts(args, types) =~= Seq::<Seq<char>>::empty());
        0
    } else {
        let d = args.drop_last();
        assert forall|i: int| 0 <= i < d.len() implies (#[trigger] rs_ident_text(d[i].0, types)) is Some by {
            assert(d[i] == args[i]);
        }
        let fd = lemma_rs_args_fuel(d, types);
        let last = args.last();
        assert(rs_ident_text(args[args.len() - 1].0, types) is Some);
        let fl = choose|f: nat| #[trigger] rs_ident(last.0, types, f) is Some;
        assert(rs_ident(last.0, types, fl) is Some);
        let f: nat = if fd <= fl { fl } else { fd };
        lemma_rs_args_more_fuel(d, types, fd, f);
        lemma_rs_ident_more_fuel(last.0, types, fl, f);
        lemma_rs_ident_text_at(last.0, types, f);
        assert(rs_arg_texts(args, types) =~= rs_arg_texts(d, types).push(
            rs_ident_text(last.0, types).unwrap() + bounds_text(str_views(last.1@))));
        f
    }
}

/// How the Rust plugin writes a generic type: the name the map gives it
/// (a container's, list's or map's own name, or the struct's or enum's),
/// followed by the texts of its generic arguments with their runtime
/// bounds, in their order (so a map's key before its value), in angle
/// brackets; the name alone without arguments. A container or list takes
/// exactly one argument and a map exactly two; an alias is written by its
/// name, a custom type by its Rust type and the unit type as `()`.
pub proof fn lemma_rs_text_of_generic(ident: TypeIdent, types: Seq<(TypeIdent, Type)>)
    requires
        forall|i: int| 0 <= i < ident.generic_args@.len() ==> (#[trigger] rs_ident_text(ident.generic_args@[i].0, types)) is Some,
    ensures
        ({
            let args = rs_arg_texts(ident.generic_args@, types);
            let with_args = |name: Seq<char>| if args.len() == 0 { name } else { name + "<"@ + join(args, ", "@) + ">"@ };
            match lookup(types, ident) {
                Some(Type::Mapping(name, _, _)) => args.len() == 2 ==> rs_ident_text(ident, types) == Some(
                    name@ + "<"@ + args[0] + ", "@ + args[1] + ">"@),
                Some(Type::List(name, _)) => args.len() == 1 ==> rs_ident_text(ident, types) == Some(
                    name@ + "<"@ + args[0] + ">"@),
                Some(Type::Container(name, _)) => args.len() == 1 ==> rs_ident_text(ident, types) == Some(
                    name@ + "<"@ + args[0] + ">"@),
                Some(Type::Struct(s)) => rs_ident_text(ident, types) == Some(with_args(s.ident.name@)),
                Some(Type::Enum(e)) => rs_ident_text(ident, types) == Some(with_args(e.ident.name@)),
                Some(Type::Alias(name, _)) => rs_ident_text(ident, types) == Some(name@),
                Some(Type::Custom(c)) => rs_ident_text(ident, types) == Some(c.rs_ty@),
                Some(Type::Unit) => rs_ident_text(ident, types) == Some("()"@),
                _ => true,
            }
        }),
{
    let f = lemma_rs_args_fuel(ident.generic_args@, types);
    let args = rs_arg_texts(ident.generic_args@, types);
    match lookup(types, ident) {
        Some(ty) => {
            match ty {
                Type::Tuple(_) | Type::Primitive(_) | Type::String => {},
                _ => {
                    if rs_type_with_ident(ty, ident, types, f) is Some {
                        lemma_rs_ident_text_at(ident, types, f + 1);
                    }
                    if args.len() == 2 {
                        assert(join(args, ", "@) == args[0] + ", "@ + args[1]) by {
                            assert(args.drop_last().len() == 1);
                            assert(args.drop_last()[0] == args[0]);
                            assert(join(args.drop_last(), ", "@) == args[0]);
                            assert(args.last() == args[1]);
                        }
                    }
                    if args.len() == 1 {
                        assert(join(args, ", "@) == args[0]);
                    }
                },
            }
        },
        None => {},
    }
}

} // verus!
